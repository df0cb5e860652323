//! The output pump's per-read step.
//!
//! One background context per session blocking-reads the controlling
//! handle and forwards decoded chunks to the host's event sink.  The
//! loop itself performs I/O and event delivery and so lives with the
//! host; each of its iterations is one call of `pump_read` here, whose
//! classification of the read outcome is verified: a non-empty chunk
//! becomes an `Output` event with the bytes decoded lossily, an
//! end-of-stream or failed read becomes `Closed`, upon which the host
//! removes the session from the registry and emits exactly one exit
//! event.

use vstd::prelude::*;

use crate::pty_io::{lossy_text, read_chunk, utf8_lossy, PtyReader};

verus! {

/// The payload of one output notification: which session spoke, and the
/// decoded text it produced.
#[derive(Debug, Clone)]
pub struct PtyOutput {
    /// The id of the session the text came from.
    pub pty_id: String,
    /// One decoded chunk of terminal output.
    pub data: String,
}

/// What one pump step observed: a chunk of decoded output, or the end
/// of the session's stream.
#[derive(Debug)]
pub enum PumpEvent {
    /// A non-empty chunk of terminal output, decoded as text.
    Output(String),
    /// End of stream or a failed read: the session is over.
    Closed,
}

/// Turns one read outcome into the event the pump forwards: a non-empty
/// chunk of bytes becomes its lossily decoded text, an empty chunk
/// (end of stream) or a failed read closes the session.
pub fn classify_chunk(chunk: Result<Vec<u8>, String>) -> (ev: PumpEvent)
    ensures
        (chunk matches Ok(b) && b@.len() > 0) <==> ev is Output,
        ev matches PumpEvent::Output(s) ==> (chunk matches Ok(b) && b@.len() > 0 && s@
            == lossy_text(b@)),
{
    match chunk {
        Ok(b) => {
            if b.len() > 0 {
                PumpEvent::Output(utf8_lossy(b.as_slice()))
            } else {
                PumpEvent::Closed
            }
        },
        Err(_) => PumpEvent::Closed,
    }
}

/// Performs one blocking read on the controlling handle and classifies
/// the outcome.  What comes back from the terminal is not predictable,
/// so the contract states what holds of every outcome: an `Output`
/// event always carries the lossy decoding of some non-empty chunk of
/// at most 4096 bytes.
pub fn pump_read(r: &mut PtyReader) -> (ev: PumpEvent)
    ensures
        ev matches PumpEvent::Output(s) ==> exists|b: Seq<u8>|
            0 < b.len() <= 4096 && s@ == lossy_text(b),
{
    let chunk = read_chunk(r);
    classify_chunk(chunk)
}

} // verus!
