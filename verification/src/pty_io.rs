//! Trusted wrappers around the OS pseudo-terminal layer.
//!
//! Everything in this module that carries `#[verifier::external_body]` is
//! believed, not proved: each wrapper makes exactly one call into the
//! `portable_pty` or `uuid` crate (or one `std` I/O call on a handle those
//! crates produced) and converts its arguments and result.  The registry
//! and pump logic elsewhere in the crate is verified against these
//! contracts alone.

use vstd::prelude::*;

verus! {

/// Declares `portable_pty::PtyPair`, the pair of controlling and worker
/// handles of one pseudo-terminal, as an opaque outside type.
#[verifier::external_type_specification]
#[verifier::external_body]
pub struct ExPtyPair(portable_pty::PtyPair);

/// Declares `portable_pty::CommandBuilder`, the description of a child
/// process to launch, as an opaque outside type.
#[verifier::external_type_specification]
#[verifier::external_body]
pub struct ExCommandBuilder(portable_pty::CommandBuilder);

/// The read side of a controlling handle.  The inner value is a boxed
/// `std::io::Read` trait object from `portable_pty`, which cannot be
/// declared to the verifier directly, so the whole struct is opaque.
#[verifier::external_body]
pub struct PtyReader {
    inner: Box<dyn std::io::Read + Send>,
}

/// A handle on the single write side of a controlling handle, behind
/// its own serialization: the boxed `std::io::Write` trait object from
/// `portable_pty` (which cannot be declared to the verifier directly)
/// sits under one `parking_lot::Mutex` shared by every clone of the
/// handle, so at most one write-and-flush sequence runs at a time
/// however many callers hold a clone.
#[verifier::external_body]
pub struct SharedWriter {
    inner: std::sync::Arc<parking_lot::Mutex<Box<dyn std::io::Write + Send>>>,
}

/// A handle on a spawned child process.  The inner value is a boxed
/// `portable_pty::Child` trait object, which cannot be declared to the
/// verifier directly, so the whole struct is opaque.
#[verifier::external_body]
pub struct ChildProc {
    inner: Box<dyn portable_pty::Child + Send + Sync>,
}

impl ChildProc {
    /// Blocks until the child process has exited, reaping it.  Relies on
    /// `portable_pty::Child::wait`; the exit status is discarded.
    #[verifier::external_body]
    pub fn wait_exit(&mut self) {
        let _ = self.inner.wait();
    }
}

/// A handle on the platform's pseudo-terminal implementation.  The
/// inner value is a boxed `portable_pty::PtySystem` trait object, which
/// cannot be declared to the verifier directly, so the whole struct is
/// opaque.
#[verifier::external_body]
pub struct PtySystemHandle {
    inner: Box<dyn portable_pty::PtySystem + Send>,
}

/// Obtains the platform's pseudo-terminal implementation.  Relies on
/// `portable_pty::native_pty_system`.
#[verifier::external_body]
pub(crate) fn pty_system() -> (r: PtySystemHandle) {
    PtySystemHandle { inner: portable_pty::native_pty_system() }
}

/// Opens a new pseudo-terminal with the given geometry.  Relies on
/// `portable_pty::PtySystem::openpty`: on success the result is a fresh
/// pair of controlling and worker handles sized `rows` by `cols`; on
/// failure it is the allocation error's message.
#[verifier::external_body]
pub(crate) fn open_pty(sys: &PtySystemHandle, rows: u16, cols: u16) -> (r: Result<
    portable_pty::PtyPair,
    String,
>) {
    sys.inner.openpty(portable_pty::PtySize { rows, cols, pixel_width: 0, pixel_height: 0 })
        .map_err(|e| format!("Failed to open PTY: {}", e))
}

/// The argument vector a command description holds, executable first.
pub uninterp spec fn builder_argv(cb: portable_pty::CommandBuilder) -> Seq<Seq<char>>;

/// The working directory a command description holds, when one was set.
pub uninterp spec fn builder_cwd(cb: portable_pty::CommandBuilder) -> Option<Seq<char>>;

/// The environment overrides a command description holds, beyond the
/// base environment every description inherits.
pub uninterp spec fn builder_env(cb: portable_pty::CommandBuilder) -> Map<Seq<char>, Seq<char>>;

/// The empty override map a fresh command description starts with.
pub open spec fn no_env_overrides() -> Map<Seq<char>, Seq<char>> {
    Map::empty()
}

/// Begins a child-process description whose executable is `prog`,
/// leaving it in `out`.  Relies on `portable_pty::CommandBuilder::new`:
/// the argument vector starts as the program alone, no working
/// directory is set, and no environment override is recorded yet.
#[verifier::external_body]
pub(crate) fn command_new(prog: &String, out: &mut Option<portable_pty::CommandBuilder>)
    ensures
        *final(out) is Some,
        (*final(out)) matches Some(built) ==> builder_argv(built) == seq![prog@],
        (*final(out)) matches Some(built) ==> builder_cwd(built) == None::<Seq<char>>,
        (*final(out)) matches Some(built) ==> builder_env(built) == no_env_overrides(),

{
    *out = Some(portable_pty::CommandBuilder::new(prog));
}

/// Appends one argument to the child-process description.  Relies on
/// `portable_pty::CommandBuilder::arg`, which pushes onto the argument
/// vector and touches nothing else.
#[verifier::external_body]
pub(crate) fn command_arg(cmd: &mut portable_pty::CommandBuilder, arg: &String)
    ensures
        builder_argv(*final(cmd)) == builder_argv(*old(cmd)).push(arg@),
        builder_cwd(*final(cmd)) == builder_cwd(*old(cmd)),
        builder_env(*final(cmd)) == builder_env(*old(cmd)),
{
    cmd.arg(arg);
}

/// Sets the child's working directory.  Relies on
/// `portable_pty::CommandBuilder::cwd`, which records the directory and
/// touches nothing else.
#[verifier::external_body]
pub(crate) fn command_cwd(cmd: &mut portable_pty::CommandBuilder, dir: &String)
    ensures
        builder_argv(*final(cmd)) == builder_argv(*old(cmd)),
        builder_cwd(*final(cmd)) == Some(dir@),
        builder_env(*final(cmd)) == builder_env(*old(cmd)),
{
    cmd.cwd(dir);
}

/// Sets one environment variable for the child.  Relies on
/// `portable_pty::CommandBuilder::env`, which records the override and
/// touches nothing else.
#[verifier::external_body]
pub(crate) fn command_env(cmd: &mut portable_pty::CommandBuilder, key: &str, value: &str)
    ensures
        builder_argv(*final(cmd)) == builder_argv(*old(cmd)),
        builder_cwd(*final(cmd)) == builder_cwd(*old(cmd)),
        builder_env(*final(cmd)) == builder_env(*old(cmd)).insert(key@, value@),
{
    cmd.env(key, value);
}

/// Launches the described child attached to the worker side of `pair`:
/// the child runs the builder's argument vector in the builder's working
/// directory with its environment overrides applied.  Relies on
/// `portable_pty::SlavePty::spawn_command`; on failure the result is the
/// launch error's message.
#[verifier::external_body]
pub(crate) fn spawn_child(pair: &portable_pty::PtyPair, cmd: portable_pty::CommandBuilder) -> (r:
    Result<ChildProc, String>) {
    match pair.slave.spawn_command(cmd) {
        Ok(c) => Ok(ChildProc { inner: c }),
        Err(e) => Err(format!("Failed to spawn command: {}", e)),
    }
}

/// Obtains an independent read handle on the controlling side of `pair`.
/// Relies on `portable_pty::MasterPty::try_clone_reader`; on failure the
/// result is the error's message.
#[verifier::external_body]
pub(crate) fn clone_reader(pair: &portable_pty::PtyPair) -> (r: Result<PtyReader, String>) {
    match pair.master.try_clone_reader() {
        Ok(rd) => Ok(PtyReader { inner: rd }),
        Err(e) => Err(format!("Failed to clone reader: {}", e)),
    }
}

/// Takes the single write handle of the controlling side of `pair` and
/// puts it behind its serialization.  Relies on
/// `portable_pty::MasterPty::take_writer`; on failure (also when the
/// writer was already taken) the result is the error's message.
#[verifier::external_body]
pub(crate) fn take_writer(pair: &portable_pty::PtyPair) -> (r: Result<SharedWriter, String>) {
    match pair.master.take_writer() {
        Ok(w) => Ok(SharedWriter { inner: std::sync::Arc::new(parking_lot::Mutex::new(w)) }),
        Err(e) => Err(format!("Failed to take writer: {}", e)),
    }
}

/// A second handle on the same writer and the same serialization.
/// Relies on `std::sync::Arc::clone`.
#[verifier::external_body]
pub(crate) fn clone_writer_handle(w: &SharedWriter) -> (r: SharedWriter) {
    SharedWriter { inner: std::sync::Arc::clone(&w.inner) }
}

/// A shared handle on a session's pseudo-terminal pair: the pair sits
/// under one `parking_lot::Mutex` behind `std::sync::Arc`, so a short
/// registry lookup can hand out a handle, the geometry syscall can run
/// after the lookup ends, and concurrent geometry changes are
/// serialized.  The terminal closes once the session and every
/// outstanding handle are gone.
#[verifier::external_body]
pub struct SharedMaster {
    inner: std::sync::Arc<parking_lot::Mutex<portable_pty::PtyPair>>,
}

/// Puts a freshly opened pair behind the shared handle.  Relies on
/// `std::sync::Arc::new` and `parking_lot::Mutex::new`.
#[verifier::external_body]
pub(crate) fn share_pair(pair: portable_pty::PtyPair) -> (r: SharedMaster) {
    SharedMaster { inner: std::sync::Arc::new(parking_lot::Mutex::new(pair)) }
}

/// A second handle on the same pair.  Relies on `std::sync::Arc::clone`.
#[verifier::external_body]
pub(crate) fn clone_master_handle(m: &SharedMaster) -> (r: SharedMaster) {
    SharedMaster { inner: std::sync::Arc::clone(&m.inner) }
}

/// Applies a new geometry to the controlling handle the shared handle
/// reaches, under the handle's own lock.  Relies on
/// `portable_pty::MasterPty::resize` and `parking_lot::Mutex::lock`;
/// on failure the result is the error's message.
#[verifier::external_body]
pub(crate) fn resize_handle(m: &SharedMaster, rows: u16, cols: u16) -> (r: Result<(), String>) {
    let pair = m.inner.lock();
    pair.master.resize(portable_pty::PtySize { rows, cols, pixel_width: 0, pixel_height: 0 })
        .map_err(|e| format!("Failed to resize PTY: {}", e))
}

/// Reads one chunk, at most 4096 bytes, from the controlling handle,
/// blocking until data arrives, the stream ends, or the read fails.
/// Relies on `std::io::Read::read`: `Ok` carries exactly the bytes read,
/// so an empty `Ok` chunk means end of stream.
#[verifier::external_body]
pub(crate) fn read_chunk(r: &mut PtyReader) -> (out: Result<Vec<u8>, String>)
    ensures
        out matches Ok(b) ==> b@.len() <= 4096,
{
    let mut buf = [0u8; 4096];
    match r.inner.read(&mut buf) {
        Ok(n) => Ok(buf[..n].to_vec()),
        Err(e) => Err(format!("Failed to read from PTY: {}", e)),
    }
}

/// Performs one serialized write-and-flush sequence on the handle's
/// writer: acquires the handle's own lock, writes all the UTF-8 bytes
/// of `data` in order with `std::io::Write::write_all`, flushes with
/// `std::io::Write::flush`, and releases.  Relies on those two calls
/// and on `parking_lot::Mutex::lock` for the serialization; concurrent
/// sequences on clones of one handle never interleave.  On failure the
/// result is the failing call's message.
#[verifier::external_body]
pub(crate) fn write_and_flush(w: &SharedWriter, data: &String) -> (r: Result<(), String>) {
    let mut writer = w.inner.lock();
    writer.write_all(data.as_bytes()).map_err(|e| format!("Failed to write to PTY: {}", e))?;
    writer.flush().map_err(|e| format!("Failed to flush PTY: {}", e))
}

/// Draws a fresh random session identifier.  Relies on
/// `uuid::Uuid::new_v4` and its hyphenated `to_string` form: the result
/// is always 36 characters; nothing is promised about which ones, and in
/// particular not that two draws differ.
#[verifier::external_body]
pub(crate) fn fresh_uuid() -> (r: String)
    ensures
        r@.len() == 36,
{
    uuid::Uuid::new_v4().to_string()
}

/// The text that lossy UTF-8 decoding yields for the given bytes: a pure
/// function of the bytes, with invalid sequences replaced, never failing.
pub uninterp spec fn lossy_text(b: Seq<u8>) -> Seq<char>;

/// Decodes bytes as UTF-8, substituting the replacement character for
/// invalid sequences.  Relies on `String::from_utf8_lossy`: the result
/// depends on the bytes alone, and no bytes decode to no text.
#[verifier::external_body]
pub(crate) fn utf8_lossy(b: &[u8]) -> (r: String)
    ensures
        r@ == lossy_text(b@),
        b@.len() == 0 ==> r@.len() == 0,
{
    String::from_utf8_lossy(b).to_string()
}

/// The text that Unicode lowercasing yields for the given text: a pure
/// function of the characters alone.
pub uninterp spec fn lowercase_text(s: Seq<char>) -> Seq<char>;

/// Lowercases a string.  Relies on `str::to_lowercase`: the result
/// depends on the characters alone, and an empty string stays empty.
#[verifier::external_body]
pub(crate) fn to_lowercase(s: &String) -> (r: String)
    ensures
        r@ == lowercase_text(s@),
        s@.len() == 0 ==> r@.len() == 0,
{
    s.to_lowercase()
}

} // verus!
