//! Whitespace splitting of a command line into tokens.
//!
//! The spawner resolves a caller-supplied command line by splitting it into
//! whitespace-delimited tokens: the first token is the executable, the rest
//! are its arguments.  Quoting is deliberately not honoured; a token list
//! that comes out empty is an input error at the spawn site.

use vstd::prelude::*;

verus! {

/// Whether `c` is a whitespace character, by its Unicode `White_Space`
/// property (the character class the splitter separates tokens on).
pub open spec fn is_space_char(c: char) -> bool {
    let n = c as u32;
    (0x09 <= n && n <= 0x0D) || n == 0x20 || n == 0x85 || n == 0xA0 || n == 0x1680 || (0x2000
        <= n && n <= 0x200A) || n == 0x2028 || n == 0x2029 || n == 0x202F || n == 0x205F || n
        == 0x3000
}

/// Executable check matching `is_space_char`.
pub fn is_space(c: char) -> (r: bool)
    ensures
        r == is_space_char(c),
{
    let n = c as u32;
    (0x09 <= n && n <= 0x0D) || n == 0x20 || n == 0x85 || n == 0xA0 || n == 0x1680 || (0x2000 <= n
        && n <= 0x200A) || n == 0x2028 || n == 0x2029 || n == 0x202F || n == 0x205F || n == 0x3000
}

/// Whether `s` holds at least one non-whitespace character, i.e. whether
/// splitting it yields at least one token.
pub open spec fn has_token(s: Seq<char>) -> bool {
    exists|i: int| 0 <= i < s.len() && !is_space_char(s[i])
}

/// The whitespace-delimited tokens of `s`, in order.  Defined by recursion
/// on the last character: a trailing whitespace character separates, a
/// trailing non-whitespace character either extends the last token (when
/// the character before it is also non-whitespace) or opens a new one.
pub open spec fn split_ws(s: Seq<char>) -> Seq<Seq<char>>
    decreases s.len(),
{
    if s.len() == 0 {
        seq![]
    } else {
        let pre = split_ws(s.drop_last());
        let c = s.last();
        if is_space_char(c) {
            pre
        } else if s.len() >= 2 && !is_space_char(s[s.len() - 2]) {
            pre.update(pre.len() - 1, pre.last().push(c))
        } else {
            pre.push(seq![c])
        }
    }
}

/// The views of a vector of token strings.
pub open spec fn token_views(ts: Seq<String>) -> Seq<Seq<char>> {
    ts.map_values(|t: String| t@)
}

/// A string with some non-whitespace character splits into at least one
/// token.
pub proof fn lemma_split_ws_nonempty(s: Seq<char>)
    requires
        has_token(s),
    ensures
        split_ws(s).len() > 0,
    decreases s.len(),
{
    if s.len() > 0 {
        let pre = split_ws(s.drop_last());
        if is_space_char(s.last()) {
            assert(exists|i: int| 0 <= i < s.len() - 1 && !is_space_char(s.drop_last()[i])) by {
                let i = choose|i: int| 0 <= i < s.len() && !is_space_char(s[i]);
                assert(s.drop_last()[i] == s[i] || i == s.len() - 1);
            }
            lemma_split_ws_nonempty(s.drop_last());
        } else if s.len() >= 2 && !is_space_char(s[s.len() - 2]) {
            assert(!is_space_char(s.drop_last()[s.len() - 2]));
            lemma_split_ws_nonempty(s.drop_last());
        }
    }
}

/// A string of nothing but whitespace splits into no tokens at all.
pub proof fn lemma_split_ws_all_space(s: Seq<char>)
    requires
        !has_token(s),
    ensures
        split_ws(s).len() == 0,
    decreases s.len(),
{
    if s.len() > 0 {
        assert(forall|i: int| 0 <= i < s.len() - 1 ==> s.drop_last()[i] == s[i]);
        lemma_split_ws_all_space(s.drop_last());
        assert(is_space_char(s.last()));
    }
}

/// Splitting yields a token exactly when some character is non-whitespace.
pub proof fn lemma_split_ws_empty_iff(s: Seq<char>)
    ensures
        split_ws(s).len() == 0 <==> !has_token(s),
{
    if has_token(s) {
        lemma_split_ws_nonempty(s);
    } else {
        lemma_split_ws_all_space(s);
    }
}

/// Splits `s` into its whitespace-delimited tokens.
pub fn split_command(s: &String) -> (toks: Vec<String>)
    ensures
        token_views(toks@) == split_ws(s@),
{
    let st: &str = s.as_str();
    let n: usize = st.unicode_len();
    let mut toks: Vec<String> = Vec::new();
    let mut i: usize = 0;
    let mut start: usize = 0;
    let mut in_tok: bool = false;
    while i < n
        invariant
            n == s@.len(),
            st@ == s@,
            i <= n,
            in_tok ==> start < i && !is_space_char(s@[i - 1]) && split_ws(s@.take(i as int))
                =~= token_views(toks@).push(s@.subrange(start as int, i as int)),
            !in_tok ==> (i == 0 || is_space_char(s@[i - 1])) && split_ws(s@.take(i as int))
                =~= token_views(toks@),
        decreases n - i,
    {
        let c = st.get_char(i);
        proof {
            assert(s@.take(i + 1).drop_last() =~= s@.take(i as int));
            assert(s@.take(i + 1).last() == s@[i as int]);
        }
        if is_space(c) {
            if in_tok {
                let tok = String::from_str(st.substring_char(start, i));
                proof {
                    assert(token_views(toks@.push(tok)) =~= token_views(toks@).push(tok@));
                }
                toks.push(tok);
                in_tok = false;
            }
        } else {
            if !in_tok {
                start = i;
                in_tok = true;
                proof {
                    assert(s@.subrange(i as int, i + 1) =~= seq![s@[i as int]]);
                }
            } else {
                proof {
                    assert(s@.subrange(start as int, i + 1) =~= s@.subrange(
                        start as int,
                        i as int,
                    ).push(s@[i as int]));
                    let pre = split_ws(s@.take(i as int));
                    assert(pre.len() > 0);
                    assert(split_ws(s@.take(i + 1)) =~= token_views(toks@).push(
                        s@.subrange(start as int, i + 1),
                    ));
                }
            }
        }
        i += 1;
    }
    proof {
        assert(s@.take(n as int) =~= s@);
    }
    if in_tok {
        let tok = String::from_str(st.substring_char(start, n));
        proof {
            assert(token_views(toks@.push(tok)) =~= token_views(toks@).push(tok@));
        }
        toks.push(tok);
    }
    toks
}

} // verus!
