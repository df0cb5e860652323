//! The pure part of the file-system helpers: entry construction, noise
//! filtering, the listing order, and display-name derivation.
//!
//! Reading a directory or a file is I/O and stays with the host; what
//! is verified here is everything the host computes on the names it
//! read: which entries are dropped as noise, which count as hidden,
//! the directories-first case-insensitive order of a listing, and the
//! display name derived from a path.

use vstd::prelude::*;
use vstd::seq_lib::group_to_multiset_ensures;
use vstd::seq_lib::to_multiset_build;
use vstd::seq_lib::to_multiset_insert;

use crate::pty_io::{lowercase_text, to_lowercase};

verus! {

/// One entry of a directory listing.
#[derive(Debug, Clone)]
pub struct FileEntry {
    /// The entry's bare name.
    pub name: String,
    /// The entry's full path.
    pub path: String,
    /// Whether the entry is a directory.
    pub is_dir: bool,
    /// Whether the entry counts as hidden.
    pub is_hidden: bool,
}

/// Whether a name counts as hidden: it starts with a dot.
pub open spec fn hidden_name(n: Seq<char>) -> bool {
    n.len() > 0 && n[0] == '.'
}

/// Whether a name is one of the fixed noise entries a listing drops:
/// version-control directories, build output, OS metadata.
pub open spec fn noise_name(n: Seq<char>) -> bool {
    ||| n == "node_modules"@
    ||| n == ".git"@
    ||| n == "target"@
    ||| n == ".DS_Store"@
}

impl FileEntry {
    /// Builds an entry from what a directory read yields, deriving the
    /// hidden flag from the name.
    pub fn from_parts(name: String, path: String, is_dir: bool) -> (e: FileEntry)
        ensures
            e.name@ == name@,
            e.path@ == path@,
            e.is_dir == is_dir,
            e.is_hidden == hidden_name(name@),
    {
        let hidden = if name.as_str().unicode_len() > 0 {
            name.as_str().get_char(0) == '.'
        } else {
            false
        };
        FileEntry { name, path, is_dir, is_hidden: hidden }
    }

    /// Whether this entry is dropped from listings as noise.
    pub fn is_noise(&self) -> (r: bool)
        ensures
            r == noise_name(self.name@),
    {
        self.name == String::from_str("node_modules") || self.name == String::from_str(".git")
            || self.name == String::from_str("target") || self.name == String::from_str(
            ".DS_Store",
        )
    }
}

/// Lexicographic order on character sequences by scalar value.
pub open spec fn lex_le(a: Seq<char>, b: Seq<char>) -> bool
    decreases a.len(),
{
    if a.len() == 0 {
        true
    } else if b.len() == 0 {
        false
    } else if (a[0] as u32) < (b[0] as u32) {
        true
    } else if (a[0] as u32) > (b[0] as u32) {
        false
    } else {
        lex_le(a.drop_first(), b.drop_first())
    }
}

/// The listing order: directories before files, and within each kind
/// case-insensitively by name.
pub open spec fn entry_le(a: FileEntry, b: FileEntry) -> bool {
    if a.is_dir != b.is_dir {
        a.is_dir
    } else {
        lex_le(lowercase_text(a.name@), lowercase_text(b.name@))
    }
}

/// A listing sorted by the listing order.
pub open spec fn entries_sorted(s: Seq<FileEntry>) -> bool {
    forall|i: int, j: int| 0 <= i < j < s.len() ==> entry_le(s[i], s[j])
}

/// The lexicographic order is total.
pub proof fn lemma_lex_le_total(a: Seq<char>, b: Seq<char>)
    ensures
        lex_le(a, b) || lex_le(b, a),
    decreases a.len(),
{
    if a.len() > 0 && b.len() > 0 && (a[0] as u32) == (b[0] as u32) {
        lemma_lex_le_total(a.drop_first(), b.drop_first());
    }
}

/// The lexicographic order is transitive.
pub proof fn lemma_lex_le_trans(a: Seq<char>, b: Seq<char>, c: Seq<char>)
    requires
        lex_le(a, b),
        lex_le(b, c),
    ensures
        lex_le(a, c),
    decreases a.len(),
{
    if a.len() > 0 && b.len() > 0 && c.len() > 0 && (a[0] as u32) == (b[0] as u32) && (b[0] as u32)
        == (c[0] as u32) {
        lemma_lex_le_trans(a.drop_first(), b.drop_first(), c.drop_first());
    }
}

/// The listing order is total.
pub proof fn lemma_entry_le_total(a: FileEntry, b: FileEntry)
    ensures
        entry_le(a, b) || entry_le(b, a),
{
    if a.is_dir == b.is_dir {
        lemma_lex_le_total(lowercase_text(a.name@), lowercase_text(b.name@));
    }
}

/// The listing order is transitive.
pub proof fn lemma_entry_le_trans(a: FileEntry, b: FileEntry, c: FileEntry)
    requires
        entry_le(a, b),
        entry_le(b, c),
    ensures
        entry_le(a, c),
{
    if a.is_dir == b.is_dir && b.is_dir == c.is_dir {
        lemma_lex_le_trans(
            lowercase_text(a.name@),
            lowercase_text(b.name@),
            lowercase_text(c.name@),
        );
    }
}

/// Compares two strings in the lexicographic order.
fn str_le(x: &String, y: &String) -> (r: bool)
    ensures
        r == lex_le(x@, y@),
{
    let xs: &str = x.as_str();
    let ys: &str = y.as_str();
    let xn: usize = xs.unicode_len();
    let yn: usize = ys.unicode_len();
    let mut i: usize = 0;
    proof {
        assert(x@.skip(0) =~= x@);
        assert(y@.skip(0) =~= y@);
    }
    while i < xn && i < yn
        invariant
            xn == x@.len(),
            yn == y@.len(),
            xs@ == x@,
            ys@ == y@,
            i <= xn,
            i <= yn,
            lex_le(x@, y@) == lex_le(x@.skip(i as int), y@.skip(i as int)),
        decreases xn - i,
    {
        let cx = xs.get_char(i);
        let cy = ys.get_char(i);
        if (cx as u32) < (cy as u32) {
            return true;
        }
        if (cx as u32) > (cy as u32) {
            return false;
        }
        proof {
            assert(x@.skip(i as int).drop_first() =~= x@.skip(i + 1));
            assert(y@.skip(i as int).drop_first() =~= y@.skip(i + 1));
        }
        i += 1;
    }
    i >= xn
}

/// Compares two entries in the listing order.
fn entry_le_exec(a: &FileEntry, b: &FileEntry) -> (r: bool)
    ensures
        r == entry_le(*a, *b),
{
    if a.is_dir != b.is_dir {
        a.is_dir
    } else {
        let la = to_lowercase(&a.name);
        let lb = to_lowercase(&b.name);
        str_le(&la, &lb)
    }
}

/// The first position in a sorted listing at which `e` can be inserted
/// so that it stays sorted.
fn insert_position(out: &Vec<FileEntry>, e: &FileEntry) -> (p: usize)
    requires
        entries_sorted(out@),
    ensures
        p <= out@.len(),
        forall|k: int| 0 <= k < p ==> entry_le(out@[k], *e),
        p < out@.len() ==> !entry_le(out@[p as int], *e),
    {
    let mut p: usize = 0;
    while p < out.len() && entry_le_exec(&out[p], e)
        invariant
            p <= out@.len(),
            forall|k: int| 0 <= k < p ==> entry_le(out@[k], *e),
        decreases out@.len() - p,
    {
        p += 1;
    }
    p
}

/// Drops the noise entries and sorts what is left: directories first,
/// then case-insensitively by name.  The result holds exactly the
/// non-noise entries of the input.
pub fn organize_entries(entries: Vec<FileEntry>) -> (r: Vec<FileEntry>)
    ensures
        entries_sorted(r@),
        r@.to_multiset() == entries@.filter(|e: FileEntry| !noise_name(e.name@)).to_multiset(),
{
    broadcast use group_to_multiset_ensures;
    broadcast use to_multiset_insert;

    let ghost orig = entries@;
    let ghost pred = |e: FileEntry| !noise_name(e.name@);
    let mut v = entries;
    let mut out: Vec<FileEntry> = Vec::new();
    proof {
        reveal(Seq::filter);
        assert(out@.to_multiset().add(v@.filter(pred).to_multiset()) =~= orig.filter(
            pred,
        ).to_multiset());
    }
    while v.len() > 0
        invariant
            entries_sorted(out@),
            out@.to_multiset().add(v@.filter(pred).to_multiset()) == orig.filter(
                pred,
            ).to_multiset(),
            pred == (|e: FileEntry| !noise_name(e.name@)),
        decreases v@.len(),
    {
        let ghost v_before = v@;
        let e = v.pop().unwrap();
        proof {
            reveal(Seq::filter);
            assert(v@ =~= v_before.drop_last());
            assert(v_before.filter(pred) == if pred(e) {
                v@.filter(pred).push(e)
            } else {
                v@.filter(pred)
            });
        }
        if !e.is_noise() {
            let ghost out_before = out@;
            let p = insert_position(&out, &e);
            out.insert(p, e);
            proof {
                assert(out@ == out_before.insert(p as int, e));
                out_before.insert_ensures(p as int, e);
                assert forall|a: int, b: int|
                    0 <= a < b < out@.len() implies entry_le(out@[a], out@[b]) by {
                    if a < p && b == p {
                    } else if a == p && b > p {
                        lemma_entry_le_total(out_before[p as int], e);
                        if b - 1 > p {
                            lemma_entry_le_trans(e, out_before[p as int], out_before[b - 1]);
                        }
                    } else if a < p && b > p {
                    } else if a > p || b < p {
                    }
                }
                to_multiset_insert(out_before, p as int, e);
                assert(out@.to_multiset() =~= out_before.to_multiset().insert(e));
                assert(out@.to_multiset().add(v@.filter(pred).to_multiset()) =~= out_before
                    .to_multiset().add(v@.filter(pred).to_multiset().insert(e)));
                assert(pred(e));
                assert(v_before.filter(pred) == v@.filter(pred).push(e));
                to_multiset_build(v@.filter(pred), e);
                assert(v@.filter(pred).push(e).to_multiset() =~= v@.filter(
                    pred,
                ).to_multiset().insert(e));
                assert(v_before.filter(pred).to_multiset() =~= v@.filter(
                    pred,
                ).to_multiset().insert(e));
            }
        }
    }
    proof {
        reveal(Seq::filter);
        assert(v@ =~= Seq::<FileEntry>::empty());
        assert(v@.filter(pred) =~= Seq::<FileEntry>::empty());
        assert(out@.to_multiset().add(v@.filter(pred).to_multiset()) =~= out@.to_multiset());
        assert(orig.filter(pred) == entries@.filter(|e: FileEntry| !noise_name(e.name@)));
    }
    out
}

/// The maximal suffix of `p` that holds no separator: the characters
/// after the last `/`, or all of `p` when it has none.
pub open spec fn after_last_slash(p: Seq<char>) -> Seq<char>
    decreases p.len(),
{
    if p.len() == 0 {
        p
    } else if p.last() == '/' {
        Seq::empty()
    } else {
        after_last_slash(p.drop_last()).push(p.last())
    }
}

/// The path with trailing separators and trailing `.` components
/// removed: they never contribute a final file-name component.
pub open spec fn trim_path(p: Seq<char>) -> Seq<char>
    decreases p.len(),
{
    if p.len() == 0 {
        p
    } else if p.last() == '/' {
        trim_path(p.drop_last())
    } else if p.last() == '.' && (p.len() == 1 || p[p.len() - 2] == '/') {
        trim_path(p.drop_last())
    } else {
        p
    }
}

/// The display name derived from a path: the final file-name component
/// once trailing separators and `.` components are ignored, or the
/// whole path verbatim when no such component exists (an empty path,
/// a root, or a path that ends in a `..` component).
pub open spec fn display_name(p: Seq<char>) -> Seq<char> {
    let c = after_last_slash(trim_path(p));
    if c.len() == 0 || c == seq!['.', '.'] {
        p
    } else {
        c
    }
}

/// A suffix free of separators and preceded by one (or by nothing) is
/// exactly what stands after the last separator.
proof fn lemma_after_last_slash(p: Seq<char>, k: int)
    requires
        0 <= k <= p.len(),
        forall|j: int| k <= j < p.len() ==> p[j] != '/',
        k == 0 || p[k - 1] == '/',
    ensures
        after_last_slash(p) == p.skip(k),
    decreases p.len(),
{
    if p.len() == 0 {
        assert(p.skip(0) =~= p);
    } else if p.last() == '/' {
        assert(k == p.len());
        assert(p.skip(k) =~= Seq::<char>::empty());
    } else {
        assert(k < p.len());
        lemma_after_last_slash(p.drop_last(), k);
        assert(after_last_slash(p) =~= p.drop_last().skip(k).push(p.last()));
        assert(p.skip(k) =~= p.drop_last().skip(k).push(p.last()));
    }
}

/// Derives the display name of a path: the final file-name component,
/// with trailing separators and `.` components ignored, or the whole
/// path verbatim when no such component exists.
pub fn get_file_name(path: &String) -> (r: String)
    ensures
        r@ == display_name(path@),
{
    let s: &str = path.as_str();
    let n: usize = s.unicode_len();

    // Trim trailing separators and trailing `.` components.
    let mut t: usize = n;
    proof {
        assert(path@.take(n as int) =~= path@);
    }
    while t > 0 && (s.get_char(t - 1) == '/' || (s.get_char(t - 1) == '.' && (t == 1 || s.get_char(
        t - 2,
    ) == '/')))
        invariant
            n == path@.len(),
            s@ == path@,
            t <= n,
            trim_path(path@) == trim_path(path@.take(t as int)),
        decreases t,
    {
        proof {
            assert(path@.take(t as int).drop_last() =~= path@.take(t - 1));
            assert(path@.take(t as int).last() == path@[t - 1]);
        }
        t -= 1;
    }
    proof {
        assert(trim_path(path@.take(t as int)) == path@.take(t as int));
    }

    // Find the final component of the trimmed prefix.
    let mut m: usize = 0;
    while m < t && s.get_char(t - 1 - m) != '/'
        invariant
            n == path@.len(),
            s@ == path@,
            t <= n,
            m <= t,
            forall|j: int| t - m <= j < t ==> path@[j] != '/',
        decreases t - m,
    {
        m += 1;
    }
    proof {
        lemma_after_last_slash(path@.take(t as int), t - m);
        assert(path@.take(t as int).skip(t - m) =~= path@.subrange(t - m, t as int));
    }

    if m == 0 {
        // No final component: the whole path stands for itself.
        return path.clone();
    }
    if m == 2 && s.get_char(t - 2) == '.' && s.get_char(t - 1) == '.' {
        // A trailing `..` component names no file.
        proof {
            assert(path@.subrange(t - 2, t as int) =~= seq!['.', '.']);
        }
        return path.clone();
    }
    proof {
        let c = path@.subrange(t - m, t as int);
        assert(c.len() == m);
        assert(c != seq!['.', '.']) by {
            if c == seq!['.', '.'] {
                assert(path@[t - 2] == c[0] && path@[t - 1] == c[1]);
            }
        }
    }
    String::from_str(s.substring_char(t - m, t))
}

} // verus!
