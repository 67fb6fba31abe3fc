//! Guest path classification and normalization.
//!
//! A guest-visible path is tagged Posix or Windows by syntactic
//! inspection: it is Windows exactly when its second character is the
//! drive-letter separator `:`.  The tag decides the separator used to
//! join child names and whether the path is rewritten before it is
//! embedded in a wire command: Windows paths have every forward slash
//! turned into a backslash and then every backslash doubled, so that
//! they survive the guest's double processing of the command string.

use vstd::prelude::*;

verus! {

/// The two guest path syntaxes.
#[derive(Clone, Copy, PartialEq, Eq, Structural, Debug)]
pub enum PathKind {
    Posix,
    Windows,
}

/// A path is Windows-classified iff its second character is `:`.
pub open spec fn spec_is_windows(s: Seq<char>) -> bool {
    s.len() > 1 && s[1] == ':'
}

pub open spec fn spec_classify(s: Seq<char>) -> PathKind {
    if spec_is_windows(s) {
        PathKind::Windows
    } else {
        PathKind::Posix
    }
}

/// The characters the Windows rewrite acts on.
pub open spec fn is_sep(c: char) -> bool {
    c == '/' || c == '\\'
}

/// The Windows rewrite: every `/` becomes `\` and then every `\` is
/// doubled, so each separator character expands to two backslashes and
/// every other character is kept.
pub open spec fn spec_norm_windows(s: Seq<char>) -> Seq<char>
    decreases s.len(),
{
    if s.len() == 0 {
        Seq::empty()
    } else {
        (if is_sep(s[0]) {
            seq!['\\', '\\']
        } else {
            seq![s[0]]
        }) + spec_norm_windows(s.drop_first())
    }
}

/// What a path looks like on the wire: rewritten when Windows, kept
/// as it is when Posix.
pub open spec fn spec_normalize_for_transport(s: Seq<char>) -> Seq<char> {
    if spec_is_windows(s) {
        spec_norm_windows(s)
    } else {
        s
    }
}

/// Number of separator characters in a path.
pub open spec fn sep_count(s: Seq<char>) -> nat
    decreases s.len(),
{
    if s.len() == 0 {
        0
    } else {
        (if is_sep(s[0]) {
            1nat
        } else {
            0nat
        }) + sep_count(s.drop_first())
    }
}

/// The rewrite of a single character, spelled out.
pub proof fn lemma_norm_windows_single(c: char)
    ensures
        spec_norm_windows(seq![c]) == if is_sep(c) {
            seq!['\\', '\\']
        } else {
            seq![c]
        },
{
    reveal_with_fuel(spec_norm_windows, 2);
    assert(seq![c].drop_first() =~= Seq::<char>::empty());
    if is_sep(c) {
        assert(seq!['\\', '\\'] + Seq::<char>::empty() =~= seq!['\\', '\\']);
        assert(spec_norm_windows(seq![c]) =~= seq!['\\', '\\']);
    } else {
        assert(seq![c] + Seq::<char>::empty() =~= seq![c]);
        assert(spec_norm_windows(seq![c]) =~= seq![c]);
    }
}

/// The separator count of a single character, spelled out.
pub proof fn lemma_sep_count_single(c: char)
    ensures
        sep_count(seq![c]) == if is_sep(c) {
            1nat
        } else {
            0nat
        },
{
    reveal_with_fuel(sep_count, 2);
    assert(seq![c].drop_first() =~= Seq::<char>::empty());
}

/// The Windows rewrite distributes over concatenation.
pub proof fn lemma_norm_windows_concat(a: Seq<char>, b: Seq<char>)
    ensures
        spec_norm_windows(a + b) == spec_norm_windows(a) + spec_norm_windows(b),
    decreases a.len(),
{
    if a.len() == 0 {
        assert(a + b =~= b);
        assert(spec_norm_windows(a) + spec_norm_windows(b) =~= spec_norm_windows(b));
    } else {
        assert((a + b).drop_first() =~= a.drop_first() + b);
        assert((a + b)[0] == a[0]);
        lemma_norm_windows_concat(a.drop_first(), b);
        assert(spec_norm_windows(a + b) =~= spec_norm_windows(a) + spec_norm_windows(b));
    }
}

/// The Windows rewrite keeps a separator-free string unchanged.
pub proof fn lemma_norm_windows_id(a: Seq<char>)
    requires
        forall|i: int| 0 <= i < a.len() ==> !is_sep(a[i]),
    ensures
        spec_norm_windows(a) == a,
    decreases a.len(),
{
    if a.len() == 0 {
        assert(spec_norm_windows(a) =~= a);
    } else {
        lemma_norm_windows_id(a.drop_first());
        assert(spec_norm_windows(a) =~= a);
    }
}

/// Each separator grows the rewritten string by one character.
pub proof fn lemma_norm_windows_len(s: Seq<char>)
    ensures
        spec_norm_windows(s).len() == s.len() + sep_count(s),
    decreases s.len(),
{
    if s.len() > 0 {
        lemma_norm_windows_len(s.drop_first());
    }
}

/// A path with a separator is rewritten to one with at least two
/// backslashes, which are themselves separators.
pub proof fn lemma_norm_windows_keeps_seps(s: Seq<char>)
    requires
        sep_count(s) > 0,
    ensures
        sep_count(spec_norm_windows(s)) >= 2,
    decreases s.len(),
{
    lemma_sep_count_concat(
        if is_sep(s[0]) {
            seq!['\\', '\\']
        } else {
            seq![s[0]]
        },
        spec_norm_windows(s.drop_first()),
    );
    if is_sep(s[0]) {
        assert(sep_count(seq!['\\', '\\']) == 2) by {
            assert(seq!['\\', '\\'] =~= seq!['\\'] + seq!['\\']);
            lemma_sep_count_concat(seq!['\\'], seq!['\\']);
            lemma_sep_count_single('\\');
        }
    } else {
        assert(sep_count(s.drop_first()) > 0);
        lemma_norm_windows_keeps_seps(s.drop_first());
        lemma_sep_count_single(s[0]);
    }
}

/// Separator counting distributes over concatenation.
pub proof fn lemma_sep_count_concat(a: Seq<char>, b: Seq<char>)
    ensures
        sep_count(a + b) == sep_count(a) + sep_count(b),
    decreases a.len(),
{
    if a.len() == 0 {
        assert(a + b =~= b);
    } else {
        assert((a + b).drop_first() =~= a.drop_first() + b);
        assert((a + b)[0] == a[0]);
        lemma_sep_count_concat(a.drop_first(), b);
    }
}

/// Classification is total and deterministic: a string of length at
/// least two whose second character is `:` is Windows; every other
/// string, including every string of fewer than two characters, is
/// Posix.
pub proof fn lemma_classify_total(s: Seq<char>)
    ensures
        (s.len() >= 2 && s[1] == ':') ==> spec_classify(s) == PathKind::Windows,
        !(s.len() >= 2 && s[1] == ':') ==> spec_classify(s) == PathKind::Posix,
        s.len() < 2 ==> spec_classify(s) == PathKind::Posix,
{
}

/// The transport rewrite is the identity on a Posix-classified path, so
/// a second application changes nothing.
pub proof fn lemma_transport_norm_posix_idempotent(s: Seq<char>)
    requires
        spec_classify(s) == PathKind::Posix,
    ensures
        spec_normalize_for_transport(s) == s,
        spec_normalize_for_transport(spec_normalize_for_transport(s)) == spec_normalize_for_transport(s),
{
}

/// On a Windows-classified path that holds at least one separator and
/// does not start with one, the transport rewrite is not idempotent: the
/// rewritten path is still Windows-classified and still holds
/// separators, so a second application doubles its backslashes again.
/// The rewrite must therefore be applied exactly once per transport
/// call.
pub proof fn lemma_transport_norm_windows_not_idempotent(s: Seq<char>)
    requires
        spec_classify(s) == PathKind::Windows,
        sep_count(s) > 0,
        !is_sep(s[0]),
    ensures
        spec_normalize_for_transport(spec_normalize_for_transport(s)) != spec_normalize_for_transport(s),
{
    let t = spec_normalize_for_transport(s);
    assert(t == spec_norm_windows(s));
    // The first two characters survive the rewrite, so t is still
    // Windows-classified.
    assert(s =~= seq![s[0]] + (seq![s[1]] + s.drop_first().drop_first()));
    lemma_norm_windows_concat(seq![s[0]], seq![s[1]] + s.drop_first().drop_first());
    lemma_norm_windows_concat(seq![s[1]], s.drop_first().drop_first());
    lemma_norm_windows_single(s[0]);
    assert(!is_sep(s[1]));
    lemma_norm_windows_single(s[1]);
    assert(t[0] == s[0] && t[1] == s[1]);
    assert(spec_is_windows(t));
    lemma_norm_windows_keeps_seps(s);
    lemma_norm_windows_len(t);
    assert(spec_norm_windows(t).len() > t.len());
}

impl PathKind {
    /// The separator character used to join a child name onto a path of
    /// this kind.
    pub open spec fn spec_separator(self) -> char {
        if self == PathKind::Windows {
            '\\'
        } else {
            '/'
        }
    }
}

/// Classify a guest path by its second character.
pub fn classify(path: &str) -> (r: PathKind)
    ensures
        r == spec_classify(path@),
{
    let n = path.unicode_len();
    if n > 1 && path.get_char(1) == ':' {
        PathKind::Windows
    } else {
        PathKind::Posix
    }
}

/// Apply the Windows rewrite to a path: `/` to `\`, then every `\`
/// doubled.
pub fn norm_windows(path: &str) -> (r: String)
    ensures
        r@ == spec_norm_windows(path@),
{
    let n = path.unicode_len();
    let mut out = String::new();
    let mut start: usize = 0;
    let mut i: usize = 0;
    proof {
        assert(path@.subrange(0, 0) =~= Seq::<char>::empty());
    }
    while i < n
        invariant
            start <= i <= n,
            n == path@.len(),
            out@ == spec_norm_windows(path@.subrange(0, start as int)),
            forall|j: int| start <= j < i ==> !is_sep(path@[j]),
        decreases n - i,
    {
        let c = path.get_char(i);
        if c == '/' || c == '\\' {
            let run = path.substring_char(start, i);
            out.append(run);
            out.append("\\\\");
            proof {
                reveal_strlit("\\\\");
                lemma_flush_step(path@, start as int, i as int);
            }
            start = i + 1;
        }
        i = i + 1;
    }
    let run = path.substring_char(start, n);
    out.append(run);
    proof {
        lemma_final_flush(path@, start as int);
    }
    out
}

/// Flushing a separator-free run followed by one separator extends the
/// rewritten prefix by the run and two backslashes.
proof fn lemma_flush_step(s: Seq<char>, start: int, i: int)
    requires
        0 <= start <= i < s.len(),
        forall|j: int| start <= j < i ==> !is_sep(s[j]),
        is_sep(s[i]),
    ensures
        spec_norm_windows(s.subrange(0, i + 1)) == spec_norm_windows(s.subrange(0, start))
            + s.subrange(start, i) + seq!['\\', '\\'],
{
    let pre = s.subrange(0, start);
    let run = s.subrange(start, i);
    let sep = seq![s[i]];
    assert(s.subrange(0, i + 1) =~= pre + run + sep);
    assert(pre + run + sep =~= pre + (run + sep));
    lemma_norm_windows_concat(pre, run + sep);
    lemma_norm_windows_concat(run, sep);
    lemma_norm_windows_id(run);
    assert(sep =~= seq![s[i]]);
    lemma_norm_windows_single(s[i]);
    assert(spec_norm_windows(s.subrange(0, i + 1)) =~= spec_norm_windows(pre) + run + seq![
        '\\',
        '\\',
    ]);
}

/// Flushing the trailing separator-free run finishes the rewrite.
proof fn lemma_final_flush(s: Seq<char>, start: int)
    requires
        0 <= start <= s.len(),
        forall|j: int| start <= j < s.len() ==> !is_sep(s[j]),
    ensures
        spec_norm_windows(s) == spec_norm_windows(s.subrange(0, start)) + s.subrange(
            start,
            s.len() as int,
        ),
{
    let pre = s.subrange(0, start);
    let run = s.subrange(start, s.len() as int);
    assert(s =~= pre + run);
    lemma_norm_windows_concat(pre, run);
    lemma_norm_windows_id(run);
}

/// Rewrite a path for transport: Windows paths are rewritten, Posix
/// paths are kept unchanged.
pub fn normalize_for_transport(path: &str) -> (r: String)
    ensures
        r@ == spec_normalize_for_transport(path@),
{
    if let PathKind::Windows = classify(path) {
        norm_windows(path)
    } else {
        path.to_owned()
    }
}

/// What joining a child name onto a parent path yields: the parent, the
/// separator chosen by the parent's classification, then the child.
pub open spec fn spec_join_child(parent: Seq<char>, child: Seq<char>) -> Seq<char> {
    parent + seq![spec_classify(parent).spec_separator()] + child
}

/// Join a child name onto a parent path.  The parent's classification
/// picks the separator; the child name never does.
pub fn join_child(parent: &str, child: &str) -> (r: String)
    ensures
        r@ == spec_join_child(parent@, child@),
{
    let mut out = parent.to_owned();
    if let PathKind::Windows = classify(parent) {
        out.append("\\");
        proof {
            reveal_strlit("\\");
            assert("\\"@ =~= seq!['\\']);
        }
    } else {
        out.append("/");
        proof {
            reveal_strlit("/");
            assert("/"@ =~= seq!['/']);
        }
    }
    out.append(child);
    out
}

} // verus!
