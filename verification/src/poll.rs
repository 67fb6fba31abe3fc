//! Bounded polling of asynchronous guest operations.
//!
//! The transport has no push notification, so completion of a guest
//! process is observed by polling its status at a fixed interval up to
//! a bounded attempt count.  Exhausting the budget is never an error:
//! each probe resolves it to a soft default — false for a directory
//! test, an empty listing, giving up on a general execution.  The
//! decisions are here; the unverified glue only sleeps between polls
//! and carries statuses in.

use vstd::prelude::*;
use crate::b64::{b64_decode, b64_decoded, bytes_to_text, utf8_lossy};
use crate::path::{PathKind, classify, spec_is_windows};
use crate::qga::ExecStatus;
use crate::wire::QgaError;

verus! {

/// Attempt budget of a directory existence or creation probe.
pub const DIR_PROBE_ATTEMPTS: usize = 10;

/// Attempt budget of a directory listing.
pub const LIST_ATTEMPTS: usize = 20;

/// Attempt budget of a general command execution.
pub const EXEC_ATTEMPTS: usize = 30;

/// Fixed pause between two polls, in milliseconds.
pub const POLL_INTERVAL_MS: u64 = 100;

/// The first terminal status in a trace of successive poll
/// observations, within an attempt budget.  A process that exits on
/// observation `k` is seen after exactly `k + 1` polls; one that never
/// exits within the budget is never mistaken for terminal, and the
/// caller resolves that to its soft default instead of an error.
pub fn first_terminal(trace: &Vec<ExecStatus>, budget: usize) -> (r: Option<usize>)
    ensures
        match r {
            Some(k) => {
                &&& k < budget
                &&& k < trace@.len()
                &&& trace@[k as int].exited
                &&& forall|j: int| 0 <= j < k ==> !trace@[j].exited
            },
            None => forall|j: int| 0 <= j < budget && j < trace@.len() ==> !trace@[j].exited,
        },
{
    let n = trace.len();
    let mut i: usize = 0;
    while i < n && i < budget
        invariant
            i <= n,
            n == trace@.len(),
            forall|j: int| 0 <= j < i ==> !trace@[j].exited,
        decreases n - i,
    {
        if trace[i].exited {
            return Some(i);
        }
        i = i + 1;
    }
    None
}

/// Resolve a directory probe: true exactly when a terminal status was
/// observed and it reports exit code zero; a timeout or a missing code
/// resolves to false.
pub fn directory_probe_verdict(outcome: Option<&ExecStatus>) -> (r: bool)
    ensures
        r == match outcome {
            Some(st) => st.exitcode == Some(0i32),
            None => false,
        },
{
    match outcome {
        Some(st) => match st.exitcode {
            Some(c) => c == 0,
            None => false,
        },
        None => false,
    }
}

/// The probe launched to test whether a guest path is a directory:
/// `test -d` for a Posix path, a PowerShell container test for a
/// Windows one.
pub fn is_directory_probe(path: &str) -> (r: (String, Vec<String>))
    ensures
        spec_is_windows(path@) ==> {
            &&& r.0@ == "powershell.exe"@
            &&& r.1@.len() == 2
            &&& r.1@[0]@ == "-Command"@
            &&& r.1@[1]@ == "if (Test-Path -Path \""@ + path@
                + "\" -PathType Container) { exit 0 } else { exit 1 }"@
        },
        !spec_is_windows(path@) ==> {
            &&& r.0@ == "test"@
            &&& r.1@.len() == 2
            &&& r.1@[0]@ == "-d"@
            &&& r.1@[1]@ == path@
        },
{
    let mut args: Vec<String> = Vec::new();
    if let PathKind::Windows = classify(path) {
        let mut ps = String::from_str("if (Test-Path -Path \"");
        ps.append(path);
        ps.append("\" -PathType Container) { exit 0 } else { exit 1 }");
        args.push(String::from_str("-Command"));
        args.push(ps);
        proof {
            assert(args@[1]@ =~= "if (Test-Path -Path \""@ + path@
                + "\" -PathType Container) { exit 0 } else { exit 1 }"@);
        }
        (String::from_str("powershell.exe"), args)
    } else {
        args.push(String::from_str("-d"));
        args.push(path.to_owned());
        (String::from_str("test"), args)
    }
}

/// The probe launched to list a guest directory: `ls -1` for a Posix
/// path, `cmd /c dir /b` for a Windows one; both with captured output.
pub fn list_directory_probe(path: &str) -> (r: (String, Vec<String>))
    ensures
        spec_is_windows(path@) ==> {
            &&& r.0@ == "cmd.exe"@
            &&& r.1@.len() == 4
            &&& r.1@[0]@ == "/c"@
            &&& r.1@[1]@ == "dir"@
            &&& r.1@[2]@ == "/b"@
            &&& r.1@[3]@ == path@
        },
        !spec_is_windows(path@) ==> {
            &&& r.0@ == "ls"@
            &&& r.1@.len() == 2
            &&& r.1@[0]@ == "-1"@
            &&& r.1@[1]@ == path@
        },
{
    let mut args: Vec<String> = Vec::new();
    if let PathKind::Windows = classify(path) {
        args.push(String::from_str("/c"));
        args.push(String::from_str("dir"));
        args.push(String::from_str("/b"));
        args.push(path.to_owned());
        (String::from_str("cmd.exe"), args)
    } else {
        args.push(String::from_str("-1"));
        args.push(path.to_owned());
        (String::from_str("ls"), args)
    }
}

/// The probe launched to create a guest directory: `mkdir -p` for a
/// Posix path, `cmd /c mkdir` for a Windows one.  The creation is
/// fire-and-forget: no caller reads more than termination out of it.
pub fn create_directory_probe(path: &str) -> (r: (String, Vec<String>))
    ensures
        spec_is_windows(path@) ==> {
            &&& r.0@ == "cmd.exe"@
            &&& r.1@.len() == 3
            &&& r.1@[0]@ == "/c"@
            &&& r.1@[1]@ == "mkdir"@
            &&& r.1@[2]@ == path@
        },
        !spec_is_windows(path@) ==> {
            &&& r.0@ == "mkdir"@
            &&& r.1@.len() == 2
            &&& r.1@[0]@ == "-p"@
            &&& r.1@[1]@ == path@
        },
{
    let mut args: Vec<String> = Vec::new();
    if let PathKind::Windows = classify(path) {
        args.push(String::from_str("/c"));
        args.push(String::from_str("mkdir"));
        args.push(path.to_owned());
        (String::from_str("cmd.exe"), args)
    } else {
        args.push(String::from_str("-p"));
        args.push(path.to_owned());
        (String::from_str("mkdir"), args)
    }
}

/// The whitespace dropped from the ends of a listing entry.
pub open spec fn is_ws(c: char) -> bool {
    c == ' ' || c == '\t' || c == '\r' || c == '\n' || c == '\u{b}' || c == '\u{c}'
}

/// A listing entry with leading whitespace dropped.
pub open spec fn spec_trim_front(s: Seq<char>) -> Seq<char>
    decreases s.len(),
{
    if s.len() > 0 && is_ws(s[0]) {
        spec_trim_front(s.drop_first())
    } else {
        s
    }
}

/// A listing entry with trailing whitespace dropped.
pub open spec fn spec_trim_back(s: Seq<char>) -> Seq<char>
    decreases s.len(),
{
    if s.len() > 0 && is_ws(s[s.len() - 1]) {
        spec_trim_back(s.drop_last())
    } else {
        s
    }
}

/// A listing entry with surrounding whitespace dropped.
pub open spec fn spec_trim(s: Seq<char>) -> Seq<char> {
    spec_trim_back(spec_trim_front(s))
}

/// Distance from position `i` to the next newline, or to the end.
pub open spec fn spec_nl_offset(s: Seq<char>, i: int) -> nat
    decreases s.len() - i,
{
    if i < 0 || i >= s.len() {
        0
    } else if s[i] == '\n' {
        0
    } else {
        1 + spec_nl_offset(s, i + 1)
    }
}

/// The listing parsed out of captured output, from position `i`: split
/// on newlines, each entry trimmed, empty entries dropped, order kept.
pub open spec fn spec_parse_lines_from(s: Seq<char>, i: int) -> Seq<Seq<char>>
    decreases s.len() - i,
{
    if i < 0 || i > s.len() {
        Seq::empty()
    } else {
        let j = i + spec_nl_offset(s, i);
        let head = spec_trim(s.subrange(i, j));
        let rest = if j < s.len() {
            spec_parse_lines_from(s, j + 1)
        } else {
            Seq::empty()
        };
        if head.len() > 0 {
            seq![head] + rest
        } else {
            rest
        }
    }
}

/// The listing parsed out of captured output.
pub open spec fn spec_parse_lines(s: Seq<char>) -> Seq<Seq<char>> {
    spec_parse_lines_from(s, 0)
}

proof fn lemma_nl_offset(s: Seq<char>, i: int)
    requires
        0 <= i <= s.len(),
    ensures
        i + spec_nl_offset(s, i) <= s.len(),
        i + spec_nl_offset(s, i) < s.len() ==> s[i + spec_nl_offset(s, i)] == '\n',
        forall|k: int| i <= k < i + spec_nl_offset(s, i) ==> s[k] != '\n',
    decreases s.len() - i,
{
    if i < s.len() && s[i] != '\n' {
        lemma_nl_offset(s, i + 1);
    }
}

proof fn lemma_nl_offset_is(s: Seq<char>, i: int, m: int)
    requires
        0 <= i <= m <= s.len(),
        forall|k: int| i <= k < m ==> s[k] != '\n',
        m < s.len() ==> s[m] == '\n',
    ensures
        i + spec_nl_offset(s, i) == m,
    decreases m - i,
{
    if i < m {
        lemma_nl_offset_is(s, i + 1, m);
    }
}

proof fn lemma_trim_front_at(t: Seq<char>, a: int)
    requires
        0 <= a <= t.len(),
        forall|k: int| 0 <= k < a ==> is_ws(t[k]),
        a < t.len() ==> !is_ws(t[a]),
    ensures
        spec_trim_front(t) == t.subrange(a, t.len() as int),
    decreases a,
{
    if a == 0 {
        assert(t.subrange(0, t.len() as int) =~= t);
    } else {
        assert(is_ws(t[0]));
        lemma_trim_front_at(t.drop_first(), a - 1);
        assert(t.drop_first().subrange(a - 1, t.drop_first().len() as int) =~= t.subrange(
            a,
            t.len() as int,
        ));
    }
}

proof fn lemma_trim_back_at(t: Seq<char>, b: int)
    requires
        0 <= b <= t.len(),
        forall|k: int| b <= k < t.len() ==> is_ws(t[k]),
        b > 0 ==> !is_ws(t[b - 1]),
    ensures
        spec_trim_back(t) == t.subrange(0, b),
    decreases t.len() - b,
{
    if b == t.len() {
        assert(t.subrange(0, b) =~= t);
    } else {
        assert(is_ws(t[t.len() - 1]));
        lemma_trim_back_at(t.drop_last(), b);
        assert(t.drop_last().subrange(0, b) =~= t.subrange(0, b));
    }
}

proof fn lemma_trim_range(t: Seq<char>, a: int, b: int)
    requires
        0 <= a <= b <= t.len(),
        forall|k: int| 0 <= k < a ==> is_ws(t[k]),
        forall|k: int| b <= k < t.len() ==> is_ws(t[k]),
        a < t.len() ==> !is_ws(t[a]),
        b > a ==> !is_ws(t[b - 1]),
    ensures
        spec_trim(t) == t.subrange(a, b),
    decreases 0nat,
{
    lemma_trim_front_at(t, a);
    let u = t.subrange(a, t.len() as int);
    lemma_trim_back_at(u, b - a);
    assert(u.subrange(0, b - a) =~= t.subrange(a, b));
}

fn is_ws_char(c: char) -> (r: bool)
    ensures
        r == is_ws(c),
{
    c == ' ' || c == '\t' || c == '\r' || c == '\n' || c == '\u{b}' || c == '\u{c}'
}

/// Parse the decoded captured output of a listing probe: one entry per
/// line, trimmed, empty lines dropped, order kept.
pub fn parse_lines(s: &str) -> (r: Vec<String>)
    ensures
        r@.map_values(|x: String| x@) == spec_parse_lines(s@),
{
    let n = s.unicode_len();
    let mut out: Vec<String> = Vec::new();
    let mut seg_start: usize = 0;
    let mut i: usize = 0;
    while i <= n
        invariant
            seg_start <= i <= n,
            n == s@.len(),
            spec_parse_lines(s@) == out@.map_values(|x: String| x@) + spec_parse_lines_from(
                s@,
                seg_start as int,
            ),
            forall|k: int| seg_start <= k < i && k < n ==> s@[k] != '\n',
        decreases n + 1 - i,
    {
        let at_end = i == n;
        let is_nl = if at_end {
            false
        } else {
            s.get_char(i) == '\n'
        };
        if at_end || is_nl {
            // Close the segment [seg_start, i): trim it and keep it if
            // anything is left.
            proof {
                lemma_nl_offset_is(s@, seg_start as int, i as int);
            }
            let mut a = seg_start;
            while a < i && is_ws_char(s.get_char(a))
                invariant
                    seg_start <= a <= i <= n,
                    n == s@.len(),
                    forall|k: int| seg_start <= k < a ==> is_ws(s@[k]),
                decreases i - a,
            {
                a = a + 1;
            }
            let mut b = i;
            while b > a && is_ws_char(s.get_char(b - 1))
                invariant
                    a <= b <= i <= n,
                    n == s@.len(),
                    forall|k: int| b <= k < i ==> is_ws(s@[k]),
                decreases b,
            {
                b = b - 1;
            }
            proof {
                let t = s@.subrange(seg_start as int, i as int);
                lemma_trim_range(t, a - seg_start, b - seg_start);
                assert(t.subrange(a - seg_start, b - seg_start) =~= s@.subrange(
                    a as int,
                    b as int,
                ));
            }
            if a < b {
                let entry = s.substring_char(a, b);
                out.push(entry.to_owned());
                proof {
                    assert(out@.map_values(|x: String| x@) =~= out@.drop_last().map_values(
                        |x: String| x@,
                    ) + seq![s@.subrange(a as int, b as int)]);
                }
            }
            if at_end {
                proof {
                    assert(spec_parse_lines_from(s@, i + 1) =~= Seq::<Seq<char>>::empty());
                    assert(spec_parse_lines(s@) =~= out@.map_values(|x: String| x@));
                }
                return out;
            }
            seg_start = i + 1;
        }
        i = i + 1;
    }
    out
}

/// Resolve a directory-listing probe.  A timeout, a non-zero exit and
/// absent captured output all resolve to an empty listing — an empty
/// result does not tell a failed probe from an empty directory.  Only
/// captured output that is not valid base64 is a protocol error.
pub fn listing_from_status(outcome: Option<&ExecStatus>) -> (r: Result<Vec<String>, QgaError>)
    ensures
        match outcome {
            None => r matches Ok(v) && v@.len() == 0,
            Some(st) => match st.out_data {
                Some(text) => if st.exitcode == Some(0i32) {
                    match b64_decoded(text@) {
                        Some(bytes) => r matches Ok(v) && v@.map_values(|x: String| x@)
                            == spec_parse_lines(utf8_lossy(bytes)),
                        None => r matches Err(e) && e is Protocol,
                    }
                } else {
                    r matches Ok(v) && v@.len() == 0
                },
                None => r matches Ok(v) && v@.len() == 0,
            },
        },
{
    match outcome {
        None => Ok(Vec::new()),
        Some(st) => {
            let code_ok = match st.exitcode {
                Some(c) => c == 0,
                None => false,
            };
            match &st.out_data {
                Some(text) => {
                    if code_ok {
                        match b64_decode(text.as_str()) {
                            Some(bytes) => {
                                let decoded = bytes_to_text(&bytes);
                                Ok(parse_lines(decoded.as_str()))
                            },
                            None => Err(
                                QgaError::Protocol(String::from_str("Failed to decode output")),
                            ),
                        }
                    } else {
                        Ok(Vec::new())
                    }
                },
                None => Ok(Vec::new()),
            }
        },
    }
}

} // verus!
