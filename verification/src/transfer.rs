//! The recursive transfer engine's verified core.
//!
//! Uploading a tree issues, in the order of a pre-order walk of the
//! local entries, a directory creation for the destination root, then
//! one operation per entry: a creation for each directory, a chunked
//! file transfer for each file.  Each file travels through exactly one
//! open, the writes of its chunks in order, and exactly one close.
//! Downloading joins listed names onto the guest folder with the
//! separator its classification picks.

use vstd::prelude::*;
use crate::chunk::{CHUNK_SIZE, spec_chunks};
use crate::path::{spec_is_windows, spec_join_child, join_child, classify, PathKind};
use crate::wire::{
    spec_cmd_file_open, spec_cmd_file_close, spec_cmd_file_write, spec_cmd_file_read,
    cmd_file_open, cmd_file_close, cmd_file_write, cmd_file_read,
};

verus! {

/// One request of the handle-based file protocol.
pub enum WireRequest {
    FileOpen { path: String, mode: String },
    FileClose { handle: i64 },
    FileWrite { handle: i64, data: Vec<u8> },
    FileRead { handle: i64, count: usize },
}

/// The JSON text a request is rendered to.
pub open spec fn spec_render_request(r: WireRequest) -> Seq<char> {
    match r {
        WireRequest::FileOpen { path, mode } => spec_cmd_file_open(path@, mode@),
        WireRequest::FileClose { handle } => spec_cmd_file_close(handle as int),
        WireRequest::FileWrite { handle, data } => spec_cmd_file_write(handle as int, data@),
        WireRequest::FileRead { handle, count } => spec_cmd_file_read(
            handle as int,
            count as nat,
        ),
    }
}

/// Render a request to the JSON text the wire carries.
pub fn render_request(r: &WireRequest) -> (s: String)
    ensures
        s@ == spec_render_request(*r),
{
    match r {
        WireRequest::FileOpen { path, mode } => cmd_file_open(path.as_str(), mode.as_str()),
        WireRequest::FileClose { handle } => cmd_file_close(*handle),
        WireRequest::FileWrite { handle, data } => cmd_file_write(*handle, data),
        WireRequest::FileRead { handle, count } => cmd_file_read(*handle, *count),
    }
}

/// The request stream that uploads `data` through an open handle: one
/// write per chunk, in order, then exactly one close — also when the
/// data is empty.  No open appears here: the open that produced the
/// handle precedes this stream, so a whole file transfer is exactly one
/// open, these writes, and one close, in that order.
pub fn upload_file_requests(handle: i64, data: &Vec<u8>) -> (reqs: Vec<WireRequest>)
    ensures
        reqs@.len() == spec_chunks(data@).len() + 1,
        forall|i: int|
            0 <= i < spec_chunks(data@).len() ==> ({
                &&& #[trigger] reqs@[i] matches WireRequest::FileWrite { handle: h, data: d }
                    && h == handle && d@ == spec_chunks(data@)[i]
            }),
        reqs@[reqs@.len() - 1] matches WireRequest::FileClose { handle: h } && h == handle,
        forall|i: int| 0 <= i < reqs@.len() ==> !(#[trigger] reqs@[i] is FileOpen),
        forall|i: int| 0 <= i < reqs@.len() - 1 ==> !(#[trigger] reqs@[i] is FileClose),
{
    let n = data.len();
    let mut reqs: Vec<WireRequest> = Vec::new();
    let mut off: usize = 0;
    let ghost chunks = spec_chunks(data@);
    proof {
        assert(data@.subrange(0, n as int) =~= data@);
    }
    while off < n
        invariant
            off <= n,
            n == data@.len(),
            chunks == spec_chunks(data@),
            spec_chunks(data@.subrange(off as int, n as int)) == chunks.subrange(
                reqs@.len() as int,
                chunks.len() as int,
            ),
            reqs@.len() <= chunks.len(),
            off < n ==> reqs@.len() < chunks.len(),
            off == n ==> reqs@.len() == chunks.len(),
            forall|i: int|
                0 <= i < reqs@.len() ==> ({
                    &&& #[trigger] reqs@[i] matches WireRequest::FileWrite { handle: h, data: d }
                        && h == handle && d@ == chunks[i]
                }),
        decreases n - off,
    {
        let end = if n - off > CHUNK_SIZE {
            off + CHUNK_SIZE
        } else {
            n
        };
        let mut chunk: Vec<u8> = Vec::new();
        let mut j = off;
        while j < end
            invariant
                off <= j <= end <= n,
                n == data@.len(),
                chunk@ == data@.subrange(off as int, j as int),
            decreases end - j,
        {
            chunk.push(data[j]);
            proof {
                assert(chunk@ =~= data@.subrange(off as int, j + 1));
            }
            j = j + 1;
        }
        proof {
            let suffix = data@.subrange(off as int, n as int);
            if n - off > 4096 {
                assert(suffix.subrange(0, 4096) =~= data@.subrange(off as int, off + 4096));
                assert(suffix.subrange(4096, suffix.len() as int) =~= data@.subrange(
                    end as int,
                    n as int,
                ));
            } else {
                assert(data@.subrange(end as int, n as int).len() == 0);
            }
            let k = reqs@.len() as int;
            let rest = chunks.subrange(k, chunks.len() as int);
            assert(rest[0] == chunks[k]);
            assert(rest.drop_first() =~= chunks.subrange(k + 1, chunks.len() as int));
            if n - off > 4096 {
                assert(spec_chunks(suffix) == seq![suffix.subrange(0, 4096)] + spec_chunks(
                    suffix.subrange(4096, suffix.len() as int),
                ));
                assert(spec_chunks(suffix).drop_first() =~= spec_chunks(
                    data@.subrange(end as int, n as int),
                ));
            } else {
                assert(spec_chunks(suffix) == seq![suffix]);
                assert(rest.len() == 1);
                assert(spec_chunks(data@.subrange(end as int, n as int)) =~= Seq::<Seq<u8>>::empty());
            }
            assert(spec_chunks(data@.subrange(end as int, n as int)) =~= chunks.subrange(
                k + 1,
                chunks.len() as int,
            ));
        }
        reqs.push(WireRequest::FileWrite { handle, data: chunk });
        off = end;
    }
    reqs.push(WireRequest::FileClose { handle });
    reqs
}

/// The open request that starts an upload: create or truncate the
/// file at the already-normalized guest path.
pub fn upload_open_request(normalized_path: &str) -> (r: WireRequest)
    ensures
        r matches WireRequest::FileOpen { path, mode } && path@ == normalized_path@ && mode@
            == "w+"@,
{
    WireRequest::FileOpen { path: normalized_path.to_owned(), mode: String::from_str("w+") }
}

/// The open request that starts a download: read the file at the
/// already-normalized guest path.
pub fn download_open_request(normalized_path: &str) -> (r: WireRequest)
    ensures
        r matches WireRequest::FileOpen { path, mode } && path@ == normalized_path@ && mode@
            == "r"@,
{
    WireRequest::FileOpen { path: normalized_path.to_owned(), mode: String::from_str("r") }
}

/// The read request a download issues, always for one full chunk.
pub fn download_read_request(handle: i64) -> (r: WireRequest)
    ensures
        r matches WireRequest::FileRead { handle: h, count } && h == handle && count == 4096,
{
    WireRequest::FileRead { handle, count: CHUNK_SIZE }
}

/// A relative path with every `/` turned into `\`, as a Windows upload
/// target spells it.
pub open spec fn spec_replace_slash(s: Seq<char>) -> Seq<char>
    decreases s.len(),
{
    if s.len() == 0 {
        Seq::empty()
    } else {
        (if s[0] == '/' {
            seq!['\\']
        } else {
            seq![s[0]]
        }) + spec_replace_slash(s.drop_first())
    }
}

proof fn lemma_replace_slash_concat(a: Seq<char>, b: Seq<char>)
    ensures
        spec_replace_slash(a + b) == spec_replace_slash(a) + spec_replace_slash(b),
    decreases a.len(),
{
    if a.len() == 0 {
        assert(a + b =~= b);
        assert(spec_replace_slash(a) + spec_replace_slash(b) =~= spec_replace_slash(b));
    } else {
        assert((a + b).drop_first() =~= a.drop_first() + b);
        assert((a + b)[0] == a[0]);
        lemma_replace_slash_concat(a.drop_first(), b);
        assert(spec_replace_slash(a + b) =~= spec_replace_slash(a) + spec_replace_slash(b));
    }
}

proof fn lemma_replace_slash_single(c: char)
    ensures
        spec_replace_slash(seq![c]) == if c == '/' {
            seq!['\\']
        } else {
            seq![c]
        },
{
    reveal_with_fuel(spec_replace_slash, 2);
    assert(seq![c].drop_first() =~= Seq::<char>::empty());
    if c == '/' {
        assert(seq!['\\'] + Seq::<char>::empty() =~= seq!['\\']);
    } else {
        assert(seq![c] + Seq::<char>::empty() =~= seq![c]);
    }
}

/// Turn every `/` of a relative path into `\`.
pub fn replace_slash(s: &str) -> (r: String)
    ensures
        r@ == spec_replace_slash(s@),
{
    let n = s.unicode_len();
    let mut out = String::new();
    let mut i: usize = 0;
    proof {
        assert(s@.subrange(0, 0) =~= Seq::<char>::empty());
    }
    while i < n
        invariant
            i <= n,
            n == s@.len(),
            out@ == spec_replace_slash(s@.subrange(0, i as int)),
        decreases n - i,
    {
        let c = s.get_char(i);
        if c == '/' {
            out.append("\\");
        } else {
            let one = s.substring_char(i, i + 1);
            out.append(one);
        }
        proof {
            assert(s@.subrange(0, i + 1) =~= s@.subrange(0, i as int) + seq![s@[i as int]]);
            lemma_replace_slash_concat(s@.subrange(0, i as int), seq![s@[i as int]]);
            lemma_replace_slash_single(s@[i as int]);
            reveal_strlit("\\");
            assert("\\"@ =~= seq!['\\']);
            assert(s@.subrange(i as int, i + 1) =~= seq![s@[i as int]]);
            assert(out@ =~= spec_replace_slash(s@.subrange(0, i + 1)));
        }
        i = i + 1;
    }
    proof {
        assert(s@.subrange(0, n as int) =~= s@);
    }
    out
}

/// The guest path an uploaded entry lands at: the destination folder,
/// the separator its classification picks, then the relative path —
/// with its slashes rewritten when the destination is Windows.
pub open spec fn spec_upload_target(folder: Seq<char>, rel: Seq<char>) -> Seq<char> {
    if spec_is_windows(folder) {
        folder + seq!['\\'] + spec_replace_slash(rel)
    } else {
        folder + seq!['/'] + rel
    }
}

/// Join a relative entry path onto the destination guest folder.
pub fn upload_target(guest_folder: &str, rel_path: &str) -> (r: String)
    ensures
        r@ == spec_upload_target(guest_folder@, rel_path@),
{
    let mut out = guest_folder.to_owned();
    if let PathKind::Windows = classify(guest_folder) {
        out.append("\\");
        let rewritten = replace_slash(rel_path);
        out.append(rewritten.as_str());
        proof {
            reveal_strlit("\\");
            assert("\\"@ =~= seq!['\\']);
        }
    } else {
        out.append("/");
        out.append(rel_path);
        proof {
            reveal_strlit("/");
            assert("/"@ =~= seq!['/']);
        }
    }
    out
}

/// One entry of the local tree walk, by its path relative to the
/// uploaded root.
pub struct LocalEntry {
    pub rel_path: String,
    pub is_dir: bool,
}

/// The view of a local entry.
pub struct LocalEntryView {
    pub rel_path: Seq<char>,
    pub is_dir: bool,
}

impl View for LocalEntry {
    type V = LocalEntryView;

    open spec fn view(&self) -> LocalEntryView {
        LocalEntryView { rel_path: self.rel_path@, is_dir: self.is_dir }
    }
}

/// One step of an upload plan: create a guest directory, or transfer
/// one local file onto a guest path.
pub enum TransferOp {
    CreateDir { guest_path: String },
    SendFile { guest_path: String, rel_path: String },
}

/// The view of a transfer operation.
pub enum TransferOpView {
    CreateDir { guest_path: Seq<char> },
    SendFile { guest_path: Seq<char>, rel_path: Seq<char> },
}

impl View for TransferOp {
    type V = TransferOpView;

    open spec fn view(&self) -> TransferOpView {
        match self {
            TransferOp::CreateDir { guest_path } => TransferOpView::CreateDir {
                guest_path: guest_path@,
            },
            TransferOp::SendFile { guest_path, rel_path } => TransferOpView::SendFile {
                guest_path: guest_path@,
                rel_path: rel_path@,
            },
        }
    }
}

/// The operation an entry maps to.
pub open spec fn spec_op_for(folder: Seq<char>, e: LocalEntryView) -> TransferOpView {
    if e.is_dir {
        TransferOpView::CreateDir { guest_path: spec_upload_target(folder, e.rel_path) }
    } else {
        TransferOpView::SendFile {
            guest_path: spec_upload_target(folder, e.rel_path),
            rel_path: e.rel_path,
        }
    }
}

/// The plan tail for the entries from position `i` on: one operation
/// per entry in the walk's order, entries with an empty relative path
/// (the root itself) skipped.
pub open spec fn spec_upload_plan_from(
    folder: Seq<char>,
    entries: Seq<LocalEntryView>,
    i: int,
) -> Seq<TransferOpView>
    decreases entries.len() - i,
{
    if i < 0 || i >= entries.len() {
        Seq::empty()
    } else {
        let rest = spec_upload_plan_from(folder, entries, i + 1);
        if entries[i].rel_path.len() == 0 {
            rest
        } else {
            seq![spec_op_for(folder, entries[i])] + rest
        }
    }
}

/// The whole upload plan: first create the destination root, then one
/// operation per walked entry, in order.  With a pre-order walk every
/// directory's creation stands before every operation on its
/// descendants.
pub open spec fn spec_upload_plan(folder: Seq<char>, entries: Seq<LocalEntryView>) -> Seq<
    TransferOpView,
> {
    seq![TransferOpView::CreateDir { guest_path: folder }] + spec_upload_plan_from(
        folder,
        entries,
        0,
    )
}

/// Plan the upload of a walked local tree onto a guest folder.
pub fn upload_folder_plan(guest_folder: &str, entries: &Vec<LocalEntry>) -> (plan: Vec<
    TransferOp,
>)
    ensures
        plan@.map_values(|op: TransferOp| op@) == spec_upload_plan(
            guest_folder@,
            entries@.map_values(|e: LocalEntry| e@),
        ),
{
    let ghost entries_v = entries@.map_values(|e: LocalEntry| e@);
    let mut plan: Vec<TransferOp> = Vec::new();
    plan.push(TransferOp::CreateDir { guest_path: guest_folder.to_owned() });
    proof {
        assert(plan@.map_values(|op: TransferOp| op@) =~= seq![
            TransferOpView::CreateDir { guest_path: guest_folder@ },
        ]);
    }
    let n = entries.len();
    let mut i: usize = 0;
    while i < n
        invariant
            i <= n,
            n == entries@.len(),
            entries_v == entries@.map_values(|e: LocalEntry| e@),
            spec_upload_plan(guest_folder@, entries_v) == plan@.map_values(|op: TransferOp| op@)
                + spec_upload_plan_from(guest_folder@, entries_v, i as int),
        decreases n - i,
    {
        proof {
            assert(entries_v[i as int] == entries@[i as int]@);
        }
        let rel = &entries[i].rel_path;
        if !rel.as_str().is_empty() {
            let target = upload_target(guest_folder, rel.as_str());
            let op = if entries[i].is_dir {
                TransferOp::CreateDir { guest_path: target }
            } else {
                TransferOp::SendFile { guest_path: target, rel_path: rel.clone() }
            };
            proof {
                assert(op@ == spec_op_for(guest_folder@, entries_v[i as int]));
            }
            plan.push(op);
            proof {
                assert(plan@.map_values(|op2: TransferOp| op2@) =~= plan@.drop_last().map_values(
                    |op2: TransferOp| op2@,
                ) + seq![plan@[plan@.len() - 1]@]);
            }
        }
        i = i + 1;
    }
    plan
}

/// Join each listed name onto the guest folder it was listed from, in
/// order, with the separator the folder's classification picks.
pub fn download_targets(guest_folder: &str, items: &Vec<String>) -> (r: Vec<String>)
    ensures
        r@.len() == items@.len(),
        forall|i: int|
            0 <= i < items@.len() ==> #[trigger] r@[i]@ == spec_join_child(
                guest_folder@,
                items@[i]@,
            ),
{
    let n = items.len();
    let mut r: Vec<String> = Vec::new();
    let mut i: usize = 0;
    while i < n
        invariant
            i <= n,
            n == items@.len(),
            r@.len() == i,
            forall|j: int|
                0 <= j < i ==> #[trigger] r@[j]@ == spec_join_child(guest_folder@, items@[j]@),
        decreases n - i,
    {
        r.push(join_child(guest_folder, items[i].as_str()));
        i = i + 1;
    }
    r
}

} // verus!
