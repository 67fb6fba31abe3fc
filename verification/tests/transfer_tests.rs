use base64::Engine;
use qga_client::chunk::{CHUNK_SIZE, assemble_read_replies, split_into_chunks};
use qga_client::path::normalize_for_transport;
use qga_client::transfer::{
    LocalEntry, TransferOp, WireRequest, download_open_request, download_read_request,
    download_targets, render_request, replace_slash, upload_file_requests, upload_folder_plan,
    upload_open_request, upload_target,
};

fn sample_bytes(n: usize) -> Vec<u8> {
    (0..n).map(|i| (i % 251) as u8).collect()
}

#[test]
fn chunk_boundaries_at_multiples_of_chunk_size() {
    let data = sample_bytes(10000);
    let chunks = split_into_chunks(&data);
    let lens: Vec<usize> = chunks.iter().map(|c| c.len()).collect();
    assert_eq!(lens, vec![4096, 4096, 1808]);
    assert!(split_into_chunks(&Vec::new()).is_empty());
    let small = split_into_chunks(&sample_bytes(5));
    assert_eq!(small.len(), 1);
    let exact = split_into_chunks(&sample_bytes(CHUNK_SIZE));
    assert_eq!(exact.len(), 1);
    assert_eq!(exact[0].len(), CHUNK_SIZE);
}

/// Round trip against a fake transport: the upload writes chunks, a
/// fake guest stores the decoded payloads, the download reads them back
/// chunk by chunk until end of file.
#[test]
fn upload_then_download_round_trip() {
    let data = sample_bytes(9000);
    // Upload side: one open, the writes, one close.
    let open = upload_open_request("/dst/f");
    assert!(matches!(open, WireRequest::FileOpen { .. }));
    let reqs = upload_file_requests(7, &data);
    // The fake guest decodes each rendered write payload.
    let mut guest_file: Vec<u8> = Vec::new();
    for req in &reqs {
        if let WireRequest::FileWrite { handle, data } = req {
            assert_eq!(*handle, 7);
            let rendered = render_request(req);
            let text = rendered.as_str();
            let start = text.find("\"buf-b64\":\"").unwrap() + 11;
            let end = text[start..].find('"').unwrap() + start;
            let decoded = base64::engine::general_purpose::STANDARD
                .decode(&text[start..end])
                .unwrap();
            assert_eq!(&decoded, data);
            guest_file.extend_from_slice(&decoded);
        }
    }
    assert_eq!(guest_file, data);
    // Download side: read replies deliver the stored chunks, then one
    // empty reply flagging end of file.
    let mut replies: Vec<(Vec<u8>, bool)> = split_into_chunks(&guest_file)
        .into_iter()
        .map(|c| (c, false))
        .collect();
    replies.push((Vec::new(), true));
    let (back, saw_eof) = assemble_read_replies(&replies);
    assert!(saw_eof);
    assert_eq!(back, data);
}

#[test]
fn empty_file_round_trip() {
    let reqs = upload_file_requests(1, &Vec::new());
    assert_eq!(reqs.len(), 1);
    assert!(matches!(reqs[0], WireRequest::FileClose { handle: 1 }));
    let replies = vec![(Vec::new(), true)];
    let (back, saw_eof) = assemble_read_replies(&replies);
    assert!(back.is_empty());
    assert!(saw_eof);
}

#[test]
fn assemble_stops_at_first_eof_and_keeps_its_bytes() {
    let replies = vec![
        (vec![1u8, 2], false),
        (vec![3u8], true),
        (vec![9u8, 9, 9], false),
    ];
    let (data, saw_eof) = assemble_read_replies(&replies);
    assert_eq!(data, vec![1, 2, 3]);
    assert!(saw_eof);
    let open_ended = vec![(vec![5u8], false)];
    let (data2, saw_eof2) = assemble_read_replies(&open_ended);
    assert_eq!(data2, vec![5]);
    assert!(!saw_eof2);
}

#[test]
fn download_requests_ask_for_full_chunks() {
    let open = download_open_request(normalize_for_transport("C:\\f").as_str());
    match open {
        WireRequest::FileOpen { path, mode } => {
            assert_eq!(path.as_str(), "C:\\\\f");
            assert_eq!(mode.as_str(), "r");
        }
        _ => panic!("expected an open request"),
    }
    match download_read_request(9) {
        WireRequest::FileRead { handle, count } => {
            assert_eq!(handle, 9);
            assert_eq!(count, 4096);
        }
        _ => panic!("expected a read request"),
    }
}

#[test]
fn upload_targets_follow_destination_syntax() {
    assert_eq!(upload_target("/dst", "sub/f2").as_str(), "/dst/sub/f2");
    assert_eq!(upload_target("C:\\dst", "sub/f2").as_str(), "C:\\dst\\sub\\f2");
    assert_eq!(replace_slash("a/b/c").as_str(), "a\\b\\c");
    assert_eq!(replace_slash("plain").as_str(), "plain");
}

/// Recursive upload of root/{f1, sub/f2} onto /dst: the destination
/// root is created first, sub is created before sub/f2 is sent, and
/// each file travels through its own open/write/close cycle — two
/// opens, two closes.
#[test]
fn upload_plan_order_and_handle_lifecycles() {
    let entries = vec![
        LocalEntry { rel_path: String::new(), is_dir: true },
        LocalEntry { rel_path: "f1".to_string(), is_dir: false },
        LocalEntry { rel_path: "sub".to_string(), is_dir: true },
        LocalEntry { rel_path: "sub/f2".to_string(), is_dir: false },
    ];
    let plan = upload_folder_plan("/dst", &entries);
    assert_eq!(plan.len(), 4);
    match &plan[0] {
        TransferOp::CreateDir { guest_path } => assert_eq!(guest_path.as_str(), "/dst"),
        _ => panic!("the destination root is created first"),
    }
    match &plan[1] {
        TransferOp::SendFile { guest_path, rel_path } => {
            assert_eq!(guest_path.as_str(), "/dst/f1");
            assert_eq!(rel_path.as_str(), "f1");
        }
        _ => panic!("f1 is sent second"),
    }
    match &plan[2] {
        TransferOp::CreateDir { guest_path } => assert_eq!(guest_path.as_str(), "/dst/sub"),
        _ => panic!("sub is created before its file"),
    }
    match &plan[3] {
        TransferOp::SendFile { guest_path, .. } => {
            assert_eq!(guest_path.as_str(), "/dst/sub/f2")
        }
        _ => panic!("sub/f2 is sent last"),
    }
    // A fake transport spy counting handle lifecycles over both file
    // transfers: opens == closes == 2.
    let mut opens = 0;
    let mut closes = 0;
    let mut next_handle: i64 = 11;
    for op in &plan {
        if let TransferOp::SendFile { guest_path, .. } = op {
            let normalized = normalize_for_transport(guest_path.as_str());
            let open = upload_open_request(normalized.as_str());
            assert!(matches!(open, WireRequest::FileOpen { .. }));
            opens += 1;
            let reqs = upload_file_requests(next_handle, &sample_bytes(5000));
            next_handle += 1;
            for req in &reqs {
                match req {
                    WireRequest::FileOpen { .. } => opens += 1,
                    WireRequest::FileClose { .. } => closes += 1,
                    _ => {}
                }
            }
        }
    }
    assert_eq!(opens, 2);
    assert_eq!(closes, 2);
}

#[test]
fn windows_upload_plan_targets() {
    let entries = vec![
        LocalEntry { rel_path: "sub/f".to_string(), is_dir: false },
    ];
    let plan = upload_folder_plan("C:\\dst", &entries);
    assert_eq!(plan.len(), 2);
    match &plan[1] {
        TransferOp::SendFile { guest_path, .. } => {
            assert_eq!(guest_path.as_str(), "C:\\dst\\sub\\f")
        }
        _ => panic!("expected the file transfer"),
    }
}

#[test]
fn download_targets_join_in_order() {
    let items = vec!["a".to_string(), "b".to_string()];
    let joined = download_targets("/dst", &items);
    assert_eq!(joined, vec!["/dst/a".to_string(), "/dst/b".to_string()]);
    let joined_w = download_targets("C:\\dst", &items);
    assert_eq!(joined_w, vec!["C:\\dst\\a".to_string(), "C:\\dst\\b".to_string()]);
}
