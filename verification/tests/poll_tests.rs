use base64::Engine;
use qga_client::poll::{
    DIR_PROBE_ATTEMPTS, EXEC_ATTEMPTS, LIST_ATTEMPTS, POLL_INTERVAL_MS, create_directory_probe,
    directory_probe_verdict, first_terminal, is_directory_probe, list_directory_probe,
    listing_from_status, parse_lines,
};
use qga_client::qga::ExecStatus;
use qga_client::wire::QgaError;

fn running() -> ExecStatus {
    ExecStatus { exited: false, exitcode: None, out_data: None, err_data: None }
}

fn exited(code: i32) -> ExecStatus {
    ExecStatus { exited: true, exitcode: Some(code), out_data: None, err_data: None }
}

fn b64(text: &str) -> String {
    base64::engine::general_purpose::STANDARD.encode(text.as_bytes())
}

#[test]
fn budgets_match_call_sites() {
    assert_eq!(DIR_PROBE_ATTEMPTS, 10);
    assert_eq!(LIST_ATTEMPTS, 20);
    assert_eq!(EXEC_ATTEMPTS, 30);
    assert_eq!(POLL_INTERVAL_MS, 100);
}

#[test]
fn terminal_found_after_exactly_k_polls() {
    let trace = vec![running(), running(), exited(0), exited(0)];
    // The process exits on the third observation: exactly three polls
    // are spent, no more.
    assert_eq!(first_terminal(&trace, 10), Some(2));
    assert_eq!(first_terminal(&trace, 3), Some(2));
}

#[test]
fn budget_exhaustion_is_a_soft_default() {
    let trace = vec![running(), running(), exited(0)];
    assert_eq!(first_terminal(&trace, 2), None);
    let never = vec![running(), running(), running(), running()];
    assert_eq!(first_terminal(&never, 4), None);
    let empty: Vec<ExecStatus> = Vec::new();
    assert_eq!(first_terminal(&empty, 10), None);
}

#[test]
fn directory_verdicts() {
    assert!(directory_probe_verdict(Some(&exited(0))));
    assert!(!directory_probe_verdict(Some(&exited(1))));
    let no_code = ExecStatus { exited: true, exitcode: None, out_data: None, err_data: None };
    assert!(!directory_probe_verdict(Some(&no_code)));
    assert!(!directory_probe_verdict(None));
}

#[test]
fn probe_commands_posix() {
    let (prog, args) = is_directory_probe("/srv/data");
    assert_eq!(prog.as_str(), "test");
    assert_eq!(args, vec!["-d".to_string(), "/srv/data".to_string()]);
    let (prog2, args2) = list_directory_probe("/srv");
    assert_eq!(prog2.as_str(), "ls");
    assert_eq!(args2, vec!["-1".to_string(), "/srv".to_string()]);
    let (prog3, args3) = create_directory_probe("/srv/new");
    assert_eq!(prog3.as_str(), "mkdir");
    assert_eq!(args3, vec!["-p".to_string(), "/srv/new".to_string()]);
}

#[test]
fn probe_commands_windows() {
    let (prog, args) = is_directory_probe("C:\\data");
    assert_eq!(prog.as_str(), "powershell.exe");
    assert_eq!(args[0].as_str(), "-Command");
    assert_eq!(
        args[1].as_str(),
        "if (Test-Path -Path \"C:\\data\" -PathType Container) { exit 0 } else { exit 1 }"
    );
    let (prog2, args2) = list_directory_probe("C:\\data");
    assert_eq!(prog2.as_str(), "cmd.exe");
    assert_eq!(
        args2,
        vec!["/c".to_string(), "dir".to_string(), "/b".to_string(), "C:\\data".to_string()]
    );
    let (prog3, args3) = create_directory_probe("C:\\data\\new");
    assert_eq!(prog3.as_str(), "cmd.exe");
    assert_eq!(
        args3,
        vec!["/c".to_string(), "mkdir".to_string(), "C:\\data\\new".to_string()]
    );
}

#[test]
fn listing_drops_empty_lines_keeps_order() {
    let st = ExecStatus {
        exited: true,
        exitcode: Some(0),
        out_data: Some(b64("a\nb\n\nc")),
        err_data: None,
    };
    let names = listing_from_status(Some(&st)).unwrap();
    assert_eq!(names, vec!["a".to_string(), "b".to_string(), "c".to_string()]);
}

#[test]
fn listing_soft_defaults() {
    assert!(listing_from_status(None).unwrap().is_empty());
    assert!(listing_from_status(Some(&exited(1))).unwrap().is_empty());
    let no_output = exited(0);
    assert!(listing_from_status(Some(&no_output)).unwrap().is_empty());
    let nonzero_with_output = ExecStatus {
        exited: true,
        exitcode: Some(2),
        out_data: Some(b64("x")),
        err_data: None,
    };
    assert!(listing_from_status(Some(&nonzero_with_output)).unwrap().is_empty());
}

#[test]
fn listing_rejects_bad_encoding() {
    let st = ExecStatus {
        exited: true,
        exitcode: Some(0),
        out_data: Some("%%%".to_string()),
        err_data: None,
    };
    assert!(matches!(listing_from_status(Some(&st)), Err(QgaError::Protocol(_))));
}

#[test]
fn listing_decodes_output_lossily() {
    // An invalid UTF-8 byte in a name comes back as the replacement
    // character, not as the raw byte.
    let raw: Vec<u8> = vec![0x66, 0xFF, 0x6F, b'\n', b'x'];
    let st = ExecStatus {
        exited: true,
        exitcode: Some(0),
        out_data: Some(base64::engine::general_purpose::STANDARD.encode(&raw)),
        err_data: None,
    };
    let names = listing_from_status(Some(&st)).unwrap();
    assert_eq!(names, vec!["f\u{FFFD}o".to_string(), "x".to_string()]);
}

#[test]
fn parse_lines_trims_entries() {
    let parsed = parse_lines("  a \r\nb\n\n c\t\n");
    assert_eq!(parsed, vec!["a".to_string(), "b".to_string(), "c".to_string()]);
    assert!(parse_lines("").is_empty());
    assert!(parse_lines(" \n\t\n").is_empty());
    assert_eq!(parse_lines("one"), vec!["one".to_string()]);
}
