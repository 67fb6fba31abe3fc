use qga_client::json::{JsonValue, i64_dec, u64_dec};
use qga_client::qga::QemuGuestAgent;
use qga_client::wire::{
    QgaError, cmd_exec, cmd_exec_status, cmd_file_close, cmd_file_open, cmd_file_read,
    cmd_file_write, exec_status_from_return, handle_from_return, interpret_reply,
    pid_from_return, read_payload_from_return, write_count_from_return,
};

fn obj(fields: Vec<(&str, JsonValue)>) -> JsonValue {
    JsonValue::Obj(fields.into_iter().map(|(k, v)| (k.to_string(), v)).collect())
}

#[test]
fn decimal_rendering() {
    assert_eq!(u64_dec(0).as_str(), "0");
    assert_eq!(u64_dec(4096).as_str(), "4096");
    assert_eq!(u64_dec(18446744073709551615).as_str(), "18446744073709551615");
    assert_eq!(i64_dec(-5).as_str(), "-5");
    assert_eq!(i64_dec(7).as_str(), "7");
    assert_eq!(i64_dec(i64::MIN).as_str(), "-9223372036854775808");
}

#[test]
fn file_open_command_text() {
    assert_eq!(
        cmd_file_open("/tmp/a.txt", "w+").as_str(),
        "{\"execute\":\"guest-file-open\",\"arguments\":{\"mode\":\"w+\",\"path\":\"/tmp/a.txt\"}}"
    );
}

#[test]
fn file_open_command_escapes_path() {
    assert_eq!(
        cmd_file_open("C:\\\\dir \"x\"\n", "r").as_str(),
        "{\"execute\":\"guest-file-open\",\"arguments\":{\"mode\":\"r\",\"path\":\"C:\\\\\\\\dir \\\"x\\\"\\n\"}}"
    );
}

#[test]
fn file_write_command_encodes_payload() {
    // A wrapper that handed the bytes through unencoded would not
    // produce the base64 text.
    let data: Vec<u8> = b"hello".to_vec();
    assert_eq!(
        cmd_file_write(3, &data).as_str(),
        "{\"execute\":\"guest-file-write\",\"arguments\":{\"buf-b64\":\"aGVsbG8=\",\"handle\":3}}"
    );
}

#[test]
fn file_read_and_close_command_text() {
    assert_eq!(
        cmd_file_read(2, 4096).as_str(),
        "{\"execute\":\"guest-file-read\",\"arguments\":{\"count\":4096,\"handle\":2}}"
    );
    assert_eq!(
        cmd_file_close(5).as_str(),
        "{\"execute\":\"guest-file-close\",\"arguments\":{\"handle\":5}}"
    );
}

#[test]
fn exec_command_text() {
    let args = vec!["-1".to_string(), "/d".to_string()];
    assert_eq!(
        cmd_exec("ls", Some(&args), true).as_str(),
        "{\"execute\":\"guest-exec\",\"arguments\":{\"arg\":[\"-1\",\"/d\"],\"capture-output\":true,\"path\":\"ls\"}}"
    );
    assert_eq!(
        cmd_exec("reboot", None, false).as_str(),
        "{\"execute\":\"guest-exec\",\"arguments\":{\"path\":\"reboot\"}}"
    );
    let empty: Vec<String> = Vec::new();
    assert_eq!(
        cmd_exec("x", Some(&empty), false).as_str(),
        "{\"execute\":\"guest-exec\",\"arguments\":{\"arg\":[],\"path\":\"x\"}}"
    );
    assert_eq!(
        cmd_exec_status(42).as_str(),
        "{\"execute\":\"guest-exec-status\",\"arguments\":{\"pid\":42}}"
    );
}

#[test]
fn executor_argv_layout() {
    let agent = QemuGuestAgent::new("myvm".to_string());
    let argv = agent.executor_argv("{\"execute\":\"x\"}");
    let views: Vec<&str> = argv.iter().map(|s| s.as_str()).collect();
    assert_eq!(
        views,
        vec!["sudo", "virsh", "qemu-agent-command", "myvm", "{\"execute\":\"x\"}"]
    );
}

#[test]
fn interpret_reply_unwraps_return() {
    let reply = obj(vec![("return", JsonValue::Int(5))]);
    let ret = interpret_reply(true, "", Some(reply)).unwrap();
    assert_eq!(handle_from_return(&ret).unwrap(), 5);
}

#[test]
fn interpret_reply_transport_error() {
    let err = interpret_reply(false, "boom", None).unwrap_err();
    match &err {
        QgaError::Transport(_) => {}
        QgaError::Protocol(_) => panic!("expected a transport error"),
    }
    assert_eq!(err.message(), "Command failed: boom");
}

#[test]
fn interpret_reply_protocol_errors() {
    let no_parse = interpret_reply(true, "", None).unwrap_err();
    assert!(matches!(no_parse, QgaError::Protocol(_)));
    let no_return = obj(vec![("other", JsonValue::Null)]);
    let missing = interpret_reply(true, "", Some(no_return)).unwrap_err();
    assert!(matches!(missing, QgaError::Protocol(_)));
}

#[test]
fn handle_from_return_rejects_non_integer() {
    let v = JsonValue::Str("7".to_string());
    assert!(matches!(handle_from_return(&v), Err(QgaError::Protocol(_))));
}

#[test]
fn write_count_and_pid_extraction() {
    let v = obj(vec![("count", JsonValue::Int(4096))]);
    assert_eq!(write_count_from_return(&v).unwrap(), 4096);
    let missing = obj(vec![]);
    assert!(matches!(write_count_from_return(&missing), Err(QgaError::Protocol(_))));
    let p = obj(vec![("pid", JsonValue::Int(1234))]);
    assert_eq!(pid_from_return(&p).unwrap(), 1234);
    assert!(matches!(pid_from_return(&missing), Err(QgaError::Protocol(_))));
}

#[test]
fn read_payload_extraction() {
    let v = obj(vec![
        ("buf-b64", JsonValue::Str("aGVsbG8=".to_string())),
        ("eof", JsonValue::Bool(true)),
    ]);
    let (data, eof) = read_payload_from_return(&v).unwrap();
    assert_eq!(data, b"hello".to_vec());
    assert!(eof);

    let no_eof = obj(vec![("buf-b64", JsonValue::Str(String::new()))]);
    let (data2, eof2) = read_payload_from_return(&no_eof).unwrap();
    assert!(data2.is_empty());
    assert!(!eof2);

    let bad = obj(vec![("buf-b64", JsonValue::Str("!!!".to_string()))]);
    assert!(matches!(read_payload_from_return(&bad), Err(QgaError::Protocol(_))));
    let missing = obj(vec![]);
    assert!(matches!(read_payload_from_return(&missing), Err(QgaError::Protocol(_))));
}

#[test]
fn exec_status_parsing() {
    let v = obj(vec![
        ("exited", JsonValue::Bool(true)),
        ("exitcode", JsonValue::Int(0)),
        ("out-data", JsonValue::Str("YQ==".to_string())),
    ]);
    let st = exec_status_from_return(&v).unwrap();
    assert!(st.exited);
    assert_eq!(st.exitcode, Some(0));
    assert_eq!(st.out_data.as_deref(), Some("YQ=="));
    assert_eq!(st.err_data, None);

    let running = obj(vec![("exited", JsonValue::Bool(false))]);
    let st2 = exec_status_from_return(&running).unwrap();
    assert!(!st2.exited);
    assert_eq!(st2.exitcode, None);

    let missing_flag = obj(vec![("exitcode", JsonValue::Int(0))]);
    assert!(matches!(exec_status_from_return(&missing_flag), Err(QgaError::Protocol(_))));

    let out_of_range = obj(vec![
        ("exited", JsonValue::Bool(true)),
        ("exitcode", JsonValue::Int(1i64 << 40)),
    ]);
    assert!(matches!(exec_status_from_return(&out_of_range), Err(QgaError::Protocol(_))));

    let null_code = obj(vec![
        ("exited", JsonValue::Bool(true)),
        ("exitcode", JsonValue::Null),
    ]);
    assert_eq!(exec_status_from_return(&null_code).unwrap().exitcode, None);
}
