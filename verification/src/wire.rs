//! Wire commands and reply interpretation.
//!
//! Every request to the guest agent is a JSON object
//! `{"execute": <name>, "arguments": <object>}`; the field names and
//! the base64 encoding of payloads are bit-exact requirements of the
//! protocol, so the renderers here state the produced text exactly.
//! Replies arrive as [`JsonValue`] and are interpreted here: a reply
//! must wrap a `return` field, and each command reads its own shape out
//! of that value or fails with a protocol error.

use vstd::prelude::*;
use crate::b64::{b64_chars, b64_decoded, b64_encode, b64_decode};
use crate::qga::ExecStatus;
use crate::json::{
    JsonValue, append_json_string, i64_dec, u64_dec, spec_i64_dec, spec_u64_dec,
    spec_json_string, spec_lookup, spec_lookup_from, lookup,
};

verus! {

/// A hard failure of one wire call: the request executor failed or
/// reported a non-zero exit, or the reply did not have the promised
/// shape.  Soft poll timeouts are not errors and never produce one of
/// these.
#[derive(Debug)]
pub enum QgaError {
    Transport(String),
    Protocol(String),
}

impl QgaError {
    pub fn message(&self) -> (r: &str)
        ensures
            match self {
                QgaError::Transport(m) => r@ == m@,
                QgaError::Protocol(m) => r@ == m@,
            },
    {
        match self {
            QgaError::Transport(m) => m.as_str(),
            QgaError::Protocol(m) => m.as_str(),
        }
    }
}

/// The rendered `guest-file-open` command.
pub open spec fn spec_cmd_file_open(path: Seq<char>, mode: Seq<char>) -> Seq<char> {
    "{\"execute\":\"guest-file-open\",\"arguments\":{\"mode\":"@ + spec_json_string(mode)
        + ",\"path\":"@ + spec_json_string(path) + "}}"@
}

/// The rendered `guest-file-close` command.
pub open spec fn spec_cmd_file_close(handle: int) -> Seq<char> {
    "{\"execute\":\"guest-file-close\",\"arguments\":{\"handle\":"@ + spec_i64_dec(handle)
        + "}}"@
}

/// The rendered `guest-file-write` command; the payload travels
/// base64-encoded.
pub open spec fn spec_cmd_file_write(handle: int, data: Seq<u8>) -> Seq<char> {
    "{\"execute\":\"guest-file-write\",\"arguments\":{\"buf-b64\":"@ + spec_json_string(
        b64_chars(data),
    ) + ",\"handle\":"@ + spec_i64_dec(handle) + "}}"@
}

/// The rendered `guest-file-read` command.
pub open spec fn spec_cmd_file_read(handle: int, count: nat) -> Seq<char> {
    "{\"execute\":\"guest-file-read\",\"arguments\":{\"count\":"@ + spec_u64_dec(count)
        + ",\"handle\":"@ + spec_i64_dec(handle) + "}}"@
}

/// The comma-separated tail of a JSON string array, from position `i`.
pub open spec fn spec_array_items_from(items: Seq<String>, i: int) -> Seq<char>
    decreases items.len() - i,
{
    if i < 0 || i >= items.len() {
        Seq::empty()
    } else {
        ","@ + spec_json_string(items[i]@) + spec_array_items_from(items, i + 1)
    }
}

/// A JSON array of string literals.
pub open spec fn spec_json_string_array(items: Seq<String>) -> Seq<char> {
    if items.len() == 0 {
        "[]"@
    } else {
        "["@ + spec_json_string(items[0]@) + spec_array_items_from(items, 1) + "]"@
    }
}

/// The rendered `guest-exec` command: the optional argument vector, the
/// optional capture flag, then the program path.
pub open spec fn spec_cmd_exec(path: Seq<char>, args: Option<Seq<String>>, capture: bool) -> Seq<
    char,
> {
    "{\"execute\":\"guest-exec\",\"arguments\":{"@ + (match args {
        Some(a) => "\"arg\":"@ + spec_json_string_array(a) + ","@,
        None => Seq::empty(),
    }) + (if capture {
        "\"capture-output\":true,"@
    } else {
        Seq::<char>::empty()
    }) + "\"path\":"@ + spec_json_string(path) + "}}"@
}

/// The rendered `guest-exec-status` command.
pub open spec fn spec_cmd_exec_status(pid: int) -> Seq<char> {
    "{\"execute\":\"guest-exec-status\",\"arguments\":{\"pid\":"@ + spec_i64_dec(pid) + "}}"@
}

/// Append a JSON array of string literals to `out`.
fn append_json_string_array(out: &mut String, items: &Vec<String>)
    ensures
        final(out)@ == old(out)@ + spec_json_string_array(items@),
{
    let n = items.len();
    if n == 0 {
        out.append("[]");
        return ;
    }
    out.append("[");
    append_json_string(out, items[0].as_str());
    let mut i: usize = 1;
    while i < n
        invariant
            1 <= i <= n,
            n == items@.len(),
            out@ + spec_array_items_from(items@, i as int) == old(out)@ + "["@ + spec_json_string(
                items@[0]@,
            ) + spec_array_items_from(items@, 1),
        decreases n - i,
    {
        out.append(",");
        append_json_string(out, items[i].as_str());
        proof {
            assert(out@ + spec_array_items_from(items@, i + 1) =~= old(out)@ + "["@
                + spec_json_string(items@[0]@) + spec_array_items_from(items@, 1));
        }
        i = i + 1;
    }
    out.append("]");
    proof {
        assert(spec_array_items_from(items@, n as int) == Seq::<char>::empty());
        assert(final(out)@ =~= old(out)@ + spec_json_string_array(items@));
    }
}

/// Render the `guest-file-open` command for a (already normalized)
/// guest path and a mode.
pub fn cmd_file_open(path: &str, mode: &str) -> (r: String)
    ensures
        r@ == spec_cmd_file_open(path@, mode@),
{
    let mut out = String::from_str("{\"execute\":\"guest-file-open\",\"arguments\":{\"mode\":");
    append_json_string(&mut out, mode);
    out.append(",\"path\":");
    append_json_string(&mut out, path);
    out.append("}}");
    proof {
        assert(out@ =~= spec_cmd_file_open(path@, mode@));
    }
    out
}

/// Render the `guest-file-close` command.
pub fn cmd_file_close(handle: i64) -> (r: String)
    ensures
        r@ == spec_cmd_file_close(handle as int),
{
    let mut out = String::from_str("{\"execute\":\"guest-file-close\",\"arguments\":{\"handle\":");
    let num = i64_dec(handle);
    out.append(num.as_str());
    out.append("}}");
    proof {
        assert(out@ =~= spec_cmd_file_close(handle as int));
    }
    out
}

/// Render the `guest-file-write` command: the chunk is base64-encoded
/// into the payload field.
pub fn cmd_file_write(handle: i64, data: &Vec<u8>) -> (r: String)
    ensures
        r@ == spec_cmd_file_write(handle as int, data@),
{
    let mut out = String::from_str(
        "{\"execute\":\"guest-file-write\",\"arguments\":{\"buf-b64\":",
    );
    let payload = b64_encode(data);
    append_json_string(&mut out, payload.as_str());
    out.append(",\"handle\":");
    let num = i64_dec(handle);
    out.append(num.as_str());
    out.append("}}");
    proof {
        assert(out@ =~= spec_cmd_file_write(handle as int, data@));
    }
    out
}

/// Render the `guest-file-read` command.
pub fn cmd_file_read(handle: i64, count: usize) -> (r: String)
    ensures
        r@ == spec_cmd_file_read(handle as int, count as nat),
{
    let mut out = String::from_str("{\"execute\":\"guest-file-read\",\"arguments\":{\"count\":");
    let cnt = u64_dec(count as u64);
    out.append(cnt.as_str());
    out.append(",\"handle\":");
    let num = i64_dec(handle);
    out.append(num.as_str());
    out.append("}}");
    proof {
        assert(out@ =~= spec_cmd_file_read(handle as int, count as nat));
    }
    out
}

/// Render the `guest-exec` command.
pub fn cmd_exec(path: &str, args: Option<&Vec<String>>, capture: bool) -> (r: String)
    ensures
        r@ == spec_cmd_exec(
            path@,
            match args {
                Some(a) => Some(a@),
                None => None,
            },
            capture,
        ),
{
    let mut out = String::from_str("{\"execute\":\"guest-exec\",\"arguments\":{");
    if let Some(a) = args {
        out.append("\"arg\":");
        append_json_string_array(&mut out, a);
        out.append(",");
    }
    if capture {
        out.append("\"capture-output\":true,");
    }
    out.append("\"path\":");
    append_json_string(&mut out, path);
    out.append("}}");
    proof {
        assert(out@ =~= spec_cmd_exec(
            path@,
            match args {
                Some(a) => Some(a@),
                None => None,
            },
            capture,
        ));
    }
    out
}

/// Render the `guest-exec-status` command.
pub fn cmd_exec_status(pid: i64) -> (r: String)
    ensures
        r@ == spec_cmd_exec_status(pid as int),
{
    let mut out = String::from_str("{\"execute\":\"guest-exec-status\",\"arguments\":{\"pid\":");
    let num = i64_dec(pid);
    out.append(num.as_str());
    out.append("}}");
    proof {
        assert(out@ =~= spec_cmd_exec_status(pid as int));
    }
    out
}

/// The `return` value a reply wraps, where it has one.
pub open spec fn spec_return_of(v: JsonValue) -> Option<JsonValue> {
    match v {
        JsonValue::Obj(fields) => spec_lookup(fields@, "return"@),
        _ => None,
    }
}

/// A named field of an object value.
pub open spec fn spec_field(v: JsonValue, key: Seq<char>) -> Option<JsonValue> {
    match v {
        JsonValue::Obj(fields) => spec_lookup(fields@, key),
        _ => None,
    }
}

/// Interpret the outcome of one request: a failed executor invocation
/// is a transport error carrying its diagnostic text; an unparsable
/// reply or one without a `return` field is a protocol error; otherwise
/// the wrapped `return` value comes back.
#[verifier::loop_isolation(false)]
pub fn interpret_reply(exec_ok: bool, stderr_text: &str, parsed: Option<JsonValue>) -> (r: Result<
    JsonValue,
    QgaError,
>)
    ensures
        match r {
            Ok(v) => {
                &&& exec_ok
                &&& parsed matches Some(p) && spec_return_of(p) == Some(v)
            },
            Err(e) => match e {
                QgaError::Transport(m) => !exec_ok && m@ == "Command failed: "@ + stderr_text@,
                QgaError::Protocol(_) => exec_ok && (match parsed {
                    Some(p) => spec_return_of(p) is None,
                    None => true,
                }),
            },
        },
        (match parsed {
            Some(p) => exec_ok && spec_return_of(p) is Some,
            None => false,
        }) ==> r is Ok,
{
    if !exec_ok {
        let mut msg = String::from_str("Command failed: ");
        msg.append(stderr_text);
        return Err(QgaError::Transport(msg));
    }
    let ghost parsed0 = parsed;
    match parsed {
        None => Err(QgaError::Protocol(String::from_str("Failed to parse QEMU response"))),
        Some(reply) => match reply {
            JsonValue::Obj(mut fields) => {
                let ghost fields0 = fields;
                proof {
                    assert(parsed0 == Some(JsonValue::Obj(fields0)));
                }
                let key = String::from_str("return");
                let n = fields.len();
                let mut i: usize = 0;
                while i < n
                    invariant
                        i <= n,
                        n == fields@.len(),
                        fields@ == fields0@,
                        key@ == "return"@,
                        spec_lookup(fields0@, "return"@) == spec_lookup_from(
                            fields0@,
                            "return"@,
                            i as int,
                        ),
                    decreases n - i,
                {
                    if fields[i].0 == key {
                        let pair = fields.remove(i);
                        proof {
                            assert(spec_return_of(JsonValue::Obj(fields0)) == Some(pair.1));
                        }
                        return Ok(pair.1);
                    }
                    i = i + 1;
                }
                Err(QgaError::Protocol(String::from_str("Failed to parse QEMU response")))
            },
            _ => Err(QgaError::Protocol(String::from_str("Failed to parse QEMU response"))),
        },
    }
}

/// Read a file handle out of a `guest-file-open` return value: the
/// return value is the handle itself, as an integer.
pub fn handle_from_return(v: &JsonValue) -> (r: Result<i64, QgaError>)
    ensures
        match r {
            Ok(h) => v.spec_as_i64() == Some(h),
            Err(e) => v.spec_as_i64() is None && e is Protocol,
        },
{
    match v.as_i64() {
        Some(h) => Ok(h),
        None => Err(QgaError::Protocol(String::from_str("Failed to get file handle"))),
    }
}

/// A named field read as an unsigned integer.
pub open spec fn spec_field_u64(v: JsonValue, key: Seq<char>) -> Option<u64> {
    match spec_field(v, key) {
        Some(f) => f.spec_as_u64(),
        None => None,
    }
}

/// A named field read as a signed integer.
pub open spec fn spec_field_i64(v: JsonValue, key: Seq<char>) -> Option<i64> {
    match spec_field(v, key) {
        Some(f) => f.spec_as_i64(),
        None => None,
    }
}

/// A named field read as a string.
pub open spec fn spec_field_str(v: JsonValue, key: Seq<char>) -> Option<Seq<char>> {
    match spec_field(v, key) {
        Some(f) => f.spec_as_str(),
        None => None,
    }
}

/// Read the guest-reported byte count out of a `guest-file-write`
/// return value.
pub fn write_count_from_return(v: &JsonValue) -> (r: Result<usize, QgaError>)
    ensures
        match r {
            Ok(c) => spec_field_u64(*v, "count"@) matches Some(u) && c == u as usize,
            Err(e) => spec_field_u64(*v, "count"@) is None && e is Protocol,
        },
{
    let field = match v {
        JsonValue::Obj(fields) => lookup(fields, "count"),
        _ => None,
    };
    match field {
        Some(f) => match f.as_u64() {
            Some(u) => Ok(u as usize),
            None => Err(QgaError::Protocol(String::from_str("Failed to get write count"))),
        },
        None => Err(QgaError::Protocol(String::from_str("Failed to get write count"))),
    }
}

/// Read the process identifier out of a `guest-exec` return value.
pub fn pid_from_return(v: &JsonValue) -> (r: Result<i64, QgaError>)
    ensures
        match r {
            Ok(p) => spec_field_i64(*v, "pid"@) == Some(p),
            Err(e) => spec_field_i64(*v, "pid"@) is None && e is Protocol,
        },
{
    let field = match v {
        JsonValue::Obj(fields) => lookup(fields, "pid"),
        _ => None,
    };
    match field {
        Some(f) => match f.as_i64() {
            Some(p) => Ok(p),
            None => Err(QgaError::Protocol(String::from_str("Failed to get PID"))),
        },
        None => Err(QgaError::Protocol(String::from_str("Failed to get PID"))),
    }
}

/// The end-of-file flag of a `guest-file-read` return value; a missing
/// or ill-typed flag counts as not-at-end.
pub open spec fn spec_eof_flag(v: JsonValue) -> bool {
    match spec_field(v, "eof"@) {
        Some(f) => match f.spec_as_bool() {
            Some(b) => b,
            None => false,
        },
        None => false,
    }
}

/// Read a chunk out of a `guest-file-read` return value: the payload is
/// base64-decoded and the end-of-file flag read; a missing payload
/// field or an invalid encoding is a protocol error.
pub fn read_payload_from_return(v: &JsonValue) -> (r: Result<(Vec<u8>, bool), QgaError>)
    ensures
        match r {
            Ok(p) => {
                &&& spec_field_str(*v, "buf-b64"@) matches Some(s) && b64_decoded(s) == Some(
                    p.0@,
                )
                &&& p.1 == spec_eof_flag(*v)
            },
            Err(e) => {
                &&& e is Protocol
                &&& (spec_field_str(*v, "buf-b64"@) is None || (spec_field_str(*v, "buf-b64"@)
                    matches Some(s) && b64_decoded(s) is None))
            },
        },
{
    let field = match v {
        JsonValue::Obj(fields) => lookup(fields, "buf-b64"),
        _ => None,
    };
    let text = match field {
        Some(f) => match f {
            JsonValue::Str(s) => s,
            _ => {
                return Err(QgaError::Protocol(String::from_str("Failed to get buf-b64")));
            },
        },
        None => {
            return Err(QgaError::Protocol(String::from_str("Failed to get buf-b64")));
        },
    };
    let data = match b64_decode(text.as_str()) {
        Some(d) => d,
        None => {
            return Err(QgaError::Protocol(String::from_str("Failed to decode base64")));
        },
    };
    let eof_field = match v {
        JsonValue::Obj(fields) => lookup(fields, "eof"),
        _ => None,
    };
    let eof = match eof_field {
        Some(f) => match f.as_bool() {
            Some(b) => b,
            None => false,
        },
        None => false,
    };
    Ok((data, eof))
}

/// How an optional integer field reads: absent or null is absent; a
/// present value must be an integer within the 32-bit signed range, or
/// the whole record is rejected.
pub open spec fn spec_opt_i32_field(v: JsonValue, key: Seq<char>) -> Option<Option<i32>> {
    match spec_field(v, key) {
        None => Some(None),
        Some(f) => match f {
            JsonValue::Null => Some(None),
            _ => match f.spec_as_i64() {
                Some(i) => if i32::MIN <= i && i <= i32::MAX {
                    Some(Some(i as i32))
                } else {
                    None
                },
                None => None,
            },
        },
    }
}

/// How an optional string field reads: absent or null is absent; a
/// present value must be a string, or the whole record is rejected.
pub open spec fn spec_opt_str_field(v: JsonValue, key: Seq<char>) -> Option<Option<Seq<char>>> {
    match spec_field(v, key) {
        None => Some(None),
        Some(f) => match f {
            JsonValue::Null => Some(None),
            _ => match f.spec_as_str() {
                Some(s) => Some(Some(s)),
                None => None,
            },
        },
    }
}

/// A named field read as a boolean.
pub open spec fn spec_bool_field(v: JsonValue, key: Seq<char>) -> Option<bool> {
    match spec_field(v, key) {
        Some(f) => f.spec_as_bool(),
        None => None,
    }
}

/// The character view of an optional string.
pub open spec fn view_opt_str(o: Option<String>) -> Option<Seq<char>> {
    match o {
        Some(s) => Some(s@),
        None => None,
    }
}

/// Parse a `guest-exec-status` return value into an exec status record:
/// the exited flag is required, the exit code and the two captured
/// streams are optional; a missing flag or an ill-typed field rejects
/// the record as a protocol error.
pub fn exec_status_from_return(v: &JsonValue) -> (r: Result<ExecStatus, QgaError>)
    ensures
        match r {
            Ok(st) => {
                &&& spec_bool_field(*v, "exited"@) == Some(st.exited)
                &&& spec_opt_i32_field(*v, "exitcode"@) == Some(st.exitcode)
                &&& spec_opt_str_field(*v, "out-data"@) == Some(view_opt_str(st.out_data))
                &&& spec_opt_str_field(*v, "err-data"@) == Some(view_opt_str(st.err_data))
            },
            Err(e) => {
                &&& e is Protocol
                &&& (spec_bool_field(*v, "exited"@) is None || spec_opt_i32_field(
                    *v,
                    "exitcode"@,
                ) is None || spec_opt_str_field(*v, "out-data"@) is None || spec_opt_str_field(
                    *v,
                    "err-data"@,
                ) is None)
            },
        },
{
    let exited_field = match v {
        JsonValue::Obj(fields) => lookup(fields, "exited"),
        _ => None,
    };
    let exited = match exited_field {
        Some(f) => match f.as_bool() {
            Some(b) => b,
            None => {
                return Err(QgaError::Protocol(String::from_str("Failed to parse exec status")));
            },
        },
        None => {
            return Err(QgaError::Protocol(String::from_str("Failed to parse exec status")));
        },
    };
    let code_field = match v {
        JsonValue::Obj(fields) => lookup(fields, "exitcode"),
        _ => None,
    };
    let exitcode: Option<i32> = match code_field {
        None => None,
        Some(f) => match f {
            JsonValue::Null => None,
            _ => match f.as_i64() {
                Some(i) => {
                    if i >= -2147483648i64 && i <= 2147483647i64 {
                        Some(i as i32)
                    } else {
                        return Err(
                            QgaError::Protocol(String::from_str("Failed to parse exec status")),
                        );
                    }
                },
                None => {
                    return Err(
                        QgaError::Protocol(String::from_str("Failed to parse exec status")),
                    );
                },
            },
        },
    };
    let out_field = match v {
        JsonValue::Obj(fields) => lookup(fields, "out-data"),
        _ => None,
    };
    let out_data: Option<String> = match out_field {
        None => None,
        Some(f) => match f {
            JsonValue::Null => None,
            JsonValue::Str(s) => Some(s.clone()),
            _ => {
                return Err(QgaError::Protocol(String::from_str("Failed to parse exec status")));
            },
        },
    };
    let err_field = match v {
        JsonValue::Obj(fields) => lookup(fields, "err-data"),
        _ => None,
    };
    let err_data: Option<String> = match err_field {
        None => None,
        Some(f) => match f {
            JsonValue::Null => None,
            JsonValue::Str(s) => Some(s.clone()),
            _ => {
                return Err(QgaError::Protocol(String::from_str("Failed to parse exec status")));
            },
        },
    };
    Ok(ExecStatus { exited, exitcode, out_data, err_data })
}

} // verus!
