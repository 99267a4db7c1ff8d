//! Running an outside command under limits: the command, what it produced, and
//! the errors its outcomes become. Starting the process is the caller's part.

use vstd::prelude::*;
use crate::converters::traits::ConversionError;
use crate::text::{decimal, push_str_chars, signed_decimal, signed_decimal_string, string_from_chars, to_owned_string, trim};

verus! {

#[derive(Debug)]
pub struct ExternalCommand {
    pub binary: String,
    pub args: Vec<String>,
    pub working_dir: String,
    pub timeout_secs: u64,
    pub env_clear: bool,
    pub env: Vec<(String, String)>,
    pub max_stdout_bytes: usize,
    pub max_stderr_bytes: usize,
}

#[derive(Debug)]
pub struct ExternalCommandOutput {
    pub status_code: Option<i32>,
    pub stdout: Vec<u8>,
    pub stderr: Vec<u8>,
    pub duration_ms: u64,
    pub timed_out: bool,
}

/// A command is only run with a time limit.
pub fn check_timeout(cmd: &ExternalCommand) -> (r: Result<(), ConversionError>)
    ensures
        r.is_ok() == (cmd.timeout_secs > 0),
        r matches Err(e) ==> e.code@ == "EXTERNAL_COMMAND_TIMEOUT"@
            && e.message@ == "Не задан timeout для внешней команды."@,
{
    if cmd.timeout_secs == 0 {
        return Err(
            ConversionError::new(
                "EXTERNAL_COMMAND_TIMEOUT",
                to_owned_string("Не задан timeout для внешней команды."),
            ),
        );
    }
    Ok(())
}

/// The error when the command ran past its time limit.
pub fn timeout_error(timeout_secs: u64) -> (e: ConversionError)
    ensures
        e.code@ == "EXTERNAL_COMMAND_TIMEOUT"@,
        e.message@ == "Превышено время ожидания выполнения внешней команды."@,
        e.recoverable,
        e.metadata.wf(),
        e.metadata@ == map!["timeout_sec"@ => decimal(timeout_secs as nat)],
{
    let e = ConversionError::new(
        "EXTERNAL_COMMAND_TIMEOUT",
        to_owned_string("Превышено время ожидания выполнения внешней команды."),
    ).with_meta("timeout_sec", crate::text::decimal_string(timeout_secs));
    assert(e.metadata@ =~= map!["timeout_sec"@ => decimal(timeout_secs as nat)]);
    e
}

/// The error when the command's binary does not exist.
pub fn binary_not_found_error(binary: &str) -> (e: ConversionError)
    ensures
        e.code@ == "EXTERNAL_BINARY_NOT_FOUND"@,
        e.message@ == "Внешний инструмент не найден: "@ + binary@,
        e.metadata.wf(),
        e.metadata@ == map!["binary"@ => binary@],
{
    let mut m: Vec<char> = Vec::new();
    push_str_chars(&mut m, "Внешний инструмент не найден: ");
    push_str_chars(&mut m, binary);
    let e = ConversionError::new("EXTERNAL_BINARY_NOT_FOUND", string_from_chars(m.as_slice())).with_meta(
        "binary",
        to_owned_string(binary),
    );
    assert(e.metadata@ =~= map!["binary"@ => binary@]);
    e
}

/// `{:?}` of an optional exit code.
pub open spec fn debug_code(code: Option<i32>) -> Seq<char> {
    match code {
        Some(c) => "Some("@ + signed_decimal(c as int) + ")"@,
        None => "None"@,
    }
}

/// The error when the command exited unsuccessfully; `stderr` is what it wrote
/// to its error stream.
pub fn exit_failure_error(status_code: Option<i32>, stderr: &str) -> (e: ConversionError)
    ensures
        e.code@ == "EXTERNAL_COMMAND_FAILED"@,
        e.message@ == "Внешняя команда завершилась с ошибкой (код "@ + debug_code(status_code) + "): "@
            + trim(stderr@),
        e.metadata.wf(),
        e.metadata@ == map![
            "status_code"@ => signed_decimal(match status_code {
                Some(c) => c as int,
                None => -1,
            }),
        ],
{
    let mut m: Vec<char> = Vec::new();
    push_str_chars(&mut m, "Внешняя команда завершилась с ошибкой (код ");
    let code_value: i64 = match status_code {
        Some(c) => {
            push_str_chars(&mut m, "Some(");
            let d = signed_decimal_string(c as i64);
            push_str_chars(&mut m, d.as_str());
            push_str_chars(&mut m, ")");
            c as i64
        },
        None => {
            push_str_chars(&mut m, "None");
            -1
        },
    };
    push_str_chars(&mut m, "): ");
    let t = crate::text::str_trim(stderr);
    push_str_chars(&mut m, t.as_str());
    proof {
        assert(m@ =~= "Внешняя команда завершилась с ошибкой (код "@ + debug_code(status_code)
            + "): "@ + trim(stderr@));
    }
    let e = ConversionError::new("EXTERNAL_COMMAND_FAILED", string_from_chars(m.as_slice())).with_meta(
        "status_code",
        signed_decimal_string(code_value),
    );
    assert(e.metadata@ =~= map![
        "status_code"@ => signed_decimal(match status_code {
            Some(c) => c as int,
            None => -1,
        }),
    ]);
    e
}


/// A stream of a command's output.
#[derive(Clone, Copy, Debug, PartialEq, Eq, Structural)]
pub enum OutputStream {
    Stdout,
    Stderr,
}

/// The first stream, stdout before stderr, that holds more bytes than the command
/// allows; none where both fit.
pub fn oversized_output(cmd: &ExternalCommand, stdout_len: usize, stderr_len: usize) -> (r: Option<OutputStream>)
    ensures
        r == (if stdout_len > cmd.max_stdout_bytes {
            Some(OutputStream::Stdout)
        } else if stderr_len > cmd.max_stderr_bytes {
            Some(OutputStream::Stderr)
        } else {
            None
        }),
{
    if stdout_len > cmd.max_stdout_bytes {
        Some(OutputStream::Stdout)
    } else if stderr_len > cmd.max_stderr_bytes {
        Some(OutputStream::Stderr)
    } else {
        None
    }
}

/// The error when a stream passed its limit, the limit given in megabytes as
/// `limit_mb` (written with two decimals).
pub fn output_too_large_error(stream: OutputStream, limit_mb: &str) -> (e: ConversionError)
    ensures
        e.code@ == "EXTERNAL_OUTPUT_TOO_LARGE"@,
        e.message@ == (match stream {
            OutputStream::Stdout => "Stdout"@,
            OutputStream::Stderr => "Stderr"@,
        }) + " внешней команды превысил лимит "@ + limit_mb@ + " MB и был обрезан."@,
        e.recoverable,
        e.metadata.wf(),
        e.metadata@ == Map::<Seq<char>, Seq<char>>::empty(),
{
    let mut m: Vec<char> = Vec::new();
    match stream {
        OutputStream::Stdout => push_str_chars(&mut m, "Stdout"),
        OutputStream::Stderr => push_str_chars(&mut m, "Stderr"),
    }
    push_str_chars(&mut m, " внешней команды превысил лимит ");
    push_str_chars(&mut m, limit_mb);
    push_str_chars(&mut m, " MB и был обрезан.");
    ConversionError::new("EXTERNAL_OUTPUT_TOO_LARGE", string_from_chars(m.as_slice()))
}

} // verus!
