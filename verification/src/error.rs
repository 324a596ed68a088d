//! Error taxonomy with fixed numeric exit codes and a machine-readable
//! single-line JSON diagnostic format.

use vstd::prelude::*;
use vstd::string::StringExecFns;

verus! {

/// Closed enumeration of process exit codes. The numeric value of each
/// variant (see [`ExitCode::as_u8`]) becomes the process exit status and
/// the `code` field of the JSON diagnostic line.
#[derive(Debug, Clone, Copy, PartialEq, Eq, Structural)]
pub enum ExitCode {
    Success,
    GeneralError,
    ConnectionError,
    TargetError,
    TimeoutError,
    ProtocolError,
}

/// The fixed numeric code of each exit-code variant.
pub open spec fn exit_code_value(code: ExitCode) -> u8 {
    match code {
        ExitCode::Success => 0,
        ExitCode::GeneralError => 1,
        ExitCode::ConnectionError => 2,
        ExitCode::TargetError => 3,
        ExitCode::TimeoutError => 4,
        ExitCode::ProtocolError => 5,
    }
}

/// The decimal digits of each exit-code variant, as they appear in the
/// JSON diagnostic line. Every code is a single digit.
pub open spec fn exit_code_digits(code: ExitCode) -> Seq<char> {
    match code {
        ExitCode::Success => "0"@,
        ExitCode::GeneralError => "1"@,
        ExitCode::ConnectionError => "2"@,
        ExitCode::TargetError => "3"@,
        ExitCode::TimeoutError => "4"@,
        ExitCode::ProtocolError => "5"@,
    }
}

impl ExitCode {
    /// The numeric value of this exit code.
    pub fn as_u8(&self) -> (r: u8)
        ensures
            r == exit_code_value(*self),
    {
        match self {
            ExitCode::Success => 0,
            ExitCode::GeneralError => 1,
            ExitCode::ConnectionError => 2,
            ExitCode::TargetError => 3,
            ExitCode::TimeoutError => 4,
            ExitCode::ProtocolError => 5,
        }
    }

    /// The decimal rendering of this exit code.
    pub fn digits(&self) -> (r: &'static str)
        ensures
            r@ == exit_code_digits(*self),
    {
        match self {
            ExitCode::Success => "0",
            ExitCode::GeneralError => "1",
            ExitCode::ConnectionError => "2",
            ExitCode::TargetError => "3",
            ExitCode::TimeoutError => "4",
            ExitCode::ProtocolError => "5",
        }
    }
}

/// A terminal failure: a human-readable message plus the exit code that
/// the process reports.
#[derive(Debug)]
pub struct AppError {
    pub message: String,
    pub code: ExitCode,
}

/// Message of the error raised when a cached session fails its liveness
/// probe.
pub open spec fn stale_session_message() -> Seq<char> {
    "Stale session: Chrome is no longer reachable at the saved address"@
}

/// Message of the error raised when discovery finds no running browser;
/// it carries a remediation hint.
pub open spec fn no_chrome_found_message() -> Seq<char> {
    "No Chrome found: start Chrome with remote debugging enabled, or pass an explicit WebSocket URL"@
}

/// Message of the error raised when no page-typed target exists.
pub open spec fn no_page_targets_message() -> Seq<char> {
    "No page targets available"@
}

/// Message of the error raised when a selector matches no target; the
/// selector text is interpolated literally.
pub open spec fn target_not_found_message(selector: Seq<char>) -> Seq<char> {
    "Target not found: "@ + selector
}

/// Message of the placeholder error for unfinished commands.
pub open spec fn not_implemented_message(command: Seq<char>) -> Seq<char> {
    command + ": not yet implemented"@
}

impl AppError {
    /// A cached session failed its liveness probe.
    pub fn stale_session() -> (r: Self)
        ensures
            r.code == ExitCode::ConnectionError,
            r.message@ == stale_session_message(),
    {
        AppError {
            message: String::from_str(
                "Stale session: Chrome is no longer reachable at the saved address",
            ),
            code: ExitCode::ConnectionError,
        }
    }

    /// Discovery found no running debuggable browser.
    pub fn no_chrome_found() -> (r: Self)
        ensures
            r.code == ExitCode::ConnectionError,
            r.message@ == no_chrome_found_message(),
    {
        AppError {
            message: String::from_str(
                "No Chrome found: start Chrome with remote debugging enabled, or pass an explicit WebSocket URL",
            ),
            code: ExitCode::ConnectionError,
        }
    }

    /// The target list holds no page-typed entry to select by default.
    pub fn no_page_targets() -> (r: Self)
        ensures
            r.code == ExitCode::TargetError,
            r.message@ == no_page_targets_message(),
    {
        AppError {
            message: String::from_str("No page targets available"),
            code: ExitCode::TargetError,
        }
    }

    /// The given selector matched no target, neither as an index nor as
    /// an ID.
    pub fn target_not_found(selector: &str) -> (r: Self)
        ensures
            r.code == ExitCode::TargetError,
            r.message@ == target_not_found_message(selector@),
    {
        let mut message = String::from_str("Target not found: ");
        message.append(selector);
        AppError { message, code: ExitCode::TargetError }
    }

    /// Placeholder error for a command that is not available yet.
    pub fn not_implemented(command: &str) -> (r: Self)
        ensures
            r.code == ExitCode::GeneralError,
            r.message@ == not_implemented_message(command@),
    {
        let mut message = command.to_owned();
        message.append(": not yet implemented");
        AppError { message, code: ExitCode::GeneralError }
    }
}

/// What `serde_json` produces for a string: the quoted, escaped JSON
/// string literal for exactly those characters.
pub uninterp spec fn json_string_literal(s: Seq<char>) -> Seq<char>;

/// Relies on `serde_json::to_string` on a string slice: it returns the
/// JSON string literal (quoted and escaped) for the slice's characters
/// and depends on those characters alone. Serializing a string slice
/// cannot fail: only maps with non-string keys and failing `Serialize`
/// implementations can, so the error arm is never taken.
#[verifier::external_body]
fn json_quote(s: &str) -> (r: String)
    ensures
        r@ == json_string_literal(s@),
{
    match serde_json::to_string(s) {
        Ok(quoted) => quoted,
        Err(_) => String::new(),
    }
}

/// The single diagnostic line for a message and a code: the message as
/// a JSON string and the numeric code, rendered without spaces as the
/// serializer does.
pub open spec fn error_json_line(msg: Seq<char>, code: ExitCode) -> Seq<char> {
    "{\"error\":"@ + json_string_literal(msg) + ",\"code\":"@ + exit_code_digits(code) + "}"@
}

impl AppError {
    /// The machine-readable diagnostic for this error: exactly one JSON
    /// line holding the message and the numeric code. The caller emits
    /// it to the error stream and exits with the code.
    pub fn to_json_line(&self) -> (r: String)
        ensures
            r@ == error_json_line(self.message@, self.code),
    {
        let mut line = String::from_str("{\"error\":");
        let quoted = json_quote(self.message.as_str());
        line.append(quoted.as_str());
        line.append(",\"code\":");
        line.append(self.code.digits());
        line.append("}");
        proof {
            assert(line@ =~= error_json_line(self.message@, self.code));
        }
        line
    }
}

/// Law: the code field of the diagnostic line is exactly the decimal
/// digit of the numeric exit status the process reports.
pub proof fn lemma_exit_code_digits_match_value(code: ExitCode)
    ensures
        exit_code_digits(code).len() == 1,
        exit_code_digits(code)[0] as int == '0' as int + exit_code_value(code),
{
    reveal_strlit("0");
    reveal_strlit("1");
    reveal_strlit("2");
    reveal_strlit("3");
    reveal_strlit("4");
    reveal_strlit("5");
}

} // verus!
