//! Log-line formatting and the timestamp it carries.
//!
//! A log line is `LEVEL (timestamp): message` — one physical line per
//! call, the timestamp in RFC3339 with seconds precision.  The file the
//! lines go to, and the serialization of concurrent writers, belong to
//! the runtime; what a line looks like is decided here.

use vstd::prelude::*;
use vstd::string::StringExecFns;

verus! {

/// The severity of one log line.
#[derive(Clone, Copy, PartialEq, Eq, Structural, Debug)]
pub enum LogLevel {
    Debug,
    Info,
    Warning,
}

/// The text a level prints as, up to the opening parenthesis of the
/// timestamp.
pub open spec fn level_prefix(level: LogLevel) -> Seq<char> {
    match level {
        LogLevel::Debug => "DEBUG ("@,
        LogLevel::Info => "INFO ("@,
        LogLevel::Warning => "WARNING ("@,
    }
}

/// One complete log line: the level, the timestamp in parentheses, and
/// the message.
pub open spec fn log_line_spec(level: LogLevel, timestamp: Seq<char>, message: Seq<char>)
    -> Seq<char> {
    level_prefix(level) + timestamp + "): "@ + message
}

/// Formats one log line.
pub fn log_line(level: LogLevel, timestamp: &str, message: &str) -> (r: String)
    ensures
        r@ == log_line_spec(level, timestamp@, message@),
{
    let mut r = match level {
        LogLevel::Debug => String::from_str("DEBUG ("),
        LogLevel::Info => String::from_str("INFO ("),
        LogLevel::Warning => String::from_str("WARNING ("),
    };
    r.append(timestamp);
    r.append("): ");
    r.append(message);
    proof {
        assert(r@ =~= log_line_spec(level, timestamp@, message@));
    }
    r
}

/// Law: a log line is one physical line — it holds no line break when
/// its timestamp and its message hold none, so one call writes one line
/// and concurrent callers, serialized by the runtime's lock, never
/// interleave partial lines.
pub proof fn lemma_log_line_single_line(level: LogLevel, timestamp: Seq<char>, message: Seq<char>)
    requires
        forall|j: int| 0 <= j < timestamp.len() ==> timestamp[j] != '\n',
        forall|j: int| 0 <= j < message.len() ==> message[j] != '\n',
    ensures
        forall|j: int| 0 <= j < log_line_spec(level, timestamp, message).len()
            ==> log_line_spec(level, timestamp, message)[j] != '\n',
{
    reveal_strlit("DEBUG (");
    reveal_strlit("INFO (");
    reveal_strlit("WARNING (");
    reveal_strlit("): ");
    let prefix = level_prefix(level);
    assert(forall|j: int| 0 <= j < prefix.len() ==> prefix[j] != '\n') by {
        match level {
            LogLevel::Debug => {
                assert(prefix[0] == 'D' && prefix[1] == 'E' && prefix[2] == 'B'
                    && prefix[3] == 'U' && prefix[4] == 'G' && prefix[5] == ' '
                    && prefix[6] == '(');
            },
            LogLevel::Info => {
                assert(prefix[0] == 'I' && prefix[1] == 'N' && prefix[2] == 'F'
                    && prefix[3] == 'O' && prefix[4] == ' ' && prefix[5] == '(');
            },
            LogLevel::Warning => {
                assert(prefix[0] == 'W' && prefix[1] == 'A' && prefix[2] == 'R'
                    && prefix[3] == 'N' && prefix[4] == 'I' && prefix[5] == 'N'
                    && prefix[6] == 'G' && prefix[7] == ' ' && prefix[8] == '(');
            },
        }
    }
    assert(forall|j: int| 0 <= j < "): "@.len() ==> "): "@[j] != '\n') by {
        assert("): "@[0] == ')' && "): "@[1] == ':' && "): "@[2] == ' ');
    }
}

/// The RFC3339 seconds-precision rendering of a time, given as whole
/// seconds since the Unix epoch.
pub uninterp spec fn rfc3339_of(seconds: u64) -> Seq<char>;

/// The first second of the year 10000, the earliest time the timestamp
/// formatter refuses.
pub const RFC3339_LIMIT: u64 = 253_402_300_800;

/// Relies on humantime::format_rfc3339_seconds: the rendering depends on
/// the seconds value alone, is refused from the year 10000 on, and is
/// always 20 characters — `YYYY-MM-DDThh:mm:ssZ`, digits and punctuation
/// only, in particular never a line break.
#[verifier::external_body]
fn format_rfc3339_seconds(seconds: u64) -> (r: String)
    requires
        seconds < RFC3339_LIMIT,
    ensures
        r@ == rfc3339_of(seconds),
        r@.len() == 20,
        forall|j: int| 0 <= j < r@.len() ==> r@[j] != '\n',
{
    let t = std::time::UNIX_EPOCH + std::time::Duration::from_secs(seconds);
    humantime::format_rfc3339_seconds(t).to_string()
}

/// Relies on std::time::SystemTime::now: reads the system clock and
/// counts whole seconds since the Unix epoch, zero for a clock set
/// before the epoch.  Nothing is promised of the value: it is the time.
#[verifier::external_body]
fn now_seconds() -> (r: u64) {
    match std::time::SystemTime::now().duration_since(std::time::UNIX_EPOCH) {
        Ok(d) => d.as_secs(),
        Err(_) => 0,
    }
}

/// Renders a time, given as whole seconds since the Unix epoch, as an
/// RFC3339 seconds-precision timestamp: exactly the formatter's rendering
/// for every second up to the year 10000, and the empty string beyond
/// that, where the formatter refuses.  Either way the result holds no
/// line break.
pub fn render_timestamp(seconds: u64) -> (r: String)
    ensures
        seconds < RFC3339_LIMIT ==> r@ == rfc3339_of(seconds),
        seconds >= RFC3339_LIMIT ==> r@.len() == 0,
        r@.len() == 20 || r@.len() == 0,
        forall|j: int| 0 <= j < r@.len() ==> r@[j] != '\n',
{
    if seconds < RFC3339_LIMIT {
        format_rfc3339_seconds(seconds)
    } else {
        String::new()
    }
}

/// The current time as an RFC3339 seconds-precision timestamp: the
/// rendering of the clock's whole seconds.  Whatever the clock says, the
/// result holds no line break; a clock beyond what the formatter accepts
/// yields the empty timestamp.
pub fn current_timestamp() -> (r: String)
    ensures
        forall|j: int| 0 <= j < r@.len() ==> r@[j] != '\n',
        r@.len() == 20 || r@.len() == 0,
{
    render_timestamp(now_seconds())
}

} // verus!
