//! The lines of the access log.

use crate::http_method::token_of;
use crate::request::{Request, RequestView};
use crate::text::{decimal_of, push_decimal};
use vstd::prelude::*;
use vstd::string::*;

verus! {

/// A line of the log: the time in brackets, a space and the message.
pub open spec fn log_line_text(timestamp: Seq<char>, message: Seq<char>) -> Seq<char> {
    "["@ + timestamp + "] "@ + message
}

/// The entry of one exchange in the access log: the address of the client,
/// the request line in quotes, the status code and the length of the body in
/// bytes, ended by a line feed.
pub open spec fn access_log_text(
    client_addr: Seq<char>,
    req: RequestView,
    status_code: u16,
    size: nat,
) -> Seq<char> {
    client_addr + " - \""@ + token_of(req.method) + " "@ + req.path + " "@ + req.version + "\" "@
        + decimal_of(status_code as nat) + " "@ + decimal_of(size) + "\n"@
}

/// `chrono::Local::now` reads the system clock and the time zone of the
/// machine, and `format` writes that moment as year, month, day, hour, minute
/// and second, so nothing is promised of the text. The call panics where the
/// clock stands before 1970.
#[verifier::external_body]
pub(crate) fn local_timestamp() -> (timestamp: String) {
    chrono::Local::now().format("%Y-%m-%d %H:%M:%S").to_string()
}

/// The log line of a message that is logged now.
pub fn log_line(message: &str) -> (line: String)
    ensures
        exists|timestamp: Seq<char>| line@ == #[trigger] log_line_text(timestamp, message@),
{
    let timestamp = local_timestamp();
    log_line_at(timestamp.as_str(), message)
}

/// The log line of a message that is logged at the given time.
pub fn log_line_at(timestamp: &str, message: &str) -> (line: String)
    ensures
        line@ == log_line_text(timestamp@, message@),
{
    let mut line = "[".to_owned();
    line.append(timestamp);
    line.append("] ");
    line.append(message);
    line
}

/// The entry of one exchange in the access log.
pub fn access_log_entry(client_addr: &str, request: &Request, status_code: u16, size: usize) -> (entry:
    String)
    ensures
        entry@ == access_log_text(client_addr@, request@, status_code, size as nat),
{
    let mut entry = client_addr.to_owned();
    entry.append(" - \"");
    entry.append(request.method.as_str());
    entry.append(" ");
    entry.append(request.path.as_str());
    entry.append(" ");
    entry.append(request.version.as_str());
    entry.append("\" ");
    push_decimal(&mut entry, status_code as usize);
    entry.append(" ");
    push_decimal(&mut entry, size);
    entry.append("\n");
    entry
}

} // verus!
