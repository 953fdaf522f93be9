//! `window/logMessage` notifications sent by the LSP proxy, and the framing
//! of LSP messages.

use vstd::prelude::*;
use crate::text::push_char;
use vstd::utf8::encode_utf8;

verus! {

/// Message type of an error.
pub const MESSAGE_ERROR: u8 = 1;

/// Message type of a warning.
pub const MESSAGE_WARNING: u8 = 2;

/// Message type of an information.
pub const MESSAGE_INFO: u8 = 3;

/// Message type of a log line.
pub const MESSAGE_LOG: u8 = 4;

/// Message type of a debug line.
pub const MESSAGE_DEBUG: u8 = 5;

/// The parameters of a log message: its type and text.
pub struct LogMessageParams {
    pub message_type: u8,
    pub message: String,
}

/// A `window/logMessage` notification.
pub struct LogMessageNotification {
    pub jsonrpc: String,
    pub method: String,
    pub params: LogMessageParams,
}

/// The notification carries `message` at `level` as a JSON-RPC 2.0
/// `window/logMessage`.
pub open spec fn is_log_message(n: LogMessageNotification, level: u8, message: Seq<char>) -> bool {
    &&& n.jsonrpc@ == "2.0"@
    &&& n.method@ == "window/logMessage"@
    &&& n.params.message_type == level
    &&& n.params.message@ == message
}

/// The notification that logs `message` at `level`.
pub fn log_message_notification(level: u8, message: &str) -> (r: LogMessageNotification)
    ensures
        is_log_message(r, level, message@),
{
    LogMessageNotification {
        jsonrpc: String::from_str("2.0"),
        method: String::from_str("window/logMessage"),
        params: LogMessageParams { message_type: level, message: String::from_str(message) },
    }
}

/// The notification that logs an error.
pub fn error(message: &str) -> (r: LogMessageNotification)
    ensures
        is_log_message(r, MESSAGE_ERROR, message@),
{
    log_message_notification(MESSAGE_ERROR, message)
}

/// The notification that logs a warning.
pub fn warn(message: &str) -> (r: LogMessageNotification)
    ensures
        is_log_message(r, MESSAGE_WARNING, message@),
{
    log_message_notification(MESSAGE_WARNING, message)
}

/// The notification that logs an information.
pub fn info(message: &str) -> (r: LogMessageNotification)
    ensures
        is_log_message(r, MESSAGE_INFO, message@),
{
    log_message_notification(MESSAGE_INFO, message)
}

/// The notification that logs a line.
pub fn log(message: &str) -> (r: LogMessageNotification)
    ensures
        is_log_message(r, MESSAGE_LOG, message@),
{
    log_message_notification(MESSAGE_LOG, message)
}

/// The notification that logs a debug line.
pub fn debug(message: &str) -> (r: LogMessageNotification)
    ensures
        is_log_message(r, MESSAGE_DEBUG, message@),
{
    log_message_notification(MESSAGE_DEBUG, message)
}

/// The decimal digit of a value below 10.
pub open spec fn digit(n: nat) -> char {
    (48 + n) as char
}

/// The decimal notation of a number.
pub open spec fn decimal(n: nat) -> Seq<char>
    decreases n,
{
    if n < 10 {
        seq![digit(n)]
    } else {
        decimal(n / 10) + seq![digit(n % 10)]
    }
}

/// The decimal notation of a number.
pub fn decimal_string(n: usize) -> (r: String)
    ensures
        r@ == decimal(n as nat),
    decreases n,
{
    if n < 10 {
        let mut s = String::new();
        push_char(&mut s, ((n as u8) + 48) as char);
        assert(s@ =~= seq![digit(n as nat)]);
        s
    } else {
        let mut s = decimal_string(n / 10);
        push_char(&mut s, (((n % 10) as u8) + 48) as char);
        s
    }
}

/// An LSP message: a `Content-Length` header with the body's byte count,
/// a blank line, then the body.
pub open spec fn spec_lsp_frame(body: Seq<char>) -> Seq<char> {
    "Content-Length: "@ + decimal(encode_utf8(body).len()) + "\r\n\r\n"@ + body
}

/// Frames a JSON body as an LSP message.
pub fn lsp_frame(body: &str) -> (r: String)
    requires
        encode_utf8(body@).len() <= usize::MAX,
    ensures
        r@ == spec_lsp_frame(body@),
{
    let n = body.len();
    String::from_str("Content-Length: ").concat(decimal_string(n).as_str()).concat("\r\n\r\n").concat(
        body,
    )
}

} // verus!
