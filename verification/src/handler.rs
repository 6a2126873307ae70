//! Handling one alert request: decode the body, broadcast its text to the
//! admins, and map the outcome to the HTTP reply. A body that does not
//! decode never reaches the broadcast; the caller only ever sees the fixed
//! confirmation or the generic failure body.

use vstd::prelude::*;
use vstd::string::StringExecFns;

use crate::alert::{parse_alert_bytes, spec_decode_alert};
use crate::delivery::{escape_text, escaped_md, Broadcast};
use crate::json::ParseError;

verus! {

/// An HTTP reply: status code and body.
#[derive(Clone, Debug, PartialEq, Eq)]
pub struct HttpReply {
    pub status: u16,
    pub body: String,
}

/// The fixed confirmation reply for a fully delivered alert.
pub fn alert_done_reply() -> (r: HttpReply)
    ensures
        r.status == 200,
        r.body@ == "Alert done"@,
{
    HttpReply { status: 200, body: String::from_str("Alert done") }
}

/// The generic failure reply: no detail of what went wrong is ever leaked to
/// the HTTP caller.
pub fn server_error_reply() -> (r: HttpReply)
    ensures
        r.status == 500,
        r.body@ == "Something went wrong!"@,
{
    HttpReply { status: 500, body: String::from_str("Something went wrong!") }
}

/// One alert request being handled.
pub enum FireSession {
    /// The body was rejected; no broadcast exists, so no send can happen.
    Rejected { error: ParseError },
    /// The body decoded; the broadcast of its escaped text is under way.
    /// `from` and `theme` are kept only for the success log record.
    Broadcasting { delivery: Broadcast, from: String, theme: String },
}

impl FireSession {
    pub open spec fn wf(self) -> bool {
        match self {
            FireSession::Broadcasting { delivery, .. } => delivery.wf(),
            FireSession::Rejected { .. } => true,
        }
    }

    /// Whether the alert was fully delivered.
    pub open spec fn spec_success(self) -> bool {
        match self {
            FireSession::Broadcasting { delivery, .. } => delivery.is_complete(),
            FireSession::Rejected { .. } => false,
        }
    }

    /// Start handling one alert request body: decode it, and only when it
    /// decodes begin a broadcast of the platform-escaped `text` to `admins`.
    /// A body that does not decode is rejected with no broadcast at all.
    pub fn start(admins: Vec<i64>, body: &Vec<u8>) -> (s: Self)
        ensures
            s.wf(),
            match spec_decode_alert(body@) {
                Ok(t) => s matches FireSession::Broadcasting { delivery, from, theme }
                    && delivery.spec_admins() == admins@ && delivery.spec_text() == escaped_md(
                    t.2,
                ) && delivery.spec_next() == 0 && !delivery.spec_failed() && from@ == t.0
                    && theme@ == t.1,
                Err(e) => s matches FireSession::Rejected { error } && error == e,
            },
    {
        match parse_alert_bytes(body) {
            Ok(a) => {
                let esc = escape_text(a.text.as_str());
                FireSession::Broadcasting {
                    delivery: Broadcast::new(admins, esc),
                    from: a.from,
                    theme: a.theme,
                }
            },
            Err(e) => FireSession::Rejected { error: e },
        }
    }

    /// The reply owed to the HTTP caller in the session's current state: the
    /// confirmation exactly when every admin was notified, the generic
    /// failure otherwise.
    pub fn response(&self) -> (r: HttpReply)
        requires
            self.wf(),
        ensures
            self.spec_success() ==> r.status == 200 && r.body@ == "Alert done"@,
            !self.spec_success() ==> r.status == 500 && r.body@ == "Something went wrong!"@,
    {
        match self {
            FireSession::Broadcasting { delivery, .. } => {
                if delivery.next_recipient().is_none() {
                    // Complete or failed; only a complete broadcast confirms.
                    if delivery.has_failed() {
                        server_error_reply()
                    } else {
                        alert_done_reply()
                    }
                } else {
                    server_error_reply()
                }
            },
            FireSession::Rejected { .. } => server_error_reply(),
        }
    }

    /// The log record emitted when the alert was fully delivered, naming the
    /// alert's origin; nothing is recorded for a rejected body.
    pub fn success_log_line(&self) -> (r: Option<String>)
        ensures
            match self {
                FireSession::Broadcasting { delivery, from, theme } => r matches Some(l) && l@
                    == "Admins were informed. From: "@ + from@ + " / Theme: "@ + theme@,
                FireSession::Rejected { .. } => r is None,
            },
    {
        match self {
            FireSession::Broadcasting { delivery: _, from, theme } => {
                let mut l = String::from_str("Admins were informed. From: ");
                l.append(from.as_str());
                l.append(" / Theme: ");
                l.append(theme.as_str());
                Some(l)
            },
            FireSession::Rejected { .. } => None,
        }
    }
}

} // verus!
