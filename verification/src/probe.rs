//! The HTTP probe: what a GET request's course says about a service.
//!
//! The request itself is sent by the caller. This module decides, from what
//! the caller reports, whether the body is still to be read and which
//! status the probe ends with.

use crate::status::{current_time, Status, Timestamp};
use crate::text::{decimal_text, push_decimal};
use vstd::prelude::*;
use vstd::string::StringExecFns;

verus! {

/// What happened to the request since the last decision.
#[derive(Debug, PartialEq, Eq)]
pub enum HttpEvent {
    /// No response arrived: connection refused, timeout, name resolution
    /// and the like. The text describes the error.
    Failed(String),
    /// A response arrived with this status code.
    Responded(u16),
    /// The body of a successful response was read to its end.
    BodyRead,
    /// Reading the body of a successful response failed. The text
    /// describes the error.
    BodyFailed(String),
}

/// What the caller is to do next.
#[derive(Debug, PartialEq, Eq)]
pub enum HttpAction {
    /// Read the response's body and report `BodyRead` or `BodyFailed`.
    ReadBody,
    /// The probe is over with this status.
    Report(Status),
}

/// A status code of the success class, 200 to 299.
pub open spec fn is_success(code: u16) -> bool {
    200 <= code <= 299
}

/// The verdict that an event settles: whether the service is up, and the
/// reason text. `None` where the body is still to be read.
///
/// Reachability alone decides `up`: a response of the success class counts
/// as up whatever its body holds, and also when the body cannot be read.
pub open spec fn verdict(event: HttpEvent) -> Option<(bool, Seq<char>)> {
    match event {
        HttpEvent::Failed(error) => Some((false, "Get Failed: "@ + error@)),
        HttpEvent::Responded(code) => if is_success(code) {
            None
        } else {
            Some((false, "Get Failed: "@ + decimal_text(code as nat)))
        },
        HttpEvent::BodyRead => Some((true, Seq::<char>::empty())),
        HttpEvent::BodyFailed(error) => Some((true, "Error reading body: "@ + error@)),
    }
}

/// The action that `event` calls for when the clock reads `now`.
pub open spec fn action_at(event: HttpEvent, now: Timestamp, action: HttpAction) -> bool {
    match verdict(event) {
        None => action == HttpAction::ReadBody,
        Some((up, reason)) => {
            &&& action matches HttpAction::Report(status)
            &&& status.up == up
            &&& status.last == now
            &&& status.failure_reason@ == reason
        },
    }
}

/// Whether `code` is of the success class.
pub fn status_is_success(code: u16) -> (r: bool)
    ensures
        r == is_success(code),
{
    200 <= code && code <= 299
}

/// Decides on `event`, stamping a final status with `now`.
pub fn scan_http_at(event: HttpEvent, now: Timestamp) -> (action: HttpAction)
    ensures
        action_at(event, now, action),
{
    match event {
        HttpEvent::Failed(error) => {
            let mut reason = "Get Failed: ".to_owned();
            reason.append(error.as_str());
            HttpAction::Report(Status { up: false, last: now, failure_reason: reason })
        },
        HttpEvent::Responded(code) => {
            if status_is_success(code) {
                HttpAction::ReadBody
            } else {
                let mut reason = "Get Failed: ".to_owned();
                push_decimal(&mut reason, code as u32);
                HttpAction::Report(Status { up: false, last: now, failure_reason: reason })
            }
        },
        HttpEvent::BodyRead => HttpAction::Report(
            Status { up: true, last: now, failure_reason: String::new() },
        ),
        HttpEvent::BodyFailed(error) => {
            let mut reason = "Error reading body: ".to_owned();
            reason.append(error.as_str());
            HttpAction::Report(Status { up: true, last: now, failure_reason: reason })
        },
    }
}

/// Decides on `event`. A final status carries the time of this call.
pub fn scan_http(event: HttpEvent) -> (action: HttpAction)
    ensures
        exists|now: Timestamp| action_at(event, now, action),
{
    let now = current_time();
    let action = scan_http_at(event, now);
    assert(action_at(event, now, action));
    action
}

} // verus!
