//! The OAuth callback capture: classify one redirect, and resolve a
//! single-use completion slot.
//!
//! A transient local listener waits for exactly one redirect carrying
//! `code` and `state` query parameters, or an `error`. Whichever of the
//! request and the timeout comes first resolves the slot; the other finds
//! it spent and does nothing. The listener itself, its socket and its
//! timer live outside the crate; the classification of the redirect and
//! the at-most-once slot are modeled here.

use vstd::prelude::*;
use vstd::string::StringExecFns;

use crate::error::AppError;

verus! {

/// The result captured from the OAuth callback redirect.
#[derive(Debug, PartialEq, Eq)]
pub struct CallbackResult {
    /// The authorization code.
    pub code: String,
    /// The state token, echoed back by the authorization server.
    pub state: String,
}

/// The text of an optional string, the empty text when absent.
pub open spec fn opt_text(v: Option<String>) -> Seq<char> {
    match v {
        Some(s) => s@,
        None => Seq::empty(),
    }
}

/// Classify one callback redirect. An `error` parameter denies the
/// attempt; both `code` and `state` succeed; anything else is a malformed
/// callback. Each failure is an OAuth failure with an exact message.
pub fn classify_callback(
    code: Option<String>,
    state: Option<String>,
    error: Option<String>,
    error_description: Option<String>,
) -> (r: Result<CallbackResult, AppError>)
    ensures
        match error {
            Some(e) => (r matches Err(f) && f is OAuth && f->OAuth_0@ == "Authorization denied: "@
                + e@ + " — "@ + opt_text(error_description)),
            None => match (code, state) {
                (Option::Some(c), Option::Some(s)) => (r matches Ok(cr) && cr.code@ == c@
                    && cr.state@ == s@),
                _ => (r matches Err(f) && f is OAuth && f->OAuth_0@
                    == "Missing code or state in OAuth callback"@),
            },
        },
{
    match error {
        Some(e) => {
            let mut m = String::from_str("Authorization denied: ");
            m.append(e.as_str());
            m.append(" — ");
            match error_description {
                Some(d) => {
                    m.append(d.as_str());
                },
                None => {},
            }
            Err(AppError::OAuth(m))
        },
        None => {
            match (code, state) {
                (Some(c), Some(s)) => Ok(CallbackResult { code: c, state: s }),
                _ => Err(AppError::OAuth(String::from_str(
                    "Missing code or state in OAuth callback",
                ))),
            }
        },
    }
}

/// The failure a listener resolves with when its lifetime passes with no
/// request received.
pub fn timeout_failure() -> (r: AppError)
    ensures
        r is OAuth,
        r->OAuth_0@ == "OAuth callback timed out — no response received within 2 minutes"@,
{
    AppError::OAuth(String::from_str(
        "OAuth callback timed out — no response received within 2 minutes",
    ))
}

/// A single-resolution completion slot. Produced at most once per listener
/// instance; the first resolution wins and every later one is a no-op.
pub struct CallbackSlot {
    /// Whether the slot has already been resolved.
    pub resolved: bool,
}

impl CallbackSlot {
    /// An unresolved slot.
    pub fn new() -> (r: CallbackSlot)
        ensures
            !r.resolved,
    {
        CallbackSlot { resolved: false }
    }

    /// Resolve the slot with an outcome. The outcome is handed back for
    /// delivery exactly when the slot was not yet resolved; a spent slot
    /// swallows it and stays as it was.
    pub fn resolve(&mut self, outcome: Result<CallbackResult, AppError>) -> (r: Option<
        Result<CallbackResult, AppError>,
    >)
        ensures
            final(self).resolved,
            r is Some <==> !old(self).resolved,
            r matches Some(o) ==> o == outcome,
    {
        if self.resolved {
            None
        } else {
            self.resolved = true;
            Some(outcome)
        }
    }
}

/// A slot delivers at most once: after any resolution the slot is spent,
/// and a spent slot delivers nothing. Whichever of the callback request
/// and the timeout resolves first wins; the other is a no-op, so success
/// and timeout can never both be delivered.
pub proof fn lemma_slot_delivers_at_most_once(s0: CallbackSlot, s1: CallbackSlot, first: bool, second: bool)
    requires
        first == !s0.resolved,
        s1.resolved,
        second == !s1.resolved,
    ensures
        !second,
        !(first && second),
{
}

} // verus!
