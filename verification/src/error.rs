//! The failure taxonomy of the library.
//!
//! Configuration defects (a chord segment that names no key, a pattern that
//! does not compile, a locale string that is not a number) are never retried.
//! An incomplete injection is fatal to the switch that attempted it.
//! A verification timeout is the controller's expected failure mode: the
//! whole poll/resend budget was spent without observing the target token.

use vstd::prelude::*;
use crate::locale::dec_rep;

verus! {

/// Every failure a library operation can report.
#[derive(Debug, PartialEq, Eq)]
pub enum SwitchError {
    /// A chord segment did not resolve to a supported key; the segment is
    /// carried verbatim, as it stood in the chord string.
    InvalidKey { segment: String },
    /// The extraction pattern did not compile (an empty alternative).
    BadPattern,
    /// The probe could not locate the named container element.
    ContainerNotFound,
    /// The container was found but no indicator label yielded a token.
    StatusNotFound,
    /// The injection was accepted only in part: `sent` of `submitted`
    /// events entered the input queue.
    InjectionIncomplete { sent: usize, submitted: usize },
    /// The poll and resend budget ran out without the probe ever returning
    /// the target token.
    VerificationTimeout { target: String },
    /// The probe failed outright on the initial idempotence check.
    ProbeFailed,
    /// A locale identifier string was not a decimal number in range.
    InvalidLocale { text: String },
    /// No probe or direct input-method interface exists on this platform.
    Unsupported,
}

impl SwitchError {
    /// The diagnostic each error is reported with: one line per failure
    /// kind, carrying the context the failure was sealed with.
    pub open spec fn message_of(&self) -> Seq<char> {
        match self {
            SwitchError::InvalidKey { segment } => "Invalid key: "@ + segment@,
            SwitchError::BadPattern => "Pattern does not compile: empty alternative"@,
            SwitchError::ContainerNotFound => "Status container not found"@,
            SwitchError::StatusNotFound => "No indicator label matched the pattern"@,
            SwitchError::InjectionIncomplete { sent, submitted } => "Failed to send all inputs: sent "@
                + dec_rep(*sent as nat) + "/"@ + dec_rep(*submitted as nat),
            SwitchError::VerificationTimeout { target } => "Verification failed after sending input: target "@
                + target@,
            SwitchError::ProbeFailed => "Failed to read the input indicator"@,
            SwitchError::InvalidLocale { text } => "Invalid locale ID: "@ + text@,
            SwitchError::Unsupported => "Direct input method control is not supported on this platform; use a system tool such as ibus, fcitx, or xkb-switch"@,
        }
    }

    /// Builds the diagnostic text of this error.
    pub fn describe(&self) -> (s: String)
        ensures
            s@ == self.message_of(),
    {
        match self {
            SwitchError::InvalidKey { segment } => {
                let mut s = "Invalid key: ".to_owned();
                s.append(segment.as_str());
                s
            },
            SwitchError::BadPattern => "Pattern does not compile: empty alternative".to_owned(),
            SwitchError::ContainerNotFound => "Status container not found".to_owned(),
            SwitchError::StatusNotFound => "No indicator label matched the pattern".to_owned(),
            SwitchError::InjectionIncomplete { sent, submitted } => {
                let mut s = "Failed to send all inputs: sent ".to_owned();
                let sent_text = crate::locale::format_u64(*sent as u64);
                s.append(sent_text.as_str());
                s.append("/");
                let submitted_text = crate::locale::format_u64(*submitted as u64);
                s.append(submitted_text.as_str());
                s
            },
            SwitchError::VerificationTimeout { target } => {
                let mut s = "Verification failed after sending input: target ".to_owned();
                s.append(target.as_str());
                s
            },
            SwitchError::ProbeFailed => "Failed to read the input indicator".to_owned(),
            SwitchError::InvalidLocale { text } => {
                let mut s = "Invalid locale ID: ".to_owned();
                s.append(text.as_str());
                s
            },
            SwitchError::Unsupported => "Direct input method control is not supported on this platform; use a system tool such as ibus, fcitx, or xkb-switch".to_owned(),
        }
    }
}

} // verus!
