use vstd::prelude::*;

verus! {

/// How one send attempt failed, as reported by the transport.
#[derive(Clone, Copy, Debug, PartialEq, Eq, Structural)]
pub enum SendFailure {
    /// The connection could not be made or broke during the exchange.
    Network,
    /// The attempt took longer than the per-send timeout.
    Timeout,
    /// The relay answered with this SMTP reply code.
    Reply { code: u16 },
    /// The relay refused the credentials.
    AuthRejected,
    /// The relay refused the recipient address.
    RecipientRejected,
}

/// Whether a failure is presumed to resolve itself with time.
#[derive(Clone, Copy, Debug, PartialEq, Eq, Structural)]
pub enum FailureClass {
    Transient,
    Permanent,
}

/// What became of one send attempt.
#[derive(Clone, Debug, PartialEq, Eq)]
pub enum DeliveryOutcome {
    Sent,
    PermanentFailure { reason: String },
    TransientFailure { reason: String },
}

/// A 4xx reply code: the relay asks to try again later.
pub open spec fn is_transient_code(code: u16) -> bool {
    400 <= code <= 499
}

/// Network trouble, timeouts and 4xx replies are transient; everything else
/// (5xx replies, refused credentials, refused recipient) is permanent.
pub open spec fn class_of(f: SendFailure) -> FailureClass {
    match f {
        SendFailure::Network => FailureClass::Transient,
        SendFailure::Timeout => FailureClass::Transient,
        SendFailure::Reply { code } => if is_transient_code(code) {
            FailureClass::Transient
        } else {
            FailureClass::Permanent
        },
        SendFailure::AuthRejected => FailureClass::Permanent,
        SendFailure::RecipientRejected => FailureClass::Permanent,
    }
}

/// Classifies a transport failure as transient or permanent.
pub fn classify(f: SendFailure) -> (r: FailureClass)
    ensures
        r == class_of(f),
{
    match f {
        SendFailure::Network => FailureClass::Transient,
        SendFailure::Timeout => FailureClass::Transient,
        SendFailure::Reply { code } => if 400 <= code && code <= 499 {
            FailureClass::Transient
        } else {
            FailureClass::Permanent
        },
        SendFailure::AuthRejected => FailureClass::Permanent,
        SendFailure::RecipientRejected => FailureClass::Permanent,
    }
}

/// Turns a transport failure and its description into a delivery outcome.
pub fn outcome_of_failure(f: SendFailure, reason: String) -> (r: DeliveryOutcome)
    ensures
        class_of(f) == FailureClass::Transient ==> r == (DeliveryOutcome::TransientFailure {
            reason,
        }),
        class_of(f) == FailureClass::Permanent ==> r == (DeliveryOutcome::PermanentFailure {
            reason,
        }),
{
    match classify(f) {
        FailureClass::Transient => DeliveryOutcome::TransientFailure { reason },
        FailureClass::Permanent => DeliveryOutcome::PermanentFailure { reason },
    }
}

} // verus!
