use vstd::prelude::*;

verus! {

/// An event as decoded from the broker, before validation: any field may be
/// absent.
#[derive(Clone, Debug, PartialEq, Eq)]
pub struct RawEvent {
    pub event_id: Option<String>,
    pub recipient_address: Option<String>,
    pub template_id: Option<String>,
    pub template_data: Option<Vec<(String, String)>>,
    pub enqueued_at: Option<u64>,
}

/// A validated request for one email. `event_id` is stable across
/// redeliveries of the same logical event.
#[derive(Clone, Debug, PartialEq, Eq)]
pub struct MailEvent {
    pub event_id: String,
    pub recipient_address: String,
    pub template_id: String,
    /// Placeholder values, by key.
    pub template_data: Vec<(String, String)>,
    /// When the event was enqueued (0 if the broker gave no time).
    pub enqueued_at: u64,
}

/// Why an event was refused before it reached the dispatcher.
#[derive(Clone, Copy, Debug, PartialEq, Eq, Structural)]
pub enum MalformedReason {
    /// The payload could not be decoded at all.
    Undecodable,
    MissingEventId,
    MissingRecipient,
    /// The recipient is not a valid email address.
    InvalidRecipient,
    MissingTemplateId,
    MissingTemplateData,
}

/// What the consumer does with a message from the broker.
#[derive(Clone, Debug, PartialEq, Eq)]
pub enum Intake {
    /// Hand the event to the dispatcher.
    Dispatch { event: MailEvent },
    /// Send it to the dead-letter sink and acknowledge it at once.
    DeadLetter { reason: MalformedReason },
}

/// Whether lettre accepts `s` as an email address.
pub uninterp spec fn is_valid_address(s: Seq<char>) -> bool;

#[verifier::external_type_specification]
#[verifier::external_body]
pub struct ExAddress(lettre::Address);

#[verifier::external_type_specification]
#[verifier::external_body]
pub struct ExAddressError(lettre::address::AddressError);

/// Relies on lettre's `FromStr` for `lettre::Address`: the text parses as an
/// address or is refused. Its parser splits at the last `@` and refuses text
/// without one.
#[verifier::external_body]
pub(crate) fn parse_address(s: &String) -> (r: Result<lettre::Address, lettre::address::AddressError>)
    ensures
        r is Ok == is_valid_address(s@),
        !s@.contains('@') ==> r is Err,
{
    s.parse::<lettre::Address>()
}

/// Whether `s` is a valid email address.
pub fn address_is_valid(s: &String) -> (r: bool)
    ensures
        r == is_valid_address(s@),
        !s@.contains('@') ==> !r,
{
    parse_address(s).is_ok()
}

pub open spec fn present(s: Option<String>) -> bool {
    s is Some && s->Some_0@.len() > 0
}

/// The outcome of validating `raw`, given whether its recipient, if present,
/// is a valid address. Checks run in field order; the first failure counts.
pub open spec fn validation(raw: RawEvent, recipient_ok: bool) -> Result<MailEvent, MalformedReason> {
    if !present(raw.event_id) {
        Err(MalformedReason::MissingEventId)
    } else if !present(raw.recipient_address) {
        Err(MalformedReason::MissingRecipient)
    } else if !recipient_ok {
        Err(MalformedReason::InvalidRecipient)
    } else if !present(raw.template_id) {
        Err(MalformedReason::MissingTemplateId)
    } else if raw.template_data is None {
        Err(MalformedReason::MissingTemplateData)
    } else {
        Ok(
            MailEvent {
                event_id: raw.event_id->Some_0,
                recipient_address: raw.recipient_address->Some_0,
                template_id: raw.template_id->Some_0,
                template_data: raw.template_data->Some_0,
                enqueued_at: match raw.enqueued_at {
                    Some(t) => t,
                    None => 0,
                },
            },
        )
    }
}

fn is_present(s: &Option<String>) -> (r: bool)
    ensures
        r == present(*s),
{
    match s {
        Some(v) => !v.as_str().is_empty(),
        None => false,
    }
}

/// Validates `raw` where `recipient_ok` says whether its recipient parses as
/// an address.
pub fn validate_fields(raw: RawEvent, recipient_ok: bool) -> (r: Result<MailEvent, MalformedReason>)
    ensures
        r == validation(raw, recipient_ok),
{
    if !is_present(&raw.event_id) {
        return Err(MalformedReason::MissingEventId);
    }
    if !is_present(&raw.recipient_address) {
        return Err(MalformedReason::MissingRecipient);
    }
    if !recipient_ok {
        return Err(MalformedReason::InvalidRecipient);
    }
    if !is_present(&raw.template_id) {
        return Err(MalformedReason::MissingTemplateId);
    }
    match (raw.event_id, raw.recipient_address, raw.template_id, raw.template_data) {
        (Some(event_id), Some(recipient_address), Some(template_id), Some(template_data)) => {
            let enqueued_at: u64 = match raw.enqueued_at {
                Some(t) => t,
                None => 0,
            };
            Ok(MailEvent { event_id, recipient_address, template_id, template_data, enqueued_at })
        },
        _ => Err(MalformedReason::MissingTemplateData),
    }
}

/// Validates `raw`, checking its recipient with lettre's address parser.
pub fn validate(raw: RawEvent) -> (r: Result<MailEvent, MalformedReason>)
    ensures
        r == validation(
            raw,
            present(raw.recipient_address) && is_valid_address(raw.recipient_address->Some_0@),
        ),
{
    let recipient_ok = match &raw.recipient_address {
        Some(a) => !a.as_str().is_empty() && address_is_valid(a),
        None => false,
    };
    validate_fields(raw, recipient_ok)
}

/// The consumer's first decision on a message: an undecodable or invalid one
/// is dead-lettered at once, so that it cannot block the partition; a valid
/// one goes to the dispatcher.
pub fn intake(decoded: Option<RawEvent>) -> (r: Intake)
    ensures
        decoded is None ==> r == (Intake::DeadLetter { reason: MalformedReason::Undecodable }),
        decoded is Some ==> match validation(
            decoded->Some_0,
            present(decoded->Some_0.recipient_address) && is_valid_address(
                decoded->Some_0.recipient_address->Some_0@,
            ),
        ) {
            Ok(event) => r == (Intake::Dispatch { event }),
            Err(reason) => r == (Intake::DeadLetter { reason }),
        },
{
    match decoded {
        None => Intake::DeadLetter { reason: MalformedReason::Undecodable },
        Some(raw) => match validate(raw) {
            Ok(event) => Intake::Dispatch { event },
            Err(reason) => Intake::DeadLetter { reason },
        },
    }
}

} // verus!
