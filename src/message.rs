use vstd::prelude::*;
use lettre::message::header::ContentType;
use lettre::message::Mailbox;
use crate::event::{is_valid_address, parse_address};
use crate::render::{ContentKind, Rendered};

verus! {

#[verifier::external_type_specification]
#[verifier::external_body]
pub struct ExMessage(lettre::Message);

#[verifier::external_type_specification]
#[verifier::external_body]
pub struct ExEmailError(lettre::error::Error);

/// Why a rendered mail could not be turned into a message.
#[derive(Clone, Copy, Debug, PartialEq, Eq, Structural)]
pub enum ComposeError {
    /// The configured sender is not a valid email address.
    InvalidSender,
    /// The recipient is not a valid email address.
    InvalidRecipient,
}

/// Relies on lettre's `Message::builder()` with one `from` mailbox, one `to`
/// mailbox, a `ContentType` header, a subject and a body (`body`, which
/// calls `build`): `build` fails only without a From header, with several
/// From mailboxes and no Sender, or with no recipient, so here it succeeds.
/// The message carries the current date, so nothing more is stated of it.
#[verifier::external_body]
fn build_message(
    from: lettre::Address,
    to: lettre::Address,
    subject: String,
    body: String,
    kind: ContentKind,
) -> (r: Result<lettre::Message, lettre::error::Error>)
    ensures
        r is Ok,
{
    let content_type = match kind {
        ContentKind::Html => ContentType::TEXT_HTML,
        ContentKind::PlainText => ContentType::TEXT_PLAIN,
    };
    lettre::Message::builder().from(Mailbox::new(None, from)).to(Mailbox::new(None, to)).header(
        content_type,
    ).subject(subject).body(body)
}

/// Builds the message from `sender` to `recipient` with the rendered subject,
/// body and content type. Fails exactly when the sender, or else the
/// recipient, is not a valid address.
pub fn compose(sender: &String, recipient: &String, rendered: Rendered) -> (r: Result<
    lettre::Message,
    ComposeError,
>)
    ensures
        !is_valid_address(sender@) ==> r == Err::<lettre::Message, ComposeError>(
            ComposeError::InvalidSender,
        ),
        is_valid_address(sender@) && !is_valid_address(recipient@) ==> r == Err::<
            lettre::Message,
            ComposeError,
        >(ComposeError::InvalidRecipient),
        r is Ok <==> is_valid_address(sender@) && is_valid_address(recipient@),
{
    let from = match parse_address(sender) {
        Ok(a) => a,
        Err(_) => return Err(ComposeError::InvalidSender),
    };
    let to = match parse_address(recipient) {
        Ok(a) => a,
        Err(_) => return Err(ComposeError::InvalidRecipient),
    };
    match build_message(from, to, rendered.subject, rendered.body, rendered.content_kind) {
        Ok(m) => Ok(m),
        Err(_) => Err(ComposeError::InvalidRecipient),
    }
}

} // verus!
