use vstd::prelude::*;

use mail_builder::MessageBuilder;

verus! {

/// mail_builder's message builder.  The builder is opaque here: the
/// wrappers below assemble it field by field, and nothing is assumed of
/// the serialized bytes (with attachments they contain generated MIME
/// boundaries, which differ from run to run).
#[verifier::external_type_specification]
#[verifier::external_body]
pub struct ExMessageBuilder<'x>(MessageBuilder<'x>);

/// Relies on mail_builder's `MessageBuilder::new`: a builder with no
/// headers and no body parts.
#[verifier::external_body]
pub(crate) fn mb_new() -> MessageBuilder<'static> {
    MessageBuilder::new()
}

/// Relies on mail_builder's `MessageBuilder::from`: sets the `From` header
/// to the given display name and address.
#[verifier::external_body]
pub(crate) fn mb_from(m: MessageBuilder<'static>, name: String, addr: String) -> MessageBuilder<
    'static,
> {
    m.from((name, addr))
}

/// Relies on mail_builder's `MessageBuilder::to`: sets the `To` header.
#[verifier::external_body]
pub(crate) fn mb_to(m: MessageBuilder<'static>, addr: String) -> MessageBuilder<'static> {
    m.to(addr)
}

/// Relies on mail_builder's `MessageBuilder::subject`: sets the `Subject`
/// header.
#[verifier::external_body]
pub(crate) fn mb_subject(m: MessageBuilder<'static>, subject: String) -> MessageBuilder<'static> {
    m.subject(subject)
}

/// Relies on mail_builder's `MessageBuilder::date`: sets the `Date` header
/// from a Unix timestamp.
#[verifier::external_body]
pub(crate) fn mb_date(m: MessageBuilder<'static>, unix_ts: i64) -> MessageBuilder<'static> {
    m.date(unix_ts)
}

/// Relies on mail_builder's `MessageBuilder::message_id`: sets the
/// `Message-ID` header (without it one would be generated).
#[verifier::external_body]
pub(crate) fn mb_message_id(m: MessageBuilder<'static>, id: String) -> MessageBuilder<'static> {
    m.message_id(id)
}

/// Relies on mail_builder's `MessageBuilder::in_reply_to`: sets the
/// `In-Reply-To` header, so mail clients can thread replies.
#[verifier::external_body]
pub(crate) fn mb_in_reply_to(m: MessageBuilder<'static>, id: String) -> MessageBuilder<'static> {
    m.in_reply_to(id)
}

/// Relies on mail_builder's `MessageBuilder::text_body`: sets the plain
/// text body part.
#[verifier::external_body]
pub(crate) fn mb_text_body(m: MessageBuilder<'static>, body: String) -> MessageBuilder<'static> {
    m.text_body(body)
}

/// Relies on mail_builder's `MessageBuilder::html_body`: sets the HTML
/// body part.
#[verifier::external_body]
pub(crate) fn mb_html_body(m: MessageBuilder<'static>, body: String) -> MessageBuilder<'static> {
    m.html_body(body)
}

/// Relies on mail_builder's `MessageBuilder::attachment`: adds a named
/// binary part with `attachment` disposition.
#[verifier::external_body]
pub(crate) fn mb_attachment(
    m: MessageBuilder<'static>,
    content_type: String,
    filename: String,
    data: Vec<u8>,
) -> MessageBuilder<'static> {
    m.attachment(content_type, filename, data)
}

/// Relies on mail_builder's `MessageBuilder::inline`: adds a named binary
/// part with `inline` disposition.
#[verifier::external_body]
pub(crate) fn mb_inline(
    m: MessageBuilder<'static>,
    content_type: String,
    cid: String,
    data: Vec<u8>,
) -> MessageBuilder<'static> {
    m.inline(content_type, cid, data)
}

/// Relies on mail_builder's `MessageBuilder::write_to_string`: serializes
/// the message to one RFC822 string; the only failure is output that is
/// not valid UTF-8, reported as its message.
#[verifier::external_body]
pub(crate) fn mb_write_to_string(m: MessageBuilder<'static>) -> Result<String, String> {
    match m.write_to_string() {
        Ok(s) => Ok(s),
        Err(e) => Err(format!("{}", e)),
    }
}

} // verus!
