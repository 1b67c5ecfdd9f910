use vstd::prelude::*;

verus! {

/// The username and password captured at POP3 login.  The password doubles
/// as an API token depending on the network.
#[derive(Debug, Clone)]
pub struct Credentials {
    pub username: String,
    pub password: String,
}

/// An outgoing post, ready for publishing.
#[derive(Debug, Clone)]
pub struct Status {
    pub status: String,
    pub in_reply_to_id: Option<String>,
    pub media_ids: Vec<String>,
}

/// The account fields of a Mastodon post that the converter reads.
#[derive(Debug, Clone)]
pub struct MastodonAccount {
    pub display_name: String,
    pub username: String,
    pub acct: String,
}

/// The profile fields of a Bluesky account that the converter reads.
#[derive(Debug, Clone)]
pub struct BlueskyProfile {
    pub display_name: Option<String>,
    pub handle: String,
}

/// Downloaded media, owned by the message that embeds it.
#[derive(Debug, Clone)]
pub struct Attachment {
    pub filename: String,
    pub content_type: String,
    pub data: Vec<u8>,
}

/// A reference to a media file carried by a post: the fields the converter
/// reads out of the network's own attachment record.
#[derive(Debug, Clone)]
pub struct MediaRef {
    /// Where the full-size media lives.
    pub url: Option<String>,
    /// MIME type hint from the post metadata.
    pub media_type: Option<String>,
    /// Alt text, used as the attachment's filename.
    pub description: Option<String>,
}

/// A Mastodon post, as the converter sees it.
#[derive(Debug)]
pub struct MastodonStatus {
    pub id: String,
    pub content: String,
    pub created_at: String,
    pub url: String,
    pub reblog: Option<Box<MastodonStatus>>,
    pub in_reply_to_id: Option<String>,
    pub media_attachments: Vec<MediaRef>,
    pub account: MastodonAccount,
}

/// A Bluesky post, as the converter sees it.
#[derive(Debug, Clone)]
pub struct BlueskyPost {
    pub uri: String,
    pub text: String,
    pub created_at: String,
    pub reply_parent: Option<String>,
}

/// A timeline entry, tagged by the network it came from.  The sum is closed:
/// every consumer must handle each network.
#[derive(Debug)]
pub enum Post {
    Mastodon(MastodonStatus),
    Bluesky(BlueskyPost),
}

/// A rendered message together with the identifiers it was built from.
#[derive(Debug, Clone)]
pub struct Email {
    pub id: String,
    pub domain: String,
    pub content: String,
    pub subject: String,
}

} // verus!
