use vstd::prelude::*;

use vstd::string::StrSliceExecFns;
use vstd::string::StringExecFns;

use crate::config::Config;
use crate::error::{AppError, AppResult};
use crate::links::spec_proxy_links;
use crate::mailmsg::{mb_attachment, mb_date, mb_from, mb_html_body, mb_in_reply_to, mb_inline,
    mb_message_id, mb_new, mb_subject, mb_text_body, mb_to, mb_write_to_string};
use crate::models::{Attachment, MastodonStatus, MediaRef, Post};
use crate::strutil::{find_char, find_char_in, has_prefix_at, lemma_find_char, prefix_at};
use crate::text::spec_html_to_text;
use crate::timefmt::parse_timestamp;

verus! {

/// What deunicode computes for a string: its closest ASCII
/// transliteration.  The result depends on the characters alone.
pub uninterp spec fn ascii_folded(s: Seq<char>) -> Seq<char>;

/// Relies on deunicode::deunicode: the transliteration depends on the
/// input characters alone, the output is ASCII, and every ASCII character
/// is mapped to itself (so ASCII input comes back unchanged).
#[verifier::external_body]
fn fold_to_ascii(s: &str) -> (r: String)
    ensures
        r@ == ascii_folded(s@),
        vstd::utf8::is_ascii_chars(r@),
        vstd::utf8::is_ascii_chars(s@) ==> r@ == s@,
{
    deunicode::deunicode(s)
}

/// The part of `s` after its last `c` — all of `s` when there is none.
pub open spec fn after_last_char(s: Seq<char>, c: char) -> Seq<char>
    decreases s.len(),
    via after_last_char_dec
{
    match find_char(s, c) {
        None => s,
        Some(j) => after_last_char(s.subrange(j + 1, s.len() as int), c),
    }
}

#[via_fn]
proof fn after_last_char_dec(s: Seq<char>, c: char) {
    lemma_find_char(s, c);
}

fn after_last_char_exec(s: &str, c: char) -> (out: String)
    ensures
        out@ == after_last_char(s@, c),
    decreases s@.len(),
{
    let n = s.unicode_len();
    match find_char_in(s, 0, c) {
        None => {
            proof {
                assert(s@.subrange(0, s@.len() as int) =~= s@);
            }
            s.to_owned()
        },
        Some(j) => {
            proof {
                assert(s@.subrange(0, s@.len() as int) =~= s@);
            }
            after_last_char_exec(s.substring_char(j + 1, n), c)
        },
    }
}

/// The domain of an account address: what follows the last `@`, or the
/// whole string when there is no `@`.
pub fn domain_of(account_addr: &str) -> (r: String)
    ensures
        r@ == after_last_char(account_addr@, '@'),
{
    after_last_char_exec(account_addr, '@')
}

/// The instance URL for a username's domain: the domain itself when it
/// already starts with `https://`, otherwise `https://` prepended.
pub open spec fn spec_account_url(domain: Seq<char>) -> Seq<char> {
    if prefix_at(domain, 0, "https://"@) {
        domain
    } else {
        "https://"@ + domain
    }
}

/// Splits a username of the shape `user@example.com` into the instance
/// domain (after the last `@`; the whole string when there is none) and
/// the instance URL derived from it.
pub fn parse_account(username: &str) -> (r: (String, String))
    ensures
        r.0@ == after_last_char(username@, '@'),
        r.1@ == spec_account_url(after_last_char(username@, '@')),
{
    let domain = after_last_char_exec(username, '@');
    let url: String = if has_prefix_at(domain.as_str(), 0, "https://") {
        domain.clone()
    } else {
        let mut u = "https://".to_owned();
        u.append(domain.as_str());
        u
    };
    (domain, url)
}

/// `local@domain`.
pub fn address_at_domain(local: &str, domain: &str) -> (r: String)
    ensures
        r@ == local@ + "@"@ + domain@,
{
    let mut a = local.to_owned();
    a.append("@");
    a.append(domain);
    a
}

/// The whole body transformation of the converter: markup stripped unless
/// HTML is kept, ASCII folding, link proxying, and the source-URL footer,
/// in that order.
pub open spec fn spec_render_content(c: Seq<char>, post_url: Seq<char>, cfg: Config) -> Seq<
    char,
> {
    let a = if !cfg.html {
        spec_html_to_text(c)
    } else {
        c
    };
    let b = if cfg.ascii {
        ascii_folded(a)
    } else {
        a
    };
    let d = match cfg.proxy {
        Some(p) => spec_proxy_links(b, p@),
        None => b,
    };
    if cfg.url {
        d + "\n\n---\nOriginal: "@ + post_url
    } else {
        d
    }
}

/// Applies the body transformation chain to one post's content.
pub fn render_content(content: &str, post_url: &str, config: &Config) -> (out: String)
    ensures
        out@ == spec_render_content(content@, post_url@, *config),
{
    let a: String = if !config.html {
        crate::text::html_to_text(content)
    } else {
        content.to_owned()
    };
    let b: String = if config.ascii {
        fold_to_ascii(a.as_str())
    } else {
        a
    };
    let d: String = match &config.proxy {
        Some(p) => crate::links::apply_proxy_to_links(b.as_str(), p.as_str()),
        None => b,
    };
    if config.url {
        let mut out = d;
        out.append("\n\n---\nOriginal: ");
        out.append(post_url);
        out
    } else {
        d
    }
}

/// The subject of a converted post: `Boost from <author>` for a boost,
/// `Post` otherwise.
pub fn message_subject(post: &MastodonStatus) -> (r: String)
    ensures
        post.reblog matches Some(b) ==> r@ == "Boost from "@ + b.account.display_name@,
        post.reblog is None ==> r@ == "Post"@,
{
    match &post.reblog {
        Some(b) => {
            let mut s = "Boost from ".to_owned();
            s.append(b.account.display_name.as_str());
            s
        },
        None => "Post".to_owned(),
    }
}

/// The media references the converter reads: the boosted post's for a
/// boost, the post's own otherwise.
pub fn media_refs(post: &MastodonStatus) -> (r: &Vec<MediaRef>)
    ensures
        post.reblog matches Some(b) ==> r@ == b.media_attachments@,
        post.reblog is None ==> r@ == post.media_attachments@,
{
    match &post.reblog {
        Some(b) => &b.media_attachments,
        None => &post.media_attachments,
    }
}

/// Converts one Mastodon post into an RFC822 message string.
///
/// The boosted post's body, author and URL are used for a boost; the body
/// runs through [`render_content`] (whose contract pins it exactly); the
/// headers are the author's address at the account's domain, the verified
/// account as recipient, the subject of [`message_subject`], the parsed
/// date, and `<post-id>@<domain>` identifiers.  `media` holds the already
/// downloaded attachments for this post; whether they are attached or
/// inlined follows the configuration.  Serialization is mail_builder's;
/// its failure is the only error.
pub fn convert_mastodon_post_to_email(
    post: &MastodonStatus,
    account_addr: &str,
    config: &Config,
    media: &Vec<Attachment>,
) -> (r: AppResult<String>)
    ensures
        r matches Err(e) ==> e matches AppError::Custom(_),
{
    let (content, post_url) = match &post.reblog {
        Some(b) => (b.content.clone(), b.url.clone()),
        None => (post.content.clone(), post.url.clone()),
    };
    let subject = message_subject(post);
    let body = render_content(content.as_str(), post_url.as_str(), config);
    let domain = domain_of(account_addr);
    let from_addr = address_at_domain(post.account.username.as_str(), domain.as_str());
    let ts = parse_timestamp(post.created_at.as_str());

    let mut m = mb_new();
    m = mb_from(m, post.account.display_name.clone(), from_addr);
    m = mb_to(m, account_addr.to_owned());
    m = mb_subject(m, subject);
    m = mb_date(m, ts);
    m = mb_message_id(m, address_at_domain(post.id.as_str(), domain.as_str()));
    if config.html {
        m = mb_html_body(m, body);
    } else {
        m = mb_text_body(m, body);
    }
    if let Some(reply_id) = &post.in_reply_to_id {
        m = mb_in_reply_to(m, address_at_domain(reply_id.as_str(), domain.as_str()));
    }
    if config.attachment || config.inline {
        let mut i: usize = 0;
        let n = media.len();
        while i < n
            invariant
                0 <= i <= n == media@.len(),
            decreases n - i,
        {
            let a = &media[i];
            if config.attachment {
                m = mb_attachment(m, a.content_type.clone(), a.filename.clone(), a.data.clone());
            } else {
                m = mb_inline(m, a.content_type.clone(), a.filename.clone(), a.data.clone());
            }
            i = i + 1;
        }
    }
    match mb_write_to_string(m) {
        Ok(s) => Ok(s),
        Err(e) => Err(AppError::Custom(e)),
    }
}

/// Converts a timeline into the session mailbox, in timeline order.
/// `media[k]` holds the downloaded attachments for `posts[k]` (missing
/// entries mean none).  A post whose conversion fails is dropped; one bad
/// post never aborts the build, so the result is always the list of
/// successfully converted posts, at most one per timeline entry.
pub fn convert_posts_to_emails(
    posts: Vec<Post>,
    media: Vec<Vec<Attachment>>,
    account_addr: &str,
    config: &Config,
) -> (r: AppResult<Vec<String>>)
    ensures
        r is Ok,
        r matches Ok(v) ==> v@.len() <= posts@.len(),
{
    let mut emails: Vec<String> = Vec::new();
    let no_media: Vec<Attachment> = Vec::new();
    let n = posts.len();
    let mut i: usize = 0;
    while i < n
        invariant
            0 <= i <= n == posts@.len(),
            emails@.len() <= i,
        decreases n - i,
    {
        let m: &Vec<Attachment> = if i < media.len() {
            &media[i]
        } else {
            &no_media
        };
        match &posts[i] {
            Post::Mastodon(p) => {
                match convert_mastodon_post_to_email(p, account_addr, config, m) {
                    Ok(email) => emails.push(email),
                    Err(_) => {},
                }
            },
            Post::Bluesky(_) => {},
        }
        i = i + 1;
    }
    Ok(emails)
}

} // verus!
