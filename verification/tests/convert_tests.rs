use mop3::config::{ApiMode, Config};
use mop3::convert::{
    address_at_domain, convert_mastodon_post_to_email, convert_posts_to_emails, domain_of,
    media_refs, message_subject, parse_account, render_content,
};
use mop3::models::{
    Attachment, BlueskyPost, MastodonAccount, MastodonStatus, MediaRef, Post,
};
use mop3::timefmt::parse_timestamp;

fn base_config() -> Config {
    Config {
        account: None,
        token: Some("tok".to_string()),
        address: "127.0.0.1".to_string(),
        pop3port: 110,
        smtp_port: 25,
        api_mode: ApiMode::Mastodon,
        nosmtp: false,
        ascii: false,
        attachment: false,
        inline: false,
        html: false,
        debug: false,
        url: false,
        proxy: None,
    }
}

fn post(content: &str) -> MastodonStatus {
    MastodonStatus {
        id: "id123".to_string(),
        content: content.to_string(),
        created_at: "2023-01-01T00:00:00.000Z".to_string(),
        url: "https://social.example/@alice/id123".to_string(),
        reblog: None,
        in_reply_to_id: None,
        media_attachments: vec![],
        account: MastodonAccount {
            display_name: "Alice".to_string(),
            username: "alice".to_string(),
            acct: "alice@social.example".to_string(),
        },
    }
}

#[test]
fn parse_timestamp_fractional_seconds() {
    assert_eq!(parse_timestamp("2023-01-01T00:00:00.000Z"), 1672531200);
}

#[test]
fn parse_timestamp_whole_seconds() {
    assert_eq!(parse_timestamp("2023-01-01T00:00:01Z"), 1672531201);
}

#[test]
fn parse_timestamp_falls_back_to_now() {
    // an unparsable timestamp falls back to the current time, never to an
    // error; any plausible present-day value is after 2020
    assert!(parse_timestamp("not a date") > 1_577_836_800);
}

#[test]
fn domain_and_account_parsing() {
    assert_eq!(domain_of("user@social.example"), "social.example");
    assert_eq!(domain_of("plain"), "plain");
    let (domain, url) = parse_account("user@social.example");
    assert_eq!(domain, "social.example");
    assert_eq!(url, "https://social.example");
    let (domain, url) = parse_account("user@https://social.example");
    assert_eq!(domain, "https://social.example");
    assert_eq!(url, "https://social.example");
    assert_eq!(address_at_domain("id1", "social.example"), "id1@social.example");
}

#[test]
fn round_trip_strips_markup_from_body() {
    let config = base_config();
    let body = render_content("<p>Hello <b>world</b>!</p>", "u", &config);
    assert!(body.contains("Hello"));
    assert!(body.contains("world"));
    assert!(!body.contains('<'));
    assert!(!body.contains('>'));
}

#[test]
fn render_applies_proxy_after_stripping() {
    let mut config = base_config();
    config.proxy = Some("http://proxy.com/?url=".to_string());
    let body = render_content("Check this: https://example.com/path", "u", &config);
    assert!(body.contains("http://proxy.com/?url=https://example.com/path"));
    assert!(!body.contains(" https://example.com/path"));
}

#[test]
fn render_folds_to_ascii_when_asked() {
    let mut config = base_config();
    config.ascii = true;
    let body = render_content("h\u{e9}llo w\u{f6}rld", "u", &config);
    assert!(body.is_ascii());
    assert_eq!(body, "hello world");
}

#[test]
fn render_appends_source_footer() {
    let mut config = base_config();
    config.url = true;
    let body = render_content("text", "https://social.example/@alice/id123", &config);
    assert_eq!(body, "text\n\n---\nOriginal: https://social.example/@alice/id123");
}

#[test]
fn subject_distinguishes_boosts() {
    let mut p = post("x");
    assert_eq!(message_subject(&p), "Post");
    let mut boosted = post("y");
    boosted.account.display_name = "Bob".to_string();
    p.reblog = Some(Box::new(boosted));
    assert_eq!(message_subject(&p), "Boost from Bob");
}

#[test]
fn media_refs_follow_the_boost() {
    let mut p = post("x");
    p.media_attachments = vec![MediaRef {
        url: Some("https://m/1".to_string()),
        media_type: None,
        description: None,
    }];
    assert_eq!(media_refs(&p).len(), 1);
    let boosted = post("y");
    p.reblog = Some(Box::new(boosted));
    assert_eq!(media_refs(&p).len(), 0);
}

#[test]
fn converted_email_carries_headers_and_body() {
    let config = base_config();
    let email = convert_mastodon_post_to_email(
        &post("<p>Hello <b>world</b>!</p>"),
        "me@social.example",
        &config,
        &vec![],
    )
    .expect("conversion succeeds");
    assert!(email.contains("Hello"));
    assert!(email.contains("world"));
    assert!(email.contains("Subject: Post"));
    assert!(email.contains("alice@social.example"));
    assert!(email.contains("To: "));
    assert!(email.contains("id123@social.example"));
    assert!(email.contains("Date: "));
    // the Date header comes from the post's timestamp, not from the clock
    assert!(email.contains("Jan 2023"));
    assert!(!email.contains("<p>"));
}

#[test]
fn converted_reply_is_threaded() {
    let config = base_config();
    let mut p = post("re");
    p.in_reply_to_id = Some("id7".to_string());
    let email =
        convert_mastodon_post_to_email(&p, "me@social.example", &config, &vec![]).unwrap();
    assert!(email.contains("In-Reply-To: "));
    assert!(email.contains("id7@social.example"));
}

#[test]
fn converted_attachment_is_embedded() {
    let mut config = base_config();
    config.attachment = true;
    let media = vec![Attachment {
        filename: "pic.jpg".to_string(),
        content_type: "image/jpeg".to_string(),
        data: vec![0xFF, 0xD8, 0xFF],
    }];
    let email =
        convert_mastodon_post_to_email(&post("x"), "me@social.example", &config, &media)
            .unwrap();
    assert!(email.contains("pic.jpg"));
    assert!(email.contains("image/jpeg"));
    assert!(email.contains("attachment"));
}

#[test]
fn timeline_conversion_keeps_order_and_skips_bluesky() {
    let config = base_config();
    let posts = vec![
        Post::Mastodon(post("first")),
        Post::Bluesky(BlueskyPost {
            uri: "at://x".to_string(),
            text: "t".to_string(),
            created_at: "2023-01-01T00:00:00.000Z".to_string(),
            reply_parent: None,
        }),
        Post::Mastodon(post("second")),
    ];
    let emails =
        convert_posts_to_emails(posts, vec![], "me@social.example", &config).unwrap();
    assert_eq!(emails.len(), 2);
    assert!(emails[0].contains("first"));
    assert!(emails[1].contains("second"));
}
