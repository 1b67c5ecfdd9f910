use mop3::config::{ApiMode, Config};
use mop3::error::AppError;

fn base_config() -> Config {
    Config {
        account: None,
        token: Some("tok".to_string()),
        address: "127.0.0.1".to_string(),
        pop3port: 110,
        smtp_port: 25,
        api_mode: ApiMode::Mastodon,
        nosmtp: false,
        ascii: false,
        attachment: false,
        inline: false,
        html: false,
        debug: false,
        url: false,
        proxy: None,
    }
}

#[test]
fn valid_configuration_passes() {
    assert!(base_config().validate().is_ok());
    let mut c = base_config();
    c.token = None;
    c.nosmtp = true;
    assert!(c.validate().is_ok());
}

#[test]
fn smtp_without_token_is_rejected() {
    let mut c = base_config();
    c.token = None;
    match c.validate() {
        Err(AppError::Config(m)) => {
            assert_eq!(m, "SMTP requires a token: provide one or disable SMTP")
        },
        other => panic!("expected a configuration error, got {:?}", other),
    }
}

#[test]
fn attachment_and_inline_together_are_rejected() {
    let mut c = base_config();
    c.attachment = true;
    c.inline = true;
    match c.validate() {
        Err(AppError::Config(m)) => {
            assert_eq!(m, "attached and inline media are mutually exclusive")
        },
        other => panic!("expected a configuration error, got {:?}", other),
    }
}

#[test]
fn either_media_mode_alone_is_accepted() {
    let mut c = base_config();
    c.attachment = true;
    assert!(c.validate().is_ok());
    let mut c = base_config();
    c.inline = true;
    assert!(c.validate().is_ok());
}

#[test]
fn error_messages_are_readable() {
    assert_eq!(AppError::InvalidCredentials.message(), "Invalid credentials");
    assert_eq!(AppError::Timeout.message(), "Timeout waiting for server response");
    let e: AppError = String::from("boom").into();
    assert_eq!(e.message(), "boom");
}
