use mop3::config::{ApiMode, Config};
use mop3::models::Credentials;
use mop3::pop3::{
    apply_config_overrides, fetch_failed_reply, invalid_credentials_reply, pop3_banner,
    pop3_ready_banner, LoginState, LoginStatus, Session,
};

fn session() -> Session {
    Session::new(vec![
        "A: B\r\n\r\nline1\r\nline2".to_string(),
        "hello".to_string(),
    ])
}

#[test]
fn stat_reports_count_and_octet_total() {
    let s = session();
    let total = "A: B\r\n\r\nline1\r\nline2".len() + "hello".len();
    let o = s.transaction_step("STAT");
    assert_eq!(o.reply, format!("+OK 2 {}\r\n", total));
    assert!(!o.close);
}

#[test]
fn list_with_index_matches_retr_length() {
    let s = session();
    for i in 1..=2usize {
        let list = s.transaction_step(&format!("LIST {}", i));
        let retr = s.transaction_step(&format!("RETR {}", i));
        let size = s.emails[i - 1].len();
        assert_eq!(list.reply, format!("+OK {} {}\r\n", i, size));
        assert_eq!(
            retr.reply,
            format!("+OK {} octets\r\n{}\r\n.\r\n", size, s.emails[i - 1])
        );
    }
}

#[test]
fn list_and_retr_out_of_range_agree() {
    let s = session();
    for line in ["LIST 0", "LIST 3", "RETR 0", "RETR 3"] {
        assert_eq!(s.transaction_step(line).reply, "-ERR no such message\r\n");
    }
}

#[test]
fn list_without_index_scans_all() {
    let s = session();
    let a = s.emails[0].len();
    let b = s.emails[1].len();
    let o = s.transaction_step("LIST");
    assert_eq!(o.reply, format!("+OK 2 messages\r\n1 {}\r\n2 {}\r\n.\r\n", a, b));
}

#[test]
fn bad_index_is_invalid_message_number() {
    let s = session();
    assert_eq!(s.transaction_step("LIST abc").reply, "-ERR invalid message number\r\n");
    assert_eq!(s.transaction_step("RETR 1x").reply, "-ERR invalid message number\r\n");
    assert_eq!(
        s.transaction_step("RETR 99999999999999999999999").reply,
        "-ERR invalid message number\r\n"
    );
    assert_eq!(s.transaction_step("RETR").reply, "-ERR no message specified\r\n");
}

#[test]
fn top_sends_headers_plus_bounded_body() {
    let s = session();
    let o = s.transaction_step("TOP 1 1");
    let expected_text = "A: B\r\n\r\nline1\r\n";
    assert_eq!(
        o.reply,
        format!("+OK {} octets\r\n{}.\r\n", expected_text.len(), expected_text)
    );
}

#[test]
fn top_never_sends_more_body_lines_than_asked() {
    let s = session();
    let o = s.transaction_step("TOP 1 99");
    let expected_text = "A: B\r\n\r\nline1\r\nline2\r\n";
    assert_eq!(
        o.reply,
        format!("+OK {} octets\r\n{}.\r\n", expected_text.len(), expected_text)
    );
    let o0 = s.transaction_step("TOP 1 0");
    let header_text = "A: B\r\n\r\n";
    assert_eq!(
        o0.reply,
        format!("+OK {} octets\r\n{}.\r\n", header_text.len(), header_text)
    );
}

#[test]
fn top_errors() {
    let s = session();
    assert_eq!(s.transaction_step("TOP 1").reply, "-ERR missing parameters\r\n");
    assert_eq!(s.transaction_step("TOP a b").reply, "-ERR invalid parameters\r\n");
    assert_eq!(s.transaction_step("TOP 9 1").reply, "-ERR no such message\r\n");
}

#[test]
fn uidl_is_positional() {
    let s = session();
    assert_eq!(s.transaction_step("UIDL 2").reply, "+OK 2 msg-2\r\n");
    assert_eq!(s.transaction_step("UIDL 3").reply, "-ERR no such message\r\n");
    assert_eq!(s.transaction_step("UIDL").reply, "+OK\r\n1 msg-1\r\n2 msg-2\r\n.\r\n");
}

#[test]
fn dele_noop_rset_accept_without_mutating() {
    let s = session();
    assert_eq!(s.transaction_step("DELE 1").reply, "+OK\r\n");
    assert_eq!(s.transaction_step("NOOP").reply, "+OK\r\n");
    assert_eq!(s.transaction_step("RSET").reply, "+OK\r\n");
    // the snapshot is read-only: indices and sizes never change
    assert_eq!(s.transaction_step("UIDL 1").reply, "+OK 1 msg-1\r\n");
}

#[test]
fn capa_lists_capabilities() {
    let s = session();
    assert_eq!(
        s.transaction_step("CAPA").reply,
        "+OK Capability list follows\r\nUSER\r\nTOP\r\nUIDL\r\n.\r\n"
    );
}

#[test]
fn unknown_verbs_never_close_quit_always_does() {
    let s = session();
    let o = s.transaction_step("XYZZY");
    assert_eq!(o.reply, "-ERR unknown command\r\n");
    assert!(!o.close);
    for line in ["STAT", "LIST", "RETR 1", "DELE", "NOOP", "RSET", "CAPA", "TOP 1 1", "UIDL"] {
        assert!(!s.transaction_step(line).close);
    }
    let q = s.transaction_step("QUIT");
    assert_eq!(q.reply, "+OK bye\r\n");
    assert!(q.close);
    assert!(s.transaction_step("QUIT ignored").close);
}

#[test]
fn login_captures_user_and_pass() {
    let mut st = LoginState::new();
    let (reply, status) = st.step("USER bob");
    assert_eq!(reply, "+OK send PASS\r\n");
    assert_eq!(status, LoginStatus::Pending);
    let (reply, status) = st.step("PASS secret");
    assert_eq!(reply, "");
    assert_eq!(status, LoginStatus::Done);
    assert_eq!(st.username, "bob");
    assert_eq!(st.password, "secret");
}

#[test]
fn login_ignores_bare_user_and_answers_unknown() {
    let mut st = LoginState::new();
    let (reply, status) = st.step("USER");
    assert_eq!(reply, "");
    assert_eq!(status, LoginStatus::Pending);
    let (reply, status) = st.step("XYZZY");
    assert_eq!(reply, "-ERR unknown command\r\n");
    assert_eq!(status, LoginStatus::Pending);
    let (reply, status) = st.step("PASS p");
    assert_eq!(reply, "");
    assert_eq!(status, LoginStatus::Pending);
    let (reply, status) = st.step("QUIT");
    assert_eq!(reply, "+OK bye\r\n");
    assert_eq!(status, LoginStatus::Quit);
}

#[test]
fn configuration_overrides_credentials() {
    let config = Config {
        account: Some("acct@example.com".to_string()),
        token: Some("tok".to_string()),
        address: "127.0.0.1".to_string(),
        pop3port: 110,
        smtp_port: 25,
        api_mode: ApiMode::Mastodon,
        nosmtp: false,
        ascii: false,
        attachment: false,
        inline: false,
        html: false,
        debug: false,
        url: false,
        proxy: None,
    };
    let mut cred = Credentials { username: "u".to_string(), password: "p".to_string() };
    apply_config_overrides(&mut cred, &config);
    assert_eq!(cred.username, "acct@example.com");
    assert_eq!(cred.password, "tok");
}

#[test]
fn banners_are_fixed() {
    assert_eq!(pop3_banner(), "+OK MOP3 ready\r\n");
    assert_eq!(pop3_ready_banner(), "+OK MOP3 READY, MESSAGES FETCHED\r\n");
    assert_eq!(invalid_credentials_reply(), "-ERR Invalid credentials\r\n");
    assert_eq!(fetch_failed_reply(), "-ERR Failed to fetch messages\r\n");
}

#[test]
fn empty_mailbox_stat_and_list() {
    let s = Session::new(vec![]);
    assert_eq!(s.transaction_step("STAT").reply, "+OK 0 0\r\n");
    assert_eq!(s.transaction_step("LIST").reply, "+OK 0 messages\r\n.\r\n");
    assert_eq!(s.transaction_step("RETR 1").reply, "-ERR no such message\r\n");
}
