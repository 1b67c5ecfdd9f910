use mop3::smtp::{extract_email_addr, publish_reply, smtp_banner, SmtpEngine};

#[test]
fn greeting_and_helo() {
    assert_eq!(smtp_banner(), "220 MOP3 SMTP ready\r\n");
    let mut e = SmtpEngine::new();
    assert_eq!(e.step("HELO client").reply, "250 MOP3 ready\r\n");
    assert_eq!(e.step("EHLO client").reply, "250-MOP3\r\n250-SIZE 5000000\r\n250 OK\r\n");
}

#[test]
fn mail_from_stores_the_sender() {
    let mut e = SmtpEngine::new();
    assert_eq!(e.step("MAIL FROM:<user@example.com>").reply, "250 OK\r\n");
    assert_eq!(e.from, "user@example.com");
    assert_eq!(e.step("RCPT TO:<any@where>").reply, "250 OK\r\n");
}

#[test]
fn mail_from_without_address_leaves_sender_empty() {
    let mut e = SmtpEngine::new();
    e.step("MAIL FROM:<old@example.com>");
    assert_eq!(e.step("MAIL FROM: garbled").reply, "250 OK\r\n");
    assert_eq!(e.from, "");
}

#[test]
fn rset_clears_the_sender() {
    let mut e = SmtpEngine::new();
    e.step("MAIL FROM:<user@example.com>");
    assert_eq!(e.step("RSET").reply, "250 OK\r\n");
    assert_eq!(e.from, "");
}

#[test]
fn data_accumulates_until_lone_dot() {
    let mut e = SmtpEngine::new();
    e.step("MAIL FROM:<user@example.com>");
    assert_eq!(e.step("DATA").reply, "354 Send message\r\n");
    assert_eq!(e.step("Subject: t").reply, "");
    assert_eq!(e.step("").reply, "");
    assert_eq!(e.step("body line").reply, "");
    let o = e.step(".");
    let req = o.publish.expect("completed message");
    assert_eq!(req.sender, "user@example.com");
    assert_eq!(req.text, "body line\n");
    assert!(!e.in_data);
}

#[test]
fn dot_stuffed_lines_are_unstuffed() {
    let mut e = SmtpEngine::new();
    e.step("DATA");
    e.step("Subject: t");
    e.step("");
    e.step("..text");
    let o = e.step(".");
    let req = o.publish.expect("completed message");
    assert_eq!(req.text, ".text\n");
}

#[test]
fn the_terminating_dot_is_not_stored() {
    let mut e = SmtpEngine::new();
    e.step("DATA");
    e.step("");
    e.step("a");
    let o = e.step(".");
    let req = o.publish.expect("completed message");
    assert_eq!(req.text, "a\n");
    assert!(!req.text.contains('.'));
}

#[test]
fn message_without_blank_line_has_no_body() {
    let mut e = SmtpEngine::new();
    e.step("DATA");
    e.step("Subject: only headers");
    let o = e.step(".");
    assert_eq!(o.publish.expect("completed message").text, "");
}

#[test]
fn smtp_unknown_verbs_never_close_quit_always_does() {
    let mut e = SmtpEngine::new();
    let o = e.step("XYZZY");
    assert_eq!(o.reply, "502 command not implemented\r\n");
    assert!(!o.close);
    assert!(!e.step("NOOP").close);
    assert!(!e.step("MAIL FROM:<a@b>").close);
    let q = e.step("QUIT");
    assert_eq!(q.reply, "221 bye\r\n");
    assert!(q.close);
}

#[test]
fn data_mode_never_closes_even_on_quit_text() {
    let mut e = SmtpEngine::new();
    e.step("DATA");
    let o = e.step("QUIT");
    assert_eq!(o.reply, "");
    assert!(!o.close);
    let done = e.step(".");
    assert_eq!(done.publish.expect("completed message").text, "");
    assert!(!done.close);
}

#[test]
fn publish_outcome_maps_to_reply_codes() {
    assert_eq!(publish_reply(true), "250 OK\r\n");
    assert_eq!(publish_reply(false), "554 publish failed\r\n");
}

#[test]
fn extract_email_addr_takes_first_bracket_pair() {
    assert_eq!(
        extract_email_addr("MAIL FROM:<user@example.com>"),
        Some("user@example.com".to_string())
    );
    assert_eq!(extract_email_addr("MAIL FROM: nothing"), None);
    assert_eq!(extract_email_addr("MAIL FROM:<a@b> <c@d>"), Some("a@b".to_string()));
    // the first `>` after the first `<` closes the address
    assert_eq!(extract_email_addr(">a<b>c"), Some("b".to_string()));
    assert_eq!(extract_email_addr("<unclosed"), None);
}
