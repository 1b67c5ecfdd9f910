use vstd::prelude::*;

use vstd::string::StrSliceExecFns;
use vstd::string::StringExecFns;

use crate::strutil::{find_char, find_char_in, first_token, lemma_find_char, split_first_token,
    str_eq};

verus! {

/// The address between the first `<` of a command line and the first `>`
/// after it, if both are there.
pub open spec fn spec_extract_addr(s: Seq<char>) -> Option<Seq<char>> {
    match find_char(s, '<') {
        None => None,
        Some(i) => match find_char(s.subrange(i + 1, s.len() as int), '>') {
            None => None,
            Some(k) => Some(s.subrange(i + 1, i + 1 + k)),
        },
    }
}

/// Extracts the address of `MAIL FROM:<addr>` (or any line): the text
/// strictly between the first `<` and the first `>` after it.
pub fn extract_email_addr(command: &str) -> (r: Option<String>)
    ensures
        r is Some <==> spec_extract_addr(command@) is Some,
        r matches Some(a) ==> spec_extract_addr(command@) matches Some(b) && a@ == b,
{
    let n = command.unicode_len();
    match find_char_in(command, 0, '<') {
        None => {
            proof {
                assert(command@.subrange(0, n as int) =~= command@);
            }
            None
        },
        Some(i) => {
            proof {
                assert(command@.subrange(0, n as int) =~= command@);
            }
            match find_char_in(command, i + 1, '>') {
                None => None,
                Some(k) => {
                    proof {
                        assert(command@.subrange(i + 1, n as int) =~= command@.subrange(
                            i as int + 1,
                            command@.len() as int,
                        ));
                    }
                    Some(command.substring_char(i + 1, k).to_owned())
                },
            }
        },
    }
}

/// The post text of an accumulated message: everything after the first
/// blank line, verbatim; without a blank line there is no body.
pub open spec fn spec_post_text(s: Seq<char>) -> Seq<char>
    decreases s.len(),
    via spec_post_text_dec
{
    match find_char(s, '\n') {
        None => Seq::empty(),
        Some(j) => if j == 0 {
            s.subrange(1, s.len() as int)
        } else {
            spec_post_text(s.subrange(j + 1, s.len() as int))
        },
    }
}

#[via_fn]
proof fn spec_post_text_dec(s: Seq<char>) {
    lemma_find_char(s, '\n');
}

/// Splits headers from body on the first blank line and returns the body
/// verbatim.
pub fn extract_post_text(s: &str) -> (out: String)
    ensures
        out@ == spec_post_text(s@),
    decreases s@.len(),
{
    let n = s.unicode_len();
    match find_char_in(s, 0, '\n') {
        None => {
            proof {
                assert(s@.subrange(0, s@.len() as int) =~= s@);
            }
            String::new()
        },
        Some(j) => {
            proof {
                assert(s@.subrange(0, s@.len() as int) =~= s@);
            }
            if j == 0 {
                s.substring_char(1, n).to_owned()
            } else {
                extract_post_text(s.substring_char(j + 1, n))
            }
        },
    }
}

/// What the envelope engine answers to one command line.
pub open spec fn smtp_reply(in_data: bool, line: Seq<char>) -> Seq<char> {
    if in_data {
        Seq::empty()
    } else {
        let cmd = first_token(line);
        if cmd == "HELO"@ {
            "250 MOP3 ready\r\n"@
        } else if cmd == "EHLO"@ {
            "250-MOP3\r\n250-SIZE 5000000\r\n250 OK\r\n"@
        } else if cmd == "MAIL"@ {
            "250 OK\r\n"@
        } else if cmd == "RCPT"@ {
            "250 OK\r\n"@
        } else if cmd == "DATA"@ {
            "354 Send message\r\n"@
        } else if cmd == "RSET"@ {
            "250 OK\r\n"@
        } else if cmd == "QUIT"@ {
            "221 bye\r\n"@
        } else if cmd == "NOOP"@ {
            "250 OK\r\n"@
        } else {
            "502 command not implemented\r\n"@
        }
    }
}

/// Whether the engine is reading message data after this line.
pub open spec fn smtp_next_in_data(in_data: bool, line: Seq<char>) -> bool {
    if in_data {
        line != "."@
    } else {
        first_token(line) == "DATA"@
    }
}

/// The stored sender after this line: `MAIL` stores the extracted address
/// (or clears the sender when none parses), `RSET` clears it.
pub open spec fn smtp_next_from(in_data: bool, from: Seq<char>, line: Seq<char>) -> Seq<char> {
    if in_data {
        from
    } else {
        let cmd = first_token(line);
        if cmd == "MAIL"@ {
            match spec_extract_addr(line) {
                Some(a) => a,
                None => Seq::empty(),
            }
        } else if cmd == "RSET"@ {
            Seq::empty()
        } else {
            from
        }
    }
}

/// The accumulated data after this line.  In data mode the lone dot ends
/// the message; a line that starts with a dot but has more is stored with
/// the leading dot removed; every stored line gets a `\n` ending.
pub open spec fn smtp_next_body(in_data: bool, body: Seq<char>, line: Seq<char>) -> Seq<char> {
    if in_data {
        if line == "."@ {
            Seq::empty()
        } else if line.len() > 1 && line[0] == '.' {
            body + line.drop_first() + "\n"@
        } else {
            body + line + "\n"@
        }
    } else {
        if first_token(line) == "DATA"@ {
            Seq::empty()
        } else {
            body
        }
    }
}

/// Whether this line completes a message and hands it on for publishing.
pub open spec fn smtp_publishes(in_data: bool, line: Seq<char>) -> bool {
    in_data && line == "."@
}

/// Whether this line closes the connection: exactly `QUIT` outside data
/// mode; nothing in data mode, and no unknown verb ever.
pub open spec fn smtp_closes(in_data: bool, line: Seq<char>) -> bool {
    !in_data && first_token(line) == "QUIT"@
}

/// A completed message, ready to publish: the stored envelope sender and
/// the extracted post text.
pub struct PublishRequest {
    pub sender: String,
    pub text: String,
}

/// The engine's answer to one line: the reply to send (empty: send
/// nothing), whether to close, and a completed message if one just ended.
pub struct SmtpOutput {
    pub reply: String,
    pub close: bool,
    pub publish: Option<PublishRequest>,
}

/// The per-connection envelope/data state machine.
pub struct SmtpEngine {
    /// Whether the engine is accumulating message data.
    pub in_data: bool,
    /// The envelope sender stored by `MAIL FROM`.
    pub from: String,
    /// The raw message accumulated so far, dot-unstuffed, `\n` line endings.
    pub body: String,
}

impl SmtpEngine {
    /// A fresh engine, awaiting envelope commands.
    pub fn new() -> (e: SmtpEngine)
        ensures
            !e.in_data,
            e.from@ == Seq::<char>::empty(),
            e.body@ == Seq::<char>::empty(),
    {
        SmtpEngine { in_data: false, from: String::new(), body: String::new() }
    }

    /// Handles one line (without its line ending): envelope commands are
    /// answered at once; in data mode lines are accumulated, dot-unstuffed,
    /// until the lone dot completes the message.
    pub fn step(&mut self, line: &str) -> (o: SmtpOutput)
        ensures
            o.reply@ == smtp_reply(old(self).in_data, line@),
            o.close == smtp_closes(old(self).in_data, line@),
            final(self).in_data == smtp_next_in_data(old(self).in_data, line@),
            final(self).from@ == smtp_next_from(old(self).in_data, old(self).from@, line@),
            final(self).body@ == smtp_next_body(old(self).in_data, old(self).body@, line@),
            o.publish is Some <==> smtp_publishes(old(self).in_data, line@),
            o.publish matches Some(p) ==> p.sender@ == old(self).from@ && p.text@
                == spec_post_text(old(self).body@),
    {
        if self.in_data {
            if str_eq(line, ".") {
                let text = extract_post_text(self.body.as_str());
                self.in_data = false;
                self.body = String::new();
                let req = PublishRequest { sender: self.from.clone(), text };
                SmtpOutput { reply: String::new(), close: false, publish: Some(req) }
            } else {
                let n = line.unicode_len();
                if n > 1 && line.get_char(0) == '.' {
                    self.body.append(line.substring_char(1, n));
                    proof {
                        assert(line@.subrange(1, line@.len() as int) =~= line@.drop_first());
                    }
                } else {
                    self.body.append(line);
                }
                self.body.append("\n");
                SmtpOutput { reply: String::new(), close: false, publish: None }
            }
        } else {
            let (cmd, _rest) = split_first_token(line);
            let reply: String = if str_eq(cmd.as_str(), "HELO") {
                "250 MOP3 ready\r\n".to_owned()
            } else if str_eq(cmd.as_str(), "EHLO") {
                "250-MOP3\r\n250-SIZE 5000000\r\n250 OK\r\n".to_owned()
            } else if str_eq(cmd.as_str(), "MAIL") {
                match extract_email_addr(line) {
                    Some(a) => {
                        self.from = a;
                    },
                    None => {
                        self.from = String::new();
                    },
                }
                "250 OK\r\n".to_owned()
            } else if str_eq(cmd.as_str(), "RCPT") {
                "250 OK\r\n".to_owned()
            } else if str_eq(cmd.as_str(), "DATA") {
                self.in_data = true;
                self.body = String::new();
                "354 Send message\r\n".to_owned()
            } else if str_eq(cmd.as_str(), "RSET") {
                self.from = String::new();
                "250 OK\r\n".to_owned()
            } else if str_eq(cmd.as_str(), "QUIT") {
                "221 bye\r\n".to_owned()
            } else if str_eq(cmd.as_str(), "NOOP") {
                "250 OK\r\n".to_owned()
            } else {
                "502 command not implemented\r\n".to_owned()
            };
            proof {
                reveal_strlit("HELO");
                reveal_strlit("EHLO");
                reveal_strlit("MAIL");
                reveal_strlit("RCPT");
                reveal_strlit("DATA");
                reveal_strlit("RSET");
                reveal_strlit("QUIT");
                reveal_strlit("NOOP");
                assert("HELO"@[0] == 'H' && "EHLO"@[0] == 'E' && "MAIL"@[0] == 'M' && "RCPT"@[0]
                    == 'R' && "DATA"@[0] == 'D' && "RSET"@[1] == 'S' && "QUIT"@[0] == 'Q'
                    && "NOOP"@[0] == 'N');
                assert("RCPT"@[1] == 'C' && "RSET"@[0] == 'R');
            }
            let close = str_eq(cmd.as_str(), "QUIT");
            SmtpOutput { reply, close, publish: None }
        }
    }
}

/// The reply once publishing was attempted: permanent failure is reported
/// with a `5xx` code and never retried.
pub fn publish_reply(ok: bool) -> (r: String)
    ensures
        ok ==> r@ == "250 OK\r\n"@,
        !ok ==> r@ == "554 publish failed\r\n"@,
{
    if ok {
        "250 OK\r\n".to_owned()
    } else {
        "554 publish failed\r\n".to_owned()
    }
}

/// The greeting sent on connect.
pub fn smtp_banner() -> (r: String)
    ensures
        r@ == "220 MOP3 SMTP ready\r\n"@,
{
    "220 MOP3 SMTP ready\r\n".to_owned()
}

/// Law: outside data mode exactly `QUIT` closes the connection — an
/// unknown verb never does — and in data mode nothing closes it.
pub proof fn lemma_smtp_quit_alone_closes(in_data: bool, line: Seq<char>)
    ensures
        smtp_closes(in_data, line) <==> (!in_data && first_token(line) == "QUIT"@),
        first_token(line) != "QUIT"@ ==> !smtp_closes(in_data, line),
        in_data ==> !smtp_closes(in_data, line),
{
}

} // verus!
