use vstd::prelude::*;

use vstd::string::StrSliceExecFns;
use vstd::string::StringExecFns;
use vstd::utf8::encode_utf8;

use crate::config::Config;
use crate::models::Credentials;
use crate::numfmt::{all_digits, dec_u128, dec_usize, parse_index, spec_dec, spec_dec_val};
use crate::strutil::{find_char, find_char_in, first_token, lemma_find_char, rest_after_token,
    split_first_token, str_eq};

verus! {

/// The number of octets a message (or any reply text) occupies on the wire:
/// the length of its UTF-8 encoding, as a machine word.
pub open spec fn octets(m: Seq<char>) -> nat {
    (encode_utf8(m).len() as usize) as nat
}

/// The octet count of a whole mailbox.
pub open spec fn total_size(mb: Seq<Seq<char>>) -> nat
    decreases mb.len(),
{
    if mb.len() == 0 {
        0
    } else {
        total_size(mb.drop_last()) + octets(mb.last())
    }
}

/// Whether a token is a well-formed message index: digits only, value in
/// machine range.
pub open spec fn parses_index(t: Seq<char>) -> bool {
    t.len() > 0 && all_digits(t) && spec_dec_val(t) <= usize::MAX
}

/// The scan listing of `LIST` without an argument, one line per message,
/// starting at index `i`.
pub open spec fn spec_list_lines(mb: Seq<Seq<char>>, i: nat) -> Seq<char>
    decreases mb.len() + 1 - i,
{
    if i < 1 || i > mb.len() {
        Seq::empty()
    } else {
        spec_dec(i) + " "@ + spec_dec(octets(mb[i - 1])) + "\r\n"@ + spec_list_lines(mb, i + 1)
    }
}

/// The listing of `UIDL` without an argument: positional ids, one line per
/// message, starting at index `i`.
pub open spec fn spec_uidl_lines(count: nat, i: nat) -> Seq<char>
    decreases count + 1 - i,
{
    if i < 1 || i > count {
        Seq::empty()
    } else {
        spec_dec(i) + " msg-"@ + spec_dec(i) + "\r\n"@ + spec_uidl_lines(count, i + 1)
    }
}

/// A line with one trailing carriage return removed, as line splitting does
/// for `\r\n` endings.
pub open spec fn strip_one_cr(l: Seq<char>) -> Seq<char> {
    if l.len() > 0 && l.last() == '\r' {
        l.drop_last()
    } else {
        l
    }
}

/// The lines of `s`: split at `\n`, a `\r` before the split removed, one
/// final line ending dropped.
pub open spec fn spec_split_lines(s: Seq<char>) -> Seq<Seq<char>>
    decreases s.len(),
    via spec_split_lines_dec
{
    if s.len() == 0 {
        Seq::empty()
    } else {
        match find_char(s, '\n') {
            None => seq![s],
            Some(j) => seq![strip_one_cr(s.subrange(0, j))] + spec_split_lines(
                s.subrange(j + 1, s.len() as int),
            ),
        }
    }
}

#[via_fn]
proof fn spec_split_lines_dec(s: Seq<char>) {
    lemma_find_char(s, '\n');
}

/// What `TOP` sends for a given line list: every line until the first blank
/// one (the header block and its separator), then at most `n` further lines,
/// each terminated with `\r\n`.
pub open spec fn spec_top_rec(lines: Seq<Seq<char>>, n: nat, in_body: bool) -> Seq<char>
    decreases lines.len(),
{
    if lines.len() == 0 {
        Seq::empty()
    } else if !in_body {
        lines[0] + "\r\n"@ + spec_top_rec(lines.drop_first(), n, lines[0].len() == 0)
    } else if n == 0 {
        Seq::empty()
    } else {
        lines[0] + "\r\n"@ + spec_top_rec(lines.drop_first(), (n - 1) as nat, true)
    }
}

/// What `TOP` sends for message `m` and body budget `n`.
pub open spec fn spec_top(m: Seq<char>, n: nat) -> Seq<char> {
    spec_top_rec(spec_split_lines(m), n, false)
}

/// The exact reply of the transaction engine to one command line, over a
/// mailbox of messages.
pub open spec fn pop3_reply(mb: Seq<Seq<char>>, line: Seq<char>) -> Seq<char> {
    let cmd = first_token(line);
    let rest1 = rest_after_token(line);
    let a1 = first_token(rest1);
    let a2 = first_token(rest_after_token(rest1));
    if cmd == "STAT"@ {
        "+OK "@ + spec_dec(mb.len()) + " "@ + spec_dec(total_size(mb)) + "\r\n"@
    } else if cmd == "LIST"@ {
        if a1.len() == 0 {
            "+OK "@ + spec_dec(mb.len()) + " messages\r\n"@ + spec_list_lines(mb, 1) + ".\r\n"@
        } else if parses_index(a1) {
            let v = spec_dec_val(a1);
            if 1 <= v <= mb.len() {
                "+OK "@ + spec_dec(v) + " "@ + spec_dec(octets(mb[v - 1])) + "\r\n"@
            } else {
                "-ERR no such message\r\n"@
            }
        } else {
            "-ERR invalid message number\r\n"@
        }
    } else if cmd == "RETR"@ {
        if a1.len() == 0 {
            "-ERR no message specified\r\n"@
        } else if parses_index(a1) {
            let v = spec_dec_val(a1);
            if 1 <= v <= mb.len() {
                "+OK "@ + spec_dec(octets(mb[v - 1])) + " octets\r\n"@ + mb[v - 1] + "\r\n.\r\n"@
            } else {
                "-ERR no such message\r\n"@
            }
        } else {
            "-ERR invalid message number\r\n"@
        }
    } else if cmd == "DELE"@ {
        "+OK\r\n"@
    } else if cmd == "QUIT"@ {
        "+OK bye\r\n"@
    } else if cmd == "CAPA"@ {
        "+OK Capability list follows\r\nUSER\r\nTOP\r\nUIDL\r\n.\r\n"@
    } else if cmd == "NOOP"@ {
        "+OK\r\n"@
    } else if cmd == "RSET"@ {
        "+OK\r\n"@
    } else if cmd == "TOP"@ {
        if a1.len() == 0 || a2.len() == 0 {
            "-ERR missing parameters\r\n"@
        } else if parses_index(a1) && parses_index(a2) {
            let v = spec_dec_val(a1);
            let n = spec_dec_val(a2);
            if 1 <= v <= mb.len() {
                let t = spec_top(mb[v - 1], n);
                "+OK "@ + spec_dec(octets(t)) + " octets\r\n"@ + t + ".\r\n"@
            } else {
                "-ERR no such message\r\n"@
            }
        } else {
            "-ERR invalid parameters\r\n"@
        }
    } else if cmd == "UIDL"@ {
        if a1.len() == 0 {
            "+OK\r\n"@ + spec_uidl_lines(mb.len(), 1) + ".\r\n"@
        } else if parses_index(a1) {
            let v = spec_dec_val(a1);
            if 1 <= v <= mb.len() {
                "+OK "@ + spec_dec(v) + " msg-"@ + spec_dec(v) + "\r\n"@
            } else {
                "-ERR no such message\r\n"@
            }
        } else {
            "-ERR invalid message number\r\n"@
        }
    } else {
        "-ERR unknown command\r\n"@
    }
}

/// Whether a command line ends the session: exactly `QUIT` does, every other
/// verb — known or unknown — leaves the connection open.
pub open spec fn pop3_closes(line: Seq<char>) -> bool {
    first_token(line) == "QUIT"@
}

/// The reply to one transaction command, and whether the session closes.
pub struct Pop3Output {
    pub reply: String,
    pub close: bool,
}

/// One POP3 session's mailbox: the frozen, 1-indexed snapshot of rendered
/// messages built at login.  Indices never change within the session;
/// `DELE` is accepted but nothing is ever removed.
pub struct Session {
    pub emails: Vec<String>,
}

impl Session {
    /// The abstract mailbox: the messages' character sequences, in order.
    pub open spec fn mailbox(&self) -> Seq<Seq<char>> {
        self.emails@.map_values(|e: String| e@)
    }

    /// Freezes a list of rendered messages into a session snapshot.
    pub fn new(emails: Vec<String>) -> (s: Session)
        ensures
            s.mailbox() == emails@.map_values(|e: String| e@),
    {
        Session { emails }
    }

    /// The octet count of the whole mailbox.
    fn total_octets(&self) -> (t: u128)
        ensures
            t == total_size(self.mailbox()),
    {
        let ghost mb = self.mailbox();
        let n = self.emails.len();
        let mut t: u128 = 0;
        let mut i: usize = 0;
        while i < n
            invariant
                0 <= i <= n == self.emails@.len(),
                mb == self.mailbox(),
                t == total_size(mb.take(i as int)),
                t <= i * (usize::MAX as u128),
            decreases n - i,
        {
            let sz = self.emails[i].as_str().len();
            proof {
                assert(mb.take(i + 1).drop_last() =~= mb.take(i as int));
                assert(mb.take(i + 1).last() == mb[i as int]);
                assert(mb[i as int] == self.emails@[i as int]@);
                assert(sz as nat == octets(mb[i as int]));
                assert((i + 1) * (usize::MAX as u128) == i * (usize::MAX as u128) + (
                usize::MAX as u128)) by (nonlinear_arith);
                assert(i * (usize::MAX as u128) <= (usize::MAX as u128) * (usize::MAX as u128))
                    by (nonlinear_arith)
                    requires
                        0 <= i <= usize::MAX,
                ;
            }
            t = t + (sz as u128);
            i = i + 1;
        }
        proof {
            assert(mb.take(n as int) =~= mb);
        }
        t
    }

    fn list_all_lines(&self, i: usize) -> (out: String)
        requires
            1 <= i,
        ensures
            out@ == spec_list_lines(self.mailbox(), i as nat),
        decreases self.emails@.len() + 1 - i,
    {
        let n = self.emails.len();
        if i > n {
            String::new()
        } else {
            let sz = self.emails[i - 1].as_str().len();
            proof {
                assert(self.mailbox()[i - 1] == self.emails@[i - 1]@);
            }
            let mut out = dec_usize(i);
            out.append(" ");
            out.append(dec_usize(sz).as_str());
            out.append("\r\n");
            if i < n {
                let tail = self.list_all_lines(i + 1);
                out.append(tail.as_str());
            } else {
                proof {
                    assert(spec_list_lines(self.mailbox(), (i + 1) as nat) =~= Seq::<char>::empty());
                }
            }
            out
        }
    }

    fn uidl_all_lines(&self, i: usize) -> (out: String)
        requires
            1 <= i,
        ensures
            out@ == spec_uidl_lines(self.mailbox().len(), i as nat),
        decreases self.emails@.len() + 1 - i,
    {
        let n = self.emails.len();
        if i > n {
            String::new()
        } else {
            let mut out = dec_usize(i);
            out.append(" msg-");
            out.append(dec_usize(i).as_str());
            out.append("\r\n");
            if i < n {
                let tail = self.uidl_all_lines(i + 1);
                out.append(tail.as_str());
            } else {
                proof {
                    assert(spec_uidl_lines(self.mailbox().len(), (i + 1) as nat) =~= Seq::<char>::empty());
                }
            }
            out
        }
    }

    /// Serves one transaction command: the reply is exactly what
    /// [`pop3_reply`] says, and the connection closes exactly on `QUIT`.
    pub fn transaction_step(&self, line: &str) -> (o: Pop3Output)
        ensures
            o.reply@ == pop3_reply(self.mailbox(), line@),
            o.close == pop3_closes(line@),
    {
        let n = self.emails.len();
        let (cmd, rest1) = split_first_token(line);
        let (a1, rest2) = split_first_token(rest1.as_str());
        let (a2, _rest3) = split_first_token(rest2.as_str());
        let close = str_eq(cmd.as_str(), "QUIT");
        let reply: String = if str_eq(cmd.as_str(), "STAT") {
            let total = self.total_octets();
            let mut out = "+OK ".to_owned();
            out.append(dec_usize(n).as_str());
            out.append(" ");
            out.append(dec_u128(total).as_str());
            out.append("\r\n");
            out
        } else if str_eq(cmd.as_str(), "LIST") {
            if a1.as_str().is_empty() {
                let mut out = "+OK ".to_owned();
                out.append(dec_usize(n).as_str());
                out.append(" messages\r\n");
                out.append(self.list_all_lines(1).as_str());
                out.append(".\r\n");
                out
            } else {
                match parse_index(a1.as_str()) {
                    Some(v) if 1 <= v && v <= n => {
                        let sz = self.emails[v - 1].as_str().len();
                        proof {
                            assert(self.mailbox()[v - 1] == self.emails@[v - 1]@);
                        }
                        let mut out = "+OK ".to_owned();
                        out.append(dec_usize(v).as_str());
                        out.append(" ");
                        out.append(dec_usize(sz).as_str());
                        out.append("\r\n");
                        out
                    },
                    Some(_) => "-ERR no such message\r\n".to_owned(),
                    None => "-ERR invalid message number\r\n".to_owned(),
                }
            }
        } else if str_eq(cmd.as_str(), "RETR") {
            if a1.as_str().is_empty() {
                "-ERR no message specified\r\n".to_owned()
            } else {
                match parse_index(a1.as_str()) {
                    Some(v) if 1 <= v && v <= n => {
                        let msg = self.emails[v - 1].as_str();
                        let sz = msg.len();
                        proof {
                            assert(self.mailbox()[v - 1] == self.emails@[v - 1]@);
                        }
                        let mut out = "+OK ".to_owned();
                        out.append(dec_usize(sz).as_str());
                        out.append(" octets\r\n");
                        out.append(msg);
                        out.append("\r\n.\r\n");
                        out
                    },
                    Some(_) => "-ERR no such message\r\n".to_owned(),
                    None => "-ERR invalid message number\r\n".to_owned(),
                }
            }
        } else if str_eq(cmd.as_str(), "DELE") {
            "+OK\r\n".to_owned()
        } else if str_eq(cmd.as_str(), "QUIT") {
            "+OK bye\r\n".to_owned()
        } else if str_eq(cmd.as_str(), "CAPA") {
            "+OK Capability list follows\r\nUSER\r\nTOP\r\nUIDL\r\n.\r\n".to_owned()
        } else if str_eq(cmd.as_str(), "NOOP") {
            "+OK\r\n".to_owned()
        } else if str_eq(cmd.as_str(), "RSET") {
            "+OK\r\n".to_owned()
        } else if str_eq(cmd.as_str(), "TOP") {
            if a1.as_str().is_empty() || a2.as_str().is_empty() {
                "-ERR missing parameters\r\n".to_owned()
            } else {
                match (parse_index(a1.as_str()), parse_index(a2.as_str())) {
                    (Some(v), Some(k)) => {
                        if 1 <= v && v <= n {
                            let msg = self.emails[v - 1].as_str();
                            proof {
                                assert(self.mailbox()[v - 1] == self.emails@[v - 1]@);
                            }
                            let t = top_text(msg, k);
                            let sz = t.as_str().len();
                            let mut out = "+OK ".to_owned();
                            out.append(dec_usize(sz).as_str());
                            out.append(" octets\r\n");
                            out.append(t.as_str());
                            out.append(".\r\n");
                            out
                        } else {
                            "-ERR no such message\r\n".to_owned()
                        }
                    },
                    _ => "-ERR invalid parameters\r\n".to_owned(),
                }
            }
        } else if str_eq(cmd.as_str(), "UIDL") {
            if a1.as_str().is_empty() {
                let mut out = "+OK\r\n".to_owned();
                out.append(self.uidl_all_lines(1).as_str());
                out.append(".\r\n");
                out
            } else {
                match parse_index(a1.as_str()) {
                    Some(v) if 1 <= v && v <= n => {
                        let mut out = "+OK ".to_owned();
                        out.append(dec_usize(v).as_str());
                        out.append(" msg-");
                        out.append(dec_usize(v).as_str());
                        out.append("\r\n");
                        out
                    },
                    Some(_) => "-ERR no such message\r\n".to_owned(),
                    None => "-ERR invalid message number\r\n".to_owned(),
                }
            }
        } else {
            "-ERR unknown command\r\n".to_owned()
        };
        Pop3Output { reply, close }
    }
}

/// Builds the `TOP` text for one message: its lines until the first blank
/// one, then at most `n` more, each sent with a `\r\n` ending.
pub fn top_text(m: &str, n: usize) -> (out: String)
    ensures
        out@ == spec_top(m@, n as nat),
{
    top_from(m, n, false)
}

fn top_from(s: &str, n: usize, in_body: bool) -> (out: String)
    ensures
        out@ == spec_top_rec(spec_split_lines(s@), n as nat, in_body),
    decreases s@.len(),
{
    let len = s.unicode_len();
    if len == 0 {
        return String::new();
    }
    match find_char_in(s, 0, '\n') {
        None => {
            proof {
                assert(s@.subrange(0, s@.len() as int) =~= s@);
                let lines = spec_split_lines(s@);
                assert(lines == seq![s@]);
                assert(lines[0] == s@);
                assert(lines.drop_first() =~= Seq::<Seq<char>>::empty());
            }
            if in_body && n == 0 {
                String::new()
            } else {
                let mut out = s.to_owned();
                out.append("\r\n");
                proof {
                    let lines = spec_split_lines(s@);
                    let e: Seq<Seq<char>> = Seq::empty();
                    assert(lines.drop_first() =~= e);
                    if !in_body {
                        assert(spec_top_rec(e, n as nat, s@.len() == 0) == Seq::<char>::empty());
                    } else {
                        assert(spec_top_rec(e, (n - 1) as nat, true) == Seq::<char>::empty());
                    }
                    assert(out@ =~= spec_top_rec(lines, n as nat, in_body));
                }
                out
            }
        },
        Some(j) => {
            proof {
                assert(s@.subrange(0, s@.len() as int) =~= s@);
            }
            let raw = s.substring_char(0, j);
            let line = if j > 0 && s.get_char(j - 1) == '\r' {
                s.substring_char(0, j - 1)
            } else {
                raw
            };
            proof {
                let piece = s@.subrange(0, j as int);
                if j > 0 && s@[j - 1] == '\r' {
                    assert(piece.last() == s@[j - 1]);
                    assert(piece.drop_last() =~= s@.subrange(0, j - 1));
                } else if j > 0 {
                    assert(piece.last() == s@[j - 1]);
                }
                assert(line@ == strip_one_cr(piece));
            }
            let rest = s.substring_char(j + 1, len);
            proof {
                let lines = spec_split_lines(s@);
                assert(lines == seq![line@] + spec_split_lines(rest@));
                assert(lines[0] == line@);
                assert(lines.drop_first() =~= spec_split_lines(rest@));
                assert(lines.len() > 0);
            }
            let blank = line.is_empty();
            if !in_body {
                let tail = top_from(rest, n, blank);
                let mut out = line.to_owned();
                out.append("\r\n");
                out.append(tail.as_str());
                out
            } else if n == 0 {
                String::new()
            } else {
                let tail = top_from(rest, n - 1, true);
                let mut out = line.to_owned();
                out.append("\r\n");
                out.append(tail.as_str());
                out
            }
        },
    }
}


/// Pre-authentication state: the credentials captured so far.  Empty means
/// not yet supplied.
pub struct LoginState {
    pub username: String,
    pub password: String,
}

/// Where the pre-authentication engine stands after a line.
#[derive(Debug, Clone, Copy, PartialEq, Eq, Structural)]
pub enum LoginStatus {
    /// Keep reading commands.
    Pending,
    /// Both credentials are captured: authenticate now.
    Done,
    /// The client quit before logging in.
    Quit,
}

/// The reply to one pre-authentication line (empty: nothing is sent).
pub open spec fn login_reply(user: Seq<char>, line: Seq<char>) -> Seq<char> {
    let cmd = first_token(line);
    let a1 = first_token(rest_after_token(line));
    if cmd == "USER"@ {
        if a1.len() > 0 {
            "+OK send PASS\r\n"@
        } else {
            Seq::empty()
        }
    } else if cmd == "PASS"@ {
        Seq::empty()
    } else if cmd == "QUIT"@ {
        "+OK bye\r\n"@
    } else {
        "-ERR unknown command\r\n"@
    }
}

/// The username after one pre-authentication line.
pub open spec fn login_next_user(user: Seq<char>, line: Seq<char>) -> Seq<char> {
    let cmd = first_token(line);
    let a1 = first_token(rest_after_token(line));
    if cmd == "USER"@ && a1.len() > 0 {
        a1
    } else {
        user
    }
}

/// The password after one pre-authentication line.
pub open spec fn login_next_pass(pass: Seq<char>, line: Seq<char>) -> Seq<char> {
    let cmd = first_token(line);
    let a1 = first_token(rest_after_token(line));
    if cmd == "PASS"@ && a1.len() > 0 {
        a1
    } else {
        pass
    }
}

/// Whether the line completes the login, quits, or leaves it pending.
pub open spec fn login_status(user: Seq<char>, line: Seq<char>) -> LoginStatus {
    let cmd = first_token(line);
    let a1 = first_token(rest_after_token(line));
    if cmd == "QUIT"@ {
        LoginStatus::Quit
    } else if cmd == "PASS"@ && a1.len() > 0 && user.len() > 0 {
        LoginStatus::Done
    } else {
        LoginStatus::Pending
    }
}

impl LoginState {
    /// A fresh pre-authentication state with nothing captured.
    pub fn new() -> (st: LoginState)
        ensures
            st.username@ == Seq::<char>::empty(),
            st.password@ == Seq::<char>::empty(),
    {
        LoginState { username: String::new(), password: String::new() }
    }

    /// Handles one line before authentication: `USER` and `PASS` capture
    /// credentials, `QUIT` ends the session, anything else is answered with
    /// an error and the state is kept.
    pub fn step(&mut self, line: &str) -> (r: (String, LoginStatus))
        ensures
            r.0@ == login_reply(old(self).username@, line@),
            r.1 == login_status(old(self).username@, line@),
            final(self).username@ == login_next_user(old(self).username@, line@),
            final(self).password@ == login_next_pass(old(self).password@, line@),
    {
        let (cmd, rest1) = split_first_token(line);
        let (a1, _rest2) = split_first_token(rest1.as_str());
        proof {
            reveal_strlit("USER");
            reveal_strlit("PASS");
            reveal_strlit("QUIT");
            assert("USER"@[0] == 'U' && "PASS"@[0] == 'P' && "QUIT"@[0] == 'Q');
            assert("USER"@ != "QUIT"@ && "USER"@ != "PASS"@ && "PASS"@ != "QUIT"@);
        }
        if str_eq(cmd.as_str(), "USER") {
            if !a1.as_str().is_empty() {
                self.username = a1;
                ("+OK send PASS\r\n".to_owned(), LoginStatus::Pending)
            } else {
                (String::new(), LoginStatus::Pending)
            }
        } else if str_eq(cmd.as_str(), "PASS") {
            if !a1.as_str().is_empty() {
                self.password = a1;
                if !self.username.as_str().is_empty() {
                    (String::new(), LoginStatus::Done)
                } else {
                    (String::new(), LoginStatus::Pending)
                }
            } else {
                (String::new(), LoginStatus::Pending)
            }
        } else if str_eq(cmd.as_str(), "QUIT") {
            ("+OK bye\r\n".to_owned(), LoginStatus::Quit)
        } else {
            ("-ERR unknown command\r\n".to_owned(), LoginStatus::Pending)
        }
    }
}

/// Configuration wins over client-supplied credentials: a configured
/// account or token replaces what the client sent, wholesale.
pub fn apply_config_overrides(cred: &mut Credentials, config: &Config)
    ensures
        config.account matches Some(a) ==> final(cred).username@ == a@,
        config.account is None ==> final(cred).username@ == old(cred).username@,
        config.token matches Some(t) ==> final(cred).password@ == t@,
        config.token is None ==> final(cred).password@ == old(cred).password@,
{
    if let Some(a) = &config.account {
        cred.username = a.clone();
    }
    if let Some(t) = &config.token {
        cred.password = t.clone();
    }
}

/// The greeting sent on connect.
pub fn pop3_banner() -> (r: String)
    ensures
        r@ == "+OK MOP3 ready\r\n"@,
{
    "+OK MOP3 ready\r\n".to_owned()
}

/// The confirmation sent once the mailbox snapshot is built.
pub fn pop3_ready_banner() -> (r: String)
    ensures
        r@ == "+OK MOP3 READY, MESSAGES FETCHED\r\n"@,
{
    "+OK MOP3 READY, MESSAGES FETCHED\r\n".to_owned()
}

/// The single terminal reply when verification fails; the session then
/// closes without retrying.
pub fn invalid_credentials_reply() -> (r: String)
    ensures
        r@ == "-ERR Invalid credentials\r\n"@,
{
    "-ERR Invalid credentials\r\n".to_owned()
}

/// The terminal reply when the timeline fetch fails.
pub fn fetch_failed_reply() -> (r: String)
    ensures
        r@ == "-ERR Failed to fetch messages\r\n"@,
{
    "-ERR Failed to fetch messages\r\n".to_owned()
}

/// Law: a transaction line closes the session exactly when its verb is
/// `QUIT`; in particular an unknown verb never closes the connection.
pub proof fn lemma_quit_alone_closes(line: Seq<char>)
    ensures
        pop3_closes(line) <==> first_token(line) == "QUIT"@,
        first_token(line) != "QUIT"@ ==> !pop3_closes(line),
{
}


/// Law: `STAT` reports the message count and the octet total of the whole
/// mailbox, and that total unrolls as the sum of the per-message octet
/// counts that `RETR` reports.
pub proof fn lemma_stat_reports_totals(mb: Seq<Seq<char>>)
    ensures
        pop3_reply(mb, "STAT"@) == "+OK "@ + spec_dec(mb.len()) + " "@ + spec_dec(total_size(mb))
            + "\r\n"@,
        forall|k: int|
            0 <= k < mb.len() ==> total_size(#[trigger] mb.take(k + 1)) == total_size(mb.take(k))
                + octets(mb[k]),
        total_size(mb.take(0)) == 0,
        mb.take(mb.len() as int) == mb,
{
    reveal_strlit("STAT");
    assert forall|i: int| 0 <= i < "STAT"@.len() implies !crate::strutil::is_space(
        "STAT"@[i],
    ) by {}
    crate::strutil::lemma_token_single("STAT"@);
    assert forall|k: int|
        0 <= k < mb.len() implies total_size(#[trigger] mb.take(k + 1)) == total_size(mb.take(k))
        + octets(mb[k]) by {
        assert(mb.take(k + 1).drop_last() =~= mb.take(k));
        assert(mb.take(k + 1).last() == mb[k]);
    }
    assert(mb.take(0) =~= Seq::<Seq<char>>::empty());
    assert(mb.take(mb.len() as int) =~= mb);
}

/// Law: for an index in range, `LIST i` reports exactly the octet count of
/// the message that `RETR i` streams; for an index out of range, both
/// answer `-ERR no such message`.
pub proof fn lemma_list_retr_agree(mb: Seq<Seq<char>>, i: nat)
    requires
        1 <= i <= usize::MAX,
    ensures
        i <= mb.len() ==> pop3_reply(mb, "LIST"@ + " "@ + spec_dec(i)) == "+OK "@ + spec_dec(i)
            + " "@ + spec_dec(octets(mb[i - 1])) + "\r\n"@,
        i <= mb.len() ==> pop3_reply(mb, "RETR"@ + " "@ + spec_dec(i)) == "+OK "@ + spec_dec(
            octets(mb[i - 1]),
        ) + " octets\r\n"@ + mb[i - 1] + "\r\n.\r\n"@,
        i > mb.len() ==> pop3_reply(mb, "LIST"@ + " "@ + spec_dec(i))
            == "-ERR no such message\r\n"@,
        i > mb.len() ==> pop3_reply(mb, "RETR"@ + " "@ + spec_dec(i))
            == "-ERR no such message\r\n"@,
{
    reveal_strlit("LIST");
    reveal_strlit("RETR");
    reveal_strlit("STAT");
    crate::numfmt::lemma_dec_digits(i);
    crate::numfmt::lemma_dec_roundtrip(i);
    crate::numfmt::lemma_digits_not_space(spec_dec(i));
    assert forall|k: int| 0 <= k < "LIST"@.len() implies !crate::strutil::is_space(
        "LIST"@[k],
    ) by {}
    assert forall|k: int| 0 <= k < "RETR"@.len() implies !crate::strutil::is_space(
        "RETR"@[k],
    ) by {}
    crate::strutil::lemma_tokens_cmd_arg("LIST"@, spec_dec(i));
    crate::strutil::lemma_tokens_cmd_arg("RETR"@, spec_dec(i));
    assert("LIST"@[0] == 'L' && "RETR"@[0] == 'R' && "STAT"@[0] == 'S');
    assert("LIST"@ != "STAT"@ && "RETR"@ != "STAT"@ && "RETR"@ != "LIST"@);
}


/// How many times `c` occurs in `s`.
pub open spec fn count_char(s: Seq<char>, c: char) -> nat
    decreases s.len(),
{
    if s.len() == 0 {
        0
    } else {
        (if s[0] == c {
            1nat
        } else {
            0nat
        }) + count_char(s.drop_first(), c)
    }
}

/// Counting distributes over concatenation.
proof fn lemma_count_concat(a: Seq<char>, b: Seq<char>, c: char)
    ensures
        count_char(a + b, c) == count_char(a, c) + count_char(b, c),
    decreases a.len(),
{
    if a.len() == 0 {
        assert(a + b =~= b);
    } else {
        lemma_count_concat(a.drop_first(), b, c);
        assert((a + b).drop_first() =~= a.drop_first() + b);
        assert((a + b)[0] == a[0]);
    }
}

/// A string without `c` counts zero.
proof fn lemma_count_zero(s: Seq<char>, c: char)
    requires
        forall|j: int| 0 <= j < s.len() ==> s[j] != c,
    ensures
        count_char(s, c) == 0,
    decreases s.len(),
{
    if s.len() > 0 {
        lemma_count_zero(s.drop_first(), c);
    }
}

/// The lines that follow the header block: everything after the first blank
/// line.
pub open spec fn drop_until_blank(lines: Seq<Seq<char>>) -> Seq<Seq<char>>
    decreases lines.len(),
{
    if lines.len() == 0 {
        Seq::empty()
    } else if lines[0].len() == 0 {
        lines.drop_first()
    } else {
        drop_until_blank(lines.drop_first())
    }
}

/// The first `n` of the given lines, each with a `\r\n` ending.
pub open spec fn take_n_lines(lines: Seq<Seq<char>>, n: nat) -> Seq<char>
    decreases lines.len(),
{
    if lines.len() == 0 || n == 0 {
        Seq::empty()
    } else {
        lines[0] + "\r\n"@ + take_n_lines(lines.drop_first(), (n - 1) as nat)
    }
}

/// In the body, the engine sends exactly the first `n` remaining lines.
proof fn lemma_top_body_is_take(lines: Seq<Seq<char>>, n: nat)
    ensures
        spec_top_rec(lines, n, true) == take_n_lines(lines, n),
    decreases lines.len(),
{
    if lines.len() > 0 && n > 0 {
        lemma_top_body_is_take(lines.drop_first(), (n - 1) as nat);
    }
}

/// The `TOP` output splits into the header block (what a budget of zero
/// gives) followed by at most `n` body lines.
proof fn lemma_top_decompose(lines: Seq<Seq<char>>, n: nat)
    ensures
        spec_top_rec(lines, n, false) == spec_top_rec(lines, 0, false) + take_n_lines(
            drop_until_blank(lines),
            n,
        ),
    decreases lines.len(),
{
    if lines.len() == 0 {
        assert(Seq::<char>::empty() + take_n_lines(drop_until_blank(lines), n) =~= Seq::<
            char,
        >::empty());
    } else if lines[0].len() == 0 {
        lemma_top_body_is_take(lines.drop_first(), n);
        assert(spec_top_rec(lines.drop_first(), 0, true) == take_n_lines(lines.drop_first(), 0))
            by {
            lemma_top_body_is_take(lines.drop_first(), 0);
        }
        assert(take_n_lines(lines.drop_first(), 0) == Seq::<char>::empty());
        assert(spec_top_rec(lines, 0, false) == lines[0] + "\r\n"@ + Seq::<char>::empty());
        assert(spec_top_rec(lines, n, false) =~= spec_top_rec(lines, 0, false) + take_n_lines(
            lines.drop_first(),
            n,
        ));
    } else {
        lemma_top_decompose(lines.drop_first(), n);
        assert(spec_top_rec(lines, n, false) =~= spec_top_rec(lines, 0, false) + take_n_lines(
            drop_until_blank(lines.drop_first()),
            n,
        ));
    }
}

/// No line produced by splitting holds a line break.
proof fn lemma_split_lines_no_newline(s: Seq<char>)
    ensures
        forall|i: int, k: int|
            0 <= i < spec_split_lines(s).len() && 0 <= k < spec_split_lines(s)[i].len()
                ==> #[trigger] spec_split_lines(s)[i][k] != '\n',
    decreases s.len(),
{
    if s.len() > 0 {
        lemma_find_char(s, '\n');
        match find_char(s, '\n') {
            None => {},
            Some(j) => {
                lemma_split_lines_no_newline(s.subrange(j + 1, s.len() as int));
                let head = strip_one_cr(s.subrange(0, j));
                assert forall|k: int| 0 <= k < head.len() implies head[k] != '\n' by {
                    assert(head[k] == s[k]);
                }
                let lines = spec_split_lines(s);
                let tail = spec_split_lines(s.subrange(j + 1, s.len() as int));
                assert forall|i: int, k: int|
                    0 <= i < lines.len() && 0 <= k < lines[i].len() implies #[trigger] lines[i][k]
                    != '\n' by {
                    if i == 0 {
                        assert(lines[0] == head);
                    } else {
                        assert(lines[i] == tail[i - 1]);
                    }
                }
            },
        }
    }
}

/// Taking `n` lines that hold no line break yields at most `n` line breaks.
proof fn lemma_take_n_count(lines: Seq<Seq<char>>, n: nat)
    requires
        forall|i: int, k: int|
            0 <= i < lines.len() && 0 <= k < lines[i].len() ==> #[trigger] lines[i][k] != '\n',
    ensures
        count_char(take_n_lines(lines, n), '\n') <= n,
    decreases lines.len(),
{
    reveal_strlit("\r\n");
    if lines.len() > 0 && n > 0 {
        let rest = lines.drop_first();
        assert forall|i: int, k: int|
            0 <= i < rest.len() && 0 <= k < rest[i].len() implies #[trigger] rest[i][k]
            != '\n' by {
            assert(rest[i] == lines[i + 1]);
        }
        lemma_take_n_count(rest, (n - 1) as nat);
        lemma_count_zero(lines[0], '\n');
        let crlf = "\r\n"@;
        assert(crlf.len() == 2 && crlf[0] == '\r' && crlf[1] == '\n');
        assert(crlf.drop_first() =~= seq!['\n']);
        assert(count_char(seq!['\n'], '\n') == 1 + count_char(seq!['\n'].drop_first(), '\n'));
        assert(seq!['\n'].drop_first() =~= Seq::<char>::empty());
        assert(count_char(Seq::<char>::empty(), '\n') == 0);
        assert(count_char(crlf, '\n') == 1);
        lemma_count_concat(lines[0], crlf, '\n');
        lemma_count_concat(lines[0] + crlf, take_n_lines(rest, (n - 1) as nat), '\n');
    }
}

/// Law: `TOP` sends the header block — every line through the first blank
/// one, which is what a body budget of zero gives — plus at most `n` body
/// lines, never more, however long the body is.
pub proof fn lemma_top_body_bound(m: Seq<char>, n: nat)
    ensures
        spec_top(m, n) == spec_top(m, 0) + take_n_lines(
            drop_until_blank(spec_split_lines(m)),
            n,
        ),
        count_char(take_n_lines(drop_until_blank(spec_split_lines(m)), n), '\n') <= n,
{
    let lines = spec_split_lines(m);
    lemma_top_decompose(lines, n);
    lemma_split_lines_no_newline(m);
    let body = drop_until_blank(lines);
    assert forall|i: int, k: int|
        0 <= i < body.len() && 0 <= k < body[i].len() implies #[trigger] body[i][k] != '\n' by {
        lemma_dub_element(lines, i);
        let j = choose|j: int| 0 <= j < lines.len() && lines[j] == body[i];
        assert(lines[j][k] != '\n');
    }
    lemma_take_n_count(body, n);
}

/// Every line after the blank separator is one of the original lines.
proof fn lemma_dub_element(lines: Seq<Seq<char>>, i: int)
    requires
        0 <= i < drop_until_blank(lines).len(),
    ensures
        exists|j: int| 0 <= j < lines.len() && lines[j] == drop_until_blank(lines)[i],
    decreases lines.len(),
{
    if lines.len() > 0 {
        if lines[0].len() == 0 {
            assert(drop_until_blank(lines)[i] == lines[i + 1]);
        } else {
            lemma_dub_element(lines.drop_first(), i);
            let j = choose|j: int|
                0 <= j < lines.drop_first().len() && lines.drop_first()[j] == drop_until_blank(
                    lines.drop_first(),
                )[i];
            assert(lines[j + 1] == drop_until_blank(lines)[i]);
        }
    }
}

} // verus!



