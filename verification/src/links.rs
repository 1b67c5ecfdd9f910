use vstd::prelude::*;

use vstd::string::StrSliceExecFns;
use vstd::string::StringExecFns;

use crate::strutil::{has_prefix_at, prefix_at};

verus! {

/// Characters a link may run over: everything except whitespace, `]`, `<`
/// and `>`.
pub open spec fn is_url_char(c: char) -> bool {
    !(c == ' ' || c == '\t' || c == '\n' || c == '\r' || c == '\u{b}' || c == '\u{c}' || c == ']'
        || c == '<' || c == '>')
}

/// Executable twin of [`is_url_char`].
pub fn is_url_char_exec(c: char) -> (b: bool)
    ensures
        b == is_url_char(c),
{
    !(c == ' ' || c == '\t' || c == '\n' || c == '\r' || c == '\u{b}' || c == '\u{c}' || c == ']'
        || c == '<' || c == '>')
}

/// Length of the leading run of link characters of `s`.
pub open spec fn url_run_end(s: Seq<char>) -> int
    decreases s.len(),
{
    if s.len() > 0 && is_url_char(s[0]) {
        1 + url_run_end(s.drop_first())
    } else {
        0
    }
}

/// The run never passes the end of the string.
proof fn lemma_url_run_bound(s: Seq<char>)
    ensures
        0 <= url_run_end(s) <= s.len(),
    decreases s.len(),
{
    if s.len() > 0 && is_url_char(s[0]) {
        lemma_url_run_bound(s.drop_first());
    }
}

/// A run of link characters that ends at a non-link character pins down
/// [`url_run_end`].
proof fn lemma_url_run_at(s: Seq<char>, e: int)
    requires
        0 <= e <= s.len(),
        forall|j: int| 0 <= j < e ==> is_url_char(s[j]),
        e == s.len() || !is_url_char(s[e]),
    ensures
        url_run_end(s) == e,
    decreases s.len(),
{
    if e > 0 {
        lemma_url_run_at(s.drop_first(), e - 1);
    }
}

/// The length of the scheme prefix a link starts with here, if any.
pub open spec fn url_prefix_len(s: Seq<char>) -> int {
    if prefix_at(s, 0, "https://"@) {
        8
    } else if prefix_at(s, 0, "http://"@) {
        7
    } else {
        0
    }
}

/// `proxy` prepended to every `http://` or `https://` link of `s`.  A link
/// starts at a scheme prefix, must have at least one character after the
/// prefix, and runs to the next whitespace, `]`, `<` or `>`.
pub open spec fn spec_proxy_links(s: Seq<char>, proxy: Seq<char>) -> Seq<char>
    decreases s.len(),
    via spec_proxy_links_dec
{
    if s.len() == 0 {
        Seq::empty()
    } else if url_prefix_len(s) > 0 && url_run_end(s) > url_prefix_len(s) {
        proxy + s.subrange(0, url_run_end(s)) + spec_proxy_links(
            s.subrange(url_run_end(s), s.len() as int),
            proxy,
        )
    } else {
        seq![s[0]] + spec_proxy_links(s.drop_first(), proxy)
    }
}

#[via_fn]
proof fn spec_proxy_links_dec(s: Seq<char>, proxy: Seq<char>) {
    lemma_url_run_bound(s);
}

fn url_run_end_exec(s: &str) -> (e: usize)
    ensures
        e == url_run_end(s@),
{
    let n = s.unicode_len();
    let mut i: usize = 0;
    while i < n && is_url_char_exec(s.get_char(i))
        invariant
            0 <= i <= n == s@.len(),
            forall|j: int| 0 <= j < i ==> is_url_char(s@[j]),
        decreases n - i,
    {
        i = i + 1;
    }
    proof {
        lemma_url_run_at(s@, i as int);
    }
    i
}

/// Prepends `proxy` to every `http(s)://` link in `content`.
pub fn apply_proxy_to_links(content: &str, proxy: &str) -> (out: String)
    ensures
        out@ == spec_proxy_links(content@, proxy@),
    decreases content@.len(),
{
    let n = content.unicode_len();
    if n == 0 {
        return String::new();
    }
    let pl: usize = if has_prefix_at(content, 0, "https://") {
        8
    } else if has_prefix_at(content, 0, "http://") {
        7
    } else {
        0
    };
    let e = url_run_end_exec(content);
    proof {
        lemma_url_run_bound(content@);
    }
    if pl > 0 && e > pl {
        let url = content.substring_char(0, e);
        let rest = content.substring_char(e, n);
        let tail = apply_proxy_to_links(rest, proxy);
        let mut out = proxy.to_owned();
        out.append(url);
        out.append(tail.as_str());
        out
    } else {
        let first = content.substring_char(0, 1);
        let rest = content.substring_char(1, n);
        let tail = apply_proxy_to_links(rest, proxy);
        let mut out = first.to_owned();
        out.append(tail.as_str());
        proof {
            assert(content@.drop_first() =~= content@.subrange(1, content@.len() as int));
            assert(seq![content@[0]] =~= content@.subrange(0, 1));
        }
        out
    }
}

} // verus!
