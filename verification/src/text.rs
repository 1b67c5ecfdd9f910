use vstd::prelude::*;

use vstd::string::StrSliceExecFns;
use vstd::string::StringExecFns;

use crate::strutil::{
    find_char, find_char_in, has_prefix_at, is_space, is_space_char, lemma_find_char, skip_spaces,
};

verus! {

/// Every non-overlapping occurrence of `p` in `s`, scanned left to right,
/// replaced by `r`.  With an empty pattern nothing is replaced.
pub open spec fn spec_replace_all(s: Seq<char>, p: Seq<char>, r: Seq<char>) -> Seq<char>
    decreases s.len(),
{
    if p.len() == 0 || s.len() < p.len() {
        s
    } else if s.subrange(0, p.len() as int) == p {
        r + spec_replace_all(s.subrange(p.len() as int, s.len() as int), p, r)
    } else {
        seq![s[0]] + spec_replace_all(s.drop_first(), p, r)
    }
}

/// Replaces every non-overlapping occurrence of `p` in `s` by `rep`.
pub fn replace_all(s: &str, p: &str, rep: &str) -> (out: String)
    ensures
        out@ == spec_replace_all(s@, p@, rep@),
    decreases s@.len(),
{
    let n = s.unicode_len();
    let m = p.unicode_len();
    if m == 0 || n < m {
        return s.to_owned();
    }
    if has_prefix_at(s, 0, p) {
        let rest = s.substring_char(m, n);
        let tail = replace_all(rest, p, rep);
        let mut out = rep.to_owned();
        out.append(tail.as_str());
        out
    } else {
        let first = s.substring_char(0, 1);
        let rest = s.substring_char(1, n);
        let tail = replace_all(rest, p, rep);
        let mut out = first.to_owned();
        out.append(tail.as_str());
        proof {
            assert(s@.drop_first() =~= s@.subrange(1, s@.len() as int));
            assert(seq![s@[0]] =~= s@.subrange(0, 1));
        }
        out
    }
}

/// `s` with every maximal `<`…`>` group removed: a group starts at a `<` and
/// ends at the first `>` after it.  A `<` with no later `>` is kept, with
/// everything after it.
pub open spec fn spec_strip_tags(s: Seq<char>) -> Seq<char>
    decreases s.len(),
    via spec_strip_tags_dec
{
    if s.len() == 0 {
        Seq::empty()
    } else if s[0] == '<' {
        match find_char(s.drop_first(), '>') {
            Some(j) => spec_strip_tags(s.subrange(j + 2, s.len() as int)),
            None => s,
        }
    } else {
        seq![s[0]] + spec_strip_tags(s.drop_first())
    }
}

#[via_fn]
proof fn spec_strip_tags_dec(s: Seq<char>) {
    if s.len() > 0 && s[0] == '<' {
        lemma_find_char(s.drop_first(), '>');
    }
}

/// Removes every `<`…`>` group from `s`.
pub fn strip_tags(s: &str) -> (out: String)
    ensures
        out@ == spec_strip_tags(s@),
    decreases s@.len(),
{
    let n = s.unicode_len();
    if n == 0 {
        return String::new();
    }
    proof {
        assert(s@.drop_first() =~= s@.subrange(1, s@.len() as int));
    }
    if s.get_char(0) == '<' {
        match find_char_in(s, 1, '>') {
            Some(j) => {
                proof {
                    assert(find_char(s@.drop_first(), '>') == Some(j - 1));
                }
                let rest = s.substring_char(j + 1, n);
                strip_tags(rest)
            },
            None => {
                proof {
                    assert(find_char(s@.drop_first(), '>') is None);
                }
                s.to_owned()
            },
        }
    } else {
        let first = s.substring_char(0, 1);
        let rest = s.substring_char(1, n);
        let tail = strip_tags(rest);
        let mut out = first.to_owned();
        out.append(tail.as_str());
        proof {
            assert(seq![s@[0]] =~= s@.subrange(0, 1));
        }
        out
    }
}

/// `s` with its trailing whitespace removed.
pub open spec fn spec_trim_end(s: Seq<char>) -> Seq<char>
    decreases s.len(),
{
    if s.len() > 0 && is_space(s.last()) {
        spec_trim_end(s.drop_last())
    } else {
        s
    }
}

/// A trailing run of spaces that starts after a non-space pins down
/// [`spec_trim_end`].
proof fn lemma_trim_end_at(s: Seq<char>, e: int)
    requires
        0 <= e <= s.len(),
        forall|j: int| e <= j < s.len() ==> is_space(s[j]),
        e == 0 || !is_space(s[e - 1]),
    ensures
        spec_trim_end(s) == s.subrange(0, e),
    decreases s.len(),
{
    if s.len() > e {
        lemma_trim_end_at(s.drop_last(), e);
    } else {
        assert(s.subrange(0, e) =~= s);
    }
}

/// Removes trailing whitespace.
pub fn trim_end_str(s: &str) -> (out: String)
    ensures
        out@ == spec_trim_end(s@),
{
    let n = s.unicode_len();
    let mut e: usize = n;
    while e > 0 && is_space_char(s.get_char(e - 1))
        invariant
            0 <= e <= n == s@.len(),
            forall|j: int| e <= j < s@.len() ==> is_space(s@[j]),
        decreases e,
    {
        e = e - 1;
    }
    proof {
        lemma_trim_end_at(s@, e as int);
    }
    s.substring_char(0, e).to_owned()
}

/// `s` with leading and trailing whitespace removed.
pub open spec fn spec_trim(s: Seq<char>) -> Seq<char> {
    spec_trim_end(skip_spaces(s))
}

/// Removes leading and trailing whitespace.
pub fn trim_str(s: &str) -> (out: String)
    ensures
        out@ == spec_trim(s@),
{
    let n = s.unicode_len();
    let mut a: usize = 0;
    while a < n && is_space_char(s.get_char(a))
        invariant
            0 <= a <= n == s@.len(),
            forall|j: int| 0 <= j < a ==> is_space(s@[j]),
        decreases n - a,
    {
        a = a + 1;
    }
    proof {
        crate::strutil::lemma_skip_spaces_at(s@, a as int);
    }
    trim_end_str(s.substring_char(a, n))
}

/// Each line of `s` with its trailing whitespace removed, the lines joined
/// back with `\n`; one final line break, if present, is dropped.
pub open spec fn spec_trim_line_ends(s: Seq<char>) -> Seq<char>
    decreases s.len(),
    via spec_trim_line_ends_dec
{
    match find_char(s, '\n') {
        None => spec_trim_end(s),
        Some(j) => if j == s.len() - 1 {
            spec_trim_end(s.subrange(0, j))
        } else {
            spec_trim_end(s.subrange(0, j)) + seq!['\n'] + spec_trim_line_ends(
                s.subrange(j + 1, s.len() as int),
            )
        },
    }
}

#[via_fn]
proof fn spec_trim_line_ends_dec(s: Seq<char>) {
    lemma_find_char(s, '\n');
}

/// Trims the end of every line of `s`.
pub fn trim_line_ends(s: &str) -> (out: String)
    ensures
        out@ == spec_trim_line_ends(s@),
    decreases s@.len(),
{
    let n = s.unicode_len();
    match find_char_in(s, 0, '\n') {
        None => {
            proof {
                assert(s@.subrange(0, s@.len() as int) =~= s@);
            }
            trim_end_str(s)
        },
        Some(j) => {
            proof {
                assert(s@.subrange(0, s@.len() as int) =~= s@);
            }
            let head = trim_end_str(s.substring_char(0, j));
            if j == n - 1 {
                head
            } else {
                let tail = trim_line_ends(s.substring_char(j + 1, n));
                let mut out = head;
                out.append("\n");
                out.append(tail.as_str());
                proof {
                    reveal_strlit("\n");
                    assert("\n"@ =~= seq!['\n']);
                }
                out
            }
        },
    }
}

/// `s` with every run of three or more `\n` shortened to two.  `run` is how
/// many consecutive `\n` were just emitted (saturated at two).
pub open spec fn spec_collapse_run(s: Seq<char>, run: nat) -> Seq<char>
    decreases s.len(),
{
    if s.len() == 0 {
        Seq::empty()
    } else if s[0] == '\n' {
        if run >= 2 {
            spec_collapse_run(s.drop_first(), run)
        } else {
            seq!['\n'] + spec_collapse_run(s.drop_first(), run + 1)
        }
    } else {
        seq![s[0]] + spec_collapse_run(s.drop_first(), 0)
    }
}

/// `s` with every run of three or more `\n` shortened to two.
pub open spec fn spec_collapse(s: Seq<char>) -> Seq<char> {
    spec_collapse_run(s, 0)
}

fn collapse_from(s: &str, run: u8) -> (out: String)
    requires
        run <= 2,
    ensures
        out@ == spec_collapse_run(s@, run as nat),
    decreases s@.len(),
{
    let n = s.unicode_len();
    if n == 0 {
        return String::new();
    }
    proof {
        assert(s@.drop_first() =~= s@.subrange(1, s@.len() as int));
        assert(seq![s@[0]] =~= s@.subrange(0, 1));
        reveal_strlit("\n");
        assert("\n"@ =~= seq!['\n']);
    }
    let rest = s.substring_char(1, n);
    if s.get_char(0) == '\n' {
        if run >= 2 {
            collapse_from(rest, run)
        } else {
            let tail = collapse_from(rest, run + 1);
            let mut out = "\n".to_owned();
            out.append(tail.as_str());
            out
        }
    } else {
        let tail = collapse_from(rest, 0);
        let mut out = s.substring_char(0, 1).to_owned();
        out.append(tail.as_str());
        out
    }
}

/// Shortens every run of three or more `\n` to two.
pub fn collapse_newlines(s: &str) -> (out: String)
    ensures
        out@ == spec_collapse(s@),
{
    collapse_from(s, 0)
}

/// The whole markup-stripping pipeline: break-like tags become line breaks,
/// remaining tags are removed, the standard entities are decoded, line
/// ends are trimmed, blank runs are collapsed, and the result is trimmed.
pub open spec fn spec_html_to_text(s: Seq<char>) -> Seq<char> {
    let a = spec_replace_all(s, "<br>"@, "\n"@);
    let b = spec_replace_all(a, "<br/>"@, "\n"@);
    let c = spec_replace_all(b, "<br />"@, "\n"@);
    let d = spec_replace_all(c, "</p>"@, "\n"@);
    let e = spec_replace_all(d, "</div>"@, "\n"@);
    let f = spec_replace_all(e, "</li>"@, "\n"@);
    let g = spec_strip_tags(f);
    let h1 = spec_replace_all(g, "&lt;"@, "<"@);
    let h2 = spec_replace_all(h1, "&gt;"@, ">"@);
    let h3 = spec_replace_all(h2, "&amp;"@, "&"@);
    let h4 = spec_replace_all(h3, "&quot;"@, "\""@);
    let h5 = spec_replace_all(h4, "&apos;"@, "'"@);
    let h6 = spec_replace_all(h5, "&#39;"@, "'"@);
    let h7 = spec_replace_all(h6, "&nbsp;"@, " "@);
    let t = spec_trim_line_ends(h7);
    let u = spec_collapse(t);
    spec_trim(u)
}

/// Converts an HTML fragment to plain text: maps `<br>`, `<br/>`, `<br />`,
/// `</p>`, `</div>` and `</li>` to line breaks, strips every remaining tag,
/// decodes the standard entities, trims line ends, collapses runs of
/// three or more line breaks to two, and trims the result.
pub fn html_to_text(html: &str) -> (out: String)
    ensures
        out@ == spec_html_to_text(html@),
{
    let a = replace_all(html, "<br>", "\n");
    let b = replace_all(a.as_str(), "<br/>", "\n");
    let c = replace_all(b.as_str(), "<br />", "\n");
    let d = replace_all(c.as_str(), "</p>", "\n");
    let e = replace_all(d.as_str(), "</div>", "\n");
    let f = replace_all(e.as_str(), "</li>", "\n");
    let g = strip_tags(f.as_str());
    let h1 = replace_all(g.as_str(), "&lt;", "<");
    let h2 = replace_all(h1.as_str(), "&gt;", ">");
    let h3 = replace_all(h2.as_str(), "&amp;", "&");
    let h4 = replace_all(h3.as_str(), "&quot;", "\"");
    let h5 = replace_all(h4.as_str(), "&apos;", "'");
    let h6 = replace_all(h5.as_str(), "&#39;", "'");
    let h7 = replace_all(h6.as_str(), "&nbsp;", " ");
    let t = trim_line_ends(h7.as_str());
    let u = collapse_newlines(t.as_str());
    trim_str(u.as_str())
}


/// Plain text, as the pipeline itself produces it: no markup or entity
/// starters, no trailing whitespace on any line, no run of three or more
/// line breaks, and no leading or trailing whitespace.
pub open spec fn is_plain_text(s: Seq<char>) -> bool {
    &&& forall|i: int| 0 <= i < s.len() ==> s[i] != '<' && s[i] != '&'
    &&& forall|i: int|
        0 <= i < s.len() && is_space(s[i]) && s[i] != '\n' ==> i + 1 < s.len() && s[i + 1] != '\n'
    &&& forall|i: int|
        0 <= i && i + 2 < s.len() ==> !(#[trigger] s[i] == '\n' && s[i + 1] == '\n' && s[i + 2]
            == '\n')
    &&& s.len() > 0 ==> !is_space(s[0]) && !is_space(s.last())
}

/// A pattern whose first character never occurs in `s` is never replaced.
proof fn lemma_replace_all_absent(s: Seq<char>, p: Seq<char>, r: Seq<char>)
    requires
        p.len() > 0,
        forall|i: int| 0 <= i < s.len() ==> s[i] != p[0],
    ensures
        spec_replace_all(s, p, r) == s,
    decreases s.len(),
{
    if p.len() <= s.len() {
        assert(s.subrange(0, p.len() as int)[0] == s[0]);
        assert(s.subrange(0, p.len() as int) != p);
        lemma_replace_all_absent(s.drop_first(), p, r);
        assert(seq![s[0]] + s.drop_first() =~= s);
    }
}

/// Without a `<` there is no tag to strip.
proof fn lemma_strip_tags_absent(s: Seq<char>)
    requires
        forall|i: int| 0 <= i < s.len() ==> s[i] != '<',
    ensures
        spec_strip_tags(s) == s,
    decreases s.len(),
{
    if s.len() == 0 {
        assert(spec_strip_tags(s) =~= s);
    } else {
        lemma_strip_tags_absent(s.drop_first());
        assert(seq![s[0]] + s.drop_first() =~= s);
    }
}

/// Lines that already carry no trailing whitespace are left alone.
proof fn lemma_trim_line_ends_id(s: Seq<char>)
    requires
        forall|i: int|
            0 <= i < s.len() && is_space(s[i]) && s[i] != '\n' ==> i + 1 < s.len() && s[i + 1]
                != '\n',
        s.len() > 0 ==> s.last() != '\n',
    ensures
        spec_trim_line_ends(s) == s,
    decreases s.len(),
{
    lemma_find_char(s, '\n');
    match find_char(s, '\n') {
        None => {
            if s.len() > 0 && is_space(s.last()) {
                assert(s.last() != '\n');
                assert(!(s.len() - 1 + 1 < s.len()));
            }
        },
        Some(j) => {
            assert(j < s.len() - 1);
            let head = s.subrange(0, j);
            if head.len() > 0 && is_space(head.last()) {
                assert(head.last() == s[j - 1]);
                assert(s[j - 1] != '\n');
                assert(s[j] != '\n');
            }
            let tail = s.subrange(j + 1, s.len() as int);
            assert forall|i: int|
                0 <= i < tail.len() && is_space(tail[i]) && tail[i] != '\n' implies i + 1
                < tail.len() && tail[i + 1] != '\n' by {
                assert(tail[i] == s[j + 1 + i]);
                assert(j + 1 + i + 1 < s.len() && s[j + 1 + i + 1] != '\n');
            }
            assert(tail.len() > 0 && tail.last() == s.last());
            lemma_trim_line_ends_id(tail);
            assert(head + seq!['\n'] + tail =~= s);
        },
    }
}

/// Whether `s` holds three consecutive line breaks anywhere.
pub open spec fn has_newline_triple(s: Seq<char>) -> bool {
    exists|i: int|
        0 <= i && i + 2 < s.len() && #[trigger] s[i] == '\n' && s[i + 1] == '\n' && s[i + 2] == '\n'
}

/// Text without a triple line break is left alone by the collapse pass.
proof fn lemma_collapse_id(s: Seq<char>, run: nat)
    requires
        !has_newline_triple(s),
        run <= 2,
        run == 1 ==> !(s.len() >= 2 && s[0] == '\n' && s[1] == '\n'),
        run == 2 ==> !(s.len() >= 1 && s[0] == '\n'),
    ensures
        spec_collapse_run(s, run) == s,
    decreases s.len(),
{
    if s.len() == 0 {
        assert(spec_collapse_run(s, run) =~= s);
    } else {
        let t = s.drop_first();
        assert forall|i: int|
            !(0 <= i && i + 2 < t.len() && #[trigger] t[i] == '\n' && t[i + 1] == '\n' && t[i + 2]
                == '\n') by {
            if 0 <= i && i + 2 < t.len() {
                assert(t[i] == s[i + 1] && t[i + 1] == s[i + 2] && t[i + 2] == s[i + 3]);
                assert(!(s[i + 1] == '\n' && s[i + 2] == '\n' && s[i + 3] == '\n'));
            }
        }
        if s[0] == '\n' {
            assert(run <= 1);
            if run == 0 {
                if t.len() >= 2 && t[0] == '\n' && t[1] == '\n' {
                    assert(s[0] == '\n' && s[1] == '\n' && s[2] == '\n');
                    assert(has_newline_triple(s));
                }
                lemma_collapse_id(t, 1);
            } else {
                if t.len() >= 1 && t[0] == '\n' {
                    assert(s.len() >= 2 && s[0] == '\n' && s[1] == '\n');
                }
                lemma_collapse_id(t, 2);
            }
        } else {
            lemma_collapse_id(t, 0);
        }
        assert(seq![s[0]] + t =~= s);
    }
}

/// Law: converting text that is already plain changes nothing; in
/// particular the pipeline is idempotent wherever its output is plain.
pub proof fn lemma_html_to_text_plain_identity(s: Seq<char>)
    requires
        is_plain_text(s),
    ensures
        spec_html_to_text(s) == s,
{
    reveal_strlit("<br>");
    reveal_strlit("<br/>");
    reveal_strlit("<br />");
    reveal_strlit("</p>");
    reveal_strlit("</div>");
    reveal_strlit("</li>");
    reveal_strlit("&lt;");
    reveal_strlit("&gt;");
    reveal_strlit("&amp;");
    reveal_strlit("&quot;");
    reveal_strlit("&apos;");
    reveal_strlit("&#39;");
    reveal_strlit("&nbsp;");
    lemma_replace_all_absent(s, "<br>"@, "\n"@);
    lemma_replace_all_absent(s, "<br/>"@, "\n"@);
    lemma_replace_all_absent(s, "<br />"@, "\n"@);
    lemma_replace_all_absent(s, "</p>"@, "\n"@);
    lemma_replace_all_absent(s, "</div>"@, "\n"@);
    lemma_replace_all_absent(s, "</li>"@, "\n"@);
    lemma_strip_tags_absent(s);
    lemma_replace_all_absent(s, "&lt;"@, "<"@);
    lemma_replace_all_absent(s, "&gt;"@, ">"@);
    lemma_replace_all_absent(s, "&amp;"@, "&"@);
    lemma_replace_all_absent(s, "&quot;"@, "\""@);
    lemma_replace_all_absent(s, "&apos;"@, "'"@);
    lemma_replace_all_absent(s, "&#39;"@, "'"@);
    lemma_replace_all_absent(s, "&nbsp;"@, " "@);
    lemma_trim_line_ends_id(s);
    lemma_collapse_id(s, 0);
    assert(skip_spaces(s) == s);
    assert(spec_trim_end(s) == s);
}

} // verus!

