use mop3::links::apply_proxy_to_links;
use mop3::text::html_to_text;

#[test]
fn test_html_to_text() {
    let html = "<p>Hello <b>world</b>!</p>";
    let text = html_to_text(html);
    assert!(text.contains("Hello"));
    assert!(text.contains("world"));
    assert!(!text.contains("<"));
    assert!(!text.contains(">"));
}

#[test]
fn test_html_entities() {
    let html = "&lt;test&gt; &amp; &quot;quotes&quot;";
    let text = html_to_text(html);
    assert_eq!(text, "<test> & \"quotes\"");
}

#[test]
fn test_apply_proxy_to_links() {
    let content = "Check this: https://example.com/path";
    let proxy = "http://proxy.com/?url=";
    let result = apply_proxy_to_links(content, proxy);
    assert!(result.contains("http://proxy.com/?url=https://example.com/path"));
}

#[test]
fn html_to_text_exact_value() {
    assert_eq!(html_to_text("<p>Hello <b>world</b>!</p>"), "Hello world!");
}

#[test]
fn html_to_text_breaks_become_newlines() {
    assert_eq!(html_to_text("a<br>b<br/>c<br />d"), "a\nb\nc\nd");
}

#[test]
fn html_to_text_collapses_blank_runs() {
    assert_eq!(html_to_text("a\n\n\n\n\nb"), "a\n\nb");
}

#[test]
fn html_to_text_trims_line_ends_and_edges() {
    assert_eq!(html_to_text("  a  \nb\t\n"), "a\nb");
}

#[test]
fn html_to_text_unclosed_tag_is_kept() {
    assert_eq!(html_to_text("a <b unfinished"), "a <b unfinished");
}

#[test]
fn html_to_text_nbsp_and_apostrophes() {
    assert_eq!(html_to_text("a&nbsp;b &apos;c&#39;"), "a b 'c'");
}

#[test]
fn stripping_plain_text_is_a_no_op() {
    let plain = "already plain text.\nsecond line";
    assert_eq!(html_to_text(plain), plain);
}

#[test]
fn stripping_twice_is_idempotent_on_stripped_output() {
    let once = html_to_text("<p>Hello <b>world</b>!</p>");
    assert_eq!(html_to_text(&once), once);
}

#[test]
fn proxy_rewrites_exact_value() {
    let result = apply_proxy_to_links(
        "Check this: https://example.com/path",
        "http://proxy.com/?url=",
    );
    assert_eq!(result, "Check this: http://proxy.com/?url=https://example.com/path");
    assert!(!result.contains(" https://example.com/path"));
}

#[test]
fn proxy_rewrites_http_too_and_stops_at_bracket() {
    let result = apply_proxy_to_links("see [http://a.example/x] now", "P/");
    assert_eq!(result, "see [P/http://a.example/x] now");
}

#[test]
fn proxy_leaves_bare_scheme_alone() {
    assert_eq!(apply_proxy_to_links("go https:// now", "P/"), "go https:// now");
}

#[test]
fn proxy_rewrites_several_links() {
    let result = apply_proxy_to_links("a http://x.example b http://y.example", "P:");
    assert_eq!(result, "a P:http://x.example b P:http://y.example");
}
