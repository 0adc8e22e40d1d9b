use squads_cli::text::{html_escape, strip_html, truncate};

#[test]
fn truncate_short_text_unchanged() {
    assert_eq!(truncate("hello", 5), "hello");
    assert_eq!(truncate("", 0), "");
}

#[test]
fn truncate_long_text() {
    assert_eq!(truncate("hello world", 8), "hello...");
    assert_eq!(truncate("héllo wörld", 6), "hél...");
    assert_eq!(truncate("abcdef", 2), "...");
}

#[test]
fn html_escape_all_specials() {
    assert_eq!(html_escape("a<b>&\"c'"), "a&lt;b&gt;&amp;&quot;c&#39;");
    assert_eq!(html_escape("plain"), "plain");
}

#[test]
fn strip_html_plain_text() {
    assert_eq!(strip_html("<p>Hello&nbsp;<b>world</b></p>"), "Hello world");
    assert_eq!(strip_html("a\n\nb  c\r\n"), "a b c");
    assert_eq!(strip_html("&lt;tag&gt; &amp;amp; &quot;x&quot; &#39;y&#39;"), "<tag> &amp; \"x\" 'y'");
    assert_eq!(strip_html("Done\\! Really\\? Yes\\."), "Done! Really? Yes.");
    assert_eq!(strip_html("   "), "");
    assert_eq!(strip_html("<div\nclass=\"x\">in</div>"), "in");
}
