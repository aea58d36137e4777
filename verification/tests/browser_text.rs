use umbra::browser::{
    count_words, extract_text, extract_title, random_user_agent, search_url, summarize_page,
    take_chars, urlencoding, user_agent,
};

#[test]
fn title_between_first_tags() {
    assert_eq!(extract_title("<html><title>Hello World</title></html>"), "Hello World");
    assert_eq!(extract_title("<title>A</title><title>B</title>"), "A");
}

#[test]
fn title_missing_parts_give_empty() {
    assert_eq!(extract_title("<html>no title</html>"), "");
    assert_eq!(extract_title("<title>unterminated"), "");
    assert_eq!(extract_title("</title><title>x"), "");
    assert_eq!(extract_title(""), "");
}

#[test]
fn title_is_case_sensitive() {
    assert_eq!(extract_title("<TITLE>Upper</TITLE>"), "");
}

#[test]
fn text_drops_tags_and_collapses_space() {
    let html = "<html><body><h1>Hi</h1>\n\n  <p>there   world</p></body></html>";
    assert_eq!(extract_text(html, "text/html"), "Hi there world");
}

#[test]
fn text_skips_scripts_and_styles_in_any_case() {
    let html = "<p>a</p><SCRIPT>var x = 1 < 2;</Script><style>p{}</STYLE> b";
    assert_eq!(extract_text(html, "text/html"), "a b");
}

#[test]
fn text_trims_and_handles_unicode_space() {
    assert_eq!(extract_text("  \u{3000}x\u{00A0}\u{00A0}y\t ", ""), "x y");
    assert_eq!(extract_text("   ", ""), "");
    assert_eq!(extract_text("", ""), "");
}

#[test]
fn text_inside_unclosed_script_is_dropped() {
    assert_eq!(extract_text("before<script>never closed", ""), "before");
}

#[test]
fn urlencoding_keeps_unreserved_and_escapes_the_rest() {
    assert_eq!(urlencoding("abc-XYZ_0.9~"), "abc-XYZ_0.9~");
    assert_eq!(urlencoding("a b"), "a%20b");
    assert_eq!(urlencoding("a&b=c/d"), "a%26b%3Dc%2Fd");
    assert_eq!(urlencoding("é"), "%C3%A9");
    assert_eq!(urlencoding(""), "");
}

#[test]
fn search_url_encodes_the_query() {
    assert_eq!(search_url("rust verus"), "https://html.duckduckgo.com/html/?q=rust%20verus");
}

#[test]
fn user_agents_are_the_three_browsers() {
    assert!(user_agent(0).contains("Macintosh"));
    assert!(user_agent(1).contains("Windows NT 10.0"));
    assert!(user_agent(2).contains("X11; Linux"));
    let ua = random_user_agent();
    assert!(ua == user_agent(0) || ua == user_agent(1) || ua == user_agent(2));
}

#[test]
fn words_are_counted_like_split_whitespace() {
    assert_eq!(count_words("one two  three"), 3);
    assert_eq!(count_words("  "), 0);
    assert_eq!(count_words("a\u{2003}b"), 2);
}

#[test]
fn take_chars_counts_characters() {
    assert_eq!(take_chars("héllo", 2), "hé");
    assert_eq!(take_chars("hi", 10), "hi");
}

#[test]
fn page_summary_reports_title_text_words_and_preview() {
    let body = "<title>T</title><p>one two</p>";
    let s = summarize_page(body, "text/html", true);
    assert_eq!(s.title, "T");
    assert_eq!(s.text_content, "Tone two");
    assert_eq!(s.word_count, 2);
    assert_eq!(s.body_preview, body);
    let s2 = summarize_page(body, "text/html", false);
    assert_eq!(s2.text_content, "");
    assert_eq!(s2.word_count, 0);
    let long: String = std::iter::repeat('x').take(600).collect();
    assert_eq!(summarize_page(&long, "", false).body_preview.chars().count(), 500);
}
