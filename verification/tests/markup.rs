use hostlink::markup::{
    clean_html, clean_html_chat_trusted, clean_html_document, html_attribute_filter,
    keep_url_with_host, url_sanitizer, CHAT_SPAN_CLASSES, CHAT_TAGS,
};

#[test]
fn link_target_with_a_host_is_kept() {
    assert_eq!(
        url_sanitizer("https://example.com/page?q=1"),
        Some("https://example.com/page?q=1".to_string())
    );
    assert_eq!(url_sanitizer("http://127.0.0.1:8080/"), Some("http://127.0.0.1:8080/".to_string()));
    assert_eq!(url_sanitizer("ftp://user@example.org"), Some("ftp://user@example.org".to_string()));
}

#[test]
fn link_target_without_a_host_is_dropped() {
    assert_eq!(url_sanitizer("javascript:alert(1)"), None);
    assert_eq!(url_sanitizer("mailto:someone@example.com"), None);
    assert_eq!(url_sanitizer("data:text/plain,Stuff"), None);
    assert_eq!(url_sanitizer("unix:/run/foo.socket"), None);
}

#[test]
fn link_target_that_is_no_absolute_url_is_dropped() {
    assert_eq!(url_sanitizer(""), None);
    assert_eq!(url_sanitizer("/relative/path"), None);
    assert_eq!(url_sanitizer("page.html"), None);
    assert_eq!(url_sanitizer("//example.com/x"), None);
    assert_eq!(url_sanitizer("https://"), None);
}

#[test]
fn decision_on_a_known_host() {
    assert_eq!(keep_url_with_host("any text", Some("example.com")), Some("any text".to_string()));
    assert_eq!(keep_url_with_host("any text", Some("")), None);
    assert_eq!(keep_url_with_host("any text", None), None);
}

#[test]
fn filter_sanitises_only_link_targets() {
    assert_eq!(
        html_attribute_filter("a", "href", "https://example.com/"),
        Some("https://example.com/".to_string())
    );
    assert_eq!(html_attribute_filter("a", "href", "javascript:alert(1)"), None);
    assert_eq!(html_attribute_filter("a", "href", "relative"), None);
    assert_eq!(
        html_attribute_filter("a", "title", "javascript:alert(1)"),
        Some("javascript:alert(1)".to_string())
    );
    assert_eq!(html_attribute_filter("img", "href", "relative"), Some("relative".to_string()));
    assert_eq!(html_attribute_filter("A", "href", "relative"), Some("relative".to_string()));
    assert_eq!(html_attribute_filter("a", "HREF", "relative"), Some("relative".to_string()));
    assert_eq!(html_attribute_filter("", "", ""), Some(String::new()));
}

#[test]
fn default_policy_removes_scripts() {
    assert_eq!(clean_html("<b>bold</b><script>alert(1)</script>"), "<b>bold</b>");
    assert_eq!(clean_html("<p onclick=\"x()\">text</p>"), "<p>text</p>");
    assert_eq!(clean_html("plain text"), "plain text");
    assert_eq!(clean_html(""), "");
}

#[test]
fn default_policy_marks_links() {
    assert_eq!(
        clean_html("<a href=\"https://example.com/\">link</a>"),
        "<a href=\"https://example.com/\" rel=\"noopener noreferrer\">link</a>"
    );
    assert_eq!(
        clean_html("<a href=\"/relative\">link</a>"),
        "<a href=\"/relative\" rel=\"noopener noreferrer\">link</a>"
    );
}

#[test]
fn document_policy_drops_link_targets_without_host() {
    assert_eq!(
        clean_html_document("<a href=\"https://example.com/\">link</a>"),
        "<a href=\"https://example.com/\" rel=\"noopener noreferrer\">link</a>"
    );
    assert_eq!(
        clean_html_document("<a href=\"/relative\">link</a>"),
        "<a rel=\"noopener noreferrer\">link</a>"
    );
    assert_eq!(
        clean_html_document("<a href=\"mailto:a@example.com\" title=\"t\">link</a>"),
        "<a rel=\"noopener noreferrer\" title=\"t\">link</a>"
    );
    assert_eq!(clean_html_document("<b>bold</b><script>alert(1)</script>"), "<b>bold</b>");
}

#[test]
fn chat_policy_keeps_listed_elements_only() {
    assert_eq!(clean_html_chat_trusted("<b>bold</b> <em>em</em>"), "<b>bold</b> <em>em</em>");
    assert_eq!(clean_html_chat_trusted("<p>para</p>"), "para");
    assert_eq!(clean_html_chat_trusted("<img src=\"x.png\">text"), "text");
    assert_eq!(clean_html_chat_trusted("<script>alert(1)</script>ok"), "ok");
}

#[test]
fn chat_policy_filters_classes_on_span() {
    assert_eq!(
        clean_html_chat_trusted("<span class=\"admin evil\">x</span>"),
        "<span class=\"admin\">x</span>"
    );
    assert_eq!(
        clean_html_chat_trusted("<span class=\"ooc say\">x</span>"),
        "<span class=\"ooc say\">x</span>"
    );
    assert_eq!(clean_html_chat_trusted("<div class=\"admin\">x</div>"), "<div>x</div>");
}

#[test]
fn chat_policy_keeps_style_and_link_targets() {
    assert_eq!(
        clean_html_chat_trusted("<span style=\"color: red\" title=\"t\">x</span>"),
        "<span style=\"color: red\">x</span>"
    );
    assert_eq!(
        clean_html_chat_trusted("<a href=\"https://example.com/\" hreflang=\"en\">l</a>"),
        "<a href=\"https://example.com/\" rel=\"noopener noreferrer\">l</a>"
    );
}

#[test]
fn chat_tables_have_their_entries() {
    assert_eq!(CHAT_TAGS.len(), 21);
    assert!(CHAT_TAGS.contains(&"span"));
    assert!(!CHAT_TAGS.contains(&"script"));
    assert!(!CHAT_TAGS.contains(&"style"));
    assert_eq!(CHAT_SPAN_CLASSES.len(), 71);
    assert_eq!(CHAT_SPAN_CLASSES[0], "admin");
    assert_eq!(CHAT_SPAN_CLASSES[70], "yassa");
}
