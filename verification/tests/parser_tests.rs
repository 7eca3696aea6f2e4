//! Parser behavior: the emptiness failure, doctype skipping, tag
//! extraction with fallbacks, and title extraction.

use essentia_browser::{BrowserError, Element, HtmlParser};

#[test]
fn test_parse_empty_fails() {
    for url in ["", "https://example.com", "about:blank"] {
        let r = HtmlParser::parse("", url);
        assert!(r.is_err());
        match r {
            Err(BrowserError::Parse(m)) => assert_eq!(m.as_str(), "Empty HTML"),
            _ => panic!("expected a parse error"),
        }
    }
}

#[test]
fn test_parse_nonempty_succeeds() {
    for html in ["<html></html>", "x", " ", "<", ">", "<!doctype html>"] {
        assert!(HtmlParser::parse(html, "u").is_ok());
    }
}

#[test]
fn test_parse_root_tag() {
    let doc = HtmlParser::parse("<html><body></body></html>", "u").unwrap();
    assert_eq!(doc.root.tag.as_str(), "html");
    assert!(doc.root.attributes.is_empty());
    assert!(doc.root.children.is_empty());
    assert!(doc.root.text_content.is_none());
    assert_eq!(doc.url.as_str(), "u");
}

#[test]
fn test_doctype_transparent() {
    let with_doctype = HtmlParser::parse("<!DOCTYPE html><html></html>", "u").unwrap();
    let without = HtmlParser::parse("<html></html>", "u").unwrap();
    assert_eq!(with_doctype.root.tag.as_str(), "html");
    assert_eq!(without.root.tag.as_str(), "html");
    assert_eq!(with_doctype.root.tag, without.root.tag);
}

#[test]
fn test_doctype_casing() {
    for html in [
        "<!doctype html><p></p>",
        "<!DOCTYPE html><p></p>",
        "<!DocType html><p></p>",
    ] {
        let doc = HtmlParser::parse(html, "u").unwrap();
        assert_eq!(doc.root.tag.as_str(), "p");
    }
}

#[test]
fn test_doctype_without_close() {
    // The doctype never closes, so skipping is abandoned; the scan then
    // finds `<` but no `>` and falls back to a div root.
    let doc = HtmlParser::parse("<!doctype html", "u").unwrap();
    assert_eq!(doc.root.tag.as_str(), "div");
}

#[test]
fn test_fallback_when_no_brackets() {
    let doc = HtmlParser::parse("plain text only", "u").unwrap();
    assert_eq!(doc.root.tag.as_str(), "div");
}

#[test]
fn test_fallback_when_unclosed_tag() {
    let doc = HtmlParser::parse("<div", "u").unwrap();
    assert_eq!(doc.root.tag.as_str(), "div");
    let doc2 = HtmlParser::parse("<span", "u").unwrap();
    assert_eq!(doc2.root.tag.as_str(), "div");
}

#[test]
fn test_empty_tag_header() {
    let doc = HtmlParser::parse("<>", "u").unwrap();
    assert_eq!(doc.root.tag.as_str(), "div");
    let doc2 = HtmlParser::parse("<   >", "u").unwrap();
    assert_eq!(doc2.root.tag.as_str(), "div");
}

#[test]
fn test_tag_name_stops_at_whitespace() {
    let doc = HtmlParser::parse("<p class=\"intro\" id=\"x\">", "u").unwrap();
    assert_eq!(doc.root.tag.as_str(), "p");
}

#[test]
fn test_surrounding_whitespace_is_trimmed() {
    let doc = HtmlParser::parse("  \n\t <span>hello</span>  \r\n", "u").unwrap();
    assert_eq!(doc.root.tag.as_str(), "span");
}

#[test]
fn test_title_of_parsed_title_root() {
    // A root tagged `title` with no text yields the empty title.
    let doc = HtmlParser::parse("<title>", "u").unwrap();
    assert_eq!(doc.title.as_str(), "");
    // Any other root yields the fallback title.
    let doc2 = HtmlParser::parse("<html>", "u").unwrap();
    assert_eq!(doc2.title.as_str(), "Untitled");
}

#[test]
fn test_extract_title_at_depth() {
    let title = Element::new("title").with_text("Hello");
    let head = Element::new("head").with_child(title);
    let body = Element::new("body");
    let root = Element::new("html").with_child(head).with_child(body);
    assert_eq!(HtmlParser::extract_title(&root).as_str(), "Hello");
}

#[test]
fn test_extract_title_missing() {
    let root = Element::new("html")
        .with_child(Element::new("head"))
        .with_child(Element::new("body").with_child(Element::new("p")));
    assert_eq!(HtmlParser::extract_title(&root).as_str(), "Untitled");
}

#[test]
fn test_extract_title_first_in_preorder_wins() {
    let first = Element::new("title").with_text("First");
    let second = Element::new("title").with_text("Second");
    let root = Element::new("html")
        .with_child(Element::new("head").with_child(first))
        .with_child(Element::new("body").with_child(second));
    assert_eq!(HtmlParser::extract_title(&root).as_str(), "First");
}

#[test]
fn test_extract_title_empty_text() {
    // A `title` element without text content yields the empty string, not
    // the fallback.
    let root = Element::new("html").with_child(Element::new("title"));
    assert_eq!(HtmlParser::extract_title(&root).as_str(), "");
}
