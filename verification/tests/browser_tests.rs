use lucastra::browser::{Browser, HtmlParser, HttpClient, Tab};

#[test]
fn test_html_parser_extract_title() {
    let html = "<html><head><title>My Page</title></head></html>";
    let content = HtmlParser::parse(html);
    assert_eq!(content.title, "My Page");
}

#[test]
fn test_html_parser_extract_text() {
    let html = "<html><body><p>Hello World</p></body></html>";
    let content = HtmlParser::parse(html);
    assert!(content.text.contains("Hello"));
    assert!(content.text.contains("World"));
}

#[test]
fn test_html_parser_extract_links() {
    let html = r#"<a href="https://example.com">Example</a><a href="/page">Page</a>"#;
    let content = HtmlParser::parse(html);
    assert_eq!(content.links.len(), 2);
    assert_eq!(content.links[0].text, "Example");
    assert_eq!(content.links[0].href, "https://example.com");
}

#[test]
fn test_html_parser_extract_images() {
    let html = r#"<img src="image1.png"><img src="image2.jpg">"#;
    let content = HtmlParser::parse(html);
    assert_eq!(content.images.len(), 2);
    assert_eq!(content.images[0], "image1.png");
}

#[test]
fn test_browser_tabs() {
    let mut browser = Browser::new();
    assert_eq!(browser.tabs.len(), 1);

    browser.new_tab("https://example.com".to_string());
    assert_eq!(browser.tabs.len(), 2);
    assert_eq!(browser.active_tab, 1);

    browser.switch_tab(0);
    assert_eq!(browser.active_tab, 0);

    browser.close_tab();
    assert_eq!(browser.tabs.len(), 1);
}

#[test]
fn test_browser_bookmarks() {
    let mut browser = Browser::new();
    let tab = Tab::new("https://example.com".to_string());
    browser.tabs[0] = tab;

    browser.bookmark();
    assert!(browser.bookmarks.contains(&"https://example.com".to_string()));
}

#[test]
fn test_http_client_url_validation() {
    let client = HttpClient::new();
    let result = client.validate_url("invalid-url");
    assert!(result.is_err());
}

#[test]
fn test_tab_load_and_back() {
    let mut tab = Tab::new("about:blank".to_string());
    tab.load(
        "http://a.example".to_string(),
        "<title>A</title><p>first page</p>",
    );
    assert_eq!(tab.url, "http://a.example");
    assert_eq!(tab.content.as_ref().unwrap().title, "A");
    assert_eq!(tab.back_target().unwrap(), "about:blank");

    tab.back("<title>Blank</title>");
    assert_eq!(tab.url, "about:blank");
    assert_eq!(tab.content.as_ref().unwrap().title, "Blank");
}

#[test]
fn test_decode_entities() {
    let out = HtmlParser::decode_entities("a &lt;b&gt; &amp; &quot;c&quot;&nbsp;&#39;d&apos;");
    assert_eq!(out, "a <b> & \"c\" 'd'");
}
