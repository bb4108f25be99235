use rssbox::logic::feed::{join, parse, parse_atom, parse_rss, parse_summary, ParseError};

const RSS: &str = r#"<?xml version="1.0" encoding="UTF-8"?>
<rss version="2.0">
  <channel>
    <title>Channel</title>
    <link>http://example.com</link>
    <description>About</description>
    <item>
      <title>First</title>
      <link>http://example.com/1</link>
      <description>&lt;p&gt;Hello &lt;i&gt;big&lt;/i&gt; world&lt;/p&gt;</description>
      <author>ann@example.com</author>
      <pubDate>Mon, 01 Jan 2024 00:00:00 GMT</pubDate>
      <category>news</category>
      <category>tech</category>
    </item>
    <item>
      <title>Second</title>
      <link>http://example.com/2</link>
    </item>
    <item>
      <title>No link</title>
    </item>
    <item>
      <link>http://example.com/no-title</link>
    </item>
  </channel>
</rss>"#;

const ATOM: &str = r#"<?xml version="1.0" encoding="utf-8"?>
<feed xmlns="http://www.w3.org/2005/Atom">
  <title>Feed</title>
  <id>urn:feed</id>
  <updated>2024-01-02T00:00:00Z</updated>
  <entry>
    <title>One</title>
    <id>urn:1</id>
    <updated>2024-01-02T00:00:00Z</updated>
    <published>2024-01-01T10:00:00+02:00</published>
    <link href="http://example.org/1"/>
    <link href="http://example.org/1/alt"/>
    <author><name>Ann</name></author>
    <author><name>Bob</name></author>
    <category term="a"/>
    <category term="b"/>
    <summary type="text">  plain &lt;b&gt; text  </summary>
  </entry>
  <entry>
    <title>Two</title>
    <id>urn:2</id>
    <updated>2024-01-02T00:00:00Z</updated>
    <link href="http://example.org/2"/>
    <summary type="html">&lt;p&gt;Rich&lt;/p&gt;</summary>
  </entry>
  <entry>
    <title>No link</title>
    <id>urn:3</id>
    <updated>2024-01-02T00:00:00Z</updated>
  </entry>
</feed>"#;

#[test]
fn parse_rss_keeps_complete_items_in_document_order() {
    let entrys = parse_rss("s1", RSS.as_bytes()).unwrap();
    assert_eq!(entrys.len(), 2);
    assert_eq!(entrys[0].suuid, "s1");
    assert_eq!(entrys[0].uuid, "");
    assert_eq!(entrys[0].url, "http://example.com/1");
    assert_eq!(entrys[0].title, "First");
    assert_eq!(entrys[0].author, "ann@example.com");
    assert_eq!(entrys[0].pub_date, "Mon, 01 Jan 2024 00:00:00 GMT");
    assert_eq!(entrys[0].tags, "news,tech");
    assert_eq!(entrys[0].summary, "Hello *big* world...");
    assert!(!entrys[0].is_read);
    assert_eq!(entrys[1].url, "http://example.com/2");
    assert_eq!(entrys[1].title, "Second");
    assert_eq!(entrys[1].author, "");
    assert_eq!(entrys[1].pub_date, "");
    assert_eq!(entrys[1].tags, "");
    assert_eq!(entrys[1].summary, "");
}

#[test]
fn parse_atom_keeps_complete_entries_in_document_order() {
    let entrys = parse_atom("s2", ATOM.as_bytes()).unwrap();
    assert_eq!(entrys.len(), 2);
    assert_eq!(entrys[0].suuid, "s2");
    assert_eq!(entrys[0].url, "http://example.org/1");
    assert_eq!(entrys[0].title, "One");
    assert_eq!(entrys[0].author, "Ann|Bob");
    assert_eq!(entrys[0].pub_date, "2024-01-01 10:00:00 +02:00");
    assert_eq!(entrys[0].tags, "a,b");
    assert_eq!(entrys[0].summary, "plain <b> text...");
    assert_eq!(entrys[1].url, "http://example.org/2");
    assert_eq!(entrys[1].author, "");
    assert_eq!(entrys[1].pub_date, "1970-01-01 00:00:00 +00:00");
    assert_eq!(entrys[1].summary, "Rich...");
}

#[test]
fn parse_reverses_the_document_order() {
    let entrys = parse("s1", "rss", RSS.as_bytes()).unwrap();
    assert_eq!(entrys.len(), 2);
    assert_eq!(entrys[0].title, "Second");
    assert_eq!(entrys[1].title, "First");
}

#[test]
fn parse_auto_agrees_with_the_explicit_hint() {
    assert_eq!(parse("s", "auto", RSS.as_bytes()), parse("s", "rss", RSS.as_bytes()));
    assert_eq!(parse("s", "auto", ATOM.as_bytes()), parse("s", "atom", ATOM.as_bytes()));
    assert_eq!(parse("s", "AUTO", RSS.as_bytes()), parse("s", "RSS", RSS.as_bytes()));
    assert_eq!(parse("s", "", ATOM.as_bytes()), parse("s", "Atom", ATOM.as_bytes()));
}

#[test]
fn parse_with_the_wrong_hint_fails() {
    assert!(matches!(parse("s", "rss", ATOM.as_bytes()), Err(ParseError::Rss(_))));
    assert!(matches!(parse("s", "atom", RSS.as_bytes()), Err(ParseError::Atom(_))));
}

#[test]
fn parse_auto_of_something_else_is_unrecognized() {
    assert_eq!(parse("s", "auto", b"not xml at all"), Err(ParseError::UnrecognizedFormat));
    assert_eq!(parse("s", "auto", b""), Err(ParseError::UnrecognizedFormat));
    assert_eq!(parse("s", "auto", b"<html><body/></html>"), Err(ParseError::UnrecognizedFormat));
}

#[test]
fn summary_of_150_ascii_characters_is_cut_to_100() {
    let text = "a".repeat(150);
    let summary = parse_summary(&text, true);
    assert_eq!(summary, format!("{}...", "a".repeat(100)));
    assert_eq!(summary.chars().count(), 103);
}

#[test]
fn summary_of_80_wide_characters_is_cut_to_50() {
    let text = "字".repeat(80);
    let summary = parse_summary(&text, true);
    assert_eq!(summary, format!("{}...", "字".repeat(50)));
    assert_eq!(summary.chars().count(), 53);
}

#[test]
fn summary_with_one_wide_character_among_the_first_100_is_cut_to_50() {
    let text = format!("{}é{}", "a".repeat(60), "b".repeat(60));
    assert_eq!(parse_summary(&text, true), format!("{}...", "a".repeat(50)));
}

#[test]
fn summary_with_a_wide_character_behind_the_first_100_is_cut_to_100() {
    let text = format!("{}é", "a".repeat(120));
    assert_eq!(parse_summary(&text, true), format!("{}...", "a".repeat(100)));
}

#[test]
fn short_summary_gets_the_ellipsis_too() {
    assert_eq!(parse_summary("short", true), "short...");
    assert_eq!(parse_summary("  padded \n", true), "padded...");
    assert_eq!(parse_summary("", true), "...");
    assert_eq!(parse_summary("短い", true), "短い...");
}

#[test]
fn summary_of_html_is_plain_text_without_line_feeds() {
    assert_eq!(parse_summary("<p>one</p><p>two</p>", false), "onetwo...");
    assert_eq!(parse_summary("<div>a<br/>b</div>", false), "ab...");
}

#[test]
fn join_puts_the_separator_between_the_parts() {
    assert_eq!(join(&vec![], ","), "");
    assert_eq!(join(&vec!["a".to_string()], ","), "a");
    assert_eq!(join(&vec!["a".to_string(), "b".to_string(), "c".to_string()], "|"), "a|b|c");
}
