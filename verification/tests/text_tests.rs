use lib::common::XmlVersion;
use lib::escape::escape_str;
use lib::name::Name;
use lib::namespace::{Namespace, NamespaceStack, NS_XML_URI};
use lib::reader::config::ParserConfig;
use lib::reader::lexer::Token;

#[test]
fn escape_special_characters() {
    assert_eq!(escape_str("<&>\"'"), "&lt;&amp;&gt;&quot;&apos;");
    assert_eq!(escape_str("plain text ü"), "plain text ü");
    assert_eq!(escape_str(""), "");
}

#[test]
fn parse_names() {
    let n = Name::parse("p:a").unwrap();
    assert_eq!(n.local_name, "a");
    assert_eq!(n.prefix, Some("p".to_string()));
    assert_eq!(n.namespace, None);
    let m = Name::parse("abc").unwrap();
    assert_eq!(m.local_name, "abc");
    assert_eq!(m.prefix, None);
    assert!(Name::parse("").is_none());
    assert!(Name::parse(":a").is_none());
    assert!(Name::parse("a:").is_none());
    assert!(Name::parse("a:b:c").is_none());
}

#[test]
fn name_forms() {
    let mut n = Name::prefixed("a", "p");
    assert_eq!(n.to_repr(), "p:a");
    assert_eq!(n.prefix_repr(), "p");
    n.namespace = Some("urn:p".to_string());
    assert_eq!(n.to_display_string(), "{urn:p}p:a");
    let l = Name::local("b");
    assert_eq!(l.to_repr(), "b");
    assert_eq!(l.prefix_repr(), "");
    assert!(n.same_as(&n.copy()));
    assert!(!n.same_as(&l));
}

#[test]
fn name_round_trip() {
    let n = Name::prefixed("local", "pre");
    let back = Name::parse(&n.to_repr()).unwrap();
    assert!(back.same_as(&n));
}

#[test]
fn namespace_lookup() {
    let mut st = NamespaceStack::default();
    assert_eq!(st.get("xml"), Some(NS_XML_URI.to_string()));
    assert_eq!(st.get(""), Some(String::new()));
    assert_eq!(st.get("p"), None);
    st.push_empty();
    assert!(st.put("p", "urn:p"));
    assert!(!st.put("p", "urn:q"));
    assert!(st.put("", "urn:d"));
    assert_eq!(st.get("p"), Some("urn:p".to_string()));
    assert_eq!(st.get(""), Some("urn:d".to_string()));
    let ns = Namespace::empty();
    assert_eq!(ns.get("xml"), None);
    assert_eq!(NamespaceStack::empty().get("xml"), None);
}

#[test]
fn parser_config_defaults() {
    let c = ParserConfig::new();
    assert!(!c.trim_whitespace);
    assert!(!c.whitespace_to_characters);
    assert!(!c.cdata_to_characters);
    assert!(c.ignore_comments);
    assert!(c.coalesce_characters);
}

#[test]
fn parser_config_builder() {
    let c = ParserConfig::new()
        .trim_whitespace(true)
        .ignore_comments(false)
        .coalesce_characters(false)
        .whitespace_to_characters(true)
        .cdata_to_characters(true);
    assert!(c.trim_whitespace);
    assert!(c.whitespace_to_characters);
    assert!(c.cdata_to_characters);
    assert!(!c.ignore_comments);
    assert!(!c.coalesce_characters);
}

#[test]
fn token_text() {
    assert_eq!(Token::CDataEnd.to_repr(), "]]>");
    assert_eq!(Token::Character('x').to_repr(), "x");
    assert_eq!(Token::Whitespace('\t').to_repr(), "\t");
    assert_eq!(Token::Chunk("<!x").to_repr(), "<!x");
    assert_eq!(Token::DoctypeStart.to_repr(), "<!DOCTYPE");
    let mut s = String::from("a");
    Token::EmptyTagEnd.push_to_string(&mut s);
    assert_eq!(s, "a/>");
}

#[test]
fn version_text() {
    assert_eq!(XmlVersion::Version10.as_str(), "1.0");
    assert_eq!(XmlVersion::Version11.as_str(), "1.1");
}

#[test]
fn stack_uri_mappings() {
    let mut st = NamespaceStack::default();
    st.push_empty();
    assert!(st.put("xml", "urn:shadow"));
    let m = st.uri_mappings();
    assert_eq!(m.entries.len(), 3);
    assert_eq!(m.entries[0], ("xml".to_string(), "urn:shadow".to_string()));
    assert_eq!(m.entries[1].0, "xmlns");
    assert_eq!(m.entries[2], (String::new(), String::new()));
}
