use lib::name::Name;
use lib::reader::config::ParserConfig;
use lib::reader::events::XmlEvent;
use lib::reader::lexer::Token;
use lib::reader::parser::{is_name_char, is_name_start_char, ClosingTagSubstate, PullParser, State};

fn error_message(ev: Option<XmlEvent>) -> String {
    match ev {
        Some(XmlEvent::Error(e)) => e.msg,
        _ => panic!("an error was expected"),
    }
}

fn cdata_parser(config: ParserConfig) -> PullParser {
    let mut p = PullParser::new(config);
    p.st = State::InsideCData;
    p.lexer.disable_errors();
    p
}

#[test]
fn cdata_collects_tokens() {
    let mut p = cdata_parser(ParserConfig::new());
    assert!(p.inside_cdata(Token::Whitespace(' ')).is_none());
    assert!(p.inside_whitespace);
    assert!(p.inside_cdata(Token::Character('a')).is_none());
    assert!(!p.inside_whitespace);
    assert!(p.inside_cdata(Token::OpeningTagStart).is_none());
    assert!(p.inside_cdata(Token::TagEnd).is_none());
    assert_eq!(p.buf, " a<>");
    assert_eq!(p.st, State::InsideCData);
    match p.inside_cdata(Token::CDataEnd) {
        Some(XmlEvent::CData(d)) => assert_eq!(d, " a<>"),
        _ => panic!("CDATA event expected"),
    }
    assert_eq!(p.buf, "");
    assert_eq!(p.st, State::OutsideTag);
    assert!(!p.lexer.skip_errors);
}

#[test]
fn cdata_to_characters_keeps_text() {
    let mut p = cdata_parser(ParserConfig::new().cdata_to_characters(true));
    assert!(p.inside_cdata(Token::Character('z')).is_none());
    assert!(p.inside_cdata(Token::CDataEnd).is_none());
    assert_eq!(p.buf, "z");
    assert_eq!(p.st, State::OutsideTag);
    assert!(!p.lexer.skip_errors);
}

fn closing_parser(open: Name) -> PullParser {
    let mut p = PullParser::new(ParserConfig::new());
    p.st = State::InsideClosingTag(ClosingTagSubstate::CTInsideName);
    p.est.push(open);
    p
}

fn feed_name(p: &mut PullParser, text: &str) {
    for c in text.chars() {
        let r = p.inside_closing_tag_name(Token::Character(c), ClosingTagSubstate::CTInsideName);
        assert!(r.is_none());
    }
}

#[test]
fn closing_tag_closes_element() {
    let mut p = closing_parser(Name::local("ab"));
    feed_name(&mut p, "ab");
    assert_eq!(p.buf, "ab");
    match p.inside_closing_tag_name(Token::TagEnd, ClosingTagSubstate::CTInsideName) {
        Some(XmlEvent::EndElement { name }) => {
            assert_eq!(name.local_name, "ab");
            assert_eq!(name.prefix, None);
            assert_eq!(name.namespace, None);
        }
        _ => panic!("end element expected"),
    }
    assert_eq!(p.st, State::OutsideTag);
    assert!(p.est.is_empty());
    assert!(p.pop_namespace);
    assert_eq!(p.buf, "");
}

#[test]
fn closing_tag_with_whitespace() {
    let mut p = closing_parser(Name::local("a"));
    feed_name(&mut p, "a");
    assert!(p.inside_closing_tag_name(Token::Whitespace(' '), ClosingTagSubstate::CTInsideName).is_none());
    assert_eq!(p.st, State::InsideClosingTag(ClosingTagSubstate::CTAfterName));
    assert!(p.inside_closing_tag_name(Token::Whitespace('\n'), ClosingTagSubstate::CTAfterName).is_none());
    match p.inside_closing_tag_name(Token::TagEnd, ClosingTagSubstate::CTAfterName) {
        Some(XmlEvent::EndElement { name }) => assert_eq!(name.local_name, "a"),
        _ => panic!("end element expected"),
    }
    assert_eq!(p.st, State::OutsideTag);
}

#[test]
fn closing_tag_mismatch() {
    let mut p = closing_parser(Name::local("b"));
    feed_name(&mut p, "a");
    let msg = error_message(p.inside_closing_tag_name(Token::TagEnd, ClosingTagSubstate::CTInsideName));
    assert_eq!(msg, "Unexpected closing tag: a, expected b");
    assert!(p.est.is_empty());
}

#[test]
fn closing_tag_reserved_prefix() {
    let mut p = closing_parser(Name::local("a"));
    feed_name(&mut p, "xml:a");
    let msg = error_message(p.inside_closing_tag_name(Token::TagEnd, ClosingTagSubstate::CTInsideName));
    assert_eq!(msg, "'Some(\"xml\")' cannot be an element name prefix");
    let mut q = closing_parser(Name::local("a"));
    feed_name(&mut q, "xmlns:a");
    let msg = error_message(q.inside_closing_tag_name(Token::Whitespace(' '), ClosingTagSubstate::CTInsideName));
    assert_eq!(msg, "'Some(\"xmlns\")' cannot be an element name prefix");
}

#[test]
fn closing_tag_unbound_prefix() {
    let mut p = closing_parser(Name::prefixed("a", "p"));
    feed_name(&mut p, "p:a");
    let msg = error_message(p.inside_closing_tag_name(Token::TagEnd, ClosingTagSubstate::CTInsideName));
    assert_eq!(msg, "Element p:a prefix is unbound");
}

#[test]
fn closing_tag_bound_prefix() {
    let mut open = Name::prefixed("a", "p");
    open.namespace = Some("urn:p".to_string());
    let mut p = closing_parser(open);
    p.nst.push_empty();
    assert!(p.nst.put("p", "urn:p"));
    feed_name(&mut p, "p:a");
    match p.inside_closing_tag_name(Token::TagEnd, ClosingTagSubstate::CTInsideName) {
        Some(XmlEvent::EndElement { name }) => {
            assert_eq!(name.namespace, Some("urn:p".to_string()));
            assert_eq!(name.prefix, Some("p".to_string()));
        }
        _ => panic!("end element expected"),
    }
}

#[test]
fn closing_tag_mismatch_shows_namespaces() {
    let mut open = Name::prefixed("b", "p");
    open.namespace = Some("urn:p".to_string());
    let mut p = closing_parser(open);
    p.nst.push_empty();
    assert!(p.nst.put("p", "urn:p"));
    feed_name(&mut p, "p:a");
    let msg = error_message(p.inside_closing_tag_name(Token::TagEnd, ClosingTagSubstate::CTInsideName));
    assert_eq!(msg, "Unexpected closing tag: {urn:p}p:a, expected {urn:p}p:b");
}

#[test]
fn closing_tag_bad_name_start() {
    let mut p = closing_parser(Name::local("a"));
    let msg = error_message(p.inside_closing_tag_name(Token::Character('1'), ClosingTagSubstate::CTInsideName));
    assert_eq!(msg, "Unexpected token inside qualified name: 1");
    let mut q = closing_parser(Name::local("a"));
    let msg = error_message(q.inside_closing_tag_name(Token::Character(':'), ClosingTagSubstate::CTInsideName));
    assert_eq!(msg, "Unexpected token inside qualified name: :");
}

#[test]
fn closing_tag_second_separator() {
    let mut p = closing_parser(Name::local("a"));
    feed_name(&mut p, "a:b");
    assert!(p.read_prefix_separator);
    let msg = error_message(p.inside_closing_tag_name(Token::Character(':'), ClosingTagSubstate::CTInsideName));
    assert_eq!(msg, "Unexpected token inside qualified name: :");
}

#[test]
fn closing_tag_invalid_name() {
    let mut p = closing_parser(Name::local("a"));
    feed_name(&mut p, "a:");
    let msg = error_message(p.inside_closing_tag_name(Token::TagEnd, ClosingTagSubstate::CTInsideName));
    assert_eq!(msg, "Qualified name is invalid: a:");
    assert_eq!(p.buf, "");
}

#[test]
fn closing_tag_unexpected_tokens() {
    let mut p = closing_parser(Name::local("a"));
    feed_name(&mut p, "a");
    let msg = error_message(p.inside_closing_tag_name(Token::EqualsSign, ClosingTagSubstate::CTInsideName));
    assert_eq!(msg, "Unexpected token inside qualified name: =");
    let mut q = closing_parser(Name::local("a"));
    let msg = error_message(q.inside_closing_tag_name(Token::EmptyTagEnd, ClosingTagSubstate::CTAfterName));
    assert_eq!(msg, "Unexpected token inside closing tag: />");
}

#[test]
fn error_position_is_lexer_position() {
    let mut p = closing_parser(Name::local("a"));
    p.lexer.row = 3;
    p.lexer.column = 7;
    match p.inside_closing_tag_name(Token::EqualsSign, ClosingTagSubstate::CTAfterName) {
        Some(XmlEvent::Error(e)) => {
            assert_eq!(e.row, 3);
            assert_eq!(e.column, 7);
        }
        _ => panic!("error expected"),
    }
}

#[test]
fn name_characters() {
    assert!(is_name_start_char('a'));
    assert!(is_name_start_char('_'));
    assert!(is_name_start_char('é'));
    assert!(!is_name_start_char('1'));
    assert!(!is_name_start_char('-'));
    assert!(is_name_char('1'));
    assert!(is_name_char('-'));
    assert!(is_name_char('\u{B7}'));
    assert!(!is_name_char(' '));
}
