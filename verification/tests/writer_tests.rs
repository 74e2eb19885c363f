use lib::attribute::Attribute;
use lib::common::XmlVersion;
use lib::name::Name;
use lib::namespace::{Namespace, NamespaceStack};
use lib::writer::config::EmitterConfig;
use lib::writer::emitter::{error, io_wrap, Emitter, EmitterErrorKind};

fn plain_config() -> EmitterConfig {
    EmitterConfig::new().write_document_declaration(false)
}

#[test]
fn start_document_is_written() {
    let mut e = Emitter::new(EmitterConfig::new());
    let mut out = String::new();
    assert!(e.emit_start_document(&mut out, XmlVersion::Version10, "utf-8", None).is_ok());
    assert_eq!(out, "<?xml version=\"1.0\" encoding=\"utf-8\"?>");
}

#[test]
fn start_document_standalone_flag() {
    let mut e = Emitter::new(EmitterConfig::new());
    let mut out = String::new();
    assert!(e.emit_start_document(&mut out, XmlVersion::Version11, "UTF-16", Some(true)).is_ok());
    assert_eq!(out, "<?xml version=\"1.1\" encoding=\"UTF-16\" standalone=\"yes\"?>");
    let mut e2 = Emitter::new(EmitterConfig::new());
    let mut out2 = String::new();
    assert!(e2.emit_start_document(&mut out2, XmlVersion::Version10, "utf-8", Some(false)).is_ok());
    assert_eq!(out2, "<?xml version=\"1.0\" encoding=\"utf-8\" standalone=\"no\"?>");
}

#[test]
fn second_start_document_fails() {
    let mut e = Emitter::new(EmitterConfig::new());
    let mut out = String::new();
    assert!(e.emit_start_document(&mut out, XmlVersion::Version10, "utf-8", None).is_ok());
    let before = out.clone();
    match e.emit_start_document(&mut out, XmlVersion::Version10, "utf-8", None) {
        Err(err) => {
            assert_eq!(err.kind(), EmitterErrorKind::DocumentStartAlreadyEmitted);
            assert_eq!(err.message(), "Document start is already emitted");
            assert!(err.cause().is_none());
        }
        Ok(()) => panic!("a second declaration was accepted"),
    }
    assert_eq!(out, before);
}

#[test]
fn declaration_precedes_first_element() {
    let mut e = Emitter::new(EmitterConfig::new());
    let mut out = String::new();
    let a = Name::local("a");
    assert!(e.emit_start_element(&mut out, &a, &[], &Namespace::empty()).is_ok());
    assert_eq!(out, "<?xml version=\"1.0\" encoding=\"utf-8\"?>\n<a>");
    // the declaration was recorded: an explicit one is refused now
    let r = e.emit_start_document(&mut out, XmlVersion::Version10, "utf-8", None);
    assert!(matches!(r, Err(ref err) if err.kind() == EmitterErrorKind::DocumentStartAlreadyEmitted));
}

#[test]
fn element_with_text() {
    let mut e = Emitter::new(plain_config());
    let mut out = String::new();
    let a = Name::local("a");
    assert!(e.emit_start_element(&mut out, &a, &[], &Namespace::empty()).is_ok());
    assert!(e.emit_characters(&mut out, "x < y & \"z\"").is_ok());
    assert!(e.emit_end_element(&mut out, &a).is_ok());
    assert_eq!(out, "<a>x &lt; y &amp; &quot;z&quot;</a>");
}

#[test]
fn empty_element_with_attributes() {
    let mut e = Emitter::new(plain_config());
    let mut out = String::new();
    let img = Name::prefixed("img", "p");
    let attrs = vec![
        Attribute::new(Name::local("src"), "a&b"),
        Attribute::new(Name::prefixed("alt", "q"), "it's"),
    ];
    assert!(e.emit_empty_element(&mut out, &img, &attrs, &Namespace::empty()).is_ok());
    assert_eq!(out, "<p:img src=\"a&amp;b\" q:alt=\"it&apos;s\"/>");
}

#[test]
fn namespace_declarations() {
    let mut e = Emitter::new(plain_config());
    let mut ns = Namespace::empty();
    assert!(ns.put("", "urn:d"));
    assert!(ns.put("xml", "http://www.w3.org/XML/1998/namespace"));
    assert!(ns.put("x", "urn:x"));
    assert!(ns.put("xmlns", "http://www.w3.org/2000/xmlns/"));
    assert!(!ns.put("x", "urn:other"));
    let mut out = String::new();
    assert!(e.emit_namespace_attributes(&mut out, &ns).is_ok());
    assert_eq!(out, " xmlns=\"urn:d\" xmlns:x=\"urn:x\"");
}

#[test]
fn empty_default_namespace_is_not_declared() {
    let mut e = Emitter::new(plain_config());
    let mut ns = Namespace::empty();
    assert!(ns.put("", ""));
    let mut out = String::new();
    let a = Name::local("a");
    assert!(e.emit_start_element(&mut out, &a, &[], &ns).is_ok());
    assert_eq!(out, "<a>");
}

#[test]
fn cdata_section() {
    let mut e = Emitter::new(plain_config());
    let mut out = String::new();
    assert!(e.emit_cdata(&mut out, "a<b").is_ok());
    assert_eq!(out, "<![CDATA[a<b]]>");
}

#[test]
fn cdata_as_characters() {
    let mut e = Emitter::new(plain_config().cdata_to_characters(true));
    let mut out = String::new();
    assert!(e.emit_cdata(&mut out, "a<b").is_ok());
    assert_eq!(out, "a&lt;b");
}

#[test]
fn comments_are_not_written() {
    let mut e = Emitter::new(EmitterConfig::new());
    let mut out = String::new();
    assert!(e.emit_comment(&mut out, "hello").is_ok());
    assert_eq!(out, "");
}

#[test]
fn processing_instructions_on_own_lines() {
    let mut e = Emitter::new(plain_config());
    let mut out = String::new();
    assert!(e.emit_processing_instruction(&mut out, "a", Some("x y")).is_ok());
    assert!(e.emit_processing_instruction(&mut out, "b", None).is_ok());
    assert_eq!(out, "<?a x y?>\n<?b?>");
}

#[test]
fn custom_line_separator() {
    let mut e = Emitter::new(plain_config().line_separator("\r\n").indent_string("\t"));
    let mut out = String::new();
    assert!(e.emit_processing_instruction(&mut out, "a", None).is_ok());
    let a = Name::local("a");
    assert!(e.emit_start_element(&mut out, &a, &[], &Namespace::empty()).is_ok());
    assert_eq!(out, "<?a?>\r\n<a>");
}

#[test]
fn end_tag_after_markup() {
    let mut e = Emitter::new(plain_config());
    let mut out = String::new();
    let a = Name::local("a");
    let b = Name::local("b");
    assert!(e.emit_start_element(&mut out, &a, &[], &Namespace::empty()).is_ok());
    assert!(e.emit_empty_element(&mut out, &b, &[], &Namespace::empty()).is_ok());
    assert!(e.emit_end_element(&mut out, &a).is_ok());
    assert_eq!(out, "<a><b/></a>");
}

#[test]
fn fresh_emitter_has_no_namespaces() {
    let e = Emitter::new(EmitterConfig::new());
    assert_eq!(e.namespace_stack().0.len(), 0);
}

#[test]
fn error_constructor() {
    let err = error(EmitterErrorKind::UnexpectedEvent, "bad event");
    assert_eq!(err.kind(), EmitterErrorKind::UnexpectedEvent);
    assert_eq!(err.message(), "bad event");
    assert!(err.cause().is_none());
    assert_eq!(err.describe(), "Emitter error: \"bad event\"");
}

#[test]
fn io_wrap_keeps_values() {
    let r: std::io::Result<usize> = Ok(5);
    match io_wrap(r) {
        Ok(v) => assert_eq!(v, 5),
        Err(_) => panic!("value lost"),
    }
}

#[test]
fn io_wrap_wraps_errors() {
    let r: std::io::Result<usize> =
        Err(std::io::Error::new(std::io::ErrorKind::Other, "disk full"));
    match io_wrap(r) {
        Err(err) => {
            assert_eq!(err.kind(), EmitterErrorKind::IoError);
            assert_eq!(err.message(), "Input/output error");
            assert_eq!(err.cause().map(|c| c.to_string()), Some("disk full".to_string()));
            assert!(err.describe().starts_with("Emitter error: \"Input/output error\"; caused by: "));
        }
        Ok(_) => panic!("error lost"),
    }
}

#[test]
fn emitter_config_defaults() {
    let c = EmitterConfig::new();
    assert_eq!(c.line_separator, "\n");
    assert_eq!(c.indent_string, "  ");
    assert!(c.write_document_declaration);
    assert!(!c.cdata_to_characters);
}

#[test]
fn mixed_events_sequence() {
    let mut e = Emitter::new(EmitterConfig::new());
    let mut out = String::new();
    let a = Name::local("a");
    assert!(e.emit_start_element(&mut out, &a, &[], &Namespace::empty()).is_ok());
    assert!(e.emit_characters(&mut out, "t").is_ok());
    assert!(e.emit_end_element(&mut out, &a).is_ok());
    assert!(e.emit_end_element(&mut out, &a).is_ok());
    assert!(e.emit_cdata(&mut out, "c").is_ok());
    assert_eq!(
        out,
        "<?xml version=\"1.0\" encoding=\"utf-8\"?>\n<a>t</a></a><![CDATA[c]]>"
    );
}

#[test]
fn describe_with_cause_text() {
    let err = error(EmitterErrorKind::InvalidWhitespaceEvent, "ws");
    assert_eq!(err.describe_with(None), "Emitter error: \"ws\"");
    assert_eq!(
        err.describe_with(Some("Custom { kind: Other }")),
        "Emitter error: \"ws\"; caused by: Custom { kind: Other }"
    );
}

#[test]
fn describe_with_io_cause() {
    let r: std::io::Result<()> =
        Err(std::io::Error::new(std::io::ErrorKind::Other, "disk full"));
    let err = match io_wrap(r) {
        Err(e) => e,
        Ok(_) => panic!("error lost"),
    };
    let cause_text = format!("{:?}", err.cause().unwrap());
    assert_eq!(err.describe(), err.describe_with(Some(&cause_text)));
}

#[test]
fn start_element_with_namespace_stack() {
    let mut nst = NamespaceStack::default();
    nst.push_empty();
    assert!(nst.put("p", "urn:outer"));
    assert!(nst.put("", "urn:d"));
    nst.push_empty();
    assert!(nst.put("p", "urn:inner"));
    assert!(nst.put("q", "urn:q"));
    let mut e = Emitter::new(plain_config());
    let mut out = String::new();
    let a = Name::prefixed("a", "p");
    assert!(e.emit_start_element_with_stack(&mut out, &a, &[], &nst).is_ok());
    assert!(e.emit_empty_element_with_stack(&mut out, &a, &[], &NamespaceStack::default()).is_ok());
    assert_eq!(
        out,
        "<p:a xmlns:p=\"urn:inner\" xmlns:q=\"urn:q\" xmlns=\"urn:d\"><p:a/>"
    );
    let mut out2 = String::new();
    assert!(e.emit_namespace_stack_attributes(&mut out2, &nst).is_ok());
    assert_eq!(out2, " xmlns:p=\"urn:inner\" xmlns:q=\"urn:q\" xmlns=\"urn:d\"");
}
