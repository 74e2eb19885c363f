//! The pull parser: a state machine that consumes tokens and produces
//! events. The states of the parser that this library holds are those of
//! CDATA sections and of closing tags.
use vstd::prelude::*;

use crate::escape::push_char;
use crate::name::{Name, NameView, name_display, parse_qualified, prefix_or_empty};
use crate::namespace::{
    NamespaceStack,
    NamespaceView,
    stack_get,
    NS_EMPTY_URI,
    NS_NO_PREFIX,
    NS_XMLNS_PREFIX,
    NS_XMLNS_URI,
    NS_XML_PREFIX,
    NS_XML_URI,
};
use crate::reader::config::ParserConfig;
use crate::reader::events::{ParserError, XmlEvent, XmlEventView};
use crate::reader::lexer::{Lexer, Token, token_repr};

pub mod inside_cdata;
pub mod inside_closing_tag_name;

verus! {

/// Where the parser is inside a closing tag.
#[derive(Clone, Copy, Debug, PartialEq, Eq, Structural)]
pub enum ClosingTagSubstate {
    /// Reading the name of the element.
    CTInsideName,
    /// After the name, before the closing `>`.
    CTAfterName,
}

/// The states of the parser.
#[derive(Clone, Copy, Debug, PartialEq, Eq, Structural)]
pub enum State {
    /// Outside of any markup.
    OutsideTag,
    /// Inside a CDATA section.
    InsideCData,
    /// Inside a closing tag.
    InsideClosingTag(ClosingTagSubstate),
}

/// What a qualified name being read belongs to.
#[derive(Clone, Copy, Debug, PartialEq, Eq, Structural)]
pub enum QualifiedNameTarget {
    AttributeNameTarget,
    OpeningTagNameTarget,
    ClosingTagNameTarget,
}

/// Data of the markup being read.
pub struct MarkupData {
    /// The name of the element whose tag is being read.
    pub element_name: Option<Name>,
}

/// A pull parser, as far as the states of this library need it.
pub struct PullParser {
    pub config: ParserConfig,
    pub lexer: Lexer,
    pub st: State,
    /// Text collected for the event or name being read.
    pub buf: String,
    /// Whether only whitespace was read since the last event.
    pub inside_whitespace: bool,
    /// Whether the name being read has its prefix separator already.
    pub read_prefix_separator: bool,
    /// Whether the namespace scope of the element just closed is to be left.
    pub pop_namespace: bool,
    pub data: MarkupData,
    /// The names of the open elements, innermost last.
    pub est: Vec<Name>,
    /// The namespace scopes of the open elements.
    pub nst: NamespaceStack,
}

/// The mathematical state of a parser.
#[verifier::ext_equal]
pub struct ParserModel {
    pub config: ParserConfig,
    pub lexer: Lexer,
    pub st: State,
    pub buf: Seq<char>,
    pub inside_whitespace: bool,
    pub read_prefix_separator: bool,
    pub pop_namespace: bool,
    pub element_name: Option<NameView>,
    pub est: Seq<NameView>,
    pub nst: Seq<NamespaceView>,
}

/// The views of a sequence of names.
pub open spec fn name_views(s: Seq<Name>) -> Seq<NameView> {
    s.map_values(|n: Name| n@)
}

impl View for PullParser {
    type V = ParserModel;

    open spec fn view(&self) -> ParserModel {
        ParserModel {
            config: self.config,
            lexer: self.lexer,
            st: self.st,
            buf: self.buf@,
            inside_whitespace: self.inside_whitespace,
            read_prefix_separator: self.read_prefix_separator,
            pop_namespace: self.pop_namespace,
            element_name: match self.data.element_name {
                Some(n) => Some(n@),
                None => None,
            },
            est: name_views(self.est@),
            nst: self.nst@,
        }
    }
}

/// An error event at the lexer's position.
pub open spec fn error_event(l: Lexer, msg: Seq<char>) -> XmlEventView {
    XmlEventView::Error { row: l.row, column: l.column, msg: msg }
}

/// A code point that may start an XML name (production `NameStartChar`).
pub open spec fn is_name_start_code(v: u32) -> bool {
    v == 0x3A || (0x41 <= v <= 0x5A) || v == 0x5F || (0x61 <= v <= 0x7A) || (0xC0 <= v <= 0xD6)
        || (0xD8 <= v <= 0xF6) || (0xF8 <= v <= 0x2FF) || (0x370 <= v <= 0x37D) || (0x37F <= v
        <= 0x1FFF) || (0x200C <= v <= 0x200D) || (0x2070 <= v <= 0x218F) || (0x2C00 <= v
        <= 0x2FEF) || (0x3001 <= v <= 0xD7FF) || (0xF900 <= v <= 0xFDCF) || (0xFDF0 <= v
        <= 0xFFFD) || (0x10000 <= v <= 0xEFFFF)
}

/// A code point that may occur in an XML name (production `NameChar`).
pub open spec fn is_name_code(v: u32) -> bool {
    is_name_start_code(v) || v == 0x2D || v == 0x2E || (0x30 <= v <= 0x39) || v == 0xB7 || (0x300
        <= v <= 0x36F) || (0x203F <= v <= 0x2040)
}

/// Whether `c` may start an XML name.
pub fn is_name_start_char(c: char) -> (r: bool)
    ensures
        r == is_name_start_code(c as u32),
{
    let v = c as u32;
    v == 0x3A || (0x41 <= v && v <= 0x5A) || v == 0x5F || (0x61 <= v && v <= 0x7A) || (0xC0 <= v
        && v <= 0xD6) || (0xD8 <= v && v <= 0xF6) || (0xF8 <= v && v <= 0x2FF) || (0x370 <= v && v
        <= 0x37D) || (0x37F <= v && v <= 0x1FFF) || (0x200C <= v && v <= 0x200D) || (0x2070 <= v
        && v <= 0x218F) || (0x2C00 <= v && v <= 0x2FEF) || (0x3001 <= v && v <= 0xD7FF) || (0xF900
        <= v && v <= 0xFDCF) || (0xFDF0 <= v && v <= 0xFFFD) || (0x10000 <= v && v <= 0xEFFFF)
}

/// Whether `c` may occur in an XML name.
pub fn is_name_char(c: char) -> (r: bool)
    ensures
        r == is_name_code(c as u32),
{
    let v = c as u32;
    is_name_start_char(c) || v == 0x2D || v == 0x2E || (0x30 <= v && v <= 0x39) || v == 0xB7 || (
    0x300 <= v && v <= 0x36F) || (0x203F <= v && v <= 0x2040)
}

/// What a token does to a qualified name being read.
pub enum NameAction {
    /// It is the prefix separator, taken into the name.
    Separator,
    /// It is a character taken into the name.
    Append(char),
    /// It ends the name.
    Finish,
    /// It may not occur here.
    Unexpected,
}

/// What `t` does to a qualified name being read for `target`, where
/// `has_data` tells whether some of the name was read and `read_sep`
/// whether its separator was. A separator is taken only once and not
/// first; a character is taken where it may start a name or continue one;
/// whitespace ends any name, `=` an attribute name, `/>` an opening tag
/// name, and `>` a tag name.
pub open spec fn name_action(
    has_data: bool,
    read_sep: bool,
    t: Token,
    target: QualifiedNameTarget,
) -> NameAction {
    match t {
        Token::Character(c) => {
            if c == ':' && has_data && !read_sep {
                NameAction::Separator
            } else if c != ':' && ((!has_data && is_name_start_code(c as u32)) || (has_data
                && is_name_code(c as u32))) {
                NameAction::Append(c)
            } else {
                NameAction::Unexpected
            }
        },
        Token::EqualsSign => if target == QualifiedNameTarget::AttributeNameTarget {
            NameAction::Finish
        } else {
            NameAction::Unexpected
        },
        Token::EmptyTagEnd => if target == QualifiedNameTarget::OpeningTagNameTarget {
            NameAction::Finish
        } else {
            NameAction::Unexpected
        },
        Token::TagEnd => if target == QualifiedNameTarget::OpeningTagNameTarget || target
            == QualifiedNameTarget::ClosingTagNameTarget {
            NameAction::Finish
        } else {
            NameAction::Unexpected
        },
        Token::Whitespace(_) => NameAction::Finish,
        _ => NameAction::Unexpected,
    }
}

/// The separator flag as a name is read: a name that has not started has
/// no separator yet.
pub open spec fn name_read_sep(m: ParserModel) -> bool {
    if m.buf.len() == 0 {
        false
    } else {
        m.read_prefix_separator
    }
}

/// The outcome of reading one token of a qualified name.
pub enum NameRead {
    /// The name is not complete; an event is reported where there is one.
    Pending(Option<XmlEvent>),
    /// The name is complete.
    Complete(Name),
}

/// Reading one token of a qualified name for `target`: where the name ends,
/// the text collected is parsed as a qualified name and taken out of the
/// buffer.
pub open spec fn read_qualified_name_step(
    m: ParserModel,
    t: Token,
    target: QualifiedNameTarget,
) -> (ParserModel, Option<XmlEventView>, Option<NameView>) {
    let sep = name_read_sep(m);
    match name_action(m.buf.len() > 0, sep, t, target) {
        NameAction::Separator => (
            ParserModel { buf: m.buf.push(':'), read_prefix_separator: true, ..m },
            None,
            None,
        ),
        NameAction::Append(c) => (
            ParserModel { buf: m.buf.push(c), read_prefix_separator: sep, ..m },
            None,
            None,
        ),
        NameAction::Unexpected => (
            ParserModel { read_prefix_separator: sep, ..m },
            Some(
                error_event(m.lexer, "Unexpected token inside qualified name: "@ + token_repr(t)),
            ),
            None,
        ),
        NameAction::Finish => {
            let m1 = ParserModel { buf: Seq::empty(), read_prefix_separator: sep, ..m };
            match parse_qualified(m.buf) {
                Some(n) => (m1, None, Some(n)),
                None => (
                    m1,
                    Some(error_event(m.lexer, "Qualified name is invalid: "@ + m.buf)),
                    None,
                ),
            }
        },
    }
}

/// Closing an element whose end tag was read: the name's prefix is resolved
/// in the namespace scopes, and the name must be that of the innermost open
/// element, which is closed.
pub open spec fn end_element_step(m: ParserModel) -> (ParserModel, Option<XmlEventView>) {
    let name = m.element_name.unwrap();
    let m1 = ParserModel { element_name: None, ..m };
    match stack_get(m.nst, prefix_or_empty(name)) {
        None => (
            m1,
            Some(error_event(m.lexer, "Element "@ + name_display(name) + " prefix is unbound"@)),
        ),
        Some(ns) => {
            let resolved = NameView {
                namespace: if ns.len() == 0 {
                    None
                } else {
                    Some(ns)
                },
                ..name
            };
            let open = m.est.last();
            let m2 = ParserModel { est: m.est.drop_last(), ..m1 };
            if resolved == open {
                (
                    ParserModel { pop_namespace: true, st: State::OutsideTag, ..m2 },
                    Some(XmlEventView::EndElement(resolved)),
                )
            } else {
                (
                    m2,
                    Some(
                        error_event(
                            m.lexer,
                            "Unexpected closing tag: "@ + name_display(resolved) + ", expected "@
                                + name_display(open),
                        ),
                    ),
                )
            }
        },
    }
}

/// The view of an optional event.
pub open spec fn opt_event_view(e: Option<XmlEvent>) -> Option<XmlEventView> {
    match e {
        Some(ev) => Some(ev@),
        None => None,
    }
}

impl PullParser {
    /// A parser at the start of a document.
    pub fn new(config: ParserConfig) -> (p: PullParser)
        ensures
            p.config == config,
            p.lexer == (Lexer { skip_errors: false, row: 0, column: 0 }),
            p@.st == State::OutsideTag,
            p@.buf == Seq::<char>::empty(),
            p@.inside_whitespace,
            !p@.read_prefix_separator,
            !p@.pop_namespace,
            p@.element_name is None,
            p@.est == Seq::<NameView>::empty(),
            p@.nst == seq![
                seq![
                    (NS_XML_PREFIX@, NS_XML_URI@),
                    (NS_XMLNS_PREFIX@, NS_XMLNS_URI@),
                    (NS_NO_PREFIX@, NS_EMPTY_URI@),
                ],
            ],
    {
        let p = PullParser {
            config: config,
            lexer: Lexer::new(),
            st: State::OutsideTag,
            buf: String::new(),
            inside_whitespace: true,
            read_prefix_separator: false,
            pop_namespace: false,
            data: MarkupData { element_name: None },
            est: Vec::new(),
            nst: NamespaceStack::default(),
        };
        assert(p@.est =~= Seq::<NameView>::empty());
        p
    }

    /// An error event at the current position.
    pub fn error(&self, msg: String) -> (e: XmlEvent)
        ensures
            e@ == error_event(self.lexer, msg@),
    {
        XmlEvent::Error(ParserError { row: self.lexer.row, column: self.lexer.column, msg: msg })
    }

    /// Moves to state `st` and reports `ev`.
    pub fn into_state(&mut self, st: State, ev: Option<XmlEvent>) -> (r: Option<XmlEvent>)
        ensures
            final(self)@ == (ParserModel { st: st, ..old(self)@ }),
            r == ev,
    {
        self.st = st;
        ev
    }

    /// Moves to state `st` and reports nothing.
    pub fn into_state_continue(&mut self, st: State) -> (r: Option<XmlEvent>)
        ensures
            final(self)@ == (ParserModel { st: st, ..old(self)@ }),
            r is None,
    {
        self.into_state(st, None)
    }

    /// Moves to state `st` and reports `ev`.
    pub fn into_state_emit(&mut self, st: State, ev: XmlEvent) -> (r: Option<XmlEvent>)
        ensures
            final(self)@ == (ParserModel { st: st, ..old(self)@ }),
            r == Some(ev),
    {
        self.into_state(st, Some(ev))
    }

    /// Takes the collected text out of the buffer, leaving it empty.
    pub fn take_buf(&mut self) -> (r: String)
        ensures
            final(self)@ == (ParserModel { buf: Seq::empty(), ..old(self)@ }),
            r@ == old(self)@.buf,
    {
        let mut r = String::new();
        std::mem::swap(&mut r, &mut self.buf);
        assert(self@ =~= ParserModel { buf: Seq::empty(), ..old(self)@ });
        r
    }

    /// Whether any text was collected.
    pub fn buf_has_data(&self) -> (r: bool)
        ensures
            r == (self@.buf.len() > 0),
    {
        !self.buf.as_str().is_empty()
    }

    /// Reads one token of a qualified name for `target`.
    pub fn read_qualified_name(&mut self, t: Token, target: QualifiedNameTarget) -> (r: NameRead)
        ensures
            ({
                let (m, ev, name) = read_qualified_name_step(old(self)@, t, target);
                &&& final(self)@ == m
                &&& match r {
                    NameRead::Pending(e) => name is None && opt_event_view(e) == ev,
                    NameRead::Complete(n) => name == Some(n@) && ev is None,
                }
            }),
    {
        if self.buf.as_str().is_empty() {
            self.read_prefix_separator = false;
        }
        let ghost m0 = self@;
        assert(m0 =~= ParserModel { read_prefix_separator: name_read_sep(old(self)@), ..old(self)@ });
        let has_data = self.buf_has_data();
        let finish = match t {
            Token::Character(c) => {
                if c == ':' && has_data && !self.read_prefix_separator {
                    push_char(&mut self.buf, ':');
                    self.read_prefix_separator = true;
                    proof {
                        assert(self@ =~= read_qualified_name_step(old(self)@, t, target).0);
                    }
                    return NameRead::Pending(None);
                } else if c != ':' && ((!has_data && is_name_start_char(c)) || (has_data
                    && is_name_char(c))) {
                    push_char(&mut self.buf, c);
                    proof {
                        assert(self@ =~= read_qualified_name_step(old(self)@, t, target).0);
                    }
                    return NameRead::Pending(None);
                } else {
                    false
                }
            },
            Token::EqualsSign => target == QualifiedNameTarget::AttributeNameTarget,
            Token::EmptyTagEnd => target == QualifiedNameTarget::OpeningTagNameTarget,
            Token::TagEnd => target == QualifiedNameTarget::OpeningTagNameTarget || target
                == QualifiedNameTarget::ClosingTagNameTarget,
            Token::Whitespace(_) => true,
            _ => false,
        };
        if finish {
            let name = self.take_buf();
            match Name::parse(name.as_str()) {
                Some(n) => NameRead::Complete(n),
                None => {
                    let mut msg = crate::name::copy_str("Qualified name is invalid: ");
                    msg.append(name.as_str());
                    NameRead::Pending(Some(self.error(msg)))
                },
            }
        } else {
            let mut msg = crate::name::copy_str("Unexpected token inside qualified name: ");
            let repr = t.to_repr();
            msg.append(repr.as_str());
            NameRead::Pending(Some(self.error(msg)))
        }
    }

    /// Closes the innermost open element with the name that was read.
    pub fn emit_end_element(&mut self) -> (r: Option<XmlEvent>)
        requires
            old(self)@.element_name is Some,
            old(self)@.est.len() > 0,
        ensures
            ({
                let (m, ev) = end_element_step(old(self)@);
                final(self)@ == m && opt_event_view(r) == ev
            }),
    {
        let mut name = self.data.element_name.take().unwrap();
        let prefix = name.prefix_repr();
        match self.nst.get(prefix.as_str()) {
            None => {
                let mut msg = crate::name::copy_str("Element ");
                let shown = name.to_display_string();
                msg.append(shown.as_str());
                msg.append(" prefix is unbound");
                let e = self.error(msg);
                proof {
                    assert(self@ =~= end_element_step(old(self)@).0);
                }
                Some(e)
            },
            Some(ns) => {
                if ns.as_str().is_empty() {
                    name.namespace = None;
                } else {
                    name.namespace = Some(ns);
                }
                let op_name = self.est.pop().unwrap();
                proof {
                    assert(name_views(self.est@) =~= old(self)@.est.drop_last());
                    assert(op_name@ == old(self)@.est.last());
                }
                if name.same_as(&op_name) {
                    self.pop_namespace = true;
                    let r = self.into_state_emit(State::OutsideTag, XmlEvent::EndElement { name: name });
                    proof {
                        assert(self@ =~= end_element_step(old(self)@).0);
                    }
                    r
                } else {
                    let mut msg = crate::name::copy_str("Unexpected closing tag: ");
                    let shown = name.to_display_string();
                    msg.append(shown.as_str());
                    msg.append(", expected ");
                    let expected = op_name.to_display_string();
                    msg.append(expected.as_str());
                    let e = self.error(msg);
                    proof {
                        assert(self@ =~= end_element_step(old(self)@).0);
                    }
                    Some(e)
                }
            },
        }
    }
}

} // verus!
