//! The parser inside a closing tag.
use vstd::prelude::*;

use crate::name::copy_str;
use crate::namespace::{NS_XMLNS_PREFIX, NS_XML_PREFIX};
use crate::reader::events::{XmlEvent, XmlEventView};
use crate::name::NameView;
use crate::reader::lexer::{Token, token_repr};
use crate::reader::parser::{
    is_name_code,
    is_name_start_code,
    ClosingTagSubstate,
    NameRead,
    ParserModel,
    PullParser,
    QualifiedNameTarget,
    State,
    end_element_step,
    error_event,
    opt_event_view,
    read_qualified_name_step,
};

verus! {

/// The prefixes that no element name may carry.
pub open spec fn reserved_prefix(p: Seq<char>) -> bool {
    p == NS_XML_PREFIX@ || p == NS_XMLNS_PREFIX@
}

/// The error reported for a token that may not occur in a closing tag.
pub open spec fn closing_tag_error(m: ParserModel, t: Token) -> XmlEventView {
    error_event(m.lexer, "Unexpected token inside closing tag: "@ + token_repr(t))
}

/// One token inside a closing tag. While the name is read, its tokens are
/// collected; a complete name with the prefix `xml` or `xmlns` is an error;
/// otherwise the name is kept, and whitespace moves on to the part after the
/// name, while `>` closes the element. After the name, whitespace is
/// skipped and `>` closes the element. Any other token is an error.
pub open spec fn closing_tag_name_step(
    m: ParserModel,
    t: Token,
    s: ClosingTagSubstate,
) -> (ParserModel, Option<XmlEventView>) {
    match s {
        ClosingTagSubstate::CTInsideName => {
            let (m1, ev, name) = read_qualified_name_step(
                m,
                t,
                QualifiedNameTarget::ClosingTagNameTarget,
            );
            match name {
                None => (m1, ev),
                Some(n) => {
                    if n.prefix is Some && reserved_prefix(n.prefix->0) {
                        (
                            m1,
                            Some(
                                error_event(
                                    m.lexer,
                                    "'Some(\""@ + n.prefix->0
                                        + "\")' cannot be an element name prefix"@,
                                ),
                            ),
                        )
                    } else {
                        let m2 = ParserModel { element_name: Some(n), ..m1 };
                        match t {
                            Token::Whitespace(_) => (
                                ParserModel {
                                    st: State::InsideClosingTag(ClosingTagSubstate::CTAfterName),
                                    ..m2
                                },
                                None,
                            ),
                            Token::TagEnd => end_element_step(m2),
                            _ => (m2, Some(closing_tag_error(m, t))),
                        }
                    }
                },
            }
        },
        ClosingTagSubstate::CTAfterName => match t {
            Token::Whitespace(_) => (m, None),
            Token::TagEnd => end_element_step(m),
            _ => (m, Some(closing_tag_error(m, t))),
        },
    }
}

/// Whether the token closes an element: `>` after a complete name whose
/// prefix is allowed, or after the name.
pub open spec fn closing_tag_closes(m: ParserModel, t: Token, s: ClosingTagSubstate) -> bool {
    t is TagEnd && match s {
        ClosingTagSubstate::CTInsideName => {
            let name = read_qualified_name_step(m, t, QualifiedNameTarget::ClosingTagNameTarget).2;
            name is Some && !(name->0.prefix is Some && reserved_prefix(name->0.prefix->0))
        },
        ClosingTagSubstate::CTAfterName => true,
    }
}

impl PullParser {
    /// Handles one token inside a closing tag.
    pub fn inside_closing_tag_name(&mut self, t: Token, s: ClosingTagSubstate) -> (r: Option<
        XmlEvent,
    >)
        requires
            closing_tag_closes(old(self)@, t, s) ==> old(self)@.est.len() > 0,
            closing_tag_closes(old(self)@, t, s) && s == ClosingTagSubstate::CTAfterName
                ==> old(self)@.element_name is Some,
        ensures
            ({
                let (m, ev) = closing_tag_name_step(old(self)@, t, s);
                final(self)@ == m && opt_event_view(r) == ev
            }),
    {
        match s {
            ClosingTagSubstate::CTInsideName => match self.read_qualified_name(
                t,
                QualifiedNameTarget::ClosingTagNameTarget,
            ) {
                NameRead::Pending(ev) => ev,
                NameRead::Complete(name) => {
                    let reserved = match &name.prefix {
                        Some(prefix) => {
                            let xml = copy_str(NS_XML_PREFIX);
                            let xmlns = copy_str(NS_XMLNS_PREFIX);
                            *prefix == xml || *prefix == xmlns
                        },
                        None => false,
                    };
                    if reserved {
                        let mut msg = copy_str("'Some(\"");
                        match &name.prefix {
                            Some(prefix) => msg.append(prefix.as_str()),
                            None => {},
                        }
                        msg.append("\")' cannot be an element name prefix");
                        Some(self.error(msg))
                    } else {
                        self.data.element_name = Some(name);
                        match t {
                            Token::Whitespace(_) => self.into_state_continue(
                                State::InsideClosingTag(ClosingTagSubstate::CTAfterName),
                            ),
                            Token::TagEnd => self.emit_end_element(),
                            _ => {
                                let mut msg = copy_str("Unexpected token inside closing tag: ");
                                let repr = t.to_repr();
                                msg.append(repr.as_str());
                                Some(self.error(msg))
                            },
                        }
                    }
                },
            },
            ClosingTagSubstate::CTAfterName => match t {
                Token::Whitespace(_) => None,
                Token::TagEnd => self.emit_end_element(),
                _ => {
                    let mut msg = copy_str("Unexpected token inside closing tag: ");
                    let repr = t.to_repr();
                    msg.append(repr.as_str());
                    Some(self.error(msg))
                },
            },
        }
    }
}

/// No element is closed under a reserved prefix: an end-element event
/// reported inside a closing tag never carries the prefix `xml` or `xmlns`.
pub proof fn law_no_reserved_end_element(m: ParserModel, t: Token, s: ClosingTagSubstate)
    requires
        s == ClosingTagSubstate::CTInsideName,
    ensures
        closing_tag_name_step(m, t, s).1 matches Some(XmlEventView::EndElement(n)) ==> !(
        n.prefix is Some && reserved_prefix(n.prefix->0)),
{
}

/// After the name of a closing tag, `>` closes the innermost open element
/// exactly when the name, with its prefix resolved, is that element's name;
/// the element is then taken off the stack of open elements and the parser
/// is outside any tag. Whitespace there changes nothing.
pub proof fn law_closing_tag_closes_innermost(m: ParserModel, n: NameView, ns: Seq<char>, c: char)
    requires
        m.element_name == Some(n),
        m.est.len() > 0,
        crate::namespace::stack_get(m.nst, crate::name::prefix_or_empty(n)) == Some(ns),
    ensures
        ({
            let resolved = NameView {
                namespace: if ns.len() == 0 {
                    None
                } else {
                    Some(ns)
                },
                ..n
            };
            let (m1, ev) = closing_tag_name_step(m, Token::TagEnd, ClosingTagSubstate::CTAfterName);
            &&& (ev == Some(XmlEventView::EndElement(resolved))) == (resolved == m.est.last())
            &&& ev is Some
            &&& m1.est == m.est.drop_last()
            &&& m1.element_name is None
            &&& resolved == m.est.last() ==> m1.st == State::OutsideTag
        }),
        closing_tag_name_step(m, Token::Whitespace(c), ClosingTagSubstate::CTAfterName) == (
            m,
            None::<XmlEventView>,
        ),
{
}

/// A character that may start a plain element name: an ASCII letter or `_`.
pub open spec fn plain_name_start(c: char) -> bool {
    let v = c as u32;
    (0x41 <= v <= 0x5A) || (0x61 <= v <= 0x7A) || v == 0x5F
}

/// A character that may continue a plain element name: an ASCII letter or
/// digit, `_`, `-` or `.`.
pub open spec fn plain_name_char(c: char) -> bool {
    let v = c as u32;
    plain_name_start(c) || (0x30 <= v <= 0x39) || v == 0x2D || v == 0x2E
}

/// A plain element name: a starting character followed by continuing ones,
/// as in `h1`, `list-item` or `a.b`.
pub open spec fn plain_name(s: Seq<char>) -> bool {
    s.len() > 0 && plain_name_start(s[0]) && forall|i: int|
        0 <= i < s.len() ==> plain_name_char(#[trigger] s[i])
}

/// Once a qualified name has started, every name character other than the
/// separator (letters, digits, `-`, `.`, `_`, and the rest of the XML
/// `NameChar` production) is taken into the name, for whatever the name
/// belongs to, and nothing is reported.
pub proof fn law_name_continues(m: ParserModel, c: char, target: QualifiedNameTarget)
    requires
        m.buf.len() > 0,
    ensures
        plain_name_char(c) ==> c != ':' && is_name_code(c as u32),
        c != ':' && is_name_code(c as u32) ==> read_qualified_name_step(
            m,
            Token::Character(c),
            target,
        ) == (ParserModel { buf: m.buf.push(c), ..m }, None::<XmlEventView>, None::<NameView>),
{
}

/// The state after the characters of `s` were read inside a closing tag's
/// name.
pub open spec fn closing_name_run(m: ParserModel, s: Seq<char>) -> ParserModel
    decreases s.len(),
{
    if s.len() == 0 {
        m
    } else {
        closing_tag_name_step(
            closing_name_run(m, s.drop_last()),
            Token::Character(s.last()),
            ClosingTagSubstate::CTInsideName,
        ).0
    }
}

/// Reading the characters of a plain name inside a closing tag reports
/// nothing and collects exactly those characters, changing nothing else.
pub proof fn law_closing_name_collected(m: ParserModel, s: Seq<char>)
    requires
        m.buf.len() == 0,
        plain_name(s),
    ensures
        closing_name_run(m, s) == (ParserModel {
            buf: s,
            read_prefix_separator: false,
            ..m
        }),
        forall|k: int|
            0 <= k < s.len() ==> (#[trigger] closing_tag_name_step(
                closing_name_run(m, s.take(k)),
                Token::Character(s[k]),
                ClosingTagSubstate::CTInsideName,
            )).1 is None,
    decreases s.len(),
{
    let n = s.len() - 1;
    let init = s.drop_last();
    let c = s[n];
    if init.len() > 0 {
        assert(plain_name_start(init[0]));
        assert forall|i: int| 0 <= i < init.len() implies plain_name_char(#[trigger] init[i]) by {
            assert(init[i] == s[i]);
        }
        law_closing_name_collected(m, init);
    }
    let prev = closing_name_run(m, init);
    assert(prev == ParserModel { buf: init, read_prefix_separator: if init.len() == 0 {
        m.read_prefix_separator
    } else {
        false
    }, ..m });
    assert(plain_name_char(c));
    assert(c != ':');
    if init.len() == 0 {
        assert(c == s[0]);
        assert(is_name_start_code(c as u32));
    } else {
        assert(is_name_code(c as u32));
    }
    assert(closing_name_run(m, s) =~= ParserModel { buf: s, read_prefix_separator: false, ..m });
    assert forall|k: int| 0 <= k < s.len() implies (#[trigger] closing_tag_name_step(
        closing_name_run(m, s.take(k)),
        Token::Character(s[k]),
        ClosingTagSubstate::CTInsideName,
    )).1 is None by {
        if k < n {
            assert(init.take(k) =~= s.take(k));
            assert(init[k] == s[k]);
        } else {
            assert(s.take(k) =~= init);
        }
    }
}

/// The closing tag of the innermost open element closes it: where the
/// innermost open element has a plain name `s` and no namespace, and no
/// prefix means no namespace, reading `s` and then `>` inside a closing tag
/// reports the end of that element, takes it off the stack of open
/// elements and leaves the parser outside any tag.
pub proof fn law_closing_tag_of_open_element(m: ParserModel, s: Seq<char>)
    requires
        m.buf.len() == 0,
        plain_name(s),
        m.est.len() > 0,
        m.est.last() == (NameView { local_name: s, namespace: None, prefix: None }),
        crate::namespace::stack_get(m.nst, Seq::empty()) == Some(Seq::<char>::empty()),
    ensures
        ({
            let (m1, ev) = closing_tag_name_step(
                closing_name_run(m, s),
                Token::TagEnd,
                ClosingTagSubstate::CTInsideName,
            );
            &&& ev == Some(
                XmlEventView::EndElement(NameView { local_name: s, namespace: None, prefix: None }),
            )
            &&& m1.est == m.est.drop_last()
            &&& m1.st == State::OutsideTag
            &&& m1.buf.len() == 0
            &&& m1.element_name is None
        }),
{
    law_closing_name_collected(m, s);
    assert(crate::name::no_colon(s)) by {
        assert forall|i: int| 0 <= i < s.len() implies s[i] != ':' by {
            assert(plain_name_char(s[i]));
        }
    }
}

} // verus!
