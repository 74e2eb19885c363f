//! The parser inside a CDATA section.
use vstd::prelude::*;

use crate::reader::events::{XmlEvent, XmlEventView};
use crate::reader::lexer::{Lexer, Token, token_repr};
use crate::reader::parser::{ParserModel, PullParser, State, opt_event_view};

verus! {

/// One token inside a CDATA section: `]]>` ends the section, re-enables
/// lexical errors and reports the collected text as a CDATA event (or keeps
/// it for character data, where the configuration turns CDATA into
/// characters); any other token is collected, and only whitespace keeps the
/// text counted as whitespace.
pub open spec fn cdata_step(m: ParserModel, t: Token) -> (ParserModel, Option<XmlEventView>) {
    match t {
        Token::CDataEnd => {
            let m1 = ParserModel {
                lexer: Lexer { skip_errors: false, ..m.lexer },
                st: State::OutsideTag,
                ..m
            };
            if m.config.cdata_to_characters {
                (m1, None)
            } else {
                (ParserModel { buf: Seq::empty(), ..m1 }, Some(XmlEventView::CData(m.buf)))
            }
        },
        Token::Whitespace(_) => (ParserModel { buf: m.buf + token_repr(t), ..m }, None),
        _ => (ParserModel { buf: m.buf + token_repr(t), inside_whitespace: false, ..m }, None),
    }
}

impl PullParser {
    /// Handles one token inside a CDATA section.
    pub fn inside_cdata(&mut self, t: Token) -> (r: Option<XmlEvent>)
        ensures
            ({
                let (m, ev) = cdata_step(old(self)@, t);
                final(self)@ == m && opt_event_view(r) == ev
            }),
    {
        match t {
            Token::CDataEnd => {
                self.lexer.enable_errors();
                let event = if self.config.cdata_to_characters {
                    None
                } else {
                    let data = self.take_buf();
                    Some(XmlEvent::CData(data))
                };
                let r = self.into_state(State::OutsideTag, event);
                assert(self@ =~= cdata_step(old(self)@, t).0);
                r
            },
            Token::Whitespace(_) => {
                t.push_to_string(&mut self.buf);
                assert(self@ =~= cdata_step(old(self)@, t).0);
                None
            },
            _ => {
                self.inside_whitespace = false;
                t.push_to_string(&mut self.buf);
                assert(self@ =~= cdata_step(old(self)@, t).0);
                None
            },
        }
    }
}

/// The text that a sequence of tokens stands for.
pub open spec fn tokens_text(ts: Seq<Token>) -> Seq<char>
    decreases ts.len(),
{
    if ts.len() == 0 {
        Seq::empty()
    } else {
        tokens_text(ts.drop_last()) + token_repr(ts.last())
    }
}

/// The state after a sequence of tokens inside a CDATA section.
pub open spec fn cdata_run(m: ParserModel, ts: Seq<Token>) -> ParserModel
    decreases ts.len(),
{
    if ts.len() == 0 {
        m
    } else {
        cdata_step(cdata_run(m, ts.drop_last()), ts.last()).0
    }
}

/// Inside a CDATA section every token up to `]]>` is collected as it is
/// written, the text stays counted as whitespace exactly while every token
/// was whitespace, and `]]>` reports exactly the collected text as the section's
/// content (where CDATA is not turned into characters), leaves the section
/// and empties the buffer.
pub proof fn law_cdata_content(m: ParserModel, ts: Seq<Token>)
    requires
        m.st == State::InsideCData,
        forall|i: int| 0 <= i < ts.len() ==> !(#[trigger] ts[i] is CDataEnd),
    ensures
        cdata_run(m, ts).buf == m.buf + tokens_text(ts),
        cdata_run(m, ts).st == State::InsideCData,
        cdata_run(m, ts).config == m.config,
        cdata_run(m, ts).inside_whitespace == (m.inside_whitespace && forall|i: int|
            0 <= i < ts.len() ==> #[trigger] ts[i] is Whitespace),
        !m.config.cdata_to_characters ==> cdata_step(cdata_run(m, ts), Token::CDataEnd) == (
            ParserModel {
                buf: Seq::empty(),
                st: State::OutsideTag,
                lexer: Lexer { skip_errors: false, ..cdata_run(m, ts).lexer },
                ..cdata_run(m, ts)
            },
            Some(XmlEventView::CData(m.buf + tokens_text(ts))),
        ),
    decreases ts.len(),
{
    if ts.len() > 0 {
        let ts0 = ts.drop_last();
        assert forall|i: int| 0 <= i < ts0.len() implies !(#[trigger] ts0[i] is CDataEnd) by {
            assert(ts0[i] == ts[i]);
        }
        law_cdata_content(m, ts0);
        assert(!(ts[ts.len() - 1] is CDataEnd));
        if !(ts[ts.len() - 1] is Whitespace) {
            assert(!(forall|i: int| 0 <= i < ts.len() ==> #[trigger] ts[i] is Whitespace));
        } else {
            if forall|i: int| 0 <= i < ts0.len() ==> #[trigger] ts0[i] is Whitespace {
                assert forall|i: int| 0 <= i < ts.len() implies #[trigger] ts[i] is Whitespace by {
                    if i < ts0.len() {
                        assert(ts0[i] == ts[i]);
                    }
                }
            } else {
                let k = choose|k: int| 0 <= k < ts0.len() && !(#[trigger] ts0[k] is Whitespace);
                assert(ts[k] == ts0[k]);
            }
        }
        assert(cdata_run(m, ts).buf =~= m.buf + tokens_text(ts));
    }
}

} // verus!
