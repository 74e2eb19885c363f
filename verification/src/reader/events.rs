//! Events that the pull parser produces.
use vstd::prelude::*;
use crate::name::{Name, NameView};

verus! {

/// An error found while parsing: where it was found and what it is.
pub struct ParserError {
    /// The row of the text at which the error was found.
    pub row: u64,
    /// The column of the text at which the error was found.
    pub column: u64,
    /// The description of the error.
    pub msg: String,
}

/// An event of the pull parser.
pub enum XmlEvent {
    /// The end of an element, with its resolved name.
    EndElement { name: Name },
    /// The content of a CDATA section.
    CData(String),
    /// Character data.
    Characters(String),
    /// A parsing error; no event follows it.
    Error(ParserError),
}

/// The mathematical content of an event.
pub enum XmlEventView {
    EndElement(NameView),
    CData(Seq<char>),
    Characters(Seq<char>),
    Error { row: u64, column: u64, msg: Seq<char> },
}

impl View for XmlEvent {
    type V = XmlEventView;

    open spec fn view(&self) -> XmlEventView {
        match self {
            XmlEvent::EndElement { name } => XmlEventView::EndElement(name@),
            XmlEvent::CData(s) => XmlEventView::CData(s@),
            XmlEvent::Characters(s) => XmlEventView::Characters(s@),
            XmlEvent::Error(e) => XmlEventView::Error { row: e.row, column: e.column, msg: e.msg@ },
        }
    }
}

} // verus!
