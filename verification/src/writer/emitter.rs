//! The emitter: turns writer events into XML text, keeping track of what
//! was written last so that markup can be put on lines of its own.
use std::io;
use vstd::prelude::*;

use crate::attribute::{Attribute, AttributeView};
use crate::common::{XmlVersion, version_repr};
use crate::escape::{
    begins_with_entity,
    escape_str,
    escaped,
    law_escaped_ampersands,
    law_escaped_has_no_delimiters,
    law_unescape_escaped,
    unescaped,
};
use crate::name::{Name, copy_str, name_repr};
use crate::namespace::{
    Namespace,
    NamespaceStack,
    NamespaceView,
    stack_mappings,
    NS_XML_PREFIX,
    NS_XMLNS_PREFIX,
};
use crate::writer::config::{EmitterConfig, EmitterConfigView};

verus! {

/// Declares `std::io::Error` to the verifier as an opaque type, so that an
/// emitter error can carry the I/O error that caused it. Nothing is claimed
/// of what such an error holds.
#[verifier::external_type_specification]
#[verifier::external_body]
pub struct ExIoError(io::Error);

/// The kinds of errors that the emitter reports.
#[derive(Clone, Copy, Debug, PartialEq, Eq, Structural)]
pub enum EmitterErrorKind {
    IoError,
    DocumentStartAlreadyEmitted,
    UnexpectedEvent,
    InvalidWhitespaceEvent,
}

/// An error of the emitter: its kind, a message, and the I/O error that
/// caused it, where there is one.
pub struct EmitterError {
    kind: EmitterErrorKind,
    message: &'static str,
    cause: Option<io::Error>,
}

impl EmitterError {
    /// The kind of this error.
    pub closed spec fn spec_kind(&self) -> EmitterErrorKind {
        self.kind
    }

    /// The message of this error.
    pub closed spec fn spec_message(&self) -> Seq<char> {
        self.message@
    }

    /// The I/O error that caused this error, where there is one.
    pub closed spec fn spec_cause(&self) -> Option<io::Error> {
        self.cause
    }

    /// The kind of this error.
    #[verifier::when_used_as_spec(spec_kind)]
    pub fn kind(&self) -> (k: EmitterErrorKind)
        ensures
            k == self.spec_kind(),
    {
        self.kind
    }

    /// The message of this error.
    pub fn message(&self) -> (m: &'static str)
        ensures
            m@ == self.spec_message(),
    {
        self.message
    }

    /// The I/O error that caused this error, where there is one.
    pub fn cause(&self) -> (c: Option<&io::Error>)
        ensures
            match c {
                Some(e) => self.spec_cause() == Some(*e),
                None => self.spec_cause() is None,
            },
    {
        match &self.cause {
            Some(e) => Some(e),
            None => None,
        }
    }

    /// The text that describes this error in debugging output, given the
    /// description of its cause: `Emitter error: ` and the quoted message,
    /// followed by `; caused by: ` and the cause's description where there
    /// is one.
    pub fn describe_with(&self, cause_text: Option<&str>) -> (s: String)
        ensures
            s@ == describe_text(
                self.spec_message(),
                match cause_text {
                    Some(t) => Some(t@),
                    None => None,
                },
            ),
    {
        let mut s = copy_str("Emitter error: ");
        let quoted = debug_str(self.message);
        s.append(quoted.as_str());
        match cause_text {
            Some(t) => {
                s.append("; caused by: ");
                s.append(t);
            },
            None => {},
        }
        s
    }

    /// The text that describes this error in debugging output: as
    /// `describe_with`, with the `Debug` description of the cause where
    /// there is one.
    pub fn describe(&self) -> (s: String)
        ensures
            self.spec_cause() is None ==> s@ == describe_text(self.spec_message(), None),
            self.spec_cause() is Some ==> exists|t: Seq<char>|
                s@ == describe_text(self.spec_message(), Some(t)),
    {
        match &self.cause {
            Some(e) => {
                let d = debug_io_error(e);
                let s = self.describe_with(Some(d.as_str()));
                assert(s@ == describe_text(self.spec_message(), Some(d@)));
                s
            },
            None => self.describe_with(None),
        }
    }
}

/// The debugging description of an error with the given message and the
/// given description of its cause.
pub open spec fn describe_text(message: Seq<char>, cause: Option<Seq<char>>) -> Seq<char> {
    "Emitter error: "@ + str_debug_repr(message) + match cause {
        Some(t) => "; caused by: "@ + t,
        None => Seq::empty(),
    }
}

/// What the `Debug` formatting of a string slice writes for a text: the
/// text in double quotes, with quotes, backslashes and control characters
/// escaped.
pub uninterp spec fn str_debug_repr(s: Seq<char>) -> Seq<char>;

/// Formats a string slice with `Debug` (`<str as Debug>::fmt`). The result
/// is named by `str_debug_repr`; its escaping rules are not restated here.
#[verifier::external_body]
fn debug_str(s: &str) -> (r: String)
    ensures
        r@ == str_debug_repr(s@),
{
    format!("{:?}", s)
}

/// Formats an I/O error with `Debug` (`<io::Error as Debug>::fmt`). Nothing
/// is stated of the result: for operating-system errors it holds a message
/// that the system supplies.
#[verifier::external_body]
fn debug_io_error(e: &io::Error) -> String {
    format!("{:?}", e)
}

/// Creates an error of the given kind with the given message and no cause.
pub fn error(kind: EmitterErrorKind, message: &'static str) -> (e: EmitterError)
    ensures
        e.spec_kind() == kind,
        e.spec_message() == message@,
        e.spec_cause() is None,
{
    EmitterError { kind: kind, message: message, cause: None }
}

/// Wraps an I/O error into an emitter error of kind `IoError`.
fn io_error(err: io::Error) -> (e: EmitterError)
    ensures
        e.spec_kind() == EmitterErrorKind::IoError,
        e.spec_message() == "Input/output error"@,
        e.spec_cause() == Some(err),
{
    EmitterError { kind: EmitterErrorKind::IoError, message: "Input/output error", cause: Some(err) }
}

/// The result of an emitter operation.
pub type EmitterResult<T> = Result<T, EmitterError>;

/// Turns the result of an I/O operation into an emitter result: a value is
/// kept, an I/O error becomes an error of kind `IoError` caused by it.
pub fn io_wrap<T>(result: io::Result<T>) -> (r: EmitterResult<T>)
    ensures
        match result {
            Ok(v) => r == Ok::<T, EmitterError>(v),
            Err(err) => r matches Err(e) && e.spec_kind() == EmitterErrorKind::IoError
                && e.spec_message() == "Input/output error"@ && e.spec_cause() == Some(err),
        },
{
    match result {
        Ok(v) => Ok(v),
        Err(err) => Err(io_error(err)),
    }
}

/// What was written last at the current level of nesting: nothing yet,
/// markup, or text.
#[derive(Clone, Copy, Debug, PartialEq, Eq, Structural)]
pub enum IndentFlags {
    WroteNothing,
    WroteMarkup,
    WroteText,
}

/// The mathematical state of an emitter.
#[verifier::ext_equal]
pub struct EmitterModel {
    pub config: EmitterConfigView,
    pub nst: Seq<NamespaceView>,
    pub indent_level: nat,
    pub indent_stack: Seq<IndentFlags>,
    pub start_document_emitted: bool,
}

/// The state of a fresh emitter.
pub open spec fn initial_model(config: EmitterConfigView) -> EmitterModel {
    EmitterModel {
        config: config,
        nst: Seq::empty(),
        indent_level: 0,
        indent_stack: seq![IndentFlags::WroteNothing],
        start_document_emitted: false,
    }
}

/// The invariant of every emitter: the stack of indentation flags holds one
/// entry for the document and one for each open level.
pub open spec fn model_wf(m: EmitterModel) -> bool {
    m.indent_stack.len() >= m.indent_level + 1
}

/// What was written last at the innermost level.
pub open spec fn top(m: EmitterModel) -> IndentFlags {
    m.indent_stack.last()
}

/// The state with the innermost flag replaced.
pub open spec fn with_top(m: EmitterModel, f: IndentFlags) -> EmitterModel {
    EmitterModel { indent_stack: m.indent_stack.update(m.indent_stack.len() - 1, f), ..m }
}

/// `s` written `n` times.
pub open spec fn repeat(s: Seq<char>, n: nat) -> Seq<char>
    decreases n,
{
    if n == 0 {
        Seq::empty()
    } else {
        repeat(s, (n - 1) as nat) + s
    }
}

/// A line break followed by `level` indentation strings.
pub open spec fn newline(c: EmitterConfigView, level: nat) -> Seq<char> {
    c.line_separator + repeat(c.indent_string, level)
}

/// Before markup a new line is started, unless text was written last, or
/// nothing was written yet at the outermost level; where the line is
/// indented, markup counts as written.
pub open spec fn before_markup(m: EmitterModel) -> (EmitterModel, Seq<char>) {
    if top(m) != IndentFlags::WroteText && (m.indent_level > 0 || top(m)
        == IndentFlags::WroteMarkup) {
        let next = if m.indent_level > 0 && m.config.indent_string.len() > 0 {
            with_top(m, IndentFlags::WroteMarkup)
        } else {
            m
        };
        (next, newline(m.config, m.indent_level))
    } else {
        (m, Seq::empty())
    }
}

/// The text of a document declaration.
pub open spec fn declaration_text(
    version: XmlVersion,
    encoding: Seq<char>,
    standalone: Option<bool>,
) -> Seq<char> {
    "<?xml version=\""@ + version_repr(version) + "\" encoding=\""@ + encoding + "\""@ + (
    match standalone {
        Some(b) => " standalone=\""@ + (if b {
            "yes"@
        } else {
            "no"@
        }) + "\""@,
        None => Seq::empty(),
    }) + "?>"@
}

/// Writing a document declaration, where none was written yet.
pub open spec fn start_document(
    m: EmitterModel,
    version: XmlVersion,
    encoding: Seq<char>,
    standalone: Option<bool>,
) -> (EmitterModel, Seq<char>) {
    let m1 = EmitterModel { start_document_emitted: true, ..m };
    let (m2, pre) = before_markup(m1);
    (with_top(m2, IndentFlags::WroteMarkup), pre + declaration_text(version, encoding, standalone))
}

/// The declaration that is written before the first markup, where the
/// configuration asks for one and none was written yet.
pub open spec fn document_started(m: EmitterModel) -> (EmitterModel, Seq<char>) {
    if !m.start_document_emitted && m.config.write_document_declaration {
        start_document(m, XmlVersion::Version10, "utf-8"@, None)
    } else {
        (m, Seq::empty())
    }
}

/// Writing a processing instruction.
pub open spec fn processing_instruction(
    m: EmitterModel,
    name: Seq<char>,
    data: Option<Seq<char>>,
) -> (EmitterModel, Seq<char>) {
    let (m1, o1) = document_started(m);
    let (m2, o2) = before_markup(m1);
    let body = "<?"@ + name + (match data {
        Some(d) => " "@ + d,
        None => Seq::empty(),
    }) + "?>"@;
    (with_top(m2, IndentFlags::WroteMarkup), o1 + o2 + body)
}

/// The declaration written for one namespace binding: none for the
/// predefined prefixes `xml` and `xmlns`, none for an empty default
/// namespace.
pub open spec fn namespace_attribute(entry: (Seq<char>, Seq<char>)) -> Seq<char> {
    let (prefix, uri) = entry;
    if prefix == NS_XMLNS_PREFIX@ || prefix == NS_XML_PREFIX@ {
        Seq::empty()
    } else if prefix.len() > 0 {
        " xmlns:"@ + prefix + "=\""@ + uri + "\""@
    } else if uri.len() > 0 {
        " xmlns=\""@ + uri + "\""@
    } else {
        Seq::empty()
    }
}

/// The declarations written for all bindings of a namespace, in order.
pub open spec fn namespace_attributes(ns: NamespaceView) -> Seq<char>
    decreases ns.len(),
{
    if ns.len() == 0 {
        Seq::empty()
    } else {
        namespace_attributes(ns.drop_last()) + namespace_attribute(ns.last())
    }
}

/// The text written for one attribute: its name and its escaped value.
pub open spec fn attribute_text(a: AttributeView) -> Seq<char> {
    " "@ + name_repr(a.name) + "=\""@ + escaped(a.value) + "\""@
}

/// The text written for a list of attributes, in order.
pub open spec fn attributes_text(attrs: Seq<AttributeView>) -> Seq<char>
    decreases attrs.len(),
{
    if attrs.len() == 0 {
        Seq::empty()
    } else {
        attributes_text(attrs.drop_last()) + attribute_text(attrs.last())
    }
}

/// The views of a slice of attributes.
pub open spec fn attribute_views(attrs: Seq<Attribute>) -> Seq<AttributeView> {
    attrs.map_values(|a: Attribute| a@)
}

/// Writing the opening of a start tag: the name, the namespace declarations
/// and the attributes; a new level of indentation flags is opened.
pub open spec fn start_element_initial(
    m: EmitterModel,
    name: Seq<char>,
    attrs: Seq<AttributeView>,
    ns: NamespaceView,
) -> (EmitterModel, Seq<char>) {
    let (m1, o1) = document_started(m);
    let (m2, o2) = before_markup(m1);
    let m3 = EmitterModel { indent_stack: m2.indent_stack.push(IndentFlags::WroteNothing), ..m2 };
    (m3, o1 + o2 + "<"@ + name + namespace_attributes(ns) + attributes_text(attrs))
}

/// Before an end tag a new line is started where markup was written last
/// inside the element.
pub open spec fn before_end_element(m: EmitterModel) -> Seq<char> {
    if m.indent_level > 0 && top(m) == IndentFlags::WroteMarkup && top(m)
        != IndentFlags::WroteText {
        newline(m.config, (m.indent_level - 1) as nat)
    } else {
        Seq::empty()
    }
}

/// After an end tag the level is closed and markup counts as written.
pub open spec fn after_end_element(m: EmitterModel) -> EmitterModel {
    let m1 = if m.indent_level > 0 {
        EmitterModel {
            indent_level: (m.indent_level - 1) as nat,
            indent_stack: m.indent_stack.drop_last(),
            ..m
        }
    } else {
        m
    };
    with_top(m1, IndentFlags::WroteMarkup)
}

/// Writing an end tag.
pub open spec fn end_element(m: EmitterModel, name: Seq<char>) -> (EmitterModel, Seq<char>) {
    (after_end_element(m), before_end_element(m) + "</"@ + name + ">"@)
}

/// Writing character data: escaped, and counted as text.
pub open spec fn characters(m: EmitterModel, content: Seq<char>) -> (EmitterModel, Seq<char>) {
    (with_top(m, IndentFlags::WroteText), escaped(content))
}

/// Writing a CDATA section, or character data where the configuration asks
/// for it.
pub open spec fn cdata(m: EmitterModel, content: Seq<char>) -> (EmitterModel, Seq<char>) {
    if m.config.cdata_to_characters {
        characters(m, content)
    } else {
        (with_top(m, IndentFlags::WroteText), "<![CDATA["@ + content + "]]>"@)
    }
}

/// Emits XML text for writer events, into a string that the caller then
/// hands on.
pub struct Emitter {
    config: EmitterConfig,
    nst: NamespaceStack,
    indent_level: usize,
    indent_stack: Vec<IndentFlags>,
    start_document_emitted: bool,
}

impl View for Emitter {
    type V = EmitterModel;

    closed spec fn view(&self) -> EmitterModel {
        EmitterModel {
            config: self.config@,
            nst: self.nst@,
            indent_level: self.indent_level as nat,
            indent_stack: self.indent_stack@,
            start_document_emitted: self.start_document_emitted,
        }
    }
}

impl Emitter {
    #[verifier::type_invariant]
    closed spec fn inv(&self) -> bool {
        model_wf(self@)
    }

    /// Creates an emitter with the given configuration.
    pub fn new(config: EmitterConfig) -> (e: Emitter)
        ensures
            e@ == initial_model(config@),
    {
        let e = Emitter {
            config: config,
            nst: NamespaceStack::empty(),
            indent_level: 0,
            indent_stack: vec![IndentFlags::WroteNothing],
            start_document_emitted: false,
        };
        assert(e@ =~= initial_model(config@));
        e
    }

    /// Returns current state of namespaces.
    pub fn namespace_stack(&self) -> (s: &NamespaceStack)
        ensures
            s@ == self@.nst,
    {
        &self.nst
    }

    fn wrote_text(&self) -> (r: bool)
        ensures
            r == (top(self@) == IndentFlags::WroteText),
    {
        proof {
            use_type_invariant(self);
        }
        self.indent_stack[self.indent_stack.len() - 1] == IndentFlags::WroteText
    }

    fn wrote_markup(&self) -> (r: bool)
        ensures
            r == (top(self@) == IndentFlags::WroteMarkup),
    {
        proof {
            use_type_invariant(self);
        }
        self.indent_stack[self.indent_stack.len() - 1] == IndentFlags::WroteMarkup
    }

    fn set_top(&mut self, f: IndentFlags)
        ensures
            final(self)@ == with_top(old(self)@, f),
    {
        proof {
            use_type_invariant(&*self);
        }
        let n = self.indent_stack.len();
        self.indent_stack[n - 1] = f;
        assert(self@ =~= with_top(old(self)@, f));
    }

    /// Opens a level of indentation flags, with `f` as its flag. While the
    /// stack is taken out, a one-entry stack and a level count of zero stand
    /// in, so that the invariant holds at every step.
    fn push_flag(&mut self, f: IndentFlags)
        ensures
            final(self)@ == (EmitterModel {
                indent_stack: old(self)@.indent_stack.push(f),
                ..old(self)@
            }),
    {
        proof {
            use_type_invariant(&*self);
        }
        let level = self.indent_level;
        self.indent_level = 0;
        let mut stack: Vec<IndentFlags> = vec![IndentFlags::WroteNothing];
        std::mem::swap(&mut stack, &mut self.indent_stack);
        stack.push(f);
        std::mem::swap(&mut stack, &mut self.indent_stack);
        self.indent_level = level;
        assert(self@ =~= EmitterModel {
            indent_stack: old(self)@.indent_stack.push(f),
            ..old(self)@
        });
    }

    /// Closes the innermost level of indentation flags, where one is open
    /// besides the document's.
    fn pop_level(&mut self)
        requires
            old(self)@.indent_level > 0,
        ensures
            final(self)@ == (EmitterModel {
                indent_level: (old(self)@.indent_level - 1) as nat,
                indent_stack: old(self)@.indent_stack.drop_last(),
                ..old(self)@
            }),
    {
        proof {
            use_type_invariant(&*self);
        }
        let level = self.indent_level - 1;
        self.indent_level = 0;
        let mut stack: Vec<IndentFlags> = vec![IndentFlags::WroteNothing];
        std::mem::swap(&mut stack, &mut self.indent_stack);
        stack.pop();
        std::mem::swap(&mut stack, &mut self.indent_stack);
        self.indent_level = level;
        assert(self@ =~= EmitterModel {
            indent_level: (old(self)@.indent_level - 1) as nat,
            indent_stack: old(self)@.indent_stack.drop_last(),
            ..old(self)@
        });
    }

    fn set_wrote_text(&mut self)
        ensures
            final(self)@ == with_top(old(self)@, IndentFlags::WroteText),
    {
        self.set_top(IndentFlags::WroteText);
    }

    fn set_wrote_markup(&mut self)
        ensures
            final(self)@ == with_top(old(self)@, IndentFlags::WroteMarkup),
    {
        self.set_top(IndentFlags::WroteMarkup);
    }

    fn reset_state(&mut self)
        ensures
            final(self)@ == with_top(old(self)@, IndentFlags::WroteNothing),
    {
        self.set_top(IndentFlags::WroteNothing);
    }

    fn write_newline(&self, target: &mut String, level: usize)
        ensures
            final(target)@ == old(target)@ + newline(self@.config, level as nat),
    {
        target.append(self.config.line_separator.as_str());
        let mut i: usize = 0;
        while i < level
            invariant
                i <= level,
                target@ == old(target)@ + self@.config.line_separator + repeat(
                    self@.config.indent_string,
                    i as nat,
                ),
            decreases level - i,
        {
            target.append(self.config.indent_string.as_str());
            i = i + 1;
        }
    }

    fn before_markup(&mut self, target: &mut String)
        ensures
            (final(self)@, final(target)@) == ({
                let (m, out) = before_markup(old(self)@);
                (m, old(target)@ + out)
            }),
    {
        if !self.wrote_text() && (self.indent_level > 0 || self.wrote_markup()) {
            let indent_level = self.indent_level;
            self.write_newline(target, indent_level);
            if self.indent_level > 0 && !self.config.indent_string.as_str().is_empty() {
                self.after_markup();
            }
        }
    }

    fn after_markup(&mut self)
        ensures
            final(self)@ == with_top(old(self)@, IndentFlags::WroteMarkup),
    {
        self.set_wrote_markup();
    }

    fn before_start_element(&mut self, target: &mut String)
        ensures
            (final(self)@, final(target)@) == ({
                let (m, out) = before_markup(old(self)@);
                (
                    EmitterModel { indent_stack: m.indent_stack.push(IndentFlags::WroteNothing), ..m },
                    old(target)@ + out,
                )
            }),
    {
        self.before_markup(target);
        self.push_flag(IndentFlags::WroteNothing);
    }

    fn after_start_element(&mut self)
        requires
            old(self)@.indent_stack.len() >= old(self)@.indent_level + 2,
            old(self)@.indent_level < usize::MAX,
        ensures
            final(self)@ == ({
                let m = with_top(old(self)@, IndentFlags::WroteMarkup);
                EmitterModel { indent_level: m.indent_level + 1, ..m }
            }),
    {
        self.after_markup();
        self.indent_level = self.indent_level + 1;
        assert(self@ =~= ({
            let m = with_top(old(self)@, IndentFlags::WroteMarkup);
            EmitterModel { indent_level: m.indent_level + 1, ..m }
        }));
    }

    fn before_end_element(&self, target: &mut String)
        ensures
            final(target)@ == old(target)@ + before_end_element(self@),
    {
        if self.indent_level > 0 && self.wrote_markup() && !self.wrote_text() {
            let indent_level = self.indent_level;
            self.write_newline(target, indent_level - 1);
        }
    }

    fn after_end_element(&mut self)
        ensures
            final(self)@ == after_end_element(old(self)@),
    {
        if self.indent_level > 0 {
            self.pop_level();
        }
        self.set_wrote_markup();
        assert(self@ =~= after_end_element(old(self)@));
    }

    fn after_text(&mut self)
        ensures
            final(self)@ == with_top(old(self)@, IndentFlags::WroteText),
    {
        self.set_wrote_text();
    }

    /// Writes a document declaration with the given version, encoding and
    /// standalone flag. Fails, writing nothing, where a declaration was
    /// written already.
    pub fn emit_start_document(
        &mut self,
        target: &mut String,
        version: XmlVersion,
        encoding: &str,
        standalone: Option<bool>,
    ) -> (r: EmitterResult<()>)
        ensures
            old(self)@.start_document_emitted ==> (r matches Err(e) && e.spec_kind()
                == EmitterErrorKind::DocumentStartAlreadyEmitted && e.spec_message()
                == "Document start is already emitted"@ && e.spec_cause() is None),
            old(self)@.start_document_emitted ==> final(self)@ == old(self)@ && final(target)@
                == old(target)@,
            !old(self)@.start_document_emitted ==> r is Ok && (final(self)@, final(target)@) == ({
                let (m, out) = start_document(old(self)@, version, encoding@, standalone);
                (m, old(target)@ + out)
            }),
    {
        if self.start_document_emitted {
            return Err(
                error(
                    EmitterErrorKind::DocumentStartAlreadyEmitted,
                    "Document start is already emitted",
                ),
            );
        }
        proof {
            use_type_invariant(&*self);
        }
        self.start_document_emitted = true;
        let ghost m1 = self@;
        self.before_markup(target);
        let ghost t1 = target@;
        target.append("<?xml version=\"");
        target.append(version.as_str());
        target.append("\" encoding=\"");
        target.append(encoding);
        target.append("\"");
        match standalone {
            Some(b) => {
                target.append(" standalone=\"");
                target.append(if b { "yes" } else { "no" });
                target.append("\"");
            },
            None => {},
        }
        target.append("?>");
        self.after_markup();
        proof {
            assert(m1 =~= EmitterModel { start_document_emitted: true, ..old(self)@ });
            assert(target@ =~= t1 + declaration_text(version, encoding@, standalone));
        }
        Ok(())
    }

    fn check_document_started(&mut self, target: &mut String) -> (r: EmitterResult<()>)
        ensures
            r is Ok,
            (final(self)@, final(target)@) == ({
                let (m, out) = document_started(old(self)@);
                (m, old(target)@ + out)
            }),
    {
        if !self.start_document_emitted && self.config.write_document_declaration {
            let r = self.emit_start_document(target, XmlVersion::Version10, "utf-8", None);
            r
        } else {
            proof {
                assert(target@ =~= old(target)@ + Seq::<char>::empty());
            }
            Ok(())
        }
    }

    /// Writes a processing instruction with the given name and data,
    /// preceded by a document declaration where one is due.
    pub fn emit_processing_instruction(
        &mut self,
        target: &mut String,
        name: &str,
        data: Option<&str>,
    ) -> (r: EmitterResult<()>)
        ensures
            r is Ok,
            (final(self)@, final(target)@) == ({
                let (m, out) = processing_instruction(
                    old(self)@,
                    name@,
                    match data {
                        Some(d) => Some(d@),
                        None => None,
                    },
                );
                (m, old(target)@ + out)
            }),
    {
        let _ = self.check_document_started(target);
        self.before_markup(target);
        let ghost t2 = target@;
        target.append("<?");
        target.append(name);
        match data {
            Some(d) => {
                target.append(" ");
                target.append(d);
            },
            None => {},
        }
        target.append("?>");
        self.after_markup();
        proof {
            let dv: Option<Seq<char>> = match data {
                Some(d) => Some(d@),
                None => None,
            };
            let body = "<?"@ + name@ + (match dv {
                Some(d) => " "@ + d,
                None => Seq::empty(),
            }) + "?>"@;
            assert(target@ =~= t2 + body);
            assert(target@ =~= old(target)@ + processing_instruction(old(self)@, name@, dv).1);
        }
        Ok(())
    }

    fn emit_start_element_initial(
        &mut self,
        target: &mut String,
        name: &Name,
        attributes: &[Attribute],
        namespace: &Namespace,
    ) -> (r: EmitterResult<()>)
        ensures
            r is Ok,
            (final(self)@, final(target)@) == ({
                let (m, out) = start_element_initial(
                    old(self)@,
                    name_repr(name@),
                    attribute_views(attributes@),
                    namespace@,
                );
                (m, old(target)@ + out)
            }),
    {
        let _ = self.check_document_started(target);
        self.before_start_element(target);
        target.append("<");
        let repr = name.to_repr();
        target.append(repr.as_str());
        let _ = self.emit_namespace_attributes(target, namespace);
        let r = self.emit_attributes(target, attributes);
        proof {
            assert(target@ =~= old(target)@ + start_element_initial(
                old(self)@,
                name_repr(name@),
                attribute_views(attributes@),
                namespace@,
            ).1);
        }
        r
    }

    /// Writes an empty element tag `<name .../>` with the given attributes
    /// and namespace declarations.
    pub fn emit_empty_element(
        &mut self,
        target: &mut String,
        name: &Name,
        attributes: &[Attribute],
        namespace: &Namespace,
    ) -> (r: EmitterResult<()>)
        ensures
            r is Ok,
            (final(self)@, final(target)@) == ({
                let (m, out) = start_element_initial(
                    old(self)@,
                    name_repr(name@),
                    attribute_views(attributes@),
                    namespace@,
                );
                (m, old(target)@ + out + "/>"@)
            }),
    {
        let _ = self.emit_start_element_initial(target, name, attributes, namespace);
        target.append("/>");
        Ok(())
    }

    /// Writes a start tag `<name ...>` with the given attributes and
    /// namespace declarations.
    pub fn emit_start_element(
        &mut self,
        target: &mut String,
        name: &Name,
        attributes: &[Attribute],
        namespace: &Namespace,
    ) -> (r: EmitterResult<()>)
        ensures
            r is Ok,
            (final(self)@, final(target)@) == ({
                let (m, out) = start_element_initial(
                    old(self)@,
                    name_repr(name@),
                    attribute_views(attributes@),
                    namespace@,
                );
                (m, old(target)@ + out + ">"@)
            }),
    {
        let _ = self.emit_start_element_initial(target, name, attributes, namespace);
        target.append(">");
        Ok(())
    }

    /// Writes a start tag with the namespace declarations of the bindings in
    /// force in a stack of scopes (innermost first, each prefix once).
    pub fn emit_start_element_with_stack(
        &mut self,
        target: &mut String,
        name: &Name,
        attributes: &[Attribute],
        nst: &NamespaceStack,
    ) -> (r: EmitterResult<()>)
        ensures
            r is Ok,
            (final(self)@, final(target)@) == ({
                let (m, out) = start_element_initial(
                    old(self)@,
                    name_repr(name@),
                    attribute_views(attributes@),
                    stack_mappings(nst@),
                );
                (m, old(target)@ + out + ">"@)
            }),
    {
        let ns = nst.uri_mappings();
        self.emit_start_element(target, name, attributes, &ns)
    }

    /// Writes an empty element tag with the namespace declarations of the
    /// bindings in force in a stack of scopes (innermost first, each prefix
    /// once).
    pub fn emit_empty_element_with_stack(
        &mut self,
        target: &mut String,
        name: &Name,
        attributes: &[Attribute],
        nst: &NamespaceStack,
    ) -> (r: EmitterResult<()>)
        ensures
            r is Ok,
            (final(self)@, final(target)@) == ({
                let (m, out) = start_element_initial(
                    old(self)@,
                    name_repr(name@),
                    attribute_views(attributes@),
                    stack_mappings(nst@),
                );
                (m, old(target)@ + out + "/>"@)
            }),
    {
        let ns = nst.uri_mappings();
        self.emit_empty_element(target, name, attributes, &ns)
    }

    /// Writes the declarations of the bindings in force in a stack of
    /// scopes, innermost first, each prefix once.
    pub fn emit_namespace_stack_attributes(
        &mut self,
        target: &mut String,
        nst: &NamespaceStack,
    ) -> (r: EmitterResult<()>)
        ensures
            r is Ok,
            final(self)@ == old(self)@,
            final(target)@ == old(target)@ + namespace_attributes(stack_mappings(nst@)),
    {
        let ns = nst.uri_mappings();
        self.emit_namespace_attributes(target, &ns)
    }

    /// Writes the declarations of the bindings of a namespace, in order: a
    /// prefixed binding as ` xmlns:prefix="uri"`, a non-empty default
    /// namespace as ` xmlns="uri"`; the prefixes `xml` and `xmlns` are
    /// skipped.
    pub fn emit_namespace_attributes(&mut self, target: &mut String, namespace: &Namespace) -> (r:
        EmitterResult<()>)
        ensures
            r is Ok,
            final(self)@ == old(self)@,
            final(target)@ == old(target)@ + namespace_attributes(namespace@),
    {
        let xmlns = copy_str(NS_XMLNS_PREFIX);
        let xml = copy_str(NS_XML_PREFIX);
        let n = namespace.entries.len();
        let mut i: usize = 0;
        while i < n
            invariant
                n == namespace.entries@.len(),
                i <= n,
                xmlns@ == NS_XMLNS_PREFIX@,
                xml@ == NS_XML_PREFIX@,
                target@ == old(target)@ + namespace_attributes(namespace@.take(i as int)),
            decreases n - i,
        {
            let prefix = &namespace.entries[i].0;
            let uri = &namespace.entries[i].1;
            let ghost before = target@;
            proof {
                assert(namespace@.take(i + 1).drop_last() =~= namespace@.take(i as int));
                assert(namespace@.take(i + 1).last() == (prefix@, uri@));
            }
            if *prefix == xmlns || *prefix == xml {
                assert(target@ =~= before + Seq::<char>::empty());
            } else if !prefix.as_str().is_empty() {
                target.append(" xmlns:");
                target.append(prefix.as_str());
                target.append("=\"");
                target.append(uri.as_str());
                target.append("\"");
                assert(target@ =~= before + (" xmlns:"@ + prefix@ + "=\""@ + uri@ + "\""@));
            } else if !uri.as_str().is_empty() {
                target.append(" xmlns=\"");
                target.append(uri.as_str());
                target.append("\"");
                assert(target@ =~= before + (" xmlns=\""@ + uri@ + "\""@));
            } else {
                assert(target@ =~= before + Seq::<char>::empty());
            }
            i = i + 1;
        }
        assert(namespace@.take(n as int) =~= namespace@);
        Ok(())
    }

    /// Writes the attributes, in order, each as ` name="value"` with the
    /// value escaped.
    pub fn emit_attributes(&mut self, target: &mut String, attributes: &[Attribute]) -> (r:
        EmitterResult<()>)
        ensures
            r is Ok,
            final(self)@ == old(self)@,
            final(target)@ == old(target)@ + attributes_text(attribute_views(attributes@)),
    {
        let n = attributes.len();
        let mut i: usize = 0;
        while i < n
            invariant
                n == attributes@.len(),
                i <= n,
                target@ == old(target)@ + attributes_text(
                    attribute_views(attributes@).take(i as int),
                ),
            decreases n - i,
        {
            let attr = &attributes[i];
            let ghost before = target@;
            proof {
                assert(attribute_views(attributes@).take(i + 1).drop_last() =~= attribute_views(
                    attributes@,
                ).take(i as int));
                assert(attribute_views(attributes@).take(i + 1).last() == attr@);
            }
            target.append(" ");
            let repr = attr.name.to_repr();
            target.append(repr.as_str());
            target.append("=\"");
            let value = escape_str(attr.value.as_str());
            target.append(value.as_str());
            target.append("\"");
            assert(target@ =~= before + attribute_text(attr@));
            i = i + 1;
        }
        assert(attribute_views(attributes@).take(n as int) =~= attribute_views(attributes@));
        Ok(())
    }

    /// Writes an end tag `</name>`, on a line of its own where markup was
    /// written last inside the element.
    pub fn emit_end_element(&mut self, target: &mut String, name: &Name) -> (r: EmitterResult<()>)
        ensures
            r is Ok,
            (final(self)@, final(target)@) == ({
                let (m, out) = end_element(old(self)@, name_repr(name@));
                (m, old(target)@ + out)
            }),
    {
        self.before_end_element(target);
        target.append("</");
        let repr = name.to_repr();
        target.append(repr.as_str());
        target.append(">");
        self.after_end_element();
        assert(target@ =~= old(target)@ + end_element(old(self)@, name_repr(name@)).1);
        Ok(())
    }

    /// Writes a CDATA section, or escaped character data where the
    /// configuration asks for it.
    pub fn emit_cdata(&mut self, target: &mut String, content: &str) -> (r: EmitterResult<()>)
        ensures
            r is Ok,
            (final(self)@, final(target)@) == ({
                let (m, out) = cdata(old(self)@, content@);
                (m, old(target)@ + out)
            }),
    {
        if self.config.cdata_to_characters {
            self.emit_characters(target, content)
        } else {
            target.append("<![CDATA[");
            target.append(content);
            target.append("]]>");
            self.after_text();
            assert(target@ =~= old(target)@ + ("<![CDATA["@ + content@ + "]]>"@));
            Ok(())
        }
    }

    /// Writes character data, escaped.
    pub fn emit_characters(&mut self, target: &mut String, content: &str) -> (r: EmitterResult<()>)
        ensures
            r is Ok,
            (final(self)@, final(target)@) == ({
                let (m, out) = characters(old(self)@, content@);
                (m, old(target)@ + out)
            }),
    {
        let escaped_content = escape_str(content);
        target.append(escaped_content.as_str());
        self.after_text();
        Ok(())
    }

    /// Comments are not written: this writes nothing and changes nothing.
    pub fn emit_comment(&mut self, target: &mut String, content: &str) -> (r: EmitterResult<()>)
        ensures
            r is Ok,
            final(self)@ == old(self)@,
            final(target)@ == old(target)@,
    {
        Ok(())
    }
}

/// A document declaration is written at most once: once one was written,
/// the emitter records it, so that a later `emit_start_document` fails and a
/// later markup event adds no declaration of its own.
pub proof fn law_start_document_once(
    m: EmitterModel,
    version: XmlVersion,
    encoding: Seq<char>,
    standalone: Option<bool>,
)
    ensures
        start_document(m, version, encoding, standalone).0.start_document_emitted,
        document_started(start_document(m, version, encoding, standalone).0) == (
            start_document(m, version, encoding, standalone).0,
            Seq::<char>::empty(),
        ),
{
}

/// Where the configuration asks for a document declaration, the first
/// markup is preceded by one: after a processing instruction or a start tag
/// a declaration has been written, and the text written begins with the
/// declaration that was due.
pub proof fn law_declaration_precedes_markup(
    m: EmitterModel,
    name: Seq<char>,
    data: Option<Seq<char>>,
    attrs: Seq<AttributeView>,
    ns: NamespaceView,
)
    requires
        m.config.write_document_declaration,
    ensures
        processing_instruction(m, name, data).0.start_document_emitted,
        start_element_initial(m, name, attrs, ns).0.start_document_emitted,
        processing_instruction(m, name, data).1.subrange(0, document_started(m).1.len() as int)
            == document_started(m).1,
        start_element_initial(m, name, attrs, ns).1.subrange(
            0,
            document_started(m).1.len() as int,
        ) == document_started(m).1,
        !m.start_document_emitted ==> document_started(m).1 == before_markup(
            EmitterModel { start_document_emitted: true, ..m },
        ).1 + declaration_text(XmlVersion::Version10, "utf-8"@, None),
{
    let (m1, o1) = document_started(m);
    let (m2, o2) = before_markup(m1);
    assert(processing_instruction(m, name, data).1.subrange(0, o1.len() as int) =~= o1);
    assert(start_element_initial(m, name, attrs, ns).1.subrange(0, o1.len() as int) =~= o1);
}

/// From a fresh emitter, the declaration that is due before markup is
/// written once: the first check writes the default declaration where the
/// configuration asks for one, and a second check writes nothing; where the
/// configuration asks for none, neither check writes anything or changes
/// anything.
pub proof fn law_declaration_written_once(c: EmitterConfigView)
    ensures
        ({
            let m0 = initial_model(c);
            let (m1, o1) = document_started(m0);
            let (m2, o2) = document_started(m1);
            &&& c.write_document_declaration ==> o1 == declaration_text(
                XmlVersion::Version10,
                "utf-8"@,
                None,
            ) && m1.start_document_emitted
            &&& !c.write_document_declaration ==> o1 == Seq::<char>::empty() && m1 == m0
            &&& o2 == Seq::<char>::empty()
            &&& m2 == m1
        }),
{
    let m0 = initial_model(c);
    if c.write_document_declaration {
        let m = EmitterModel { start_document_emitted: true, ..m0 };
        assert(top(m) == IndentFlags::WroteNothing);
        assert(before_markup(m).1 == Seq::<char>::empty());
        assert(document_started(m0).1 =~= declaration_text(XmlVersion::Version10, "utf-8"@, None));
    }
}

/// No event changes the configuration or the namespace stack of the
/// emitter.
pub proof fn law_configuration_is_kept(
    m: EmitterModel,
    version: XmlVersion,
    encoding: Seq<char>,
    standalone: Option<bool>,
    name: Seq<char>,
    data: Option<Seq<char>>,
    attrs: Seq<AttributeView>,
    ns: NamespaceView,
    content: Seq<char>,
)
    ensures
        start_document(m, version, encoding, standalone).0.config == m.config,
        start_document(m, version, encoding, standalone).0.nst == m.nst,
        processing_instruction(m, name, data).0.config == m.config,
        processing_instruction(m, name, data).0.nst == m.nst,
        start_element_initial(m, name, attrs, ns).0.config == m.config,
        start_element_initial(m, name, attrs, ns).0.nst == m.nst,
        end_element(m, name).0.config == m.config,
        end_element(m, name).0.nst == m.nst,
        characters(m, content).0.config == m.config,
        characters(m, content).0.nst == m.nst,
        cdata(m, content).0.config == m.config,
        cdata(m, content).0.nst == m.nst,
{
}

/// Every event keeps the emitter's invariant.
pub proof fn law_events_keep_invariant(
    m: EmitterModel,
    version: XmlVersion,
    encoding: Seq<char>,
    standalone: Option<bool>,
    name: Seq<char>,
    data: Option<Seq<char>>,
    attrs: Seq<AttributeView>,
    ns: NamespaceView,
    content: Seq<char>,
)
    requires
        model_wf(m),
    ensures
        model_wf(start_document(m, version, encoding, standalone).0),
        model_wf(processing_instruction(m, name, data).0),
        model_wf(start_element_initial(m, name, attrs, ns).0),
        model_wf(end_element(m, name).0),
        model_wf(characters(m, content).0),
        model_wf(cdata(m, content).0),
{
}

/// Where the configuration turns CDATA into characters, a CDATA section is
/// written exactly as character data with the same content.
pub proof fn law_cdata_as_characters(m: EmitterModel, content: Seq<char>)
    requires
        m.config.cdata_to_characters,
    ensures
        cdata(m, content) == characters(m, content),
{
}

/// An end tag that follows text directly is written on the same line: no
/// line break or indentation comes between the text and the end tag.
pub proof fn law_end_tag_after_text(m: EmitterModel, content: Seq<char>, name: Seq<char>)
    requires
        model_wf(m),
    ensures
        end_element(characters(m, content).0, name).1 == "</"@ + name + ">"@,
{
    let m1 = characters(m, content).0;
    assert(top(m1) == IndentFlags::WroteText);
    assert(before_end_element(m1) =~= Seq::<char>::empty());
    assert(end_element(m1, name).1 =~= "</"@ + name + ">"@);
}

/// The text that a document declaration begins with: the version, then the
/// encoding as given.
pub open spec fn declaration_head(version: XmlVersion, encoding: Seq<char>) -> Seq<char> {
    "<?xml version=\""@ + (match version {
        XmlVersion::Version10 => "1.0"@,
        XmlVersion::Version11 => "1.1"@,
    }) + "\" encoding=\""@ + encoding + "\""@
}

/// A document declaration consists of the given version and the given
/// encoding, whatever the standalone flag, then the standalone flag where one
/// is given, then `?>`; and writing the declaration ends the text written
/// with it.
pub proof fn law_declaration_content(
    m: EmitterModel,
    version: XmlVersion,
    encoding: Seq<char>,
    standalone: Option<bool>,
)
    ensures
        ({
            let d = declaration_text(version, encoding, standalone);
            let head = declaration_head(version, encoding);
            let flag = match standalone {
                Some(b) => " standalone=\""@ + (if b {
                    "yes"@
                } else {
                    "no"@
                }) + "\""@,
                None => Seq::<char>::empty(),
            };
            &&& d == head + flag + "?>"@
            &&& d.subrange(0, head.len() as int) == head
            &&& {
                let out = start_document(m, version, encoding, standalone).1;
                out.len() >= d.len() && out.subrange(out.len() - d.len(), out.len() as int) == d
            }
        }),
{
    let d = declaration_text(version, encoding, standalone);
    let head = declaration_head(version, encoding);
    let v = match version {
        XmlVersion::Version10 => "1.0"@,
        XmlVersion::Version11 => "1.1"@,
    };
    assert(version_repr(version) == v);
    assert(d =~= head + (match standalone {
        Some(b) => " standalone=\""@ + (if b {
            "yes"@
        } else {
            "no"@
        }) + "\""@,
        None => Seq::<char>::empty(),
    }) + "?>"@);
    assert(d.subrange(0, head.len() as int) =~= head);
    let out = start_document(m, version, encoding, standalone).1;
    let pre = before_markup(EmitterModel { start_document_emitted: true, ..m }).1;
    assert(out == pre + d);
    assert(out.subrange(out.len() - d.len(), out.len() as int) =~= d);
}

/// With CDATA kept as CDATA, the content of a CDATA section is written
/// verbatim between `<![CDATA[` and `]]>`, whatever it holds.
pub proof fn law_cdata_verbatim(m: EmitterModel, content: Seq<char>)
    requires
        !m.config.cdata_to_characters,
    ensures
        cdata(m, content).1 == seq!['<', '!', '[', 'C', 'D', 'A', 'T', 'A', '['] + content + seq![
            ']',
            ']',
            '>',
        ],
        cdata(m, content).1.len() == content.len() + 12,
        cdata(m, content).1.subrange(9, 9 + content.len() as int) == content,
{
    reveal_strlit("<![CDATA[");
    reveal_strlit("]]>");
    assert("<![CDATA["@ =~= seq!['<', '!', '[', 'C', 'D', 'A', 'T', 'A', '[']);
    assert("]]>"@ =~= seq![']', ']', '>']);
    let out = cdata(m, content).1;
    assert(out.subrange(9, 9 + content.len() as int) =~= content);
}

/// Character data is written so that it can be read back: no `<`, `>`,
/// `"` or `'` occurs in the text written, every `&` in it begins one of the
/// five predefined entity references, and replacing those references gives
/// exactly the content, whatever its length. The same holds of a CDATA
/// section where the configuration turns CDATA into characters.
pub proof fn law_characters_escaped(m: EmitterModel, content: Seq<char>)
    ensures
        ({
            let out = characters(m, content).1;
            &&& forall|i: int|
                0 <= i < out.len() ==> {
                    let c = #[trigger] out[i];
                    c != '<' && c != '>' && c != '"' && c != '\''
                }
            &&& forall|i: int|
                0 <= i < out.len() && #[trigger] out[i] == '&' ==> begins_with_entity(out.skip(i))
            &&& unescaped(out) == content
        }),
        m.config.cdata_to_characters ==> cdata(m, content).1 == characters(m, content).1,
{
    law_escaped_has_no_delimiters(content);
    law_escaped_ampersands(content);
    law_unescape_escaped(content);
}

/// The number of characters written for a list of attributes: for each,
/// its prefixed name, its escaped value, a space, `=` and two quotes.
pub open spec fn attributes_len(attrs: Seq<AttributeView>) -> int
    decreases attrs.len(),
{
    if attrs.len() == 0 {
        0
    } else {
        attributes_len(attrs.drop_last()) + name_repr(attrs.last().name).len() + escaped(
            attrs.last().value,
        ).len() + 4
    }
}

proof fn lemma_attributes_len_prefix(attrs: Seq<AttributeView>, i: int)
    requires
        0 <= i < attrs.len(),
    ensures
        0 <= attributes_len(attrs.take(i)),
        attributes_len(attrs.take(i)) + name_repr(attrs[i].name).len() + escaped(attrs[i].value).len()
            + 4 <= attributes_len(attrs),
    decreases attrs.len(),
{
    let init = attrs.drop_last();
    if i == attrs.len() - 1 {
        assert(attrs.take(i) =~= init);
        lemma_attributes_len_nonneg(init);
    } else {
        lemma_attributes_len_prefix(init, i);
        assert(init.take(i) =~= attrs.take(i));
        assert(init[i] == attrs[i]);
    }
}

proof fn lemma_attributes_len_nonneg(attrs: Seq<AttributeView>)
    ensures
        attributes_len(attrs) >= 0,
    decreases attrs.len(),
{
    if attrs.len() > 0 {
        lemma_attributes_len_nonneg(attrs.drop_last());
    }
}

/// Every attribute is written, whatever its value, in the order given: the
/// text for the attributes has the length of all their names and escaped
/// values with four characters for each, and at the offset where the `i`-th
/// attribute's text begins stands ` name="escaped value"`.
pub proof fn law_attributes_written(attrs: Seq<AttributeView>)
    ensures
        attributes_text(attrs).len() == attributes_len(attrs),
        forall|i: int|
            0 <= i < attrs.len() ==> {
                let off = attributes_len(#[trigger] attrs.take(i));
                let a = attrs[i];
                let t = " "@ + name_repr(a.name) + "=\""@ + escaped(a.value) + "\""@;
                attributes_text(attrs).subrange(off, off + t.len()) == t
            },
    decreases attrs.len(),
{
    reveal_strlit(" ");
    reveal_strlit("=\"");
    reveal_strlit("\"");
    if attrs.len() > 0 {
        let init = attrs.drop_last();
        law_attributes_written(init);
        let whole = attributes_text(attrs);
        let before = attributes_text(init);
        let a = attrs.last();
        let t = " "@ + name_repr(a.name) + "=\""@ + escaped(a.value) + "\""@;
        assert(whole == before + t);
        assert forall|i: int| 0 <= i < attrs.len() implies {
            let off = attributes_len(#[trigger] attrs.take(i));
            let a = attrs[i];
            let t = " "@ + name_repr(a.name) + "=\""@ + escaped(a.value) + "\""@;
            attributes_text(attrs).subrange(off, off + t.len()) == t
        } by {
            let off = attributes_len(attrs.take(i));
            let ai = attrs[i];
            let ti = " "@ + name_repr(ai.name) + "=\""@ + escaped(ai.value) + "\""@;
            lemma_attributes_len_prefix(attrs, i);
            assert(ti.len() == name_repr(ai.name).len() + escaped(ai.value).len() + 4);
            if i < init.len() {
                assert(init.take(i) =~= attrs.take(i));
                lemma_attributes_len_prefix(init, i);
                assert(init[i] == ai);
                assert(before.subrange(off, off + ti.len()) == ti);
                assert(whole.subrange(off, off + ti.len()) =~= before.subrange(off, off + ti.len()));
            } else {
                assert(attrs.take(i) =~= init);
                assert(whole.subrange(off, off + ti.len()) =~= t);
            }
        }
    }
}

/// A start tag ends with `<`, the name, the namespace declarations and the
/// text of all attributes.
pub proof fn law_start_tag_text(
    m: EmitterModel,
    name: Seq<char>,
    attrs: Seq<AttributeView>,
    ns: NamespaceView,
)
    ensures
        ({
            let out = start_element_initial(m, name, attrs, ns).1;
            let tail = "<"@ + name + namespace_attributes(ns) + attributes_text(attrs);
            out.len() >= tail.len() && out.subrange(out.len() - tail.len(), out.len() as int)
                == tail
        }),
{
    let (m1, o1) = document_started(m);
    let (m2, o2) = before_markup(m1);
    let out = start_element_initial(m, name, attrs, ns).1;
    let tail = "<"@ + name + namespace_attributes(ns) + attributes_text(attrs);
    assert(out =~= o1 + o2 + tail);
    assert(out.subrange(out.len() - tail.len(), out.len() as int) =~= tail);
}

} // verus!
