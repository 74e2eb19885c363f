//! Contains emitter configuration structure.
use vstd::prelude::*;
use crate::name::copy_str;

verus! {

/// Emitter configuration structure.
///
/// This structure contains various options which control the output of the
/// emitter.
pub struct EmitterConfig {
    /// Line separator written before each indented line. Default is `"\n"`.
    pub line_separator: String,
    /// A string written once per level of indentation. Default is two spaces.
    pub indent_string: String,
    /// Whether or not a document declaration should be written before the
    /// first markup when none was emitted explicitly. Default is true.
    pub write_document_declaration: bool,
    /// Whether or not CDATA sections should be written as escaped character
    /// data. Default is false.
    pub cdata_to_characters: bool,
}

/// The mathematical content of an emitter configuration.
pub struct EmitterConfigView {
    pub line_separator: Seq<char>,
    pub indent_string: Seq<char>,
    pub write_document_declaration: bool,
    pub cdata_to_characters: bool,
}

impl View for EmitterConfig {
    type V = EmitterConfigView;

    open spec fn view(&self) -> EmitterConfigView {
        EmitterConfigView {
            line_separator: self.line_separator@,
            indent_string: self.indent_string@,
            write_document_declaration: self.write_document_declaration,
            cdata_to_characters: self.cdata_to_characters,
        }
    }
}

impl EmitterConfig {
    /// Returns a new config with default values.
    pub fn new() -> (c: EmitterConfig)
        ensures
            c@ == (EmitterConfigView {
                line_separator: "\n"@,
                indent_string: "  "@,
                write_document_declaration: true,
                cdata_to_characters: false,
            }),
    {
        EmitterConfig {
            line_separator: copy_str("\n"),
            indent_string: copy_str("  "),
            write_document_declaration: true,
            cdata_to_characters: false,
        }
    }

    /// Sets the line separator and returns the updated config.
    pub fn line_separator(self, value: &str) -> (c: EmitterConfig)
        ensures
            c@ == (EmitterConfigView { line_separator: value@, ..self@ }),
    {
        let mut c = self;
        c.line_separator = copy_str(value);
        c
    }

    /// Sets the indentation string and returns the updated config.
    pub fn indent_string(self, value: &str) -> (c: EmitterConfig)
        ensures
            c@ == (EmitterConfigView { indent_string: value@, ..self@ }),
    {
        let mut c = self;
        c.indent_string = copy_str(value);
        c
    }

    /// Sets the `write_document_declaration` option and returns the updated config.
    pub fn write_document_declaration(self, value: bool) -> (c: EmitterConfig)
        ensures
            c@ == (EmitterConfigView { write_document_declaration: value, ..self@ }),
    {
        let mut c = self;
        c.write_document_declaration = value;
        c
    }

    /// Sets the `cdata_to_characters` option and returns the updated config.
    pub fn cdata_to_characters(self, value: bool) -> (c: EmitterConfig)
        ensures
            c@ == (EmitterConfigView { cdata_to_characters: value, ..self@ }),
    {
        let mut c = self;
        c.cdata_to_characters = value;
        c
    }
}

} // verus!
