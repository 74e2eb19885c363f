//! Contains parser configuration structure.
use vstd::prelude::*;

verus! {

/// Parser configuration structure.
///
/// This structure contains various configuration options which affect
/// behavior of the parser.
pub struct ParserConfig {
    /// Whether or not should whitespace be removed. Default is false.
    ///
    /// When true, all standalone whitespace will be removed (this means no
    /// `Whitespace` events will be emitted), and leading and trailing whitespace
    /// from `Character` events will be deleted. If after trimming `Characters`
    /// event will be empty, it will also be omitted from output stream. This is
    /// possible, however, only if `whitespace_to_characters` or
    /// `cdata_to_characters` options are set.
    ///
    /// This option does not affect CDATA events, unless `cdata_to_characters`
    /// option is also set. In that case CDATA content will also be trimmed.
    pub trim_whitespace: bool,
    /// Whether or not should whitespace be converted to characters.
    /// Default is false.
    ///
    /// If true, instead of `Whitespace` events `Characters` events with the
    /// same content will be emitted. If `trim_whitespace` is also true, these
    /// events will be trimmed to nothing and, consequently, not emitted.
    pub whitespace_to_characters: bool,
    /// Whether or not should CDATA be converted to characters.
    /// Default is false.
    ///
    /// If true, instead of `CData` events `Characters` events with the same
    /// content will be emitted. If `trim_whitespace` is also true, these events
    /// will be trimmed. If corresponding CDATA contained nothing but whitespace,
    /// this event will be omitted from the stream.
    pub cdata_to_characters: bool,
    /// Whether or not should comments be omitted. Default is true.
    ///
    /// If true, `Comment` events will not be emitted at all.
    pub ignore_comments: bool,
    /// Whether or not should sequential `Characters` events be merged.
    /// Default is true.
    ///
    /// If true, multiple sequential `Characters` events will be merged into
    /// a single event, that is, their data will be concatenated.
    ///
    /// Multiple sequential `Characters` events are only possible if either
    /// `cdata_to_characters` or `ignore_comments` are set. Otherwise character
    /// events will always be separated by other events.
    pub coalesce_characters: bool,
}

impl ParserConfig {
    /// Returns a new config with default values.
    ///
    /// Default values can be tweaked with the builder-like setters:
    /// `ParserConfig::new().trim_whitespace(true).ignore_comments(true)`.
    pub fn new() -> (c: ParserConfig)
        ensures
            !c.trim_whitespace,
            !c.whitespace_to_characters,
            !c.cdata_to_characters,
            c.ignore_comments,
            c.coalesce_characters,
    {
        ParserConfig {
            trim_whitespace: false,
            whitespace_to_characters: false,
            cdata_to_characters: false,
            ignore_comments: true,
            coalesce_characters: true,
        }
    }

    /// Sets the `trim_whitespace` option and returns the updated config.
    pub fn trim_whitespace(self, value: bool) -> (c: ParserConfig)
        ensures
            c == (ParserConfig { trim_whitespace: value, ..self }),
    {
        let mut c = self;
        c.trim_whitespace = value;
        c
    }

    /// Sets the `whitespace_to_characters` option and returns the updated config.
    pub fn whitespace_to_characters(self, value: bool) -> (c: ParserConfig)
        ensures
            c == (ParserConfig { whitespace_to_characters: value, ..self }),
    {
        let mut c = self;
        c.whitespace_to_characters = value;
        c
    }

    /// Sets the `cdata_to_characters` option and returns the updated config.
    pub fn cdata_to_characters(self, value: bool) -> (c: ParserConfig)
        ensures
            c == (ParserConfig { cdata_to_characters: value, ..self }),
    {
        let mut c = self;
        c.cdata_to_characters = value;
        c
    }

    /// Sets the `ignore_comments` option and returns the updated config.
    pub fn ignore_comments(self, value: bool) -> (c: ParserConfig)
        ensures
            c == (ParserConfig { ignore_comments: value, ..self }),
    {
        let mut c = self;
        c.ignore_comments = value;
        c
    }

    /// Sets the `coalesce_characters` option and returns the updated config.
    pub fn coalesce_characters(self, value: bool) -> (c: ParserConfig)
        ensures
            c == (ParserConfig { coalesce_characters: value, ..self }),
    {
        let mut c = self;
        c.coalesce_characters = value;
        c
    }
}

} // verus!
