//! Tokens of XML text, and the part of the lexer's state that the parser
//! consults.
use vstd::prelude::*;
use crate::escape::push_char;

verus! {

/// A token of XML text.
#[derive(Clone, Copy, Debug)]
pub enum Token {
    /// `<?`
    ProcessingInstructionStart,
    /// `?>`
    ProcessingInstructionEnd,
    /// `<!DOCTYPE`
    DoctypeStart,
    /// `<`
    OpeningTagStart,
    /// `</`
    ClosingTagStart,
    /// `>`
    TagEnd,
    /// `/>`
    EmptyTagEnd,
    /// `<!--`
    CommentStart,
    /// `-->`
    CommentEnd,
    /// A chunk of characters, used for errors recovery.
    Chunk(&'static str),
    /// Any non-special character except whitespace.
    Character(char),
    /// Whitespace character.
    Whitespace(char),
    /// `=`
    EqualsSign,
    /// `'`
    SingleQuote,
    /// `"`
    DoubleQuote,
    /// `<![CDATA[`
    CDataStart,
    /// `]]>`
    CDataEnd,
    /// `&`
    ReferenceStart,
    /// `;`
    ReferenceEnd,
}

/// The text that a token stands for.
pub open spec fn token_repr(t: Token) -> Seq<char> {
    match t {
        Token::ProcessingInstructionStart => "<?"@,
        Token::ProcessingInstructionEnd => "?>"@,
        Token::DoctypeStart => "<!DOCTYPE"@,
        Token::OpeningTagStart => "<"@,
        Token::ClosingTagStart => "</"@,
        Token::TagEnd => ">"@,
        Token::EmptyTagEnd => "/>"@,
        Token::CommentStart => "<!--"@,
        Token::CommentEnd => "-->"@,
        Token::Chunk(s) => s@,
        Token::Character(c) => seq![c],
        Token::Whitespace(c) => seq![c],
        Token::EqualsSign => "="@,
        Token::SingleQuote => "'"@,
        Token::DoubleQuote => "\""@,
        Token::CDataStart => "<![CDATA["@,
        Token::CDataEnd => "]]>"@,
        Token::ReferenceStart => "&"@,
        Token::ReferenceEnd => ";"@,
    }
}

impl Token {
    /// The token's text, where it is fixed.
    pub fn as_static_str(&self) -> (r: Option<&'static str>)
        ensures
            match r {
                Some(s) => s@ == token_repr(*self),
                None => self is Character || self is Whitespace,
            },
    {
        match *self {
            Token::ProcessingInstructionStart => Some("<?"),
            Token::ProcessingInstructionEnd => Some("?>"),
            Token::DoctypeStart => Some("<!DOCTYPE"),
            Token::OpeningTagStart => Some("<"),
            Token::ClosingTagStart => Some("</"),
            Token::TagEnd => Some(">"),
            Token::EmptyTagEnd => Some("/>"),
            Token::CommentStart => Some("<!--"),
            Token::CommentEnd => Some("-->"),
            Token::Chunk(s) => Some(s),
            Token::EqualsSign => Some("="),
            Token::SingleQuote => Some("'"),
            Token::DoubleQuote => Some("\""),
            Token::CDataStart => Some("<![CDATA["),
            Token::CDataEnd => Some("]]>"),
            Token::ReferenceStart => Some("&"),
            Token::ReferenceEnd => Some(";"),
            Token::Character(_) | Token::Whitespace(_) => None,
        }
    }

    /// Appends the token's text to `target`.
    pub fn push_to_string(&self, target: &mut String)
        ensures
            final(target)@ == old(target)@ + token_repr(*self),
    {
        match self.as_static_str() {
            Some(s) => target.append(s),
            None => match *self {
                Token::Character(c) | Token::Whitespace(c) => {
                    push_char(target, c);
                    assert(target@ =~= old(target)@ + seq![c]);
                },
                _ => {},
            },
        }
    }

    /// The token's text.
    pub fn to_repr(&self) -> (r: String)
        ensures
            r@ == token_repr(*self),
    {
        let mut r = String::new();
        self.push_to_string(&mut r);
        assert(r@ =~= token_repr(*self));
        r
    }
}

/// The state of the lexer that the parser consults: whether lexical errors
/// are skipped, and the position in the text.
#[derive(Clone, Copy, Debug)]
pub struct Lexer {
    /// Whether lexical errors are reported as characters instead.
    pub skip_errors: bool,
    /// The current row, counted from zero.
    pub row: u64,
    /// The current column, counted from zero.
    pub column: u64,
}

impl Lexer {
    /// A lexer at the start of a text, with errors enabled.
    pub fn new() -> (l: Lexer)
        ensures
            l == (Lexer { skip_errors: false, row: 0, column: 0 }),
    {
        Lexer { skip_errors: false, row: 0, column: 0 }
    }

    /// Enables reporting of lexical errors.
    pub fn enable_errors(&mut self)
        ensures
            *final(self) == (Lexer { skip_errors: false, ..*old(self) }),
    {
        self.skip_errors = false;
    }

    /// Disables reporting of lexical errors.
    pub fn disable_errors(&mut self)
        ensures
            *final(self) == (Lexer { skip_errors: true, ..*old(self) }),
    {
        self.skip_errors = true;
    }
}

} // verus!
