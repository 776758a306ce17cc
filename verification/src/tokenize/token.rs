//! Tokens: reserved words, symbols, identifiers and numbers.
use vstd::prelude::*;
use crate::text::str_is;

verus! {

/// The kinds of tokens.
#[derive(Debug, Clone, Copy, PartialEq, Eq, Structural)]
pub enum TokenKind {
    /* reserved words */
    Layer,
    Ref,
    Data,
    Module,
    Use,
    Modify,
    Link,
    Branch,
    Chain,
    Binds,
    As,
    /* symbols */
    Allow,
    Mapping,
    Equal,
    Accessor,
    PAccessor,
    Separater,
    Semicolon,
    ParenthesisBegin,
    ParenthesisEnd,
    BracketBegin,
    BracketEnd,
    /* anything else */
    Identifier,
    Number,
}

/// The kind of token that the word `s` is.
pub open spec fn kind_of(s: Seq<char>) -> TokenKind {
    if s == "layer"@ {
        TokenKind::Layer
    } else if s == "ref"@ {
        TokenKind::Ref
    } else if s == "data"@ {
        TokenKind::Data
    } else if s == "module"@ {
        TokenKind::Module
    } else if s == "use"@ {
        TokenKind::Use
    } else if s == "modify"@ {
        TokenKind::Modify
    } else if s == "link"@ {
        TokenKind::Link
    } else if s == "branch"@ {
        TokenKind::Branch
    } else if s == "chain"@ {
        TokenKind::Chain
    } else if s == "binds"@ {
        TokenKind::Binds
    } else if s == "as"@ {
        TokenKind::As
    } else if s == "->"@ {
        TokenKind::Allow
    } else if s == ":"@ {
        TokenKind::Mapping
    } else if s == "="@ {
        TokenKind::Equal
    } else if s == "."@ {
        TokenKind::Accessor
    } else if s == "::"@ {
        TokenKind::PAccessor
    } else if s == ","@ {
        TokenKind::Separater
    } else if s == ";"@ {
        TokenKind::Semicolon
    } else if s == "("@ {
        TokenKind::ParenthesisBegin
    } else if s == ")"@ {
        TokenKind::ParenthesisEnd
    } else if s == "{"@ {
        TokenKind::BracketBegin
    } else if s == "}"@ {
        TokenKind::BracketEnd
    } else {
        TokenKind::Identifier
    }
}

fn kind_of_word(s: &str) -> (r: TokenKind)
    ensures
        r == kind_of(s@),
{
    if str_is(s, "layer") {
        TokenKind::Layer
    } else if str_is(s, "ref") {
        TokenKind::Ref
    } else if str_is(s, "data") {
        TokenKind::Data
    } else if str_is(s, "module") {
        TokenKind::Module
    } else if str_is(s, "use") {
        TokenKind::Use
    } else if str_is(s, "modify") {
        TokenKind::Modify
    } else if str_is(s, "link") {
        TokenKind::Link
    } else if str_is(s, "branch") {
        TokenKind::Branch
    } else if str_is(s, "chain") {
        TokenKind::Chain
    } else if str_is(s, "binds") {
        TokenKind::Binds
    } else if str_is(s, "as") {
        TokenKind::As
    } else if str_is(s, "->") {
        TokenKind::Allow
    } else if str_is(s, ":") {
        TokenKind::Mapping
    } else if str_is(s, "=") {
        TokenKind::Equal
    } else if str_is(s, ".") {
        TokenKind::Accessor
    } else if str_is(s, "::") {
        TokenKind::PAccessor
    } else if str_is(s, ",") {
        TokenKind::Separater
    } else if str_is(s, ";") {
        TokenKind::Semicolon
    } else if str_is(s, "(") {
        TokenKind::ParenthesisBegin
    } else if str_is(s, ")") {
        TokenKind::ParenthesisEnd
    } else if str_is(s, "{") {
        TokenKind::BracketBegin
    } else if str_is(s, "}") {
        TokenKind::BracketEnd
    } else {
        TokenKind::Identifier
    }
}

/// A token: its kind, and the text of an identifier or the value of a
/// number.
#[derive(Debug)]
pub struct Token {
    pub kind: TokenKind,
    orig_id: Option<String>,
    orig_number: Option<i32>,
}

/// The model of a token.
pub struct TokenV {
    pub kind: TokenKind,
    pub id: Option<Seq<char>>,
    pub number: Option<i32>,
}

impl View for Token {
    type V = TokenV;

    closed spec fn view(&self) -> TokenV {
        TokenV {
            kind: self.kind,
            id: match self.orig_id {
                Some(s) => Some(s@),
                None => None,
            },
            number: self.orig_number,
        }
    }
}

impl Clone for Token {
    fn clone(&self) -> (r: Token)
        ensures
            r@ == self@,
    {
        let orig_id = match &self.orig_id {
            Some(s) => Some(s.clone()),
            None => None,
        };
        Token { kind: self.kind, orig_id, orig_number: self.orig_number }
    }
}

/// The token that the word `s` is; only an identifier keeps its text.
pub open spec fn word_token(s: Seq<char>) -> TokenV {
    let kind = kind_of(s);
    TokenV {
        kind,
        id: if kind == TokenKind::Identifier {
            Some(s)
        } else {
            None
        },
        number: None,
    }
}

impl Token {
    /// The token that the word is.
    pub fn from_string(orig: String) -> (r: Token)
        ensures
            r@ == word_token(orig@),
    {
        let kind = kind_of_word(orig.as_str());
        let orig_id = match kind {
            TokenKind::Identifier => Some(orig),
            _ => None,
        };
        Token { kind, orig_id, orig_number: None }
    }

    /// The token of a number.
    pub fn from_i32(orig: i32) -> (r: Token)
        ensures
            r@ == (TokenV { kind: TokenKind::Number, id: None, number: Some(orig) }),
    {
        Token { kind: TokenKind::Number, orig_id: None, orig_number: Some(orig) }
    }

    /// The kind of the token.
    pub fn kind_of(&self) -> (r: TokenKind)
        ensures
            r == self@.kind,
    {
        self.kind
    }

    /// The text of an identifier.
    pub fn get_id(&self) -> (r: String)
        requires
            self@.id is Some,
        ensures
            Some(r@) == self@.id,
    {
        match &self.orig_id {
            Some(id) => id.clone(),
            None => vstd::pervasive::unreached(),
        }
    }

    /// The value of a number.
    pub fn get_number(&self) -> (r: i32)
        requires
            self@.number is Some,
        ensures
            Some(r) == self@.number,
    {
        match self.orig_number {
            Some(number) => number,
            None => vstd::pervasive::unreached(),
        }
    }
}

} // verus!
