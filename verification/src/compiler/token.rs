//! The compiler's tokenizer: identifiers, numbers, reserved words and
//! symbols, separated by spaces and newlines.
use vstd::prelude::*;
use crate::lang::token::{
    CharType, char_type, Scan, scan_at, scan_cont, rowcol, max_text_len, lemma_rowcol_bounds,
    lemma_scan_bounds, utf8_len, lemma_token_bytes,
};
use crate::compiler::error::{CompileError, CompileErrorKind, CompileErrorKindV, CErrV, CResult};
use crate::text::{chars_of, string_of_range, str_is};

verus! {

/// The kinds of tokens.
#[derive(Debug, Clone, Copy, PartialEq, Eq, Structural)]
pub enum TokenKind {
    /* reserved words */
    Unit,
    From,
    Import,
    Data,
    Module,
    Return,
    Spawn,
    Let,
    Use,
    /* symbols */
    Allow,
    Mapping,
    Equal,
    Accessor,
    Separater,
    Semicolon,
    ParenthesisBegin,
    ParenthesisEnd,
    BracketBegin,
    BracketEnd,
    AtMark,
    Plus,
    /* anything else */
    Identifier,
}

/// The name of a token kind, as messages show it.
pub open spec fn kind_name(k: TokenKind) -> Seq<char> {
    match k {
        TokenKind::Unit => "Unit"@,
        TokenKind::From => "From"@,
        TokenKind::Import => "Import"@,
        TokenKind::Data => "Data"@,
        TokenKind::Module => "Module"@,
        TokenKind::Return => "Return"@,
        TokenKind::Spawn => "Spawn"@,
        TokenKind::Let => "Let"@,
        TokenKind::Use => "Use"@,
        TokenKind::Allow => "Allow"@,
        TokenKind::Mapping => "Mapping"@,
        TokenKind::Equal => "Equal"@,
        TokenKind::Accessor => "Accessor"@,
        TokenKind::Separater => "Separater"@,
        TokenKind::Semicolon => "Semicolon"@,
        TokenKind::ParenthesisBegin => "ParenthesisBegin"@,
        TokenKind::ParenthesisEnd => "ParenthesisEnd"@,
        TokenKind::BracketBegin => "BracketBegin"@,
        TokenKind::BracketEnd => "BracketEnd"@,
        TokenKind::AtMark => "AtMark"@,
        TokenKind::Plus => "Plus"@,
        TokenKind::Identifier => "Identifier"@,
    }
}

impl TokenKind {
    /// The name of the kind, as messages show it.
    pub fn name(&self) -> (r: &'static str)
        ensures
            r@ == kind_name(*self),
    {
        match self {
            TokenKind::Unit => "Unit",
            TokenKind::From => "From",
            TokenKind::Import => "Import",
            TokenKind::Data => "Data",
            TokenKind::Module => "Module",
            TokenKind::Return => "Return",
            TokenKind::Spawn => "Spawn",
            TokenKind::Let => "Let",
            TokenKind::Use => "Use",
            TokenKind::Allow => "Allow",
            TokenKind::Mapping => "Mapping",
            TokenKind::Equal => "Equal",
            TokenKind::Accessor => "Accessor",
            TokenKind::Separater => "Separater",
            TokenKind::Semicolon => "Semicolon",
            TokenKind::ParenthesisBegin => "ParenthesisBegin",
            TokenKind::ParenthesisEnd => "ParenthesisEnd",
            TokenKind::BracketBegin => "BracketBegin",
            TokenKind::BracketEnd => "BracketEnd",
            TokenKind::AtMark => "AtMark",
            TokenKind::Plus => "Plus",
            TokenKind::Identifier => "Identifier",
        }
    }
}

/// The kind of token that the text `s` is.
pub open spec fn kind_of(s: Seq<char>) -> TokenKind {
    if s == "unit"@ {
        TokenKind::Unit
    } else if s == "from"@ {
        TokenKind::From
    } else if s == "import"@ {
        TokenKind::Import
    } else if s == "data"@ {
        TokenKind::Data
    } else if s == "module"@ {
        TokenKind::Module
    } else if s == "return"@ {
        TokenKind::Return
    } else if s == "let"@ {
        TokenKind::Let
    } else if s == "spawn"@ {
        TokenKind::Spawn
    } else if s == "use"@ {
        TokenKind::Use
    } else if s == "->"@ {
        TokenKind::Allow
    } else if s == ":"@ {
        TokenKind::Mapping
    } else if s == "="@ {
        TokenKind::Equal
    } else if s == "."@ {
        TokenKind::Accessor
    } else if s == ","@ {
        TokenKind::Separater
    } else if s == ";"@ {
        TokenKind::Semicolon
    } else if s == "("@ {
        TokenKind::ParenthesisBegin
    } else if s == ")"@ {
        TokenKind::ParenthesisEnd
    } else if s == "{"@ {
        TokenKind::BracketBegin
    } else if s == "}"@ {
        TokenKind::BracketEnd
    } else if s == "@"@ {
        TokenKind::AtMark
    } else if s == "+"@ {
        TokenKind::Plus
    } else {
        TokenKind::Identifier
    }
}

impl TokenKind {
    /// The kind of token that the text is.
    pub fn of(s: &str) -> (r: TokenKind)
        ensures
            r == kind_of(s@),
    {
        if str_is(s, "unit") {
            TokenKind::Unit
        } else if str_is(s, "from") {
            TokenKind::From
        } else if str_is(s, "import") {
            TokenKind::Import
        } else if str_is(s, "data") {
            TokenKind::Data
        } else if str_is(s, "module") {
            TokenKind::Module
        } else if str_is(s, "return") {
            TokenKind::Return
        } else if str_is(s, "let") {
            TokenKind::Let
        } else if str_is(s, "spawn") {
            TokenKind::Spawn
        } else if str_is(s, "use") {
            TokenKind::Use
        } else if str_is(s, "->") {
            TokenKind::Allow
        } else if str_is(s, ":") {
            TokenKind::Mapping
        } else if str_is(s, "=") {
            TokenKind::Equal
        } else if str_is(s, ".") {
            TokenKind::Accessor
        } else if str_is(s, ",") {
            TokenKind::Separater
        } else if str_is(s, ";") {
            TokenKind::Semicolon
        } else if str_is(s, "(") {
            TokenKind::ParenthesisBegin
        } else if str_is(s, ")") {
            TokenKind::ParenthesisEnd
        } else if str_is(s, "{") {
            TokenKind::BracketBegin
        } else if str_is(s, "}") {
            TokenKind::BracketEnd
        } else if str_is(s, "@") {
            TokenKind::AtMark
        } else if str_is(s, "+") {
            TokenKind::Plus
        } else {
            TokenKind::Identifier
        }
    }
}

/// A token: its kind, where it starts, and the text of an identifier.
#[derive(Debug)]
pub struct Token {
    pub kind: TokenKind,
    pub row: i32,
    pub col: i32,
    orig: Option<String>,
}

/// The model of a token.
pub struct TokenV {
    pub kind: TokenKind,
    pub row: int,
    pub col: int,
    pub orig: Option<Seq<char>>,
}

impl View for Token {
    type V = TokenV;

    closed spec fn view(&self) -> TokenV {
        TokenV {
            kind: self.kind,
            row: self.row as int,
            col: self.col as int,
            orig: match self.orig {
                Some(s) => Some(s@),
                None => None,
            },
        }
    }
}

impl Clone for Token {
    fn clone(&self) -> (r: Token)
        ensures
            r@ == self@,
    {
        let orig = match &self.orig {
            Some(s) => Some(s.clone()),
            None => None,
        };
        Token { kind: self.kind, row: self.row, col: self.col, orig }
    }
}

/// The token with text `orig` at row `row` and at column `col` less the
/// number of bytes that `orig` takes in UTF-8; only an identifier keeps its
/// text.
pub open spec fn token_of(orig: Seq<char>, row: int, col: int) -> TokenV {
    let kind = kind_of(orig);
    TokenV {
        kind,
        row,
        col: col - utf8_len(orig),
        orig: if kind == TokenKind::Identifier {
            Some(orig)
        } else {
            None
        },
    }
}

impl Token {
    /// The token with text `orig` at row `row` and at column `col` less the
    /// number of bytes that `orig` takes in UTF-8.
    pub fn from(orig: String, row: i32, col: i32) -> (r: Token)
        requires
            utf8_len(orig@) <= i32::MAX,
            i32::MIN <= col - utf8_len(orig@),
        ensures
            r@ == token_of(orig@, row as int, col as int),
    {
        let kind = TokenKind::of(orig.as_str());
        let n = orig.as_str().len() as i32;
        let orig = match kind {
            TokenKind::Identifier => Some(orig),
            _ => None,
        };
        Token { kind, row, col: col - n, orig }
    }

    /// The text of an identifier.
    pub fn get_id(&self) -> (r: CResult<String>)
        requires
            self@.orig is Some,
        ensures
            r matches Ok(s) && Some(s@) == self@.orig,
    {
        match &self.orig {
            Some(id) => Ok(id.clone()),
            None => vstd::pervasive::unreached(),
        }
    }
}

/// The first position from `i` on that is not a space or a newline.
pub open spec fn skip_spaces(text: Seq<char>, i: int) -> int
    decreases text.len() - i,
{
    if i < 0 || i >= text.len() {
        i
    } else {
        match char_type(text[i]) {
            CharType::Space | CharType::NewLine => skip_spaces(text, i + 1),
            _ => i,
        }
    }
}

pub proof fn lemma_skip_spaces(text: Seq<char>, i: int)
    requires
        0 <= i,
    ensures
        i <= skip_spaces(text, i),
        i <= text.len() ==> skip_spaces(text, i) <= text.len(),
        skip_spaces(text, skip_spaces(text, i)) == skip_spaces(text, i),
    decreases text.len() - i,
{
    if i < text.len() {
        lemma_skip_spaces(text, i + 1);
    }
}

/// The state of a tokenizer: the text, the position from which the next
/// token is scanned, and a token already scanned but not taken, with the
/// position where it starts.
pub struct TokState {
    pub text: Seq<char>,
    pub pos: int,
    pub hold: Option<(TokenV, int)>,
}

impl TokState {
    /// The token that spans positions `[i, e)`.
    pub open spec fn token_at(self, i: int, e: int) -> TokenV {
        token_of(self.text.subrange(i, e), rowcol(self.text, e).0, rowcol(self.text, e).1)
    }

    /// Where the next token starts.
    pub open spec fn cursor(self) -> int {
        match self.hold {
            Some((_, s)) => s,
            None => self.pos,
        }
    }

    /// Whether text is left after the tokens scanned so far.
    pub open spec fn has_token(self) -> bool {
        self.pos != self.text.len()
    }

    /// Taking the next token if it is of kind `kind`: the outcome and the
    /// state after.
    pub open spec fn expect(self, kind: TokenKind) -> (Result<Option<TokenV>, CErrV>, TokState) {
        match self.hold {
            Some((t, s)) => if t.kind == kind {
                (Ok(Some(t)), TokState { hold: None, ..self })
            } else {
                (Ok(None), self)
            },
            None => if self.pos >= self.text.len() {
                (Ok(None), self)
            } else {
                match scan_at(self.text, self.pos) {
                    Scan::Bad(j) => (
                        Err(
                            CErrV {
                                kind: CompileErrorKindV::FoundUnregisteredSymbol,
                                pos: Some((rowcol(self.text, j).0, rowcol(self.text, j).1)),
                            },
                        ),
                        self,
                    ),
                    Scan::End(e) => {
                        let t = self.token_at(self.pos, e);
                        let np = skip_spaces(self.text, e);
                        if t.kind == kind {
                            (Ok(Some(t)), TokState { pos: np, hold: None, ..self })
                        } else {
                            (Ok(None), TokState { pos: np, hold: Some((t, self.pos)), ..self })
                        }
                    },
                }
            },
        }
    }

    /// Taking the next token, which must be of kind `kind`; otherwise the
    /// failure is reported at the current position.
    pub open spec fn request(self, kind: TokenKind) -> (Result<TokenV, CErrV>, TokState) {
        let (r, st) = self.expect(kind);
        match r {
            Err(e) => (Err(e), st),
            Ok(Some(t)) => (Ok(t), st),
            Ok(None) => (
                Err(
                    CErrV {
                        kind: CompileErrorKindV::RequestedTokenNotFound(kind),
                        pos: Some((rowcol(st.text, st.pos).0, rowcol(st.text, st.pos).1)),
                    },
                ),
                st,
            ),
        }
    }

    /// The state of a tokenizer that has just been made for `text`.
    pub open spec fn start(text: Seq<char>) -> TokState {
        TokState { text, pos: skip_spaces(text, 0), hold: None }
    }

    /// `other` is a well-formed later state of the same text, whose next
    /// token starts no earlier.
    pub open spec fn steps(self, other: TokState) -> bool {
        &&& other.wf()
        &&& other.text == self.text
        &&& self.cursor() <= other.cursor()
    }

    /// The invariant of every tokenizer state.
    pub open spec fn wf(self) -> bool {
        &&& self.text.len() <= max_text_len()
        &&& 0 <= self.pos <= self.text.len()
        &&& skip_spaces(self.text, self.pos) == self.pos
        &&& match self.hold {
            Some((t, s)) => {
                &&& 0 <= s < self.pos
                &&& scan_at(self.text, s) matches Scan::End(e) && t == self.token_at(s, e)
                    && skip_spaces(self.text, e) == self.pos
            },
            None => true,
        }
    }
}

pub open spec fn view_opt_token(r: CResult<Option<Token>>) -> Result<Option<TokenV>, CErrV> {
    match r {
        Ok(Some(t)) => Ok(Some(t@)),
        Ok(None) => Ok(None),
        Err(e) => Err(e@),
    }
}

pub open spec fn view_token(r: CResult<Token>) -> Result<TokenV, CErrV> {
    match r {
        Ok(t) => Ok(t@),
        Err(e) => Err(e@),
    }
}

/// The tokenizer of a text.
pub struct Tokenizer {
    text: Vec<char>,
    hold_token: Option<Token>,
    hold_start: usize,
    now_ref_pos: usize,
    now_ref_row: i32,
    now_ref_col: i32,
}

impl View for Tokenizer {
    type V = TokState;

    closed spec fn view(&self) -> TokState {
        TokState {
            text: self.text@,
            pos: self.now_ref_pos as int,
            hold: match self.hold_token {
                Some(t) => Some((t@, self.hold_start as int)),
                None => None,
            },
        }
    }
}

impl Tokenizer {
    /// The invariant of the tokenizer.
    pub closed spec fn wf(&self) -> bool {
        &&& self@.wf()
        &&& rowcol(self.text@, self.now_ref_pos as int) == (
            self.now_ref_row as int,
            self.now_ref_col as int,
        )
    }

    /// The model of a well-formed tokenizer is well formed.
    pub proof fn lemma_wf(&self)
        requires
            self.wf(),
        ensures
            self@.wf(),
    {
    }

    /// A tokenizer for `text`, positioned at its first token.
    pub fn new(text: &String) -> (r: Tokenizer)
        requires
            text@.len() <= max_text_len(),
        ensures
            r.wf(),
            r@ == TokState::start(text@),
    {
        let chars = chars_of(text.as_str());
        let mut t = Tokenizer {
            text: chars,
            hold_token: None,
            hold_start: 0,
            now_ref_pos: 0,
            now_ref_row: 1,
            now_ref_col: 1,
        };
        t.skip_space();
        proof {
            lemma_skip_spaces(text@, 0);
        }
        t
    }

    /// Whether text is left after the tokens scanned so far.
    pub fn has_token(&self) -> (r: bool)
        requires
            self.wf(),
        ensures
            r == self@.has_token(),
    {
        self.now_ref_pos != self.text.len()
    }

    /// Whether a token was scanned and is kept for the next request.
    pub fn holds_token(&self) -> (r: bool)
        ensures
            r == self@.hold is Some,
    {
        self.hold_token.is_some()
    }

    /// Moves one character on, keeping the row and column.
    fn advance(&mut self)
        requires
            old(self).now_ref_pos < old(self).text@.len() <= max_text_len(),
            rowcol(old(self).text@, old(self).now_ref_pos as int) == (
                old(self).now_ref_row as int,
                old(self).now_ref_col as int,
            ),
        ensures
            final(self).now_ref_pos == old(self).now_ref_pos + 1,
            rowcol(final(self).text@, final(self).now_ref_pos as int) == (
                final(self).now_ref_row as int,
                final(self).now_ref_col as int,
            ),
            final(self).text == old(self).text,
            final(self).hold_token == old(self).hold_token,
            final(self).hold_start == old(self).hold_start,
    {
        proof {
            lemma_rowcol_bounds(self.text@, self.now_ref_pos as int + 1);
        }
        if self.text[self.now_ref_pos] == '\n' {
            self.now_ref_row = self.now_ref_row + 1;
            self.now_ref_col = 1;
        } else {
            self.now_ref_col = self.now_ref_col + 1;
        }
        self.now_ref_pos = self.now_ref_pos + 1;
    }

    /// Skips spaces and newlines.
    fn skip_space(&mut self)
        requires
            old(self).now_ref_pos <= old(self).text@.len() <= max_text_len(),
            rowcol(old(self).text@, old(self).now_ref_pos as int) == (
                old(self).now_ref_row as int,
                old(self).now_ref_col as int,
            ),
        ensures
            final(self).now_ref_pos == skip_spaces(old(self).text@, old(self).now_ref_pos as int),
            rowcol(final(self).text@, final(self).now_ref_pos as int) == (
                final(self).now_ref_row as int,
                final(self).now_ref_col as int,
            ),
            final(self).text == old(self).text,
            final(self).hold_token == old(self).hold_token,
            final(self).hold_start == old(self).hold_start,
    {
        let ghost start = self.now_ref_pos as int;
        while self.now_ref_pos < self.text.len()
            invariant
                self.now_ref_pos <= self.text@.len() <= max_text_len(),
                rowcol(self.text@, self.now_ref_pos as int) == (
                    self.now_ref_row as int,
                    self.now_ref_col as int,
                ),
                skip_spaces(self.text@, self.now_ref_pos as int) == skip_spaces(
                    old(self).text@,
                    start,
                ),
                self.text == old(self).text,
                self.hold_token == old(self).hold_token,
                self.hold_start == old(self).hold_start,
                start == old(self).now_ref_pos as int,
            decreases self.text.len() - self.now_ref_pos,
        {
            match CharType::from(self.text[self.now_ref_pos]) {
                CharType::Space | CharType::NewLine => {},
                _ => {
                    return;
                },
            }
            self.advance();
        }
    }

    /// Scans the token that starts at `start`: the position after it, or
    /// the position of an unregistered symbol.
    fn scan(&self, start: usize) -> (r: Result<usize, usize>)
        requires
            start < self.text@.len() <= max_text_len(),
        ensures
            match r {
                Ok(e) => scan_at(self.text@, start as int) == Scan::End(e as int),
                Err(b) => scan_at(self.text@, start as int) == Scan::Bad(b as int),
            },
    {
        let lead = CharType::from(self.text[start]);
        let mut j = start + 1;
        while j < self.text.len()
            invariant
                start < j <= self.text@.len(),
                lead == char_type(self.text@[start as int]),
                scan_cont(self.text@, lead, j as int) == scan_at(self.text@, start as int),
            decreases self.text.len() - j,
        {
            let t = CharType::from(self.text[j]);
            match lead {
                CharType::Identifier => {
                    if !(t == CharType::Identifier || t == CharType::Number) {
                        return Ok(j);
                    }
                },
                CharType::Number => {
                    if t != CharType::Number {
                        return Ok(j);
                    }
                },
                CharType::Symbol => {
                    return Ok(j);
                },
                CharType::SymbolAllow1 => {
                    if t == CharType::SymbolAllow2 {
                        return Ok(j + 1);
                    } else {
                        return Err(j);
                    }
                },
                CharType::SymbolAllow2 => {
                    return Err(j);
                },
                _ => {
                    return Ok(j);
                },
            }
            j = j + 1;
        }
        Ok(j)
    }

    /// The row and column of position `p`.
    fn coord_of(&self, p: usize) -> (r: (i32, i32))
        requires
            self.wf(),
            self.now_ref_pos <= p <= self.text@.len(),
        ensures
            r.0 == rowcol(self.text@, p as int).0,
            r.1 == rowcol(self.text@, p as int).1,
    {
        let mut row = self.now_ref_row;
        let mut col = self.now_ref_col;
        let mut q = self.now_ref_pos;
        while q < p
            invariant
                self.now_ref_pos <= q <= p <= self.text@.len() <= max_text_len(),
                rowcol(self.text@, q as int) == (row as int, col as int),
            decreases p - q,
        {
            proof {
                lemma_rowcol_bounds(self.text@, q as int + 1);
            }
            if self.text[q] == '\n' {
                row = row + 1;
                col = 1;
            } else {
                col = col + 1;
            }
            q = q + 1;
        }
        (row, col)
    }

    /// Takes the next token if it is of kind `kind`; otherwise keeps it for
    /// the next request and answers `None`.
    pub fn expect(&mut self, kind: TokenKind) -> (r: CResult<Option<Token>>)
        requires
            old(self).wf(),
        ensures
            final(self).wf(),
            (view_opt_token(r), final(self)@) == old(self)@.expect(kind),
            old(self)@.steps(final(self)@),
            r matches Ok(Some(_)) ==> old(self)@.cursor() < final(self)@.cursor(),
            r matches Ok(Some(t)) ==> t@.kind == kind && (kind == TokenKind::Identifier ==> t@.orig is Some),
    {
        if self.hold_token.is_some() {
            let t = self.hold_token.take().unwrap();
            if t.kind == kind {
                return Ok(Some(t));
            } else {
                self.hold_token = Some(t);
                return Ok(None);
            }
        }
        if self.now_ref_pos >= self.text.len() {
            return Ok(None);
        }
        let start = self.now_ref_pos;
        proof {
            lemma_rowcol_bounds(self.text@, self.now_ref_pos as int);
        }
        match self.scan(start) {
            Err(b) => {
                proof {
                    lemma_scan_bounds(self.text@, char_type(self.text@[start as int]), start as int + 1);
                }
                let pos = self.coord_of(b);
                CompileError::new_with_pos(CompileErrorKind::FoundUnregisteredSymbol, pos)
            },
            Ok(e) => {
                proof {
                    lemma_scan_bounds(self.text@, char_type(self.text@[start as int]), start as int + 1);
                }
                let orig = string_of_range(&self.text, start, e);
                while self.now_ref_pos < e
                    invariant
                        start <= self.now_ref_pos <= e <= self.text@.len() <= max_text_len(),
                        self.text == old(self).text,
                        self.hold_token.is_none(),
                        rowcol(self.text@, self.now_ref_pos as int) == (
                            self.now_ref_row as int,
                            self.now_ref_col as int,
                        ),
                    decreases e - self.now_ref_pos,
                {
                    self.advance();
                }
                proof {
                    lemma_rowcol_bounds(self.text@, e as int);
                    lemma_skip_spaces(self.text@, start as int + 1);
                    assert(self.text@[start as int] != '\n');
                    assert(rowcol(self.text@, e as int).1 >= (e - start) + 1) by {
                        lemma_token_cols(self.text@, start as int, e as int);
                    }
                    lemma_token_bytes(self.text@, start as int, e as int);
                }
                let token = Token::from(orig, self.now_ref_row, self.now_ref_col);
                self.skip_space();
                proof {
                    lemma_skip_spaces(self.text@, e as int);
                }
                if token.kind == kind {
                    Ok(Some(token))
                } else {
                    self.hold_token = Some(token);
                    self.hold_start = start;
                    Ok(None)
                }
            },
        }
    }

    /// Takes the next token, which must be of kind `kind`.
    pub fn request(&mut self, kind: TokenKind) -> (r: CResult<Token>)
        requires
            old(self).wf(),
        ensures
            final(self).wf(),
            (view_token(r), final(self)@) == old(self)@.request(kind),
            old(self)@.steps(final(self)@),
            r is Ok ==> old(self)@.cursor() < final(self)@.cursor(),
            r matches Ok(t) ==> t@.kind == kind && (kind == TokenKind::Identifier ==> t@.orig is Some),
    {
        match self.expect(kind)? {
            Some(token) => Ok(token),
            None => CompileError::new_with_pos(
                CompileErrorKind::RequestedTokenNotFound(kind),
                (self.now_ref_row, self.now_ref_col),
            ),
        }
    }
}

/// Within a token, which holds no newline, the column grows with every
/// character.
proof fn lemma_token_cols(text: Seq<char>, i: int, e: int)
    requires
        0 <= i < e <= text.len(),
        text[i] != '\n',
        scan_at(text, i) == Scan::End(e),
    ensures
        rowcol(text, e).1 >= (e - i) + 1,
{
    lemma_token_no_newline(text, char_type(text[i]), i, i + 1, e);
    lemma_cols_run(text, i, e);
    lemma_rowcol_col_pos(text, i);
}

/// No character of a scanned token is a newline.
proof fn lemma_token_no_newline(text: Seq<char>, lead: CharType, i: int, j: int, e: int)
    requires
        0 <= i < j <= text.len(),
        lead == char_type(text[i]),
        forall|k: int| i <= k < j ==> #[trigger] text[k] != '\n',
        scan_cont(text, lead, j) == Scan::End(e),
    ensures
        forall|k: int| i <= k < e ==> #[trigger] text[k] != '\n',
    decreases text.len() - j,
{
    if j < text.len() {
        let t = char_type(text[j]);
        match lead {
            CharType::Identifier => if t == CharType::Identifier || t == CharType::Number {
                assert(text[j] != '\n');
                lemma_token_no_newline(text, lead, i, j + 1, e);
            },
            CharType::Number => if t == CharType::Number {
                assert(text[j] != '\n');
                lemma_token_no_newline(text, lead, i, j + 1, e);
            },
            CharType::SymbolAllow1 => if t == CharType::SymbolAllow2 {
                assert(text[j] != '\n');
            },
            _ => {},
        }
    }
}

/// Over a run without newlines the column grows by one per character.
proof fn lemma_cols_run(text: Seq<char>, i: int, e: int)
    requires
        0 <= i <= e <= text.len(),
        forall|k: int| i <= k < e ==> #[trigger] text[k] != '\n',
    ensures
        rowcol(text, e).1 == rowcol(text, i).1 + (e - i),
    decreases e - i,
{
    if e > i {
        lemma_cols_run(text, i, e - 1);
    }
    lemma_rowcol_col_pos(text, i);
}

proof fn lemma_rowcol_col_pos(text: Seq<char>, i: int)
    ensures
        rowcol(text, i).1 >= 1,
    decreases i,
{
    if i > 0 {
        lemma_rowcol_col_pos(text, i - 1);
    }
}

} // verus!
