//! Splitting the text into tokens.
//!
//! A token is a run of letters, digits and underscores that starts with a
//! letter or underscore, a run of digits, one of the symbols
//! `= . , ; { } ( ) :`, the arrow `->`, or any other single character.
//! Spaces, tabs and newlines separate tokens, and text between two `%` is a
//! comment. A `-` that is not followed by `>`, and a `>` that is followed by
//! anything, is an unregistered symbol.
use vstd::prelude::*;
use crate::lang::error::{PError, PErrorKind, PErrorKindV, PErrorV, PResult};
use crate::lang::location::{Location, LocationV};
use crate::text::{str_is, string_of_range, chars_of};
use vstd::utf8::encode_utf8;

verus! {

/// The kinds of tokens.
#[derive(Debug, Clone, Copy, PartialEq, Eq, Structural)]
pub enum TokenKind {
    /* reserved words */
    Unit,
    From,
    Import,
    Data,
    Module,
    Func,
    Proc,
    Return,
    Spawn,
    Modify,
    Affect,
    Let,
    Use,
    /* symbols */
    Allow,
    Mapping,
    Equal,
    Accessor,
    Separater,
    Semicolon,
    ParenthesisBegin,
    ParenthesisEnd,
    BracketBegin,
    BracketEnd,
    AtMark,
    Plus,
    /* anything else */
    Identifier,
}

/// The name of a token kind, as messages show it.
pub open spec fn kind_name(k: TokenKind) -> Seq<char> {
    match k {
        TokenKind::Unit => "Unit"@,
        TokenKind::From => "From"@,
        TokenKind::Import => "Import"@,
        TokenKind::Data => "Data"@,
        TokenKind::Module => "Module"@,
        TokenKind::Func => "Func"@,
        TokenKind::Proc => "Proc"@,
        TokenKind::Return => "Return"@,
        TokenKind::Spawn => "Spawn"@,
        TokenKind::Modify => "Modify"@,
        TokenKind::Affect => "Affect"@,
        TokenKind::Let => "Let"@,
        TokenKind::Use => "Use"@,
        TokenKind::Allow => "Allow"@,
        TokenKind::Mapping => "Mapping"@,
        TokenKind::Equal => "Equal"@,
        TokenKind::Accessor => "Accessor"@,
        TokenKind::Separater => "Separater"@,
        TokenKind::Semicolon => "Semicolon"@,
        TokenKind::ParenthesisBegin => "ParenthesisBegin"@,
        TokenKind::ParenthesisEnd => "ParenthesisEnd"@,
        TokenKind::BracketBegin => "BracketBegin"@,
        TokenKind::BracketEnd => "BracketEnd"@,
        TokenKind::AtMark => "AtMark"@,
        TokenKind::Plus => "Plus"@,
        TokenKind::Identifier => "Identifier"@,
    }
}

impl TokenKind {
    /// The name of the kind, as messages show it.
    pub fn name(&self) -> (r: &'static str)
        ensures
            r@ == kind_name(*self),
    {
        match self {
            TokenKind::Unit => "Unit",
            TokenKind::From => "From",
            TokenKind::Import => "Import",
            TokenKind::Data => "Data",
            TokenKind::Module => "Module",
            TokenKind::Func => "Func",
            TokenKind::Proc => "Proc",
            TokenKind::Return => "Return",
            TokenKind::Spawn => "Spawn",
            TokenKind::Modify => "Modify",
            TokenKind::Affect => "Affect",
            TokenKind::Let => "Let",
            TokenKind::Use => "Use",
            TokenKind::Allow => "Allow",
            TokenKind::Mapping => "Mapping",
            TokenKind::Equal => "Equal",
            TokenKind::Accessor => "Accessor",
            TokenKind::Separater => "Separater",
            TokenKind::Semicolon => "Semicolon",
            TokenKind::ParenthesisBegin => "ParenthesisBegin",
            TokenKind::ParenthesisEnd => "ParenthesisEnd",
            TokenKind::BracketBegin => "BracketBegin",
            TokenKind::BracketEnd => "BracketEnd",
            TokenKind::AtMark => "AtMark",
            TokenKind::Plus => "Plus",
            TokenKind::Identifier => "Identifier",
        }
    }
}

/// The kind of token that the text `s` is.
pub open spec fn kind_of(s: Seq<char>) -> TokenKind {
    if s == "unit"@ {
        TokenKind::Unit
    } else if s == "from"@ {
        TokenKind::From
    } else if s == "import"@ {
        TokenKind::Import
    } else if s == "data"@ {
        TokenKind::Data
    } else if s == "module"@ {
        TokenKind::Module
    } else if s == "func"@ {
        TokenKind::Func
    } else if s == "proc"@ {
        TokenKind::Proc
    } else if s == "return"@ {
        TokenKind::Return
    } else if s == "let"@ {
        TokenKind::Let
    } else if s == "spawn"@ {
        TokenKind::Spawn
    } else if s == "modify"@ {
        TokenKind::Modify
    } else if s == "affect"@ {
        TokenKind::Affect
    } else if s == "use"@ {
        TokenKind::Use
    } else if s == "->"@ {
        TokenKind::Allow
    } else if s == ":"@ {
        TokenKind::Mapping
    } else if s == "="@ {
        TokenKind::Equal
    } else if s == "."@ {
        TokenKind::Accessor
    } else if s == ","@ {
        TokenKind::Separater
    } else if s == ";"@ {
        TokenKind::Semicolon
    } else if s == "("@ {
        TokenKind::ParenthesisBegin
    } else if s == ")"@ {
        TokenKind::ParenthesisEnd
    } else if s == "{"@ {
        TokenKind::BracketBegin
    } else if s == "}"@ {
        TokenKind::BracketEnd
    } else if s == "@"@ {
        TokenKind::AtMark
    } else if s == "+"@ {
        TokenKind::Plus
    } else {
        TokenKind::Identifier
    }
}

impl TokenKind {
    /// Whether the kind is one of the reserved words.
    pub open spec fn is_reserved(self) -> bool {
        match self {
            TokenKind::Unit | TokenKind::From | TokenKind::Import | TokenKind::Data
            | TokenKind::Module | TokenKind::Func | TokenKind::Proc | TokenKind::Return
            | TokenKind::Spawn | TokenKind::Modify | TokenKind::Affect | TokenKind::Let
            | TokenKind::Use => true,
            _ => false,
        }
    }

    /// Whether the kind is one of the reserved words.
    pub fn is_reserved_word(&self) -> (r: bool)
        ensures
            r == self.is_reserved(),
    {
        match self {
            TokenKind::Unit | TokenKind::From | TokenKind::Import | TokenKind::Data
            | TokenKind::Module | TokenKind::Func | TokenKind::Proc | TokenKind::Return
            | TokenKind::Spawn | TokenKind::Modify | TokenKind::Affect | TokenKind::Let
            | TokenKind::Use => true,
            _ => false,
        }
    }

    /// The kind of token that the text is.
    pub fn of(s: &str) -> (r: TokenKind)
        ensures
            r == kind_of(s@),
    {
        if str_is(s, "unit") {
            TokenKind::Unit
        } else if str_is(s, "from") {
            TokenKind::From
        } else if str_is(s, "import") {
            TokenKind::Import
        } else if str_is(s, "data") {
            TokenKind::Data
        } else if str_is(s, "module") {
            TokenKind::Module
        } else if str_is(s, "func") {
            TokenKind::Func
        } else if str_is(s, "proc") {
            TokenKind::Proc
        } else if str_is(s, "return") {
            TokenKind::Return
        } else if str_is(s, "let") {
            TokenKind::Let
        } else if str_is(s, "spawn") {
            TokenKind::Spawn
        } else if str_is(s, "modify") {
            TokenKind::Modify
        } else if str_is(s, "affect") {
            TokenKind::Affect
        } else if str_is(s, "use") {
            TokenKind::Use
        } else if str_is(s, "->") {
            TokenKind::Allow
        } else if str_is(s, ":") {
            TokenKind::Mapping
        } else if str_is(s, "=") {
            TokenKind::Equal
        } else if str_is(s, ".") {
            TokenKind::Accessor
        } else if str_is(s, ",") {
            TokenKind::Separater
        } else if str_is(s, ";") {
            TokenKind::Semicolon
        } else if str_is(s, "(") {
            TokenKind::ParenthesisBegin
        } else if str_is(s, ")") {
            TokenKind::ParenthesisEnd
        } else if str_is(s, "{") {
            TokenKind::BracketBegin
        } else if str_is(s, "}") {
            TokenKind::BracketEnd
        } else if str_is(s, "@") {
            TokenKind::AtMark
        } else if str_is(s, "+") {
            TokenKind::Plus
        } else {
            TokenKind::Identifier
        }
    }
}

/// A token: its kind, its text and where it starts.
#[derive(Debug, PartialEq, Eq)]
pub struct Token {
    pub kind: TokenKind,
    pub orig: String,
    pub location: Location,
}

/// The mathematical model of a token.
pub struct TokenV {
    pub kind: TokenKind,
    pub orig: Seq<char>,
    pub location: LocationV,
}

impl View for Token {
    type V = TokenV;

    open spec fn view(&self) -> TokenV {
        TokenV { kind: self.kind, orig: self.orig@, location: self.location@ }
    }
}

impl Clone for Token {
    fn clone(&self) -> (r: Token)
        ensures
            r@ == self@,
    {
        Token { kind: self.kind, orig: self.orig.clone(), location: self.location.clone() }
    }
}

impl Token {
    /// The token with text `orig`, placed at row `row` and at column `col`
    /// less the number of bytes that `orig` takes in UTF-8.
    pub fn new(orig: String, row: i32, col: i32) -> (r: Token)
        requires
            utf8_len(orig@) <= i32::MAX,
            i32::MIN <= col - utf8_len(orig@),
        ensures
            r@ == (TokenV {
                kind: kind_of(orig@),
                orig: orig@,
                location: LocationV {
                    filename: None,
                    coord: Some((row, (col - utf8_len(orig@)) as i32)),
                },
            }),
    {
        let kind = TokenKind::of(orig.as_str());
        let n = orig.as_str().len();
        let n32 = n as i32;
        let location = Location::new().with_coord((row, col - n32));
        Token { kind, orig, location }
    }
}

/// The classes of characters.
#[derive(Debug, Clone, Copy, PartialEq, Eq, Structural)]
pub enum CharType {
    Number,
    Identifier,
    Symbol,
    SymbolAllow1,
    SymbolAllow2,
    Comment,
    Space,
    NewLine,
    Other,
}

pub open spec fn char_type(c: char) -> CharType {
    if '0' <= c && c <= '9' {
        CharType::Number
    } else if ('a' <= c && c <= 'z') || ('A' <= c && c <= 'Z') || c == '_' {
        CharType::Identifier
    } else if c == '=' || c == '.' || c == ',' || c == ';' || c == '{' || c == '}' || c == '('
        || c == ')' || c == ':' {
        CharType::Symbol
    } else if c == '-' {
        CharType::SymbolAllow1
    } else if c == '>' {
        CharType::SymbolAllow2
    } else if c == '%' {
        CharType::Comment
    } else if c == ' ' || c == '\t' {
        CharType::Space
    } else if c == '\n' {
        CharType::NewLine
    } else {
        CharType::Other
    }
}

impl CharType {
    /// The class of the character.
    pub fn from(c: char) -> (r: CharType)
        ensures
            r == char_type(c),
    {
        if '0' <= c && c <= '9' {
            CharType::Number
        } else if ('a' <= c && c <= 'z') || ('A' <= c && c <= 'Z') || c == '_' {
            CharType::Identifier
        } else if c == '=' || c == '.' || c == ',' || c == ';' || c == '{' || c == '}' || c
            == '(' || c == ')' || c == ':' {
            CharType::Symbol
        } else if c == '-' {
            CharType::SymbolAllow1
        } else if c == '>' {
            CharType::SymbolAllow2
        } else if c == '%' {
            CharType::Comment
        } else if c == ' ' || c == '\t' {
            CharType::Space
        } else if c == '\n' {
            CharType::NewLine
        } else {
            CharType::Other
        }
    }
}

/// The first position from `i` on that is neither a separator nor inside a
/// comment (`comment` tells whether `i` is inside one).
pub open spec fn skip_from(text: Seq<char>, i: int, comment: bool) -> int
    decreases text.len() - i,
{
    if i < 0 || i >= text.len() {
        i
    } else {
        match char_type(text[i]) {
            CharType::Space | CharType::NewLine => skip_from(text, i + 1, comment),
            CharType::Comment => skip_from(text, i + 1, !comment),
            _ => if comment {
                skip_from(text, i + 1, comment)
            } else {
                i
            },
        }
    }
}

/// How scanning a token ends: at a position, or at an unregistered symbol.
pub enum Scan {
    End(int),
    Bad(int),
}

/// Scanning on from position `j` of a token whose first character has class
/// `lead`.
pub open spec fn scan_cont(text: Seq<char>, lead: CharType, j: int) -> Scan
    decreases text.len() - j,
{
    if j < 0 || j >= text.len() {
        Scan::End(j)
    } else {
        let t = char_type(text[j]);
        match lead {
            CharType::Identifier => if t == CharType::Identifier || t == CharType::Number {
                scan_cont(text, lead, j + 1)
            } else {
                Scan::End(j)
            },
            CharType::Number => if t == CharType::Number {
                scan_cont(text, lead, j + 1)
            } else {
                Scan::End(j)
            },
            CharType::Symbol => Scan::End(j),
            CharType::SymbolAllow1 => if t == CharType::SymbolAllow2 {
                Scan::End(j + 1)
            } else {
                Scan::Bad(j)
            },
            CharType::SymbolAllow2 => Scan::Bad(j),
            _ => Scan::End(j),
        }
    }
}

/// Scanning the token that starts at position `i`.
pub open spec fn scan_at(text: Seq<char>, i: int) -> Scan {
    scan_cont(text, char_type(text[i]), i + 1)
}

/// The (row, column) of position `i`, both counted from 1.
pub open spec fn rowcol(text: Seq<char>, i: int) -> (int, int)
    decreases i,
{
    if i <= 0 {
        (1, 1)
    } else {
        let (r, c) = rowcol(text, i - 1);
        if text[i - 1] == '\n' {
            (r + 1, 1)
        } else {
            (r, c + 1)
        }
    }
}

/// The number of bytes that `s` takes in UTF-8.
pub open spec fn utf8_len(s: Seq<char>) -> int {
    encode_utf8(s).len() as int
}

/// The row and column that the tokenizer counts once it has read on to
/// position `p` of `text` (or, at the end, once it has looked past it). The
/// first position is at row 1, column 2; a blank, a tab or a `%` moves the
/// column on by two, a line break starts the next row at column 2, and any
/// other character moves the column on by one.
pub open spec fn counter_at(text: Seq<char>, p: int) -> (int, int)
    decreases p,
{
    if p <= 0 {
        (1, 2)
    } else {
        let (r, c) = counter_at(text, p - 1);
        match char_type(text[p - 1]) {
            CharType::NewLine => (r + 1, 2),
            CharType::Space | CharType::Comment => (r, c + 2),
            _ => (r, c + 1),
        }
    }
}

/// How many more times the tokenizer looks past the end of the text after
/// scanning the token `[s, e)`: none when text follows the token, once
/// after an arrow `->` that ends the text, and twice after any other token
/// that ends it.
pub open spec fn end_extra(text: Seq<char>, s: int, e: int) -> int {
    if e < text.len() {
        0
    } else if char_type(text[s]) == CharType::SymbolAllow1 && e == s + 2 {
        1
    } else {
        2
    }
}

/// The location at the coordinates `c`, with no file.
pub open spec fn coord_loc(c: (int, int)) -> LocationV {
    LocationV { filename: None, coord: Some((c.0 as i32, c.1 as i32)) }
}

/// The token `[s, e)` of `text`. It is placed where the counter stands once
/// the separators after it are skipped (with the looks past the end that
/// its scan takes), less the number of bytes of its text.
pub open spec fn token_of_range(text: Seq<char>, s: int, e: int) -> TokenV {
    let orig = text.subrange(s, e);
    let c = counter_at(text, skip_from(text, e, false));
    TokenV {
        kind: kind_of(orig),
        orig,
        location: coord_loc((c.0, c.1 + end_extra(text, s, e) - utf8_len(orig))),
    }
}

/// The longest text the tokenizer takes: the column counter, which moves
/// on by up to two per character, stays within `i32`.
pub open spec fn max_text_len() -> int {
    0x3fff_0000
}

/// The state of a tokenizer: the name of the file the text was read from,
/// the text, the position from which the next token is scanned, a token
/// already scanned but not taken (with the position where it starts), and
/// how many more times than once the tokenizer has looked past the end of
/// the text, each of which moves the column counter on by one.
pub struct TokState {
    pub filename: Seq<char>,
    pub text: Seq<char>,
    pub pos: int,
    pub hold: Option<(TokenV, int)>,
    pub extra: int,
}

impl TokState {
    /// The row and column the counter stands at.
    pub open spec fn coord(self) -> (int, int) {
        (counter_at(self.text, self.pos).0, counter_at(self.text, self.pos).1 + self.extra)
    }

    /// The token that spans positions `[i, e)`.
    pub open spec fn token_at(self, i: int, e: int) -> TokenV {
        token_of_range(self.text, i, e)
    }

    /// The state after asking whether text is left: at the end of the text
    /// the tokenizer looks past it once more, which moves the column on
    /// (while the column stays within `i32`).
    pub open spec fn probed(self) -> TokState {
        if self.pos >= self.text.len() && self.coord().1 < i32::MAX {
            TokState { extra: self.extra + 1, ..self }
        } else {
            self
        }
    }

    /// Whether text is left after the tokens scanned so far, and the state
    /// after asking.
    pub open spec fn exists_next(self) -> (bool, TokState) {
        (self.pos < self.text.len(), self.probed())
    }

    /// Where the next token starts.
    pub open spec fn cursor(self) -> int {
        match self.hold {
            Some((_, s)) => s,
            None => self.pos,
        }
    }

    /// The location reported for the current position.
    pub open spec fn now_loc(self) -> LocationV {
        match self.hold {
            Some((t, _)) => t.location,
            None => coord_loc(self.coord()),
        }
    }

    /// Taking the next token if it is of kind `kind`: the outcome and the
    /// state after.
    pub open spec fn expect(self, kind: TokenKind) -> (Result<Option<TokenV>, PErrorV>, TokState) {
        match self.hold {
            Some((t, s)) => if t.kind == kind {
                (Ok(Some(t)), TokState { hold: None, ..self })
            } else {
                (Ok(None), self)
            },
            None => if self.pos >= self.text.len() {
                (Ok(None), self.probed())
            } else {
                match scan_at(self.text, self.pos) {
                    Scan::Bad(j) => (
                        Err(
                            PErrorV {
                                kind: PErrorKindV::FoundUnregisteredSymbol,
                                happen_at: coord_loc(counter_at(self.text, j)),
                            },
                        ),
                        self,
                    ),
                    Scan::End(e) => {
                        let t = self.token_at(self.pos, e);
                        let np = skip_from(self.text, e, false);
                        let x = end_extra(self.text, self.pos, e);
                        if t.kind == kind {
                            (Ok(Some(t)), TokState { pos: np, hold: None, extra: x, ..self })
                        } else {
                            (
                                Ok(None),
                                TokState { pos: np, hold: Some((t, self.pos)), extra: x, ..self },
                            )
                        }
                    },
                }
            },
        }
    }

    /// Taking the next token if it is a word: an identifier, or a reserved
    /// word standing where only a name can (after `.` in a dotted path).
    pub open spec fn expect_word(self) -> (Result<Option<TokenV>, PErrorV>, TokState) {
        let (r, s1) = self.expect(TokenKind::Identifier);
        match r {
            Ok(None) => match s1.hold {
                Some((t, _)) => if t.kind.is_reserved() {
                    s1.expect(t.kind)
                } else {
                    (r, s1)
                },
                None => (r, s1),
            },
            _ => (r, s1),
        }
    }

    /// Taking the next token, which must be of kind `kind`.
    pub open spec fn request(self, kind: TokenKind) -> (Result<TokenV, PErrorV>, TokState) {
        let (r, st) = self.expect(kind);
        match r {
            Err(e) => (Err(e), st),
            Ok(Some(t)) => (Ok(t), st),
            Ok(None) => (
                Err(
                    PErrorV {
                        kind: PErrorKindV::RequestedTokenNotFound(kind),
                        happen_at: st.now_loc(),
                    },
                ),
                st,
            ),
        }
    }

    /// The state of a tokenizer that has just been made for `text`.
    pub open spec fn start(filename: Seq<char>, text: Seq<char>) -> TokState {
        TokState { filename, text, pos: skip_from(text, 0, false), hold: None, extra: 0 }
    }

    /// `other` is a well-formed later state of the same text, whose next
    /// token starts no earlier.
    pub open spec fn steps(self, other: TokState) -> bool {
        &&& other.wf()
        &&& other.text == self.text
        &&& other.filename == self.filename
        &&& self.cursor() <= other.cursor()
    }

    /// The invariant of every tokenizer state.
    pub open spec fn wf(self) -> bool {
        &&& self.text.len() <= max_text_len()
        &&& 0 <= self.pos <= self.text.len()
        &&& skip_from(self.text, self.pos, false) == self.pos
        &&& 0 <= self.extra
        &&& self.pos < self.text.len() ==> self.extra == 0
        &&& self.coord().1 <= i32::MAX
        &&& match self.hold {
            Some((t, s)) => {
                &&& 0 <= s < self.pos
                &&& scan_at(self.text, s) matches Scan::End(e) && t == self.token_at(s, e)
                    && skip_from(self.text, e, false) == self.pos
            },
            None => true,
        }
    }
}

pub open spec fn view_opt_token(r: PResult<Option<Token>>) -> Result<Option<TokenV>, PErrorV> {
    match r {
        Ok(Some(t)) => Ok(Some(t@)),
        Ok(None) => Ok(None),
        Err(e) => Err(e@),
    }
}

pub open spec fn view_token(r: PResult<Token>) -> Result<TokenV, PErrorV> {
    match r {
        Ok(t) => Ok(t@),
        Err(e) => Err(e@),
    }
}

pub(crate) proof fn lemma_rowcol_bounds(text: Seq<char>, i: int)
    requires
        i >= 0,
    ensures
        1 <= rowcol(text, i).0 <= i + 1,
        1 <= rowcol(text, i).1 <= i + 1,
    decreases i,
{
    if i > 0 {
        lemma_rowcol_bounds(text, i - 1);
    }
}

/// The counter's row and column grow with the position, by at most one row
/// and two columns per character.
pub proof fn lemma_counter_bounds(text: Seq<char>, p: int)
    requires
        p >= 0,
    ensures
        1 <= counter_at(text, p).0 <= p + 1,
        2 <= counter_at(text, p).1 <= 2 * p + 2,
    decreases p,
{
    if p > 0 {
        lemma_counter_bounds(text, p - 1);
    }
}

/// A character of a class that tokens are built from, other than the
/// class of other characters, is ASCII.
proof fn lemma_class_ascii(c: char)
    requires
        char_type(c) == CharType::Number || char_type(c) == CharType::Identifier || char_type(c)
            == CharType::Symbol || char_type(c) == CharType::SymbolAllow1 || char_type(c)
            == CharType::SymbolAllow2,
    ensures
        (c as u32) < 0x80,
{
}

/// ASCII text takes one byte per character.
proof fn lemma_utf8_len_ascii(x: Seq<char>)
    requires
        forall|i: int| 0 <= i < x.len() ==> (#[trigger] x[i] as u32) < 0x80,
    ensures
        utf8_len(x) == x.len(),
    decreases x.len(),
{
    if x.len() > 0 {
        assert(forall|i: int| 0 <= i < x.drop_first().len() ==> x.drop_first()[i] == x[i + 1]);
        lemma_utf8_len_ascii(x.drop_first());
    }
}

/// One character takes one to four bytes.
proof fn lemma_utf8_len_one(c: char)
    ensures
        1 <= utf8_len(seq![c]) <= 4,
{
    assert(seq![c].drop_first() =~= Seq::<char>::empty());
    assert(encode_utf8(Seq::<char>::empty()) =~= Seq::<u8>::empty());
}

/// The characters a run of letters and digits goes on with are letters and
/// digits.
proof fn lemma_scan_word(text: Seq<char>, lead: CharType, j: int, e: int)
    requires
        0 <= j,
        lead == CharType::Identifier || lead == CharType::Number,
        scan_cont(text, lead, j) == Scan::End(e),
    ensures
        j <= e,
        forall|k: int| j <= k < e ==> (char_type(#[trigger] text[k]) == CharType::Identifier
            || char_type(text[k]) == CharType::Number),
    decreases text.len() - j,
{
    if j < text.len() {
        let t = char_type(text[j]);
        if (lead == CharType::Identifier && (t == CharType::Identifier || t == CharType::Number)) || (
        lead == CharType::Number && t == CharType::Number) {
            lemma_scan_word(text, lead, j + 1, e);
        }
    }
}

/// A token takes at most three bytes more than it has characters: only a
/// token of one other character can be more than ASCII.
pub proof fn lemma_token_bytes(text: Seq<char>, s: int, e: int)
    requires
        0 <= s < text.len(),
        scan_at(text, s) == Scan::End(e),
    ensures
        s < e <= text.len(),
        e - s <= utf8_len(text.subrange(s, e)) <= e - s + 3,
{
    let lead = char_type(text[s]);
    lemma_scan_bounds(text, lead, s + 1);
    if e == s + 1 {
        assert(text.subrange(s, e) =~= seq![text[s]]);
        lemma_utf8_len_one(text[s]);
    } else {
        let x = text.subrange(s, e);
        if lead == CharType::Identifier || lead == CharType::Number {
            lemma_scan_word(text, lead, s + 1, e);
            assert forall|i: int| 0 <= i < x.len() implies (#[trigger] x[i] as u32) < 0x80 by {
                lemma_class_ascii(text[s + i]);
            }
        } else {
            assert(lead == CharType::SymbolAllow1 && e == s + 2);
            assert forall|i: int| 0 <= i < x.len() implies (#[trigger] x[i] as u32) < 0x80 by {
                lemma_class_ascii(text[s + i]);
            }
        }
        lemma_utf8_len_ascii(x);
    }
}

/// Skipping moves forward and stays within the text.
pub proof fn lemma_skip_ge(text: Seq<char>, i: int, comment: bool)
    requires
        0 <= i,
    ensures
        i <= skip_from(text, i, comment) <= if i <= text.len() {
            text.len() as int
        } else {
            i
        },
    decreases text.len() - i,
{
    if i < text.len() {
        lemma_skip_ge(text, i + 1, comment);
        lemma_skip_ge(text, i + 1, !comment);
    }
}

/// Skipping from where skipping stopped stays there.
proof fn lemma_skip_idem(text: Seq<char>, i: int)
    requires
        0 <= i,
    ensures
        skip_from(text, skip_from(text, i, false), false) == skip_from(text, i, false),
    decreases text.len() - i,
{
    lemma_skip_ge(text, i, false);
    if i < text.len() {
        match char_type(text[i]) {
            CharType::Space | CharType::NewLine => lemma_skip_idem(text, i + 1),
            CharType::Comment => {
                lemma_skip_comment(text, i + 1);
            },
            _ => {},
        }
    }
}

/// Skipping from inside a comment ends where skipping from outside one
/// stays.
proof fn lemma_skip_comment(text: Seq<char>, i: int)
    requires
        0 <= i,
    ensures
        skip_from(text, skip_from(text, i, true), false) == skip_from(text, i, true),
    decreases text.len() - i,
{
    if i < text.len() {
        match char_type(text[i]) {
            CharType::Space | CharType::NewLine => lemma_skip_comment(text, i + 1),
            CharType::Comment => lemma_skip_idem(text, i + 1),
            _ => lemma_skip_comment(text, i + 1),
        }
    }
}

/// A scan ends within the text, no earlier than where it resumed.
pub proof fn lemma_scan_bounds(text: Seq<char>, lead: CharType, j: int)
    requires
        0 <= j <= text.len(),
    ensures
        scan_cont(text, lead, j) matches Scan::End(e) ==> j <= e <= text.len(),
        scan_cont(text, lead, j) matches Scan::Bad(b) ==> j <= b < text.len(),
    decreases text.len() - j,
{
    if j < text.len() {
        lemma_scan_bounds(text, lead, j + 1);
    }
}

/// The text from position `i` on without separators and comments: every
/// blank, tab and line break outside a comment, and every comment from its
/// `%` to the closing `%` (or to the end), left out. `comment` tells
/// whether `i` is inside a comment.
pub open spec fn stripped_from(text: Seq<char>, i: int, comment: bool) -> Seq<char>
    decreases text.len() - i,
{
    if i < 0 || i >= text.len() {
        Seq::empty()
    } else {
        match char_type(text[i]) {
            CharType::Space | CharType::NewLine => stripped_from(text, i + 1, comment),
            CharType::Comment => stripped_from(text, i + 1, !comment),
            _ => if comment {
                stripped_from(text, i + 1, comment)
            } else {
                seq![text[i]] + stripped_from(text, i + 1, comment)
            },
        }
    }
}

/// The texts of the tokens from position `p` on, one after the other; none
/// when an unregistered symbol stops the scan.
pub open spec fn tokens_from(text: Seq<char>, p: int) -> Option<Seq<Seq<char>>>
    decreases text.len() - p,
{
    if p < 0 || p >= text.len() {
        Some(Seq::empty())
    } else {
        match scan_at(text, p) {
            Scan::Bad(_) => None,
            Scan::End(e) => {
                proof {
                    lemma_scan_bounds(text, char_type(text[p]), p + 1);
                    lemma_skip_ge(text, e, false);
                }
                match tokens_from(text, skip_from(text, e, false)) {
                    None => None,
                    Some(ts) => Some(seq![text.subrange(p, e)] + ts),
                }
            },
        }
    }
}

/// The texts joined one after the other.
pub open spec fn concat_all(ts: Seq<Seq<char>>) -> Seq<char>
    decreases ts.len(),
{
    if ts.len() == 0 {
        Seq::empty()
    } else {
        ts[0] + concat_all(ts.drop_first())
    }
}

/// The texts of the tokens a tokenizer state has still to give: from the
/// token it holds, or else from its position.
pub open spec fn pending(st: TokState) -> Option<Seq<Seq<char>>> {
    match st.hold {
        Some((_, s)) => tokens_from(st.text, s),
        None => tokens_from(st.text, st.pos),
    }
}

/// Separators and comments are left out of the stripped text wherever the
/// scan skips them.
proof fn lemma_strip_skip(text: Seq<char>, i: int, comment: bool)
    requires
        0 <= i,
    ensures
        stripped_from(text, i, comment) == stripped_from(text, skip_from(text, i, comment), false),
    decreases text.len() - i,
{
    if i < text.len() {
        match char_type(text[i]) {
            CharType::Space | CharType::NewLine => lemma_strip_skip(text, i + 1, comment),
            CharType::Comment => lemma_strip_skip(text, i + 1, !comment),
            _ => if comment {
                lemma_strip_skip(text, i + 1, comment);
            },
        }
    }
}

/// A character that goes on a token started by `lead` is no separator and
/// opens no comment.
proof fn lemma_scan_plain(text: Seq<char>, lead: CharType, j: int, e: int)
    requires
        0 <= j,
        scan_cont(text, lead, j) == Scan::End(e),
    ensures
        forall|k: int| j <= k < e ==> match char_type(#[trigger] text[k]) {
            CharType::Space | CharType::NewLine | CharType::Comment => false,
            _ => true,
        },
    decreases text.len() - j,
{
    if j < text.len() {
        let t = char_type(text[j]);
        match lead {
            CharType::Identifier => if t == CharType::Identifier || t == CharType::Number {
                lemma_scan_plain(text, lead, j + 1, e);
            },
            CharType::Number => if t == CharType::Number {
                lemma_scan_plain(text, lead, j + 1, e);
            },
            _ => {},
        }
    }
}

/// Text without separators or comments is kept as it is.
proof fn lemma_strip_plain(text: Seq<char>, j: int, e: int)
    requires
        0 <= j <= e <= text.len(),
        forall|k: int| j <= k < e ==> match char_type(#[trigger] text[k]) {
            CharType::Space | CharType::NewLine | CharType::Comment => false,
            _ => true,
        },
    ensures
        stripped_from(text, j, false) == text.subrange(j, e) + stripped_from(text, e, false),
    decreases e - j,
{
    if j < e {
        lemma_strip_plain(text, j + 1, e);
        assert(match char_type(text[j]) {
            CharType::Space | CharType::NewLine | CharType::Comment => false,
            _ => true,
        });
        assert(text.subrange(j, e) =~= seq![text[j]] + text.subrange(j + 1, e));
    } else {
        assert(text.subrange(j, e) =~= Seq::<char>::empty());
    }
}

/// The tokens from a position where no separator stands spell the
/// stripped text from there, and none is empty.
proof fn lemma_tokens_spell(text: Seq<char>, p: int)
    requires
        0 <= p,
        skip_from(text, p, false) == p,
    ensures
        tokens_from(text, p) matches Some(ts) ==> {
            &&& concat_all(ts) == stripped_from(text, p, false)
            &&& forall|k: int| 0 <= k < ts.len() ==> (#[trigger] ts[k]).len() > 0
        },
    decreases text.len() - p,
{
    if p < text.len() {
        if let Scan::End(e) = scan_at(text, p) {
            lemma_scan_bounds(text, char_type(text[p]), p + 1);
            lemma_skip_ge(text, e, false);
            let np = skip_from(text, e, false);
            lemma_skip_idem(text, e);
            lemma_tokens_spell(text, np);
            lemma_scan_plain(text, char_type(text[p]), p + 1, e);
            lemma_skip_ge(text, p + 1, false);
            lemma_skip_ge(text, p + 1, true);
            assert(match char_type(text[p]) {
                CharType::Space | CharType::NewLine | CharType::Comment => false,
                _ => true,
            });
            lemma_strip_plain(text, p, e);
            lemma_strip_skip(text, e, false);
            if let Some(ts) = tokens_from(text, p) {
                let rest = tokens_from(text, np)->Some_0;
                assert(ts == seq![text.subrange(p, e)] + rest);
                assert(ts.drop_first() =~= rest);
                assert(ts[0] == text.subrange(p, e));
                assert forall|k: int| 0 <= k < ts.len() implies (#[trigger] ts[k]).len() > 0 by {
                    if k > 0 {
                        assert(ts[k] == rest[k - 1]);
                    }
                }
            }
        }
    } else {
        if let Some(ts) = tokens_from(text, p) {
            assert(ts.len() == 0);
        }
    }
}

/// The tokens of a text, taken one after the other from the start, spell
/// the text without its blanks, tabs, line breaks and comments, and none of
/// them is empty.
pub proof fn lemma_tokens_spell_text(filename: Seq<char>, text: Seq<char>)
    ensures
        pending(TokState::start(filename, text)) matches Some(ts) ==> {
            &&& concat_all(ts) == stripped_from(text, 0, false)
            &&& forall|k: int| 0 <= k < ts.len() ==> (#[trigger] ts[k]).len() > 0
        },
{
    lemma_skip_ge(text, 0, false);
    lemma_skip_idem(text, 0);
    lemma_tokens_spell(text, skip_from(text, 0, false));
    lemma_strip_skip(text, 0, false);
}

/// Taking a token takes the first of the pending ones and leaves the rest;
/// a refused kind leaves them all pending.
pub proof fn lemma_expect_takes_pending(st: TokState, kind: TokenKind)
    requires
        st.wf(),
    ensures
        st.expect(kind).0 matches Ok(Some(t)) ==> (pending(st) matches Some(ts) ==> {
            &&& ts.len() > 0
            &&& ts[0] == t.orig
            &&& pending(st.expect(kind).1) == Some(ts.drop_first())
        }),
        st.expect(kind).0 matches Ok(None) ==> pending(st.expect(kind).1) == pending(st),
{
    match st.hold {
        Some((t, s)) => {
            let e = scan_at(st.text, s)->End_0;
            lemma_scan_bounds(st.text, char_type(st.text[s]), s + 1);
            if let Some(ts) = tokens_from(st.text, s) {
                let rest = tokens_from(st.text, st.pos)->Some_0;
                assert(ts == seq![st.text.subrange(s, e)] + rest);
                assert(ts.drop_first() =~= rest);
            }
        },
        None => {
            if st.pos < st.text.len() {
                if let Scan::End(e) = scan_at(st.text, st.pos) {
                    lemma_scan_bounds(st.text, char_type(st.text[st.pos]), st.pos + 1);
                    if let Some(ts) = tokens_from(st.text, st.pos) {
                        let np = skip_from(st.text, e, false);
                        let rest = tokens_from(st.text, np)->Some_0;
                        assert(ts == seq![st.text.subrange(st.pos, e)] + rest);
                        assert(ts.drop_first() =~= rest);
                    }
                }
            }
        },
    }
}

/// The tokens taken by asking for the kinds `kinds` one after another, and
/// the state after; none if some request takes no token.
pub open spec fn take_run(st: TokState, kinds: Seq<TokenKind>) -> Option<(Seq<TokenV>, TokState)>
    decreases kinds.len(),
{
    if kinds.len() == 0 {
        Some((Seq::empty(), st))
    } else {
        match st.expect(kinds[0]) {
            (Ok(Some(t)), st2) => match take_run(st2, kinds.drop_first()) {
                Some((ts, fin)) => Some((seq![t] + ts, fin)),
                None => None,
            },
            _ => None,
        }
    }
}

/// The texts of the tokens.
pub open spec fn origs(ts: Seq<TokenV>) -> Seq<Seq<char>> {
    ts.map_values(|t: TokenV| t.orig)
}

/// A token taken leaves a well-formed state that holds no token, and the
/// tokens still to come are the ones after it.
proof fn lemma_take_step(st: TokState, kind: TokenKind)
    requires
        st.wf(),
        st.expect(kind).0 matches Ok(Some(_)),
    ensures
        st.expect(kind).1.wf(),
        st.expect(kind).1.hold is None,
        st.expect(kind).1.text == st.text,
        st.expect(kind).1.filename == st.filename,
        st.expect(kind).0 matches Ok(Some(t)) && pending(st) == match pending(st.expect(kind).1) {
            Some(p) => Some(seq![t.orig] + p),
            None => None,
        },
{
    let st2 = st.expect(kind).1;
    match st.hold {
        Some((t, s)) => {
            let e = scan_at(st.text, s)->End_0;
            lemma_scan_bounds(st.text, char_type(st.text[s]), s + 1);
            if let Some(p) = tokens_from(st.text, st.pos) {
                assert(tokens_from(st.text, s) == Some(seq![st.text.subrange(s, e)] + p));
            }
        },
        None => {
            let e = scan_at(st.text, st.pos)->End_0;
            lemma_scan_bounds(st.text, char_type(st.text[st.pos]), st.pos + 1);
            lemma_skip_ge(st.text, e, false);
            lemma_skip_idem(st.text, e);
            let np = skip_from(st.text, e, false);
            lemma_counter_bounds(st.text, np);
            if let Some(p) = tokens_from(st.text, np) {
                assert(tokens_from(st.text, st.pos) == Some(seq![st.text.subrange(st.pos, e)] + p));
            }
        },
    }
}

/// The tokens of a run of requests are the first of the tokens still to
/// come, and the rest come after it.
proof fn lemma_run_pending(st: TokState, kinds: Seq<TokenKind>)
    requires
        st.wf(),
    ensures
        take_run(st, kinds) matches Some((ts, fin)) ==> {
            &&& fin.wf()
            &&& fin.text == st.text
            &&& (kinds.len() > 0 ==> fin.hold is None)
            &&& pending(st) == match pending(fin) {
                Some(p) => Some(origs(ts) + p),
                None => None,
            }
        },
    decreases kinds.len(),
{
    if kinds.len() == 0 {
        if let Some(p) = pending(st) {
            assert(origs(Seq::<TokenV>::empty()) + p =~= p);
        }
    } else if let (Ok(Some(t)), st2) = st.expect(kinds[0]) {
        lemma_take_step(st, kinds[0]);
        lemma_run_pending(st2, kinds.drop_first());
        if let Some((ts, fin)) = take_run(st, kinds) {
            let rest = take_run(st2, kinds.drop_first())->Some_0.0;
            assert(ts == seq![t] + rest);
            assert(origs(ts) =~= seq![t.orig] + origs(rest));
            if let Some(p) = pending(fin) {
                assert(seq![t.orig] + (origs(rest) + p) =~= origs(ts) + p);
            }
        }
    }
}

/// Tokens taken one after another until no text is left spell the text
/// without its blanks, tabs, line breaks and comments, and none of them is
/// empty.
pub proof fn lemma_run_spells_text(filename: Seq<char>, text: Seq<char>, kinds: Seq<TokenKind>)
    requires
        text.len() <= max_text_len(),
    ensures
        take_run(TokState::start(filename, text), kinds) matches Some((ts, fin)) ==> (
        !fin.exists_next().0 ==> {
            &&& concat_all(origs(ts)) == stripped_from(text, 0, false)
            &&& forall|k: int| 0 <= k < ts.len() ==> (#[trigger] ts[k]).orig.len() > 0
        }),
{
    let st = TokState::start(filename, text);
    lemma_skip_ge(text, 0, false);
    lemma_skip_idem(text, 0);
    lemma_counter_bounds(text, st.pos);
    lemma_run_pending(st, kinds);
    lemma_tokens_spell_text(filename, text);
    if let Some((ts, fin)) = take_run(st, kinds) {
        if !fin.exists_next().0 {
            if kinds.len() > 0 {
                lemma_pending_at_end(fin);
                assert(origs(ts) + Seq::<Seq<char>>::empty() =~= origs(ts));
            } else {
                assert(ts =~= Seq::<TokenV>::empty());
                assert(origs(ts) =~= Seq::<Seq<char>>::empty());
            }
            let ps = origs(ts);
            assert forall|k: int| 0 <= k < ts.len() implies (#[trigger] ts[k]).orig.len() > 0 by {
                assert(ps[k] == ts[k].orig);
            }
        }
    }
}

/// A tokenizer that holds no token and has reached the end of its text has
/// no token left to give.
pub proof fn lemma_pending_at_end(st: TokState)
    requires
        st.wf(),
        st.hold is None,
        st.pos >= st.text.len(),
    ensures
        pending(st) == Some(Seq::<Seq<char>>::empty()),
{
}

/// The tokenizer of a text.
pub struct Tokenizer {
    filename: String,
    text: Vec<char>,
    pos: usize,
    row: i32,
    col: i32,
    hold_token: Option<Token>,
    hold_start: usize,
}

impl View for Tokenizer {
    type V = TokState;

    closed spec fn view(&self) -> TokState {
        TokState {
            filename: self.filename@,
            text: self.text@,
            pos: self.pos as int,
            hold: match self.hold_token {
                Some(t) => Some((t@, self.hold_start as int)),
                None => None,
            },
            extra: self.col - counter_at(self.text@, self.pos as int).1,
        }
    }
}

impl Tokenizer {
    /// The invariant of the tokenizer.
    pub closed spec fn wf(&self) -> bool {
        &&& self@.wf()
        &&& self.row == counter_at(self.text@, self.pos as int).0
    }

    /// The model of a well-formed tokenizer is well formed.
    pub proof fn lemma_wf(&self)
        requires
            self.wf(),
        ensures
            self@.wf(),
    {
    }

    /// A tokenizer for `text`, read from the file `filename`, positioned at
    /// its first token.
    pub fn new(filename: String, text: &str) -> (r: Tokenizer)
        requires
            text@.len() <= max_text_len(),
        ensures
            r.wf(),
            r@ == TokState::start(filename@, text@),
    {
        let chars = chars_of(text);
        let mut t = Tokenizer {
            filename,
            text: chars,
            pos: 0,
            row: 1,
            col: 2,
            hold_token: None,
            hold_start: 0,
        };
        t.skip_space();
        proof {
            lemma_skip_idem(text@, 0);
            lemma_skip_ge(text@, 0, false);
            lemma_counter_bounds(text@, t.pos as int);
        }
        t
    }

    /// Moves one character on, counting it.
    fn advance(&mut self)
        requires
            old(self).pos < old(self).text@.len() <= max_text_len(),
            counter_at(old(self).text@, old(self).pos as int) == (
                old(self).row as int,
                old(self).col as int,
            ),
        ensures
            final(self).pos == old(self).pos + 1,
            counter_at(final(self).text@, final(self).pos as int) == (
                final(self).row as int,
                final(self).col as int,
            ),
            final(self).text == old(self).text,
            final(self).filename == old(self).filename,
            final(self).hold_token == old(self).hold_token,
            final(self).hold_start == old(self).hold_start,
    {
        proof {
            lemma_counter_bounds(self.text@, self.pos as int + 1);
        }
        match CharType::from(self.text[self.pos]) {
            CharType::NewLine => {
                self.row = self.row + 1;
                self.col = 2;
            },
            CharType::Space | CharType::Comment => {
                self.col = self.col + 2;
            },
            _ => {
                self.col = self.col + 1;
            },
        }
        self.pos = self.pos + 1;
    }

    /// Skips separators and comments.
    fn skip_space(&mut self)
        requires
            old(self).pos <= old(self).text@.len() <= max_text_len(),
            counter_at(old(self).text@, old(self).pos as int) == (
                old(self).row as int,
                old(self).col as int,
            ),
        ensures
            final(self).pos == skip_from(old(self).text@, old(self).pos as int, false),
            counter_at(final(self).text@, final(self).pos as int) == (
                final(self).row as int,
                final(self).col as int,
            ),
            final(self).text == old(self).text,
            final(self).filename == old(self).filename,
            final(self).hold_token == old(self).hold_token,
            final(self).hold_start == old(self).hold_start,
    {
        let mut comment = false;
        let ghost start = self.pos as int;
        while self.pos < self.text.len()
            invariant
                self.pos <= self.text@.len() <= max_text_len(),
                counter_at(self.text@, self.pos as int) == (self.row as int, self.col as int),
                skip_from(self.text@, self.pos as int, comment) == skip_from(
                    old(self).text@,
                    start,
                    false,
                ),
                self.text == old(self).text,
                self.filename == old(self).filename,
                self.hold_token == old(self).hold_token,
                self.hold_start == old(self).hold_start,
            ensures
                self.pos == skip_from(old(self).text@, start, false),
                counter_at(self.text@, self.pos as int) == (self.row as int, self.col as int),
                self.text == old(self).text,
                self.filename == old(self).filename,
                self.hold_token == old(self).hold_token,
                self.hold_start == old(self).hold_start,
            decreases self.text.len() - self.pos,
        {
            let ct = CharType::from(self.text[self.pos]);
            match ct {
                CharType::Space | CharType::NewLine => {},
                CharType::Comment => {
                    comment = !comment;
                },
                _ => {
                    if !comment {
                        break;
                    }
                },
            }
            self.advance();
        }
    }

    /// Scans the token that starts at `start`: the position after it, or
    /// the position of an unregistered symbol.
    fn scan(&self, start: usize) -> (r: Result<usize, usize>)
        requires
            start < self.text@.len() <= max_text_len(),
        ensures
            match r {
                Ok(e) => scan_at(self.text@, start as int) == Scan::End(e as int),
                Err(b) => scan_at(self.text@, start as int) == Scan::Bad(b as int),
            },
    {
        let lead = CharType::from(self.text[start]);
        let mut j = start + 1;
        while j < self.text.len()
            invariant
                start < j <= self.text@.len(),
                lead == char_type(self.text@[start as int]),
                scan_cont(self.text@, lead, j as int) == scan_at(self.text@, start as int),
            decreases self.text.len() - j,
        {
            let t = CharType::from(self.text[j]);
            match lead {
                CharType::Identifier => {
                    if !(t == CharType::Identifier || t == CharType::Number) {
                        return Ok(j);
                    }
                },
                CharType::Number => {
                    if t != CharType::Number {
                        return Ok(j);
                    }
                },
                CharType::Symbol => {
                    return Ok(j);
                },
                CharType::SymbolAllow1 => {
                    if t == CharType::SymbolAllow2 {
                        return Ok(j + 1);
                    } else {
                        return Err(j);
                    }
                },
                CharType::SymbolAllow2 => {
                    return Err(j);
                },
                _ => {
                    return Ok(j);
                },
            }
            j = j + 1;
        }
        Ok(j)
    }

    /// The location of the token held, or else of where the counter stands.
    pub fn get_now_ref_loc(&self) -> (r: Location)
        requires
            self.wf(),
        ensures
            r@ == self@.now_loc(),
    {
        match &self.hold_token {
            Some(t) => t.location.clone(),
            None => Location::new().with_coord((self.row, self.col)),
        }
    }

    /// Whether any text is left after the tokens scanned so far; asked at
    /// the end of the text, the tokenizer looks past it once more.
    pub fn exists_next(&mut self) -> (r: bool)
        requires
            old(self).wf(),
        ensures
            final(self).wf(),
            (r, final(self)@) == old(self)@.exists_next(),
            old(self)@.steps(final(self)@),
    {
        let r = self.pos < self.text.len();
        if !r && self.col < i32::MAX {
            self.col = self.col + 1;
        }
        r
    }

    /// Takes the next token if it is of kind `kind`; otherwise keeps it for
    /// the next request and answers `None`.
    pub fn expect(&mut self, kind: TokenKind) -> (r: PResult<Option<Token>>)
        requires
            old(self).wf(),
        ensures
            final(self).wf(),
            (view_opt_token(r), final(self)@) == old(self)@.expect(kind),
            old(self)@.steps(final(self)@),
            r matches Ok(Some(_)) ==> old(self)@.cursor() < final(self)@.cursor(),
    {
        if self.hold_token.is_some() {
            let t = self.hold_token.take().unwrap();
            if t.kind == kind {
                return Ok(Some(t));
            } else {
                self.hold_token = Some(t);
                return Ok(None);
            }
        }
        if self.pos >= self.text.len() {
            if self.col < i32::MAX {
                self.col = self.col + 1;
            }
            return Ok(None);
        }
        let start = self.pos;
        let lead = CharType::from(self.text[start]);
        match self.scan(start) {
            Err(b) => {
                proof {
                    lemma_scan_bounds(self.text@, char_type(self.text@[start as int]), start as int + 1);
                }
                let mut probe = Tokenizer {
                    filename: self.filename.clone(),
                    text: self.text.clone(),
                    pos: self.pos,
                    row: self.row,
                    col: self.col,
                    hold_token: None,
                    hold_start: 0,
                };
                while probe.pos < b
                    invariant
                        probe.pos <= b < probe.text@.len() <= max_text_len(),
                        probe.text@ == self.text@,
                        counter_at(probe.text@, probe.pos as int) == (probe.row as int, probe.col as int),
                    decreases b - probe.pos,
                {
                    probe.advance();
                }
                let loc = Location::new().with_coord((probe.row, probe.col));
                return PErrorKind::FoundUnregisteredSymbol.to_err_with_loc(loc);
            },
            Ok(e) => {
                proof {
                    lemma_scan_bounds(self.text@, char_type(self.text@[start as int]), start as int + 1);
                    lemma_token_bytes(self.text@, start as int, e as int);
                }
                let orig = string_of_range(&self.text, start, e);
                while self.pos < e
                    invariant
                        start <= self.pos <= e <= self.text@.len() <= max_text_len(),
                        self.text == old(self).text,
                        self.filename == old(self).filename,
                        self.hold_token.is_none(),
                        counter_at(self.text@, self.pos as int) == (self.row as int, self.col as int),
                    decreases e - self.pos,
                {
                    self.advance();
                }
                self.skip_space();
                proof {
                    lemma_skip_idem(self.text@, e as int);
                    lemma_skip_ge(self.text@, e as int, false);
                    lemma_counter_bounds(self.text@, self.pos as int);
                }
                let x: i32 = if e < self.text.len() {
                    0
                } else if lead == CharType::SymbolAllow1 && e == start + 2 {
                    1
                } else {
                    2
                };
                self.col = self.col + x;
                let token = Token::new(orig, self.row, self.col);
                if token.kind == kind {
                    Ok(Some(token))
                } else {
                    self.hold_token = Some(token);
                    self.hold_start = start;
                    Ok(None)
                }
            },
        }
    }

    /// Takes the next token if it is an identifier or a reserved word.
    pub fn expect_word(&mut self) -> (r: PResult<Option<Token>>)
        requires
            old(self).wf(),
        ensures
            final(self).wf(),
            (view_opt_token(r), final(self)@) == old(self)@.expect_word(),
            old(self)@.steps(final(self)@),
            r matches Ok(Some(_)) ==> old(self)@.cursor() < final(self)@.cursor(),
    {
        match self.expect(TokenKind::Identifier)? {
            Some(t) => Ok(Some(t)),
            None => {
                let k = match &self.hold_token {
                    Some(t) => t.kind,
                    None => {
                        return Ok(None);
                    },
                };
                if k.is_reserved_word() {
                    self.expect(k)
                } else {
                    Ok(None)
                }
            },
        }
    }

    /// Takes the next token, which must be of kind `kind`.
    pub fn request(&mut self, kind: TokenKind) -> (r: PResult<Token>)
        requires
            old(self).wf(),
        ensures
            final(self).wf(),
            (view_token(r), final(self)@) == old(self)@.request(kind),
            old(self)@.steps(final(self)@),
            r is Ok ==> old(self)@.cursor() < final(self)@.cursor(),
    {
        match self.expect(kind) {
            Err(e) => Err(e),
            Ok(Some(t)) => Ok(t),
            Ok(None) => {
                let loc = self.get_now_ref_loc();
                PErrorKind::RequestedTokenNotFound(kind).to_err_with_loc(loc)
            },
        }
    }
}

} // verus!
