//! The tokenizer: scans the next token when it is asked for one, skipping
//! spaces, tabs and newlines before it.
use vstd::prelude::*;
use crate::lang::token::{CharType, char_type, Scan, scan_at, scan_cont, lemma_scan_bounds};
use crate::tokenize::token::{Token, TokenKind, TokenV, word_token};
use crate::text::{chars_of, string_of_range};

verus! {

/// Whether the character separates tokens.
pub open spec fn is_space(c: char) -> bool {
    c == ' ' || c == '\t' || c == '\n'
}

/// The first position from `i` on that is not a separator.
pub open spec fn skip(text: Seq<char>, i: int) -> int
    decreases text.len() - i,
{
    if i < 0 || i >= text.len() {
        i
    } else if is_space(text[i]) {
        skip(text, i + 1)
    } else {
        i
    }
}

/// The value of the decimal digits `s`.
pub open spec fn digits_value(s: Seq<char>) -> int
    decreases s.len(),
{
    if s.len() == 0 {
        0
    } else {
        digits_value(s.drop_last()) * 10 + (s.last() as int - '0' as int)
    }
}

/// The token that spans positions `[p, e)`: a number when it starts with a
/// digit.
pub open spec fn token_at(text: Seq<char>, p: int, e: int) -> TokenV {
    let sub = text.subrange(p, e);
    if char_type(text[p]) == CharType::Number {
        TokenV { kind: TokenKind::Number, id: None, number: Some(digits_value(sub) as i32) }
    } else {
        word_token(sub)
    }
}

/// The state of a tokenizer: its text, the position after the last token
/// scanned, and a token scanned but not taken.
pub struct TokState {
    pub text: Seq<char>,
    pub pos: int,
    pub hold: Option<TokenV>,
}

impl TokState {
    /// Whether text is left after the tokens scanned so far.
    pub open spec fn has_token(self) -> bool {
        self.pos != self.text.len()
    }

    /// Whether asking for the next token can be answered: a token is held,
    /// or no text is left, or the separators are followed by a token that
    /// is registered (`->` and nothing else with `-` or `>`) and, for a
    /// number, fits in an `i32`.
    pub open spec fn next_ok(self) -> bool {
        match self.hold {
            Some(_) => true,
            None => self.pos >= self.text.len() || {
                let p = skip(self.text, self.pos);
                &&& p < self.text.len()
                &&& scan_at(self.text, p) matches Scan::End(e) && (char_type(self.text[p])
                    == CharType::Number ==> digits_value(self.text.subrange(p, e)) <= i32::MAX)
            },
        }
    }

    /// Taking the next token if it is of kind `kind`.
    pub open spec fn expect_kind(self, kind: TokenKind) -> (Option<TokenV>, TokState) {
        match self.hold {
            Some(t) => if t.kind == kind {
                (Some(t), TokState { hold: None, ..self })
            } else {
                (None, self)
            },
            None => if self.pos >= self.text.len() {
                (None, self)
            } else {
                let p = skip(self.text, self.pos);
                match scan_at(self.text, p) {
                    Scan::End(e) => {
                        let t = token_at(self.text, p, e);
                        if t.kind == kind {
                            (Some(t), TokState { pos: e, hold: None, ..self })
                        } else {
                            (None, TokState { pos: e, hold: Some(t), ..self })
                        }
                    },
                    Scan::Bad(_) => (None, self),
                }
            },
        }
    }

    pub open spec fn wf(self) -> bool {
        &&& 0 <= self.pos <= self.text.len()
    }
}

proof fn lemma_skip(text: Seq<char>, i: int)
    requires
        0 <= i,
    ensures
        i <= skip(text, i),
        i <= text.len() ==> skip(text, i) <= text.len(),
    decreases text.len() - i,
{
    if i < text.len() {
        lemma_skip(text, i + 1);
    }
}

/// Digit by digit, the value of a prefix never exceeds that of the whole.
proof fn lemma_digits_prefix(s: Seq<char>, i: int)
    requires
        0 <= i <= s.len(),
        forall|k: int| 0 <= k < s.len() ==> '0' <= #[trigger] s[k] <= '9',
    ensures
        0 <= digits_value(s.take(i)) <= digits_value(s),
    decreases s.len() - i,
{
    if i < s.len() {
        lemma_digits_prefix(s, i + 1);
        assert(s.take(i + 1).drop_last() =~= s.take(i));
        assert(s.take(i + 1).last() == s[i]);
    } else {
        assert(s.take(i) =~= s);
        lemma_digits_nonneg(s);
    }
}

proof fn lemma_digits_nonneg(s: Seq<char>)
    requires
        forall|k: int| 0 <= k < s.len() ==> '0' <= #[trigger] s[k] <= '9',
    ensures
        0 <= digits_value(s),
    decreases s.len(),
{
    if s.len() > 0 {
        assert(forall|k: int| 0 <= k < s.drop_last().len() ==> s.drop_last()[k] == s[k]);
        lemma_digits_nonneg(s.drop_last());
        assert(s.last() == s[s.len() - 1]);
    }
}

/// The characters a number token spans are digits.
proof fn lemma_number_digits(text: Seq<char>, j: int, e: int)
    requires
        0 <= j <= text.len(),
        scan_cont(text, CharType::Number, j) == Scan::End(e),
    ensures
        j <= e <= text.len(),
        forall|k: int| j <= k < e ==> '0' <= #[trigger] text[k] <= '9',
    decreases text.len() - j,
{
    if j < text.len() && char_type(text[j]) == CharType::Number {
        lemma_number_digits(text, j + 1, e);
    }
}

/// The tokenizer of a text.
pub struct Tokenizer {
    text: Vec<char>,
    now_ref_pos: usize,
    hold_token: Option<Token>,
}

impl View for Tokenizer {
    type V = TokState;

    closed spec fn view(&self) -> TokState {
        TokState {
            text: self.text@,
            pos: self.now_ref_pos as int,
            hold: match self.hold_token {
                Some(t) => Some(t@),
                None => None,
            },
        }
    }
}

impl Tokenizer {
    /// A tokenizer at the start of `text`.
    pub fn new(text: &String) -> (r: Tokenizer)
        ensures
            r@ == (TokState { text: text@, pos: 0, hold: None }),
            r@.wf(),
    {
        Tokenizer { text: chars_of(text.as_str()), now_ref_pos: 0, hold_token: None }
    }

    /// Whether text is left after the tokens scanned so far.
    pub fn has_token(&self) -> (r: bool)
        ensures
            r == self@.has_token(),
    {
        self.now_ref_pos != self.text.len()
    }

    /// Takes the next token if it is of kind `kind`; otherwise keeps it for
    /// the next request and answers `None`.
    pub fn expect_kind(&mut self, kind: TokenKind) -> (r: Option<Token>)
        requires
            old(self)@.wf(),
            old(self)@.next_ok(),
        ensures
            final(self)@.wf(),
            final(self)@.text == old(self)@.text,
            (match r {
                Some(t) => Some(t@),
                None => None,
            }, final(self)@) == old(self)@.expect_kind(kind),
    {
        if self.hold_token.is_some() {
            let t = self.hold_token.take().unwrap();
            if t.kind_of() == kind {
                return Some(t);
            } else {
                self.hold_token = Some(t);
                return None;
            }
        }
        if self.now_ref_pos >= self.text.len() {
            return None;
        }
        let p = self.skip_space();
        let e = self.scan(p);
        proof {
            lemma_scan_bounds(self.text@, char_type(self.text@[p as int]), p as int + 1);
        }
        let lead = CharType::from(self.text[p]);
        let token = if lead == CharType::Number {
            let v = self.number_value(p, e);
            Token::from_i32(v)
        } else {
            Token::from_string(string_of_range(&self.text, p, e))
        };
        self.now_ref_pos = e;
        if token.kind_of() == kind {
            Some(token)
        } else {
            self.hold_token = Some(token);
            None
        }
    }

    /// The position of the next character that is not a separator, which
    /// the caller knows to exist.
    fn skip_space(&self) -> (r: usize)
        requires
            self@.wf(),
            self.now_ref_pos < self.text@.len(),
            skip(self.text@, self.now_ref_pos as int) < self.text@.len(),
        ensures
            r == skip(self.text@, self.now_ref_pos as int),
            r < self.text@.len(),
    {
        let mut q = self.now_ref_pos;
        while q < self.text.len()
            invariant
                self.now_ref_pos <= q <= self.text@.len(),
                skip(self.text@, q as int) == skip(self.text@, self.now_ref_pos as int),
            decreases self.text.len() - q,
        {
            let c = self.text[q];
            if !(c == ' ' || c == '\t' || c == '\n') {
                return q;
            }
            q = q + 1;
        }
        q
    }

    /// The end of the token that starts at `start`, which the caller knows
    /// to be registered.
    fn scan(&self, start: usize) -> (r: usize)
        requires
            start < self.text@.len(),
            scan_at(self.text@, start as int) is End,
        ensures
            scan_at(self.text@, start as int) == Scan::End(r as int),
    {
        let lead = CharType::from(self.text[start]);
        let n = self.text.len();
        assert(start < n);
        let mut j = start + 1;
        while j < self.text.len()
            invariant
                start < j <= self.text@.len(),
                lead == char_type(self.text@[start as int]),
                scan_cont(self.text@, lead, j as int) == scan_at(self.text@, start as int),
                scan_at(self.text@, start as int) is End,
            decreases self.text.len() - j,
        {
            let t = CharType::from(self.text[j]);
            match lead {
                CharType::Identifier => {
                    if !(t == CharType::Identifier || t == CharType::Number) {
                        return j;
                    }
                },
                CharType::Number => {
                    if t != CharType::Number {
                        return j;
                    }
                },
                CharType::SymbolAllow1 => {
                    return j + 1;
                },
                _ => {
                    return j;
                },
            }
            j = j + 1;
        }
        j
    }

    /// The value of the digits in `[p, e)`, which the caller knows to fit.
    fn number_value(&self, p: usize, e: usize) -> (r: i32)
        requires
            p < e <= self.text@.len(),
            char_type(self.text@[p as int]) == CharType::Number,
            scan_at(self.text@, p as int) == Scan::End(e as int),
            digits_value(self.text@.subrange(p as int, e as int)) <= i32::MAX,
        ensures
            r as int == digits_value(self.text@.subrange(p as int, e as int)),
    {
        let ghost s = self.text@.subrange(p as int, e as int);
        proof {
            lemma_number_digits(self.text@, p as int + 1, e as int);
            assert forall|k: int| 0 <= k < s.len() implies '0' <= #[trigger] s[k] <= '9' by {
                assert(s[k] == self.text@[p + k]);
            }
        }
        let mut v: i32 = 0;
        let mut q = p;
        while q < e
            invariant
                p <= q <= e <= self.text@.len(),
                s == self.text@.subrange(p as int, e as int),
                forall|k: int| 0 <= k < s.len() ==> '0' <= #[trigger] s[k] <= '9',
                digits_value(s) <= i32::MAX,
                v as int == digits_value(s.take(q - p)),
            decreases e - q,
        {
            proof {
                lemma_digits_prefix(s, q - p + 1);
                assert(s.take(q - p + 1).drop_last() =~= s.take(q - p));
                assert(s.take(q - p + 1).last() == s[q - p]);
                assert(s[q - p] == self.text@[q as int]);
            }
            let d = (self.text[q] as u32 - '0' as u32) as i32;
            v = v * 10 + d;
            q = q + 1;
        }
        proof {
            assert(s.take(e - p) =~= s);
        }
        v
    }
}

} // verus!
