//! The lexical rules, as mathematics over sequences of characters.

use crate::lemmas::lemma_next_lexeme_bounds;
use crate::text::{
    ascii_alphanumeric, ascii_white_space, is_ascii, unicode_alphanumeric, unicode_white_space,
};
use vstd::prelude::*;

verus! {

/// What a token is, apart from how it is stored.
pub enum TokenView {
    Fn,
    Main,
    Colon,
    TypeU8,
    LBrace,
    RBrace,
    Return,
    Number(u8),
    Identifier(Seq<char>),
    Unknown(char),
    Overflow,
    EndOfInput,
}

impl TokenView {
    /// The characters a token was read from, where the token tells them: a
    /// number does not tell its leading zeros, nor an overflow its digits.
    pub open spec fn spelling(self) -> Option<Seq<char>> {
        match self {
            TokenView::Fn => Some("fn"@),
            TokenView::Main => Some("main"@),
            TokenView::Colon => Some(seq![':']),
            TokenView::TypeU8 => Some("u8"@),
            TokenView::LBrace => Some(seq!['{']),
            TokenView::RBrace => Some(seq!['}']),
            TokenView::Return => Some("rn"@),
            TokenView::Number(_) => None,
            TokenView::Identifier(name) => Some(name),
            TokenView::Unknown(c) => Some(seq![c]),
            TokenView::Overflow => None,
            TokenView::EndOfInput => Some(Seq::empty()),
        }
    }
}

/// White space separates tokens and belongs to none. Within ASCII it is the
/// space, the tab, the newline, the carriage return and the two characters
/// between the last two; beyond ASCII it is what Unicode counts as white
/// space.
pub open spec fn is_space(c: char) -> bool {
    if is_ascii(c) {
        ascii_white_space(c)
    } else {
        unicode_white_space(c)
    }
}

/// The characters that words (keywords and identifiers) are made of: the
/// underscore, the letters and digits of ASCII, and beyond ASCII what Unicode
/// counts as alphabetic or numeric.
pub open spec fn is_word_char(c: char) -> bool {
    c == '_' || if is_ascii(c) {
        ascii_alphanumeric(c)
    } else {
        unicode_alphanumeric(c)
    }
}

/// The ten ASCII decimal digits.
pub open spec fn is_digit(c: char) -> bool {
    '0' <= c <= '9'
}

/// The number that a decimal digit stands for.
pub open spec fn digit_value(c: char) -> nat
    recommends
        is_digit(c),
{
    (c as int - '0' as int) as nat
}

/// The number that a run of decimal digits stands for. Leading zeros count
/// for nothing, and the empty run stands for zero.
pub open spec fn decimal_value(digits: Seq<char>) -> nat
    decreases digits.len(),
{
    if digits.len() == 0 {
        0
    } else {
        10 * decimal_value(digits.drop_last()) + digit_value(digits.last())
    }
}

/// The classes of characters that runs are made of.
pub enum CharClass {
    Space,
    Word,
    Digit,
}

impl CharClass {
    /// Whether `c` belongs to the class.
    pub open spec fn has(self, c: char) -> bool {
        match self {
            CharClass::Space => is_space(c),
            CharClass::Word => is_word_char(c),
            CharClass::Digit => is_digit(c),
        }
    }
}

/// Where the longest run of characters of one class that begins at `from`
/// ends: the first position at or after `from` that holds no character of the
/// class.
pub open spec fn run_end(text: Seq<char>, from: int, class: CharClass) -> int
    decreases text.len() - from,
{
    if 0 <= from < text.len() && class.has(text[from]) {
        run_end(text, from + 1, class)
    } else {
        from
    }
}

/// End of the white space that begins at `from`.
pub open spec fn spaces_end(text: Seq<char>, from: int) -> int {
    run_end(text, from, CharClass::Space)
}

/// End of the word that begins at `from`.
pub open spec fn word_end(text: Seq<char>, from: int) -> int {
    run_end(text, from, CharClass::Word)
}

/// End of the digits that begin at `from`.
pub open spec fn digits_end(text: Seq<char>, from: int) -> int {
    run_end(text, from, CharClass::Digit)
}

/// The reserved words: each spelling with the token it stands for.
pub open spec fn keyword_of(word: Seq<char>) -> Option<TokenView> {
    if word == "fn"@ {
        Some(TokenView::Fn)
    } else if word == "main"@ {
        Some(TokenView::Main)
    } else if word == "u8"@ {
        Some(TokenView::TypeU8)
    } else if word == "rn"@ {
        Some(TokenView::Return)
    } else {
        None
    }
}

/// The token for a run of digits: `Number` with the value of the run if that
/// is at most 255, and `Overflow` if it is greater.
pub open spec fn number_of(digits: Seq<char>) -> TokenView {
    if decimal_value(digits) <= u8::MAX {
        TokenView::Number(decimal_value(digits) as u8)
    } else {
        TokenView::Overflow
    }
}

/// One token together with the stretch of text it was read from.
pub struct Lexeme {
    pub token: TokenView,
    /// Position of the token's first character.
    pub start: int,
    /// Position just behind the token's last character.
    pub end: int,
}

/// A text with a read position in it.
pub struct Cursor {
    pub text: Seq<char>,
    pub pos: int,
}

impl Cursor {
    /// The cursor at the beginning of `text`.
    pub open spec fn start(text: Seq<char>) -> Cursor {
        Cursor { text, pos: 0 }
    }

    /// The position lies within the text or at its end.
    pub open spec fn wf(self) -> bool {
        0 <= self.pos <= self.text.len()
    }

    /// Where the next token begins: behind the white space at the cursor.
    pub open spec fn token_start(self) -> int {
        spaces_end(self.text, self.pos)
    }

    /// The white space that the next read passes over.
    pub open spec fn skipped(self) -> Seq<char> {
        self.text.subrange(self.pos, self.token_start())
    }

    /// The word that begins where the next token begins; empty if no word
    /// begins there.
    pub open spec fn word_ahead(self) -> Seq<char> {
        self.text.subrange(self.token_start(), word_end(self.text, self.token_start()))
    }

    /// The digits that begin where the next token begins; empty if none
    /// begin there.
    pub open spec fn digits_ahead(self) -> Seq<char> {
        self.text.subrange(self.token_start(), digits_end(self.text, self.token_start()))
    }

    /// The next token and its place in the text.
    ///
    /// White space is passed over first. At the end of the text the token is
    /// `EndOfInput`. Otherwise the rules are tried in this order: a word that
    /// is exactly a reserved spelling; one of `:`, `{`, `}`; a run of digits;
    /// any other word; and at last a single character that nothing else
    /// accounts for. Words and runs of digits are taken as long as they go.
    pub open spec fn next_lexeme(self) -> Lexeme {
        let start = self.token_start();
        if start >= self.text.len() {
            Lexeme { token: TokenView::EndOfInput, start, end: start }
        } else {
            let first = self.text[start];
            let word = self.word_ahead();
            let digits = self.digits_ahead();
            if keyword_of(word) is Some {
                Lexeme { token: keyword_of(word).unwrap(), start, end: start + word.len() }
            } else if first == ':' {
                Lexeme { token: TokenView::Colon, start, end: start + 1 }
            } else if first == '{' {
                Lexeme { token: TokenView::LBrace, start, end: start + 1 }
            } else if first == '}' {
                Lexeme { token: TokenView::RBrace, start, end: start + 1 }
            } else if is_digit(first) {
                Lexeme { token: number_of(digits), start, end: start + digits.len() }
            } else if is_word_char(first) {
                Lexeme { token: TokenView::Identifier(word), start, end: start + word.len() }
            } else {
                Lexeme { token: TokenView::Unknown(first), start, end: start + 1 }
            }
        }
    }

    /// The text of the next token.
    pub open spec fn span(self) -> Seq<char> {
        self.text.subrange(self.next_lexeme().start, self.next_lexeme().end)
    }

    /// The cursor after one read.
    pub open spec fn advance(self) -> Cursor {
        Cursor { text: self.text, pos: self.next_lexeme().end }
    }

    /// The cursor after `reads` reads.
    pub open spec fn after(self, reads: nat) -> Cursor
        decreases reads,
    {
        if reads == 0 {
            self
        } else {
            self.advance().after((reads - 1) as nat)
        }
    }

    /// How many tokens lie ahead of the cursor before `EndOfInput`.
    pub open spec fn tokens_ahead(self) -> nat
        decreases self.text.len() - self.pos,
        when self.wf()
        via Self::tokens_ahead_decreases
    {
        if self.next_lexeme().token is EndOfInput {
            0
        } else {
            1 + self.advance().tokens_ahead()
        }
    }

    #[via_fn]
    proof fn tokens_ahead_decreases(self) {
        lemma_next_lexeme_bounds(self);
    }

    /// What the next `reads` reads pass over, in order: for each read the
    /// white space it skips and then the text of its token.
    pub open spec fn text_read(self, reads: nat) -> Seq<char>
        decreases reads,
    {
        if reads == 0 {
            Seq::empty()
        } else {
            self.skipped() + self.span() + self.advance().text_read((reads - 1) as nat)
        }
    }

    /// The texts of the next `reads` tokens, joined in order.
    pub open spec fn spans_joined(self, reads: nat) -> Seq<char>
        decreases reads,
    {
        if reads == 0 {
            Seq::empty()
        } else {
            self.span() + self.advance().spans_joined((reads - 1) as nat)
        }
    }
}

} // verus!
