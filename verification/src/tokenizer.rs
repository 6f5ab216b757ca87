//! The tokenizer: a cursor over the characters of a source text that hands
//! out one token per call.

use crate::grammar::{decimal_value, digits_end, keyword_of, spaces_end, word_end, Cursor, TokenView};
use crate::lemmas::{
    lemma_decimal_value_push, lemma_next_lexeme_bounds, lemma_next_lexeme_by_first, lemma_spellings,
};
use vstd::prelude::*;
use vstd::string::StrSliceExecFns;

verus! {

/// One lexical unit of the language.
#[derive(Debug, PartialEq, Eq)]
pub enum Token {
    /// The reserved word `fn`.
    Fn,
    /// The reserved word `main`.
    Main,
    /// The symbol `:`.
    Colon,
    /// The reserved word `u8`.
    TypeU8,
    /// The symbol `{`.
    LBrace,
    /// The symbol `}`.
    RBrace,
    /// The reserved word `rn`.
    Return,
    /// A decimal literal that fits in eight bits.
    Number(u8),
    /// A word that is not reserved.
    Identifier(String),
    /// A character that begins no other token.
    Unknown(char),
    /// A decimal literal whose value is greater than 255. The whole run of
    /// digits has been read; the value is not reduced to fit.
    Overflow,
    /// The end of the text. Once returned, it is returned ever after.
    EndOfInput,
}

impl View for Token {
    type V = TokenView;

    open spec fn view(&self) -> TokenView {
        match *self {
            Token::Fn => TokenView::Fn,
            Token::Main => TokenView::Main,
            Token::Colon => TokenView::Colon,
            Token::TypeU8 => TokenView::TypeU8,
            Token::LBrace => TokenView::LBrace,
            Token::RBrace => TokenView::RBrace,
            Token::Return => TokenView::Return,
            Token::Number(value) => TokenView::Number(value),
            Token::Identifier(name) => TokenView::Identifier(name@),
            Token::Unknown(c) => TokenView::Unknown(c),
            Token::Overflow => TokenView::Overflow,
            Token::EndOfInput => TokenView::EndOfInput,
        }
    }
}

impl Token {
    /// Looks `word` up among the reserved words: the token that `word` is
    /// the spelling of, or `None` if it is not reserved.
    pub fn keyword(word: &str) -> (token: Option<Token>)
        ensures
            match token {
                Some(t) => keyword_of(word@) == Some(t@),
                None => keyword_of(word@) is None,
            },
    {
        proof {
            lemma_spellings();
        }
        let len: usize = word.unicode_len();
        if len == 2 {
            assert(word@ =~= seq![word@[0], word@[1]]);
            match (word.get_char(0), word.get_char(1)) {
                ('f', 'n') => Some(Token::Fn),
                ('u', '8') => Some(Token::TypeU8),
                ('r', 'n') => Some(Token::Return),
                _ => None,
            }
        } else if len == 4 {
            assert(word@ =~= seq![word@[0], word@[1], word@[2], word@[3]]);
            match (word.get_char(0), word.get_char(1), word.get_char(2), word.get_char(3)) {
                ('m', 'a', 'i', 'n') => Some(Token::Main),
                _ => None,
            }
        } else {
            None
        }
    }
}

/// A source text and the position up to which it has been read.
///
/// The text is decoded once, when the tokenizer is made; from then on only
/// the position moves, and it only moves forward. To read a text again, make
/// a new tokenizer.
pub struct Tokenizer {
    chars: Vec<char>,
    pos: usize,
}

impl View for Tokenizer {
    type V = Cursor;

    /// The text and the position in it. The position is taken no further
    /// than the end of the text, which is where the invariant of the type
    /// keeps it in any case: so the view of every value is well formed.
    closed spec fn view(&self) -> Cursor {
        Cursor {
            text: self.chars@,
            pos: if self.pos <= self.chars.len() {
                self.pos as int
            } else {
                self.chars.len() as int
            },
        }
    }
}

impl Tokenizer {
    #[verifier::type_invariant]
    spec fn in_bounds(self) -> bool {
        self.pos <= self.chars.len()
    }

    /// The position of a tokenizer lies within its text, whatever was done
    /// with the tokenizer before: every theorem about a well-formed cursor
    /// holds of the view of every tokenizer.
    pub proof fn lemma_view_wf(&self)
        ensures
            self@.wf(),
    {
    }

    /// A tokenizer at the beginning of `input`. Every text is accepted.
    pub fn new(input: &str) -> (tokenizer: Tokenizer)
        ensures
            tokenizer@ == Cursor::start(input@),
    {
        let mut chars: Vec<char> = Vec::new();
        for c in it: input.chars()
            invariant
                chars@ == it.seq().take(it.index() as int),
        {
            chars.push(c);
        }
        assert(chars@ =~= input@);
        Tokenizer { chars, pos: 0 }
    }

    /// Moves past the white space at the cursor: up to the first character
    /// that is none, or to the end of the text.
    pub fn consume_whitespace(&mut self)
        ensures
            final(self)@.text == old(self)@.text,
            final(self)@.pos == spaces_end(old(self)@.text, old(self)@.pos),
    {
        proof {
            use_type_invariant(&*self);
        }
        while self.pos < self.chars.len() && self.chars[self.pos].is_whitespace()
            invariant
                self.pos <= self.chars.len(),
                self.chars@ == old(self).chars@,
                spaces_end(self.chars@, self.pos as int) == spaces_end(
                    old(self).chars@,
                    old(self).pos as int,
                ),
            decreases self.chars.len() - self.pos,
        {
            self.pos += 1;
        }
    }

    /// Reads the word at the cursor and returns it: the letters, digits and
    /// underscores up to the first character that is none of these.
    ///
    /// No white space is passed over first, and a reserved word is returned
    /// like any other. Where no word begins at the cursor the result is empty
    /// and nothing is read.
    pub fn parse_identifier(&mut self) -> (word: String)
        ensures
            final(self)@.text == old(self)@.text,
            final(self)@.pos == word_end(old(self)@.text, old(self)@.pos),
            word@ == old(self)@.text.subrange(old(self)@.pos, final(self)@.pos),
    {
        proof {
            use_type_invariant(&*self);
        }
        let mut word = String::new();
        while self.pos < self.chars.len()
            && (self.chars[self.pos].is_alphanumeric() || self.chars[self.pos] == '_')
            invariant
                old(self).pos <= self.pos <= self.chars.len(),
                self.chars@ == old(self).chars@,
                word_end(self.chars@, self.pos as int) == word_end(
                    old(self).chars@,
                    old(self).pos as int,
                ),
                word@ == self.chars@.subrange(old(self).pos as int, self.pos as int),
            decreases self.chars.len() - self.pos,
        {
            word.push(self.chars[self.pos]);
            self.pos += 1;
        }
        word
    }

    /// Reads the digits at the cursor and returns their value.
    ///
    /// The result is `None` in two cases: no digit stands at the cursor, and
    /// then nothing is read; or the value is greater than 255, and then the
    /// digits are read all the same. Leading zeros count for nothing.
    pub fn parse_number(&mut self) -> (value: Option<u8>)
        ensures
            final(self)@.text == old(self)@.text,
            final(self)@.pos == digits_end(old(self)@.text, old(self)@.pos),
            match value {
                Some(v) => final(self)@.pos > old(self)@.pos && decimal_value(
                    old(self)@.text.subrange(old(self)@.pos, final(self)@.pos),
                ) == v,
                None => final(self)@.pos == old(self)@.pos || decimal_value(
                    old(self)@.text.subrange(old(self)@.pos, final(self)@.pos),
                ) > u8::MAX,
            },
    {
        proof {
            use_type_invariant(&*self);
        }
        let start: usize = self.pos;
        // The value read so far, held at 256 once it has passed 255.
        let mut value: u32 = 0;
        while self.pos < self.chars.len() && '0' <= self.chars[self.pos]
            && self.chars[self.pos] <= '9'
            invariant
                start == old(self).pos,
                start <= self.pos <= self.chars.len(),
                self.chars@ == old(self).chars@,
                digits_end(self.chars@, self.pos as int) == digits_end(self.chars@, start as int),
                value <= 256,
                value <= 255 ==> value == decimal_value(
                    self.chars@.subrange(start as int, self.pos as int),
                ),
                value == 256 ==> decimal_value(
                    self.chars@.subrange(start as int, self.pos as int),
                ) > 255,
            decreases self.chars.len() - self.pos,
        {
            let digit: u32 = self.chars[self.pos] as u32 - '0' as u32;
            proof {
                let read = self.chars@.subrange(start as int, self.pos as int);
                lemma_decimal_value_push(read, self.chars@[self.pos as int]);
                assert(self.chars@.subrange(start as int, self.pos + 1) =~= read.push(
                    self.chars@[self.pos as int],
                ));
            }
            value = if value > 255 || value * 10 + digit > 255 {
                256
            } else {
                value * 10 + digit
            };
            self.pos += 1;
        }
        if self.pos > start && value <= 255 {
            Some(value as u8)
        } else {
            None
        }
    }

    /// Returns the next token and moves the cursor behind it.
    ///
    /// White space before the token is passed over. Words and runs of digits
    /// are read as long as they go before they are told apart, so `main2` is
    /// one identifier. A run of digits with a value above 255 is read whole
    /// and returned as `Overflow`. At the end of the text the token is
    /// `EndOfInput`, on this call and on every call after it.
    pub fn next_token(&mut self) -> (token: Token)
        ensures
            token@ == old(self)@.next_lexeme().token,
            final(self)@ == old(self)@.advance(),
            final(self)@.wf(),
            token@ is EndOfInput ==> final(self)@.pos == final(self)@.text.len(),
            !(token@ is EndOfInput) ==> old(self)@.pos < final(self)@.pos,
            token@ matches TokenView::Identifier(name) ==> keyword_of(name) is None,
    {
        proof {
            use_type_invariant(&*self);
            lemma_next_lexeme_bounds(self@);
        }
        self.consume_whitespace();
        proof {
            use_type_invariant(&*self);
        }
        if self.pos >= self.chars.len() {
            return Token::EndOfInput;
        }
        let first = self.chars[self.pos];
        proof {
            lemma_next_lexeme_by_first(old(self)@);
        }
        if first == ':' {
            self.pos += 1;
            Token::Colon
        } else if first == '{' {
            self.pos += 1;
            Token::LBrace
        } else if first == '}' {
            self.pos += 1;
            Token::RBrace
        } else if '0' <= first && first <= '9' {
            match self.parse_number() {
                Some(value) => Token::Number(value),
                None => Token::Overflow,
            }
        } else if first.is_alphanumeric() || first == '_' {
            let word = self.parse_identifier();
            match Token::keyword(word.as_str()) {
                Some(token) => token,
                None => Token::Identifier(word),
            }
        } else {
            self.pos += 1;
            Token::Unknown(first)
        }
    }
}

} // verus!
