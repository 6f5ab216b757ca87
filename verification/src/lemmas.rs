//! Facts about the lexical rules that the tokenizer and the theorems rest on.

use crate::grammar::{
    decimal_value, digit_value, digits_end, is_digit, is_space, is_word_char, keyword_of,
    number_of, run_end, word_end, CharClass, Cursor, TokenView,
};
use vstd::prelude::*;

verus! {

/// A run ends within the text, holds only characters of its class, and stops
/// at the first character that is not of the class.
pub proof fn lemma_run_end(text: Seq<char>, from: int, class: CharClass)
    requires
        0 <= from <= text.len(),
    ensures
        from <= run_end(text, from, class) <= text.len(),
        forall|i: int| from <= i < run_end(text, from, class) ==> class.has(#[trigger] text[i]),
        run_end(text, from, class) < text.len() ==> !class.has(text[run_end(text, from, class)]),
    decreases text.len() - from,
{
    if from < text.len() && class.has(text[from]) {
        lemma_run_end(text, from + 1, class);
    }
}

/// Appending a digit to a run multiplies its value by ten and adds the digit.
pub proof fn lemma_decimal_value_push(digits: Seq<char>, c: char)
    ensures
        decimal_value(digits.push(c)) == 10 * decimal_value(digits) + digit_value(c),
{
    assert(digits.push(c).drop_last() =~= digits);
}

/// The reserved spellings, character by character.
pub proof fn lemma_spellings()
    ensures
        "fn"@ == seq!['f', 'n'],
        "main"@ == seq!['m', 'a', 'i', 'n'],
        "u8"@ == seq!['u', '8'],
        "rn"@ == seq!['r', 'n'],
{
    reveal_strlit("fn");
    reveal_strlit("main");
    reveal_strlit("u8");
    reveal_strlit("rn");
    assert("fn"@ =~= seq!['f', 'n']);
    assert("main"@ =~= seq!['m', 'a', 'i', 'n']);
    assert("u8"@ =~= seq!['u', '8']);
    assert("rn"@ =~= seq!['r', 'n']);
}

/// Every reserved word has two or four characters and begins with a letter
/// that is neither a digit nor one of the symbols.
pub proof fn lemma_keyword_shape(word: Seq<char>)
    requires
        keyword_of(word) is Some,
    ensures
        word.len() == 2 || word.len() == 4,
        word[0] == 'f' || word[0] == 'm' || word[0] == 'u' || word[0] == 'r',
{
    lemma_spellings();
}

/// The first character of a token decides which rule reads it: a symbol is
/// read as itself, a digit begins a number, any other word character begins a
/// word that is a keyword or else an identifier, and whatever is left stands
/// alone as unknown.
pub proof fn lemma_next_lexeme_by_first(c: Cursor)
    requires
        c.wf(),
        c.token_start() < c.text.len(),
    ensures
        ({
            let start = c.token_start();
            let first = c.text[start];
            let found = c.next_lexeme();
            &&& found.start == start
            &&& if first == ':' {
                found.token == TokenView::Colon && found.end == start + 1
            } else if first == '{' {
                found.token == TokenView::LBrace && found.end == start + 1
            } else if first == '}' {
                found.token == TokenView::RBrace && found.end == start + 1
            } else if is_digit(first) {
                &&& found.token == number_of(c.digits_ahead())
                &&& found.end == digits_end(c.text, start)
                &&& found.end > start
            } else if is_word_char(first) {
                &&& found.token == match keyword_of(c.word_ahead()) {
                    Some(keyword) => keyword,
                    None => TokenView::Identifier(c.word_ahead()),
                }
                &&& found.end == word_end(c.text, start)
                &&& found.end > start
            } else {
                found.token == TokenView::Unknown(first) && found.end == start + 1
            }
        }),
{
    let start = c.token_start();
    let word = c.word_ahead();
    lemma_run_end(c.text, c.pos, CharClass::Space);
    lemma_run_end(c.text, start, CharClass::Word);
    lemma_run_end(c.text, start, CharClass::Digit);
    if keyword_of(word) is Some {
        lemma_keyword_shape(word);
    }
}

/// A read stays within the text. It passes over white space only, then over
/// a token of at least one character, unless the text has ended: then the
/// token is `EndOfInput`, which has no characters.
pub proof fn lemma_next_lexeme_bounds(c: Cursor)
    requires
        c.wf(),
    ensures
        c.pos <= c.next_lexeme().start <= c.next_lexeme().end <= c.text.len(),
        c.next_lexeme().start == c.token_start(),
        forall|i: int| c.pos <= i < c.next_lexeme().start ==> is_space(#[trigger] c.text[i]),
        c.next_lexeme().start < c.text.len() ==> !is_space(c.text[c.next_lexeme().start]),
        c.next_lexeme().token is EndOfInput <==> c.next_lexeme().start == c.text.len(),
        c.next_lexeme().token is EndOfInput <==> c.next_lexeme().end == c.next_lexeme().start,
        c.advance().wf(),
{
    lemma_run_end(c.text, c.pos, CharClass::Space);
    if c.token_start() < c.text.len() {
        lemma_next_lexeme_by_first(c);
        lemma_run_end(c.text, c.token_start(), CharClass::Word);
        lemma_run_end(c.text, c.token_start(), CharClass::Digit);
    }
}

/// One more read after `reads` reads is a read from the cursor they left.
pub proof fn lemma_after_step(c: Cursor, reads: nat)
    ensures
        c.after(reads + 1) == c.after(reads).advance(),
    decreases reads,
{
    assert(c.after(reads + 1) == c.advance().after(reads));
    if reads > 0 {
        lemma_after_step(c.advance(), (reads - 1) as nat);
    }
}

/// Reads keep the cursor within its text, and never move it back.
pub proof fn lemma_after_bounds(c: Cursor, reads: nat)
    requires
        c.wf(),
    ensures
        c.after(reads).wf(),
        c.after(reads).text == c.text,
        c.pos <= c.after(reads).pos,
    decreases reads,
{
    if reads > 0 {
        lemma_next_lexeme_bounds(c);
        lemma_after_bounds(c.advance(), (reads - 1) as nat);
    }
}

/// Once a read has returned `EndOfInput`, every later read finds the cursor
/// at the end of the text and returns `EndOfInput` too.
pub proof fn lemma_end_stays(c: Cursor, reads: nat)
    requires
        c.wf(),
        c.next_lexeme().token is EndOfInput,
    ensures
        c.after(reads).next_lexeme().token is EndOfInput,
        reads > 0 ==> c.after(reads).pos == c.text.len(),
    decreases reads,
{
    if reads > 0 {
        lemma_next_lexeme_bounds(c);
        lemma_end_stays(c.advance(), (reads - 1) as nat);
        lemma_after_bounds(c.advance(), (reads - 1) as nat);
    }
}

} // verus!
