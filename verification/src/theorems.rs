//! What the lexical rules imply for every text.
//!
//! Each theorem is stated over the [`Cursor`] that a
//! [`Tokenizer`](crate::tokenizer::Tokenizer) is a view of: a call of
//! `next_token` returns the token of `next_lexeme` and leaves the tokenizer at
//! `advance`, so what holds of every cursor holds of every tokenizer and of
//! every sequence of calls.

use crate::grammar::{
    decimal_value, is_digit, is_space, is_word_char, keyword_of, run_end, CharClass, Cursor,
    TokenView,
};
use crate::lemmas::{
    lemma_after_bounds, lemma_after_step, lemma_end_stays, lemma_next_lexeme_bounds,
    lemma_next_lexeme_by_first, lemma_run_end, lemma_spellings,
};
use vstd::prelude::*;

verus! {

/// Reading ends. From any cursor the reads fall in two parts: the first
/// `tokens_ahead` reads, which are no more than the characters still unread,
/// each return a token other than `EndOfInput`; every read after them returns
/// `EndOfInput`.
pub proof fn theorem_totality(c: Cursor)
    requires
        c.wf(),
    ensures
        c.tokens_ahead() <= c.text.len() - c.pos,
        forall|reads: nat|
            reads < c.tokens_ahead() ==> !(#[trigger] c.after(reads).next_lexeme().token
                is EndOfInput),
        forall|reads: nat|
            reads >= c.tokens_ahead() ==> #[trigger] c.after(reads).next_lexeme().token
                is EndOfInput,
    decreases c.text.len() - c.pos,
{
    lemma_next_lexeme_bounds(c);
    if c.next_lexeme().token is EndOfInput {
        assert forall|reads: nat| #[trigger] c.after(reads).next_lexeme().token is EndOfInput by {
            lemma_end_stays(c, reads);
        }
    } else {
        // Every read but the first is a read from the cursor that the first one left.
        let next = c.advance();
        theorem_totality(next);
        assert forall|reads: nat| reads > 0 implies #[trigger] c.after(reads) == next.after(
            (reads - 1) as nat,
        ) by {}
    }
}

/// Nothing is left out and nothing is read twice. What any number of reads
/// pass over (for each read the white space it skips, then the text of its
/// token), joined in order, is the stretch of the text from where the
/// cursor stood to where it stands afterwards. What a read skips is white
/// space and nothing else.
pub proof fn theorem_coverage(c: Cursor, reads: nat)
    requires
        c.wf(),
    ensures
        c.text_read(reads) == c.text.subrange(c.pos, c.after(reads).pos),
        c.skipped() + c.span() == c.text.subrange(c.pos, c.advance().pos),
        forall|i: int| 0 <= i < c.skipped().len() ==> is_space(#[trigger] c.skipped()[i]),
    decreases reads,
{
    lemma_next_lexeme_bounds(c);
    if reads > 0 {
        theorem_coverage(c.advance(), (reads - 1) as nat);
        lemma_after_bounds(c.advance(), (reads - 1) as nat);
    }
    assert(c.text_read(reads) =~= c.text.subrange(c.pos, c.after(reads).pos));
}

/// Reading a text from its beginning until `EndOfInput` has been returned
/// passes over the whole text, and leaves the cursor at its end.
pub proof fn theorem_whole_text_is_read(text: Seq<char>)
    ensures
        Cursor::start(text).text_read(Cursor::start(text).tokens_ahead() + 1) == text,
        Cursor::start(text).after(Cursor::start(text).tokens_ahead() + 1).pos == text.len(),
{
    let c = Cursor::start(text);
    let last = c.after(c.tokens_ahead());
    theorem_totality(c);
    theorem_coverage(c, c.tokens_ahead() + 1);
    lemma_after_step(c, c.tokens_ahead());
    lemma_after_bounds(c, c.tokens_ahead());
    lemma_next_lexeme_bounds(last);
}

/// Where no white space is left to read, the texts of the tokens alone,
/// joined in order, give back what was read; once `EndOfInput` has been
/// returned, that is all of the text from where the cursor stood.
pub proof fn theorem_spans_rebuild_text(c: Cursor, reads: nat)
    requires
        c.wf(),
        forall|i: int| c.pos <= i < c.text.len() ==> !is_space(#[trigger] c.text[i]),
    ensures
        c.spans_joined(reads) == c.text.subrange(c.pos, c.after(reads).pos),
        reads > c.tokens_ahead() ==> c.after(reads).pos == c.text.len(),
    decreases reads,
{
    lemma_next_lexeme_bounds(c);
    theorem_totality(c);
    if reads > 0 {
        theorem_spans_rebuild_text(c.advance(), (reads - 1) as nat);
        lemma_after_bounds(c.advance(), (reads - 1) as nat);
        if c.next_lexeme().token is EndOfInput {
            lemma_end_stays(c, reads);
        }
    }
    assert(c.spans_joined(reads) =~= c.text.subrange(c.pos, c.after(reads).pos));
}

/// A token holds what it was read from. The text of a keyword, a symbol, an
/// identifier or an unknown character is the token's spelling. The text of a
/// number is a run of digits with the number's value, and the text of an
/// overflow is a run of digits with a value above 255.
pub proof fn theorem_span_is_spelling(c: Cursor)
    requires
        c.wf(),
    ensures
        c.next_lexeme().token.spelling() matches Some(spelling) ==> c.span() == spelling,
        c.next_lexeme().token matches TokenView::Number(value) ==> c.span() == c.digits_ahead()
            && decimal_value(c.span()) == value,
        c.next_lexeme().token is Overflow ==> c.span() == c.digits_ahead() && decimal_value(
            c.span(),
        ) > u8::MAX,
{
    lemma_next_lexeme_bounds(c);
    if c.token_start() < c.text.len() {
        lemma_next_lexeme_by_first(c);
        lemma_run_end(c.text, c.token_start(), CharClass::Word);
        lemma_run_end(c.text, c.token_start(), CharClass::Digit);
        lemma_spellings();
        if c.next_lexeme().end == c.token_start() + 1 {
            assert(c.span() =~= seq![c.text[c.token_start()]]);
        }
    } else {
        assert(c.span() =~= Seq::<char>::empty());
    }
}

/// A word that is exactly `fn`, `main`, `u8` or `rn` is read as its keyword,
/// whole, and no identifier is ever one of these words.
pub proof fn theorem_keyword_exactness(c: Cursor)
    requires
        c.wf(),
    ensures
        c.word_ahead() == "fn"@ ==> c.next_lexeme().token == TokenView::Fn,
        c.word_ahead() == "main"@ ==> c.next_lexeme().token == TokenView::Main,
        c.word_ahead() == "u8"@ ==> c.next_lexeme().token == TokenView::TypeU8,
        c.word_ahead() == "rn"@ ==> c.next_lexeme().token == TokenView::Return,
        keyword_of(c.word_ahead()) is Some ==> c.span() == c.word_ahead(),
        c.next_lexeme().token matches TokenView::Identifier(name) ==> keyword_of(name) is None,
{
    lemma_spellings();
    lemma_next_lexeme_bounds(c);
    lemma_run_end(c.text, c.token_start(), CharClass::Word);
    if keyword_of(c.word_ahead()) is Some {
        assert(c.span() =~= c.word_ahead());
    }
}

/// A run is as long as it can be, and that fixes it: a stretch of characters
/// of one class that is followed by the end of the text, or by a character
/// that is not of the class, is the run that begins where the stretch begins.
pub proof fn theorem_run_is_longest(text: Seq<char>, from: int, end: int, class: CharClass)
    requires
        0 <= from <= end <= text.len(),
        forall|i: int| from <= i < end ==> class.has(#[trigger] text[i]),
        end < text.len() ==> !class.has(text[end]),
    ensures
        run_end(text, from, class) == end,
    decreases end - from,
{
    if from < end {
        theorem_run_is_longest(text, from + 1, end, class);
    }
}

/// A word that is not reserved and does not begin with a digit is read as
/// one identifier, which is the whole word, whatever it begins with and
/// whatever reserved spelling it has in it. The character behind it, if
/// there is one, is no word character: nothing of the word is left over.
pub proof fn theorem_word_is_identifier(c: Cursor)
    requires
        c.wf(),
        c.word_ahead().len() > 0,
        !is_digit(c.word_ahead()[0]),
        keyword_of(c.word_ahead()) is None,
    ensures
        c.next_lexeme().token == TokenView::Identifier(c.word_ahead()),
        c.span() == c.word_ahead(),
        c.advance().pos < c.text.len() ==> !is_word_char(c.text[c.advance().pos]),
{
    lemma_next_lexeme_bounds(c);
    lemma_run_end(c.text, c.token_start(), CharClass::Word);
    assert(c.word_ahead()[0] == c.text[c.token_start()]);
    assert(CharClass::Word.has(c.text[c.token_start()]));
    lemma_next_lexeme_by_first(c);
}

/// A word that begins with a reserved spelling and goes on is read as one
/// identifier, which is the whole word, never as the keyword with the rest
/// of the word behind it.
pub proof fn theorem_longest_match(c: Cursor, keyword: Seq<char>)
    requires
        c.wf(),
        keyword_of(keyword) is Some,
        keyword.is_prefix_of(c.word_ahead()),
        keyword.len() < c.word_ahead().len(),
    ensures
        c.next_lexeme().token == TokenView::Identifier(c.word_ahead()),
        c.span() == c.word_ahead(),
        c.advance().pos < c.text.len() ==> !is_word_char(c.text[c.advance().pos]),
{
    lemma_spellings();
    assert(c.word_ahead()[0] == keyword[0]);
    theorem_word_is_identifier(c);
}

/// A run of digits is read whole. If its value is at most 255 the token is
/// `Number` with exactly that value; if it is greater the token is
/// `Overflow`, never a `Number` with the value reduced to fit.
pub proof fn theorem_numeric_bounds(c: Cursor)
    requires
        c.wf(),
        c.token_start() < c.text.len(),
        is_digit(c.text[c.token_start()]),
    ensures
        c.span() == c.digits_ahead(),
        c.digits_ahead().len() > 0,
        forall|i: int| 0 <= i < c.digits_ahead().len() ==> is_digit(#[trigger] c.digits_ahead()[i]),
        c.advance().pos < c.text.len() ==> !is_digit(c.text[c.advance().pos]),
        decimal_value(c.digits_ahead()) <= 255 ==> c.next_lexeme().token == TokenView::Number(
            decimal_value(c.digits_ahead()) as u8,
        ),
        decimal_value(c.digits_ahead()) > 255 ==> c.next_lexeme().token == TokenView::Overflow,
{
    lemma_next_lexeme_by_first(c);
    lemma_run_end(c.text, c.token_start(), CharClass::Digit);
    assert(c.span() =~= c.digits_ahead());
}

/// After `EndOfInput` nothing changes: the cursor is at the end of the text,
/// and the next read returns `EndOfInput` again and leaves the cursor where
/// it is.
pub proof fn theorem_end_is_final(c: Cursor)
    requires
        c.wf(),
        c.next_lexeme().token is EndOfInput,
    ensures
        c.advance().pos == c.text.len(),
        c.advance().next_lexeme().token is EndOfInput,
        c.advance().advance() == c.advance(),
{
    lemma_next_lexeme_bounds(c);
    lemma_next_lexeme_bounds(c.advance());
}

} // verus!
