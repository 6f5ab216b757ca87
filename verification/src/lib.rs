//! A tokenizer for a minimal programming language.
//!
//! [`tokenizer::Tokenizer`] reads a source text one token at a time.
//! [`grammar`] says, over sequences of characters, which token each read
//! returns and where it leaves the position; [`theorems`] proves what follows
//! from that for every text; [`lemmas`] holds the steps on the way. [`text`]
//! lists what is taken on trust from the standard library.

pub mod grammar;
pub mod lemmas;
pub mod text;
pub mod theorems;
pub mod tokenizer;
