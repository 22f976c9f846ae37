//! The tokens, the quote register and the lexer's one error.

use vstd::prelude::*;
use vstd::string::StringSliceAdditionalSpecFns;

verus! {

/// Which elements of an array a reference selects.
#[derive(Debug, PartialEq, Eq, Structural, Copy, Clone)]
pub enum Index {
    /// Every element.
    All,
}

/// One lexical unit of a shell line. Each text borrows from the line.
/// The `bool` says whether the token stood inside double quotes.
/// In contracts a token is a `Word`, which holds each text by its bytes.
#[derive(Debug, PartialEq, Clone)]
pub enum WordToken<'a> {
    Normal(&'a str),
    Whitespace(&'a str),
    Tilde(&'a str),
    Brace(Vec<&'a str>),
    Variable(&'a str, bool),
    ArrayVariable(&'a str, bool, Index),
    ArrayProcess(&'a str, bool, Index),
    Process(&'a str, bool),
}

/// A token as a value: what `WordToken` is in contracts.
pub enum Word {
    Normal(Seq<u8>),
    Whitespace(Seq<u8>),
    Tilde(Seq<u8>),
    Brace(Seq<Seq<u8>>),
    Variable(Seq<u8>, bool),
    ArrayVariable(Seq<u8>, bool, Index),
    ArrayProcess(Seq<u8>, bool, Index),
    Process(Seq<u8>, bool),
}

/// The bytes of each text, in order.
pub open spec fn texts(parts: Seq<&str>) -> Seq<Seq<u8>> {
    Seq::new(parts.len(), |i: int| parts[i].spec_bytes())
}

impl<'a> View for WordToken<'a> {
    type V = Word;

    open spec fn view(&self) -> Word {
        match *self {
            WordToken::Normal(t) => Word::Normal(t.spec_bytes()),
            WordToken::Whitespace(t) => Word::Whitespace(t.spec_bytes()),
            WordToken::Tilde(t) => Word::Tilde(t.spec_bytes()),
            WordToken::Brace(parts) => Word::Brace(texts(parts@)),
            WordToken::Variable(t, quoted) => Word::Variable(t.spec_bytes(), quoted),
            WordToken::ArrayVariable(t, quoted, index) => Word::ArrayVariable(t.spec_bytes(), quoted, index),
            WordToken::ArrayProcess(t, quoted, index) => Word::ArrayProcess(t.spec_bytes(), quoted, index),
            WordToken::Process(t, quoted) => Word::Process(t.spec_bytes(), quoted),
        }
    }
}

/// The quote and escape state, which lasts from one token to the next.
#[derive(Debug, PartialEq, Eq, Structural, Copy, Clone)]
pub struct Quotes {
    /// The byte before was a backslash that escapes the next byte.
    pub escaped: bool,
    /// Inside `'...'`.
    pub single: bool,
    /// Inside `"..."`.
    pub double: bool,
}

impl Quotes {
    /// Outside every quote, with no escape pending.
    pub open spec fn clear() -> Quotes {
        Quotes { escaped: false, single: false, double: false }
    }

    /// At most one kind of quote is open: inside one kind, a quote
    /// character of the other kind is text.
    pub open spec fn exclusive(self) -> bool {
        !(self.single && self.double)
    }
}

/// The constructs that need a closing delimiter.
#[derive(Debug, PartialEq, Eq, Structural, Copy, Clone)]
pub enum Construct {
    /// `${name}`
    BracedVariable,
    /// `$( ... )`
    Process,
    /// `@[ ... ]`
    ArrayProcess,
    /// `{a,b,c}`
    Brace,
}

/// The line ended inside a construct that was never closed.
#[derive(Debug, PartialEq, Eq, Structural, Copy, Clone)]
pub struct Unterminated {
    /// The construct that stayed open.
    pub kind: Construct,
    /// The offset of the byte that opened it.
    pub start: usize,
}

} // verus!
