//! What the lexer does, as functions on a cursor over the line.

use vstd::prelude::*;
use crate::bytes::{
    run_end, ByteClass, AT_SIGN, BACKSLASH, CLOSE_BRACE, CLOSE_BRACKET, CLOSE_PAREN,
    COMMA, DOLLAR, DOUBLE_QUOTE, OPEN_BRACE, OPEN_BRACKET, OPEN_PAREN, SINGLE_QUOTE, SPACE, TILDE,
};
use crate::token::{Construct, Index, Quotes, Unterminated, Word};

verus! {

/// A place in a line, with the quote register as it stands there.
pub struct Cursor {
    pub data: Seq<u8>,
    pub pos: int,
    pub quotes: Quotes,
}

impl Cursor {
    /// The cursor lies inside the line or at its end, and at most one
    /// kind of quote is open.
    pub open spec fn valid(self) -> bool {
        0 <= self.pos <= self.data.len() && self.quotes.exclusive()
    }

    /// The cursor of a lexer that has read nothing yet.
    pub open spec fn fresh(data: Seq<u8>) -> Cursor {
        Cursor { data, pos: 0, quotes: Quotes::clear() }
    }

    pub open spec fn at(self, pos: int) -> Cursor {
        Cursor { pos, ..self }
    }

    pub open spec fn with(self, pos: int, quotes: Quotes) -> Cursor {
        Cursor { pos, quotes, ..self }
    }

    pub open spec fn unquoted(self) -> bool {
        !self.quotes.single && !self.quotes.double
    }
}

/// What one call for the next token gives.
pub enum Outcome {
    /// The line is used up.
    End,
    /// One token.
    Token(Word),
    /// The line ended inside an open construct.
    Fault(Unterminated),
}

/// An outcome and the cursor after it.
pub struct Step {
    pub outcome: Outcome,
    pub next: Cursor,
}

/// The two command substitutions, which differ in their delimiters only.
#[derive(Debug, PartialEq, Eq, Structural, Copy, Clone)]
pub enum Substitution {
    /// `$( ... )`
    Process,
    /// `@[ ... ]`
    Array,
}

impl Substitution {
    pub open spec fn sigil(self) -> u8 {
        match self {
            Substitution::Process => DOLLAR,
            Substitution::Array => AT_SIGN,
        }
    }

    pub open spec fn opener(self) -> u8 {
        match self {
            Substitution::Process => OPEN_PAREN,
            Substitution::Array => OPEN_BRACKET,
        }
    }

    pub open spec fn closer(self) -> u8 {
        match self {
            Substitution::Process => CLOSE_PAREN,
            Substitution::Array => CLOSE_BRACKET,
        }
    }

    pub open spec fn construct(self) -> Construct {
        match self {
            Substitution::Process => Construct::Process,
            Substitution::Array => Construct::ArrayProcess,
        }
    }

    pub open spec fn word(self, text: Seq<u8>, quoted: bool) -> Word {
        match self {
            Substitution::Process => Word::Process(text, quoted),
            Substitution::Array => Word::ArrayProcess(text, quoted, Index::All),
        }
    }
}

/// The register after byte `b` went by: an escaped byte only ends the
/// escape; a backslash starts one; a quote character toggles its own
/// flag unless the other kind of quote is open.
pub open spec fn after_byte(q: Quotes, b: u8) -> Quotes {
    if q.escaped {
        Quotes { escaped: false, ..q }
    } else if b == BACKSLASH {
        Quotes { escaped: true, ..q }
    } else if b == SINGLE_QUOTE && !q.double {
        Quotes { single: !q.single, ..q }
    } else if b == DOUBLE_QUOTE && !q.single {
        Quotes { double: !q.double, ..q }
    } else {
        q
    }
}

/// The offset of the `}` that ends a braced variable whose name is read
/// from offset `i` on: the first `}` that no backslash escapes.
pub open spec fn name_close(data: Seq<u8>, i: int, escaped: bool) -> Option<int>
    decreases data.len() - i,
{
    if i < 0 || i >= data.len() {
        None
    } else if escaped {
        name_close(data, i + 1, false)
    } else if data[i] == CLOSE_BRACE {
        Some(i)
    } else {
        name_close(data, i + 1, data[i] == BACKSLASH)
    }
}

/// The offset of the delimiter that closes a substitution whose body is
/// read from offset `i` on, in quote state `q`, with `level` inner
/// substitutions of the same kind still open. Outside single quotes and
/// escapes, the sigil followed by the opener opens one more, and the
/// closer ends the innermost.
pub open spec fn body_close(data: Seq<u8>, i: int, q: Quotes, level: nat, kind: Substitution)
    -> Option<int>
    decreases data.len() - i,
{
    if i < 0 || i >= data.len() {
        None
    } else {
        let b = data[i];
        let live = !q.escaped && !q.single;
        if live && b == kind.closer() {
            if level == 0 {
                Some(i)
            } else {
                body_close(data, i + 1, q, (level - 1) as nat, kind)
            }
        } else if live && b == kind.sigil() && i + 1 < data.len() && data[i + 1] == kind.opener() {
            body_close(data, i + 1, q, level + 1, kind)
        } else {
            body_close(data, i + 1, after_byte(q, b), level, kind)
        }
    }
}

/// A brace group that was read to its end.
pub struct BraceGroup {
    /// The alternatives, in order.
    pub elements: Seq<Seq<u8>>,
    /// The offset of the closing `}`.
    pub close: int,
    /// The register at the closing `}`.
    pub quotes: Quotes,
}

/// The brace group that is read from offset `i` on, where the current
/// alternative began at `start`, `level` inner groups are open and `acc`
/// holds the alternatives that are complete. Outside quotes and escapes
/// `{` opens an inner group and `}` closes one; a comma outside every
/// inner group ends an alternative.
pub open spec fn brace_group(
    data: Seq<u8>,
    i: int,
    start: int,
    q: Quotes,
    level: nat,
    acc: Seq<Seq<u8>>,
) -> Option<BraceGroup>
    decreases data.len() - i,
{
    if i < 0 || i >= data.len() {
        None
    } else {
        let b = data[i];
        let bare = !q.escaped && !q.single && !q.double;
        if bare && b == COMMA && level == 0 {
            brace_group(data, i + 1, i + 1, q, level, acc.push(data.subrange(start, i)))
        } else if bare && b == OPEN_BRACE {
            brace_group(data, i + 1, start, q, level + 1, acc)
        } else if bare && b == CLOSE_BRACE {
            if level == 0 {
                Some(BraceGroup { elements: acc.push(data.subrange(start, i)), close: i, quotes: q })
            } else {
                brace_group(data, i + 1, start, q, (level - 1) as nat, acc)
            }
        } else {
            brace_group(data, i + 1, start, after_byte(q, b), level, acc)
        }
    }
}

/// Where a run of plain text stops.
pub struct PlainStop {
    /// The end of the text.
    pub end: int,
    /// The cursor after it: past the quote character, if one ended it.
    pub next: int,
    /// The register after it.
    pub quotes: Quotes,
}

/// A quote character that toggles its flag in state `q`.
pub open spec fn toggles_quote(q: Quotes, b: u8) -> bool {
    (b == SINGLE_QUOTE && !q.double) || (b == DOUBLE_QUOTE && !q.single)
}

/// A byte at which a token other than plain text begins in state `q`.
pub open spec fn starts_token(q: Quotes, b: u8) -> bool {
    ((b == SPACE || b == OPEN_BRACE) && !q.single && !q.double) || ((b == DOLLAR || b == AT_SIGN)
        && !q.single)
}

/// Plain text that is read from offset `i` on stops before the first
/// unescaped byte that toggles a quote or starts another token, or at
/// the end of the line. A quote character that stops it is consumed.
pub open spec fn plain_stop(data: Seq<u8>, i: int, q: Quotes) -> PlainStop
    decreases data.len() - i,
{
    if i < 0 || i >= data.len() {
        PlainStop { end: i, next: i, quotes: q }
    } else {
        let b = data[i];
        if !q.escaped && toggles_quote(q, b) {
            PlainStop { end: i, next: i + 1, quotes: after_byte(q, b) }
        } else if !q.escaped && starts_token(q, b) {
            PlainStop { end: i, next: i, quotes: q }
        } else {
            plain_stop(data, i + 1, after_byte(q, b))
        }
    }
}

/// The fault of a construct that was opened at `c` and never closed.
/// The rest of the line counts as consumed.
pub open spec fn fault(c: Cursor, kind: Construct) -> Step {
    Step {
        outcome: Outcome::Fault(Unterminated { kind, start: c.pos as usize }),
        next: c.at(c.data.len() as int),
    }
}

/// A run of `class` bytes after the one byte at the cursor.
pub open spec fn run_step(c: Cursor, class: ByteClass) -> Step {
    let end = run_end(c.data, c.pos + 1, class);
    let text = c.data.subrange(c.pos, end);
    Step {
        outcome: Outcome::Token(
            match class {
                ByteClass::Space => Word::Whitespace(text),
                _ => Word::Tilde(text),
            },
        ),
        next: c.at(end),
    }
}

/// `$name` or `@name` at the cursor: the name is the maximal run of name
/// bytes after the sigil.
pub open spec fn variable_step(c: Cursor, array: bool) -> Step {
    let end = run_end(c.data, c.pos + 1, ByteClass::Name);
    let name = c.data.subrange(c.pos + 1, end);
    Step {
        outcome: Outcome::Token(
            if array {
                Word::ArrayVariable(name, c.quotes.double, Index::All)
            } else {
                Word::Variable(name, c.quotes.double)
            },
        ),
        next: c.at(end),
    }
}

/// `${name}` at the cursor.
pub open spec fn braced_variable_step(c: Cursor) -> Step {
    match name_close(c.data, c.pos + 2, c.quotes.escaped) {
        Some(close) => Step {
            outcome: Outcome::Token(
                Word::Variable(c.data.subrange(c.pos + 2, close), c.quotes.double),
            ),
            next: c.with(close + 1, Quotes { escaped: false, ..c.quotes }),
        },
        None => fault(c, Construct::BracedVariable),
    }
}

/// `$( ... )` or `@[ ... ]` at the cursor. The token is quoted iff the
/// substitution began inside double quotes, and the register after it is
/// the one before it.
pub open spec fn substitution_step(c: Cursor, kind: Substitution) -> Step {
    match body_close(c.data, c.pos + 2, c.quotes, 0, kind) {
        Some(close) => Step {
            outcome: Outcome::Token(
                kind.word(c.data.subrange(c.pos + 2, close), c.quotes.double),
            ),
            next: c.at(close + 1),
        },
        None => fault(c, kind.construct()),
    }
}

/// `{a,b,c}` at the cursor.
pub open spec fn brace_step(c: Cursor) -> Step {
    match brace_group(c.data, c.pos + 1, c.pos + 1, c.quotes, 0, Seq::empty()) {
        Some(group) => Step {
            outcome: Outcome::Token(Word::Brace(group.elements)),
            next: c.with(group.close + 1, group.quotes),
        },
        None => fault(c, Construct::Brace),
    }
}

/// Plain text at the cursor: its first byte belongs to it whatever it
/// is, the rest goes as far as `plain_stop` says.
pub open spec fn plain_step(c: Cursor) -> Step {
    let stop = plain_stop(c.data, c.pos + 1, after_byte(c.quotes, c.data[c.pos]));
    Step {
        outcome: Outcome::Token(Word::Normal(c.data.subrange(c.pos, stop.end))),
        next: c.with(stop.next, stop.quotes),
    }
}

/// The byte after the one at the cursor is `b`.
pub open spec fn followed_by(c: Cursor, b: u8) -> bool {
    c.pos + 1 < c.data.len() && c.data[c.pos + 1] == b
}

/// The next token from cursor `c`, and the cursor after it.
///
/// A quote character that toggles its flag is passed over and gives no
/// token. Then the byte at the cursor decides: a space, `~` or `{`
/// outside quotes, `@` or `$` outside single quotes, each with its own
/// sub-lexer; any other byte begins plain text.
pub open spec fn step(c: Cursor) -> Step
    decreases c.data.len() - c.pos,
{
    if c.pos < 0 || c.pos >= c.data.len() {
        Step { outcome: Outcome::End, next: c }
    } else {
        let b = c.data[c.pos];
        if toggles_quote(c.quotes, b) {
            step(
                c.with(
                    c.pos + 1,
                    if b == SINGLE_QUOTE {
                        Quotes { single: !c.quotes.single, ..c.quotes }
                    } else {
                        Quotes { double: !c.quotes.double, ..c.quotes }
                    },
                ),
            )
        } else if b == SPACE && c.unquoted() {
            run_step(c, ByteClass::Space)
        } else if b == TILDE && c.unquoted() {
            run_step(c, ByteClass::Path)
        } else if b == OPEN_BRACE && c.unquoted() {
            brace_step(c)
        } else if b == AT_SIGN && !c.quotes.single {
            if followed_by(c, OPEN_BRACKET) {
                substitution_step(c, Substitution::Array)
            } else {
                variable_step(c, true)
            }
        } else if b == DOLLAR && !c.quotes.single {
            if followed_by(c, OPEN_PAREN) {
                substitution_step(c, Substitution::Process)
            } else if followed_by(c, OPEN_BRACE) {
                braced_variable_step(c)
            } else {
                variable_step(c, false)
            }
        } else {
            plain_step(c)
        }
    }
}

} // verus!
