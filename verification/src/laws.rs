//! What holds of every line.

use vstd::prelude::*;
use crate::bytes::{
    lemma_run_end, ByteClass, AT_SIGN, BACKSLASH, CLOSE_BRACE, CLOSE_BRACKET, CLOSE_PAREN, COMMA,
    DOLLAR, OPEN_BRACE, OPEN_BRACKET, OPEN_PAREN, SINGLE_QUOTE,
};
use crate::model::{
    after_byte, body_close, brace_group, brace_step, braced_variable_step, fault, followed_by,
    name_close, plain_stop, starts_token, step, substitution_step, toggles_quote, Cursor, Outcome,
    Substitution,
};
use crate::token::{Construct, Quotes, Unterminated, Word};

verus! {

/// The raw text that the calls for the next token consume from `c` on,
/// one call's span after the other, up to and including the call that
/// ends the lexing. (From a valid cursor a token always moves the
/// cursor forward, by `lemma_step_advances`; the test on it is there
/// for the recursion to be well-founded.)
pub open spec fn consumed_from(c: Cursor) -> Seq<u8>
    decreases c.data.len() - c.pos,
{
    let s = step(c);
    let span = c.data.subrange(c.pos, s.next.pos);
    if s.outcome is Token && c.pos < s.next.pos <= c.data.len() && s.next.data == c.data {
        span + consumed_from(s.next)
    } else {
        span
    }
}

/// The tokens that the calls for the next token give from `c` on, or
/// the fault that ends them.
pub open spec fn words_from(c: Cursor) -> Result<Seq<Word>, Unterminated>
    decreases c.data.len() - c.pos,
{
    let s = step(c);
    match s.outcome {
        Outcome::End => Ok(Seq::empty()),
        Outcome::Fault(e) => Err(e),
        Outcome::Token(word) => {
            if c.pos < s.next.pos <= c.data.len() && s.next.data == c.data {
                match words_from(s.next) {
                    Ok(rest) => Ok(seq![word] + rest),
                    Err(e) => Err(e),
                }
            } else {
                Ok(seq![word])
            }
        },
    }
}

/// The register keeps at most one kind of quote open.
pub proof fn lemma_after_byte_exclusive(q: Quotes, b: u8)
    requires
        q.exclusive(),
    ensures
        after_byte(q, b).exclusive(),
{
}

/// A braced variable's name ends at a `}` inside the line; where no `}`
/// follows, it does not end.
pub proof fn lemma_name_close(data: Seq<u8>, i: int, escaped: bool)
    requires
        0 <= i <= data.len(),
    ensures
        name_close(data, i, escaped) matches Some(j) ==> i <= j < data.len() && data[j]
            == CLOSE_BRACE,
        (forall|k: int| i <= k < data.len() ==> data[k] != CLOSE_BRACE) ==> name_close(
            data,
            i,
            escaped,
        ) is None,
    decreases data.len() - i,
{
    if i < data.len() {
        if escaped {
            lemma_name_close(data, i + 1, false);
        } else if data[i] != CLOSE_BRACE {
            lemma_name_close(data, i + 1, data[i] == BACKSLASH);
        }
    }
}

/// A substitution's body ends at its closer inside the line; where no
/// closer follows, it does not end.
pub proof fn lemma_body_close(data: Seq<u8>, i: int, q: Quotes, level: nat, kind: Substitution)
    requires
        0 <= i <= data.len(),
    ensures
        body_close(data, i, q, level, kind) matches Some(j) ==> i <= j < data.len() && data[j]
            == kind.closer(),
        (forall|k: int| i <= k < data.len() ==> data[k] != kind.closer()) ==> body_close(
            data,
            i,
            q,
            level,
            kind,
        ) is None,
    decreases data.len() - i,
{
    if i < data.len() {
        let b = data[i];
        let live = !q.escaped && !q.single;
        if live && b == kind.closer() {
            if level != 0 {
                lemma_body_close(data, i + 1, q, (level - 1) as nat, kind);
            }
        } else if live && b == kind.sigil() && i + 1 < data.len() && data[i + 1] == kind.opener() {
            lemma_body_close(data, i + 1, q, level + 1, kind);
        } else {
            lemma_body_close(data, i + 1, after_byte(q, b), level, kind);
        }
    }
}

/// A brace group ends at a `}` inside the line, outside quotes and
/// escapes, and keeps every alternative that was complete before; where
/// no `}` follows, it does not end.
pub proof fn lemma_brace_group(
    data: Seq<u8>,
    i: int,
    start: int,
    q: Quotes,
    level: nat,
    acc: Seq<Seq<u8>>,
)
    requires
        0 <= i <= data.len(),
    ensures
        brace_group(data, i, start, q, level, acc) matches Some(g) ==> {
            &&& i <= g.close < data.len()
            &&& data[g.close] == CLOSE_BRACE
            &&& !g.quotes.escaped && !g.quotes.single && !g.quotes.double
            &&& g.elements.len() > acc.len()
            &&& g.elements.subrange(0, acc.len() as int) == acc
        },
        (forall|k: int| i <= k < data.len() ==> data[k] != CLOSE_BRACE) ==> brace_group(
            data,
            i,
            start,
            q,
            level,
            acc,
        ) is None,
    decreases data.len() - i,
{
    if i < data.len() {
        let b = data[i];
        let bare = !q.escaped && !q.single && !q.double;
        if bare && b == COMMA && level == 0 {
            let more = acc.push(data.subrange(start, i));
            lemma_brace_group(data, i + 1, i + 1, q, level, more);
            match brace_group(data, i + 1, i + 1, q, level, more) {
                Some(g) => {
                    assert(g.elements.subrange(0, acc.len() as int) =~= more.subrange(
                        0,
                        acc.len() as int,
                    ));
                    assert(more.subrange(0, acc.len() as int) =~= acc);
                },
                None => {},
            }
        } else if bare && b == OPEN_BRACE {
            lemma_brace_group(data, i + 1, start, q, level + 1, acc);
        } else if bare && b == CLOSE_BRACE {
            if level == 0 {
                assert(acc.push(data.subrange(start, i)).subrange(0, acc.len() as int) =~= acc);
            } else {
                lemma_brace_group(data, i + 1, start, q, (level - 1) as nat, acc);
            }
        } else {
            lemma_brace_group(data, i + 1, start, after_byte(q, b), level, acc);
        }
    }
}

/// Plain text stops inside the line, and the cursor after it stands at
/// its end or one byte further, past a quote character.
pub proof fn lemma_plain_stop(data: Seq<u8>, i: int, q: Quotes)
    requires
        0 <= i <= data.len(),
    ensures
        i <= plain_stop(data, i, q).end <= plain_stop(data, i, q).next <= data.len(),
        plain_stop(data, i, q).next <= plain_stop(data, i, q).end + 1,
        q.exclusive() ==> plain_stop(data, i, q).quotes.exclusive(),
        plain_stop(data, i, q).next < data.len() ==> !plain_stop(data, i, q).quotes.escaped,
    decreases data.len() - i,
{
    if i < data.len() {
        let b = data[i];
        if !q.escaped && toggles_quote(q, b) {
        } else if !q.escaped && starts_token(q, b) {
        } else {
            lemma_plain_stop(data, i + 1, after_byte(q, b));
        }
    }
}

/// Every call moves the cursor forward inside the same line: a token
/// consumes at least one byte, and the end of the line or a fault
/// leaves nothing behind. At most one kind of quote stays open, and an
/// escape outlasts a call only where the line ends in it.
pub proof fn lemma_step_advances(c: Cursor)
    requires
        c.valid(),
    ensures
        step(c).next.valid(),
        step(c).next.data == c.data,
        c.pos <= step(c).next.pos,
        step(c).outcome is Token ==> c.pos < step(c).next.pos,
        !(step(c).outcome is Token) ==> step(c).next.pos == c.data.len(),
        !c.quotes.escaped && step(c).next.pos < c.data.len() ==> !step(c).next.quotes.escaped,
    decreases c.data.len() - c.pos,
{
    if c.pos < c.data.len() {
        let b = c.data[c.pos];
        if toggles_quote(c.quotes, b) {
            lemma_step_advances(
                c.with(
                    c.pos + 1,
                    if b == SINGLE_QUOTE {
                        Quotes { single: !c.quotes.single, ..c.quotes }
                    } else {
                        Quotes { double: !c.quotes.double, ..c.quotes }
                    },
                ),
            );
        } else {
            lemma_run_end(c.data, c.pos + 1, ByteClass::Space);
            lemma_run_end(c.data, c.pos + 1, ByteClass::Path);
            lemma_run_end(c.data, c.pos + 1, ByteClass::Name);
            lemma_brace_group(c.data, c.pos + 1, c.pos + 1, c.quotes, 0, Seq::empty());
            lemma_plain_stop(c.data, c.pos + 1, after_byte(c.quotes, b));
            if c.pos + 2 <= c.data.len() {
                lemma_name_close(c.data, c.pos + 2, c.quotes.escaped);
                lemma_body_close(c.data, c.pos + 2, c.quotes, 0, Substitution::Process);
                lemma_body_close(c.data, c.pos + 2, c.quotes, 0, Substitution::Array);
            }
        }
    }
}

/// The spans that the calls consume, one after the other, are the rest
/// of the line, byte for byte.
pub proof fn lemma_spans_cover(c: Cursor)
    requires
        c.valid(),
    ensures
        consumed_from(c) == c.data.subrange(c.pos, c.data.len() as int),
    decreases c.data.len() - c.pos,
{
    let s = step(c);
    lemma_step_advances(c);
    if s.outcome is Token {
        lemma_spans_cover(s.next);
        assert(c.data.subrange(c.pos, s.next.pos) + c.data.subrange(
            s.next.pos,
            c.data.len() as int,
        ) =~= c.data.subrange(c.pos, c.data.len() as int));
    }
}

/// From a fresh lexer on, the spans that the calls consume put the
/// whole line together again.
pub proof fn lemma_round_trip(data: Seq<u8>)
    ensures
        consumed_from(Cursor::fresh(data)) == data,
{
    lemma_spans_cover(Cursor::fresh(data));
    assert(data.subrange(0, data.len() as int) =~= data);
}

/// Two fresh lexers over the same text give the same tokens, or the
/// same fault.
pub proof fn lemma_relex_same(first: Seq<u8>, second: Seq<u8>)
    requires
        first =~= second,
    ensures
        words_from(Cursor::fresh(first)) == words_from(Cursor::fresh(second)),
{
}

/// A substitution token ends just before a closer that stands in the
/// line: no token is cut short by the end of the line.
pub proof fn lemma_substitution_closed(c: Cursor, kind: Substitution)
    requires
        c.valid(),
        c.pos + 2 <= c.data.len(),
    ensures
        substitution_step(c, kind).outcome is Token ==> {
            &&& c.pos + 2 < substitution_step(c, kind).next.pos <= c.data.len()
            &&& c.data[substitution_step(c, kind).next.pos - 1] == kind.closer()
        },
        !(substitution_step(c, kind).outcome is Token) ==> substitution_step(c, kind) == fault(
            c,
            kind.construct(),
        ),
{
    lemma_body_close(c.data, c.pos + 2, c.quotes, 0, kind);
}

/// A braced variable's token ends just before a `}` that stands in the
/// line; without one the step is a fault.
pub proof fn lemma_braced_variable_closed(c: Cursor)
    requires
        c.valid(),
        c.pos + 2 <= c.data.len(),
    ensures
        braced_variable_step(c).outcome is Token ==> {
            &&& c.pos + 2 < braced_variable_step(c).next.pos <= c.data.len()
            &&& c.data[braced_variable_step(c).next.pos - 1] == CLOSE_BRACE
        },
        !(braced_variable_step(c).outcome is Token) ==> braced_variable_step(c) == fault(
            c,
            Construct::BracedVariable,
        ),
{
    lemma_name_close(c.data, c.pos + 2, c.quotes.escaped);
}

/// A brace group's token ends just before a `}` that stands in the
/// line, and has at least one alternative; without such a `}` the step
/// is a fault.
pub proof fn lemma_brace_closed(c: Cursor)
    requires
        c.valid(),
        c.pos < c.data.len(),
    ensures
        brace_step(c).outcome matches Outcome::Token(word) ==> {
            &&& c.pos + 1 < brace_step(c).next.pos <= c.data.len()
            &&& c.data[brace_step(c).next.pos - 1] == CLOSE_BRACE
            &&& word matches Word::Brace(elements) && elements.len() >= 1
        },
        !(brace_step(c).outcome is Token) ==> brace_step(c) == fault(c, Construct::Brace),
{
    lemma_brace_group(c.data, c.pos + 1, c.pos + 1, c.quotes, 0, Seq::empty());
}

/// `$(` outside single quotes with no `)` behind it is a fault.
pub proof fn lemma_unclosed_process_faults(c: Cursor)
    requires
        c.valid(),
        c.pos < c.data.len(),
        c.data[c.pos] == DOLLAR,
        !c.quotes.single,
        followed_by(c, OPEN_PAREN),
        forall|k: int| c.pos + 2 <= k < c.data.len() ==> c.data[k] != CLOSE_PAREN,
    ensures
        step(c) == fault(c, Construct::Process),
{
    lemma_body_close(c.data, c.pos + 2, c.quotes, 0, Substitution::Process);
}

/// `@[` outside single quotes with no `]` behind it is a fault.
pub proof fn lemma_unclosed_array_process_faults(c: Cursor)
    requires
        c.valid(),
        c.pos < c.data.len(),
        c.data[c.pos] == AT_SIGN,
        !c.quotes.single,
        followed_by(c, OPEN_BRACKET),
        forall|k: int| c.pos + 2 <= k < c.data.len() ==> c.data[k] != CLOSE_BRACKET,
    ensures
        step(c) == fault(c, Construct::ArrayProcess),
{
    lemma_body_close(c.data, c.pos + 2, c.quotes, 0, Substitution::Array);
}

/// `${` outside single quotes with no `}` behind it is a fault.
pub proof fn lemma_unclosed_braced_variable_faults(c: Cursor)
    requires
        c.valid(),
        c.pos < c.data.len(),
        c.data[c.pos] == DOLLAR,
        !c.quotes.single,
        followed_by(c, OPEN_BRACE),
        forall|k: int| c.pos + 2 <= k < c.data.len() ==> c.data[k] != CLOSE_BRACE,
    ensures
        step(c) == fault(c, Construct::BracedVariable),
{
    lemma_name_close(c.data, c.pos + 2, c.quotes.escaped);
}

/// `{` outside quotes with no `}` behind it is a fault.
pub proof fn lemma_unclosed_brace_faults(c: Cursor)
    requires
        c.valid(),
        c.pos < c.data.len(),
        c.data[c.pos] == OPEN_BRACE,
        c.unquoted(),
        forall|k: int| c.pos + 1 <= k < c.data.len() ==> c.data[k] != CLOSE_BRACE,
    ensures
        step(c) == fault(c, Construct::Brace),
{
    lemma_brace_group(c.data, c.pos + 1, c.pos + 1, c.quotes, 0, Seq::empty());
}

} // verus!
