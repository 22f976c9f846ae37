//! The executable lexer: one search per construct, one method per
//! sub-lexer, and `next`, which picks the sub-lexer by the byte at the
//! cursor.

use vstd::prelude::*;
use vstd::string::StringSliceAdditionalSpecFns;
use crate::bytes::{
    class_has, in_class, run_end, ByteClass, AT_SIGN, BACKSLASH, CLOSE_BRACE, CLOSE_BRACKET,
    CLOSE_PAREN, COMMA, DOLLAR, DOUBLE_QUOTE, OPEN_BRACE, OPEN_BRACKET, OPEN_PAREN, SINGLE_QUOTE,
    SPACE, TILDE,
};
use crate::model::{
    after_byte, body_close, brace_group, brace_step, braced_variable_step, name_close, plain_step,
    plain_stop, run_step, starts_token, step, substitution_step, toggles_quote, variable_step,
    BraceGroup, Cursor, Outcome, PlainStop, Step, Substitution,
};
use crate::laws::{lemma_brace_group, lemma_plain_stop, lemma_step_advances};
use crate::text::{is_cut, span};
use crate::token::{texts, Construct, Index, Quotes, Unterminated, WordToken};

verus! {

/// A token and the cursor after it, as a step.
spec fn token_step(token: WordToken, next: Cursor) -> Step {
    Step { outcome: Outcome::Token(token@), next }
}

/// A sub-lexer's result and the cursor after it, as a step.
spec fn result_step(result: Result<WordToken, Unterminated>, next: Cursor) -> Step {
    Step {
        outcome: match result {
            Ok(token) => Outcome::Token(token@),
            Err(e) => Outcome::Fault(e),
        },
        next,
    }
}

/// What a call of `next` returned, as an outcome.
pub open spec fn outcome_of(result: Option<Result<WordToken, Unterminated>>) -> Outcome {
    match result {
        None => Outcome::End,
        Some(Ok(token)) => Outcome::Token(token@),
        Some(Err(e)) => Outcome::Fault(e),
    }
}

/// An offset that a search found, as a mathematical integer.
spec fn offset_of(found: Option<usize>) -> Option<int> {
    match found {
        Some(j) => Some(j as int),
        None => None,
    }
}

/// A brace group that a search found, by the bytes of its alternatives.
spec fn group_of(found: Option<(Vec<&str>, usize, Quotes)>) -> Option<BraceGroup> {
    match found {
        Some(g) => Some(BraceGroup { elements: texts(g.0@), close: g.1 as int, quotes: g.2 }),
        None => None,
    }
}

fn toggles(q: Quotes, b: u8) -> (r: bool)
    ensures
        r == toggles_quote(q, b),
{
    (b == SINGLE_QUOTE && !q.double) || (b == DOUBLE_QUOTE && !q.single)
}

fn starts(q: Quotes, b: u8) -> (r: bool)
    ensures
        r == starts_token(q, b),
{
    ((b == SPACE || b == OPEN_BRACE) && !q.single && !q.double) || ((b == DOLLAR || b == AT_SIGN)
        && !q.single)
}

fn advance(q: Quotes, b: u8) -> (r: Quotes)
    ensures
        r == after_byte(q, b),
{
    if q.escaped {
        Quotes { escaped: false, single: q.single, double: q.double }
    } else if b == BACKSLASH {
        Quotes { escaped: true, single: q.single, double: q.double }
    } else if b == SINGLE_QUOTE && !q.double {
        Quotes { escaped: q.escaped, single: !q.single, double: q.double }
    } else if b == DOUBLE_QUOTE && !q.single {
        Quotes { escaped: q.escaped, single: q.single, double: !q.double }
    } else {
        q
    }
}

/// Finds the end of the run of `class` bytes that starts at `from`.
fn find_run_end(data: &[u8], from: usize, class: ByteClass) -> (end: usize)
    requires
        from <= data@.len(),
    ensures
        end == run_end(data@, from as int, class),
        from <= end <= data@.len(),
        from < end ==> in_class(class, data@[end - 1]),
{
    let len = data.len();
    let mut i: usize = from;
    while i < len && class_has(class, data[i])
        invariant
            from <= i <= len,
            len == data@.len(),
            run_end(data@, i as int, class) == run_end(data@, from as int, class),
            from < i ==> in_class(class, data@[i - 1]),
        decreases len - i,
    {
        i += 1;
    }
    i
}

/// Finds the `}` that ends a braced variable's name.
fn find_name_close(data: &[u8], from: usize, escaped: bool) -> (close: Option<usize>)
    requires
        from <= data@.len(),
    ensures
        close matches Some(j) ==> from <= j < data@.len() && data@[j as int] == CLOSE_BRACE,
        offset_of(close) == name_close(data@, from as int, escaped),
{
    let len = data.len();
    let mut i: usize = from;
    let mut esc = escaped;
    while i < len
        invariant
            from <= i <= len,
            len == data@.len(),
            name_close(data@, i as int, esc) == name_close(data@, from as int, escaped),
        decreases len - i,
    {
        let b = data[i];
        if esc {
            esc = false;
        } else if b == CLOSE_BRACE {
            return Some(i);
        } else {
            esc = b == BACKSLASH;
        }
        i += 1;
    }
    None
}

/// Finds the delimiter that closes a substitution's body.
fn find_body_close(data: &[u8], from: usize, quotes: Quotes, kind: Substitution) -> (close: Option<
    usize,
>)
    requires
        from <= data@.len(),
    ensures
        close matches Some(j) ==> from <= j < data@.len() && data@[j as int] == kind.closer(),
        offset_of(close) == body_close(data@, from as int, quotes, 0, kind),
{
    let len = data.len();
    let (sigil, opener, closer) = match kind {
        Substitution::Process => (DOLLAR, OPEN_PAREN, CLOSE_PAREN),
        Substitution::Array => (AT_SIGN, OPEN_BRACKET, CLOSE_BRACKET),
    };
    let mut i: usize = from;
    let mut q = quotes;
    let mut level: usize = 0;
    while i < len
        invariant
            from <= i <= len,
            len == data@.len(),
            level <= i - from,
            sigil == kind.sigil(),
            opener == kind.opener(),
            closer == kind.closer(),
            body_close(data@, i as int, q, level as nat, kind) == body_close(
                data@,
                from as int,
                quotes,
                0,
                kind,
            ),
        decreases len - i,
    {
        let b = data[i];
        let live = !q.escaped && !q.single;
        if live && b == closer {
            if level == 0 {
                return Some(i);
            }
            level -= 1;
        } else if live && b == sigil && i + 1 < len && data[i + 1] == opener {
            level += 1;
        } else {
            q = advance(q, b);
        }
        i += 1;
    }
    None
}

/// Reads a brace group's alternatives up to its closing `}`.
fn find_brace_group<'a>(line: &'a str, from: usize, quotes: Quotes) -> (group: Option<
    (Vec<&'a str>, usize, Quotes),
>)
    requires
        is_cut(line.spec_bytes(), from as int),
    ensures
        group matches Some(g) ==> from <= g.1 < line.spec_bytes().len() && line.spec_bytes()[g.1 as int]
            == CLOSE_BRACE,
        group_of(group) == brace_group(
            line.spec_bytes(),
            from as int,
            from as int,
            quotes,
            0,
            Seq::empty(),
        ),
{
    let data = line.as_bytes();
    let len = data.len();
    let mut elements: Vec<&'a str> = Vec::new();
    let mut i: usize = from;
    let mut start: usize = from;
    let mut q = quotes;
    let mut level: usize = 0;
    assert(texts(elements@) =~= Seq::<Seq<u8>>::empty());
    while i < len
        invariant
            from <= start <= i <= len,
            len == data@.len(),
            data@ == line.spec_bytes(),
            is_cut(data@, start as int),
            level <= i - from,
            brace_group(data@, i as int, start as int, q, level as nat, texts(elements@))
                == brace_group(data@, from as int, from as int, quotes, 0, Seq::empty()),
        decreases len - i,
    {
        let b = data[i];
        let bare = !q.escaped && !q.single && !q.double;
        if bare && b == COMMA && level == 0 {
            let ghost before = texts(elements@);
            elements.push(span(line, start, i));
            assert(texts(elements@) =~= before.push(data@.subrange(start as int, i as int)));
            start = i + 1;
        } else if bare && b == OPEN_BRACE {
            level += 1;
        } else if bare && b == CLOSE_BRACE {
            if level == 0 {
                let ghost before = texts(elements@);
                elements.push(span(line, start, i));
                assert(texts(elements@) =~= before.push(data@.subrange(start as int, i as int)));
                return Some((elements, i, q));
            }
            level -= 1;
        } else {
            q = advance(q, b);
        }
        i += 1;
    }
    None
}

/// Finds where plain text that is read from `from` on stops.
fn find_plain_stop(data: &[u8], from: usize, quotes: Quotes) -> (stop: (usize, usize, Quotes))
    requires
        from <= data@.len(),
    ensures
        from <= stop.0 <= stop.1 <= data@.len(),
        stop.0 < data@.len() ==> data@[stop.0 as int] < 128,
        stop.1 <= stop.0 + 1,
        (PlainStop { end: stop.0 as int, next: stop.1 as int, quotes: stop.2 }) == plain_stop(
            data@,
            from as int,
            quotes,
        ),
{
    let len = data.len();
    let mut i: usize = from;
    let mut q = quotes;
    while i < len
        invariant
            from <= i <= len,
            len == data@.len(),
            plain_stop(data@, i as int, q) == plain_stop(data@, from as int, quotes),
        decreases len - i,
    {
        let b = data[i];
        if !q.escaped {
            if toggles(q, b) {
                return (i, i + 1, advance(q, b));
            }
            if starts(q, b) {
                return (i, i, q);
            }
        }
        q = advance(q, b);
        i += 1;
    }
    (i, i, q)
}

/// A lexer over one line: each call of `next` gives one token.
pub struct WordIterator<'a> {
    data: &'a str,
    read: usize,
    flags: Quotes,
}

impl<'a> View for WordIterator<'a> {
    type V = Cursor;

    closed spec fn view(&self) -> Cursor {
        Cursor { data: self.data.spec_bytes(), pos: self.read as int, quotes: self.flags }
    }
}

impl<'a> WordIterator<'a> {
    /// The cursor never leaves the line, it stands at a cut of the
    /// line, and at most one kind of quote is open.
    pub open spec fn wf(&self) -> bool {
        self@.valid() && is_cut(self@.data, self@.pos)
    }

    /// A lexer at the start of `data`, outside every quote.
    pub fn new(data: &'a str) -> (lexer: WordIterator<'a>)
        ensures
            lexer.wf(),
            lexer@ == Cursor::fresh(data.spec_bytes()),
    {
        WordIterator { data, read: 0, flags: Quotes { escaped: false, single: false, double: false } }
    }

    /// A run of spaces that begins at the cursor.
    fn whitespaces(&mut self) -> (token: WordToken<'a>)
        requires
            old(self).wf(),
            old(self)@.pos < old(self)@.data.len(),
            old(self)@.data[old(self)@.pos] < 128,
        ensures
            final(self).wf(),
            token_step(token, final(self)@) == run_step(old(self)@, ByteClass::Space),
    {
        let bytes = self.data.as_bytes();
        let len = bytes.len();
        let start = self.read;
        self.read = find_run_end(bytes, start + 1, ByteClass::Space);
        WordToken::Whitespace(span(self.data, start, self.read))
    }

    /// The `~` at the cursor and the path bytes after it.
    fn tilde(&mut self) -> (token: WordToken<'a>)
        requires
            old(self).wf(),
            old(self)@.pos < old(self)@.data.len(),
            old(self)@.data[old(self)@.pos] < 128,
        ensures
            final(self).wf(),
            token_step(token, final(self)@) == run_step(old(self)@, ByteClass::Path),
    {
        let bytes = self.data.as_bytes();
        let len = bytes.len();
        let start = self.read;
        self.read = find_run_end(bytes, start + 1, ByteClass::Path);
        WordToken::Tilde(span(self.data, start, self.read))
    }

    /// `${name}`, with the cursor at the `$`.
    fn braced_variable(&mut self) -> (result: Result<WordToken<'a>, Unterminated>)
        requires
            old(self).wf(),
            old(self)@.pos + 2 <= old(self)@.data.len(),
            old(self)@.data[old(self)@.pos + 1] < 128,
        ensures
            final(self).wf(),
            result_step(result, final(self)@) == braced_variable_step(old(self)@),
    {
        let bytes = self.data.as_bytes();
        let len = bytes.len();
        let begin = self.read;
        match find_name_close(bytes, begin + 2, self.flags.escaped) {
            Some(close) => {
                self.read = close + 1;
                self.flags.escaped = false;
                Ok(WordToken::Variable(span(self.data, begin + 2, close), self.flags.double))
            },
            None => {
                self.read = len;
                Err(Unterminated { kind: Construct::BracedVariable, start: begin })
            },
        }
    }

    /// `$name`, with the cursor at the `$`.
    fn variable(&mut self) -> (token: WordToken<'a>)
        requires
            old(self).wf(),
            old(self)@.pos < old(self)@.data.len(),
            old(self)@.data[old(self)@.pos] < 128,
        ensures
            final(self).wf(),
            token_step(token, final(self)@) == variable_step(old(self)@, false),
    {
        let bytes = self.data.as_bytes();
        let len = bytes.len();
        let start = self.read + 1;
        self.read = find_run_end(bytes, start, ByteClass::Name);
        WordToken::Variable(span(self.data, start, self.read), self.flags.double)
    }

    /// `@name`, with the cursor at the `@`.
    fn array_variable(&mut self) -> (token: WordToken<'a>)
        requires
            old(self).wf(),
            old(self)@.pos < old(self)@.data.len(),
            old(self)@.data[old(self)@.pos] < 128,
        ensures
            final(self).wf(),
            token_step(token, final(self)@) == variable_step(old(self)@, true),
    {
        let bytes = self.data.as_bytes();
        let len = bytes.len();
        let start = self.read + 1;
        self.read = find_run_end(bytes, start, ByteClass::Name);
        WordToken::ArrayVariable(span(self.data, start, self.read), self.flags.double, Index::All)
    }

    /// `$( ... )`, with the cursor at the `$`.
    fn process(&mut self) -> (result: Result<WordToken<'a>, Unterminated>)
        requires
            old(self).wf(),
            old(self)@.pos + 2 <= old(self)@.data.len(),
            old(self)@.data[old(self)@.pos + 1] < 128,
        ensures
            final(self).wf(),
            result_step(result, final(self)@) == substitution_step(
                old(self)@,
                Substitution::Process,
            ),
    {
        let bytes = self.data.as_bytes();
        let len = bytes.len();
        let begin = self.read;
        match find_body_close(bytes, begin + 2, self.flags, Substitution::Process) {
            Some(close) => {
                self.read = close + 1;
                Ok(WordToken::Process(span(self.data, begin + 2, close), self.flags.double))
            },
            None => {
                self.read = len;
                Err(Unterminated { kind: Construct::Process, start: begin })
            },
        }
    }

    /// `@[ ... ]`, with the cursor at the `@`.
    fn array_process(&mut self) -> (result: Result<WordToken<'a>, Unterminated>)
        requires
            old(self).wf(),
            old(self)@.pos + 2 <= old(self)@.data.len(),
            old(self)@.data[old(self)@.pos + 1] < 128,
        ensures
            final(self).wf(),
            result_step(result, final(self)@) == substitution_step(old(self)@, Substitution::Array),
    {
        let bytes = self.data.as_bytes();
        let len = bytes.len();
        let begin = self.read;
        match find_body_close(bytes, begin + 2, self.flags, Substitution::Array) {
            Some(close) => {
                self.read = close + 1;
                Ok(
                    WordToken::ArrayProcess(
                        span(self.data, begin + 2, close),
                        self.flags.double,
                        Index::All,
                    ),
                )
            },
            None => {
                self.read = len;
                Err(Unterminated { kind: Construct::ArrayProcess, start: begin })
            },
        }
    }

    /// `{a,b,c}`, with the cursor at the `{`.
    fn braces(&mut self) -> (result: Result<WordToken<'a>, Unterminated>)
        requires
            old(self).wf(),
            old(self)@.pos < old(self)@.data.len(),
            old(self)@.data[old(self)@.pos] < 128,
        ensures
            final(self).wf(),
            result_step(result, final(self)@) == brace_step(old(self)@),
    {
        let len = self.data.as_bytes().len();
        let begin = self.read;
        proof {
            lemma_brace_group(self@.data, begin + 1, begin + 1, self.flags, 0, Seq::empty());
        }
        match find_brace_group(self.data, begin + 1, self.flags) {
            Some((elements, close, quotes)) => {
                self.read = close + 1;
                self.flags = quotes;
                Ok(WordToken::Brace(elements))
            },
            None => {
                self.read = len;
                Err(Unterminated { kind: Construct::Brace, start: begin })
            },
        }
    }

    /// Plain text that begins at the cursor.
    fn plain(&mut self) -> (token: WordToken<'a>)
        requires
            old(self).wf(),
            old(self)@.pos < old(self)@.data.len(),
        ensures
            final(self).wf(),
            token_step(token, final(self)@) == plain_step(old(self)@),
    {
        let bytes = self.data.as_bytes();
        let len = bytes.len();
        let start = self.read;
        let first = advance(self.flags, bytes[start]);
        proof {
            lemma_plain_stop(self@.data, start + 1, first);
        }
        let (end, next, quotes) = find_plain_stop(bytes, start + 1, first);
        self.read = next;
        self.flags = quotes;
        WordToken::Normal(span(self.data, start, end))
    }

    /// The next token of the line: `None` when the line is used up,
    /// an error when it ends inside a construct that was never closed.
    ///
    /// The call consumes the bytes between the cursor before it and the
    /// cursor after it: at least one byte for a token, and the whole
    /// rest of the line when it gives no token.
    pub fn next(&mut self) -> (result: Option<Result<WordToken<'a>, Unterminated>>)
        requires
            old(self).wf(),
        ensures
            final(self).wf(),
            outcome_of(result) == step(old(self)@).outcome,
            final(self)@ == step(old(self)@).next,
            final(self)@.data == old(self)@.data,
            old(self)@.pos <= final(self)@.pos,
            result matches Some(Ok(_)) ==> old(self)@.pos < final(self)@.pos,
            !(result matches Some(Ok(_))) ==> final(self)@.pos == final(self)@.data.len(),
    {
        proof {
            lemma_step_advances(self@);
        }
        let bytes = self.data.as_bytes();
        let len = bytes.len();
        while self.read < len && toggles(self.flags, bytes[self.read])
            invariant
                self.wf(),
                len == self@.data.len(),
                bytes@ == self@.data,
                step(self@) == step(old(self)@),
            decreases len - self.read,
        {
            if bytes[self.read] == SINGLE_QUOTE {
                self.flags.single = !self.flags.single;
            } else {
                self.flags.double = !self.flags.double;
            }
            self.read += 1;
        }
        if self.read >= len {
            return None;
        }
        let b = bytes[self.read];
        let unquoted = !self.flags.single && !self.flags.double;
        let follower: Option<u8> = if self.read + 1 < len {
            Some(bytes[self.read + 1])
        } else {
            None
        };
        let result = if b == SPACE && unquoted {
            Ok(self.whitespaces())
        } else if b == TILDE && unquoted {
            Ok(self.tilde())
        } else if b == OPEN_BRACE && unquoted {
            self.braces()
        } else if b == AT_SIGN && !self.flags.single {
            if follower == Some(OPEN_BRACKET) {
                self.array_process()
            } else {
                Ok(self.array_variable())
            }
        } else if b == DOLLAR && !self.flags.single {
            if follower == Some(OPEN_PAREN) {
                self.process()
            } else if follower == Some(OPEN_BRACE) {
                self.braced_variable()
            } else {
                Ok(self.variable())
            }
        } else {
            Ok(self.plain())
        };
        Some(result)
    }
}

} // verus!
