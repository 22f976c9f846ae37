//! Byte classes and maximal runs of one class.

use vstd::prelude::*;

verus! {

pub const BACKSLASH: u8 = 92;
pub const SINGLE_QUOTE: u8 = 39;
pub const DOUBLE_QUOTE: u8 = 34;
pub const SPACE: u8 = 32;
pub const TILDE: u8 = 126;
pub const DOLLAR: u8 = 36;
pub const AT_SIGN: u8 = 64;
pub const COMMA: u8 = 44;
pub const OPEN_BRACE: u8 = 123;
pub const CLOSE_BRACE: u8 = 125;
pub const OPEN_PAREN: u8 = 40;
pub const CLOSE_PAREN: u8 = 41;
pub const OPEN_BRACKET: u8 = 91;
pub const CLOSE_BRACKET: u8 = 93;

/// The classes of bytes of which a sub-lexer takes a maximal run.
#[derive(Clone, Copy, Debug, PartialEq, Eq, Structural)]
pub enum ByteClass {
    /// The space character alone.
    Space,
    /// What a variable's name is made of: ASCII letters, digits, `_`.
    Name,
    /// What follows a tilde: name bytes and `-`, `.`, `/`.
    Path,
}

/// ASCII letters, digits and the underscore.
pub open spec fn is_name_byte(b: u8) -> bool {
    (48 <= b <= 57) || (65 <= b <= 90) || (97 <= b <= 122) || b == 95
}

/// Name bytes and the punctuation of user names and paths.
pub open spec fn is_path_byte(b: u8) -> bool {
    is_name_byte(b) || b == 45 || b == 46 || b == 47
}

/// The bytes of each class.
pub open spec fn in_class(class: ByteClass, b: u8) -> bool {
    match class {
        ByteClass::Space => b == SPACE,
        ByteClass::Name => is_name_byte(b),
        ByteClass::Path => is_path_byte(b),
    }
}

/// Where the maximal run of `class` bytes that starts at `from` ends:
/// the first offset at or after `from` whose byte is outside the class,
/// or the end of the data.
pub open spec fn run_end(data: Seq<u8>, from: int, class: ByteClass) -> int
    decreases data.len() - from,
{
    if 0 <= from < data.len() && in_class(class, data[from]) {
        run_end(data, from + 1, class)
    } else {
        from
    }
}

/// A run ends inside the data, holds only bytes of its class, and cannot
/// be extended.
pub proof fn lemma_run_end(data: Seq<u8>, from: int, class: ByteClass)
    requires
        0 <= from <= data.len(),
    ensures
        from <= run_end(data, from, class) <= data.len(),
        forall|k: int| from <= k < run_end(data, from, class) ==> in_class(class, #[trigger] data[k]),
        run_end(data, from, class) < data.len() ==> !in_class(
            class,
            data[run_end(data, from, class)],
        ),
    decreases data.len() - from,
{
    if from < data.len() && in_class(class, data[from]) {
        lemma_run_end(data, from + 1, class);
    }
}

fn name_byte(b: u8) -> (r: bool)
    ensures
        r == is_name_byte(b),
{
    (48 <= b && b <= 57) || (65 <= b && b <= 90) || (97 <= b && b <= 122) || b == 95
}

/// Whether `b` belongs to `class`.
pub fn class_has(class: ByteClass, b: u8) -> (r: bool)
    ensures
        r == in_class(class, b),
{
    match class {
        ByteClass::Space => b == SPACE,
        ByteClass::Name => name_byte(b),
        ByteClass::Path => name_byte(b) || b == 45 || b == 46 || b == 47,
    }
}

} // verus!
