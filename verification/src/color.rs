//! ANSI colouring of text for terminal debug output.
use vstd::prelude::*;

use crate::text::{decimal, push_decimal, push_signed_decimal, push_str, signed_decimal};

verus! {

/// The text between an ANSI escape opening `code` and the reset sequence.
pub open spec fn ansi(code: Seq<char>, text: Seq<char>) -> Seq<char> {
    seq!['\x1b', '['] + code + seq!['m'] + text + seq!['\x1b', '[', '0', 'm']
}

/// Wraps text in ANSI escape sequences.
pub trait Color {
    /// Bold.
    fn bold(&self) -> String;

    /// Dim, used for italic-like emphasis.
    fn italic(&self) -> String;

    /// Yellow, for warnings.
    fn warn(&self) -> String;

    /// Red, for errors.
    fn error(&self) -> String;

    /// Grey, for low-priority output.
    fn debug(&self) -> String;

    /// Cyan, for information.
    fn info(&self) -> String;
}

/// Writes `ESC [ code m`, the text, then `ESC [ 0 m`.
fn open_code(code: &str) -> (r: String)
    ensures
        r@ == seq!['\x1b', '['] + code@ + seq!['m'],
{
    let mut r = String::new();
    r.push('\x1b');
    r.push('[');
    push_str(&mut r, code);
    r.push('m');
    r
}

/// Appends the reset sequence.
fn close_code(r: &mut String)
    ensures
        final(r)@ == old(r)@ + seq!['\x1b', '[', '0', 'm'],
{
    r.push('\x1b');
    r.push('[');
    r.push('0');
    r.push('m');
}

/// Wraps a text in an ANSI colour code.
fn wrap_str(code: &str, text: &str) -> (r: String)
    ensures
        r@ == ansi(code@, text@),
{
    let mut r = open_code(code);
    push_str(&mut r, text);
    close_code(&mut r);
    r
}

impl Color for str {
    fn bold(&self) -> (r: String)
        ensures
            r@ == ansi("1"@, self@),
    {
        wrap_str("1", self)
    }

    fn italic(&self) -> (r: String)
        ensures
            r@ == ansi("2"@, self@),
    {
        wrap_str("2", self)
    }

    fn warn(&self) -> (r: String)
        ensures
            r@ == ansi("33"@, self@),
    {
        wrap_str("33", self)
    }

    fn error(&self) -> (r: String)
        ensures
            r@ == ansi("31"@, self@),
    {
        wrap_str("31", self)
    }

    fn debug(&self) -> (r: String)
        ensures
            r@ == ansi("90"@, self@),
    {
        wrap_str("90", self)
    }

    fn info(&self) -> (r: String)
        ensures
            r@ == ansi("36"@, self@),
    {
        wrap_str("36", self)
    }
}

impl Color for String {
    fn bold(&self) -> (r: String)
        ensures
            r@ == ansi("1"@, self@),
    {
        wrap_str("1", self.as_str())
    }

    fn italic(&self) -> (r: String)
        ensures
            r@ == ansi("2"@, self@),
    {
        wrap_str("2", self.as_str())
    }

    fn warn(&self) -> (r: String)
        ensures
            r@ == ansi("33"@, self@),
    {
        wrap_str("33", self.as_str())
    }

    fn error(&self) -> (r: String)
        ensures
            r@ == ansi("31"@, self@),
    {
        wrap_str("31", self.as_str())
    }

    fn debug(&self) -> (r: String)
        ensures
            r@ == ansi("90"@, self@),
    {
        wrap_str("90", self.as_str())
    }

    fn info(&self) -> (r: String)
        ensures
            r@ == ansi("36"@, self@),
    {
        wrap_str("36", self.as_str())
    }
}

/// Wraps a number's decimal notation in an ANSI colour code.
fn wrap_u64(code: &str, n: u64) -> (r: String)
    ensures
        r@ == ansi(code@, decimal(n as nat)),
{
    let mut r = open_code(code);
    push_decimal(&mut r, n);
    close_code(&mut r);
    r
}

/// Wraps a signed number's decimal notation in an ANSI colour code.
fn wrap_i64(code: &str, n: i64) -> (r: String)
    ensures
        r@ == ansi(code@, signed_decimal(n as int)),
{
    let mut r = open_code(code);
    push_signed_decimal(&mut r, n);
    close_code(&mut r);
    r
}

impl Color for u64 {
    fn bold(&self) -> (r: String)
        ensures
            r@ == ansi("1"@, decimal(*self as nat)),
    {
        wrap_u64("1", *self)
    }

    fn italic(&self) -> (r: String)
        ensures
            r@ == ansi("2"@, decimal(*self as nat)),
    {
        wrap_u64("2", *self)
    }

    fn warn(&self) -> (r: String)
        ensures
            r@ == ansi("33"@, decimal(*self as nat)),
    {
        wrap_u64("33", *self)
    }

    fn error(&self) -> (r: String)
        ensures
            r@ == ansi("31"@, decimal(*self as nat)),
    {
        wrap_u64("31", *self)
    }

    fn debug(&self) -> (r: String)
        ensures
            r@ == ansi("90"@, decimal(*self as nat)),
    {
        wrap_u64("90", *self)
    }

    fn info(&self) -> (r: String)
        ensures
            r@ == ansi("36"@, decimal(*self as nat)),
    {
        wrap_u64("36", *self)
    }
}

impl Color for i64 {
    fn bold(&self) -> (r: String)
        ensures
            r@ == ansi("1"@, signed_decimal(*self as int)),
    {
        wrap_i64("1", *self)
    }

    fn italic(&self) -> (r: String)
        ensures
            r@ == ansi("2"@, signed_decimal(*self as int)),
    {
        wrap_i64("2", *self)
    }

    fn warn(&self) -> (r: String)
        ensures
            r@ == ansi("33"@, signed_decimal(*self as int)),
    {
        wrap_i64("33", *self)
    }

    fn error(&self) -> (r: String)
        ensures
            r@ == ansi("31"@, signed_decimal(*self as int)),
    {
        wrap_i64("31", *self)
    }

    fn debug(&self) -> (r: String)
        ensures
            r@ == ansi("90"@, signed_decimal(*self as int)),
    {
        wrap_i64("90", *self)
    }

    fn info(&self) -> (r: String)
        ensures
            r@ == ansi("36"@, signed_decimal(*self as int)),
    {
        wrap_i64("36", *self)
    }
}

} // verus!
