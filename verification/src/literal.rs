//! How a literal of the template is rebuilt.
//!
//! A literal that carries its own type (a suffix, quotes) is rebuilt as it
//! was written. A bare number must not pick up a suffix on the way, so it is
//! rebuilt from its value by the narrowest of three integer constructors,
//! or as a floating-point number when it is no integer that fits.

use vstd::prelude::*;

verus! {

/// How the program rebuilds one literal.
#[derive(Clone, Copy, Debug, PartialEq, Eq, Structural)]
pub enum LiteralKind {
    /// As written: the text ends in a type suffix, a quote or a `#`.
    Verbatim,
    /// A bare integer that fits 32 signed bits.
    Int32(i32),
    /// A bare integer that fits 64 signed bits, but not 32.
    Int64(i64),
    /// A bare integer that fits 64 unsigned bits, but not 64 signed ones.
    UInt64(u64),
    /// Anything else: a bare floating-point number.
    Float,
}

/// `text` ends in `suffix`.
pub open spec fn ends_with(text: Seq<char>, suffix: Seq<char>) -> bool {
    suffix.len() <= text.len() && text.subrange(text.len() - suffix.len(), text.len() as int)
        == suffix
}

/// The text ends in one of the endings after which a literal is rebuilt as
/// written. This looks at the last characters only: a hexadecimal number
/// whose digits happen to end in `f32` counts as well.
pub open spec fn is_verbatim(text: Seq<char>) -> bool {
    ||| ends_with(text, "u8"@)
    ||| ends_with(text, "u16"@)
    ||| ends_with(text, "u32"@)
    ||| ends_with(text, "u64"@)
    ||| ends_with(text, "u128"@)
    ||| ends_with(text, "usize"@)
    ||| ends_with(text, "i8"@)
    ||| ends_with(text, "i16"@)
    ||| ends_with(text, "i32"@)
    ||| ends_with(text, "i64"@)
    ||| ends_with(text, "i128"@)
    ||| ends_with(text, "isize"@)
    ||| ends_with(text, "f32"@)
    ||| ends_with(text, "f64"@)
    ||| ends_with(text, "\""@)
    ||| ends_with(text, "'"@)
    ||| ends_with(text, "#"@)
}

pub open spec fn is_digit(c: char) -> bool {
    '0' <= c <= '9'
}

pub open spec fn digit_value(c: char) -> int {
    c as int - '0' as int
}

pub open spec fn all_digits(s: Seq<char>) -> bool {
    forall|i: int| 0 <= i < s.len() ==> is_digit(#[trigger] s[i])
}

/// The number that a run of decimal digits writes.
pub open spec fn digits_value(s: Seq<char>) -> int
    decreases s.len(),
{
    if s.len() == 0 {
        0
    } else {
        digits_value(s.drop_last()) * 10 + digit_value(s.last())
    }
}

/// The integer that `text` writes in decimal: one or more digits, after at
/// most one sign. Nothing else is an integer, whatever its size.
pub open spec fn decimal(text: Seq<char>) -> Option<int> {
    if text.len() > 0 && (text[0] == '+' || text[0] == '-') {
        let digits = text.subrange(1, text.len() as int);
        if digits.len() > 0 && all_digits(digits) {
            Some(
                if text[0] == '-' {
                    -digits_value(digits)
                } else {
                    digits_value(digits)
                },
            )
        } else {
            None
        }
    } else if text.len() > 0 && all_digits(text) {
        Some(digits_value(text))
    } else {
        None
    }
}

/// The constructor for a bare number: the first of signed 32 bits, signed
/// 64 bits and unsigned 64 bits that holds it.
pub open spec fn number_kind(value: Option<int>) -> LiteralKind {
    match value {
        Some(v) => if i32::MIN <= v <= i32::MAX {
            LiteralKind::Int32(v as i32)
        } else if i64::MIN <= v <= i64::MAX {
            LiteralKind::Int64(v as i64)
        } else if 0 <= v <= u64::MAX {
            LiteralKind::UInt64(v as u64)
        } else {
            LiteralKind::Float
        },
        None => LiteralKind::Float,
    }
}

/// How the literal written as `text` is rebuilt.
pub open spec fn classify_spec(text: Seq<char>) -> LiteralKind {
    if is_verbatim(text) {
        LiteralKind::Verbatim
    } else {
        number_kind(decimal(text))
    }
}

/// Whether `text` ends in `suffix`.
pub fn has_suffix(text: &str, suffix: &str) -> (found: bool)
    ensures
        found == ends_with(text@, suffix@),
{
    let n = text.unicode_len();
    let m = suffix.unicode_len();
    if m > n {
        return false;
    }
    let start: usize = n - m;
    let mut i: usize = 0;
    while i < m
        invariant
            n == text@.len(),
            m == suffix@.len(),
            start == n - m,
            i <= m,
            forall|j: int| 0 <= j < i ==> text@[start + j] == suffix@[j],
        decreases m - i,
    {
        if text.get_char(start + i) != suffix.get_char(i) {
            assert(text@.subrange(start as int, n as int)[i as int] != suffix@[i as int]);
            return false;
        }
        i += 1;
    }
    assert(text@.subrange(start as int, n as int) =~= suffix@);
    true
}

/// Whether a literal written as `text` is rebuilt as written.
pub fn is_verbatim_text(text: &str) -> (found: bool)
    ensures
        found == is_verbatim(text@),
{
    has_suffix(text, "u8") || has_suffix(text, "u16") || has_suffix(text, "u32") || has_suffix(
        text,
        "u64",
    ) || has_suffix(text, "u128") || has_suffix(text, "usize") || has_suffix(text, "i8")
        || has_suffix(text, "i16") || has_suffix(text, "i32") || has_suffix(text, "i64")
        || has_suffix(text, "i128") || has_suffix(text, "isize") || has_suffix(text, "f32")
        || has_suffix(text, "f64") || has_suffix(text, "\"") || has_suffix(text, "'")
        || has_suffix(text, "#")
}

/// A run of digits writes no negative number.
pub proof fn lemma_digits_value_nonnegative(s: Seq<char>)
    requires
        all_digits(s),
    ensures
        digits_value(s) >= 0,
    decreases s.len(),
{
    if s.len() > 0 {
        lemma_digits_value_nonnegative(s.drop_last());
    }
}

/// A run of digits writes at least what any of its beginnings writes.
pub proof fn lemma_digits_value_prefix(s: Seq<char>, k: int)
    requires
        all_digits(s),
        0 <= k <= s.len(),
    ensures
        digits_value(s.subrange(0, k)) <= digits_value(s),
    decreases s.len() - k,
{
    if k == s.len() {
        assert(s.subrange(0, k) =~= s);
    } else {
        let t = s.drop_last();
        lemma_digits_value_nonnegative(t);
        if k == t.len() {
            assert(s.subrange(0, k) =~= t);
        } else {
            lemma_digits_value_prefix(t, k);
            assert(t.subrange(0, k) =~= s.subrange(0, k));
        }
    }
}

/// The number written by the digits of `text` from `from` on, if they are
/// digits, at least one, and the number fits 64 unsigned bits.
fn parse_digits(text: &str, from: usize) -> (value: Option<u64>)
    requires
        from <= text@.len(),
    ensures
        ({
            let digits = text@.subrange(from as int, text@.len() as int);
            match value {
                Some(v) => digits.len() > 0 && all_digits(digits) && digits_value(digits) == v,
                None => !(digits.len() > 0 && all_digits(digits)) || digits_value(digits)
                    > u64::MAX,
            }
        }),
{
    let n = text.unicode_len();
    if from >= n {
        return None;
    }
    let ghost digits = text@.subrange(from as int, n as int);
    let mut i: usize = from;
    let mut acc: u64 = 0;
    while i < n
        invariant
            n == text@.len(),
            from <= i <= n,
            from < n,
            digits == text@.subrange(from as int, n as int),
            all_digits(digits.subrange(0, i - from)),
            acc == digits_value(digits.subrange(0, i - from)),
        decreases n - i,
    {
        let c = text.get_char(i);
        let ghost before = digits.subrange(0, i - from);
        let ghost upto = digits.subrange(0, i - from + 1);
        assert(upto.drop_last() =~= before);
        assert(upto.last() == c);
        if c < '0' || c > '9' {
            assert(!is_digit(digits[i - from]));
            return None;
        }
        let d: u64 = (c as u64) - ('0' as u64);
        assert(d == digit_value(c));
        assert(all_digits(upto)) by {
            assert forall|j: int| 0 <= j < upto.len() implies is_digit(#[trigger] upto[j]) by {
                if j < before.len() {
                    assert(upto[j] == before[j]);
                }
            }
        }
        if acc > (u64::MAX - d) / 10 {
            proof {
                if all_digits(digits) {
                    lemma_digits_value_prefix(digits, i - from + 1);
                }
            }
            return None;
        }
        acc = acc * 10 + d;
        i += 1;
    }
    assert(digits.subrange(0, n - from) =~= digits);
    Some(acc)
}

/// Decides how a literal written as `text` is rebuilt. A text that ends in
/// a type suffix, a quote or a `#` is always rebuilt as written.
pub fn classify(text: &str) -> (kind: LiteralKind)
    ensures
        kind == classify_spec(text@),
        is_verbatim(text@) ==> kind == LiteralKind::Verbatim,
{
    if is_verbatim_text(text) {
        return LiteralKind::Verbatim;
    }
    let n = text.unicode_len();
    if n == 0 {
        return LiteralKind::Float;
    }
    let first = text.get_char(0);
    let signed = first == '+' || first == '-';
    let from: usize = if signed {
        1
    } else {
        0
    };
    proof {
        if !signed {
            assert(text@.subrange(0, n as int) =~= text@);
        }
    }
    match parse_digits(text, from) {
        None => {
            proof {
                let digits = text@.subrange(from as int, n as int);
                if all_digits(digits) {
                    lemma_digits_value_nonnegative(digits);
                }
            }
            LiteralKind::Float
        },
        Some(magnitude) => {
            let value: i128 = if first == '-' {
                0 - (magnitude as i128)
            } else {
                magnitude as i128
            };
            if -2147483648 <= value && value <= 2147483647 {
                LiteralKind::Int32(value as i32)
            } else if -9223372036854775808 <= value && value <= 9223372036854775807 {
                LiteralKind::Int64(value as i64)
            } else if 0 <= value {
                LiteralKind::UInt64(magnitude)
            } else {
                LiteralKind::Float
            }
        },
    }
}

} // verus!
