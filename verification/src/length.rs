//! Vega's `length(array)` expression function: the length of a list or of a
//! string, per row of a column or for one scalar value.
//!
//! Lengths are counts; the query engine hands them out as 64-bit floats,
//! which here are the integer counts they hold.  A string's length is its
//! length as Vega (JavaScript) counts it: UTF-16 code units, one for each
//! character of the Basic Multilingual Plane and two for any other.
use vstd::prelude::*;
use vstd::utf8::{char_is_scalar, encode_utf8};

verus! {

/// A scalar argument of `length`.
#[derive(Debug)]
pub enum ScalarArg {
    /// A list: the number of its elements, or null.
    List(Option<usize>),
    /// A string, or null.
    Str(Option<String>),
    /// A value of any other type.
    Other,
}

/// A column argument of `length`.
#[derive(Debug)]
pub enum ArrayArg {
    /// A column of strings.
    Strings(Vec<Option<String>>),
    /// A column of lists that all have `size` elements, with `rows` rows.
    FixedSizeList { size: i32, rows: usize },
    /// A column of lists given by their offsets: row `i` spans
    /// `offsets[i]..offsets[i + 1]`.
    List { offsets: Vec<i32> },
    /// A column of any other type, with `rows` rows.
    Other { rows: usize },
}

/// The argument of `length`.
#[derive(Debug)]
pub enum LengthArg {
    Scalar(ScalarArg),
    Array(ArrayArg),
}

/// The result of `length`: one value or a column.
#[derive(Debug)]
pub enum LengthResult {
    Scalar(Option<i64>),
    Array(Vec<Option<i64>>),
}

/// The number of UTF-16 code units that encode the character `c`.
pub open spec fn utf16_units(c: char) -> int {
    if (c as u32) < 0x10000 {
        1
    } else {
        2
    }
}

/// The length of the characters `s` as Vega counts it, in UTF-16 code units.
pub open spec fn utf16_len(s: Seq<char>) -> int
    decreases s.len(),
{
    if s.len() == 0 {
        0
    } else {
        utf16_len(s.drop_last()) + utf16_units(s.last())
    }
}

/// The length of the string `s` as Vega counts it.
pub open spec fn vega_string_len(s: String) -> int {
    utf16_len(s@)
}

/// A prefix is no longer than the whole.
proof fn lemma_utf16_len_prefix(s: Seq<char>, i: int)
    requires
        0 <= i <= s.len(),
    ensures
        0 <= utf16_len(s.take(i)) <= utf16_len(s),
    decreases s.len(),
{
    if s.len() > 0 {
        if i == s.len() {
            assert(s.take(i) =~= s);
            lemma_utf16_len_prefix(s.drop_last(), i - 1);
        } else {
            assert(s.take(i) =~= s.drop_last().take(i));
            lemma_utf16_len_prefix(s.drop_last(), i);
        }
    }
}

/// `res` is what `length` gives for `arg`.
pub open spec fn is_length_of(arg: LengthArg, res: LengthResult) -> bool {
    match arg {
        LengthArg::Scalar(ScalarArg::List(Some(n))) => res == LengthResult::Scalar(Some(n as i64)),
        LengthArg::Scalar(ScalarArg::Str(Some(s))) => res == LengthResult::Scalar(
            Some(vega_string_len(s) as i64),
        ),
        LengthArg::Scalar(_) => res == LengthResult::Scalar(None),
        LengthArg::Array(ArrayArg::Strings(values)) => match res {
            LengthResult::Array(out) => out@.len() == values@.len() && forall|i: int|
                0 <= i < values@.len() ==> #[trigger] out@[i] == match values@[i] {
                    Some(s) => Some(vega_string_len(s) as i64),
                    None => None,
                },
            _ => false,
        },
        LengthArg::Array(ArrayArg::FixedSizeList { size, rows }) => res == LengthResult::Scalar(
            Some(size as i64),
        ),
        LengthArg::Array(ArrayArg::List { offsets }) => match res {
            LengthResult::Array(out) => out@.len() + 1 == offsets@.len() && forall|i: int|
                0 <= i < out@.len() ==> #[trigger] out@[i] == Some(
                    (offsets@[i + 1] - offsets@[i]) as i64,
                ),
            _ => false,
        },
        LengthArg::Array(ArrayArg::Other { rows }) => match res {
            LengthResult::Array(out) => out@.len() == rows && forall|i: int|
                0 <= i < rows ==> (#[trigger] out@[i]) is None,
            _ => false,
        },
    }
}

/// A character takes two UTF-16 code units exactly when its UTF-8 encoding
/// takes four bytes (it lies beyond the Basic Multilingual Plane), and one
/// otherwise.
pub proof fn lemma_char_length(c: char)
    ensures
        utf16_len(seq![c]) == (if encode_utf8(seq![c]).len() == 4 {
            2int
        } else {
            1int
        }),
{
    broadcast use char_is_scalar;

    assert(seq![c].drop_last() =~= Seq::<char>::empty());
    assert(seq![c].drop_first() =~= Seq::<char>::empty());
    assert(encode_utf8(Seq::<char>::empty()) =~= Seq::<u8>::empty());
    assert(encode_utf8(seq![c]) =~= vstd::utf8::encode_scalar(c as u32));
    assert(seq![c].last() == c);
    assert(utf16_len(seq![c].drop_last()) == 0);
    assert(utf16_len(seq![c]) == utf16_units(c));
    assert(vstd::utf8::is_scalar(c as u32));
}

/// The length of a concatenation is the sum of the lengths.
pub proof fn lemma_utf16_len_concat(s: Seq<char>, t: Seq<char>)
    ensures
        utf16_len(s + t) == utf16_len(s) + utf16_len(t),
    decreases t.len(),
{
    if t.len() == 0 {
        assert(s + t =~= s);
    } else {
        lemma_utf16_len_concat(s, t.drop_last());
        assert((s + t).drop_last() =~= s + t.drop_last());
        assert((s + t).last() == t.last());
    }
}

/// Every character counts at least one unit and at most two.
pub proof fn lemma_utf16_len_bounds(s: Seq<char>)
    ensures
        s.len() <= utf16_len(s) <= 2 * s.len(),
    decreases s.len(),
{
    if s.len() > 0 {
        lemma_utf16_len_bounds(s.drop_last());
    }
}

/// A string of characters of the Basic Multilingual Plane (ASCII among
/// them) is as long as it has characters.
pub proof fn lemma_utf16_len_bmp(s: Seq<char>)
    requires
        forall|i: int| 0 <= i < s.len() ==> (#[trigger] s[i] as u32) < 0x10000,
    ensures
        utf16_len(s) == s.len(),
    decreases s.len(),
{
    if s.len() > 0 {
        assert(s.last() == s[s.len() - 1]);
        lemma_utf16_len_bmp(s.drop_last());
    }
}

/// The length of `s` in UTF-16 code units.
fn string_len(s: &String) -> (n: i64)
    requires
        vega_string_len(*s) <= isize::MAX,
    ensures
        n == vega_string_len(*s),
{
    let t: &str = s.as_str();
    let ghost chars = s@;
    let mut n: i64 = 0;
    proof {
        broadcast use vstd::string::axiom_spec_iter;
    }
    for c in it: t.chars()
        invariant
            chars == s@,
            t@ == chars,
            it.seq() == chars,
            utf16_len(chars) <= isize::MAX,
            n == utf16_len(chars.take(it.index() as int)),
    {
        let ghost k: int = it.index() as int;
        assert(c == chars[k]);
        proof {
            lemma_utf16_len_prefix(chars, k + 1);
            assert(chars.take(k + 1).drop_last() =~= chars.take(k));
            assert(chars.take(k + 1).last() == chars[k]);
        }
        let code: u32 = c as u32;
        if code < 0x10000 {
            n = n + 1;
        } else {
            n = n + 2;
        }
    }
    assert(chars.take(chars.len() as int) =~= chars);
    n
}

/// Every string of the argument has a length of at most `isize::MAX` UTF-16
/// units (as every string that fits in memory does), and a list's length fits in an `i64`.
pub open spec fn strings_fit(arg: LengthArg) -> bool {
    match arg {
        LengthArg::Scalar(ScalarArg::Str(Some(s))) => vega_string_len(s) <= isize::MAX,
        LengthArg::Scalar(ScalarArg::List(Some(n))) => n <= i64::MAX,
        LengthArg::Array(ArrayArg::Strings(values)) => forall|i: int|
            0 <= i < values@.len() ==> (#[trigger] values@[i] matches Some(s) ==> vega_string_len(s)
                <= isize::MAX),
        _ => true,
    }
}

/// Vega's `length`: the number of elements of a list or the length of a string
/// in UTF-16 units; null for null values and for values of other types.  A column of
/// fixed-size lists gives the fixed size as a single value.
pub fn vega_length(arg: &LengthArg) -> (res: LengthResult)
    requires
        arg matches LengthArg::Array(ArrayArg::List { offsets }) ==> offsets@.len() >= 1,
        strings_fit(*arg),
    ensures
        is_length_of(*arg, res),
{
    match arg {
        LengthArg::Scalar(ScalarArg::List(Some(n))) => LengthResult::Scalar(Some(*n as i64)),
        LengthArg::Scalar(ScalarArg::Str(Some(s))) => LengthResult::Scalar(Some(string_len(s))),
        LengthArg::Scalar(_) => LengthResult::Scalar(None),
        LengthArg::Array(ArrayArg::Strings(values)) => {
            let mut out: Vec<Option<i64>> = Vec::new();
            let mut i: usize = 0;
            while i < values.len()
                invariant
                    i <= values.len(),
                    strings_fit(*arg),
                    *arg == LengthArg::Array(ArrayArg::Strings(*values)),
                    out@.len() == i,
                    forall|j: int|
                        0 <= j < i ==> #[trigger] out@[j] == match values@[j] {
                            Some(s) => Some(vega_string_len(s) as i64),
                            None => None,
                        },
                decreases values.len() - i,
            {
                assert(values@[i as int] == values[i as int]);
                match &values[i] {
                    Some(s) => out.push(Some(string_len(s))),
                    None => out.push(None),
                }
                i = i + 1;
            }
            LengthResult::Array(out)
        },
        LengthArg::Array(ArrayArg::FixedSizeList { size, rows }) => LengthResult::Scalar(
            Some(*size as i64),
        ),
        LengthArg::Array(ArrayArg::List { offsets }) => {
            let mut out: Vec<Option<i64>> = Vec::new();
            let mut i: usize = 0;
            while i < offsets.len() - 1
                invariant
                    offsets@.len() >= 1,
                    i + 1 <= offsets@.len(),
                    out@.len() == i,
                    forall|j: int|
                        0 <= j < i ==> #[trigger] out@[j] == Some(
                            (offsets@[j + 1] - offsets@[j]) as i64,
                        ),
                decreases offsets.len() - i,
            {
                out.push(Some(offsets[i + 1] as i64 - offsets[i] as i64));
                i = i + 1;
            }
            LengthResult::Array(out)
        },
        LengthArg::Array(ArrayArg::Other { rows }) => {
            let mut out: Vec<Option<i64>> = Vec::new();
            let mut i: usize = 0;
            while i < *rows
                invariant
                    i <= *rows,
                    out@.len() == i,
                    forall|j: int| 0 <= j < i ==> (#[trigger] out@[j]) is None,
                decreases *rows - i,
            {
                out.push(None);
                i = i + 1;
            }
            LengthResult::Array(out)
        },
    }
}

} // verus!
