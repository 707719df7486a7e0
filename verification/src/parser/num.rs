//! Reading number literals: their digits, their suffix and their value.
use vstd::prelude::*;
use vstd::string::StringSliceAdditionalSpecFns;

use vstd::utf8::{
    decode_utf8, encode_utf8, encode_utf8_decode_utf8, is_char_boundary,
    is_char_boundary_iff_not_is_continuation_byte, is_char_boundary_start_end_of_seq,
};

use crate::ast::{FloatTy, IntTy, LiteralSuffix, UIntTy};
use crate::lexer::num::{NumberKind, ReadNumber};
use crate::text::{push_char, str_chars, str_eq, str_slice};

verus! {

/// The value of a digit byte: `0`-`9`, then `a`-`z` or `A`-`Z` for ten to thirty-five; any
/// other byte is no digit of any radix and gets thirty-six.
pub open spec fn digit_of(b: u8) -> int {
    if 0x30u8 <= b <= 0x39u8 {
        b - 48
    } else if 0x61u8 <= b <= 0x7Au8 {
        b - 87
    } else if 0x41u8 <= b <= 0x5Au8 {
        b - 55
    } else {
        36
    }
}

/// The value of a run of digit bytes in `radix`.
pub open spec fn digits_value(d: Seq<u8>, radix: int) -> int
    decreases d.len(),
{
    if d.len() == 0 {
        0
    } else {
        digits_value(d.drop_last(), radix) * radix + digit_of(d.last())
    }
}

/// Every byte of `d` is a digit of `radix`.
pub open spec fn all_digits(d: Seq<u8>, radix: int) -> bool {
    forall|i: int| 0 <= i < d.len() ==> digit_of(#[trigger] d[i]) < radix
}

/// The integer that `b` spells in `radix`, with an optional leading `+` or `-`, when it fits in
/// an `i128` (what `i128::from_str_radix` accepts).
pub open spec fn parsed_i128(b: Seq<u8>, radix: int) -> Option<i128> {
    let neg = b.len() > 0 && b[0] == 0x2Du8;
    let signed = b.len() > 0 && (b[0] == 0x2Du8 || b[0] == 0x2Bu8);
    let digits = if signed {
        b.skip(1)
    } else {
        b
    };
    let v = if neg {
        -digits_value(digits, radix)
    } else {
        digits_value(digits, radix)
    };
    if digits.len() == 0 || !all_digits(digits, radix) || v < i128::MIN || v > i128::MAX {
        None
    } else {
        Some(v as i128)
    }
}

proof fn lemma_digits_monotone(d: Seq<u8>, radix: int, k: int)
    requires
        2 <= radix <= 36,
        all_digits(d, radix),
        0 <= k <= d.len(),
    ensures
        0 <= digits_value(d.take(k), radix) <= digits_value(d, radix),
    decreases d.len(),
{
    if d.len() > 0 {
        let prefix = d.drop_last();
        assert(digit_of(d[d.len() - 1]) < radix);
        if k < d.len() {
            assert(d.take(k) =~= prefix.take(k));
            lemma_digits_monotone(prefix, radix, k);
        } else {
            assert(d.take(k) =~= d);
            lemma_digits_monotone(prefix, radix, prefix.len() as int);
            assert(prefix.take(prefix.len() as int) =~= prefix);
        }
        let v = digits_value(prefix, radix);
        assert(0 <= v ==> v <= v * radix + digit_of(d.last())) by (nonlinear_arith)
            requires
                2 <= radix,
                0 <= digit_of(d.last()),
        ;
    } else {
        assert(d.take(k) =~= d);
    }
}

/// The value of a digit byte in 32 bits.
fn digit_value(b: u8) -> (r: u32)
    ensures
        r == digit_of(b),
{
    if 0x30u8 <= b && b <= 0x39u8 {
        (b - 0x30u8) as u32
    } else if 0x61u8 <= b && b <= 0x7Au8 {
        (b - 0x57u8) as u32
    } else if 0x41u8 <= b && b <= 0x5Au8 {
        (b - 0x37u8) as u32
    } else {
        36
    }
}

/// The integer a literal's text spells in decimal, as `str::parse::<i128>` reads it.
pub fn parse_i128(text: &str) -> (r: Option<i128>)
    ensures
        r == parsed_i128(text.spec_bytes(), 10),
{
    parse_i128_radix(text, 10)
}

/// The integer a text spells in `radix`, as `i128::from_str_radix` reads it.
pub fn parse_i128_radix(text: &str, radix: u32) -> (r: Option<i128>)
    requires
        2 <= radix <= 36,
    ensures
        r == parsed_i128(text.spec_bytes(), radix as int),
{
    let b = text.as_bytes();
    let ghost bs = b@;
    let ghost rd = radix as int;
    let neg = b.len() > 0 && b[0] == 0x2Du8;
    let start: usize = if b.len() > 0 && (b[0] == 0x2Du8 || b[0] == 0x2Bu8) {
        1
    } else {
        0
    };
    let ghost digits = bs.skip(start as int);
    proof {
        if start == 0 {
            assert(digits =~= bs);
        }
    }
    if start == b.len() {
        return None;
    }
    let mut acc: i128 = 0;
    let mut i: usize = start;
    proof {
        assert(digits.take(0) =~= Seq::<u8>::empty());
    }
    while i < b.len()
        invariant
            b@ == bs,
            bs == text.spec_bytes(),
            rd == radix as int,
            2 <= radix <= 36,
            neg == (bs.len() > 0 && bs[0] == 0x2Du8),
            start == (if bs.len() > 0 && (bs[0] == 0x2Du8 || bs[0] == 0x2Bu8) {
                1int
            } else {
                0int
            }),
            start < bs.len(),
            start <= i <= bs.len(),
            digits == bs.skip(start as int),
            digits == (if start == 1 {
                bs.skip(1)
            } else {
                bs
            }),
            all_digits(digits.take(i - start), rd),
            acc == if neg {
                -digits_value(digits.take(i - start), rd)
            } else {
                digits_value(digits.take(i - start), rd)
            },
        decreases bs.len() - i,
    {
        let byte = b[i];
        let ghost t = digits.take(i - start + 1);
        proof {
            assert(t.drop_last() =~= digits.take(i - start));
            assert(t.last() == byte);
        }
        let d = digit_value(byte);
        if d >= radix {
            proof {
                assert(digits[i - start] == bs[i as int]);
                assert(!(digit_of(digits[i - start]) < rd));
            }
            return None;
        }
        let di = d as i128;
        let next = match acc.checked_mul(radix as i128) {
            Some(scaled) => if neg {
                scaled.checked_sub(di)
            } else {
                scaled.checked_add(di)
            },
            None => None,
        };
        match next {
            Some(v) => {
                acc = v;
                proof {
                    let pv = digits_value(digits.take(i - start), rd);
                    assert((-pv) * rd == -(pv * rd)) by (nonlinear_arith);
                    assert(digits_value(t, rd) == digits_value(digits.take(i - start), rd) * rd
                        + digit_of(byte));
                    assert(digits[i - start] == bs[i as int]);
                    assert(all_digits(t, rd));
                }
            },
            None => {
                proof {
                    let prev = digits.take(i - start);
                    let pv = digits_value(prev, rd);
                    assert((-pv) * rd == -(pv * rd)) by (nonlinear_arith);
                    assert(digits_value(t, rd) == digits_value(prev, rd) * rd + digit_of(byte));
                    lemma_digits_monotone(prev, rd, 0);
                    assert(prev.take(0) =~= Seq::<u8>::empty());
                    if all_digits(digits, rd) {
                        lemma_digits_monotone(digits, rd, i - start + 1);
                        if neg {
                            assert(-digits_value(digits, rd) < i128::MIN);
                        } else {
                            assert(digits_value(digits, rd) > i128::MAX);
                        }
                    }
                }
                return None;
            },
        }
        i += 1;
    }
    proof {
        assert(digits.take(bs.len() - start) =~= digits);
    }
    Some(acc)
}

/// `s` with every `_` left out.
pub open spec fn without_separators(s: Seq<char>) -> Seq<char>
    decreases s.len(),
{
    if s.len() == 0 {
        Seq::empty()
    } else if s.last() == '_' {
        without_separators(s.drop_last())
    } else {
        without_separators(s.drop_last()).push(s.last())
    }
}

/// The digits with the `_` separators left out.
pub fn clean_digit_str(text: &str) -> (r: String)
    ensures
        r@ == without_separators(text@),
{
    let chars = str_chars(text);
    let mut out = String::new();
    let mut i: usize = 0;
    proof {
        assert(chars@.take(0) =~= Seq::<char>::empty());
    }
    while i < chars.len()
        invariant
            i <= chars@.len(),
            chars@ == text@,
            out@ == without_separators(chars@.take(i as int)),
        decreases chars@.len() - i,
    {
        let c = chars[i];
        if c != '_' {
            push_char(&mut out, c);
        }
        proof {
            let t = chars@.take(i + 1);
            assert(t.drop_last() =~= chars@.take(i as int));
            assert(t.last() == c);
        }
        i += 1;
    }
    proof {
        assert(chars@.take(chars@.len() as int) =~= chars@);
    }
    out
}

/// Where the digits of a number read from `text` start: after its radix prefix, if any.
pub open spec fn digits_start(num: ReadNumber) -> int {
    match num.prefix_end {
        Some(idx) => idx + 1,
        None => 0,
    }
}

/// Where the digits of a number read from `text` end: where its suffix starts, if any.
pub open spec fn digits_end(num: ReadNumber, len: int) -> int {
    match num.suffix_start {
        Some(idx) => idx as int,
        None => len,
    }
}

/// Whether `num` marks out the prefix, digits and suffix of `text` at character boundaries.
pub open spec fn splits(text: Seq<u8>, num: ReadNumber) -> bool {
    let from = digits_start(num);
    let to = digits_end(num, text.len() as int);
    &&& 0 <= from <= to <= text.len()
    &&& is_char_boundary(text, from)
    &&& is_char_boundary(text, to)
}

/// The radix prefix, the digits and the suffix of a number read from `text`.
pub fn split_digit_str<'a>(text: &'a str, num: &ReadNumber) -> (r: (
    Option<&'a str>,
    &'a str,
    Option<&'a str>,
))
    requires
        splits(text.spec_bytes(), *num),
    ensures
        match num.prefix_end {
            Some(idx) => r.0 matches Some(p) && p.spec_bytes() == text.spec_bytes().subrange(
                0,
                idx + 1,
            ),
            None => r.0 is None,
        },
        r.1.spec_bytes() == text.spec_bytes().subrange(
            digits_start(*num),
            digits_end(*num, text.spec_bytes().len() as int),
        ),
        match num.suffix_start {
            Some(idx) => r.2 matches Some(s) && s.spec_bytes() == text.spec_bytes().subrange(
                idx as int,
                text.spec_bytes().len() as int,
            ),
            None => r.2 is None,
        },
{
    proof {
        crate::text::lemma_str_valid(text);
        crate::text::lemma_end_boundary(text.spec_bytes());
    }
    let len = text.as_bytes().len();
    let from: usize = match num.prefix_end {
        Some(idx) => idx + 1,
        None => 0,
    };
    let to: usize = match num.suffix_start {
        Some(idx) => idx,
        None => len,
    };
    let prefix = match num.prefix_end {
        Some(_) => Some(str_slice(text, 0, from)),
        None => None,
    };
    let suffix = match num.suffix_start {
        Some(_) => Some(str_slice(text, to, len)),
        None => None,
    };
    (prefix, str_slice(text, from, to), suffix)
}

/// A suffix that names no type.
#[derive(Debug, Clone, PartialEq, Eq)]
pub enum ParseSuffixError {
    Invalid(String),
}

/// The type a literal suffix names, if it names one.
pub open spec fn suffix_named(s: Seq<char>) -> Option<LiteralSuffix> {
    if s == "i8"@ {
        Some(LiteralSuffix::Int(IntTy::I8))
    } else if s == "i16"@ {
        Some(LiteralSuffix::Int(IntTy::I16))
    } else if s == "i32"@ {
        Some(LiteralSuffix::Int(IntTy::I32))
    } else if s == "i64"@ {
        Some(LiteralSuffix::Int(IntTy::I64))
    } else if s == "u8"@ {
        Some(LiteralSuffix::UInt(UIntTy::U8))
    } else if s == "u16"@ {
        Some(LiteralSuffix::UInt(UIntTy::U16))
    } else if s == "u32"@ {
        Some(LiteralSuffix::UInt(UIntTy::U32))
    } else if s == "u64"@ {
        Some(LiteralSuffix::UInt(UIntTy::U64))
    } else if s == "f16"@ {
        Some(LiteralSuffix::Float(FloatTy::F16))
    } else if s == "f32"@ {
        Some(LiteralSuffix::Float(FloatTy::F32))
    } else if s == "f64"@ {
        Some(LiteralSuffix::Float(FloatTy::F64))
    } else {
        None
    }
}

/// The type a literal suffix names; any other suffix is refused with its text.
pub fn parse_suffix(suffix: &str) -> (r: Result<LiteralSuffix, ParseSuffixError>)
    ensures
        match suffix_named(suffix@) {
            Some(t) => r == Ok::<LiteralSuffix, ParseSuffixError>(t),
            None => r matches Err(ParseSuffixError::Invalid(text)) && text@ == suffix@,
        },
{
    if str_eq(suffix, "i8") {
        Ok(LiteralSuffix::Int(IntTy::I8))
    } else if str_eq(suffix, "i16") {
        Ok(LiteralSuffix::Int(IntTy::I16))
    } else if str_eq(suffix, "i32") {
        Ok(LiteralSuffix::Int(IntTy::I32))
    } else if str_eq(suffix, "i64") {
        Ok(LiteralSuffix::Int(IntTy::I64))
    } else if str_eq(suffix, "u8") {
        Ok(LiteralSuffix::UInt(UIntTy::U8))
    } else if str_eq(suffix, "u16") {
        Ok(LiteralSuffix::UInt(UIntTy::U16))
    } else if str_eq(suffix, "u32") {
        Ok(LiteralSuffix::UInt(UIntTy::U32))
    } else if str_eq(suffix, "u64") {
        Ok(LiteralSuffix::UInt(UIntTy::U64))
    } else if str_eq(suffix, "f16") {
        Ok(LiteralSuffix::Float(FloatTy::F16))
    } else if str_eq(suffix, "f32") {
        Ok(LiteralSuffix::Float(FloatTy::F32))
    } else if str_eq(suffix, "f64") {
        Ok(LiteralSuffix::Float(FloatTy::F64))
    } else {
        Err(ParseSuffixError::Invalid(suffix.to_string()))
    }
}

/// Why a number literal has no value.
#[derive(Debug, Clone, PartialEq, Eq)]
pub enum ParseNumberError {
    /// Its suffix names no type.
    Suffix(ParseSuffixError),
    /// Its digits spell no integer of the literal's range.
    Int,
}


/// The radix a number of kind `kind` is written in.
pub open spec fn radix_of(kind: NumberKind) -> int {
    match kind {
        NumberKind::Hex => 16,
        _ => 10,
    }
}

/// The digits of a number literal `text` read as `num`, with the `_` separators left out.
pub open spec fn literal_digits(text: Seq<u8>, num: ReadNumber) -> Seq<u8> {
    encode_utf8(
        without_separators(
            decode_utf8(text.subrange(digits_start(num), digits_end(num, text.len() as int))),
        ),
    )
}

/// The integer a number literal `text` read as `num` stands for: its digits in its radix,
/// where they fit in an `i128`. A floating point number has none.
pub open spec fn literal_int(text: Seq<u8>, num: ReadNumber) -> Option<i128> {
    if !splits(text, num) || num.kind is Float {
        None
    } else {
        parsed_i128(literal_digits(text, num), radix_of(num.kind))
    }
}

/// The text of the suffix of a number literal `text` read as `num`, if it has one.
pub open spec fn literal_suffix_text(text: Seq<u8>, num: ReadNumber) -> Option<Seq<char>> {
    match num.suffix_start {
        Some(q) => Some(decode_utf8(text.subrange(q as int, text.len() as int))),
        None => None,
    }
}

/// The value and the suffix of a number literal `text` read as `num`, when both can be read.
pub open spec fn literal_reading(text: Seq<u8>, num: ReadNumber) -> Option<(i128, Option<LiteralSuffix>)> {
    match literal_int(text, num) {
        None => None,
        Some(v) => match literal_suffix_text(text, num) {
            None => Some((v, None)),
            Some(s) => match suffix_named(s) {
                Some(t) => Some((v, Some(t))),
                None => None,
            },
        },
    }
}

/// Whether `i` starts a character of `text` or is its end.
fn char_boundary(text: &str, i: usize) -> (r: bool)
    ensures
        r == is_char_boundary(text.spec_bytes(), i as int),
{
    proof {
        crate::text::lemma_str_valid(text);
        is_char_boundary_start_end_of_seq(text.spec_bytes());
    }
    let b = text.as_bytes();
    if i < b.len() {
        proof {
            is_char_boundary_iff_not_is_continuation_byte(text.spec_bytes(), i as int);
        }
        !(0x80u8 <= b[i] && b[i] <= 0xBFu8)
    } else {
        i == b.len()
    }
}

/// Whether `num` marks out the prefix, digits and suffix of `text` at character boundaries.
fn splits_text(text: &str, num: &ReadNumber) -> (r: bool)
    ensures
        r == splits(text.spec_bytes(), *num),
{
    let len = text.as_bytes().len();
    let from: usize = match num.prefix_end {
        Some(idx) => {
            if idx >= len {
                return false;
            }
            idx + 1
        },
        None => 0,
    };
    let to: usize = match num.suffix_start {
        Some(idx) => idx,
        None => len,
    };
    from <= to && to <= len && char_boundary(text, from) && char_boundary(text, to)
}

/// The value and the suffix of a number literal `text` read as `num`: its digits, without
/// separators, in its radix, and the type its suffix names.
pub fn number_value(text: &str, num: &ReadNumber) -> (r: Result<
    (i128, Option<LiteralSuffix>),
    ParseNumberError,
>)
    ensures
        match literal_int(text.spec_bytes(), *num) {
            None => r == Err::<(i128, Option<LiteralSuffix>), ParseNumberError>(ParseNumberError::Int),
            Some(v) => match literal_suffix_text(text.spec_bytes(), *num) {
                None => r == Ok::<(i128, Option<LiteralSuffix>), ParseNumberError>((v, None)),
                Some(s) => match suffix_named(s) {
                    Some(t) => r == Ok::<(i128, Option<LiteralSuffix>), ParseNumberError>((v, Some(t))),
                    None => r matches Err(ParseNumberError::Suffix(ParseSuffixError::Invalid(x)))
                        && x@ == s,
                },
            },
        },
{
    if !splits_text(text, num) {
        return Err(ParseNumberError::Int);
    }
    let radix: u32 = match num.kind {
        NumberKind::Int => 10,
        NumberKind::Hex => 16,
        NumberKind::Float { .. } => {
            return Err(ParseNumberError::Int);
        },
    };
    let (_, digit_str, suffix) = split_digit_str(text, num);
    let digits = clean_digit_str(digit_str);
    proof {
        encode_utf8_decode_utf8(digit_str@);
    }
    let value = match parse_i128_radix(digits.as_str(), radix) {
        Some(v) => v,
        None => {
            return Err(ParseNumberError::Int);
        },
    };
    match suffix {
        None => Ok((value, None)),
        Some(s) => {
            proof {
                encode_utf8_decode_utf8(s@);
            }
            match parse_suffix(s) {
                Ok(t) => Ok((value, Some(t))),
                Err(e) => Err(ParseNumberError::Suffix(e)),
            }
        },
    }
}

} // verus!
