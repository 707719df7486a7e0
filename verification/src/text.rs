//! Small text utilities over `str` and `String` used throughout the crate.
use vstd::prelude::*;
use vstd::string::StringSliceAdditionalSpecFns;
use vstd::utf8::*;

verus! {

/// Appends `c` to `s` (`String::push`).
#[verifier::external_body]
pub fn push_char(s: &mut String, c: char)
    ensures
        final(s)@ == old(s)@.push(c),
{
    s.push(c);
}

/// The characters of `s`, in order.
pub fn str_chars(s: &str) -> (r: Vec<char>)
    ensures
        r@ == s@,
{
    let mut out: Vec<char> = Vec::new();
    for c in it: s.chars()
        invariant
            out@ == it.seq().take(it.index() as int),
    {
        out.push(c);
    }
    out
}

/// The bytes of any `str` are valid UTF-8.
pub proof fn lemma_str_valid(s: &str)
    ensures
        valid_utf8(s.spec_bytes()),
{
    encode_utf8_valid_utf8(s@);
}

/// In valid UTF-8 an ASCII byte starts a character and the byte after it starts the next one.
pub proof fn lemma_ascii_boundaries(bytes: Seq<u8>, i: int)
    requires
        valid_utf8(bytes),
        0 <= i < bytes.len(),
        bytes[i] < 0x80,
    ensures
        is_char_boundary(bytes, i),
        is_char_boundary(bytes, i + 1),
{
    is_char_boundary_iff_not_is_continuation_byte(bytes, i);
    is_char_boundary_start_end_of_seq(bytes);
    if i + 1 < bytes.len() {
        valid_utf8_split(bytes, i);
        let tail = bytes.subrange(i, bytes.len() as int);
        assert(tail[0] == bytes[i]);
        assert(valid_first_scalar(tail));
        assert(length_of_first_scalar(tail) == 1);
        let rest = pop_first_scalar(tail);
        assert(valid_utf8(rest));
        assert(rest.len() > 0);
        assert(valid_first_scalar(rest));
        assert(rest[0] == bytes[i + 1]);
        is_char_boundary_iff_not_is_continuation_byte(bytes, i + 1);
    }
}

/// The end of valid UTF-8 is a character boundary.
pub proof fn lemma_end_boundary(bytes: Seq<u8>)
    requires
        valid_utf8(bytes),
    ensures
        is_char_boundary(bytes, bytes.len() as int),
        is_char_boundary(bytes, 0),
{
    is_char_boundary_start_end_of_seq(bytes);
}

proof fn lemma_suffix_boundary(bytes: Seq<u8>, from: int, to: int)
    requires
        valid_utf8(bytes),
        0 <= from <= to <= bytes.len(),
        is_char_boundary(bytes, from),
        is_char_boundary(bytes, to),
    ensures
        valid_utf8(bytes.subrange(from, bytes.len() as int)),
        is_char_boundary(bytes.subrange(from, bytes.len() as int), to - from),
{
    valid_utf8_split(bytes, from);
    let tail = bytes.subrange(from, bytes.len() as int);
    if to == bytes.len() {
        is_char_boundary_start_end_of_seq(tail);
    } else {
        is_char_boundary_iff_not_is_continuation_byte(bytes, to);
        is_char_boundary_iff_not_is_continuation_byte(tail, to - from);
    }
}

/// The bytes of valid UTF-8 between two character boundaries are valid UTF-8.
pub proof fn lemma_valid_slice(bytes: Seq<u8>, from: int, to: int)
    requires
        valid_utf8(bytes),
        0 <= from <= to <= bytes.len(),
        is_char_boundary(bytes, from),
        is_char_boundary(bytes, to),
    ensures
        valid_utf8(bytes.subrange(from, to)),
{
    lemma_suffix_boundary(bytes, from, to);
    let tail = bytes.subrange(from, bytes.len() as int);
    valid_utf8_split(tail, to - from);
    assert(tail.subrange(0, to - from) =~= bytes.subrange(from, to));
}

/// The part of `s` from byte `from` up to byte `to` (`&s[from..to]`).
pub fn str_slice(s: &str, from: usize, to: usize) -> (r: &str)
    requires
        from <= to <= s.spec_bytes().len(),
        is_char_boundary(s.spec_bytes(), from as int),
        is_char_boundary(s.spec_bytes(), to as int),
    ensures
        r.spec_bytes() =~= s.spec_bytes().subrange(from as int, to as int),
{
    proof {
        lemma_str_valid(s);
        lemma_suffix_boundary(s.spec_bytes(), from as int, to as int);
    }
    let (_, tail) = s.split_at(from);
    let (mid, _) = tail.split_at(to - from);
    mid
}

/// The decimal digit character for `d`, which is below ten.
pub open spec fn digit_char(d: nat) -> char {
    (48 + d) as char
}

/// The decimal digits of `n`, most significant first, without leading zeros.
pub open spec fn decimal_digits(n: nat) -> Seq<char>
    decreases n,
{
    if n < 10 {
        seq![digit_char(n)]
    } else {
        decimal_digits(n / 10).push(digit_char(n % 10))
    }
}

/// The decimal notation of `i`, with a leading `-` when it is negative.
pub open spec fn decimal(i: int) -> Seq<char> {
    if i < 0 {
        seq!['-'] + decimal_digits((-i) as nat)
    } else {
        decimal_digits(i as nat)
    }
}

/// Appends the decimal digits of `n` to `buf`.
pub fn push_decimal_u128(buf: &mut String, n: u128)
    ensures
        final(buf)@ == old(buf)@ + decimal_digits(n as nat),
    decreases n,
{
    if n >= 10 {
        push_decimal_u128(buf, n / 10);
    }
    let d = (n % 10) as u8;
    let c = (48u8 + d) as char;
    push_char(buf, c);
    proof {
        assert(c == digit_char((n % 10) as nat));
        if n >= 10 {
            assert(old(buf)@ + decimal_digits(n as nat) =~= old(buf)@ + decimal_digits(
                (n / 10) as nat,
            ) + seq![c]);
        } else {
            assert(old(buf)@ + decimal_digits(n as nat) =~= old(buf)@.push(c));
        }
    }
}

/// Appends the decimal notation of `v` to `buf`.
pub fn push_decimal_i128(buf: &mut String, v: i128)
    ensures
        final(buf)@ == old(buf)@ + decimal(v as int),
{
    if v < 0 {
        push_char(buf, '-');
        let magnitude = ((-(v + 1)) as u128) + 1;
        push_decimal_u128(buf, magnitude);
        proof {
            assert(magnitude == -(v as int));
            assert(old(buf)@ + decimal(v as int) =~= old(buf)@.push('-') + decimal_digits(
                magnitude as nat,
            ));
        }
    } else {
        push_decimal_u128(buf, v as u128);
    }
}

/// Appends `s` to `buf` (`String::push_str`).
pub fn push_str(buf: &mut String, s: &str)
    ensures
        final(buf)@ == old(buf)@ + s@,
{
    buf.append(s);
}

/// Concatenation is associative.
pub broadcast proof fn lemma_add_assoc<A>(a: Seq<A>, b: Seq<A>, c: Seq<A>)
    ensures
        #[trigger] (a + (b + c)) == (a + b) + c,
{
    assert(a + (b + c) =~= (a + b) + c);
}

/// Whether two strings are the same text (compared byte by byte).
pub fn str_eq(a: &str, b: &str) -> (r: bool)
    ensures
        r == (a@ == b@),
{
    let x = a.as_bytes();
    let y = b.as_bytes();
    let mut same = x.len() == y.len();
    let mut i: usize = 0;
    if same {
        while i < x.len()
            invariant
                x@ == a.spec_bytes(),
                y@ == b.spec_bytes(),
                x@.len() == y@.len(),
                i <= x@.len(),
                same ==> forall|j: int| 0 <= j < i ==> x@[j] == y@[j],
                !same ==> x@ != y@,
            decreases x@.len() - i,
        {
            if x[i] != y[i] {
                same = false;
                assert(x@[i as int] != y@[i as int]);
            }
            i += 1;
        }
        if same {
            assert(x@ =~= y@);
        }
    }
    proof {
        if same {
            encode_utf8_decode_utf8(a@);
            encode_utf8_decode_utf8(b@);
        }
    }
    same
}

} // verus!
