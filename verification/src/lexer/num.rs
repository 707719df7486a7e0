//! Recognising the extent and shape of a numeric literal at the start of the input.
use vstd::prelude::*;
use vstd::string::StringSliceAdditionalSpecFns;
use vstd::utf8::is_continuation_byte;

verus! {

#[derive(Debug, Clone, Copy, PartialEq, Eq, Structural)]
pub enum NumberKind {
    Int,
    Float { radix_point_idx: usize },
    Hex,
}

#[derive(Debug, Clone, Copy, PartialEq, Eq, Structural)]
pub struct ReadNumber {
    pub len: usize,
    pub prefix_end: Option<usize>,
    pub suffix_start: Option<usize>,
    pub kind: NumberKind,
}

#[derive(Debug, Clone, Copy, PartialEq, Eq, Structural)]
pub enum ReadNumberError {
    /// unexpected character while reading number
    Unexpected(char),
    /// floating point number may not have multiple radices
    RepeatedRadixPoint,
    /// hex number may not have more than one radix prefix
    RepeatedRadixPrefix,
}

/// ASCII whitespace as std's `u8::is_ascii_whitespace` defines it.
pub open spec fn is_ascii_ws(b: u8) -> bool {
    b == 0x20u8 || b == 0x09u8 || b == 0x0Au8 || b == 0x0Cu8 || b == 0x0Du8
}

pub open spec fn is_digit(b: u8) -> bool {
    0x30u8 <= b <= 0x39u8
}

pub open spec fn is_hex_digit(b: u8) -> bool {
    is_digit(b) || (0x41u8 <= b <= 0x46u8) || (0x61u8 <= b <= 0x66u8)
}

/// The reading of a number from `s`, continued at byte `idx` with the facts gathered so far.
///
/// Reading stops at the first ASCII whitespace byte or at the end of the input.
/// A `0x` pair marks a hexadecimal number (`prefix_end` is the index of the `x`), a `.` a
/// floating point number, and the first byte that is neither a digit, `_`, `.`, nor (for a
/// hexadecimal number) a hex digit starts the suffix.
pub open spec fn scan(
    s: Seq<u8>,
    idx: int,
    kind: Option<NumberKind>,
    prefix_end: Option<usize>,
    suffix_start: Option<usize>,
) -> Result<ReadNumber, ReadNumberError>
    decreases s.len() - idx,
{
    if idx < 0 || idx >= s.len() || is_ascii_ws(s[idx]) {
        Ok(
            ReadNumber {
                len: idx as usize,
                prefix_end,
                suffix_start,
                kind: match kind {
                    Some(k) => k,
                    None => NumberKind::Int,
                },
            },
        )
    } else {
        let b = s[idx];
        if b == 0x5Fu8 {
            // `_`
            if kind matches Some(NumberKind::Float { radix_point_idx }) && radix_point_idx == idx
                - 1 {
                Err(ReadNumberError::Unexpected('_'))
            } else {
                scan(s, idx + 1, kind, prefix_end, suffix_start)
            }
        } else if b == 0x2Eu8 {
            // `.`
            match kind {
                Some(NumberKind::Hex) => Err(ReadNumberError::Unexpected('.')),
                Some(NumberKind::Float { .. }) => Err(ReadNumberError::RepeatedRadixPoint),
                _ => scan(
                    s,
                    idx + 1,
                    Some(NumberKind::Float { radix_point_idx: idx as usize }),
                    prefix_end,
                    suffix_start,
                ),
            }
        } else if b == 0x30u8 && idx + 1 < s.len() && s[idx + 1] == 0x78u8 {
            // `0x`
            if kind is Some {
                Err(ReadNumberError::RepeatedRadixPrefix)
            } else {
                scan(s, idx + 2, Some(NumberKind::Hex), Some((idx + 1) as usize), suffix_start)
            }
        } else if is_digit(b) {
            scan(s, idx + 1, kind, prefix_end, suffix_start)
        } else if suffix_start is None && !(kind == Some(NumberKind::Hex) && is_hex_digit(b)) {
            scan(s, idx + 1, kind, prefix_end, Some(idx as usize))
        } else {
            scan(s, idx + 1, kind, prefix_end, suffix_start)
        }
    }
}

/// The number of characters in the UTF-8 bytes `s`: the bytes that do not continue a
/// character.
pub open spec fn char_count(s: Seq<u8>) -> nat
    decreases s.len(),
{
    if s.len() == 0 {
        0
    } else {
        char_count(s.drop_last()) + if is_continuation_byte(s.last()) {
            0nat
        } else {
            1nat
        }
    }
}

/// How many bytes the number at the start of `s` takes: up to the first ASCII whitespace
/// byte or the end of the input (nothing where it cannot be read).
pub open spec fn number_extent(s: Seq<u8>) -> int {
    match scan(s, 0, None, None, None) {
        Ok(n) => n.len as int,
        Err(_) => 0,
    }
}

/// What [`ReadNumber::try_read`] yields for the bytes `s`: the scan's findings, with the
/// length counted in characters.
pub open spec fn read_number(s: Seq<u8>) -> Result<ReadNumber, ReadNumberError> {
    match scan(s, 0, None, None, None) {
        Ok(n) => Ok(
            ReadNumber {
                len: char_count(s.take(n.len as int)) as usize,
                prefix_end: n.prefix_end,
                suffix_start: n.suffix_start,
                kind: n.kind,
            },
        ),
        Err(e) => Err(e),
    }
}

/// A prefix holds no more characters than bytes.
pub proof fn lemma_char_count_bound(s: Seq<u8>)
    ensures
        char_count(s) <= s.len(),
    decreases s.len(),
{
    if s.len() > 0 {
        lemma_char_count_bound(s.drop_last());
    }
}

/// The facts carried along a scan stay below the scan position.
pub open spec fn scan_facts_below(
    idx: int,
    kind: Option<NumberKind>,
    prefix_end: Option<usize>,
    suffix_start: Option<usize>,
) -> bool {
    &&& (prefix_end matches Some(p) ==> p < idx)
    &&& (suffix_start matches Some(q) ==> q < idx)
    &&& (kind matches Some(NumberKind::Float { radix_point_idx }) ==> radix_point_idx < idx)
}

pub proof fn lemma_scan_extent(
    s: Seq<u8>,
    idx: int,
    kind: Option<NumberKind>,
    prefix_end: Option<usize>,
    suffix_start: Option<usize>,
)
    requires
        0 <= idx <= s.len(),
        s.len() <= usize::MAX,
        scan_facts_below(idx, kind, prefix_end, suffix_start),
        forall|j: int| 0 <= j < idx ==> !is_ascii_ws(#[trigger] s[j]),
    ensures
        scan(s, idx, kind, prefix_end, suffix_start) matches Ok(n) ==> {
            &&& idx <= n.len <= s.len()
            &&& (n.len == s.len() || is_ascii_ws(s[n.len as int]))
            &&& forall|j: int| 0 <= j < n.len ==> !is_ascii_ws(#[trigger] s[j])
            &&& scan_facts_below(n.len as int, Some(n.kind), n.prefix_end, n.suffix_start)
        },
    decreases s.len() - idx,
{
    if idx >= s.len() || is_ascii_ws(s[idx]) {
    } else {
        let b = s[idx];
        if b == 0x5Fu8 {
            lemma_scan_extent(s, idx + 1, kind, prefix_end, suffix_start);
        } else if b == 0x2Eu8 {
            lemma_scan_extent(
                s,
                idx + 1,
                Some(NumberKind::Float { radix_point_idx: idx as usize }),
                prefix_end,
                suffix_start,
            );
        } else if b == 0x30u8 && idx + 1 < s.len() && s[idx + 1] == 0x78u8 {
            lemma_scan_extent(
                s,
                idx + 2,
                Some(NumberKind::Hex),
                Some((idx + 1) as usize),
                suffix_start,
            );
        } else if is_digit(b) {
            lemma_scan_extent(s, idx + 1, kind, prefix_end, suffix_start);
        } else if suffix_start is None && !(kind == Some(NumberKind::Hex) && is_hex_digit(b)) {
            lemma_scan_extent(s, idx + 1, kind, prefix_end, Some(idx as usize));
        } else {
            lemma_scan_extent(s, idx + 1, kind, prefix_end, suffix_start);
        }
    }
}

/// What a scan has gathered up to `idx`: a radix prefix exactly for a hexadecimal number, and
/// a floating point number exactly when a `.` came before, at its radix point.
pub open spec fn scan_shape(s: Seq<u8>, idx: int, kind: Option<NumberKind>, prefix_end: Option<usize>) -> bool {
    &&& (prefix_end is Some <==> kind == Some(NumberKind::Hex))
    &&& kind != Some(NumberKind::Int)
    &&& forall|j: int| 0 <= j < idx && s[j] == 0x2Eu8 ==> kind == Some(
        NumberKind::Float { radix_point_idx: j as usize },
    )
    &&& (kind matches Some(NumberKind::Float { radix_point_idx }) ==> radix_point_idx < idx
        && s[radix_point_idx as int] == 0x2Eu8)
}

proof fn lemma_scan_shape(
    s: Seq<u8>,
    idx: int,
    kind: Option<NumberKind>,
    prefix_end: Option<usize>,
    suffix_start: Option<usize>,
)
    requires
        0 <= idx <= s.len(),
        s.len() <= usize::MAX,
        scan_shape(s, idx, kind, prefix_end),
    ensures
        scan(s, idx, kind, prefix_end, suffix_start) matches Ok(n) ==> {
            &&& (n.prefix_end is Some <==> n.kind == NumberKind::Hex)
            &&& forall|j: int|
                0 <= j < n.len && s[j] == 0x2Eu8 ==> n.kind == NumberKind::Float {
                    radix_point_idx: j as usize,
                }
            &&& (n.kind matches NumberKind::Float { radix_point_idx } ==> radix_point_idx < n.len
                && s[radix_point_idx as int] == 0x2Eu8)
        },
    decreases s.len() - idx,
{
    if idx >= s.len() || is_ascii_ws(s[idx]) {
    } else {
        let b = s[idx];
        if b == 0x5Fu8 {
            lemma_scan_shape(s, idx + 1, kind, prefix_end, suffix_start);
        } else if b == 0x2Eu8 {
            if kind is None {
                lemma_scan_shape(
                    s,
                    idx + 1,
                    Some(NumberKind::Float { radix_point_idx: idx as usize }),
                    prefix_end,
                    suffix_start,
                );
            }
        } else if b == 0x30u8 && idx + 1 < s.len() && s[idx + 1] == 0x78u8 {
            if kind is None {
                lemma_scan_shape(s, idx + 2, Some(NumberKind::Hex), Some((idx + 1) as usize), suffix_start);
            }
        } else if is_digit(b) {
            lemma_scan_shape(s, idx + 1, kind, prefix_end, suffix_start);
        } else if suffix_start is None && !(kind == Some(NumberKind::Hex) && is_hex_digit(b)) {
            lemma_scan_shape(s, idx + 1, kind, prefix_end, Some(idx as usize));
        } else {
            lemma_scan_shape(s, idx + 1, kind, prefix_end, suffix_start);
        }
    }
}

/// The shape of a number that can be read: its length counts the characters up to the first
/// ASCII whitespace, it has a radix prefix exactly when it is hexadecimal, and it is a floating
/// point number with its radix point at byte `i` exactly when a `.` stands at byte `i`.
pub proof fn lemma_read_number_shape(s: Seq<u8>)
    requires
        s.len() <= usize::MAX,
    ensures
        read_number(s) matches Ok(n) ==> {
            &&& n.len == char_count(s.take(number_extent(s)))
            &&& (n.prefix_end is Some <==> n.kind == NumberKind::Hex)
            &&& forall|i: int|
                0 <= i < number_extent(s) ==> (s[i] == 0x2Eu8 <==> n.kind == NumberKind::Float {
                    radix_point_idx: i as usize,
                })
        },
{
    lemma_scan_shape(s, 0, None, None, None);
    lemma_scan_extent(s, 0, None, None, None);
    if let Ok(n) = read_number(s) {
        lemma_char_count_bound(s.take(number_extent(s)));
        let m = scan(s, 0, None, None, None)->Ok_0;
        assert forall|i: int| 0 <= i < number_extent(s) implies (s[i] == 0x2Eu8 <==> n.kind
            == NumberKind::Float { radix_point_idx: i as usize }) by {
            if n.kind == (NumberKind::Float { radix_point_idx: i as usize }) {
                assert(m.kind == n.kind);
            }
        }
    }
}

fn is_ascii_whitespace_byte(b: u8) -> (r: bool)
    ensures
        r == is_ascii_ws(b),
{
    b == 0x20u8 || b == 0x09u8 || b == 0x0Au8 || b == 0x0C || b == 0x0Du8
}

fn is_hex_digit_byte(b: u8) -> (r: bool)
    ensures
        r == is_hex_digit(b),
{
    (0x30u8 <= b && b <= 0x39u8) || (0x41u8 <= b && b <= 0x46u8) || (0x61u8 <= b && b <= 0x66u8)
}

impl ReadNumber {
    /// Reads the number at the start of `source`: how many characters it takes, where a `0x`
    /// prefix ends, where a type suffix starts and what kind of number it is.
    ///
    /// The positions are byte offsets; the length counts characters.
    pub fn try_read(source: &str) -> (r: Result<ReadNumber, ReadNumberError>)
        ensures
            r == read_number(source.spec_bytes()),
            r matches Ok(n) ==> {
                let c = source.spec_bytes();
                let e = number_extent(c);
                &&& e <= c.len()
                &&& n.len == char_count(c.take(e))
                &&& (e == c.len() || is_ascii_ws(c[e]))
                &&& forall|j: int| 0 <= j < e ==> !is_ascii_ws(#[trigger] c[j])
                &&& (n.prefix_end matches Some(p) ==> p < e)
                &&& (n.suffix_start matches Some(q) ==> q < e)
            },
    {
        proof {
            let c = source.spec_bytes();
            lemma_char_count_bound(c.take(number_extent(c)));
        }
        match read_with_extent(source.as_bytes()) {
            Ok((n, _)) => Ok(n),
            Err(e) => Err(e),
        }
    }
}

/// [`ReadNumber::try_read`] on the bytes of the source, together with the number of bytes
/// the number takes.
fn read_with_extent(s: &[u8]) -> (r: Result<(ReadNumber, usize), ReadNumberError>)
    ensures
        match read_number(s@) {
            Ok(n) => r matches Ok((m, e)) && m == n && e == number_extent(s@),
            Err(err) => r == Err::<(ReadNumber, usize), ReadNumberError>(err),
        },
        r matches Ok((n, e)) ==> {
            &&& e <= s@.len()
            &&& (e == s@.len() || is_ascii_ws(s@[e as int]))
            &&& forall|j: int| 0 <= j < e ==> !is_ascii_ws(#[trigger] s@[j])
            &&& (n.prefix_end matches Some(p) ==> p < e)
            &&& (n.suffix_start matches Some(q) ==> q < e)
        },
{
    proof {
        assert(s@.len() == s.len());
        lemma_scan_extent(s@, 0, None, None, None);
        assert(s@.take(0) =~= Seq::<u8>::empty());
    }
    let mut idx: usize = 0;
    let mut chars: usize = 0;
    let mut kind: Option<NumberKind> = None;
    let mut prefix_end: Option<usize> = None;
    let mut suffix_start: Option<usize> = None;
    while idx < s.len() && !is_ascii_whitespace_byte(s[idx])
        invariant
            idx <= s@.len(),
            chars == char_count(s@.take(idx as int)),
            chars <= idx,
            scan_facts_below(idx as int, kind, prefix_end, suffix_start),
            scan(s@, 0, None, None, None) == scan(s@, idx as int, kind, prefix_end, suffix_start),
        decreases s@.len() - idx,
    {
        let b = s[idx];
        proof {
            let t = s@.take(idx + 1);
            assert(t.drop_last() =~= s@.take(idx as int));
            assert(t.last() == b);
            assert(char_count(t) == chars + if is_continuation_byte(b) {
                0nat
            } else {
                1nat
            });
        }
        if b == 0x5Fu8 {
            if let Some(NumberKind::Float { radix_point_idx }) = kind {
                if radix_point_idx + 1 == idx {
                    return Err(ReadNumberError::Unexpected('_'));
                }
            }
            idx += 1;
            chars += 1;
        } else if b == 0x2Eu8 {
            match kind {
                Some(NumberKind::Hex) => {
                    return Err(ReadNumberError::Unexpected('.'));
                },
                Some(NumberKind::Float { .. }) => {
                    return Err(ReadNumberError::RepeatedRadixPoint);
                },
                None | Some(NumberKind::Int) => {
                    kind = Some(NumberKind::Float { radix_point_idx: idx });
                    idx += 1;
                    chars += 1;
                },
            }
        } else if b == 0x30u8 && idx + 1 < s.len() && s[idx + 1] == 0x78u8 {
            if kind.is_some() {
                return Err(ReadNumberError::RepeatedRadixPrefix);
            }
            proof {
                let t = s@.take(idx + 2);
                assert(t.drop_last() =~= s@.take(idx + 1));
                assert(t.last() == 0x78u8);
                assert(char_count(t) == char_count(s@.take(idx + 1)) + 1);
            }
            prefix_end = Some(idx + 1);
            kind = Some(NumberKind::Hex);
            idx += 2;
            chars += 2;
        } else if 0x30u8 <= b && b <= 0x39u8 {
            idx += 1;
            chars += 1;
        } else {
            if suffix_start.is_none() {
                let hex_digit = match kind {
                    Some(NumberKind::Hex) => is_hex_digit_byte(b),
                    _ => false,
                };
                if !hex_digit {
                    suffix_start = Some(idx);
                }
            }
            idx += 1;
            if !(0x80u8 <= b && b <= 0xBFu8) {
                chars += 1;
            }
        }
    }
    let kind = match kind {
        Some(k) => k,
        None => NumberKind::Int,
    };
    Ok((ReadNumber { len: chars, prefix_end, suffix_start, kind }, idx))
}

} // verus!
