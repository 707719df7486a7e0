use solc::lexer::memchr::{memchrn, memchrn_inv, FindByte};

/// Scalar inverse reference implementation for any N.
fn naive_inv<const N: usize>(needles: [u8; N], haystack: &[u8]) -> Option<usize> {
    haystack.iter().position(|b| !needles.contains(b))
}

/// Assert the search result matches the naive scalar result.
fn assert_eq_naive_inv<const N: usize>(needles: [u8; N], haystack: &[u8]) {
    let expected = naive_inv(needles, haystack);
    let actual = memchrn_inv(needles, haystack);
    assert_eq!(
        actual,
        expected,
        "needles={needles:?} haystack len={}",
        haystack.len()
    );
}

const CHUNK: usize = 16;

#[test]
fn empty_haystack() {
    assert_eq_naive_inv([b' '], b"");
    assert_eq_naive_inv([b'a', b'b'], b"");
}

#[test]
fn all_needles() {
    assert_eq_naive_inv([b' '], b"          ");
    assert_eq_naive_inv([b'a', b'b'], b"ababababab");
    assert_eq_naive_inv([b'x'], &[b'x'; CHUNK]);
}

#[test]
fn first_byte_differs() {
    assert_eq_naive_inv([b' '], b"x         ");
    assert_eq_naive_inv([b'a', b'b'], b"z");
}

#[test]
fn last_byte_differs() {
    assert_eq_naive_inv([b' '], b"         x");
    let mut buf = vec![b'a'; 100];
    *buf.last_mut().unwrap() = b'z';
    assert_eq_naive_inv([b'a'], &buf);
}

#[test]
fn hit_in_remainder() {
    let mut buf = vec![b'.'; CHUNK + 3];
    *buf.last_mut().unwrap() = b'!';
    assert_eq_naive_inv([b'.'], &buf);
}

#[test]
fn hit_at_chunk_boundary() {
    let mut buf = vec![b' '; CHUNK * 2];
    buf[CHUNK] = b'x';
    assert_eq_naive_inv([b' '], &buf);
}

#[test]
fn single_needle() {
    assert_eq_naive_inv([b'\n'], b"\n\n\n\nhello");
}

#[test]
fn many_needles() {
    let ws: [u8; 5] = [b'\t', b'\n', b'\x0C', b'\r', b' '];
    let hay = " ".repeat(4025) + &"\n".repeat(5075) + "l";
    assert_eq_naive_inv(ws, hay.as_bytes());
}

#[test]
fn all_256_byte_values() {
    let haystack: Vec<u8> = (0..=254).collect();
    let result = memchrn_inv([42], &haystack);
    assert_eq!(result, Some(0));

    let all42 = vec![42u8; 300];
    assert_eq!(memchrn_inv([42], &all42), None);
}

#[test]
fn trait_impl() {
    let data: &[u8] = b"   hello";
    assert_eq!(data.find_byte_not_in([b' ']), Some(3));
}

#[test]
fn find_byte_in_set() {
    let data: &[u8] = b"abc\ndef";
    assert_eq!(data.find_byte(b'\n'), Some(3));
    assert_eq!(data.find_byte_in([b'x', b'e']), Some(5));
    assert_eq!(memchrn([b'z'], data), None);
}
