//! Resolving backslash escapes inside string literals.
use vstd::prelude::*;

verus! {

#[derive(Debug, Clone, Copy, PartialEq, Eq, Structural)]
pub enum EscapeError {
    /// cannot escape the character
    InvalidEscape(char),
    /// expected a character after `\` but none was found
    ZeroChars,
}

/// The character that `\ch` stands for.
pub open spec fn escape_of(ch: char) -> Result<char, EscapeError> {
    if ch == '0' {
        Ok('\0')
    } else if ch == 'n' {
        Ok('\n')
    } else if ch == 'r' {
        Ok('\r')
    } else if ch == 't' {
        Ok('\t')
    } else if ch == '\\' {
        Ok('\\')
    } else if ch == '"' {
        Ok('"')
    } else {
        Err(EscapeError::InvalidEscape(ch))
    }
}

/// The contents of a string literal with its escapes resolved, from left to right; the first
/// bad escape is the error.
pub open spec fn unescape(s: Seq<char>) -> Result<Seq<char>, EscapeError>
    decreases s.len(),
{
    if s.len() == 0 {
        Ok(Seq::empty())
    } else if s[0] == '\\' {
        if s.len() == 1 {
            Err(EscapeError::ZeroChars)
        } else {
            match escape_of(s[1]) {
                Ok(c) => match unescape(s.skip(2)) {
                    Ok(rest) => Ok(seq![c] + rest),
                    Err(e) => Err(e),
                },
                Err(e) => Err(e),
            }
        }
    } else {
        match unescape(s.skip(1)) {
            Ok(rest) => Ok(seq![s[0]] + rest),
            Err(e) => Err(e),
        }
    }
}

/// A literal without any backslash is its own unescaping.
pub proof fn lemma_unescape_plain(s: Seq<char>)
    requires
        !s.contains('\\'),
    ensures
        unescape(s) == Ok::<Seq<char>, EscapeError>(s),
    decreases s.len(),
{
    if s.len() == 0 {
        assert(s =~= Seq::<char>::empty());
    } else {
        assert(s[0] != '\\') by {
            assert(s.contains(s[0]));
        }
        assert forall|c: char| s.skip(1).contains(c) implies c != '\\' by {
            let j = choose|j: int| 0 <= j < s.skip(1).len() && s.skip(1)[j] == c;
            assert(s[j + 1] == c);
        }
        lemma_unescape_plain(s.skip(1));
        assert(seq![s[0]] + s.skip(1) =~= s);
    }
}

/// Unescape the character that followed a leading `\` in a string literal
pub fn unescape_char(ch: char) -> (r: Result<char, EscapeError>)
    ensures
        r == escape_of(ch),
{
    match ch {
        '0' => Ok('\0'),
        'n' => Ok('\n'),
        'r' => Ok('\r'),
        't' => Ok('\t'),
        '\\' => Ok('\\'),
        '"' => Ok('"'),
        _ => Err(EscapeError::InvalidEscape(ch)),
    }
}

/// Takes the contents of a string literal (without quotes)
/// and produces the unescaped text or the first bad escape.
pub fn unescape_literal(source: &str) -> (r: Result<String, EscapeError>)
    ensures
        r matches Ok(text) ==> unescape(source@) == Ok::<Seq<char>, EscapeError>(text@),
        r matches Err(e) ==> unescape(source@) == Err::<Seq<char>, EscapeError>(e),
        !source@.contains('\\') ==> (r matches Ok(text) && text@ == source@),
{
    let chars = crate::text::str_chars(source);
    let n = chars.len();
    let mut buf = String::new();
    let mut i: usize = 0;
    proof {
        assert(chars@.skip(0) =~= chars@);
        match unescape(chars@) {
            Ok(rest) => {
                assert(buf@ + rest =~= rest);
            },
            Err(_) => {},
        }
    }
    while i < n
        invariant
            n == chars@.len(),
            chars@ == source@,
            i <= n,
            unescape(source@) == match unescape(chars@.skip(i as int)) {
                Ok(rest) => Ok(buf@ + rest),
                Err(e) => Err(e),
            },
        decreases n - i,
    {
        let ghost old_buf = buf@;
        let ch = chars[i];
        if ch == '\\' {
            if i + 1 == n {
                return Err(EscapeError::ZeroChars);
            }
            let escaped = match unescape_char(chars[i + 1]) {
                Ok(c) => c,
                Err(e) => {
                    return Err(e);
                },
            };
            crate::text::push_char(&mut buf, escaped);
            proof {
                assert(chars@.skip(i as int).skip(2) =~= chars@.skip(i + 2));
                match unescape(chars@.skip(i + 2)) {
                    Ok(rest) => {
                        assert(old_buf + (seq![escaped] + rest) =~= buf@ + rest);
                    },
                    Err(_) => {},
                }
            }
            i += 2;
        } else {
            crate::text::push_char(&mut buf, ch);
            proof {
                assert(chars@.skip(i as int).skip(1) =~= chars@.skip(i + 1));
                match unescape(chars@.skip(i + 1)) {
                    Ok(rest) => {
                        assert(old_buf + (seq![ch] + rest) =~= buf@ + rest);
                    },
                    Err(_) => {},
                }
            }
            i += 1;
        }
    }
    proof {
        assert(chars@.skip(n as int) =~= Seq::<char>::empty());
        assert(buf@ + Seq::<char>::empty() =~= buf@);
        if !source@.contains('\\') {
            lemma_unescape_plain(source@);
        }
    }
    Ok(buf)
}

/// Resolving escapes never lengthens the UTF-8 encoding of a literal.
pub proof fn lemma_unescape_shorter(s: Seq<char>)
    ensures
        unescape(s) matches Ok(t) ==> vstd::utf8::encode_utf8(t).len() <= vstd::utf8::encode_utf8(
            s,
        ).len(),
    decreases s.len(),
{
    broadcast use vstd::utf8::char_is_scalar;

    if s.len() > 0 {
        if s[0] == '\\' {
            if s.len() > 1 {
                lemma_unescape_shorter(s.skip(2));
                if let Ok(c) = escape_of(s[1]) {
                    if let Ok(rest) = unescape(s.skip(2)) {
                        let t = seq![c] + rest;
                        assert(t[0] == c);
                        assert(t.drop_first() =~= rest);
                        assert(s.drop_first().drop_first() =~= s.skip(2));
                        assert(s.drop_first()[0] == s[1]);
                        assert(vstd::utf8::encode_scalar(c as u32).len() == 1);
                        assert(vstd::utf8::encode_utf8(t).len() == 1 + vstd::utf8::encode_utf8(
                            rest,
                        ).len());
                        assert(vstd::utf8::encode_scalar(s[0] as u32).len() >= 1);
                        assert(vstd::utf8::encode_scalar(s[1] as u32).len() >= 1);
                        assert(vstd::utf8::encode_utf8(s.drop_first()).len() == vstd::utf8::encode_scalar(
                            s[1] as u32,
                        ).len() + vstd::utf8::encode_utf8(s.skip(2)).len());
                    }
                }
            }
        } else {
            lemma_unescape_shorter(s.skip(1));
            if let Ok(rest) = unescape(s.skip(1)) {
                let t = seq![s[0]] + rest;
                assert(t[0] == s[0]);
                assert(t.drop_first() =~= rest);
                assert(s.drop_first() =~= s.skip(1));
                assert(vstd::utf8::encode_utf8(t).len() == vstd::utf8::encode_scalar(s[0] as u32).len()
                    + vstd::utf8::encode_utf8(rest).len());
            }
        }
    }
}


/// The letter that stands after `\` for `ch` in a literal, for the characters that must be
/// escaped there.
pub open spec fn escape_code(ch: char) -> Option<char> {
    if ch == '\0' {
        Some('0')
    } else if ch == '\n' {
        Some('n')
    } else if ch == '\r' {
        Some('r')
    } else if ch == '\t' {
        Some('t')
    } else if ch == '\\' {
        Some('\\')
    } else if ch == '"' {
        Some('"')
    } else {
        None
    }
}

/// `t` written as the contents of a literal: each NUL, newline, carriage return, tab,
/// backslash and double quote replaced by a backslash and its letter.
pub open spec fn escaped(t: Seq<char>) -> Seq<char>
    decreases t.len(),
{
    if t.len() == 0 {
        Seq::empty()
    } else {
        (match escape_code(t[0]) {
            Some(code) => seq!['\\', code],
            None => seq![t[0]],
        }) + escaped(t.skip(1))
    }
}

/// Unescaping reads an escaped text back and then goes on with what follows it as if that
/// stood alone.
pub proof fn lemma_unescape_after_escaped(t: Seq<char>, u: Seq<char>)
    ensures
        unescape(escaped(t) + u) == (match unescape(u) {
            Ok(rest) => Ok::<Seq<char>, EscapeError>(t + rest),
            Err(e) => Err(e),
        }),
    decreases t.len(),
{
    if t.len() == 0 {
        assert(escaped(t) + u =~= u);
        assert(t =~= Seq::<char>::empty());
        if let Ok(rest) = unescape(u) {
            assert(t + rest =~= rest);
        }
    } else {
        lemma_unescape_after_escaped(t.skip(1), u);
        let s = escaped(t) + u;
        let tail = escaped(t.skip(1)) + u;
        match escape_code(t[0]) {
            Some(code) => {
                assert(s[0] == '\\');
                assert(s[1] == code);
                assert(s.skip(2) =~= tail);
                assert(escape_of(code) == Ok::<char, EscapeError>(t[0]));
            },
            None => {
                assert(s[0] == t[0]);
                assert(s.skip(1) =~= tail);
            },
        }
        if let Ok(rest) = unescape(u) {
            assert(seq![t[0]] + (t.skip(1) + rest) =~= t + rest);
        }
    }
}

/// Escaping a text and unescaping it gives the text back.
pub proof fn lemma_unescape_escaped(t: Seq<char>)
    ensures
        unescape(escaped(t)) == Ok::<Seq<char>, EscapeError>(t),
{
    lemma_unescape_after_escaped(t, Seq::empty());
    assert(escaped(t) + Seq::<char>::empty() =~= escaped(t));
    assert(t + Seq::<char>::empty() =~= t);
}

/// A backslash with nothing after it, after text without bad escapes, is refused as such.
pub proof fn lemma_unescape_lone_backslash(t: Seq<char>)
    ensures
        unescape(escaped(t).push('\\')) == Err::<Seq<char>, EscapeError>(EscapeError::ZeroChars),
{
    lemma_unescape_after_escaped(t, seq!['\\']);
    assert(escaped(t) + seq!['\\'] =~= escaped(t).push('\\'));
}

/// A backslash before a character that has no escape, after text without bad escapes, is
/// refused with that character, whatever follows.
pub proof fn lemma_unescape_bad_escape(t: Seq<char>, c: char, rest: Seq<char>)
    requires
        escape_of(c) is Err,
    ensures
        unescape(escaped(t) + seq!['\\', c] + rest) == Err::<Seq<char>, EscapeError>(
            EscapeError::InvalidEscape(c),
        ),
{
    let u = seq!['\\', c] + rest;
    lemma_unescape_after_escaped(t, u);
    assert(escaped(t) + seq!['\\', c] + rest =~= escaped(t) + u);
    assert(u[0] == '\\');
    assert(u[1] == c);
}

} // verus!
