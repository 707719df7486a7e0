//! Numbers: signedness, and names made of numbers.
use vstd::prelude::*;

use crate::text::push_char;

verus! {

#[derive(Debug, PartialEq, Eq, PartialOrd, Ord, Clone, Copy, Structural)]
pub enum Signedness {
    Signed,
    Unsigned,
}

/// The letter for digit `d` (below 26): `a` for 0 up to `z` for 25.
pub open spec fn letter(d: int) -> char {
    (97 + d) as char
}

/// `m` in bijective base 26 with the digits `a` to `z`: the empty word for 0, then `a` ..
/// `z`, `aa` .. `az`, `ba` and so on.
pub open spec fn base26(m: nat) -> Seq<char>
    decreases m,
{
    if m == 0 {
        Seq::empty()
    } else {
        base26(((m - 1) / 26) as nat).push(letter((m - 1) % 26))
    }
}

/// Every character of a word in bijective base 26 is a lowercase letter.
pub proof fn lemma_base26_lowercase(m: nat)
    ensures
        forall|i: int| 0 <= i < base26(m).len() ==> 'a' <= #[trigger] base26(m)[i] <= 'z',
    decreases m,
{
    if m > 0 {
        let q = ((m - 1) / 26) as nat;
        let d = (m - 1) % 26;
        lemma_base26_lowercase(q);
        assert(0 <= d < 26);
        assert(letter(d) as int == 97 + d);
        assert forall|i: int| 0 <= i < base26(m).len() implies 'a' <= #[trigger] base26(m)[i] <= 'z' by {
            if i < base26(q).len() {
                assert(base26(m)[i] == base26(q)[i]);
            } else {
                assert(base26(m)[i] == letter(d));
            }
        }
    }
}

/// Different numbers are written as different words.
pub proof fn lemma_base26_injective(a: nat, b: nat)
    requires
        base26(a) == base26(b),
    ensures
        a == b,
    decreases a,
{
    if a != 0 && b != 0 {
        let qa = ((a - 1) / 26) as nat;
        let qb = ((b - 1) / 26) as nat;
        assert(base26(a).last() == letter((a - 1) % 26));
        assert(base26(b).last() == letter((b - 1) % 26));
        assert(base26(qa) == base26(a).drop_last());
        assert(base26(qb) == base26(b).drop_last());
        lemma_base26_injective(qa, qb);
    } else if a == 0 && b != 0 {
        assert(base26(b).len() > 0);
    } else if a != 0 && b == 0 {
        assert(base26(a).len() > 0);
    }
}

fn push_base26(out: &mut String, m: usize)
    ensures
        final(out)@ == old(out)@ + base26(m as nat),
    decreases m,
{
    if m > 0 {
        push_base26(out, (m - 1) / 26);
        let d = ((m - 1) % 26) as u8;
        push_char(out, (97u8 + d) as char);
        proof {
            assert(final(out)@ =~= old(out)@ + base26(m as nat));
        }
    } else {
        proof {
            assert(final(out)@ =~= old(out)@ + base26(m as nat));
        }
    }
}

/// `n` as a word of lowercase letters: 0 is `a`, 25 is `z`, 26 is `aa`, and so on.
pub fn bijective_base26(n: usize) -> (r: String)
    requires
        n < usize::MAX,
    ensures
        r@ == base26((n + 1) as nat),
{
    let mut out = String::new();
    push_base26(&mut out, n + 1);
    proof {
        assert(out@ =~= base26((n + 1) as nat));
    }
    out
}

} // verus!
