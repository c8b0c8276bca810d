//! How many bytes texts take in UTF-8.
use vstd::prelude::*;
use vstd::utf8::*;

use crate::text::{chars_of, from_chars, Text};

verus! {

/// The number of bytes of a text in UTF-8.
pub open spec fn byte_len(s: Text) -> nat {
    encode_utf8(s).len()
}

/// The number of bytes of a character in UTF-8.
pub open spec fn char_width(c: char) -> nat {
    if c as u32 <= 0x7f {
        1
    } else if c as u32 <= 0x7ff {
        2
    } else if c as u32 <= 0xffff {
        3
    } else {
        4
    }
}

proof fn lemma_scalar_width(c: char)
    ensures
        encode_scalar(c as u32).len() == char_width(c),
{
}

/// Two texts in a row take as many bytes as both together.
pub proof fn lemma_joined_width(a: Text, b: Text)
    ensures
        byte_len(a + b) == byte_len(a) + byte_len(b),
    decreases a.len(),
{
    if a.len() == 0 {
        assert(a + b =~= b);
    } else {
        assert((a + b)[0] == a[0]);
        assert((a + b).drop_first() =~= a.drop_first() + b);
        lemma_joined_width(a.drop_first(), b);
    }
}

/// One more character takes as many bytes more as it is wide.
pub proof fn lemma_pushed_width(s: Text, c: char)
    ensures
        byte_len(s.push(c)) == byte_len(s) + char_width(c),
{
    let one = seq![c];
    assert(s.push(c) =~= s + one);
    lemma_joined_width(s, one);
    lemma_scalar_width(c);
    assert(one.drop_first() =~= Seq::<char>::empty());
    assert(encode_utf8(one) =~= encode_scalar(c as u32) + encode_utf8(one.drop_first()));
    assert(encode_utf8(Seq::<char>::empty()).len() == 0);
}

/// A longer beginning of a text takes no fewer bytes.
pub proof fn lemma_prefix_width(s: Text, i: int, j: int)
    requires
        0 <= i <= j <= s.len(),
    ensures
        byte_len(s.take(i)) <= byte_len(s.take(j)),
{
    assert(s.take(j) =~= s.take(i) + s.subrange(i, j));
    lemma_joined_width(s.take(i), s.subrange(i, j));
}

/// The number of bytes of a text.
pub fn bytes_in(s: &str) -> (r: usize)
    ensures
        r == byte_len(s@),
{
    s.as_bytes().len()
}

fn width_of(c: char) -> (r: usize)
    ensures
        r == char_width(c),
{
    let n: u32 = c as u32;
    if n <= 0x7f {
        1
    } else if n <= 0x7ff {
        2
    } else if n <= 0xffff {
        3
    } else {
        4
    }
}

/// `n` is how many characters of a text fit into a number of bytes.
pub open spec fn fits(s: Text, n: int, cap: nat) -> bool {
    &&& 0 <= n <= s.len()
    &&& byte_len(s.take(n)) <= cap
    &&& n < s.len() ==> byte_len(s.take(n + 1)) > cap
}

/// What fits is unambiguous.
pub proof fn fitting_is_unique(s: Text, m: int, n: int, cap: nat)
    requires
        fits(s, m, cap),
        fits(s, n, cap),
    ensures
        m == n,
{
    if m < n {
        lemma_prefix_width(s, m + 1, n);
    } else if n < m {
        lemma_prefix_width(s, n + 1, m);
    }
}

/// The longest beginning of a text that fits into a number of bytes.
pub open spec fn fitting(s: Text, cap: nat) -> Text {
    s.take(choose|n: int| fits(s, n, cap))
}

/// The longest beginning of a text that fits into a number of bytes.
pub fn cut_to(s: &str, cap: usize) -> (r: String)
    ensures
        r@ == fitting(s@, cap as nat),
{
    let cs = chars_of(s);
    let mut n: usize = 0;
    let mut used: usize = 0;
    proof {
        assert(s@.take(0) =~= Seq::<char>::empty());
    }
    while n < cs.len()
        invariant
            n <= cs.len(),
            cs@ == s@,
            used == byte_len(s@.take(n as int)),
            used <= cap,
        decreases cs.len() - n,
    {
        let w: usize = width_of(cs[n]);
        proof {
            assert(s@.take(n + 1) =~= s@.take(n as int).push(s@[n as int]));
            lemma_pushed_width(s@.take(n as int), s@[n as int]);
        }
        if w > cap - used {
            proof {
                assert(fits(s@, n as int, cap as nat));
                let k = choose|k: int| fits(s@, k, cap as nat);
                fitting_is_unique(s@, n as int, k, cap as nat);
            }
            let head = vstd::slice::slice_subrange(cs.as_slice(), 0, n);
            proof {
                assert(head@ =~= s@.take(n as int));
            }
            return from_chars(head);
        }
        used = used + w;
        n += 1;
    }
    proof {
        assert(s@.take(s@.len() as int) =~= s@);
        assert(fits(s@, n as int, cap as nat));
        let k = choose|k: int| fits(s@, k, cap as nat);
        fitting_is_unique(s@, n as int, k, cap as nat);
    }
    s.to_owned()
}

} // verus!
