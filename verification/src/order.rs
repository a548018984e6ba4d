//! Lexicographic order on strings and on the composite store keys, with the
//! total-order lemmas the sorted stores rest on.

use vstd::prelude::*;

verus! {

/// Strict lexicographic order on character sequences, comparing code points.
pub open spec fn seq_lt(a: Seq<char>, b: Seq<char>) -> bool
    decreases a.len(),
{
    if b.len() == 0 {
        false
    } else if a.len() == 0 {
        true
    } else if (a[0] as u32) == (b[0] as u32) {
        seq_lt(a.drop_first(), b.drop_first())
    } else {
        (a[0] as u32) < (b[0] as u32)
    }
}

proof fn char_cast_injective(c1: char, c2: char)
    requires
        c1 as u32 == c2 as u32,
    ensures
        c1 == c2,
{
}

/// Of two character sequences, exactly one of `seq_lt(a, b)`, `a == b`,
/// `seq_lt(b, a)` holds.
pub proof fn lemma_seq_lt_trichotomy(a: Seq<char>, b: Seq<char>)
    ensures
        seq_lt(a, b) || seq_lt(b, a) || a == b,
        seq_lt(a, b) ==> !seq_lt(b, a) && a != b,
        seq_lt(b, a) ==> !seq_lt(a, b) && a != b,
    decreases a.len(),
{
    if a.len() == 0 && b.len() == 0 {
        assert(a =~= b);
    } else if a.len() > 0 && b.len() > 0 && (a[0] as u32) == (b[0] as u32) {
        char_cast_injective(a[0], b[0]);
        lemma_seq_lt_trichotomy(a.drop_first(), b.drop_first());
        if a.drop_first() == b.drop_first() {
            assert forall|j: int| 0 <= j < a.len() implies a[j] == b[j] by {
                if j > 0 {
                    assert(a[j] == a.drop_first()[j - 1]);
                    assert(b[j] == b.drop_first()[j - 1]);
                }
            }
            assert(a =~= b);
        }
        if a == b {
            assert(a.drop_first() =~= b.drop_first());
        }
    }
}

/// Lexicographic order is transitive.
pub proof fn lemma_seq_lt_trans(a: Seq<char>, b: Seq<char>, c: Seq<char>)
    requires
        seq_lt(a, b),
        seq_lt(b, c),
    ensures
        seq_lt(a, c),
    decreases a.len() + b.len() + c.len(),
{
    if a.len() > 0 && b.len() > 0 && c.len() > 0 {
        if (a[0] as u32) == (b[0] as u32) && (b[0] as u32) == (c[0] as u32) {
            lemma_seq_lt_trans(a.drop_first(), b.drop_first(), c.drop_first());
        }
    }
}

/// If the first `i` characters agree, the order is decided by the suffixes.
pub proof fn lemma_seq_lt_skip(a: Seq<char>, b: Seq<char>, i: int)
    requires
        0 <= i <= a.len(),
        i <= b.len(),
        forall|j: int| 0 <= j < i ==> (a[j] as u32) == (b[j] as u32),
    ensures
        seq_lt(a, b) == seq_lt(a.skip(i), b.skip(i)),
    decreases i,
{
    if i == 0 {
        assert(a.skip(0) =~= a);
        assert(b.skip(0) =~= b);
    } else {
        assert(seq_lt(a, b) == seq_lt(a.drop_first(), b.drop_first()));
        assert(forall|j: int|
            0 <= j < i - 1 ==> (a.drop_first()[j] as u32) == (b.drop_first()[j] as u32));
        lemma_seq_lt_skip(a.drop_first(), b.drop_first(), i - 1);
        assert(a.drop_first().skip(i - 1) =~= a.skip(i));
        assert(b.drop_first().skip(i - 1) =~= b.skip(i));
    }
}

/// Decides `seq_lt(a@, b@)` for two string slices.
pub fn str_lt(a: &str, b: &str) -> (r: bool)
    ensures
        r == seq_lt(a@, b@),
{
    let alen = a.unicode_len();
    let blen = b.unicode_len();
    let mut i: usize = 0;
    loop
        invariant
            i <= alen,
            i <= blen,
            alen == a@.len(),
            blen == b@.len(),
            forall|j: int| 0 <= j < i ==> (a@[j] as u32) == (b@[j] as u32),
        decreases alen - i,
    {
        if i == alen || i == blen {
            proof {
                lemma_seq_lt_skip(a@, b@, i as int);
            }
            return alen < blen;
        }
        let ca = a.get_char(i);
        let cb = b.get_char(i);
        if (ca as u32) != (cb as u32) {
            proof {
                lemma_seq_lt_skip(a@, b@, i as int);
            }
            return (ca as u32) < (cb as u32);
        }
        i += 1;
    }
}

/// Decides `a@ == b@` for two string slices.
pub fn str_eq(a: &str, b: &str) -> (r: bool)
    ensures
        r == (a@ == b@),
{
    let below = str_lt(a, b);
    let above = str_lt(b, a);
    proof {
        lemma_seq_lt_trichotomy(a@, b@);
    }
    !below && !above
}

/// Mathematical value of a store key: three character sequences.
pub type KeyView = (Seq<char>, Seq<char>, Seq<char>);

/// A composite key for the keyed stores: up to three string components,
/// compared component by component. Keys with fewer components leave the
/// trailing components empty.
pub struct StoreKey {
    pub a: String,
    pub b: String,
    pub c: String,
}

impl View for StoreKey {
    type V = KeyView;

    open spec fn view(&self) -> KeyView {
        (self.a@, self.b@, self.c@)
    }
}

/// Strict order on key values: lexicographic across the three components.
pub open spec fn key_lt(x: KeyView, y: KeyView) -> bool {
    seq_lt(x.0, y.0) || (x.0 == y.0 && (seq_lt(x.1, y.1) || (x.1 == y.1 && seq_lt(
        x.2,
        y.2,
    ))))
}

/// Of two key values, exactly one of `key_lt(x, y)`, `x == y`, `key_lt(y, x)` holds.
pub proof fn lemma_key_lt_trichotomy(x: KeyView, y: KeyView)
    ensures
        key_lt(x, y) || key_lt(y, x) || x == y,
        key_lt(x, y) ==> !key_lt(y, x) && x != y,
        key_lt(y, x) ==> !key_lt(x, y) && x != y,
{
    lemma_seq_lt_trichotomy(x.0, y.0);
    lemma_seq_lt_trichotomy(x.1, y.1);
    lemma_seq_lt_trichotomy(x.2, y.2);
}

/// The key order is transitive.
pub proof fn lemma_key_lt_trans(x: KeyView, y: KeyView, z: KeyView)
    requires
        key_lt(x, y),
        key_lt(y, z),
    ensures
        key_lt(x, z),
{
    if seq_lt(x.0, y.0) && seq_lt(y.0, z.0) {
        lemma_seq_lt_trans(x.0, y.0, z.0);
    }
    if x.0 == z.0 && x.1 != z.1 {
        if seq_lt(x.1, y.1) && seq_lt(y.1, z.1) {
            lemma_seq_lt_trans(x.1, y.1, z.1);
        }
    }
    if x.0 == z.0 && x.1 == z.1 {
        if seq_lt(x.2, y.2) && seq_lt(y.2, z.2) {
            lemma_seq_lt_trans(x.2, y.2, z.2);
        }
    }
    lemma_seq_lt_trichotomy(x.0, y.0);
    lemma_seq_lt_trichotomy(y.0, z.0);
    lemma_seq_lt_trichotomy(x.1, y.1);
    lemma_seq_lt_trichotomy(y.1, z.1);
}

impl StoreKey {
    /// Builds a key from its components.
    pub fn new(a: String, b: String, c: String) -> (r: StoreKey)
        ensures
            r@ == (a@, b@, c@),
    {
        StoreKey { a, b, c }
    }

    /// Decides `key_lt(self@, other@)`.
    pub fn lt(&self, other: &StoreKey) -> (r: bool)
        ensures
            r == key_lt(self@, other@),
    {
        if str_lt(self.a.as_str(), other.a.as_str()) {
            true
        } else if !(self.a == other.a) {
            false
        } else if str_lt(self.b.as_str(), other.b.as_str()) {
            true
        } else if !(self.b == other.b) {
            false
        } else {
            str_lt(self.c.as_str(), other.c.as_str())
        }
    }

    /// Decides `self@ == other@`.
    pub fn eq_view(&self, other: &StoreKey) -> (r: bool)
        ensures
            r == (self@ == other@),
    {
        self.a == other.a && self.b == other.b && self.c == other.c
    }

}

} // verus!
