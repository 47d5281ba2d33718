//! The order in which a map lists its keys.
//!
//! Keys are strings, and Rust orders strings by the bytes of their UTF-8
//! encoding, lexicographically. This module states that order over `Seq<u8>`
//! and `Seq<char>`, proves that it is a strict total order, and decides it on
//! two string slices.
use vstd::prelude::*;
use vstd::utf8::*;

verus! {

/// `a` comes before `b` in lexicographic order: at the first position where
/// the two differ `a` holds the smaller byte, or `a` is a proper prefix of `b`.
pub open spec fn bytes_lt(a: Seq<u8>, b: Seq<u8>) -> bool
    decreases a.len(),
{
    if b.len() == 0 {
        false
    } else if a.len() == 0 {
        true
    } else if a[0] != b[0] {
        a[0] < b[0]
    } else {
        bytes_lt(a.drop_first(), b.drop_first())
    }
}

/// The order on keys: that of their UTF-8 encodings.
pub open spec fn key_lt(a: Seq<char>, b: Seq<char>) -> bool {
    bytes_lt(encode_utf8(a), encode_utf8(b))
}

/// A sequence of keys in strictly increasing order.
pub open spec fn strictly_increasing(keys: Seq<Seq<char>>) -> bool {
    forall|i: int, j: int| 0 <= i < j < keys.len() ==> key_lt(keys[i], keys[j])
}

/// How one key stands to another.
#[derive(Clone, Copy, Debug, PartialEq, Eq, Structural)]
pub enum KeyOrder {
    Before,
    Same,
    After,
}

/// No byte string comes before itself.
pub proof fn lemma_bytes_lt_irreflexive(a: Seq<u8>)
    ensures
        !bytes_lt(a, a),
    decreases a.len(),
{
    if a.len() > 0 {
        lemma_bytes_lt_irreflexive(a.drop_first());
    }
}

/// `bytes_lt` is transitive.
pub proof fn lemma_bytes_lt_transitive(a: Seq<u8>, b: Seq<u8>, c: Seq<u8>)
    requires
        bytes_lt(a, b),
        bytes_lt(b, c),
    ensures
        bytes_lt(a, c),
    decreases a.len(),
{
    if a.len() > 0 && a[0] == b[0] && b[0] == c[0] {
        lemma_bytes_lt_transitive(a.drop_first(), b.drop_first(), c.drop_first());
    }
}

/// Two different byte strings are ordered one way or the other.
pub proof fn lemma_bytes_lt_total(a: Seq<u8>, b: Seq<u8>)
    ensures
        a == b || bytes_lt(a, b) || bytes_lt(b, a),
    decreases a.len(),
{
    if a.len() == 0 || b.len() == 0 {
        if a.len() == 0 && b.len() == 0 {
            assert(a =~= b);
        }
    } else if a[0] == b[0] {
        lemma_bytes_lt_total(a.drop_first(), b.drop_first());
        if a.drop_first() == b.drop_first() {
            assert(a =~= seq![a[0]] + a.drop_first());
            assert(b =~= seq![b[0]] + b.drop_first());
        }
    }
}

/// Two byte strings that agree on their first `n` bytes are ordered as what
/// follows those bytes is.
pub proof fn lemma_bytes_lt_skip(a: Seq<u8>, b: Seq<u8>, n: int)
    requires
        0 <= n <= a.len(),
        n <= b.len(),
        forall|k: int| 0 <= k < n ==> a[k] == b[k],
    ensures
        bytes_lt(a, b) == bytes_lt(a.skip(n), b.skip(n)),
    decreases n,
{
    if n == 0 {
        assert(a.skip(0) =~= a);
        assert(b.skip(0) =~= b);
    } else {
        lemma_bytes_lt_skip(a.drop_first(), b.drop_first(), n - 1);
        assert(a.drop_first().skip(n - 1) =~= a.skip(n));
        assert(b.drop_first().skip(n - 1) =~= b.skip(n));
    }
}

/// Keys with the same encoding are the same key.
pub proof fn lemma_encoding_injective(a: Seq<char>, b: Seq<char>)
    requires
        encode_utf8(a) == encode_utf8(b),
    ensures
        a == b,
{
    encode_utf8_decode_utf8(a);
    encode_utf8_decode_utf8(b);
}

/// No key comes before itself.
pub proof fn lemma_key_lt_irreflexive(a: Seq<char>)
    ensures
        !key_lt(a, a),
{
    lemma_bytes_lt_irreflexive(encode_utf8(a));
}

/// `key_lt` is transitive.
pub proof fn lemma_key_lt_transitive(a: Seq<char>, b: Seq<char>, c: Seq<char>)
    requires
        key_lt(a, b),
        key_lt(b, c),
    ensures
        key_lt(a, c),
{
    lemma_bytes_lt_transitive(encode_utf8(a), encode_utf8(b), encode_utf8(c));
}

/// Of two keys exactly one holds: they are equal, the first comes before the
/// second, or the second before the first.
pub proof fn lemma_key_lt_trichotomy(a: Seq<char>, b: Seq<char>)
    ensures
        a == b || key_lt(a, b) || key_lt(b, a),
        !(a == b && key_lt(a, b)),
        !(a == b && key_lt(b, a)),
        !(key_lt(a, b) && key_lt(b, a)),
{
    let x = encode_utf8(a);
    let y = encode_utf8(b);
    lemma_bytes_lt_total(x, y);
    if x == y {
        lemma_encoding_injective(a, b);
    }
    lemma_bytes_lt_irreflexive(x);
    if bytes_lt(x, y) && bytes_lt(y, x) {
        lemma_bytes_lt_transitive(x, y, x);
    }
}

/// Compares two keys: `Before` where `a` comes before `b`, `After` where `b`
/// comes before `a`, `Same` where they are the same string.
pub fn compare_keys(a: &str, b: &str) -> (order: KeyOrder)
    ensures
        order == KeyOrder::Before <==> key_lt(a@, b@),
        order == KeyOrder::Same <==> a@ == b@,
        order == KeyOrder::After <==> key_lt(b@, a@),
{
    let x = a.as_bytes();
    let y = b.as_bytes();
    let mut i: usize = 0;
    while i < x.len() && i < y.len() && x[i] == y[i]
        invariant
            i <= x.len(),
            i <= y.len(),
            forall|k: int| 0 <= k < i ==> x@[k] == y@[k],
        decreases x.len() - i,
    {
        i += 1;
    }
    proof {
        lemma_bytes_lt_skip(x@, y@, i as int);
        lemma_bytes_lt_skip(y@, x@, i as int);
        lemma_key_lt_trichotomy(a@, b@);
    }
    if i == x.len() {
        if i == y.len() {
            proof {
                assert(x@ =~= y@);
                lemma_encoding_injective(a@, b@);
            }
            KeyOrder::Same
        } else {
            KeyOrder::Before
        }
    } else if i == y.len() {
        KeyOrder::After
    } else if x[i] < y[i] {
        KeyOrder::Before
    } else {
        KeyOrder::After
    }
}

} // verus!
