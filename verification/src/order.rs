//! The order in which digests are compared.
//!
//! Digests are compared as text, character by character, the way strings are
//! ordered. The search compares the raw bytes instead; for hexadecimal text the
//! two orders are the same, which is proved here.

use vstd::prelude::*;
use crate::encoding::{hex_encoded, lemma_hex_alphabet};

verus! {

/// Whether the text `a` comes before the text `b`: at the first position where
/// they differ `a` has the lower character, or `a` ends there and `b` goes on.
pub open spec fn text_less(a: Seq<char>, b: Seq<char>) -> bool
    decreases a.len(),
{
    if b.len() == 0 {
        false
    } else if a.len() == 0 {
        true
    } else if a[0] != b[0] {
        a[0] < b[0]
    } else {
        text_less(a.drop_first(), b.drop_first())
    }
}

/// Whether the bytes `a` come before the bytes `b`: at the first position
/// where they differ `a` has the lower byte, or `a` ends there and `b` goes on.
pub open spec fn bytes_less(a: Seq<u8>, b: Seq<u8>) -> bool
    decreases a.len(),
{
    if b.len() == 0 {
        false
    } else if a.len() == 0 {
        true
    } else if a[0] != b[0] {
        a[0] < b[0]
    } else {
        bytes_less(a.drop_first(), b.drop_first())
    }
}

/// No text comes before itself.
pub proof fn lemma_text_less_irreflexive(a: Seq<char>)
    ensures
        !text_less(a, a),
    decreases a.len(),
{
    if a.len() > 0 {
        lemma_text_less_irreflexive(a.drop_first());
    }
}

/// The order of texts is transitive.
pub proof fn lemma_text_less_transitive(a: Seq<char>, b: Seq<char>, c: Seq<char>)
    requires
        text_less(a, b),
        text_less(b, c),
    ensures
        text_less(a, c),
    decreases a.len(),
{
    if a.len() > 0 && a[0] == b[0] && b[0] == c[0] {
        lemma_text_less_transitive(a.drop_first(), b.drop_first(), c.drop_first());
    }
}

/// The order of texts is total: of two different texts one comes before the
/// other.
pub proof fn lemma_text_less_total(a: Seq<char>, b: Seq<char>)
    ensures
        text_less(a, b) || text_less(b, a) || a == b,
    decreases a.len(),
{
    if a.len() > 0 && b.len() > 0 && a[0] == b[0] {
        lemma_text_less_total(a.drop_first(), b.drop_first());
        if a.drop_first() == b.drop_first() {
            assert(a =~= seq![a[0]] + a.drop_first());
            assert(b =~= seq![b[0]] + b.drop_first());
        }
    }
}

/// Writing bytes as hexadecimal text keeps their order: the text of `a` comes
/// before the text of `b` exactly when the bytes of `a` come before the bytes
/// of `b`.
pub proof fn lemma_hex_keeps_order(a: Seq<u8>, b: Seq<u8>)
    ensures
        text_less(hex_encoded(a), hex_encoded(b)) == bytes_less(a, b),
    decreases a.len(),
{
    lemma_hex_alphabet();
    let ta = hex_encoded(a);
    let tb = hex_encoded(b);
    if a.len() > 0 && b.len() > 0 {
        let ra = ta.drop_first();
        let rb = tb.drop_first();
        assert(ra.drop_first() =~= hex_encoded(a.drop_first()));
        assert(rb.drop_first() =~= hex_encoded(b.drop_first()));
        lemma_hex_keeps_order(a.drop_first(), b.drop_first());
        if a[0] / 16 == b[0] / 16 {
            assert(text_less(ta, tb) == text_less(ra, rb));
        }
    }
}

/// Whether the bytes `a` come before the bytes `b`.
pub fn digest_less(a: &[u8], b: &[u8]) -> (r: bool)
    ensures
        r == bytes_less(a@, b@),
        r == text_less(hex_encoded(a@), hex_encoded(b@)),
{
    proof {
        lemma_hex_keeps_order(a@, b@);
        assert(a@.skip(0) == a@ && b@.skip(0) == b@);
    }
    let mut i: usize = 0;
    while i < a.len() && i < b.len()
        invariant
            i <= a@.len(),
            i <= b@.len(),
            bytes_less(a@, b@) == text_less(hex_encoded(a@), hex_encoded(b@)),
            bytes_less(a@, b@) == bytes_less(a@.skip(i as int), b@.skip(i as int)),
        decreases a@.len() - i,
    {
        if a[i] != b[i] {
            return a[i] < b[i];
        }
        assert(a@.skip(i as int).drop_first() == a@.skip(i + 1));
        assert(b@.skip(i as int).drop_first() == b@.skip(i + 1));
        i = i + 1;
    }
    i < b.len()
}

} // verus!
