//! Text order of strings (lexicographic over their UTF-8 bytes, the order of
//! `str`'s `Ord`) and sorted sets of strings kept in that order.
use vstd::prelude::*;
use vstd::utf8::{decode_utf8, encode_utf8, encode_utf8_decode_utf8};
use crate::text::str_eq;

verus! {

/// Lexicographic order on byte sequences: a proper prefix sorts first.
pub open spec fn bytes_lt(a: Seq<u8>, b: Seq<u8>) -> bool
    decreases a.len(),
{
    if a.len() == 0 {
        b.len() > 0
    } else if b.len() == 0 {
        false
    } else if a[0] < b[0] {
        true
    } else if a[0] > b[0] {
        false
    } else {
        bytes_lt(a.drop_first(), b.drop_first())
    }
}

/// Text order of two strings.
pub open spec fn text_lt(a: Seq<char>, b: Seq<char>) -> bool {
    bytes_lt(encode_utf8(a), encode_utf8(b))
}

pub proof fn lemma_bytes_lt_irreflexive(a: Seq<u8>)
    ensures
        !bytes_lt(a, a),
    decreases a.len(),
{
    if a.len() > 0 {
        lemma_bytes_lt_irreflexive(a.drop_first());
    }
}

pub proof fn lemma_bytes_lt_asymmetric(a: Seq<u8>, b: Seq<u8>)
    requires
        bytes_lt(a, b),
    ensures
        !bytes_lt(b, a),
    decreases a.len(),
{
    if a.len() > 0 && b.len() > 0 && a[0] == b[0] {
        lemma_bytes_lt_asymmetric(a.drop_first(), b.drop_first());
    }
}

pub proof fn lemma_bytes_lt_transitive(a: Seq<u8>, b: Seq<u8>, c: Seq<u8>)
    requires
        bytes_lt(a, b),
        bytes_lt(b, c),
    ensures
        bytes_lt(a, c),
    decreases a.len(),
{
    if a.len() > 0 && b.len() > 0 && c.len() > 0 && a[0] == b[0] && b[0] == c[0] {
        lemma_bytes_lt_transitive(a.drop_first(), b.drop_first(), c.drop_first());
    }
}

pub proof fn lemma_bytes_lt_total(a: Seq<u8>, b: Seq<u8>)
    requires
        a != b,
    ensures
        bytes_lt(a, b) || bytes_lt(b, a),
    decreases a.len(),
{
    if a.len() > 0 && b.len() > 0 && a[0] == b[0] {
        if a.drop_first() == b.drop_first() {
            assert(a =~= seq![a[0]] + a.drop_first());
            assert(b =~= seq![b[0]] + b.drop_first());
        }
        lemma_bytes_lt_total(a.drop_first(), b.drop_first());
    }
    if a.len() == 0 && b.len() == 0 {
        assert(a =~= b);
    }
}

/// Distinct strings have distinct UTF-8 encodings.
pub proof fn lemma_encode_injective(a: Seq<char>, b: Seq<char>)
    requires
        encode_utf8(a) == encode_utf8(b),
    ensures
        a == b,
{
    encode_utf8_decode_utf8(a);
    encode_utf8_decode_utf8(b);
}

/// Text order is a strict total order.
pub proof fn lemma_text_order(a: Seq<char>, b: Seq<char>, c: Seq<char>)
    ensures
        !text_lt(a, a),
        text_lt(a, b) ==> !text_lt(b, a),
        text_lt(a, b) && text_lt(b, c) ==> text_lt(a, c),
        a != b ==> text_lt(a, b) || text_lt(b, a),
{
    lemma_bytes_lt_irreflexive(encode_utf8(a));
    if text_lt(a, b) {
        lemma_bytes_lt_asymmetric(encode_utf8(a), encode_utf8(b));
    }
    if text_lt(a, b) && text_lt(b, c) {
        lemma_bytes_lt_transitive(encode_utf8(a), encode_utf8(b), encode_utf8(c));
    }
    if a != b {
        if encode_utf8(a) == encode_utf8(b) {
            lemma_encode_injective(a, b);
        }
        lemma_bytes_lt_total(encode_utf8(a), encode_utf8(b));
    }
}

/// `PartialOrd::lt` on string slices: lexicographic over the UTF-8 bytes.
#[verifier::external_body]
pub(crate) fn str_lt(a: &str, b: &str) -> (r: bool)
    ensures
        r == text_lt(a@, b@),
{
    a < b
}

/// `v` is strictly increasing in text order (so it holds no duplicates).
pub open spec fn strictly_sorted(v: Seq<String>) -> bool {
    forall|i: int, j: int| 0 <= i < j < v.len() ==> text_lt(#[trigger] v[i]@, #[trigger] v[j]@)
}

/// The set of strings held by `v`.
pub open spec fn text_set(v: Seq<String>) -> Set<Seq<char>> {
    Set::new(|x: Seq<char>| exists|i: int| 0 <= i < v.len() && #[trigger] v[i]@ == x)
}

/// Appending a string adds it to the set held.
pub proof fn lemma_text_set_push(v: Seq<String>, s: String)
    ensures
        text_set(v.push(s)) == text_set(v).insert(s@),
{
    let p = v.push(s);
    assert forall|x: Seq<char>| text_set(p).contains(x) <==> text_set(v).insert(s@).contains(x) by {
        if text_set(p).contains(x) {
            let k = choose|k: int| 0 <= k < p.len() && #[trigger] p[k]@ == x;
            if k < v.len() {
                assert(v[k]@ == x);
            }
        }
        if text_set(v).contains(x) {
            let k = choose|k: int| 0 <= k < v.len() && #[trigger] v[k]@ == x;
            assert(p[k]@ == x);
        }
        if x == s@ {
            assert(p[v.len() as int]@ == x);
        }
    }
    assert(text_set(p) =~= text_set(v).insert(s@));
}

/// Whether `x` is one of the strings of `v`.
pub fn contains_text(v: &Vec<String>, x: &str) -> (r: bool)
    ensures
        r == text_set(v@).contains(x@),
{
    let mut i: usize = 0;
    while i < v.len()
        invariant
            i <= v@.len(),
            forall|k: int| 0 <= k < i ==> v@[k]@ != x@,
        decreases v@.len() - i,
    {
        if str_eq(v[i].as_str(), x) {
            assert(v@[i as int]@ == x@);
            return true;
        }
        i += 1;
    }
    false
}

/// Insert `x` into the strictly sorted `v`, unless it is already there.
pub fn sorted_insert(v: &mut Vec<String>, x: &str)
    requires
        strictly_sorted(old(v)@),
    ensures
        strictly_sorted(final(v)@),
        text_set(final(v)@) == text_set(old(v)@).insert(x@),
{
    let mut p: usize = 0;
    while p < v.len() && str_lt(v[p].as_str(), x)
        invariant
            p <= v@.len(),
            v@ == old(v)@,
            strictly_sorted(v@),
            forall|i: int| 0 <= i < p ==> text_lt(#[trigger] v@[i]@, x@),
        decreases v@.len() - p,
    {
        p += 1;
    }
    if p < v.len() && str_eq(v[p].as_str(), x) {
        proof {
            assert(text_set(v@).insert(x@) =~= text_set(v@)) by {
                assert(v@[p as int]@ == x@);
            }
        }
        return;
    }
    proof {
        if p < v@.len() {
            lemma_text_order(v@[p as int]@, x@, x@);
        }
    }
    v.insert(p, crate::text::from_str(x));
    proof {
        let o = old(v)@;
        let n = v@;
        assert(n.len() == o.len() + 1);
        assert forall|i: int, j: int| 0 <= i < j < n.len() implies text_lt(#[trigger] n[i]@, #[trigger] n[j]@) by {
            if j < p {
                assert(n[i] == o[i] && n[j] == o[j]);
            } else if j == p {
                assert(n[j]@ == x@);
                assert(n[i] == o[i]);
            } else if i == p {
                assert(n[j] == o[j - 1]);
                if j - 1 > p {
                    lemma_text_order(x@, o[p as int]@, o[j - 1]@);
                }
            } else if i < p {
                assert(n[i] == o[i] && n[j] == o[j - 1]);
                lemma_text_order(o[i]@, x@, o[j - 1]@);
                if (j - 1) as int != p as int {
                    lemma_text_order(x@, o[p as int]@, o[j - 1]@);
                }
            } else {
                assert(n[i] == o[i - 1] && n[j] == o[j - 1]);
            }
        }
        assert forall|s: Seq<char>| text_set(n).contains(s) <==> text_set(o).insert(x@).contains(s) by {
            if text_set(n).contains(s) {
                let k = choose|k: int| 0 <= k < n.len() && #[trigger] n[k]@ == s;
                if k < p {
                    assert(o[k]@ == s);
                } else if k > p {
                    assert(o[k - 1]@ == s);
                }
            }
            if text_set(o).contains(s) {
                let k = choose|k: int| 0 <= k < o.len() && #[trigger] o[k]@ == s;
                if k < p {
                    assert(n[k]@ == s);
                } else {
                    assert(n[k + 1]@ == s);
                }
            }
            if s == x@ {
                assert(n[p as int]@ == s);
            }
        }
        assert(text_set(n) =~= text_set(o).insert(x@));
    }
}

} // verus!
