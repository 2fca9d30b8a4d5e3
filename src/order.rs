//! Lexicographic order on texts and a stable sort of indices by text key.
use vstd::prelude::*;
use vstd::string::*;

verus! {

/// Lexicographic order on texts, comparing characters by code point: the
/// order of `str`'s comparison operators.
pub open spec fn text_le(a: Seq<char>, b: Seq<char>) -> bool
    decreases a.len(),
{
    if a.len() == 0 {
        true
    } else if b.len() == 0 {
        false
    } else if (a[0] as u32) != (b[0] as u32) {
        (a[0] as u32) < (b[0] as u32)
    } else {
        text_le(a.drop_first(), b.drop_first())
    }
}

/// Any two texts are ordered one way or the other.
pub proof fn text_le_total(a: Seq<char>, b: Seq<char>)
    ensures
        text_le(a, b) || text_le(b, a),
    decreases a.len(),
{
    if a.len() > 0 && b.len() > 0 && (a[0] as u32) == (b[0] as u32) {
        text_le_total(a.drop_first(), b.drop_first());
    }
}

/// The order is reflexive.
pub proof fn text_le_reflexive(a: Seq<char>)
    ensures
        text_le(a, a),
    decreases a.len(),
{
    if a.len() > 0 {
        text_le_reflexive(a.drop_first());
    }
}

/// The order is transitive.
pub proof fn text_le_transitive(a: Seq<char>, b: Seq<char>, c: Seq<char>)
    requires
        text_le(a, b),
        text_le(b, c),
    ensures
        text_le(a, c),
    decreases a.len(),
{
    if a.len() > 0 && b.len() > 0 && c.len() > 0 && (a[0] as u32) == (b[0] as u32) && (b[0] as u32)
        == (c[0] as u32) {
        text_le_transitive(a.drop_first(), b.drop_first(), c.drop_first());
    }
}

/// Whether `a` comes no later than `b` in lexicographic order.
pub fn text_less_eq(a: &str, b: &str) -> (r: bool)
    ensures
        r == text_le(a@, b@),
{
    let n = a.unicode_len();
    let m = b.unicode_len();
    let mut i: usize = 0;
    assert(a@.skip(0) =~= a@);
    assert(b@.skip(0) =~= b@);
    while i < n && i < m
        invariant
            n == a@.len(),
            m == b@.len(),
            0 <= i <= n,
            i <= m,
            text_le(a@, b@) == text_le(a@.skip(i as int), b@.skip(i as int)),
        decreases n - i,
    {
        let x = a.get_char(i);
        let y = b.get_char(i);
        assert(a@.skip(i as int)[0] == x);
        assert(b@.skip(i as int)[0] == y);
        if x as u32 != y as u32 {
            return (x as u32) < (y as u32);
        }
        assert(a@.skip(i as int).drop_first() =~= a@.skip(i + 1));
        assert(b@.skip(i as int).drop_first() =~= b@.skip(i + 1));
        i += 1;
    }
    i == n
}

/// `p` lists each index below `n` exactly once.
pub open spec fn is_permutation(p: Seq<usize>, n: nat) -> bool {
    &&& p.len() == n
    &&& forall|i: int| 0 <= i < n ==> #[trigger] p[i] < n
    &&& forall|i: int, j: int| 0 <= i < n && 0 <= j < n && #[trigger] p[i] == #[trigger] p[j] ==> i == j
}

/// Listing `keys` in the order of `p` gives an ascending sequence.
pub open spec fn sorts(p: Seq<usize>, keys: Seq<Seq<char>>) -> bool {
    forall|i: int, j: int|
        0 <= i < j < p.len() ==> text_le(#[trigger] keys[p[i] as int], #[trigger] keys[p[j] as int])
}

/// `r` lists the elements of `s`, each once, in the order of the
/// permutation `p`.
pub open spec fn arranged<A>(r: Seq<A>, s: Seq<A>, p: Seq<usize>) -> bool {
    &&& is_permutation(p, s.len())
    &&& r.len() == s.len()
    &&& forall|i: int| 0 <= i < r.len() ==> #[trigger] r[i] == s[p[i] as int]
}

/// `r` lists the elements of `s`, each once, in some order.
pub open spec fn rearranges<A>(r: Seq<A>, s: Seq<A>) -> bool {
    exists|p: Seq<usize>| arranged(r, s, p)
}

/// The indices of `keys` in ascending order of key; indices of equal keys
/// keep their relative order.
pub fn sorted_order(keys: &Vec<String>) -> (r: Vec<usize>)
    ensures
        is_permutation(r@, keys@.len()),
        sorts(r@, keys@.map_values(|k: String| k@)),
{
    let ghost ks = keys@.map_values(|k: String| k@);
    let n = keys.len();
    let mut r: Vec<usize> = Vec::new();
    let mut k: usize = 0;
    while k < n
        invariant
            n == keys@.len(),
            ks == keys@.map_values(|k: String| k@),
            0 <= k <= n,
            is_permutation(r@, k as nat),
            sorts(r@, ks),
        decreases n - k,
    {
        let key = keys[k].as_str();
        assert(key@ == ks[k as int]);
        let mut p: usize = 0;
        while p < r.len() && text_less_eq(keys[r[p]].as_str(), key)
            invariant
                n == keys@.len(),
                ks == keys@.map_values(|k: String| k@),
                0 <= k < n,
                key@ == ks[k as int],
                is_permutation(r@, k as nat),
                sorts(r@, ks),
                0 <= p <= r@.len(),
                forall|q: int| 0 <= q < p ==> text_le(#[trigger] ks[r@[q] as int], key@),
            decreases r@.len() - p,
        {
            p += 1;
        }
        let ghost old_r = r@;
        r.insert(p, k);
        proof {
            old_r.insert_ensures(p as int, k);
            assert(p < old_r.len() ==> !text_le(ks[old_r[p as int] as int], key@));
            if p < old_r.len() {
                text_le_total(ks[old_r[p as int] as int], key@);
            }
            assert forall|i: int, j: int| 0 <= i < j < r@.len() implies text_le(
                #[trigger] ks[r@[i] as int],
                #[trigger] ks[r@[j] as int],
            ) by {
                if j == p {
                    assert(r@[i] == old_r[i]);
                } else if i == p {
                    assert(r@[j] == old_r[j - 1]);
                    if j - 1 > p {
                        assert(text_le(ks[old_r[p as int] as int], ks[old_r[j - 1] as int]));
                        text_le_transitive(key@, ks[old_r[p as int] as int], ks[old_r[j - 1] as int]);
                    }
                } else if i < p && j < p {
                    assert(r@[i] == old_r[i] && r@[j] == old_r[j]);
                } else if i < p {
                    assert(r@[i] == old_r[i] && r@[j] == old_r[j - 1]);
                } else {
                    assert(r@[i] == old_r[i - 1] && r@[j] == old_r[j - 1]);
                }
            }
            assert forall|i: int, j: int|
                0 <= i < k + 1 && 0 <= j < k + 1 && #[trigger] r@[i] == #[trigger] r@[j] implies i
                == j by {
                if i != p && j != p {
                    let oi = if i < p { i } else { i - 1 };
                    let oj = if j < p { j } else { j - 1 };
                    assert(r@[i] == old_r[oi] && r@[j] == old_r[oj]);
                } else if i != p {
                    let oi = if i < p { i } else { i - 1 };
                    assert(r@[i] == old_r[oi]);
                } else if j != p {
                    let oj = if j < p { j } else { j - 1 };
                    assert(r@[j] == old_r[oj]);
                }
            }
            assert forall|i: int| 0 <= i < k + 1 implies #[trigger] r@[i] < k + 1 by {
                if i < p {
                    assert(r@[i] == old_r[i]);
                } else if i > p {
                    assert(r@[i] == old_r[i - 1]);
                }
            }
        }
        k += 1;
    }
    r
}

} // verus!
