//! Stable ordering by a key made of a rank and a text, the order every list
//! of the library is presented in (`sort_by` on a rank, then on a lowercase
//! name, keeping the input order of equal keys).

use crate::text::{chars_eq, chars_lex_less, lemma_lex_irreflexive, lemma_lex_total, lemma_lex_transitive, lex_lt};
use vstd::prelude::*;

verus! {

/// A sort key: ascending `rank`, then ascending `text` (code-point order).
pub struct OrderKey {
    pub rank: u64,
    pub text: Vec<char>,
}

impl View for OrderKey {
    type V = (u64, Seq<char>);

    open spec fn view(&self) -> (u64, Seq<char>) {
        (self.rank, self.text@)
    }
}

/// Strict order of keys.
pub open spec fn key_lt(a: (u64, Seq<char>), b: (u64, Seq<char>)) -> bool {
    a.0 < b.0 || (a.0 == b.0 && lex_lt(a.1, b.1))
}

/// In a stable sort of `keys`, the item at input position `i` comes before
/// the one at input position `j`.
pub open spec fn comes_before(keys: Seq<(u64, Seq<char>)>, i: int, j: int) -> bool {
    key_lt(keys[i], keys[j]) || (keys[i] == keys[j] && i < j)
}

/// `perm` lists each input position below `n` exactly once.
pub open spec fn is_permutation(perm: Seq<usize>, n: nat) -> bool {
    &&& perm.len() == n
    &&& forall|k: int| 0 <= k < perm.len() ==> #[trigger] perm[k] < n
    &&& perm.no_duplicates()
}

/// `perm` is the order of a stable sort of `keys`: a permutation in which
/// every earlier position comes before every later one.  Exactly one such
/// permutation exists.
pub open spec fn is_stable_order(keys: Seq<(u64, Seq<char>)>, perm: Seq<usize>) -> bool {
    &&& is_permutation(perm, keys.len())
    &&& forall|a: int, b: int|
        0 <= a < b < perm.len() ==> comes_before(keys, #[trigger] perm[a] as int, #[trigger] perm[b] as int)
}

/// The items listed in the order `perm`.
pub open spec fn permuted<T>(items: Seq<T>, perm: Seq<usize>) -> Seq<T> {
    perm.map_values(|j: usize| items[j as int])
}

pub open spec fn keys_view(keys: Seq<OrderKey>) -> Seq<(u64, Seq<char>)> {
    keys.map_values(|k: OrderKey| k@)
}

/// An optional position as an integer.
pub open spec fn opt_index(o: Option<usize>) -> Option<int> {
    match o {
        Some(i) => Some(i as int),
        None => None,
    }
}

/// The first position below `n` where `p` holds.
pub open spec fn first_where(n: nat, p: spec_fn(int) -> bool) -> Option<int>
    decreases n,
{
    if n == 0 {
        None
    } else {
        match first_where((n - 1) as nat, p) {
            Some(i) => Some(i),
            None => if p(n - 1) {
                Some(n - 1)
            } else {
                None
            },
        }
    }
}

/// `first_where` is the least position where the predicate holds.
pub proof fn lemma_first_where(n: nat, p: spec_fn(int) -> bool)
    ensures
        match first_where(n, p) {
            Some(i) => 0 <= i < n && p(i) && forall|j: int| 0 <= j < i ==> !#[trigger] p(j),
            None => forall|j: int| 0 <= j < n ==> !#[trigger] p(j),
        },
    decreases n,
{
    if n > 0 {
        lemma_first_where((n - 1) as nat, p);
    }
}

/// A position where `p` holds and before which it never does is the first.
pub proof fn lemma_first_where_at(n: nat, p: spec_fn(int) -> bool, i: int)
    requires
        0 <= i < n,
        p(i),
        forall|j: int| 0 <= j < i ==> !#[trigger] p(j),
    ensures
        first_where(n, p) == Some(i),
{
    lemma_first_where(n, p);
    match first_where(n, p) {
        Some(k) => {
            if k < i {
            } else if k > i {
            }
        },
        None => {},
    }
}

/// Where `p` never holds below `n`, there is no first position.
pub proof fn lemma_first_where_none(n: nat, p: spec_fn(int) -> bool)
    requires
        forall|j: int| 0 <= j < n ==> !#[trigger] p(j),
    ensures
        first_where(n, p) is None,
{
    lemma_first_where(n, p);
}

proof fn lemma_key_lt_transitive(a: (u64, Seq<char>), b: (u64, Seq<char>), c: (u64, Seq<char>))
    requires
        key_lt(a, b),
        key_lt(b, c),
    ensures
        key_lt(a, c),
{
    if a.0 == b.0 && b.0 == c.0 {
        lemma_lex_transitive(a.1, b.1, c.1);
    }
}
proof fn lemma_key_total(a: (u64, Seq<char>), b: (u64, Seq<char>))
    ensures
        key_lt(a, b) || a == b || key_lt(b, a),
{
    lemma_lex_total(a.1, b.1);
}

/// Whether key `a` is strictly below key `b`.
pub fn key_less(a: &OrderKey, b: &OrderKey) -> (r: bool)
    ensures
        r == key_lt(a@, b@),
{
    if a.rank < b.rank {
        true
    } else if a.rank > b.rank {
        false
    } else {
        chars_lex_less(&a.text, &b.text)
    }
}

/// The order of a stable sort of `keys` (insertion sort).
pub fn stable_order(keys: &Vec<OrderKey>) -> (perm: Vec<usize>)
    ensures
        is_stable_order(keys_view(keys@), perm@),
{
    let ghost ks = keys_view(keys@);
    let n = keys.len();
    let mut perm: Vec<usize> = Vec::new();
    let mut i: usize = 0;
    while i < n
        invariant
            n == keys@.len(),
            ks == keys_view(keys@),
            ks.len() == n,
            i <= n,
            perm@.len() == i,
            forall|k: int| 0 <= k < perm@.len() ==> #[trigger] perm@[k] < i,
            perm@.no_duplicates(),
            forall|a: int, b: int|
                0 <= a < b < perm@.len() ==> comes_before(ks, #[trigger] perm@[a] as int, #[trigger] perm@[b] as int),
        decreases n - i,
    {
        let mut p: usize = 0;
        while p < perm.len() && !key_less(&keys[i], &keys[perm[p]])
            invariant
                n == keys@.len(),
                ks == keys_view(keys@),
                i < n,
                p <= perm@.len(),
                forall|k: int| 0 <= k < perm@.len() ==> #[trigger] perm@[k] < i,
                forall|q: int| 0 <= q < p ==> !key_lt(ks[i as int], #[trigger] ks[perm@[q] as int]),
            decreases perm@.len() - p,
        {
            p = p + 1;
        }
        let ghost old_perm = perm@;
        proof {
            assert forall|q: int| 0 <= q < p implies comes_before(ks, #[trigger] old_perm[q] as int, i as int) by {
                lemma_key_total(ks[old_perm[q] as int], ks[i as int]);
            }
            assert forall|q: int| p <= q < old_perm.len() implies key_lt(ks[i as int], #[trigger] ks[old_perm[q] as int]) by {
                if q > p {
                    assert(comes_before(ks, old_perm[p as int] as int, old_perm[q] as int));
                    if key_lt(ks[old_perm[p as int] as int], ks[old_perm[q] as int]) {
                        lemma_key_lt_transitive(ks[i as int], ks[old_perm[p as int] as int], ks[old_perm[q] as int]);
                    }
                }
            }
        }
        perm.insert(p, i);
        proof {
            let np = perm@;
            assert(np == old_perm.insert(p as int, i));
            assert forall|a: int, b: int| 0 <= a < b < np.len() implies comes_before(ks, #[trigger] np[a] as int, #[trigger] np[b] as int) by {
                if b < p {
                    assert(np[a] == old_perm[a] && np[b] == old_perm[b]);
                } else if b == p {
                    assert(np[a] == old_perm[a]);
                } else if a < p {
                    assert(np[a] == old_perm[a] && np[b] == old_perm[b - 1]);
                    assert(comes_before(ks, old_perm[a] as int, old_perm[b - 1] as int));
                } else if a == p {
                    assert(np[b] == old_perm[b - 1]);
                } else {
                    assert(np[a] == old_perm[a - 1] && np[b] == old_perm[b - 1]);
                    assert(comes_before(ks, old_perm[a - 1] as int, old_perm[b - 1] as int));
                }
            }
            assert forall|k: int| 0 <= k < np.len() implies #[trigger] np[k] < i + 1 by {
                if k < p {
                    assert(np[k] == old_perm[k]);
                } else if k > p {
                    assert(np[k] == old_perm[k - 1]);
                }
            }
            assert forall|x: int, y: int| 0 <= x < np.len() && 0 <= y < np.len() && x != y implies np[x] != np[y] by {
                if x != p as int && y != p as int {
                    let ox = if x < p { x } else { x - 1 };
                    let oy = if y < p { y } else { y - 1 };
                    assert(np[x] == old_perm[ox] && np[y] == old_perm[oy]);
                } else if x == p as int {
                    let oy = if y < p { y } else { y - 1 };
                    assert(np[y] == old_perm[oy]);
                } else {
                    let ox = if x < p { x } else { x - 1 };
                    assert(np[x] == old_perm[ox]);
                }
            }
        }
        i = i + 1;
    }
    perm
}

/// Moves the items into the order `perm`.
pub fn permute<T>(items: Vec<T>, perm: &Vec<usize>) -> (r: Vec<T>)
    requires
        is_permutation(perm@, items@.len()),
    ensures
        r@ == permuted(items@, perm@),
{
    let n = items.len();
    let ghost orig = items@;
    let mut slots: Vec<Option<T>> = Vec::new();
    for x in it: items
        invariant
            slots@.len() == it.index(),
            forall|k: int| 0 <= k < it.index() ==> #[trigger] slots@[k] == Some(it.seq()[k]),
    {
        slots.push(Some(x));
    }
    assert(slots@.len() == n);
    let mut r: Vec<T> = Vec::new();
    let mut k: usize = 0;
    while k < n
        invariant
            n == orig.len(),
            n == perm@.len(),
            slots@.len() == n,
            is_permutation(perm@, n as nat),
            k <= n,
            r@.len() == k,
            forall|m: int| 0 <= m < k ==> #[trigger] r@[m] == orig[perm@[m] as int],
            forall|m: int| k <= m < n ==> #[trigger] slots@[perm@[m] as int] == Some(orig[perm@[m] as int]),
        decreases n - k,
    {
        let j = perm[k];
        let ghost before = slots@;
        let x = slots[j].take();
        proof {
            assert forall|m: int| k + 1 <= m < n implies #[trigger] slots@[perm@[m] as int] == Some(orig[perm@[m] as int]) by {
                assert(perm@[m] != perm@[k as int]);
                assert(slots@[perm@[m] as int] == before[perm@[m] as int]);
            }
        }
        match x {
            Some(v) => {
                r.push(v);
            },
            None => {
                assert(false);
            },
        }
        k = k + 1;
    }
    assert(r@ =~= permuted(orig, perm@));
    r
}

/// The texts of a list of character vectors.
pub open spec fn texts_view(v: Seq<Vec<char>>) -> Seq<Seq<char>> {
    v.map_values(|t: Vec<char>| t@)
}

/// Strictly increasing in lexicographic order.
pub open spec fn texts_increasing(v: Seq<Seq<char>>) -> bool {
    forall|i: int, j: int| 0 <= i < j < v.len() ==> lex_lt(#[trigger] v[i], #[trigger] v[j])
}

/// Adds the text `x` to a strictly increasing list of texts, keeping it so.
pub fn insert_sorted_text(v: &mut Vec<Vec<char>>, x: Vec<char>)
    requires
        texts_increasing(texts_view(old(v)@)),
    ensures
        texts_increasing(texts_view(final(v)@)),
        forall|y: Seq<char>| texts_view(final(v)@).contains(y) <==> (texts_view(old(v)@).contains(y) || y == x@),
{
    let ghost old_t = texts_view(v@);
    let n = v.len();
    let mut p: usize = 0;
    while p < n && chars_lex_less(&v[p], &x)
        invariant
            n == v@.len(),
            p <= n,
            old_t == texts_view(v@),
            forall|q: int| 0 <= q < p ==> lex_lt(#[trigger] old_t[q], x@),
        decreases n - p,
    {
        p = p + 1;
    }
    if p < n && chars_eq(&v[p], &x) {
        assert(old_t[p as int] == x@);
        assert(old_t.contains(x@));
        return;
    }
    proof {
        if p < n {
            lemma_lex_total(old_t[p as int], x@);
        }
    }
    let ghost xv = x@;
    v.insert(p, x);
    proof {
        let nt = texts_view(v@);
        assert(nt =~= old_t.insert(p as int, xv));
        assert forall|a: int, b: int| 0 <= a < b < nt.len() implies lex_lt(#[trigger] nt[a], #[trigger] nt[b]) by {
            if b < p {
                assert(nt[a] == old_t[a] && nt[b] == old_t[b]);
            } else if b == p {
                assert(nt[a] == old_t[a]);
            } else if a < p {
                assert(nt[a] == old_t[a] && nt[b] == old_t[b - 1]);
            } else if a == p {
                assert(nt[b] == old_t[b - 1]);
                if b - 1 > p {
                    lemma_lex_transitive(xv, old_t[p as int], old_t[b - 1]);
                }
            } else {
                assert(nt[a] == old_t[a - 1] && nt[b] == old_t[b - 1]);
            }
        }
        assert forall|y: Seq<char>| nt.contains(y) <==> (old_t.contains(y) || y == xv) by {
            if nt.contains(y) {
                let k = choose|k: int| 0 <= k < nt.len() && nt[k] == y;
                if k < p {
                    assert(old_t[k] == y);
                } else if k > p {
                    assert(old_t[k - 1] == y);
                }
            }
            if old_t.contains(y) {
                let k = choose|k: int| 0 <= k < old_t.len() && old_t[k] == y;
                if k < p {
                    assert(nt[k] == y);
                } else {
                    assert(nt[k + 1] == y);
                }
            }
            if y == xv {
                assert(nt[p as int] == xv);
            }
        }
        assert forall|y: Seq<char>| texts_view(final(v)@).contains(y) <==> (texts_view(old(v)@).contains(y) || y == xv) by {
            assert(nt.contains(y) <==> (old_t.contains(y) || y == xv));
        }
    }
}

} // verus!
