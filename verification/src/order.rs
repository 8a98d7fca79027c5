//! Orderings on text and sort keys, and a verified stable sort.
//!
//! Strings compare as Rust's `str` does: lexicographically by character
//! (UTF-8 byte order and code-point order agree). Sort keys are pairs of a
//! number and a text, compared number first.

use vstd::prelude::*;

verus! {

/// `a` sorts strictly before `b` (lexicographic by code point; a proper
/// prefix sorts first).
pub open spec fn text_lt(a: Seq<char>, b: Seq<char>) -> bool
    decreases a.len(),
{
    if a.len() == 0 {
        b.len() > 0
    } else if b.len() == 0 {
        false
    } else if a[0] < b[0] {
        true
    } else if a[0] == b[0] {
        text_lt(a.drop_first(), b.drop_first())
    } else {
        false
    }
}

pub proof fn lemma_text_lt_irreflexive(a: Seq<char>)
    ensures
        !text_lt(a, a),
    decreases a.len(),
{
    if a.len() > 0 {
        lemma_text_lt_irreflexive(a.drop_first());
    }
}

pub proof fn lemma_text_lt_trichotomy(a: Seq<char>, b: Seq<char>)
    ensures
        text_lt(a, b) || a == b || text_lt(b, a),
        !(text_lt(a, b) && text_lt(b, a)),
    decreases a.len(),
{
    if a.len() == 0 {
        if b.len() == 0 {
            assert(a =~= b);
        }
    } else if b.len() > 0 {
        if a[0] == b[0] {
            lemma_text_lt_trichotomy(a.drop_first(), b.drop_first());
            if a.drop_first() == b.drop_first() {
                assert forall|i: int| 0 <= i < a.len() implies a[i] == b[i] by {
                    if i > 0 {
                        assert(a[i] == a.drop_first()[i - 1]);
                        assert(b[i] == b.drop_first()[i - 1]);
                    }
                }
                assert(a =~= b);
            }
        }
    }
}

pub proof fn lemma_text_lt_transitive(a: Seq<char>, b: Seq<char>, c: Seq<char>)
    requires
        text_lt(a, b),
        text_lt(b, c),
    ensures
        text_lt(a, c),
    decreases a.len(),
{
    if a.len() > 0 && b.len() > 0 && c.len() > 0 {
        if a[0] == b[0] && b[0] == c[0] {
            lemma_text_lt_transitive(a.drop_first(), b.drop_first(), c.drop_first());
        }
    }
}

/// Exact test of `text_lt` on character vectors.
pub fn text_lt_exec(a: &Vec<char>, b: &Vec<char>) -> (r: bool)
    ensures
        r == text_lt(a@, b@),
{
    let mut i: usize = 0;
    proof {
        assert(a@.skip(0) =~= a@);
        assert(b@.skip(0) =~= b@);
    }
    while i < a.len() && i < b.len() && a[i] == b[i]
        invariant
            i <= a.len(),
            i <= b.len(),
            text_lt(a@, b@) == text_lt(a@.skip(i as int), b@.skip(i as int)),
        decreases a.len() - i,
    {
        proof {
            assert(a@.skip(i as int).drop_first() =~= a@.skip(i + 1));
            assert(b@.skip(i as int).drop_first() =~= b@.skip(i + 1));
        }
        i += 1;
    }
    proof {
        if i < a.len() && i < b.len() {
            assert(a@.skip(i as int)[0] == a@[i as int]);
            assert(b@.skip(i as int)[0] == b@[i as int]);
        }
    }
    if i == a.len() {
        i < b.len()
    } else if i == b.len() {
        false
    } else {
        a[i] < b[i]
    }
}

/// A sort key: a number compared first, then a text.
pub open spec fn key_lt(a: (u64, Seq<char>), b: (u64, Seq<char>)) -> bool {
    a.0 < b.0 || (a.0 == b.0 && text_lt(a.1, b.1))
}

/// The strict order a sort uses: ascending, or descending by the same key.
pub open spec fn ord_lt(descending: bool, a: (u64, Seq<char>), b: (u64, Seq<char>)) -> bool {
    if descending {
        key_lt(b, a)
    } else {
        key_lt(a, b)
    }
}

pub proof fn lemma_ord_lt_props(descending: bool)
    ensures
        forall|a: (u64, Seq<char>)| !#[trigger] ord_lt(descending, a, a),
        forall|a: (u64, Seq<char>), b: (u64, Seq<char>)|
            #![trigger ord_lt(descending, a, b)]
            ord_lt(descending, a, b) || a == b || ord_lt(descending, b, a),
        forall|a: (u64, Seq<char>), b: (u64, Seq<char>)|
            #![trigger ord_lt(descending, a, b)]
            !(ord_lt(descending, a, b) && ord_lt(descending, b, a)),
        forall|a: (u64, Seq<char>), b: (u64, Seq<char>), c: (u64, Seq<char>)|
            #![trigger ord_lt(descending, a, b), ord_lt(descending, b, c)]
            ord_lt(descending, a, b) && ord_lt(descending, b, c) ==> ord_lt(descending, a, c),
{
    assert forall|a: (u64, Seq<char>)| !#[trigger] ord_lt(descending, a, a) by {
        lemma_text_lt_irreflexive(a.1);
    }
    assert forall|a: (u64, Seq<char>), b: (u64, Seq<char>)|
        #![trigger ord_lt(descending, a, b)]
        ord_lt(descending, a, b) || a == b || ord_lt(descending, b, a) by {
        lemma_text_lt_trichotomy(a.1, b.1);
    }
    assert forall|a: (u64, Seq<char>), b: (u64, Seq<char>)|
        #![trigger ord_lt(descending, a, b)]
        !(ord_lt(descending, a, b) && ord_lt(descending, b, a)) by {
        lemma_text_lt_trichotomy(a.1, b.1);
    }
    assert forall|a: (u64, Seq<char>), b: (u64, Seq<char>), c: (u64, Seq<char>)|
        #![trigger ord_lt(descending, a, b), ord_lt(descending, b, c)]
        ord_lt(descending, a, b) && ord_lt(descending, b, c) implies ord_lt(descending, a, c) by {
        if descending {
            if c.0 == b.0 && b.0 == a.0 {
                lemma_text_lt_transitive(c.1, b.1, a.1);
            }
        } else {
            if a.0 == b.0 && b.0 == c.0 {
                lemma_text_lt_transitive(a.1, b.1, c.1);
            }
        }
    }
}

/// The key of sort element `i`.
pub open spec fn key_view(keys: Seq<(u64, Vec<char>)>, i: int) -> (u64, Seq<char>) {
    (keys[i].0, keys[i].1@)
}

/// `perm` lists each of `0..n` exactly once.
pub open spec fn is_permutation(perm: Seq<usize>, n: nat) -> bool {
    &&& perm.len() == n
    &&& forall|i: int| 0 <= i < perm.len() ==> (#[trigger] perm[i]) < n
    &&& forall|i: int, j: int| 0 <= i < j < perm.len() ==> perm[i] != perm[j]
}

/// `perm` orders `keys` by `ord_lt(descending, ..)`, stably: elements whose
/// keys are equal keep their original relative order.
pub open spec fn is_stable_sorted_order(
    keys: Seq<(u64, Vec<char>)>,
    descending: bool,
    perm: Seq<usize>,
) -> bool {
    &&& is_permutation(perm, keys.len())
    &&& forall|i: int, j: int|
        0 <= i < j < perm.len() ==> !ord_lt(
            descending,
            key_view(keys, perm[j] as int),
            key_view(keys, perm[i] as int),
        )
    &&& forall|i: int, j: int|
        0 <= i < j < perm.len() && key_view(keys, perm[i] as int) == key_view(
            keys,
            perm[j] as int,
        ) ==> perm[i] < perm[j]
}

fn ord_lt_exec(descending: bool, a: &(u64, Vec<char>), b: &(u64, Vec<char>)) -> (r: bool)
    ensures
        r == ord_lt(descending, (a.0, a.1@), (b.0, b.1@)),
{
    if descending {
        b.0 < a.0 || (b.0 == a.0 && text_lt_exec(&b.1, &a.1))
    } else {
        a.0 < b.0 || (a.0 == b.0 && text_lt_exec(&a.1, &b.1))
    }
}

/// The stable sorting order of `keys`: position `k` of the result holds the
/// index of the element that sorts to position `k`.
pub fn stable_sort_order(keys: &Vec<(u64, Vec<char>)>, descending: bool) -> (perm: Vec<usize>)
    ensures
        is_stable_sorted_order(keys@, descending, perm@),
{
    proof {
        lemma_ord_lt_props(descending);
    }
    let mut perm: Vec<usize> = Vec::new();
    let mut i: usize = 0;
    while i < keys.len()
        invariant
            i <= keys.len(),
            perm@.len() == i,
            forall|a: int| 0 <= a < perm@.len() ==> (#[trigger] perm@[a]) < i,
            forall|a: int, b: int| 0 <= a < b < perm@.len() ==> perm@[a] != perm@[b],
            forall|a: int, b: int|
                0 <= a < b < perm@.len() ==> !ord_lt(
                    descending,
                    key_view(keys@, perm@[b] as int),
                    key_view(keys@, perm@[a] as int),
                ),
            forall|a: int, b: int|
                0 <= a < b < perm@.len() && key_view(keys@, perm@[a] as int) == key_view(
                    keys@,
                    perm@[b] as int,
                ) ==> perm@[a] < perm@[b],
            forall|a: (u64, Seq<char>)| !#[trigger] ord_lt(descending, a, a),
            forall|a: (u64, Seq<char>), b: (u64, Seq<char>)|
                #![trigger ord_lt(descending, a, b)]
                ord_lt(descending, a, b) || a == b || ord_lt(descending, b, a),
            forall|a: (u64, Seq<char>), b: (u64, Seq<char>)|
                #![trigger ord_lt(descending, a, b)]
                !(ord_lt(descending, a, b) && ord_lt(descending, b, a)),
            forall|a: (u64, Seq<char>), b: (u64, Seq<char>), c: (u64, Seq<char>)|
                #![trigger ord_lt(descending, a, b), ord_lt(descending, b, c)]
                ord_lt(descending, a, b) && ord_lt(descending, b, c) ==> ord_lt(
                    descending,
                    a,
                    c,
                ),
        decreases keys.len() - i,
    {
        // First position whose element sorts strictly after element `i`.
        let mut p: usize = 0;
        while p < perm.len() && !ord_lt_exec(descending, &keys[i], &keys[perm[p]])
            invariant
                p <= perm@.len(),
                i < keys.len(),
                forall|a: int| 0 <= a < perm@.len() ==> (#[trigger] perm@[a]) < i,
                forall|q: int|
                    0 <= q < p ==> !ord_lt(
                        descending,
                        key_view(keys@, i as int),
                        key_view(keys@, #[trigger] perm@[q] as int),
                    ),
            decreases perm@.len() - p,
        {
            p += 1;
        }
        let ghost old_perm = perm@;
        let ghost ki = key_view(keys@, i as int);
        proof {
            // Everything from `p` on sorts strictly after element `i`.
            assert forall|q: int| p <= q < old_perm.len() implies ord_lt(
                descending,
                ki,
                key_view(keys@, #[trigger] old_perm[q] as int),
            ) by {
                let kp = key_view(keys@, old_perm[p as int] as int);
                let kq = key_view(keys@, old_perm[q] as int);
                assert(ord_lt(descending, ki, kp));
                if q > p {
                    assert(!ord_lt(descending, kq, kp));
                    assert(ord_lt(descending, kp, kq) || kp == kq || ord_lt(descending, kq, kp));
                    if kp != kq {
                        assert(ord_lt(descending, kp, kq));
                    }
                }
            }
        }
        perm.insert(p, i);
        proof {
            let np = perm@;
            assert(np == old_perm.insert(p as int, i));
            assert forall|a: int, b: int| 0 <= a < b < np.len() implies !ord_lt(
                descending,
                key_view(keys@, np[b] as int),
                key_view(keys@, np[a] as int),
            ) by {
                if a < p && b < p {
                    assert(np[a] == old_perm[a] && np[b] == old_perm[b]);
                } else if a < p && b == p {
                    assert(np[a] == old_perm[a]);
                    let ka = key_view(keys@, old_perm[a] as int);
                    assert(!ord_lt(descending, ki, ka));
                } else if a < p && b > p {
                    assert(np[a] == old_perm[a] && np[b] == old_perm[b - 1]);
                } else if a == p {
                    assert(np[b] == old_perm[b - 1]);
                    let kb = key_view(keys@, old_perm[b - 1] as int);
                    assert(ord_lt(descending, ki, kb));
                } else {
                    assert(np[a] == old_perm[a - 1] && np[b] == old_perm[b - 1]);
                }
            }
            assert forall|a: int, b: int|
                0 <= a < b < np.len() && key_view(keys@, np[a] as int) == key_view(
                    keys@,
                    np[b] as int,
                ) implies np[a] < np[b] by {
                if a < p && b < p {
                    assert(np[a] == old_perm[a] && np[b] == old_perm[b]);
                } else if a < p && b == p {
                    assert(np[a] == old_perm[a]);
                } else if a < p && b > p {
                    assert(np[a] == old_perm[a] && np[b] == old_perm[b - 1]);
                } else if a == p {
                    assert(np[b] == old_perm[b - 1]);
                    let kb = key_view(keys@, old_perm[b - 1] as int);
                    assert(ord_lt(descending, ki, kb));
                } else {
                    assert(np[a] == old_perm[a - 1] && np[b] == old_perm[b - 1]);
                }
            }
            assert forall|a: int| 0 <= a < np.len() implies (#[trigger] np[a]) < i + 1 by {
                if a < p {
                    assert(np[a] == old_perm[a]);
                } else if a > p {
                    assert(np[a] == old_perm[a - 1]);
                }
            }
            assert forall|a: int, b: int| 0 <= a < b < np.len() implies np[a] != np[b] by {
                if a < p && b < p {
                    assert(np[a] == old_perm[a] && np[b] == old_perm[b]);
                } else if a < p && b == p {
                    assert(np[a] == old_perm[a]);
                } else if a < p && b > p {
                    assert(np[a] == old_perm[a] && np[b] == old_perm[b - 1]);
                } else if a == p {
                    assert(np[b] == old_perm[b - 1]);
                } else {
                    assert(np[a] == old_perm[a - 1] && np[b] == old_perm[b - 1]);
                }
            }
        }
        i += 1;
    }
    perm
}

} // verus!
