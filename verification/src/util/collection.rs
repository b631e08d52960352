//! Sequences without repetitions.

use std::hash::Hash;
use vstd::laws_eq::obeys_concrete_eq;
use vstd::prelude::*;

verus! {

/// The members of `s` in the order in which each of them first occurs.
pub open spec fn firsts<T>(s: Seq<T>) -> Seq<T>
    decreases s.len(),
{
    if s.len() == 0 {
        Seq::empty()
    } else if s.drop_last().contains(s.last()) {
        firsts(s.drop_last())
    } else {
        firsts(s.drop_last()).push(s.last())
    }
}

/// Whether the place `i` of `s` is the first that holds its member.
pub open spec fn is_first<T>(s: Seq<T>, i: int) -> bool {
    &&& 0 <= i < s.len()
    &&& forall|j: int| 0 <= j < i ==> #[trigger] s[j] != s[i]
}

/// The first occurrences hold what the sequence holds, and nothing twice.
pub proof fn lemma_firsts_members<T>(s: Seq<T>)
    ensures
        firsts(s).no_duplicates(),
        forall|x: T| firsts(s).contains(x) <==> s.contains(x),
        firsts(s).len() <= s.len(),
    decreases s.len(),
{
    if s.len() > 0 {
        let init = s.drop_last();
        let f = firsts(init);
        lemma_firsts_members(init);
        assert forall|x: T| firsts(s).contains(x) <==> s.contains(x) by {
            if s.contains(x) {
                let i = choose|i: int| 0 <= i < s.len() && s[i] == x;
                if i < s.len() - 1 {
                    assert(init[i] == x);
                    assert(init.contains(x));
                    assert(f.contains(x));
                    let k = choose|k: int| 0 <= k < f.len() && f[k] == x;
                    assert(k < firsts(s).len());
                    assert(firsts(s)[k] == x);
                } else if init.contains(x) {
                    assert(f.contains(x));
                } else {
                    assert(firsts(s)[f.len() as int] == x);
                }
            }
            if firsts(s).contains(x) {
                let k = choose|k: int| 0 <= k < firsts(s).len() && firsts(s)[k] == x;
                if k < f.len() {
                    assert(f[k] == x);
                    assert(f.contains(x));
                    assert(init.contains(x));
                    let i = choose|i: int| 0 <= i < init.len() && init[i] == x;
                    assert(s[i] == x);
                } else {
                    assert(s[s.len() - 1] == x);
                }
            }
        }
        if !init.contains(s.last()) {
            assert forall|i: int, j: int|
                0 <= i < firsts(s).len() && 0 <= j < firsts(s).len() && i != j implies firsts(s)[i]
                != firsts(s)[j] by {
                if i == f.len() {
                    assert(f[j] == firsts(s)[j]);
                    assert(f.contains(f[j]));
                } else if j == f.len() {
                    assert(f[i] == firsts(s)[i]);
                    assert(f.contains(f[i]));
                } else {
                    assert(f[i] == firsts(s)[i] && f[j] == firsts(s)[j]);
                }
            }
        }
    }
}

/// Deduplication keeps first occurrences in their order, and the same
/// members. The result holds nothing twice; it holds what the sequence
/// holds; and it is the sequence with every place struck out that is not the
/// first of its member: `places` names, in rising order, the places that stay.
pub proof fn lemma_firsts_keep_order<T>(s: Seq<T>) -> (places: Seq<int>)
    ensures
        firsts(s).no_duplicates(),
        firsts(s).to_set() == s.to_set(),
        places.len() == firsts(s).len(),
        forall|k: int| 0 <= k < places.len() ==> is_first(s, #[trigger] places[k]) && s[places[k]]
            == firsts(s)[k],
        forall|a: int, b: int| 0 <= a < b < places.len() ==> places[a] < places[b],
        forall|i: int| is_first(s, i) ==> places.contains(i),
    decreases s.len(),
{
    lemma_firsts_members(s);
    assert(firsts(s).to_set() =~= s.to_set());
    if s.len() == 0 {
        Seq::empty()
    } else {
        let init = s.drop_last();
        let before = lemma_firsts_keep_order(init);
        let n = s.len() - 1;
        assert forall|k: int| 0 <= k < before.len() implies is_first(s, #[trigger] before[k])
            && s[before[k]] == firsts(init)[k] by {
            assert(is_first(init, before[k]));
            assert forall|j: int| 0 <= j < before[k] implies #[trigger] s[j] != s[before[k]] by {
                assert(init[j] == s[j]);
            }
        }
        if init.contains(s.last()) {
            assert forall|i: int| is_first(s, i) implies before.contains(i) by {
                if i == n {
                    let j = choose|j: int| 0 <= j < init.len() && init[j] == s.last();
                    assert(s[j] == s[n]);
                } else {
                    assert forall|j: int| 0 <= j < i implies #[trigger] init[j] != init[i] by {
                        assert(s[j] == init[j]);
                    }
                    assert(is_first(init, i));
                }
            }
            before
        } else {
            let places = before.push(n);
            assert forall|j: int| 0 <= j < n implies #[trigger] s[j] != s[n] by {
                if s[j] == s[n] {
                    assert(init[j] == s.last());
                }
            }
            assert forall|a: int, b: int| 0 <= a < b < places.len() implies places[a]
                < places[b] by {
                if b == places.len() - 1 {
                    assert(is_first(init, before[a]));
                }
            }
            assert forall|i: int| is_first(s, i) implies places.contains(i) by {
                if i == n {
                    assert(places[places.len() - 1] == n);
                } else {
                    assert forall|j: int| 0 <= j < i implies #[trigger] init[j] != init[i] by {
                        assert(s[j] == init[j]);
                    }
                    assert(is_first(init, i));
                    assert(before.contains(i));
                    let k = choose|k: int| 0 <= k < before.len() && before[k] == i;
                    assert(places[k] == i);
                }
            }
            places
        }
    }
}

/// The members of `input` in the order in which each of them first occurs,
/// each as a clone of its first occurrence; they are those members
/// themselves for every type whose clones are equal to what they are cloned
/// from. Equality on `T` has to be the equality of values. Each member is
/// held against the members kept so far, one by one: of the hash of a `T`
/// nothing is known that a set of hashes could be relied on for.
pub fn deduplicate<T>(input: &[T]) -> (output: Vec<T>) where T: Clone + Eq + Hash
    requires
        obeys_concrete_eq::<T>(),
    ensures
        output@.len() == firsts(input@).len(),
        forall|k: int|
            0 <= k < output@.len() ==> cloned::<T>(firsts(input@)[k], #[trigger] output@[k]),
        (forall|a: T, b: T| #[trigger] cloned::<T>(a, b) ==> a == b) ==> output@ == firsts(
            input@,
        ),
{
    let mut kept: Vec<usize> = Vec::new();
    let mut output: Vec<T> = Vec::new();
    let mut i: usize = 0;
    proof {
        reveal(obeys_concrete_eq);
        assert(input@.take(0) =~= Seq::<T>::empty());
    }
    while i < input.len()
        invariant
            i <= input.len(),
            obeys_concrete_eq::<T>(),
            kept@.len() == firsts(input@.take(i as int)).len(),
            output@.len() == kept@.len(),
            forall|k: int|
                0 <= k < kept@.len() ==> 0 <= #[trigger] kept@[k] < i && input@[kept@[k] as int]
                    == firsts(input@.take(i as int))[k],
            forall|k: int|
                0 <= k < output@.len() ==> cloned::<T>(
                    firsts(input@.take(i as int))[k],
                    #[trigger] output@[k],
                ),
        decreases input.len() - i,
    {
        let ghost prefix = input@.take(i as int);
        let ghost next = input@.take(i + 1);
        let mut found = false;
        let mut j: usize = 0;
        while j < kept.len() && !found
            invariant
                j <= kept.len(),
                i < input.len(),
                obeys_concrete_eq::<T>(),
                prefix == input@.take(i as int),
                kept@.len() == firsts(prefix).len(),
                forall|k: int|
                    0 <= k < kept@.len() ==> 0 <= #[trigger] kept@[k] < i && input@[kept@[k] as int]
                        == firsts(prefix)[k],
                found ==> firsts(prefix).contains(input@[i as int]),
                !found ==> forall|k: int| 0 <= k < j ==> firsts(prefix)[k] != input@[i as int],
            decreases (kept.len() - j) + (if found {
                0int
            } else {
                1int
            }),
        {
            proof {
                reveal(obeys_concrete_eq);
            }
            if input[kept[j]] == input[i] {
                found = true;
                assert(firsts(prefix)[j as int] == input@[i as int]);
            } else {
                j = j + 1;
            }
        }
        proof {
            lemma_firsts_members(prefix);
            assert(next.drop_last() =~= prefix);
            assert(next.last() == input@[i as int]);
            if !found {
                assert(!firsts(prefix).contains(input@[i as int]));
            }
        }
        if !found {
            kept.push(i);
            output.push(input[i].clone());
        }
        i = i + 1;
    }
    assert(input@.take(i as int) =~= input@);
    proof {
        if forall|a: T, b: T| #[trigger] cloned::<T>(a, b) ==> a == b {
            assert forall|k: int| 0 <= k < output@.len() implies output@[k] == firsts(
                input@,
            )[k] by {
                assert(cloned::<T>(firsts(input@)[k], output@[k]));
            }
            assert(output@ =~= firsts(input@));
        }
    }
    output
}

} // verus!
