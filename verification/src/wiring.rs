//! Substitution tables over the 26 alphabet indices.

use vstd::prelude::*;
use crate::utils::{is_letter, letter_index, letter_to_index};

verus! {

/// A table is a permutation when it has 26 entries, each below 26, and
/// every index from 0 to 25 occurs among them exactly once.
pub open spec fn is_permutation(w: Seq<usize>) -> bool {
    &&& w.len() == 26
    &&& forall|i: int| 0 <= i < 26 ==> #[trigger] w[i] < 26
    &&& forall|i: int, j: int| 0 <= i < j < 26 ==> #[trigger] w[i] != #[trigger] w[j]
    &&& forall|k: int| 0 <= k < 26 ==> occurs(w, k)
}

/// Whether the index `k` is the target of some entry of `w`.
pub open spec fn occurs(w: Seq<usize>, k: int) -> bool {
    exists|i: int| 0 <= i < w.len() && #[trigger] w[i] == k
}

/// Whether `inv` undoes `w` and `w` undoes `inv` on all 26 indices.
pub open spec fn are_inverse(w: Seq<usize>, inv: Seq<usize>) -> bool {
    &&& w.len() == 26
    &&& inv.len() == 26
    &&& forall|i: int| 0 <= i < 26 ==> #[trigger] w[i] < 26 && inv[w[i] as int] == i
    &&& forall|k: int| 0 <= k < 26 ==> #[trigger] inv[k] < 26 && w[inv[k] as int] == k
}

/// The inverse of a permutation table: entry `k` is the place at which
/// `k` stands in `w`.
pub open spec fn inverse_of(w: Seq<usize>) -> Seq<usize> {
    Seq::new(26, |k: int| choose|i: usize| i < 26 && w[i as int] == k)
}

/// The inverse of a permutation undoes it, in both directions.
pub proof fn lemma_inverse_of(w: Seq<usize>)
    requires
        is_permutation(w),
    ensures
        are_inverse(w, inverse_of(w)),
{
    let inv = inverse_of(w);
    assert forall|k: int| 0 <= k < 26 implies #[trigger] inv[k] < 26 && w[inv[k] as int] == k by {
        assert(occurs(w, k));
        let i = choose|i: int| 0 <= i < w.len() && #[trigger] w[i] == k;
        let u = i as usize;
        assert(u < 26 && w[u as int] == k);
    }
    assert forall|i: int| 0 <= i < 26 implies #[trigger] w[i] < 26 && inv[w[i] as int] == i by {
        let j = inv[w[i] as int];
        assert(w[j as int] == w[i]);
        if j < i {
            assert(w[j as int] != w[i]);
        } else if i < j {
            assert(w[i] != w[j as int]);
        }
    }
}

/// A table has at most one inverse.
pub proof fn lemma_inverse_unique(w: Seq<usize>, inv: Seq<usize>)
    requires
        are_inverse(w, inv),
    ensures
        inv == inverse_of(w),
{
    lemma_inverse_gives_permutation(w, inv);
    lemma_inverse_of(w);
    let other = inverse_of(w);
    assert forall|k: int| 0 <= k < 26 implies inv[k] == other[k] by {
        assert(w[inv[k] as int] == k);
        assert(w[other[k] as int] == k);
        assert(inv[w[other[k] as int] as int] == other[k]);
    }
    assert(inv =~= other);
}

/// The table that a string of letters spells: entry `i` is the alphabet
/// index of the `i`-th letter.
pub open spec fn table_of(s: Seq<char>) -> Seq<usize> {
    s.map_values(|c: char| letter_slot(c))
}

/// The alphabet index of a letter as a table entry; 0 for any other
/// character.
pub open spec fn letter_slot(c: char) -> usize {
    if is_letter(c) {
        letter_index(c) as usize
    } else {
        0
    }
}

/// Whether every character of `s` is an ASCII letter.
pub open spec fn all_letters(s: Seq<char>) -> bool {
    forall|i: int| 0 <= i < s.len() ==> is_letter(#[trigger] s[i])
}

/// The first character of `s` that is not an ASCII letter; `'A'` when
/// there is none.
pub open spec fn first_non_letter(s: Seq<char>) -> char
    decreases s.len(),
{
    if s.len() == 0 {
        'A'
    } else if !is_letter(s[0]) {
        s[0]
    } else {
        first_non_letter(s.drop_first())
    }
}

/// Whether the table is its own inverse.
pub open spec fn is_involution(w: Seq<usize>) -> bool {
    are_inverse(w, w)
}

/// What one position of a wiring string and a proposed inverse must
/// satisfy: the character is a letter, and `inv` undoes `table_of(s)` at
/// `i` in both directions.
pub open spec fn letter_entry_ok(s: Seq<char>, inv: Seq<usize>, i: int) -> bool {
    let w = table_of(s);
    &&& s.len() == 26
    &&& inv.len() == 26
    &&& is_letter(s[i])
    &&& w[i] < 26
    &&& inv[w[i] as int] == i
    &&& inv[i] < 26
    &&& w[inv[i] as int] == i
}

/// What holds at each of 0, 1, ..., 25 holds at every index
/// below 26.
pub proof fn lemma_each_index(p: spec_fn(int) -> bool)
    requires
        p(0),
        p(1),
        p(2),
        p(3),
        p(4),
        p(5),
        p(6),
        p(7),
        p(8),
        p(9),
        p(10),
        p(11),
        p(12),
        p(13),
        p(14),
        p(15),
        p(16),
        p(17),
        p(18),
        p(19),
        p(20),
        p(21),
        p(22),
        p(23),
        p(24),
        p(25),
    ensures
        forall|i: int| 0 <= i < 26 ==> #[trigger] p(i),
{
    assert forall|i: int| 0 <= i < 26 implies #[trigger] p(i) by {
        if i == 0 {
        } else if i == 1 {
        } else if i == 2 {
        } else if i == 3 {
        } else if i == 4 {
        } else if i == 5 {
        } else if i == 6 {
        } else if i == 7 {
        } else if i == 8 {
        } else if i == 9 {
        } else if i == 10 {
        } else if i == 11 {
        } else if i == 12 {
        } else if i == 13 {
        } else if i == 14 {
        } else if i == 15 {
        } else if i == 16 {
        } else if i == 17 {
        } else if i == 18 {
        } else if i == 19 {
        } else if i == 20 {
        } else if i == 21 {
        } else if i == 22 {
        } else if i == 23 {
        } else if i == 24 {
        } else {
            assert(i == 25);
        }
    }
}

/// A table with an inverse is a permutation.
pub proof fn lemma_inverse_gives_permutation(w: Seq<usize>, inv: Seq<usize>)
    requires
        are_inverse(w, inv),
    ensures
        is_permutation(w),
{
    assert forall|i: int, j: int| 0 <= i < j < 26 implies #[trigger] w[i] != #[trigger] w[j] by {
        assert(inv[w[i] as int] == i);
        assert(inv[w[j] as int] == j);
    }
    assert forall|k: int| 0 <= k < 26 implies occurs(w, k) by {
        assert(w[inv[k] as int] == k);
    }
}

/// Checks that each index from 0 to 25 is the target of exactly one entry.
pub fn is_valid_permutation(wiring: &[usize; 26]) -> (r: bool)
    ensures
        r == is_permutation(wiring@),
{
    let mut targets: [bool; 26] = [false; 26];
    let mut idx: usize = 0;
    while idx < 26
        invariant
            idx <= 26,
            forall|i: int| 0 <= i < idx ==> #[trigger] wiring@[i] < 26,
            forall|i: int, j: int| 0 <= i < j < idx ==> #[trigger] wiring@[i] != #[trigger] wiring@[j],
            forall|k: int| 0 <= k < 26 ==> (#[trigger] targets@[k] <==> occurs(wiring@.take(idx as int), k)),
        decreases 26 - idx,
    {
        let target = wiring[idx];
        if target >= 26 {
            return false;
        }
        if targets[target] {
            proof {
                let i = choose|i: int| 0 <= i < idx && #[trigger] wiring@.take(idx as int)[i] == target;
                assert(wiring@[i] == wiring@[idx as int]);
            }
            return false;
        }
        proof {
            let before = wiring@.take(idx as int);
            assert forall|i: int| 0 <= i < idx implies #[trigger] wiring@[i] != target by {
                assert(before[i] == wiring@[i]);
            }
        }
        targets[target] = true;
        proof {
            let before = wiring@.take(idx as int);
            let after = wiring@.take(idx + 1);
            assert forall|k: int| 0 <= k < 26 implies (#[trigger] targets@[k] <==> occurs(after, k)) by {
                if occurs(before, k) {
                    let i = choose|i: int| 0 <= i < before.len() && #[trigger] before[i] == k;
                    assert(after[i] == k);
                }
                if k == target {
                    assert(after[idx as int] == k);
                }
                if occurs(after, k) && k != target {
                    let i = choose|i: int| 0 <= i < after.len() && #[trigger] after[i] == k;
                    assert(before[i] == k);
                }
            }
        }
        idx += 1;
    }
    assert(wiring@.take(26) == wiring@);
    let mut k: usize = 0;
    while k < 26
        invariant
            k <= 26,
            forall|j: int| 0 <= j < 26 ==> (#[trigger] targets@[j] <==> occurs(wiring@, j)),
            forall|j: int| 0 <= j < k ==> occurs(wiring@, j),
        decreases 26 - k,
    {
        if !targets[k] {
            return false;
        }
        k += 1;
    }
    true
}

/// Reads a table from 26 characters. On success every character is a
/// letter and the table is the one they spell; otherwise the first
/// character that is not a letter is handed back.
pub fn read_table(chars: &Vec<char>) -> (r: Result<[usize; 26], char>)
    requires
        chars@.len() == 26,
    ensures
        match r {
            Ok(table) => all_letters(chars@) && table@ == table_of(chars@),
            Err(c) => !all_letters(chars@) && c == first_non_letter(chars@),
        },
{
    let mut table: [usize; 26] = [0; 26];
    let mut i: usize = 0;
    assert(chars@.skip(0) == chars@);
    while i < 26
        invariant
            i <= 26,
            chars@.len() == 26,
            all_letters(chars@.take(i as int)),
            first_non_letter(chars@) == first_non_letter(chars@.skip(i as int)),
            forall|k: int| 0 <= k < i ==> #[trigger] table@[k] == letter_slot(chars@[k]),
        decreases 26 - i,
    {
        let c = chars[i];
        proof {
            assert(chars@.skip(i as int)[0] == c);
            assert(chars@.skip(i as int).drop_first() == chars@.skip(i + 1));
        }
        match letter_to_index(c) {
            Some(target) => {
                table[i] = target;
            },
            None => {
                return Err(c);
            },
        }
        i += 1;
    }
    assert(chars@.take(26) == chars@);
    assert(table@ =~= table_of(chars@));
    Ok(table)
}

} // verus!
