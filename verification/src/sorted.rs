//! Strictly ascending lists of numbers, kept as sets.

use vstd::prelude::*;

verus! {

/// Whether each number of `list` is smaller than the one after it.
pub open spec fn strictly_ascending(list: Seq<u32>) -> bool {
    forall|i: int, j: int| 0 <= i < j < list.len() ==> list[i] < list[j]
}

/// Two strictly ascending lists that hold the same numbers are the same list.
pub proof fn lemma_ascending_unique(a: Seq<u32>, b: Seq<u32>)
    requires
        strictly_ascending(a),
        strictly_ascending(b),
        forall|x: u32| a.contains(x) <==> b.contains(x),
    ensures
        a == b,
    decreases a.len(),
{
    if a.len() == 0 {
        if b.len() > 0 {
            assert(b.contains(b[0]));
        }
        assert(a =~= b);
    } else {
        let top = a.last();
        assert(a.contains(top));
        assert(b.contains(top));
        let k = choose|k: int| 0 <= k < b.len() && b[k] == top;
        // nothing in b stands above the largest number of a
        if k < b.len() - 1 {
            let above = b[b.len() - 1];
            assert(b.contains(above));
            assert(a.contains(above));
            let m = choose|m: int| 0 <= m < a.len() && a[m] == above;
            assert(above <= top);
            assert(b[k] < b[b.len() - 1]);
        }
        let a0 = a.drop_last();
        let b0 = b.drop_last();
        assert forall|x: u32| a0.contains(x) <==> b0.contains(x) by {
            if a0.contains(x) {
                let i = choose|i: int| 0 <= i < a0.len() && a0[i] == x;
                assert(a[i] == x);
                assert(a.contains(x));
                assert(x < top);
                let j = choose|j: int| 0 <= j < b.len() && b[j] == x;
                assert(b0[j] == x);
            }
            if b0.contains(x) {
                let j = choose|j: int| 0 <= j < b0.len() && b0[j] == x;
                assert(b[j] == x);
                assert(b.contains(x));
                assert(x < top);
                let i = choose|i: int| 0 <= i < a.len() && a[i] == x;
                assert(a0[i] == x);
            }
        }
        lemma_ascending_unique(a0, b0);
        assert(a =~= a0.push(top));
        assert(b =~= b0.push(top));
    }
}

/// The place of the first number of `list` that is not smaller than `value`.
pub fn lower_bound(list: &Vec<u32>, value: u32) -> (at: usize)
    requires
        strictly_ascending(list@),
    ensures
        at <= list@.len(),
        forall|i: int| 0 <= i < at ==> list@[i] < value,
        forall|i: int| at <= i < list@.len() ==> list@[i] >= value,
{
    let mut low: usize = 0;
    let mut high: usize = list.len();
    while low < high
        invariant
            low <= high <= list@.len(),
            strictly_ascending(list@),
            forall|i: int| 0 <= i < low ==> list@[i] < value,
            forall|i: int| high <= i < list@.len() ==> list@[i] >= value,
        decreases high - low,
    {
        let middle = low + (high - low) / 2;
        if list[middle] < value {
            low = middle + 1;
        } else {
            high = middle;
        }
    }
    low
}

/// Whether `list` holds `value`.
pub fn contains_sorted(list: &Vec<u32>, value: u32) -> (r: bool)
    requires
        strictly_ascending(list@),
    ensures
        r == list@.contains(value),
{
    let at = lower_bound(list, value);
    if at < list.len() && list[at] == value {
        true
    } else {
        assert forall|i: int| 0 <= i < list@.len() implies list@[i] != value by {
            if i > at {
                assert(list@[at as int] < list@[i]);
            }
        }
        false
    }
}

/// Puts `value` into `list` where it is not there yet, and tells whether it did.
pub fn insert_sorted(list: &mut Vec<u32>, value: u32) -> (inserted: bool)
    requires
        strictly_ascending(old(list)@),
    ensures
        strictly_ascending(final(list)@),
        inserted == !old(list)@.contains(value),
        forall|x: u32| final(list)@.contains(x) <==> (x == value || old(list)@.contains(x)),
        final(list)@.len() == old(list)@.len() + if inserted {
            1nat
        } else {
            0nat
        },
{
    let at = lower_bound(list, value);
    if at < list.len() && list[at] == value {
        return false;
    }
    let ghost before = list@;
    assert forall|i: int| 0 <= i < before.len() implies before[i] != value by {
        if i > at {
            assert(before[at as int] < before[i]);
        }
    }
    list.insert(at, value);
    proof {
        let after = list@;
        assert(after =~= before.insert(at as int, value));
        assert forall|i: int, j: int| 0 <= i < j < after.len() implies after[i] < after[j] by {
            let bi = if i < at {
                i
            } else {
                i - 1
            };
            let bj = if j < at {
                j
            } else {
                j - 1
            };
            if i != at && j != at {
                assert(before[bi] < before[bj]);
            }
        }
        assert forall|x: u32| after.contains(x) <==> (x == value || before.contains(x)) by {
            if after.contains(x) {
                let i = choose|i: int| 0 <= i < after.len() && after[i] == x;
                if i < at {
                    assert(before[i] == x);
                } else if i > at {
                    assert(before[i - 1] == x);
                }
            }
            if before.contains(x) {
                let i = choose|i: int| 0 <= i < before.len() && before[i] == x;
                if i < at {
                    assert(after[i] == x);
                } else {
                    assert(after[i + 1] == x);
                }
            }
            assert(after[at as int] == value);
        }
    }
    true
}

/// Takes `value` out of `list` where it is there, and tells whether it did.
pub fn remove_sorted(list: &mut Vec<u32>, value: u32) -> (removed: bool)
    requires
        strictly_ascending(old(list)@),
    ensures
        strictly_ascending(final(list)@),
        removed == old(list)@.contains(value),
        forall|x: u32| final(list)@.contains(x) <==> (x != value && old(list)@.contains(x)),
{
    let at = lower_bound(list, value);
    let ghost before = list@;
    if at >= list.len() || list[at] != value {
        assert forall|i: int| 0 <= i < before.len() implies before[i] != value by {
            if i > at {
                assert(before[at as int] < before[i]);
            }
        }
        return false;
    }
    list.remove(at);
    proof {
        let after = list@;
        assert(after =~= before.remove(at as int));
        assert forall|i: int, j: int| 0 <= i < j < after.len() implies after[i] < after[j] by {
            let bi = if i < at {
                i
            } else {
                i + 1
            };
            let bj = if j < at {
                j
            } else {
                j + 1
            };
            assert(before[bi] < before[bj]);
        }
        assert forall|x: u32| after.contains(x) <==> (x != value && before.contains(x)) by {
            if after.contains(x) {
                let i = choose|i: int| 0 <= i < after.len() && after[i] == x;
                if i < at {
                    assert(before[i] == x);
                    assert(before[i] < before[at as int]);
                } else {
                    assert(before[i + 1] == x);
                    assert(before[at as int] < before[i + 1]);
                }
            }
            if x != value && before.contains(x) {
                let i = choose|i: int| 0 <= i < before.len() && before[i] == x;
                if i < at {
                    assert(after[i] == x);
                } else {
                    assert(after[i - 1] == x);
                }
            }
        }
    }
    true
}

/// The numbers of `values` as a strictly ascending list.
pub fn sorted_set(values: &Vec<u32>) -> (r: Vec<u32>)
    ensures
        strictly_ascending(r@),
        forall|x: u32| r@.contains(x) <==> values@.contains(x),
{
    let mut list: Vec<u32> = Vec::new();
    let mut i: usize = 0;
    while i < values.len()
        invariant
            i <= values@.len(),
            strictly_ascending(list@),
            forall|x: u32| list@.contains(x) <==> values@.take(i as int).contains(x),
        decreases values.len() - i,
    {
        let ghost before = list@;
        insert_sorted(&mut list, values[i]);
        proof {
            let shorter = values@.take(i as int);
            let longer = values@.take(i + 1);
            assert forall|x: u32| list@.contains(x) <==> longer.contains(x) by {
                if longer.contains(x) {
                    let k = choose|k: int| 0 <= k < longer.len() && longer[k] == x;
                    if k < i {
                        assert(shorter[k] == x);
                    }
                }
                if shorter.contains(x) {
                    let k = choose|k: int| 0 <= k < shorter.len() && shorter[k] == x;
                    assert(longer[k] == x);
                }
                assert(longer[i as int] == values@[i as int]);
            }
        }
        i += 1;
    }
    assert(values@.take(i as int) =~= values@);
    list
}

} // verus!
