//! Fixed tables of optional entries: taking an entry out of its slot, putting
//! one in, and listing the entries that are present.

use vstd::prelude::*;

verus! {

/// Takes the entry out of slot `k` and leaves the slot empty.
pub(crate) fn take_slot<T>(v: &mut Vec<Option<T>>, k: usize) -> (r: Option<T>)
    requires
        k < old(v).len(),
    ensures
        r == old(v)@[k as int],
        final(v)@ == old(v)@.update(k as int, None),
    no_unwind
{
    let mut r: Option<T> = None;
    core::mem::swap(&mut v[k], &mut r);
    r
}

/// Puts `value` into slot `k`, whatever was there.
pub(crate) fn put_slot<T>(v: &mut Vec<Option<T>>, k: usize, value: Option<T>)
    requires
        k < old(v).len(),
    ensures
        final(v)@ == old(v)@.update(k as int, value),
    no_unwind
{
    v[k] = value;
}

/// A table of `n` empty slots.
pub(crate) fn empty_slots<T>(n: usize) -> (v: Vec<Option<T>>)
    ensures
        v@.len() == n,
        forall|i: int| 0 <= i < n ==> v@[i] is None,
{
    let mut v: Vec<Option<T>> = Vec::new();
    let mut i: usize = 0;
    while i < n
        invariant
            i <= n,
            v@.len() == i,
            forall|j: int| 0 <= j < i ==> v@[j] is None,
        decreases n - i,
    {
        v.push(None);
        i += 1;
    }
    v
}

/// The entries present in the first `n` slots, in ascending order of slot.
pub open spec fn present<T>(slots: Seq<Option<T>>, n: int) -> Seq<T>
    decreases n,
{
    if n <= 0 {
        Seq::empty()
    } else {
        match slots[n - 1] {
            Some(entry) => present(slots, n - 1).push(entry),
            None => present(slots, n - 1),
        }
    }
}

/// An entry is listed exactly when it is present in one of the slots listed.
pub proof fn lemma_present_contains<T>(slots: Seq<Option<T>>, n: int, entry: T)
    requires
        0 <= n <= slots.len(),
    ensures
        present(slots, n).contains(entry) <==> exists|i: int|
            0 <= i < n && #[trigger] slots[i] == Some(entry),
    decreases n,
{
    if n > 0 {
        lemma_present_contains(slots, n - 1, entry);
        let shorter = present(slots, n - 1);
        match slots[n - 1] {
            Some(last) => {
                let longer = shorter.push(last);
                if longer.contains(entry) {
                    let j = choose|j: int| 0 <= j < longer.len() && longer[j] == entry;
                    if j < shorter.len() {
                        assert(shorter[j] == entry);
                        assert(shorter.contains(entry));
                    } else {
                        assert(slots[n - 1] == Some(entry));
                    }
                }
                if exists|i: int| 0 <= i < n && #[trigger] slots[i] == Some(entry) {
                    let i = choose|i: int| 0 <= i < n && #[trigger] slots[i] == Some(entry);
                    if i < n - 1 {
                        assert(shorter.contains(entry));
                        let j = choose|j: int| 0 <= j < shorter.len() && shorter[j] == entry;
                        assert(longer[j] == entry);
                    } else {
                        assert(longer[longer.len() - 1] == entry);
                    }
                }
            },
            None => {
                if exists|i: int| 0 <= i < n && #[trigger] slots[i] == Some(entry) {
                    let i = choose|i: int| 0 <= i < n && #[trigger] slots[i] == Some(entry);
                    assert(i < n - 1);
                }
            },
        }
    }
}

} // verus!
