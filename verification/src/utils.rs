//! Editing a point collection under the cursor.
//!
//! Whether a point lies under the cursor is decided by the caller, who hands
//! in one flag per point. The functions here remove the flagged points in a
//! single sweep that fills each gap with the last element, so a point
//! collection is treated as a bag: its order is an accident, its contents and
//! their multiplicities are not.

use vstd::prelude::*;
use vstd::multiset::Multiset;

verus! {

/// `s` after the element at `i` was replaced by the last one and the last
/// slot was dropped.
pub open spec fn swap_out<T>(s: Seq<T>, i: int) -> Seq<T> {
    s.update(i, s.last()).drop_last()
}

/// The elements of `s` whose flag equals `want`, in their order in `s`.
pub open spec fn chosen<T>(s: Seq<T>, flags: Seq<bool>, want: bool) -> Seq<T>
    decreases s.len(),
{
    if s.len() == 0 || s.len() != flags.len() {
        Seq::empty()
    } else if flags.last() == want {
        chosen(s.drop_last(), flags.drop_last(), want).push(s.last())
    } else {
        chosen(s.drop_last(), flags.drop_last(), want)
    }
}

/// What is left of `s` when the sweep that stands at position `i` has run to
/// the end: a flagged element is swapped out and the element that took its
/// place is looked at next.
pub open spec fn kept_from<T>(s: Seq<T>, flags: Seq<bool>, i: int) -> Seq<T>
    decreases s.len() - i,
{
    if 0 <= i < s.len() && s.len() == flags.len() {
        if flags[i] {
            kept_from(swap_out(s, i), swap_out(flags, i), i)
        } else {
            kept_from(s, flags, i + 1)
        }
    } else {
        s
    }
}

/// The elements that the sweep standing at position `i` takes out of `s`, in
/// the order in which it meets them.
pub open spec fn taken_from<T>(s: Seq<T>, flags: Seq<bool>, i: int) -> Seq<T>
    decreases s.len() - i,
{
    if 0 <= i < s.len() && s.len() == flags.len() {
        if flags[i] {
            seq![s[i]] + taken_from(swap_out(s, i), swap_out(flags, i), i)
        } else {
            taken_from(s, flags, i + 1)
        }
    } else {
        Seq::empty()
    }
}

/// `flags` with every position before `i` cleared.
spec fn cleared_before(flags: Seq<bool>, i: int) -> Seq<bool> {
    Seq::new(flags.len(), |j: int| j >= i && flags[j])
}

/// The bag that holds `x` once if `present`, and nothing otherwise.
spec fn bag_if<T>(present: bool, x: T) -> Multiset<T> {
    if present {
        Multiset::singleton(x)
    } else {
        Multiset::empty()
    }
}

/// Overwriting one position changes the chosen bag by that position alone.
proof fn lemma_chosen_update<T>(s: Seq<T>, flags: Seq<bool>, want: bool, i: int, x: T, b: bool)
    requires
        0 <= i < s.len(),
        s.len() == flags.len(),
    ensures
        chosen(s.update(i, x), flags.update(i, b), want).to_multiset().add(
            bag_if(flags[i] == want, s[i]),
        ) =~= chosen(s, flags, want).to_multiset().add(bag_if(b == want, x)),
    decreases s.len(),
{
    broadcast use vstd::seq_lib::group_to_multiset_ensures;
    broadcast use vstd::multiset::group_multiset_axioms;

    let s2 = s.update(i, x);
    let f2 = flags.update(i, b);
    let rest = chosen(s.drop_last(), flags.drop_last(), want);
    let rest2 = chosen(s2.drop_last(), f2.drop_last(), want);
    if i == s.len() - 1 {
        assert(s2.drop_last() =~= s.drop_last());
        assert(f2.drop_last() =~= flags.drop_last());
    } else {
        lemma_chosen_update(s.drop_last(), flags.drop_last(), want, i, x, b);
        assert(s2.drop_last() =~= s.drop_last().update(i, x));
        assert(f2.drop_last() =~= flags.drop_last().update(i, b));
        let before = rest2.to_multiset().add(bag_if(flags[i] == want, s[i]));
        let after = rest.to_multiset().add(bag_if(b == want, x));
        assert(before == after);
        let lhs = chosen(s2, f2, want).to_multiset().add(bag_if(flags[i] == want, s[i]));
        let rhs = chosen(s, flags, want).to_multiset().add(bag_if(b == want, x));
        assert forall|v: T| lhs.count(v) == rhs.count(v) by {
            assert(before.count(v) == after.count(v));
        }
    }
}

/// Swapping one position out removes exactly that position from the chosen bag.
proof fn lemma_chosen_swap_out<T>(s: Seq<T>, flags: Seq<bool>, want: bool, i: int)
    requires
        0 <= i < s.len(),
        s.len() == flags.len(),
    ensures
        chosen(swap_out(s, i), swap_out(flags, i), want).to_multiset().add(
            bag_if(flags[i] == want, s[i]),
        ) =~= chosen(s, flags, want).to_multiset(),
{
    broadcast use vstd::seq_lib::group_to_multiset_ensures;
    broadcast use vstd::multiset::group_multiset_axioms;

    if i == s.len() - 1 {
        assert(swap_out(s, i) =~= s.drop_last());
        assert(swap_out(flags, i) =~= flags.drop_last());
    } else {
        assert(swap_out(s, i) =~= s.drop_last().update(i, s.last()));
        assert(swap_out(flags, i) =~= flags.drop_last().update(i, flags.last()));
        lemma_chosen_update(s.drop_last(), flags.drop_last(), want, i, s.last(), flags.last());
    }
}

/// With no flag set, everything is kept and nothing is taken.
proof fn lemma_chosen_unflagged<T>(s: Seq<T>, flags: Seq<bool>)
    requires
        s.len() == flags.len(),
        forall|j: int| 0 <= j < flags.len() ==> !flags[j],
    ensures
        chosen(s, flags, false) =~= s,
        chosen(s, flags, true) =~= Seq::<T>::empty(),
    decreases s.len(),
{
    if s.len() > 0 {
        lemma_chosen_unflagged(s.drop_last(), flags.drop_last());
    }
}

/// The sweep from position `i` keeps the elements before `i` and the
/// unflagged ones after it, and takes the flagged ones from `i` on.
proof fn lemma_sweep_from<T>(s: Seq<T>, flags: Seq<bool>, i: int)
    requires
        0 <= i <= s.len(),
        s.len() == flags.len(),
    ensures
        kept_from(s, flags, i).to_multiset() =~= chosen(
            s,
            cleared_before(flags, i),
            false,
        ).to_multiset(),
        taken_from(s, flags, i).to_multiset() =~= chosen(
            s,
            cleared_before(flags, i),
            true,
        ).to_multiset(),
    decreases s.len() - i,
{
    broadcast use vstd::seq_lib::group_to_multiset_ensures;
    broadcast use vstd::multiset::group_multiset_axioms;

    let m = cleared_before(flags, i);
    if i == s.len() {
        lemma_chosen_unflagged(s, m);
    } else if flags[i] {
        let s2 = swap_out(s, i);
        let f2 = swap_out(flags, i);
        lemma_sweep_from(s2, f2, i);
        assert(cleared_before(f2, i) =~= swap_out(m, i));
        lemma_chosen_swap_out(s, m, false, i);
        lemma_chosen_swap_out(s, m, true, i);
        vstd::seq_lib::lemma_multiset_commutative(seq![s[i]], taken_from(s2, f2, i));
        assert(seq![s[i]] =~= Seq::<T>::empty().push(s[i]));
    } else {
        lemma_sweep_from(s, flags, i + 1);
        assert(cleared_before(flags, i + 1) =~= m);
    }
}

/// Selecting by flag and by its opposite splits a collection without loss.
proof fn lemma_chosen_split<T>(s: Seq<T>, flags: Seq<bool>)
    requires
        s.len() == flags.len(),
    ensures
        chosen(s, flags, false).to_multiset().add(chosen(s, flags, true).to_multiset())
            =~= s.to_multiset(),
    decreases s.len(),
{
    broadcast use vstd::seq_lib::group_to_multiset_ensures;
    broadcast use vstd::multiset::group_multiset_axioms;

    if s.len() > 0 {
        lemma_chosen_split(s.drop_last(), flags.drop_last());
        assert(s =~= s.drop_last().push(s.last()));
    }
}

/// A sweep that meets no flagged element leaves the collection as it is.
pub proof fn lemma_sweep_unflagged<T>(s: Seq<T>, flags: Seq<bool>, i: int)
    requires
        0 <= i,
        forall|j: int| i <= j < flags.len() ==> !flags[j],
    ensures
        kept_from(s, flags, i) == s,
        taken_from(s, flags, i) == Seq::<T>::empty(),
    decreases s.len() - i,
{
    if i < s.len() && s.len() == flags.len() {
        lemma_sweep_unflagged(s, flags, i + 1);
    }
}

/// A sweep over the whole collection parts it into the unflagged elements,
/// which stay, and the flagged ones, which leave: as bags, what is kept and
/// what is taken are the two selections by flag, and together they are the
/// collection that the sweep began with.
pub proof fn lemma_sweep_parts<T>(s: Seq<T>, flags: Seq<bool>)
    requires
        s.len() == flags.len(),
    ensures
        kept_from(s, flags, 0).to_multiset() == chosen(s, flags, false).to_multiset(),
        taken_from(s, flags, 0).to_multiset() == chosen(s, flags, true).to_multiset(),
        kept_from(s, flags, 0).to_multiset().add(taken_from(s, flags, 0).to_multiset())
            == s.to_multiset(),
{
    lemma_sweep_from(s, flags, 0);
    assert(cleared_before(flags, 0) =~= flags);
    lemma_chosen_split(s, flags);
}

/// Removes from `vec` every point whose flag in `hits` is set, filling each
/// gap with the last point, and sets `changed` if a point was removed.
///
/// `hits` holds one flag per point of `vec`, in the same order: whether the
/// point lies within the cursor's radius.
pub fn remove_by_radius<T>(vec: &mut Vec<T>, hits: Vec<bool>, changed: &mut bool)
    requires
        old(vec).len() == hits.len(),
    ensures
        final(vec)@ == kept_from(old(vec)@, hits@, 0),
        final(vec)@.to_multiset() == chosen(old(vec)@, hits@, false).to_multiset(),
        *final(changed) == (*old(changed) || hits@.contains(true)),
{
    let ghost before = vec@;
    let ghost was_changed = *changed;
    let ghost mut removed = false;
    let mut flags = hits;
    let mut i: usize = 0;
    while i < vec.len()
        invariant
            vec.len() == flags.len(),
            i <= vec.len(),
            before.len() == hits.len(),
            kept_from(vec@, flags@, i as int) == kept_from(before, hits@, 0),
            *changed == (was_changed || removed),
            hits@.contains(true) <==> (removed || exists|j: int|
                i <= j < flags.len() && flags[j]),
        decreases vec.len() - i,
    {
        if flags[i] {
            proof {
                removed = true;
            }
            vec.swap_remove(i);
            flags.swap_remove(i);
            *changed = true;
        } else {
            i += 1;
        }
    }
    proof {
        lemma_sweep_parts(before, hits@);
    }
}

/// Moves from `movefrom` to the end of `moveto` every point whose flag in
/// `hits` is set, filling each gap in `movefrom` with its last point, and
/// sets `changed` if a point was moved.
///
/// `hits` holds one flag per point of `movefrom`, in the same order: whether
/// the point lies within the cursor's radius. No point is lost or made: the
/// two collections together hold what they held before.
pub fn paint_by_radius<T>(
    movefrom: &mut Vec<T>,
    moveto: &mut Vec<T>,
    hits: Vec<bool>,
    changed: &mut bool,
)
    requires
        old(movefrom).len() == hits.len(),
    ensures
        final(movefrom)@ == kept_from(old(movefrom)@, hits@, 0),
        final(moveto)@ == old(moveto)@ + taken_from(old(movefrom)@, hits@, 0),
        final(movefrom)@.to_multiset() == chosen(old(movefrom)@, hits@, false).to_multiset(),
        final(moveto)@.to_multiset() == old(moveto)@.to_multiset().add(
            chosen(old(movefrom)@, hits@, true).to_multiset(),
        ),
        final(movefrom)@.to_multiset().add(final(moveto)@.to_multiset()) == old(
            movefrom,
        )@.to_multiset().add(old(moveto)@.to_multiset()),
        *final(changed) == (*old(changed) || hits@.contains(true)),
{
    let ghost source = movefrom@;
    let ghost target = moveto@;
    let ghost was_changed = *changed;
    let ghost mut moved = false;
    let mut flags = hits;
    let mut i: usize = 0;
    while i < movefrom.len()
        invariant
            movefrom.len() == flags.len(),
            i <= movefrom.len(),
            source.len() == hits.len(),
            kept_from(movefrom@, flags@, i as int) == kept_from(source, hits@, 0),
            moveto@ + taken_from(movefrom@, flags@, i as int) == target + taken_from(
                source,
                hits@,
                0,
            ),
            *changed == (was_changed || moved),
            hits@.contains(true) <==> (moved || exists|j: int| i <= j < flags.len() && flags[j]),
        decreases movefrom.len() - i,
    {
        if flags[i] {
            proof {
                moved = true;
                let point = movefrom@[i as int];
                let rest = taken_from(
                    swap_out(movefrom@, i as int),
                    swap_out(flags@, i as int),
                    i as int,
                );
                assert(moveto@.push(point) + rest =~= moveto@ + (seq![point] + rest));
            }
            let point = movefrom.swap_remove(i);
            moveto.push(point);
            flags.swap_remove(i);
            *changed = true;
        } else {
            i += 1;
        }
    }
    proof {
        lemma_sweep_parts(source, hits@);
        vstd::seq_lib::lemma_multiset_commutative(target, taken_from(source, hits@, 0));
    }
}

} // verus!
