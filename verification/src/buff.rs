//! Simulation of buff stacks: what a sequence of applications and removals
//! leaves of a buff, and how much of it was up, wasted or stripped.

pub mod table;

use vstd::prelude::*;

use crate::event::raw::CombatBuffRemove;
use crate::event::raw::CombatEventV1;
use crate::event::raw::unsigned32;
use crate::event::removal_of;
use crate::event::typed::Buff;
use crate::event::typed::Event;
use crate::event::typed::Source;
use crate::event::typed::Target;
use crate::types::AgentId;

verus! {

/// The rule by which a new stack may take the slot of an existing one.
pub trait StackType: Sized {
    /// True if a slot at `index` holding `current` gives way to a stack of
    /// `new`.
    spec fn replaces(index: int, current: u32, new: u32) -> bool;

    /// True if a slot at `index` holding `current` gives way to a stack of
    /// `new`.
    fn can_replace(index: usize, current: u32, new: u32) -> (b: bool)
        ensures
            b == Self::replaces(index as int, current, new),
    ;

    /// A slot never gives way to a smaller stack, and an empty slot takes any
    /// stack that is not empty itself.
    proof fn lemma_replaces(index: int, current: u32, new: u32)
        ensures
            Self::replaces(index, current, new) ==> current <= new,
            current == 0 && new > 0 ==> Self::replaces(index, current, new),
    ;
}

/// New stacks may occupy any empty slot, or replace a smaller stack that is
/// not the first.
#[derive(Debug, Copy, Clone)]
pub struct Queue;

impl StackType for Queue {
    open spec fn replaces(index: int, current: u32, new: u32) -> bool {
        current == 0 || (index > 0 && current < new)
    }

    #[inline(always)]
    fn can_replace(index: usize, current: u32, new: u32) -> (b: bool) {
        current == 0 || (index > 0 && current < new)
    }

    proof fn lemma_replaces(index: int, current: u32, new: u32) {
    }
}

/// A new stack displaces an existing one if it is strictly larger.
#[derive(Debug, Copy, Clone)]
pub struct Replace;

impl StackType for Replace {
    open spec fn replaces(index: int, current: u32, new: u32) -> bool {
        current < new
    }

    #[inline(always)]
    fn can_replace(index: usize, current: u32, new: u32) -> (b: bool) {
        current < new
    }

    proof fn lemma_replaces(index: int, current: u32, new: u32) {
    }
}

/// The sum of all slots.
pub open spec fn total(slots: Seq<u32>) -> nat
    decreases slots.len(),
{
    if slots.len() == 0 {
        0
    } else {
        total(slots.drop_last()) + slots.last() as nat
    }
}

/// A value cut off at the largest `u32`.
pub open spec fn clamp(n: nat) -> u32 {
    if n > u32::MAX {
        u32::MAX
    } else {
        n as u32
    }
}

/// The number of slots that are not empty.
pub open spec fn occupied(slots: Seq<u32>) -> nat
    decreases slots.len(),
{
    if slots.len() == 0 {
        0
    } else {
        occupied(slots.drop_last()) + if slots.last() > 0 {
            1nat
        } else {
            0nat
        }
    }
}

/// The number of slots before the first empty one.
pub open spec fn leading(slots: Seq<u32>) -> nat
    decreases slots.len(),
{
    if slots.len() == 0 || slots[0] == 0 {
        0
    } else {
        1 + leading(slots.skip(1))
    }
}

/// True if no occupied slot follows an empty one.
pub open spec fn zeros_trail(slots: Seq<u32>) -> bool {
    forall|i: int, j: int| 0 <= i < j < slots.len() && slots[i] == 0 ==> slots[j] == 0
}

/// Slots that are all empty.
pub open spec fn cleared(len: nat) -> Seq<u32> {
    Seq::new(len, |i: int| 0u32)
}

/// Pushing a stack of `carry` into the slots from `index` on: each slot in
/// turn that gives way takes the carried stack and hands on what it held,
/// until nothing is left to place. The second part of the result is what could
/// not be placed.
pub open spec fn push_from<T: StackType>(slots: Seq<u32>, index: int, carry: u32) -> (Seq<u32>, u32)
    decreases slots.len() - index,
{
    if index < 0 || index >= slots.len() {
        (slots, carry)
    } else if T::replaces(index, slots[index], carry) {
        if slots[index] == 0 {
            (slots.update(index, carry), 0u32)
        } else {
            push_from::<T>(slots.update(index, carry), index + 1, slots[index])
        }
    } else if carry == 0 {
        (slots, 0u32)
    } else {
        push_from::<T>(slots, index + 1, carry)
    }
}

/// Replacing one slot changes the sum by the difference.
pub proof fn lemma_total_update(slots: Seq<u32>, index: int, value: u32)
    requires
        0 <= index < slots.len(),
    ensures
        total(slots.update(index, value)) + slots[index] == total(slots) + value,
    decreases slots.len(),
{
    if index == slots.len() - 1 {
        assert(slots.update(index, value).drop_last() =~= slots.drop_last());
    } else {
        assert(slots.update(index, value).drop_last() =~= slots.drop_last().update(index, value));
        lemma_total_update(slots.drop_last(), index, value);
    }
}

/// Empty slots sum to nothing and count as nothing.
pub proof fn lemma_cleared(len: nat)
    ensures
        total(cleared(len)) == 0,
        occupied(cleared(len)) == 0,
        leading(cleared(len)) == 0,
        zeros_trail(cleared(len)),
    decreases len,
{
    if len > 0 {
        assert(cleared(len).drop_last() =~= cleared((len - 1) as nat));
        lemma_cleared((len - 1) as nat);
    }
}

/// A push keeps the number of slots, loses nothing (what is in the slots
/// afterwards and what is left over add up to what was there and what came),
/// never hands back more than came, leaves the slots before `index` alone and
/// makes no slot smaller.
pub proof fn lemma_push_from<T: StackType>(slots: Seq<u32>, index: int, carry: u32)
    requires
        0 <= index,
    ensures
        push_from::<T>(slots, index, carry).0.len() == slots.len(),
        total(push_from::<T>(slots, index, carry).0) + push_from::<T>(slots, index, carry).1
            == total(slots) + carry,
        push_from::<T>(slots, index, carry).1 <= carry,
        forall|i: int|
            0 <= i < index && i < slots.len() ==> (#[trigger] push_from::<T>(
                slots,
                index,
                carry,
            ).0[i]) == slots[i],
        forall|i: int|
            0 <= i < slots.len() ==> (#[trigger] push_from::<T>(slots, index, carry).0[i])
                >= slots[i],
    decreases slots.len() - index,
{
    if index < slots.len() {
        T::lemma_replaces(index, slots[index], carry);
        if T::replaces(index, slots[index], carry) {
            lemma_total_update(slots, index, carry);
            if slots[index] != 0 {
                let next = slots.update(index, carry);
                lemma_push_from::<T>(next, index + 1, slots[index]);
                let done = push_from::<T>(next, index + 1, slots[index]).0;
                assert(done == push_from::<T>(slots, index, carry).0);
                assert forall|i: int| 0 <= i < slots.len() implies done[i] >= slots[i] by {
                    assert(done[i] >= next[i]);
                }
                assert forall|i: int| 0 <= i < index && i < slots.len() implies done[i]
                    == slots[i] by {
                    assert(done[i] == next[i]);
                }
            }
        } else if carry != 0 {
            lemma_push_from::<T>(slots, index + 1, carry);
        }
    }
}

/// A push into slots whose empty slots trail leaves them trailing, if the
/// scan has passed no empty slot.
pub proof fn lemma_push_keeps_trail<T: StackType>(slots: Seq<u32>, index: int, carry: u32)
    requires
        0 <= index,
        zeros_trail(slots),
        carry > 0 ==> forall|i: int| 0 <= i < index && i < slots.len() ==> slots[i] > 0,
    ensures
        zeros_trail(push_from::<T>(slots, index, carry).0),
    decreases slots.len() - index,
{
    if index < slots.len() {
        T::lemma_replaces(index, slots[index], carry);
        if T::replaces(index, slots[index], carry) {
            let next = slots.update(index, carry);
            if slots[index] != 0 {
                assert(zeros_trail(next));
                lemma_push_keeps_trail::<T>(next, index + 1, slots[index]);
            } else if carry > 0 {
                assert(zeros_trail(next));
            } else {
                assert(next =~= slots);
            }
        } else if carry != 0 {
            lemma_push_keeps_trail::<T>(slots, index + 1, carry);
        }
    }
}

/// The slots after one pass from `index` to the end that swaps each slot
/// with its right neighbour if the neighbour is larger.
pub open spec fn sift(slots: Seq<u32>, index: int) -> Seq<u32>
    decreases slots.len() - index,
{
    if index < 0 || index + 1 >= slots.len() {
        slots
    } else if slots[index] < slots[index + 1] {
        sift(slots.update(index, slots[index + 1]).update(index + 1, slots[index]), index + 1)
    } else {
        sift(slots, index + 1)
    }
}

/// Decay from the head: the first slot pays for the time that passes; when it
/// is used up the slots are sifted, so that the next stack moves to the head
/// and pays for what is left.
pub open spec fn decay_head(slots: Seq<u32>, time: nat) -> Seq<u32>
    decreases time,
{
    if time == 0 || slots.len() == 0 || slots[0] == 0 {
        slots
    } else if slots[0] > time {
        slots.update(0, (slots[0] - time) as u32)
    } else {
        decay_head(sift(slots.update(0, 0), 0), (time - slots[0]) as nat)
    }
}

/// Decay of every slot on its own: each loses the time that passes, down to
/// nothing.
pub open spec fn decay_each(slots: Seq<u32>, time: nat) -> Seq<u32> {
    Seq::new(
        slots.len(),
        |i: int|
            if slots[i] > time {
                (slots[i] - time) as u32
            } else {
                0u32
            },
    )
}

/// Sifting keeps the number of slots and their sum, and leaves the slots
/// before `index` alone.
pub proof fn lemma_sift(slots: Seq<u32>, index: int)
    requires
        0 <= index,
    ensures
        sift(slots, index).len() == slots.len(),
        total(sift(slots, index)) == total(slots),
        forall|i: int| 0 <= i < index && i < slots.len() ==> (#[trigger] sift(slots, index)[i]) == slots[i],
    decreases slots.len() - index,
{
    if index + 1 < slots.len() {
        if slots[index] < slots[index + 1] {
            let mid = slots.update(index, slots[index + 1]);
            let next = mid.update(index + 1, slots[index]);
            lemma_total_update(slots, index, slots[index + 1]);
            lemma_total_update(mid, index + 1, slots[index]);
            lemma_sift(next, index + 1);
            assert forall|i: int| 0 <= i < index && i < slots.len() implies (#[trigger] sift(
                slots,
                index,
            )[i]) == slots[i] by {
                assert(sift(next, index + 1)[i] == next[i]);
            }
        } else {
            lemma_sift(slots, index + 1);
        }
    }
}

/// Where empty slots trail, they trail behind every cut.
pub proof fn lemma_trail_skip(slots: Seq<u32>, from: int)
    requires
        zeros_trail(slots),
        0 <= from <= slots.len(),
    ensures
        zeros_trail(slots.skip(from)),
{
    let tail = slots.skip(from);
    assert forall|i: int, j: int| 0 <= i < j < tail.len() && tail[i] == 0 implies tail[j]
        == 0 by {
        assert(slots[i + from] == 0);
        assert(slots[j + from] == tail[j]);
    }
}

/// Sifting from an empty slot, behind which empty slots trail, moves every
/// later slot one place to the front.
pub proof fn lemma_sift_shifts(slots: Seq<u32>, index: int)
    requires
        0 <= index < slots.len(),
        slots[index] == 0,
        zeros_trail(slots.skip(index + 1)),
    ensures
        sift(slots, index) =~= slots.take(index) + slots.skip(index + 1).push(0),
    decreases slots.len() - index,
{
    lemma_sift(slots, index);
    if index + 1 < slots.len() {
        let rest = slots.skip(index + 1);
        lemma_trail_skip(rest, 1);
        assert(rest.skip(1) =~= slots.skip(index + 2));
        if slots[index] < slots[index + 1] {
            let next = slots.update(index, slots[index + 1]).update(index + 1, 0);
            assert(next.skip(index + 2) =~= slots.skip(index + 2));
            lemma_sift_shifts(next, index + 1);
            lemma_sift(next, index + 1);
        } else {
            assert(rest[0] == 0);
            lemma_sift_shifts(slots, index + 1);
            lemma_sift(slots, index + 1);
            assert forall|j: int| index + 1 <= j < slots.len() implies slots[j] == 0 by {
                assert(rest[j - index - 1] == slots[j]);
            }
        }
    }
}

/// Decay from the head keeps the number of slots, takes away no more than the
/// time that passes, and does nothing once the head is empty.
pub proof fn lemma_decay_head(slots: Seq<u32>, time: nat)
    ensures
        decay_head(slots, time).len() == slots.len(),
        total(decay_head(slots, time)) <= total(slots),
        total(decay_head(slots, time)) + time >= total(slots),
        leading(slots) == 0 ==> decay_head(slots, time) == slots,
    decreases time,
{
    if time == 0 || slots.len() == 0 || slots[0] == 0 {
    } else if slots[0] > time {
        lemma_total_update(slots, 0, (slots[0] - time) as u32);
    } else {
        lemma_total_update(slots, 0, 0);
        lemma_sift(slots.update(0, 0), 0);
        lemma_decay_head(sift(slots.update(0, 0), 0), (time - slots[0]) as nat);
    }
}

/// Where empty slots trail, decay from the head takes away exactly the time
/// that passes, as far as there is anything left, and empty slots still
/// trail.
pub proof fn lemma_decay_head_exact(slots: Seq<u32>, time: nat)
    requires
        zeros_trail(slots),
    ensures
        zeros_trail(decay_head(slots, time)),
        total(decay_head(slots, time)) == if time >= total(slots) {
            0
        } else {
            total(slots) - time
        },
    decreases time,
{
    lemma_total_trail(slots);
    if time == 0 || slots.len() == 0 || slots[0] == 0 {
    } else if slots[0] > time {
        lemma_total_update(slots, 0, (slots[0] - time) as u32);
        assert(zeros_trail(slots.update(0, (slots[0] - time) as u32)));
    } else {
        let emptied = slots.update(0, 0);
        lemma_total_update(slots, 0, 0);
        assert(emptied.skip(1) =~= slots.skip(1));
        lemma_trail_skip(slots, 1);
        lemma_sift_shifts(emptied, 0);
        lemma_sift(emptied, 0);
        let next = sift(emptied, 0);
        assert(next =~= slots.skip(1).push(0));
        assert forall|i: int, j: int| 0 <= i < j < next.len() && next[i] == 0 implies next[j]
            == 0 by {
            if j < next.len() - 1 {
                assert(slots[i + 1] == 0);
                assert(slots[j + 1] == 0);
            }
        }
        lemma_decay_head_exact(next, (time - slots[0]) as nat);
    }
}

/// Slots whose head is empty and whose empty slots trail are all empty.
pub proof fn lemma_total_trail(slots: Seq<u32>)
    requires
        zeros_trail(slots),
    ensures
        slots.len() > 0 && slots[0] == 0 ==> total(slots) == 0,
    decreases slots.len(),
{
    if slots.len() > 0 && slots[0] == 0 {
        let front = slots.drop_last();
        if slots.len() > 1 {
            assert(zeros_trail(front));
            assert(front[0] == 0);
            assert(slots[slots.len() - 1] == 0);
            lemma_total_trail(front);
        } else {
            assert(total(front) == 0);
        }
    }
}

/// Decay from the head over two spans of time is decay over their sum.
pub proof fn lemma_decay_head_add(slots: Seq<u32>, first: nat, second: nat)
    ensures
        decay_head(decay_head(slots, first), second) == decay_head(slots, first + second),
    decreases first,
{
    if first == 0 || slots.len() == 0 || slots[0] == 0 {
    } else if slots[0] > first {
        let part = slots.update(0, (slots[0] - first) as u32);
        if second == 0 {
        } else if slots[0] > first + second {
            assert(part.update(0, (part[0] - second) as u32) =~= slots.update(
                0,
                (slots[0] - (first + second)) as u32,
            ));
        } else {
            assert(part.update(0, 0) =~= slots.update(0, 0));
        }
    } else {
        lemma_decay_head_add(sift(slots.update(0, 0), 0), (first - slots[0]) as nat, second);
    }
}

/// Decay of every slot keeps the number of slots, takes nothing it has not,
/// adds up over spans of time, and does nothing once every slot is empty.
pub proof fn lemma_decay_each(slots: Seq<u32>, first: nat, second: nat)
    ensures
        decay_each(slots, first).len() == slots.len(),
        total(decay_each(slots, first)) <= total(slots),
        decay_each(decay_each(slots, first), second) == decay_each(slots, first + second),
        occupied(slots) == 0 ==> decay_each(slots, first) == slots,
    decreases slots.len(),
{
    assert(decay_each(decay_each(slots, first), second) =~= decay_each(slots, first + second));
    if slots.len() > 0 {
        lemma_decay_each(slots.drop_last(), first, second);
        assert(decay_each(slots, first).drop_last() =~= decay_each(slots.drop_last(), first));
        if occupied(slots) == 0 {
            assert(decay_each(slots, first) =~= decay_each(slots.drop_last(), first).push(
                slots.last(),
            ));
            assert(slots =~= slots.drop_last().push(slots.last()));
        }
    } else {
        assert(decay_each(slots, first) =~= slots);
    }
}

/// Where empty slots trail, the stacks before the first empty slot are all
/// the stacks there are.
pub proof fn lemma_leading_counts_all(slots: Seq<u32>)
    requires
        zeros_trail(slots),
    ensures
        leading(slots) == occupied(slots),
        leading(slots) <= slots.len(),
    decreases slots.len(),
{
    if slots.len() > 0 {
        let front = slots.drop_last();
        assert(zeros_trail(front));
        lemma_leading_counts_all(front);
        lemma_leading_drop_last(slots);
        if slots.last() > 0 {
            assert forall|i: int| 0 <= i < front.len() implies front[i] > 0 by {
                if front[i] == 0 {
                    assert(slots[i] == 0);
                    assert(slots[slots.len() - 1] == 0);
                }
            }
            lemma_leading_full(front);
        }
    }
}

/// Slots that are all occupied count in full.
pub proof fn lemma_leading_full(slots: Seq<u32>)
    requires
        forall|i: int| 0 <= i < slots.len() ==> slots[i] > 0,
    ensures
        leading(slots) == slots.len(),
    decreases slots.len(),
{
    if slots.len() > 0 {
        assert forall|i: int| 0 <= i < slots.skip(1).len() implies slots.skip(1)[i] > 0 by {
            assert(slots.skip(1)[i] == slots[i + 1]);
        }
        lemma_leading_full(slots.skip(1));
    }
}

/// The stacks before the first empty slot, counted from the last slot: the
/// last slot counts if it is occupied and all slots before it are.
pub proof fn lemma_leading_drop_last(slots: Seq<u32>)
    requires
        slots.len() > 0,
    ensures
        leading(slots) == if leading(slots.drop_last()) == slots.len() - 1 && slots.last() > 0 {
            slots.len()
        } else {
            leading(slots.drop_last())
        },
        leading(slots.drop_last()) <= slots.len() - 1,
    decreases slots.len(),
{
    let front = slots.drop_last();
    if slots.len() == 1 {
        assert(slots.skip(1).len() == 0);
        assert(leading(slots.skip(1)) == 0);
    } else if slots[0] == 0 {
        assert(front[0] == 0);
    } else {
        assert(front[0] == slots[0]);
        assert(slots.skip(1).drop_last() =~= front.skip(1));
        assert(slots.skip(1).last() == slots.last());
        lemma_leading_drop_last(slots.skip(1));
    }
}

/// A duration stack whose empty slots trail keeps them trailing: a push fills
/// the first empty slot or shifts smaller stacks towards the end, and decay
/// moves the stacks that are left to the front. Such a stack counts all its
/// stacks, and loses to decay exactly the time that passes, as far as it
/// holds that much.
pub proof fn lemma_duration_keeps_order<T: StackType>(slots: Seq<u32>, duration: u32, time: nat)
    requires
        zeros_trail(slots),
    ensures
        zeros_trail(push_from::<T>(slots, 0, duration).0),
        zeros_trail(decay_head(slots, time)),
        leading(slots) == occupied(slots),
        total(decay_head(slots, time)) == if time >= total(slots) {
            0
        } else {
            total(slots) - time
        },
{
    lemma_push_keeps_trail::<T>(slots, 0, duration);
    lemma_decay_head_exact(slots, time);
    lemma_leading_counts_all(slots);
}

/// How a buff stacks.
#[derive(Clone, Copy, PartialEq, Eq, Structural, Debug)]
pub enum StackMeta {
    /// Every stack counts, up to `max` of them.
    Intensity { max: u16 },
    /// Stacks are used up one after the other.
    Duration,
}

/// A fixed number of slots that hold what is left of each stack of a buff,
/// in milliseconds.
pub trait Stack: Sized {
    /// The slots in order.
    spec fn slots(&self) -> Seq<u32>;

    /// What a push of `duration` makes of `slots`, and what it hands back.
    spec fn pushed(slots: Seq<u32>, duration: u32) -> (Seq<u32>, u32);

    /// What is left of `slots` after `time` has passed.
    spec fn decayed(slots: Seq<u32>, time: nat) -> Seq<u32>;

    /// The number of stacks that `slots` hold.
    spec fn counted(slots: Seq<u32>) -> nat;

    /// A push keeps the number of slots, loses nothing and never hands back
    /// more than came.
    proof fn lemma_pushed(slots: Seq<u32>, duration: u32)
        ensures
            Self::pushed(slots, duration).0.len() == slots.len(),
            total(Self::pushed(slots, duration).0) + Self::pushed(slots, duration).1 == total(
                slots,
            ) + duration,
            Self::pushed(slots, duration).1 <= duration,
    ;

    /// Decay keeps the number of slots, adds nothing, adds up over spans of
    /// time, and does nothing where no stack is counted.
    proof fn lemma_decayed(slots: Seq<u32>, first: nat, second: nat)
        ensures
            Self::decayed(slots, first).len() == slots.len(),
            total(Self::decayed(slots, first)) <= total(slots),
            Self::decayed(Self::decayed(slots, first), second) == Self::decayed(
                slots,
                first + second,
            ),
            Self::counted(slots) == 0 ==> Self::decayed(slots, first) == slots,
            Self::decayed(slots, 0) == slots,
    ;

    /// Slots that are all empty hold no stack.
    proof fn lemma_counted_cleared(len: nat)
        ensures
            Self::counted(cleared(len)) == 0,
    ;

    /// How the stack stacks.
    spec fn spec_stack_meta() -> StackMeta;

    /// The stack metadata.
    fn stack_meta() -> (m: StackMeta)
        ensures
            m == Self::spec_stack_meta(),
    ;

    /// Pushes a new stack with the supplied duration in milliseconds,
    /// overstack is returned.
    fn push(&mut self, duration: u32) -> (over: u32)
        ensures
            final(self).slots() == Self::pushed(old(self).slots(), duration).0,
            over == Self::pushed(old(self).slots(), duration).1,
    ;

    /// Updates the stack with the new timestamp difference, milliseconds.
    fn update(&mut self, time: u32)
        ensures
            final(self).slots() == Self::decayed(old(self).slots(), time as nat),
    ;

    /// The total duration in milliseconds, cut off at the largest `u32`.
    fn sum(&self) -> (s: u32)
        ensures
            s == clamp(total(self.slots())),
    ;

    /// Clears the stack.
    fn clear(&mut self)
        ensures
            final(self).slots() == cleared(old(self).slots().len()),
    ;

    /// The number of stacks present.
    fn stacks(&self) -> (n: usize)
        ensures
            n == Self::counted(self.slots()),
    ;
}

/// Pushes `duration` into `slots` and returns what could not be placed.
fn push_into<T: StackType, const N: usize>(slots: &mut [u32; N], duration: u32) -> (over: u32)
    ensures
        final(slots)@ == push_from::<T>(old(slots)@, 0, duration).0,
        over == push_from::<T>(old(slots)@, 0, duration).1,
{
    let ghost start = slots@;
    let mut stack: u32 = duration;
    let mut i: usize = 0;
    while i < N
        invariant
            i <= N,
            slots@.len() == N,
            start == old(slots)@,
            push_from::<T>(slots@, i as int, stack) == push_from::<T>(start, 0, duration),
        decreases N - i,
    {
        let ghost before = slots@;
        let ghost carry = stack;
        let current: u32 = slots[i];
        // Add if the slot gives way, hand on what it held
        if T::can_replace(i, current, stack) {
            slots[i] = stack;
            stack = current;
            assert(slots@ =~= before.update(i as int, carry));
        }
        if stack == 0 {
            assert(push_from::<T>(before, i as int, carry) == (slots@, 0u32));
            return 0;
        }
        assert(push_from::<T>(before, i as int, carry) == push_from::<T>(
            slots@,
            i + 1,
            stack,
        ));
        i += 1;
    }
    // Return the overstack
    stack
}

/// The sum of `slots`, cut off at the largest `u32`.
fn sum_of<const N: usize>(slots: &[u32; N]) -> (s: u32)
    ensures
        s == clamp(total(slots@)),
{
    let mut sum: u32 = 0;
    let mut i: usize = 0;
    while i < N
        invariant
            i <= N,
            slots@.len() == N,
            sum == clamp(total(slots@.take(i as int))),
        decreases N - i,
    {
        assert(slots@.take(i + 1).drop_last() =~= slots@.take(i as int));
        sum = sum.saturating_add(slots[i]);
        i += 1;
    }
    assert(slots@.take(N as int) =~= slots@);
    sum
}

/// Empties every slot.
fn clear_all<const N: usize>(slots: &mut [u32; N])
    ensures
        final(slots)@ == cleared(N as nat),
{
    let mut i: usize = 0;
    while i < N
        invariant
            i <= N,
            slots@.len() == N,
            forall|j: int| 0 <= j < i ==> slots@[j] == 0,
        decreases N - i,
    {
        slots[i] = 0;
        i += 1;
    }
    assert(slots@ =~= cleared(N as nat));
}

/// The metadata of an intensity stack of `n` slots.
pub open spec fn intensity_meta(n: nat) -> StackMeta {
    StackMeta::Intensity { max: if n > u16::MAX { u16::MAX } else { n as u16 } }
}

/// A stack whose slots are used up one after the other.
///
/// The stack at the head is the one in use. It is not replaced, even if it is
/// smaller than a new stack: a new stack that finds the rest full takes the
/// place of a smaller one behind the head.
#[derive(Debug, Clone)]
pub struct Duration<T: StackType, U: Sized>(pub T, pub U);

/// A stack whose slots all count at once and all decay at once.
#[derive(Debug, Clone)]
pub struct Intensity<T: StackType, U: Sized>(pub T, pub U);

impl<T: StackType, const N: usize> Stack for Duration<T, [u32; N]> {
    open spec fn slots(&self) -> Seq<u32> {
        self.1@
    }

    open spec fn pushed(slots: Seq<u32>, duration: u32) -> (Seq<u32>, u32) {
        push_from::<T>(slots, 0, duration)
    }

    open spec fn decayed(slots: Seq<u32>, time: nat) -> Seq<u32> {
        decay_head(slots, time)
    }

    open spec fn counted(slots: Seq<u32>) -> nat {
        leading(slots)
    }

    proof fn lemma_pushed(slots: Seq<u32>, duration: u32) {
        lemma_push_from::<T>(slots, 0, duration);
    }

    proof fn lemma_decayed(slots: Seq<u32>, first: nat, second: nat) {
        lemma_decay_head(slots, first);
        lemma_decay_head_add(slots, first, second);
    }

    proof fn lemma_counted_cleared(len: nat) {
        lemma_cleared(len);
    }

    open spec fn spec_stack_meta() -> StackMeta {
        StackMeta::Duration
    }

    fn stack_meta() -> (m: StackMeta) {
        StackMeta::Duration
    }

    fn push(&mut self, duration: u32) -> (over: u32) {
        push_into::<T, N>(&mut self.1, duration)
    }

    fn update(&mut self, time: u32) {
        let ghost start = self.1@;
        let ghost whole = time;
        let mut time: u32 = time;
        while time > 0 && N > 0 && self.1[0] > 0
            invariant
                self.1@.len() == N,
                decay_head(self.1@, time as nat) == decay_head(start, whole as nat),
            decreases time,
        {
            let head: u32 = self.1[0];
            if head > time {
                self.1[0] = head - time;
                time = 0;
            } else {
                time -= head;
                self.1[0] = 0;
                // The head is used up, move the next stack to the head
                let ghost emptied = self.1@;
                let mut i: usize = 0;
                while i + 1 < N
                    invariant
                        i < N,
                        self.1@.len() == N,
                        sift(self.1@, i as int) == sift(emptied, 0),
                    decreases N - i,
                {
                    let here: u32 = self.1[i];
                    let next: u32 = self.1[i + 1];
                    if here < next {
                        self.1[i] = next;
                        self.1[i + 1] = here;
                    }
                    i += 1;
                }
            }
        }
    }

    fn sum(&self) -> (s: u32) {
        sum_of::<N>(&self.1)
    }

    fn clear(&mut self) {
        clear_all::<N>(&mut self.1);
    }

    fn stacks(&self) -> (n: usize) {
        let mut i: usize = 0;
        assert(self.1@.skip(0) =~= self.1@);
        while i < N
            invariant
                i <= N,
                self.1@.len() == N,
                leading(self.1@) == i + leading(self.1@.skip(i as int)),
            decreases N - i,
        {
            if self.1[i] == 0 {
                return i;
            }
            assert(self.1@.skip(i as int).skip(1) =~= self.1@.skip(i + 1));
            i += 1;
        }
        assert(self.1@.skip(N as int).len() == 0);
        N
    }
}

impl<T: StackType, const N: usize> Stack for Intensity<T, [u32; N]> {
    open spec fn slots(&self) -> Seq<u32> {
        self.1@
    }

    open spec fn pushed(slots: Seq<u32>, duration: u32) -> (Seq<u32>, u32) {
        push_from::<T>(slots, 0, duration)
    }

    open spec fn decayed(slots: Seq<u32>, time: nat) -> Seq<u32> {
        decay_each(slots, time)
    }

    open spec fn counted(slots: Seq<u32>) -> nat {
        occupied(slots)
    }

    proof fn lemma_pushed(slots: Seq<u32>, duration: u32) {
        lemma_push_from::<T>(slots, 0, duration);
    }

    proof fn lemma_decayed(slots: Seq<u32>, first: nat, second: nat) {
        lemma_decay_each(slots, first, second);
        assert(decay_each(slots, 0) =~= slots);
    }

    proof fn lemma_counted_cleared(len: nat) {
        lemma_cleared(len);
    }

    open spec fn spec_stack_meta() -> StackMeta {
        intensity_meta(N as nat)
    }

    fn stack_meta() -> (m: StackMeta) {
        if N > 0xFFFF {
            StackMeta::Intensity { max: 0xFFFF }
        } else {
            StackMeta::Intensity { max: N as u16 }
        }
    }

    fn push(&mut self, duration: u32) -> (over: u32) {
        push_into::<T, N>(&mut self.1, duration)
    }

    fn update(&mut self, time: u32) {
        let ghost start = self.1@;
        let mut i: usize = 0;
        while i < N
            invariant
                i <= N,
                self.1@.len() == N,
                start.len() == N,
                forall|j: int| 0 <= j < i ==> self.1@[j] == decay_each(start, time as nat)[j],
                forall|j: int| i <= j < N ==> self.1@[j] == start[j],
            decreases N - i,
        {
            let left: u32 = self.1[i].saturating_sub(time);
            self.1[i] = left;
            i += 1;
        }
        assert(self.1@ =~= decay_each(start, time as nat));
    }

    fn sum(&self) -> (s: u32) {
        sum_of::<N>(&self.1)
    }

    fn clear(&mut self) {
        clear_all::<N>(&mut self.1);
    }

    fn stacks(&self) -> (n: usize) {
        let mut count: usize = 0;
        let mut i: usize = 0;
        while i < N
            invariant
                i <= N,
                count <= i,
                self.1@.len() == N,
                count == occupied(self.1@.take(i as int)),
            decreases N - i,
        {
            assert(self.1@.take(i + 1).drop_last() =~= self.1@.take(i as int));
            if self.1[i] > 0 {
                count += 1;
            }
            i += 1;
        }
        assert(self.1@.take(N as int) =~= self.1@);
        count
    }
}

impl<const N: usize> Default for Duration<Queue, [u32; N]> {
    fn default() -> (stack: Self)
        ensures
            stack.1@ == cleared(N as nat),
    {
        let stack = Duration(Queue, vstd::array::array_fill_for_copy_types::<u32, N>(0));
        assert(stack.1@ =~= cleared(N as nat));
        stack
    }
}

impl<const N: usize> Default for Duration<Replace, [u32; N]> {
    fn default() -> (stack: Self)
        ensures
            stack.1@ == cleared(N as nat),
    {
        let stack = Duration(Replace, vstd::array::array_fill_for_copy_types::<u32, N>(0));
        assert(stack.1@ =~= cleared(N as nat));
        stack
    }
}

impl<const N: usize> Default for Intensity<Queue, [u32; N]> {
    fn default() -> (stack: Self)
        ensures
            stack.1@ == cleared(N as nat),
    {
        let stack = Intensity(Queue, vstd::array::array_fill_for_copy_types::<u32, N>(0));
        assert(stack.1@ =~= cleared(N as nat));
        stack
    }
}

impl<const N: usize> Default for Intensity<Replace, [u32; N]> {
    fn default() -> (stack: Self)
        ensures
            stack.1@ == cleared(N as nat),
    {
        let stack = Intensity(Replace, vstd::array::array_fill_for_copy_types::<u32, N>(0));
        assert(stack.1@ =~= cleared(N as nat));
        stack
    }
}

/// What a simulator knows at one moment.
pub struct SimulatorState {
    /// The slots of the stack.
    pub slots: Seq<u32>,
    /// Last timestamp observed, milliseconds.
    pub time: u64,
    /// The agent whose buff is simulated.
    pub agent: AgentId,
    /// Sum of duration which got applied, milliseconds.
    pub uptime: u32,
    /// Sum of extra duration which had no effect, milliseconds.
    pub overstack: u32,
    /// Sum of duration stripped, milliseconds.
    pub stripped: u32,
}

/// The time that has passed at `now` since `last`, nothing if `now` is not
/// later.
pub open spec fn elapsed(now: u64, last: u64) -> nat {
    if now > last {
        (now - last) as nat
    } else {
        0
    }
}

/// The state after time has moved on to `time`: the stack decays by the time
/// that has passed.
pub open spec fn after_update<T: Stack>(s: SimulatorState, time: u64) -> SimulatorState {
    SimulatorState { slots: T::decayed(s.slots, elapsed(time, s.time)), time, ..s }
}

/// The state after `duration` was applied: what the push could place counts as
/// uptime, what it handed back as overstack.
pub open spec fn after_apply<T: Stack>(s: SimulatorState, duration: u32) -> SimulatorState {
    let (slots, over) = T::pushed(s.slots, duration);
    SimulatorState {
        slots,
        uptime: clamp((s.uptime + (duration - over)) as nat),
        overstack: clamp((s.overstack + over) as nat),
        ..s
    }
}

/// The state after the buff was removed: all that the stack still held is
/// lost from the uptime, down to nothing, and counts as stripped.
pub open spec fn after_removal(s: SimulatorState) -> SimulatorState {
    let sum = clamp(total(s.slots));
    SimulatorState {
        slots: cleared(s.slots.len()),
        uptime: if sum > s.uptime {
            0
        } else {
            (s.uptime - sum) as u32
        },
        stripped: clamp((s.stripped + sum) as nat),
        ..s
    }
}

/// The state after a buff record: an application counts if it is aimed at the
/// agent, a removal if it comes from the agent.
pub open spec fn after_event<T: Stack>(s: SimulatorState, e: CombatEventV1) -> SimulatorState {
    if removal_of(e) == CombatBuffRemove::NoRemoval {
        if e.dst_agent == s.agent.0 {
            after_apply::<T>(s, unsigned32(e.value))
        } else {
            s
        }
    } else if e.src_agent == s.agent.0 {
        after_removal(s)
    } else {
        s
    }
}

/// The state at the end of the encounter: the stack decays up to `time`, and
/// what it still holds then was never up.
pub open spec fn after_finalize<T: Stack>(s: SimulatorState, time: u64) -> SimulatorState {
    let slots = T::decayed(s.slots, elapsed(time, s.time));
    let sum = clamp(total(slots));
    SimulatorState {
        slots,
        uptime: if sum > s.uptime {
            0
        } else {
            (s.uptime - sum) as u32
        },
        ..s
    }
}

/// Simulation of one buff on one agent.
#[derive(Clone)]
pub struct Simulator<T: Stack> {
    /// The boon stack.
    stack: T,
    /// Last timestamp observed, milliseconds.
    time: u64,
    /// The agent we are interested in, needed since we have to check either
    /// source or target depending on if it is a cleanse or not.
    agent: AgentId,
    /// Sum of duration which got applied, milliseconds.
    uptime: u32,
    /// Sum of extra duration which had no effect, milliseconds.
    overstack: u32,
    /// Sum of duration stripped, milliseconds.
    stripped: u32,
}

impl<T: Stack> Simulator<T> {
    /// What the simulator knows.
    pub closed spec fn view(&self) -> SimulatorState {
        SimulatorState {
            slots: self.stack.slots(),
            time: self.time,
            agent: self.agent,
            uptime: self.uptime,
            overstack: self.overstack,
            stripped: self.stripped,
        }
    }

    /// A simulator for `agent` that starts at time 0 with the stack given and
    /// nothing counted yet.
    #[inline]
    pub fn new(agent: AgentId, stack: T) -> (sim: Self)
        ensures
            sim@ == (SimulatorState {
                slots: stack.slots(),
                time: 0,
                agent,
                uptime: 0,
                overstack: 0,
                stripped: 0,
            }),
    {
        Simulator { stack: stack, time: 0, uptime: 0, overstack: 0, stripped: 0, agent }
    }

    /// Lets the stack decay by `rest` milliseconds.
    fn decay(&mut self, rest: u64)
        ensures
            final(self)@ == (SimulatorState {
                slots: T::decayed(old(self)@.slots, rest as nat),
                ..old(self)@
            }),
    {
        let ghost start = self.stack.slots();
        let ghost whole = rest;
        let mut rest: u64 = rest;
        while rest > 0 && self.stack.stacks() > 0
            invariant
                T::decayed(self.stack.slots(), rest as nat) == T::decayed(start, whole as nat),
                self.time == old(self).time,
                self.agent == old(self).agent,
                self.uptime == old(self).uptime,
                self.overstack == old(self).overstack,
                self.stripped == old(self).stripped,
            decreases rest,
        {
            let chunk: u32 = if rest > u32::MAX as u64 {
                u32::MAX
            } else {
                rest as u32
            };
            proof {
                T::lemma_decayed(self.stack.slots(), chunk as nat, (rest - chunk) as nat);
            }
            self.stack.update(chunk);
            rest -= chunk as u64;
        }
        proof {
            T::lemma_decayed(self.stack.slots(), rest as nat, 0);
        }
    }

    /// Moves the time on to `time`.
    #[inline]
    pub fn update(&mut self, time: u64)
        ensures
            final(self)@ == after_update::<T>(old(self)@, time),
    {
        self.decay(time.saturating_sub(self.time));
        self.time = time;
    }

    /// Takes in a buff application or removal.
    #[inline]
    pub fn add_event<E: Buff>(&mut self, e: E)
        ensures
            final(self)@ == after_event::<T>(old(self)@, e.record()),
    {
        match e.removal() {
            // If we are not a buff removal, the target receives the boon
            CombatBuffRemove::NoRemoval => if e.target_agent() == self.agent {
                let duration: u32 = e.duration();
                proof {
                    T::lemma_pushed(self.stack.slots(), duration);
                }
                let over: u32 = self.stack.push(duration);
                self.uptime = self.uptime.saturating_add(duration - over);
                self.overstack = self.overstack.saturating_add(over);
            },
            // If we are a buff removal, it is the source which has the boon removed
            CombatBuffRemove::All | CombatBuffRemove::Single | CombatBuffRemove::Manual => if e.agent()
                == self.agent {
                let sum: u32 = self.stack.sum();
                self.uptime = if sum > self.uptime {
                    0
                } else {
                    self.uptime - sum
                };
                self.stripped = self.stripped.saturating_add(sum);
                self.stack.clear();
            },
        }
    }

    /// Performs a final update and then subtracts the remaining stack
    /// duration from the uptime.
    #[inline]
    pub fn finalize(&mut self, time: u64)
        ensures
            final(self)@ == after_finalize::<T>(old(self)@, time),
    {
        self.decay(time.saturating_sub(self.time));
        self.uptime = self.uptime.saturating_sub(self.stack.sum());
    }

    /// The number of stacks present.
    #[inline]
    pub fn stacks(&self) -> (n: usize)
        ensures
            n == T::counted(self@.slots),
    {
        self.stack.stacks()
    }

    /// What the stack holds in all, milliseconds, cut off at the largest
    /// `u32`.
    #[inline]
    pub fn sum(&self) -> (s: u32)
        ensures
            s == clamp(total(self@.slots)),
    {
        self.stack.sum()
    }

    /// Sum of duration which got applied, milliseconds.
    #[inline]
    pub fn uptime(&self) -> (n: u32)
        ensures
            n == self@.uptime,
    {
        self.uptime
    }

    /// Sum of extra duration which had no effect, milliseconds.
    #[inline]
    pub fn overstack(&self) -> (n: u32)
        ensures
            n == self@.overstack,
    {
        self.overstack
    }

    /// Sum of duration stripped, milliseconds.
    #[inline]
    pub fn stripped(&self) -> (n: u32)
        ensures
            n == self@.stripped,
    {
        self.stripped
    }
}

/// One step in the life of a simulator.
pub enum SimulatorStep {
    /// Time moves on to the timestamp given.
    Update(u64),
    /// A duration is applied to the agent.
    Apply(u32),
    /// The buff is removed from the agent.
    Remove,
}

/// The state after one step.
pub open spec fn after_step<T: Stack>(s: SimulatorState, step: SimulatorStep) -> SimulatorState {
    match step {
        SimulatorStep::Update(time) => after_update::<T>(s, time),
        SimulatorStep::Apply(duration) => after_apply::<T>(s, duration),
        SimulatorStep::Remove => after_removal(s),
    }
}

/// The state after a sequence of steps.
pub open spec fn after_steps<T: Stack>(
    s: SimulatorState,
    steps: Seq<SimulatorStep>,
) -> SimulatorState
    decreases steps.len(),
{
    if steps.len() == 0 {
        s
    } else {
        after_step::<T>(after_steps::<T>(s, steps.drop_last()), steps.last())
    }
}

/// The sum of all durations that a sequence of steps applies.
pub open spec fn requested(steps: Seq<SimulatorStep>) -> nat
    decreases steps.len(),
{
    if steps.len() == 0 {
        0
    } else {
        requested(steps.drop_last()) + match steps.last() {
            SimulatorStep::Apply(duration) => duration as nat,
            _ => 0nat,
        }
    }
}

/// True if none of the steps removes the buff.
pub open spec fn no_removal(steps: Seq<SimulatorStep>) -> bool {
    forall|i: int| 0 <= i < steps.len() ==> !(#[trigger] steps[i] is Remove)
}

/// Before any removal, uptime and overstack together are what was applied:
/// every millisecond of every application is counted once, as one or the
/// other.
pub proof fn lemma_applications_account<T: Stack>(s: SimulatorState, steps: Seq<SimulatorStep>)
    requires
        no_removal(steps),
        s.uptime + s.overstack + requested(steps) <= u32::MAX,
    ensures
        after_steps::<T>(s, steps).uptime + after_steps::<T>(s, steps).overstack == s.uptime
            + s.overstack + requested(steps),
        after_steps::<T>(s, steps).stripped == s.stripped,
        after_steps::<T>(s, steps).agent == s.agent,
    decreases steps.len(),
{
    if steps.len() > 0 {
        let front = steps.drop_last();
        assert(no_removal(front)) by {
            assert forall|i: int| 0 <= i < front.len() implies !(#[trigger] front[i] is Remove) by {
                assert(front[i] == steps[i]);
            }
        }
        lemma_applications_account::<T>(s, front);
        let before = after_steps::<T>(s, front);
        assert(!(steps[steps.len() - 1] is Remove));
        match steps.last() {
            SimulatorStep::Apply(duration) => {
                T::lemma_pushed(before.slots, duration);
            },
            _ => {},
        }
    }
}

/// A removal empties the stack, so that no stack is counted and nothing is
/// held, and adds exactly what the stack held to what was stripped. The
/// uptime loses as much, down to nothing, and the overstack stays.
pub proof fn lemma_removal_strips<T: Stack>(s: SimulatorState)
    requires
        s.stripped + total(s.slots) <= u32::MAX,
    ensures
        after_removal(s).stripped == s.stripped + total(s.slots),
        after_removal(s).slots == cleared(s.slots.len()),
        total(after_removal(s).slots) == 0,
        T::counted(after_removal(s).slots) == 0,
        after_removal(s).uptime == if total(s.slots) > s.uptime {
            0
        } else {
            s.uptime - total(s.slots)
        },
        after_removal(s).overstack == s.overstack,
{
    lemma_cleared(s.slots.len());
    T::lemma_counted_cleared(s.slots.len());
}

/// A removal record that comes from the agent of the simulator removes the
/// buff, whatever the kind of removal: afterwards the counters show no stack
/// and no sum, the stripped duration has grown by the sum that was held, the
/// uptime has lost as much, down to nothing, and the overstack is as it was.
/// A removal record from another agent changes nothing.
pub proof fn lemma_removal_event<T: Stack>(s: SimulatorState, e: CombatEventV1)
    requires
        removal_of(e) != CombatBuffRemove::NoRemoval,
        s.stripped + total(s.slots) <= u32::MAX,
    ensures
        e.src_agent != s.agent.0 ==> after_event::<T>(s, e) == s,
        e.src_agent == s.agent.0 ==> {
            let before = snapshot_of::<T>(s);
            let after = snapshot_of::<T>(after_event::<T>(s, e));
            &&& after_event::<T>(s, e) == after_removal(s)
            &&& after.sum == 0
            &&& after.stacks == 0
            &&& after.stripped == before.stripped + before.sum
            &&& after.uptime == if before.sum > before.uptime {
                0
            } else {
                before.uptime - before.sum
            }
            &&& after.overstack == before.overstack
        },
{
    lemma_removal_strips::<T>(s);
}

/// Where the stack never held more than was counted as uptime, removals
/// included, every millisecond applied is counted once: as uptime, as
/// overstack or as stripped. The stack still holds no more than the uptime.
pub proof fn lemma_steps_account<T: Stack>(s: SimulatorState, steps: Seq<SimulatorStep>)
    requires
        total(s.slots) <= s.uptime,
        s.uptime + s.overstack + s.stripped + requested(steps) <= u32::MAX,
    ensures
        after_steps::<T>(s, steps).uptime + after_steps::<T>(s, steps).overstack + after_steps::<
            T,
        >(s, steps).stripped == s.uptime + s.overstack + s.stripped + requested(steps),
        total(after_steps::<T>(s, steps).slots) <= after_steps::<T>(s, steps).uptime,
        after_steps::<T>(s, steps).slots.len() == s.slots.len(),
    decreases steps.len(),
{
    if steps.len() > 0 {
        let front = steps.drop_last();
        lemma_steps_account::<T>(s, front);
        let before = after_steps::<T>(s, front);
        match steps.last() {
            SimulatorStep::Apply(duration) => {
                T::lemma_pushed(before.slots, duration);
            },
            SimulatorStep::Update(time) => {
                T::lemma_decayed(before.slots, elapsed(time, before.time), 0);
            },
            SimulatorStep::Remove => {
                lemma_cleared(before.slots.len());
            },
        }
    }
}

/// The end of the encounter leaves no more uptime than what was applied
/// less what went to waste and what was stripped, for a simulator whose stack
/// never held more than was counted as uptime.
pub proof fn lemma_finalize_bound<T: Stack>(
    s: SimulatorState,
    steps: Seq<SimulatorStep>,
    time: u64,
)
    requires
        total(s.slots) <= s.uptime,
        s.uptime + s.overstack + s.stripped + requested(steps) <= u32::MAX,
    ensures
        after_finalize::<T>(after_steps::<T>(s, steps), time).uptime + after_steps::<T>(
            s,
            steps,
        ).overstack + after_steps::<T>(s, steps).stripped <= s.uptime + s.overstack + s.stripped
            + requested(steps),
        after_finalize::<T>(after_steps::<T>(s, steps), time).uptime + total(
            after_finalize::<T>(after_steps::<T>(s, steps), time).slots,
        ) == after_steps::<T>(s, steps).uptime,
{
    lemma_steps_account::<T>(s, steps);
    let before = after_steps::<T>(s, steps);
    T::lemma_decayed(before.slots, elapsed(time, before.time), 0);
}

/// Overstack and stripped never go down. Uptime goes down only by a removal
/// or at the end.
pub proof fn lemma_counters_monotone<T: Stack>(s: SimulatorState, step: SimulatorStep, time: u64)
    ensures
        after_step::<T>(s, step).overstack >= s.overstack,
        after_step::<T>(s, step).stripped >= s.stripped,
        !(step is Remove) ==> after_step::<T>(s, step).uptime >= s.uptime,
        after_finalize::<T>(s, time).overstack == s.overstack,
        after_finalize::<T>(s, time).stripped == s.stripped,
        after_finalize::<T>(s, time).uptime <= s.uptime,
{
    match step {
        SimulatorStep::Apply(duration) => {
            T::lemma_pushed(s.slots, duration);
        },
        _ => {},
    }
}

/// The counters of a simulator at one moment.
#[derive(Clone, Copy, PartialEq, Eq, Structural, Debug)]
pub struct BuffSnapshot {
    /// The number of stacks present.
    pub stacks: usize,
    /// What the stacks hold in all, milliseconds.
    pub sum: u32,
    /// Sum of duration which got applied, milliseconds.
    pub uptime: u32,
    /// Sum of extra duration which had no effect, milliseconds.
    pub overstack: u32,
    /// Sum of duration stripped, milliseconds.
    pub stripped: u32,
}

/// The counters that go with a state.
pub open spec fn snapshot_of<T: Stack>(s: SimulatorState) -> BuffSnapshot {
    BuffSnapshot {
        stacks: T::counted(s.slots) as usize,
        sum: clamp(total(s.slots)),
        uptime: s.uptime,
        overstack: s.overstack,
        stripped: s.stripped,
    }
}

/// A simulator whose stack is not known to the one who drives it.
pub trait BoxedSimulator<E: Buff>: Sized {
    /// What the simulator knows, as contracts speak of it.
    type State;

    /// What the simulator knows.
    spec fn state(&self) -> Self::State;

    /// The counters that go with a state.
    spec fn counters(state: Self::State) -> BuffSnapshot;

    /// The state after time has moved on to `time`.
    spec fn updated(state: Self::State, time: u64) -> Self::State;

    /// The state after a buff record.
    spec fn received(state: Self::State, e: CombatEventV1) -> Self::State;

    /// The state at the end of the encounter.
    spec fn finalized(state: Self::State, time: u64) -> Self::State;

    /// The counters of the simulator.
    open spec fn snapshot(&self) -> BuffSnapshot {
        Self::counters(self.state())
    }

    /// Time alone changes no counter. A buff record never lowers overstack or
    /// stripped, and lowers the uptime only if it is a removal. The end of the
    /// encounter never raises the uptime and leaves the other counters.
    proof fn lemma_counters(state: Self::State, time: u64, e: CombatEventV1)
        ensures
            Self::counters(Self::updated(state, time)).uptime == Self::counters(state).uptime,
            Self::counters(Self::updated(state, time)).overstack == Self::counters(state).overstack,
            Self::counters(Self::updated(state, time)).stripped == Self::counters(state).stripped,
            Self::counters(Self::received(state, e)).overstack >= Self::counters(state).overstack,
            Self::counters(Self::received(state, e)).stripped >= Self::counters(state).stripped,
            removal_of(e) == CombatBuffRemove::NoRemoval ==> Self::counters(
                Self::received(state, e),
            ).uptime >= Self::counters(state).uptime,
            Self::counters(Self::finalized(state, time)).uptime <= Self::counters(state).uptime,
            Self::counters(Self::finalized(state, time)).overstack == Self::counters(
                state,
            ).overstack,
            Self::counters(Self::finalized(state, time)).stripped == Self::counters(state).stripped,
    ;

    /// Moves the time on to `time`.
    fn update(&mut self, time: u64)
        ensures
            final(self).state() == Self::updated(old(self).state(), time),
    ;

    /// Takes in a buff application or removal.
    fn add_event(&mut self, e: E)
        ensures
            final(self).state() == Self::received(old(self).state(), e.record()),
    ;

    /// The number of stacks present.
    fn stacks(&self) -> (n: usize)
        ensures
            n == self.snapshot().stacks,
    ;

    /// What the stacks hold in all, milliseconds.
    fn sum(&self) -> (n: u32)
        ensures
            n == self.snapshot().sum,
    ;

    /// Sum of duration which got applied, milliseconds.
    fn uptime(&self) -> (n: u32)
        ensures
            n == self.snapshot().uptime,
    ;

    /// Ends the simulation at `time`.
    fn finalize(&mut self, time: u64)
        ensures
            final(self).state() == Self::finalized(old(self).state(), time),
    ;

    /// Sum of extra duration which had no effect, milliseconds.
    fn overstack(&self) -> (n: u32)
        ensures
            n == self.snapshot().overstack,
    ;

    /// Sum of duration stripped, milliseconds.
    fn stripped(&self) -> (n: u32)
        ensures
            n == self.snapshot().stripped,
    ;
}

impl<T: Stack, E: Buff> BoxedSimulator<E> for Simulator<T> {
    type State = SimulatorState;

    open spec fn state(&self) -> SimulatorState {
        self@
    }

    open spec fn counters(state: SimulatorState) -> BuffSnapshot {
        snapshot_of::<T>(state)
    }

    open spec fn updated(state: SimulatorState, time: u64) -> SimulatorState {
        after_update::<T>(state, time)
    }

    open spec fn received(state: SimulatorState, e: CombatEventV1) -> SimulatorState {
        after_event::<T>(state, e)
    }

    open spec fn finalized(state: SimulatorState, time: u64) -> SimulatorState {
        after_finalize::<T>(state, time)
    }

    proof fn lemma_counters(state: SimulatorState, time: u64, e: CombatEventV1) {
        T::lemma_pushed(state.slots, unsigned32(e.value));
    }

    fn update(&mut self, time: u64) {
        Simulator::update(self, time)
    }

    fn add_event(&mut self, e: E) {
        Simulator::add_event(self, e)
    }

    fn stacks(&self) -> (n: usize) {
        Simulator::stacks(self)
    }

    fn sum(&self) -> (n: u32) {
        Simulator::sum(self)
    }

    fn uptime(&self) -> (n: u32) {
        Simulator::uptime(self)
    }

    fn finalize(&mut self, time: u64) {
        Simulator::finalize(self, time)
    }

    fn overstack(&self) -> (n: u32) {
        Simulator::overstack(self)
    }

    fn stripped(&self) -> (n: u32) {
        Simulator::stripped(self)
    }
}

/// The simulator of a buff that is not tracked: it takes everything in and
/// reports nothing.
impl<E: Buff> BoxedSimulator<E> for () {
    type State = ();

    open spec fn state(&self) -> () {
        ()
    }

    open spec fn counters(state: ()) -> BuffSnapshot {
        BuffSnapshot { stacks: 0, sum: 0, uptime: 0, overstack: 0, stripped: 0 }
    }

    open spec fn updated(state: (), time: u64) -> () {
        ()
    }

    open spec fn received(state: (), e: CombatEventV1) -> () {
        ()
    }

    open spec fn finalized(state: (), time: u64) -> () {
        ()
    }

    proof fn lemma_counters(state: (), time: u64, e: CombatEventV1) {
    }

    fn update(&mut self, time: u64) {
    }

    fn add_event(&mut self, e: E) {
    }

    fn stacks(&self) -> (n: usize) {
        0
    }

    fn sum(&self) -> (n: u32) {
        0
    }

    fn uptime(&self) -> (n: u32) {
        0
    }

    fn finalize(&mut self, time: u64) {
    }

    fn overstack(&self) -> (n: u32) {
        0
    }

    fn stripped(&self) -> (n: u32) {
        0
    }
}

/// What a buff is to the one who has it.
#[derive(Clone, Copy, PartialEq, Eq, Structural, Debug)]
pub enum BuffType {
    Boon,
    Condition,
    Buff,
    Debuff,
    Item,
}

/// What is known of a buff.
#[derive(Clone, Copy, Debug)]
pub struct BuffMeta {
    pub name: &'static str,
    pub stack: StackMeta,
    pub skill_id: u16,
}

/// The list of all buffs that are tracked, each under its skill id.
#[derive(Clone, Debug)]
pub struct MetadataMap(pub Vec<BuffMeta>);

} // verus!
