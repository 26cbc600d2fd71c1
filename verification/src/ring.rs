//! The ring itself: a fixed sequence of slots, a write cursor, and the
//! delayed two-behind eviction policy with its cold-start gate.

use vstd::prelude::*;
use vstd::arithmetic::div_mod::{lemma_fundamental_div_mod, lemma_fundamental_div_mod_converse};
use crate::label::label_chars;
use crate::label::make_label;

verus! {

/// One slot of the ring: an immutable identity label (`address`) and the
/// three content fields of the last message written through it. Empty
/// content fields mean the slot is cleared.
#[derive(Debug, PartialEq)]
pub struct PDA {
    pub address: String,
    pub buff: String,
    pub sender: String,
    pub receiver: String,
}

impl PDA {
    /// All three content fields are empty (the cleared state); the label is
    /// not part of the content and survives clearing.
    pub open spec fn is_cleared(self) -> bool {
        &&& self.buff@ == Seq::<char>::empty()
        &&& self.sender@ == Seq::<char>::empty()
        &&& self.receiver@ == Seq::<char>::empty()
    }

    /// The slot holds exactly the message (`sender`, `receiver`, `buff`).
    pub open spec fn holds(self, sender: Seq<char>, receiver: Seq<char>, buff: Seq<char>) -> bool {
        &&& self.sender@ == sender
        &&& self.receiver@ == receiver
        &&& self.buff@ == buff
    }

    /// A fresh slot: labelled after its index, with cleared content.
    pub fn new(id: u32) -> (slot: Self)
        ensures
            slot.address@ == label_chars(id as nat),
            slot.is_cleared(),
    {
        PDA {
            address: make_label(id),
            buff: String::new(),
            sender: String::new(),
            receiver: String::new(),
        }
    }

    /// Overwrites all three content fields from the arguments,
    /// unconditionally and with no residue from the previous content; the
    /// label is untouched.
    pub fn update(&mut self, sender: &str, receiver: &str, buff: &str)
        ensures
            final(self).address == old(self).address,
            final(self).holds(sender@, receiver@, buff@),
    {
        self.sender = sender.to_owned();
        self.receiver = receiver.to_owned();
        self.buff = buff.to_owned();
    }

    /// Resets all three content fields to empty; the label is untouched.
    pub fn clear(&mut self)
        ensures
            final(self).address == old(self).address,
            final(self).is_cleared(),
    {
        self.buff = String::new();
        self.sender = String::new();
        self.receiver = String::new();
    }
}

/// Whether the `add_entry` call numbered `k` (0-indexed) performs a clear:
/// eviction is suppressed during the cold start, i.e. for the first two
/// calls, and happens on every call from the third on.
pub open spec fn clear_performed(k: nat) -> bool {
    k >= 2
}

/// The slot index written by the call numbered `k` on a ring of the given
/// capacity: the calls walk the slots in order, with wraparound.
pub open spec fn write_index_of(k: nat, capacity: nat) -> nat
    recommends
        capacity >= 1,
{
    k % capacity
}

/// The slot index cleared by the call numbered `k`, when it clears at all:
/// the slot exactly two writes behind the current write position.
pub open spec fn clear_index_of(k: nat, capacity: nat) -> nat
    recommends
        capacity >= 1,
        clear_performed(k),
{
    (((k - 2) as int) % (capacity as int)) as nat
}

/// What one `add_entry` call did: the slot written and the slot cleared, if
/// any. The caller reports these to whoever observes the ring.
#[derive(Debug, Clone, Copy, PartialEq, Eq)]
pub struct EntryReport {
    pub write_index: usize,
    pub cleared_index: Option<usize>,
}

/// The ring: a fixed sequence of slots, a cursor giving the next slot to
/// write, and a warm-up counter that opens the eviction gate after two
/// writes. The ghost field `calls` counts every `add_entry` call made.
pub struct RingManager {
    pub pdas: Vec<PDA>,
    pub current_index: usize,
    pub warmup: u8,
    pub calls: Ghost<nat>,
}

impl RingManager {
    /// The number of slots, fixed at construction.
    pub open spec fn capacity(self) -> nat {
        self.pdas@.len()
    }

    /// Every slot carries the label derived from its own index.
    pub open spec fn labels_ok(self) -> bool {
        forall|i: int|
            0 <= i < self.pdas@.len() ==> (#[trigger] self.pdas@[i]).address@ == label_chars(
                i as nat,
            )
    }

    /// The ring's invariant: at least one slot, the cursor inside the ring
    /// and equal to the call count modulo the capacity, the warm-up counter
    /// equal to the call count capped at two, and every slot labelled after
    /// its index.
    pub open spec fn wf(self) -> bool {
        &&& 1 <= self.capacity() <= u32::MAX
        &&& self.current_index < self.capacity()
        &&& self.current_index == write_index_of(self.calls@, self.capacity())
        &&& self.warmup == if self.calls@ >= 2 {
            2nat
        } else {
            self.calls@
        }
        &&& self.labels_ok()
    }

    /// A fresh ring of `pda_count` slots, all cleared, with the cursor at
    /// slot 0 and no calls made yet.
    pub fn new(pda_count: u32) -> (ring: Self)
        requires
            pda_count >= 1,
        ensures
            ring.wf(),
            ring.capacity() == pda_count,
            ring.calls@ == 0,
            forall|i: int| 0 <= i < pda_count ==> (#[trigger] ring.pdas@[i]).is_cleared(),
    {
        let mut pdas: Vec<PDA> = Vec::new();
        let mut i: u32 = 0;
        while i < pda_count
            invariant
                i <= pda_count,
                pdas@.len() == i,
                forall|j: int|
                    0 <= j < i ==> (#[trigger] pdas@[j]).address@ == label_chars(j as nat),
                forall|j: int| 0 <= j < i ==> (#[trigger] pdas@[j]).is_cleared(),
            decreases pda_count - i,
        {
            pdas.push(PDA::new(i));
            i = i + 1;
        }
        RingManager { pdas, current_index: 0, warmup: 0, calls: Ghost(0) }
    }

    /// Writes the message into the slot under the cursor, clears the slot
    /// two writes behind it once the ring has warmed up (from the third call
    /// on), and advances the cursor with wraparound. Accepts arbitrary text,
    /// including empty, and always completes.
    pub fn add_entry(&mut self, sender: &str, receiver: &str, buff: &str) -> (report: EntryReport)
        requires
            old(self).wf(),
        ensures
            final(self).wf(),
            final(self).capacity() == old(self).capacity(),
            final(self).calls@ == old(self).calls@ + 1,
            // The write position is the call number modulo the capacity,
            // independent of the message content.
            report.write_index == write_index_of(old(self).calls@, old(self).capacity()),
            final(self).current_index == write_index_of(final(self).calls@, final(self).capacity()),
            // A clear happens exactly when the warm-up gate is open.
            report.cleared_index is Some <==> clear_performed(old(self).calls@),
            report.cleared_index matches Some(ci) ==> ci == clear_index_of(
                old(self).calls@,
                old(self).capacity(),
            ),
            // The cleared slot, if any, carries the label of its index and
            // ends with empty content; when it is the slot just written (a
            // ring of one or two slots), the clear wins.
            report.cleared_index matches Some(ci) ==> final(self).pdas@[ci as int].is_cleared()
                && final(self).pdas@[ci as int].address@ == label_chars(ci as nat),
            // The written slot holds the message, unless it was also the
            // slot cleared by this very call.
            ({
                let wi = report.write_index as int;
                report.cleared_index != Some(report.write_index) ==> final(self).pdas@[wi].holds(
                    sender@,
                    receiver@,
                    buff@,
                )
            }),
            // No label changes, and no slot other than the written and the
            // cleared one changes at all.
            forall|j: int|
                0 <= j < final(self).pdas@.len() ==> (#[trigger] final(self).pdas@[j]).address
                    == old(self).pdas@[j].address,
            forall|j: int|
                0 <= j < final(self).pdas@.len() && j != report.write_index as int && (
                report.cleared_index matches Some(ci) ==> j != ci as int) ==> (
                #[trigger] final(self).pdas@[j]) == old(self).pdas@[j],
    {
        let ghost k = self.calls@;
        let total = self.pdas.len();
        let write_index = self.current_index;

        // The slot two writes behind the write position, with wraparound;
        // the additions are rearranged so that no subtraction can underflow.
        let clear_index = if write_index >= 2 {
            write_index - 2
        } else if total >= 2 {
            (total - 2) + write_index
        } else {
            0
        };

        proof {
            lemma_index_arithmetic(k, total as nat);
        }

        self.pdas[write_index].update(sender, receiver, buff);

        let cleared_index = if self.warmup >= 2 {
            self.pdas[clear_index].clear();
            Some(clear_index)
        } else {
            None
        };

        self.current_index = if write_index + 1 == total {
            0
        } else {
            write_index + 1
        };
        self.warmup = if self.warmup < 2 {
            self.warmup + 1
        } else {
            2
        };
        self.calls = Ghost(self.calls@ + 1);

        EntryReport { write_index, cleared_index }
    }

    /// A read-only snapshot of every slot, in slot order (index order, not
    /// logical write order). Pure observer: the result is determined by the
    /// ring's state alone, so repeated calls without an intervening
    /// `add_entry` yield identical output.
    pub fn show_all(&self) -> (snapshot: &Vec<PDA>)
        ensures
            snapshot@ == self.pdas@,
    {
        &self.pdas
    }
}

/// Construction interface: a ring with `capacity` slots. A capacity of zero
/// is invalid and is rejected at construction time; any positive capacity
/// yields a fresh, fully cleared ring.
pub fn new_ring(capacity: u32) -> (ring: Option<RingManager>)
    ensures
        ring is Some <==> capacity >= 1,
        ring matches Some(r) ==> r.wf() && r.capacity() == capacity && r.calls@ == 0 && forall|
            i: int,
        | 0 <= i < capacity ==> (#[trigger] r.pdas@[i]).is_cleared(),
{
    if capacity == 0 {
        None
    } else {
        Some(RingManager::new(capacity))
    }
}

/// The number of clears performed over a run of `n` `add_entry` calls on a
/// fresh ring: the count of call numbers `k < n` with `clear_performed(k)`.
pub open spec fn clears_up_to(n: nat) -> nat
    decreases n,
{
    if n == 0 {
        0
    } else {
        clears_up_to((n - 1) as nat) + if clear_performed((n - 1) as nat) {
            1nat
        } else {
            0nat
        }
    }
}

/// Over any run of `n` `add_entry` calls on a fresh ring, exactly `n`
/// writes occur (each call writes exactly one slot, by `add_entry`'s
/// contract) while the number of clears is `n - 2` once `n >= 2` and zero
/// before: call `k` clears exactly when `k >= 2`, again by `add_entry`'s
/// contract, whose call number is the ghost `calls` counter.
pub proof fn lemma_clear_count(n: nat)
    ensures
        clears_up_to(n) == if n >= 2 {
            (n - 2) as int
        } else {
            0
        },
    decreases n,
{
    if n > 0 {
        lemma_clear_count((n - 1) as nat);
    }
}

/// The index arithmetic behind one `add_entry` call on a ring of capacity
/// `c` whose cursor stands at `k % c`: what the two-behind clear position
/// is in each of the three wraparound cases, and how the cursor advances.
proof fn lemma_index_arithmetic(k: nat, c: nat)
    requires
        c >= 1,
    ensures
        k % c >= 2 ==> ((k - 2) as int) % (c as int) == k % c - 2,
        k % c < 2 && c >= 2 && k >= 2 ==> ((k - 2) as int) % (c as int) == k % c + c - 2,
        c == 1 ==> k % c == 0 && (k >= 2 ==> ((k - 2) as int) % (c as int) == 0),
        (k + 1) % c == if k % c + 1 < c {
            (k % c + 1) as int
        } else {
            0
        },
{
    let q = (k / c) as int;
    let a = (k % c) as int;
    let ki = k as int;
    let ci = c as int;
    lemma_fundamental_div_mod(ki, ci);
    assert(ki == ci * q + a);
    assert(0 <= a < ci);

    // Advancing the cursor: k + 1 keeps the quotient while a + 1 < c and
    // bumps it when a + 1 == c.
    if a + 1 < ci {
        lemma_fundamental_div_mod_converse(ki + 1, ci, q, a + 1);
    } else {
        assert(ci * (q + 1) == ci * q + ci) by (nonlinear_arith);
        lemma_fundamental_div_mod_converse(ki + 1, ci, q + 1, 0);
    }

    // The clear position: k - 2 keeps the quotient while a >= 2 and borrows
    // one capacity's worth otherwise.
    if k >= 2 {
        if a >= 2 {
            lemma_fundamental_div_mod_converse(ki - 2, ci, q, a - 2);
        } else if ci >= 2 {
            assert(q >= 1) by {
                if q <= 0 {
                    assert(ci * q <= 0) by (nonlinear_arith)
                        requires
                            ci >= 1,
                            q <= 0,
                    ;
                }
            }
            assert(ci * (q - 1) == ci * q - ci) by (nonlinear_arith);
            lemma_fundamental_div_mod_converse(ki - 2, ci, q - 1, a + ci - 2);
        } else {
            assert(ci == 1);
            assert(a == 0);
            lemma_fundamental_div_mod_converse(ki - 2, ci, ki - 2, 0);
        }
    }
}

} // verus!
