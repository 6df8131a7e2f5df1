//! The mathematical model of the measurement archive: a ring of `capacity`
//! bit vectors of `qubits` entries each, with a write cursor that wraps.

use vstd::prelude::*;
use crate::outcome::{bit_vector, zero_vector};

verus! {

/// What an archive holds.
#[verifier::ext_equal]
pub struct Archive {
    /// The stored vectors, by position.
    pub rows: Seq<Seq<u8>>,
    /// The width of every stored vector.
    pub qubits: nat,
    /// The number of positions.
    pub capacity: nat,
    /// The position that the next outcome is written to.
    pub cursor: nat,
}

impl Archive {
    /// The invariant of an archive: `capacity` rows of `qubits` entries, and
    /// a cursor inside the ring (at 0 in a ring without positions).
    pub open spec fn wf(self) -> bool {
        &&& self.rows.len() == self.capacity
        &&& forall|i: int| 0 <= i < self.rows.len() ==> (#[trigger] self.rows[i]).len() == self.qubits
        &&& self.cursor <= self.capacity
        &&& self.capacity > 0 ==> self.cursor < self.capacity
    }

    /// The archive of the given dimensions with every entry 0 and the cursor
    /// at 0.
    pub open spec fn cleared(qubits: nat, capacity: nat) -> Archive {
        Archive {
            rows: Seq::new(capacity, |i: int| zero_vector(qubits)),
            qubits,
            capacity,
            cursor: 0,
        }
    }

    /// The position that the `k`-th of the next outcomes is written to,
    /// counting from 0: `k` places behind the cursor, round the ring.
    pub open spec fn slot(self, k: int) -> int {
        (self.cursor + k) % (self.capacity as int)
    }

    /// The archive after one outcome is written at the cursor and the cursor
    /// moves on by one, wrapping at `capacity`.
    pub open spec fn append(self, text: Seq<char>) -> Archive {
        Archive {
            rows: self.rows.update(self.cursor as int, bit_vector(text, self.qubits)),
            qubits: self.qubits,
            capacity: self.capacity,
            cursor: (self.cursor + 1) % self.capacity,
        }
    }

    /// The archive after the outcomes are written one by one, first to last.
    pub open spec fn append_all(self, texts: Seq<Seq<char>>) -> Archive
        decreases texts.len(),
    {
        if texts.len() == 0 {
            self
        } else {
            self.append_all(texts.drop_last()).append(texts.last())
        }
    }
}

/// Writing an outcome keeps the invariant, in a ring with at least one
/// position.
pub proof fn lemma_append_keeps_wf(a: Archive, text: Seq<char>)
    requires
        a.wf(),
        a.capacity > 0,
    ensures
        a.append(text).wf(),
        a.append(text).qubits == a.qubits,
        a.append(text).capacity == a.capacity,
{
}

/// Writing any number of outcomes keeps the invariant and the dimensions, and
/// moves the cursor by their number, modulo `capacity`.
pub proof fn lemma_append_all_keeps_wf(a: Archive, texts: Seq<Seq<char>>)
    requires
        a.wf(),
        a.capacity > 0,
    ensures
        a.append_all(texts).wf(),
        a.append_all(texts).qubits == a.qubits,
        a.append_all(texts).capacity == a.capacity,
        a.append_all(texts).cursor == (a.cursor + texts.len()) % a.capacity,
    decreases texts.len(),
{
    if texts.len() > 0 {
        lemma_append_all_keeps_wf(a, texts.drop_last());
        let before = a.append_all(texts.drop_last());
        lemma_append_keeps_wf(before, texts.last());
        let c = a.capacity as int;
        let k = a.cursor + texts.len() - 1;
        assert((k % c + 1) % c == (k + 1) % c) by (nonlinear_arith)
            requires
                c > 0,
                k >= 0,
        ;
    } else {
        assert(a.cursor % a.capacity == a.cursor) by (nonlinear_arith)
            requires
                a.cursor < a.capacity,
        ;
    }
}

/// Two positions of the ring that are written less than `capacity` writes
/// apart are different positions.
proof fn lemma_positions_differ(cursor: int, capacity: int, earlier: int, later: int)
    requires
        capacity > 0,
        0 <= cursor,
        0 <= earlier < later,
        later - earlier < capacity,
    ensures
        (cursor + earlier) % capacity != (cursor + later) % capacity,
{
    let a = cursor + earlier;
    let b = cursor + later;
    // Equal remainders would make b - a a positive multiple of capacity.
    assert(a % capacity != b % capacity) by (nonlinear_arith)
        requires
            capacity > 0,
            0 <= a < b,
            b - a < capacity,
    ;
}

/// The last write to a position wins: of the outcomes written, each of the
/// last `capacity` is found where it was written, `k` places behind the old
/// cursor, counted round the ring.
pub proof fn lemma_recent_outcome_is_stored(a: Archive, texts: Seq<Seq<char>>, k: int)
    requires
        a.wf(),
        a.capacity > 0,
        0 <= k < texts.len(),
        texts.len() - k <= a.capacity,
    ensures
        a.append_all(texts).rows[a.slot(k)] == bit_vector(texts[k], a.qubits),
    decreases texts.len(),
{
    let earlier = texts.drop_last();
    let last = texts.len() - 1;
    lemma_append_all_keeps_wf(a, earlier);
    if k != last {
        lemma_recent_outcome_is_stored(a, earlier, k);
        lemma_positions_differ(a.cursor as int, a.capacity as int, k, last);
        assert(0 <= (a.cursor + k) % (a.capacity as int) < a.capacity) by (nonlinear_arith)
            requires
                a.capacity > 0,
                a.cursor + k >= 0,
        ;
    }
}

/// A position that none of the outcomes reached keeps what it held: fewer
/// outcomes than `capacity` leave the positions behind the new cursor alone.
pub proof fn lemma_unwritten_position_is_kept(a: Archive, texts: Seq<Seq<char>>, pos: int)
    requires
        a.wf(),
        a.capacity > 0,
        0 <= pos < a.capacity,
        forall|k: int| 0 <= k < texts.len() ==> #[trigger] a.slot(k) != pos,
    ensures
        a.append_all(texts).rows[pos] == a.rows[pos],
    decreases texts.len(),
{
    if texts.len() > 0 {
        let earlier = texts.drop_last();
        lemma_append_all_keeps_wf(a, earlier);
        lemma_unwritten_position_is_kept(a, earlier, pos);
        assert(a.slot(texts.len() - 1) != pos);
    }
}

/// Wraparound: one outcome more than the ring has positions leaves the ring
/// at its size, and the last outcome stands where the first was written,
/// which it overwrote: at the old cursor, so at position 0 in an archive
/// that was new or cleared. Every other position holds the outcome that
/// reached it, and the cursor stands one behind the old one.
pub proof fn lemma_wraparound(a: Archive, texts: Seq<Seq<char>>)
    requires
        a.wf(),
        a.capacity > 0,
        texts.len() == a.capacity + 1,
    ensures
        a.append_all(texts).rows.len() == a.capacity,
        a.append_all(texts).wf(),
        a.append_all(texts).rows[a.cursor as int] == bit_vector(
            texts[a.capacity as int],
            a.qubits,
        ),
        a.append_all(texts).cursor == (a.cursor + 1) % a.capacity,
        forall|k: int|
            1 <= k <= a.capacity ==> a.append_all(texts).rows[#[trigger] a.slot(k)] == bit_vector(
                texts[k],
                a.qubits,
            ),
{
    let c = a.capacity as int;
    lemma_append_all_keeps_wf(a, texts);
    lemma_recent_outcome_is_stored(a, texts, c);
    assert((a.cursor + c) % c == a.cursor) by (nonlinear_arith)
        requires
            c > 0,
            0 <= a.cursor < c,
    ;
    let p = a.cursor as int;
    assert((p + (c + 1)) % c == (p + 1) % c) by (nonlinear_arith)
        requires
            c > 0,
            0 <= p,
    ;
    assert forall|k: int| 1 <= k <= c implies a.append_all(texts).rows[#[trigger] a.slot(k)]
        == bit_vector(texts[k], a.qubits) by {
        lemma_recent_outcome_is_stored(a, texts, k);
    }
}

/// A cleared archive holds the zero vector at every position, and its cursor
/// stands at 0. A resize of either dimension clears, so after it every
/// position reads as zeros.
pub proof fn lemma_cleared_is_zero(qubits: nat, capacity: nat, pos: int)
    requires
        0 <= pos < capacity,
    ensures
        Archive::cleared(qubits, capacity).wf(),
        Archive::cleared(qubits, capacity).cursor == 0,
        Archive::cleared(qubits, capacity).rows[pos] == zero_vector(qubits),
{
}

} // verus!
