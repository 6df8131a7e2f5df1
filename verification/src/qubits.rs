//! The two pieces of shared state: the measurement archive (`QMemory`) and
//! the ledger of resource units (`QResgister`).

use vstd::prelude::*;
use crate::archive::Archive;
use crate::ledger::Ledger;
use crate::outcome::{measurement_bits, texts_of, zero_vector, zeros};

verus! {

/// The views of the stored vectors, by position.
pub open spec fn rows_of(mem: Seq<Vec<u8>>) -> Seq<Seq<u8>> {
    Seq::new(mem.len(), |i: int| mem[i]@)
}

/// A ring of `capacity` zero vectors of `qubits` entries each.
pub fn zero_rows(qubits: usize, capacity: usize) -> (mem: Vec<Vec<u8>>)
    ensures
        rows_of(mem@) == Archive::cleared(qubits as nat, capacity as nat).rows,
{
    let mut mem: Vec<Vec<u8>> = Vec::new();
    let mut i: usize = 0;
    while i < capacity
        invariant
            i <= capacity,
            mem@.len() == i,
            forall|k: int| 0 <= k < i ==> (#[trigger] mem@[k])@ == zero_vector(qubits as nat),
        decreases capacity - i,
    {
        mem.push(zeros(qubits));
        i += 1;
    }
    mem
}

/// Why a position of the archive could not be read.
#[derive(Debug, Clone, Copy, PartialEq, Eq, Structural)]
pub struct ArchiveOutOfRange {
    /// The position that was asked for.
    pub pos: usize,
    /// The capacity of the archive at that moment.
    pub capacity: usize,
}

/// The measurement archive: the most recent outcomes, one bit vector per
/// shot, in a ring that overwrites its oldest entry.
#[derive(Debug, Clone)]
pub struct QMemory {
    pub mem: Vec<Vec<u8>>,
    pub qubits: usize,
    pub capacity: usize,
    pub current_pos: usize,
}

impl View for QMemory {
    type V = Archive;

    open spec fn view(&self) -> Archive {
        Archive {
            rows: rows_of(self.mem@),
            qubits: self.qubits as nat,
            capacity: self.capacity as nat,
            cursor: self.current_pos as nat,
        }
    }
}

impl Default for QMemory {
    /// Twenty positions of twenty qubits, all zero.
    fn default() -> (archive: QMemory)
        ensures
            archive@ == Archive::cleared(20, 20),
    {
        QMemory::new(20, 20)
    }
}

impl QMemory {
    /// The invariant that every archive made and changed by these methods
    /// keeps.
    pub open spec fn wf(&self) -> bool {
        self@.wf()
    }

    /// An archive of the given dimensions with every entry 0.
    pub fn new(qubits: usize, capacity: usize) -> (archive: QMemory)
        ensures
            archive@ == Archive::cleared(qubits as nat, capacity as nat),
            archive.wf(),
    {
        QMemory { mem: zero_rows(qubits, capacity), qubits, capacity, current_pos: 0 }
    }

    /// Whether the invariant holds, for an archive that was filled in field by
    /// field.
    pub fn is_well_formed(&self) -> (ok: bool)
        ensures
            ok == self.wf(),
    {
        if self.mem.len() != self.capacity {
            return false;
        }
        if self.current_pos > self.capacity || (self.capacity > 0 && self.current_pos
            >= self.capacity) {
            return false;
        }
        let mut i: usize = 0;
        while i < self.mem.len()
            invariant
                i <= self.mem@.len(),
                forall|k: int| 0 <= k < i ==> (#[trigger] self@.rows[k]).len() == self.qubits,
            decreases self.mem@.len() - i,
        {
            if self.mem[i].len() != self.qubits {
                assert(self@.rows[i as int].len() != self.qubits);
                return false;
            }
            i += 1;
        }
        true
    }

    /// What a snapshot of these four parts is read back as: the archive made
    /// of them where it keeps the invariant, nothing otherwise.
    pub open spec fn restored(
        mem: Vec<Vec<u8>>,
        qubits: usize,
        capacity: usize,
        current_pos: usize,
    ) -> Option<QMemory> {
        let archive = QMemory { mem, qubits, capacity, current_pos };
        if archive.wf() {
            Some(archive)
        } else {
            None
        }
    }

    /// Reads a snapshot back: the archive made of the four parts, unless they
    /// break the invariant.
    pub fn restore(mem: Vec<Vec<u8>>, qubits: usize, capacity: usize, current_pos: usize) -> (result:
        Option<QMemory>)
        ensures
            result == QMemory::restored(mem, qubits, capacity, current_pos),
    {
        let archive = QMemory { mem, qubits, capacity, current_pos };
        if archive.is_well_formed() {
            Some(archive)
        } else {
            None
        }
    }

    /// Changes the number of positions. Nothing of the old contents is kept.
    pub fn update_capacity(&mut self, capacity: usize)
        ensures
            final(self)@ == Archive::cleared(old(self).qubits as nat, capacity as nat),
            final(self).wf(),
    {
        self.capacity = capacity;
        self.current_pos = 0;
        self.mem = zero_rows(self.qubits, capacity);
    }

    /// Changes the width of the stored vectors. Nothing of the old contents is
    /// kept.
    pub fn update_qubits(&mut self, qubits: usize)
        ensures
            final(self)@ == Archive::cleared(qubits as nat, old(self).capacity as nat),
            final(self).wf(),
    {
        self.qubits = qubits;
        self.current_pos = 0;
        self.mem = zero_rows(qubits, self.capacity);
    }

    /// Writes one outcome at the cursor and moves the cursor on.
    pub fn update_results(&mut self, string: &String)
        requires
            old(self).wf(),
            old(self).capacity > 0,
        ensures
            final(self)@ == old(self)@.append(string@),
            final(self).wf(),
    {
        let mz_res = measurement_bits(string.as_str(), self.qubits);
        self.mem[self.current_pos] = mz_res;
        self.current_pos += 1;
        self.current_pos %= self.capacity;
    }

    /// Writes the outcomes one by one, first to last.
    pub fn record(&mut self, outcomes: &Vec<String>)
        requires
            old(self).wf(),
            old(self).capacity > 0 || outcomes@.len() == 0,
        ensures
            final(self)@ == old(self)@.append_all(texts_of(outcomes@)),
            final(self).wf(),
    {
        let ghost texts = texts_of(outcomes@);
        let mut i: usize = 0;
        while i < outcomes.len()
            invariant
                i <= outcomes@.len(),
                texts == texts_of(outcomes@),
                self.wf(),
                self.capacity > 0 || outcomes@.len() == 0,
                self@ == old(self)@.append_all(texts.take(i as int)),
            decreases outcomes@.len() - i,
        {
            self.update_results(&outcomes[i]);
            proof {
                let next = texts.take(i + 1);
                assert(next.drop_last() =~= texts.take(i as int));
            }
            i += 1;
        }
        assert(texts.take(i as int) =~= texts);
    }

    /// The vector stored at `pos`, or the refusal of a position beyond the
    /// capacity.
    pub fn read(&self, pos: usize) -> (result: Result<Vec<u8>, ArchiveOutOfRange>)
        requires
            self.wf(),
            pos != self.capacity,
        ensures
            pos > self.capacity ==> result == Err::<Vec<u8>, ArchiveOutOfRange>(
                (ArchiveOutOfRange { pos, capacity: self.capacity }),
            ),
            pos < self.capacity ==> result is Ok && result->Ok_0@ == self@.rows[pos as int],
    {
        if pos > self.capacity {
            Err(ArchiveOutOfRange { pos, capacity: self.capacity })
        } else {
            Ok(self.mem[pos].clone())
        }
    }
}

/// Round trip of a snapshot: the four parts of an archive that keeps the
/// invariant are read back as that archive, with the same width, capacity,
/// cursor and stored vectors.
pub proof fn lemma_snapshot_round_trip(archive: QMemory)
    requires
        archive.wf(),
    ensures
        QMemory::restored(archive.mem, archive.qubits, archive.capacity, archive.current_pos)
            == Some(archive),
{
}

/// The ledger of resource units: a pool of fixed size, and how many of its
/// units no job holds.
#[derive(Debug, Clone)]
pub struct QResgister {
    pub qubits: Vec<bool>,
    pub idle: usize,
}

impl View for QResgister {
    type V = Ledger;

    open spec fn view(&self) -> Ledger {
        Ledger { capacity: self.qubits@.len(), idle: self.idle as nat }
    }
}

impl Default for QResgister {
    /// Twenty units, all idle.
    fn default() -> (ledger: QResgister)
        ensures
            ledger@ == Ledger::fresh(20),
            ledger.qubits@ == Seq::new(20, |i: int| false),
    {
        QResgister::new(20)
    }
}

impl QResgister {
    /// A pool of `num_qubits` units, all idle.
    pub fn new(num_qubits: usize) -> (ledger: QResgister)
        ensures
            ledger@ == Ledger::fresh(num_qubits as nat),
            ledger.qubits@ == Seq::new(num_qubits as nat, |i: int| false),
    {
        let qubits = vec![false; num_qubits];
        QResgister { qubits, idle: num_qubits }
    }

    /// Replaces the pool by one of `num_qubits` units, all idle. What jobs in
    /// flight hold of the old pool is forgotten.
    pub fn update_qubits(&mut self, num_qubits: usize)
        ensures
            final(self)@ == Ledger::fresh(num_qubits as nat),
            final(self).qubits@ == Seq::new(num_qubits as nat, |i: int| false),
    {
        self.qubits = vec![false; num_qubits];
        self.idle = num_qubits;
    }

    /// Sets the number of idle units.
    pub fn update_idle(&mut self, idle: usize)
        ensures
            final(self).idle == idle,
            final(self).qubits == old(self).qubits,
    {
        self.idle = idle;
    }

    /// Asks for `n` units. The request is granted, and `n` units leave the
    /// idle count, exactly when at least one unit and at least `n` units are
    /// idle; a denied request changes nothing.
    pub fn reserve(&mut self, n: usize) -> (granted: bool)
        ensures
            granted == old(self)@.can_reserve(n as nat),
            final(self)@ == old(self)@.reserve(n as nat),
            final(self).qubits == old(self).qubits,
            !granted ==> *final(self) == *old(self),
    {
        if self.idle < 1 || self.idle < n {
            false
        } else {
            self.idle -= n;
            true
        }
    }

    /// Gives `n` units back.
    pub fn release(&mut self, n: usize)
        requires
            old(self).idle + n <= usize::MAX,
        ensures
            final(self)@ == old(self)@.release(n as nat),
            final(self).qubits == old(self).qubits,
    {
        self.idle += n;
    }
}

} // verus!
