//! The measurement record as it is kept in a text snapshot: the same ring of
//! bit vectors as the archive, under the names of that format.

use vstd::prelude::*;
use crate::archive::Archive;
use crate::outcome::measurement_bits;
use crate::qubits::{rows_of, zero_rows};

verus! {

/// A ring of the most recent outcomes, one bit vector per shot.
#[derive(Debug, Clone)]
pub struct MeasureResult {
    pub results: Vec<Vec<u8>>,
    pub qbits: usize,
    pub capacity: usize,
    pub current_pos: usize,
}

impl View for MeasureResult {
    type V = Archive;

    open spec fn view(&self) -> Archive {
        Archive {
            rows: rows_of(self.results@),
            qubits: self.qbits as nat,
            capacity: self.capacity as nat,
            cursor: self.current_pos as nat,
        }
    }
}

impl Default for MeasureResult {
    /// Twenty positions of twenty bits, all zero.
    fn default() -> (record: MeasureResult)
        ensures
            record@ == Archive::cleared(20, 20),
    {
        MeasureResult::new(20, 20)
    }
}

impl MeasureResult {
    /// The invariant that every record made and changed by these methods
    /// keeps.
    pub open spec fn wf(&self) -> bool {
        self@.wf()
    }

    /// A record of the given dimensions with every entry 0.
    pub fn new(qbits: usize, capacity: usize) -> (record: MeasureResult)
        ensures
            record@ == Archive::cleared(qbits as nat, capacity as nat),
            record.wf(),
    {
        MeasureResult { results: zero_rows(qbits, capacity), qbits, capacity, current_pos: 0 }
    }

    /// Changes the number of positions. Nothing of the old contents is kept.
    pub fn update_capaicity(&mut self, capacity: usize)
        ensures
            final(self)@ == Archive::cleared(old(self).qbits as nat, capacity as nat),
            final(self).wf(),
    {
        self.capacity = capacity;
        self.current_pos = 0;
        self.results = zero_rows(self.qbits, capacity);
    }

    /// Changes the width of the stored vectors. Nothing of the old contents is
    /// kept.
    pub fn update_qbits(&mut self, qbits: usize)
        ensures
            final(self)@ == Archive::cleared(qbits as nat, old(self).capacity as nat),
            final(self).wf(),
    {
        self.qbits = qbits;
        self.current_pos = 0;
        self.results = zero_rows(qbits, self.capacity);
    }

    /// Writes one outcome at the cursor and moves the cursor on.
    pub fn update_results(&mut self, str: &String)
        requires
            old(self).wf(),
            old(self).capacity > 0,
        ensures
            final(self)@ == old(self)@.append(str@),
            final(self).wf(),
    {
        let mz_res = measurement_bits(str.as_str(), self.qbits);
        self.results[self.current_pos] = mz_res;
        self.current_pos += 1;
        self.current_pos = self.current_pos % self.capacity;
    }
}

} // verus!
