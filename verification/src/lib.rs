//! Admission control, result reduction and the measurement archive of a
//! circuit-emulation service, with every rule stated as a contract.

pub mod archive;
pub mod coordinator;
pub mod emulate;
pub mod ledger;
pub mod measure;
pub mod optimizer;
pub mod outcome;
pub mod qubits;
pub mod reduction;
pub mod substitute;
pub mod sweep;

use vstd::prelude::*;
use crate::archive::Archive;
use crate::ledger::Ledger;
use crate::qubits::{ArchiveOutOfRange, QMemory, QResgister};

verus! {

/// The state that all jobs of one service share.
#[derive(Debug, Clone)]
pub struct ServerState {
    /// Where the snapshot of the archive is kept.
    pub measure_path: String,
    pub qmem: QMemory,
    pub qreg: QResgister,
}

/// A request to change the dimensions of the service. An absent field leaves
/// its dimension as it is.
#[derive(Debug, Clone, Copy, PartialEq, Eq, Structural)]
pub struct ClassicalInfo {
    pub qbits: Option<usize>,
    pub capacity: Option<usize>,
}

/// A request to read one position of the archive.
#[derive(Debug, Clone, Copy, PartialEq, Eq, Structural)]
pub struct MeasurePos {
    pub pos: usize,
}

impl ClassicalInfo {
    /// The archive after this request: cleared to the new dimensions where
    /// the request names one, untouched where it names none.
    pub open spec fn archive_after(self, before: Archive) -> Archive {
        if self.qbits is None && self.capacity is None {
            before
        } else {
            Archive::cleared(
                match self.qbits {
                    Some(qbits) => qbits as nat,
                    None => before.qubits,
                },
                match self.capacity {
                    Some(capacity) => capacity as nat,
                    None => before.capacity,
                },
            )
        }
    }

    /// The ledger after this request: a fresh pool of the new width where the
    /// request names one, untouched otherwise.
    pub open spec fn ledger_after(self, before: Ledger) -> Ledger {
        match self.qbits {
            Some(qbits) => Ledger::fresh(qbits as nat),
            None => before,
        }
    }
}

/// Applies a request to change the dimensions: a new width resizes archive
/// and ledger, a new capacity resizes the archive. Either clears the archive.
pub fn update_classical(state: &mut ServerState, message: &ClassicalInfo)
    ensures
        final(state).qmem@ == message.archive_after(old(state).qmem@),
        final(state).qreg@ == message.ledger_after(old(state).qreg@),
        message.qbits is None ==> final(state).qreg == old(state).qreg,
        message.qbits is None && message.capacity is None ==> final(state).qmem == old(state).qmem,
        message.qbits is Some || message.capacity is Some ==> final(state).qmem.wf(),
        final(state).measure_path == old(state).measure_path,
{
    if let Some(qbits) = message.qbits {
        state.qmem.update_qubits(qbits);
        state.qreg.update_qubits(qbits);
    }
    if let Some(capacity) = message.capacity {
        state.qmem.update_capacity(capacity);
    }
}

/// Reads the vector stored at the position asked for.
pub fn get_measure(state: &ServerState, pos: &MeasurePos) -> (result: Result<
    Vec<u8>,
    ArchiveOutOfRange,
>)
    requires
        state.qmem.wf(),
        pos.pos != state.qmem.capacity,
    ensures
        pos.pos > state.qmem.capacity ==> result == Err::<Vec<u8>, ArchiveOutOfRange>(
            (ArchiveOutOfRange { pos: pos.pos, capacity: state.qmem.capacity }),
        ),
        pos.pos < state.qmem.capacity ==> result is Ok && result->Ok_0@
            == state.qmem@.rows[pos.pos as int],
{
    state.qmem.read(pos.pos)
}

} // verus!
