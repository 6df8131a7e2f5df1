//! The decisions of one job: admission against the ledger, and what becomes
//! of the reply of the compute stage. Whoever runs the job performs what lies
//! between the two: it hands the work order to the compute stage and waits
//! for the single reply.

use vstd::prelude::*;
use crate::emulate::{
    lemma_mode_names_differ, post_process_msg, reducible, summarises, EmulateMessage, EmulateMode,
    JobResult,
};
use crate::outcome::texts_of;
use crate::ServerState;

verus! {

/// Why a job ended without a summary.
#[derive(Debug, Clone)]
pub enum JobError {
    /// Too few resource units were idle.
    AdmissionDenied,
    /// The simulator refused or failed the program; its own words are kept.
    SimulationFailure(String),
    /// The compute stage went away without a reply.
    InternalHandoffFailure,
    /// The variable ranges of a sweep could not be read.
    InvalidParameterRange,
    /// The mode names no reduction.
    InvalidMode,
}

impl JobError {
    /// The message that the client is shown.
    pub open spec fn text(self) -> Seq<char> {
        match self {
            JobError::AdmissionDenied => "No enough qubits"@,
            JobError::SimulationFailure(words) => words@,
            JobError::InternalHandoffFailure => "Internal server error"@,
            JobError::InvalidParameterRange => "Invalid vars range"@,
            JobError::InvalidMode => "Invalid mode"@,
        }
    }

    /// Whether the fault lies inside the service rather than with the
    /// request.
    pub open spec fn internal(self) -> bool {
        self is InternalHandoffFailure
    }

    /// The message that the client is shown.
    pub fn message(&self) -> (message: String)
        ensures
            message@ == self.text(),
    {
        match self {
            JobError::AdmissionDenied => "No enough qubits".to_owned(),
            JobError::SimulationFailure(words) => words.clone(),
            JobError::InternalHandoffFailure => "Internal server error".to_owned(),
            JobError::InvalidParameterRange => "Invalid vars range".to_owned(),
            JobError::InvalidMode => "Invalid mode".to_owned(),
        }
    }

    /// Whether the fault lies inside the service rather than with the
    /// request.
    pub fn is_internal(&self) -> (internal: bool)
        ensures
            internal == self.internal(),
    {
        match self {
            JobError::InternalHandoffFailure => true,
            _ => false,
        }
    }
}

/// How a request is to be run.
#[derive(Debug, Clone)]
pub enum TaskPlan {
    /// As one job, reduced by the mode of the message.
    Single(EmulateMessage),
    /// As a sweep of so many iterations.
    Sweep(EmulateMessage, usize),
}

/// The mode of a request: aggregation where it names none.
pub open spec fn effective_mode(mode: Option<EmulateMode>) -> EmulateMode {
    match mode {
        Some(mode) => mode,
        None => EmulateMode::Aggregation,
    }
}

/// The number of iterations of a sweep: two where the request names none.
pub open spec fn effective_iterations(iterations: Option<usize>) -> usize {
    match iterations {
        Some(iterations) => iterations,
        None => 2,
    }
}

/// Decides how a request is run. The mode is filled in where it is absent;
/// nothing else of the message changes. The sweep mode is run as a sweep,
/// every other mode as one job.
pub fn plan_task(message: EmulateMessage) -> (plan: TaskPlan)
    ensures
        effective_mode(message.mode) == EmulateMode::Vqe ==> (plan matches TaskPlan::Sweep(
            planned,
            iterations,
        ) && planned == (EmulateMessage { mode: Some(EmulateMode::Vqe), ..message })
            && iterations == effective_iterations(message.iterations)),
        effective_mode(message.mode) != EmulateMode::Vqe ==> (plan matches TaskPlan::Single(planned)
            && planned == (EmulateMessage { mode: Some(effective_mode(message.mode)), ..message })),
{
    let mut message = message;
    let mode = match message.mode {
        Some(mode) => mode,
        None => EmulateMode::Aggregation,
    };
    message.mode = Some(mode);
    match mode {
        EmulateMode::Vqe => {
            let iterations = match message.iterations {
                Some(iterations) => iterations,
                None => 2,
            };
            TaskPlan::Sweep(message, iterations)
        },
        _ => TaskPlan::Single(message),
    }
}

/// Where a job stands between two pieces of outside work.
#[derive(Debug, Clone, Copy, PartialEq, Eq, Structural)]
pub enum JobState {
    /// Accepted for processing; nothing is reserved yet.
    Admitted,
    /// The units are reserved and the compute stage has the work order.
    Awaiting,
    /// The units are back, the archive holds the outcomes, the summary is
    /// made.
    Done,
    /// The ledger denied the units. Nothing was reserved.
    Rejected,
    /// The units are back; there is no summary.
    Failed,
}

/// One job on its way through the service.
#[derive(Debug, Clone, Copy, PartialEq, Eq, Structural)]
pub struct Job {
    pub state: JobState,
    /// The resource units that the job asks for and, once admitted, holds.
    pub units: usize,
    pub mode: EmulateMode,
}

/// What came back from the compute stage.
#[derive(Debug, Clone)]
pub enum ComputeReply {
    /// One outcome per shot.
    Outcomes(Vec<String>),
    /// The words of the simulator's refusal.
    SimulationError(String),
    /// Nothing: the compute stage went away without a reply.
    HandoffLost,
}

/// How a job ended, and what is left to do about it.
#[derive(Debug)]
pub struct Completion {
    pub response: Result<JobResult, JobError>,
    /// Whether the archive changed and its snapshot is to be written.
    pub persist: bool,
}

impl Job {
    /// The job of a message, before admission.
    pub fn new(msg: &EmulateMessage) -> (job: Job)
        requires
            msg.mode is Some,
        ensures
            job == (Job { state: JobState::Admitted, units: msg.qubits, mode: msg.mode->0 }),
    {
        let mode = match msg.mode {
            Some(mode) => mode,
            None => EmulateMode::Aggregation,
        };
        Job { state: JobState::Admitted, units: msg.qubits, mode }
    }

    /// Asks the ledger for the units of the job. Granted, the units leave the
    /// idle count and the job waits for the compute stage; denied, the job is
    /// rejected and the state is as it was.
    pub fn dispatch(&mut self, state: &mut ServerState) -> (result: Result<(), JobError>)
        requires
            old(self).state == JobState::Admitted,
        ensures
            final(self).units == old(self).units,
            final(self).mode == old(self).mode,
            final(state).qreg@ == old(state).qreg@.reserve(old(self).units as nat),
            final(state).qreg.qubits == old(state).qreg.qubits,
            final(state).qmem == old(state).qmem,
            final(state).measure_path == old(state).measure_path,
            old(state).qreg@.can_reserve(old(self).units as nat) ==> result is Ok && final(self).state == JobState::Awaiting,
            !old(state).qreg@.can_reserve(old(self).units as nat) ==> (result matches Err(
                JobError::AdmissionDenied,
            ) && final(self).state == JobState::Rejected && *final(state) == *old(state)),
    {
        if state.qreg.reserve(self.units) {
            self.state = JobState::Awaiting;
            Ok(())
        } else {
            self.state = JobState::Rejected;
            Err(JobError::AdmissionDenied)
        }
    }

    /// Ends the job on the reply of the compute stage. The units go back to
    /// the ledger first, whatever the reply. Outcomes are then written to the
    /// archive and reduced by the mode of the job; a refusal of the simulator
    /// is passed on in its own words; a lost reply is an internal fault.
    pub fn complete(&mut self, state: &mut ServerState, reply: ComputeReply) -> (completion:
        Completion)
        requires
            old(self).state == JobState::Awaiting,
            old(state).qreg.idle + old(self).units <= usize::MAX,
            reply matches ComputeReply::Outcomes(outcomes) ==> {
                &&& old(state).qmem.wf()
                &&& old(state).qmem.capacity > 0 || outcomes@.len() == 0
                &&& reducible(outcomes@, old(self).mode)
            },
        ensures
            final(self).units == old(self).units,
            final(self).mode == old(self).mode,
            final(state).qreg@ == old(state).qreg@.release(old(self).units as nat),
            final(state).qreg.qubits == old(state).qreg.qubits,
            final(state).measure_path == old(state).measure_path,
            match reply {
                ComputeReply::Outcomes(outcomes) => {
                    &&& completion.persist
                    &&& final(state).qmem@ == old(state).qmem@.append_all(texts_of(outcomes@))
                    &&& final(state).qmem.wf()
                    &&& if old(self).mode == EmulateMode::Vqe {
                        &&& final(self).state == JobState::Failed
                        &&& completion.response matches Err(JobError::InvalidMode)
                    } else {
                        &&& final(self).state == JobState::Done
                        &&& completion.response matches Ok(response)
                        &&& response.init_position == old(state).qmem.current_pos
                        &&& summarises(response.result, outcomes@, old(self).mode)
                    }
                },
                ComputeReply::SimulationError(words) => {
                    &&& !completion.persist
                    &&& final(state).qmem == old(state).qmem
                    &&& final(self).state == JobState::Failed
                    &&& completion.response == Err::<JobResult, JobError>(
                        JobError::SimulationFailure(words),
                    )
                },
                ComputeReply::HandoffLost => {
                    &&& !completion.persist
                    &&& final(state).qmem == old(state).qmem
                    &&& final(self).state == JobState::Failed
                    &&& completion.response matches Err(JobError::InternalHandoffFailure)
                },
            },
    {
        state.qreg.release(self.units);
        match reply {
            ComputeReply::Outcomes(outcomes) => {
                proof {
                    lemma_mode_names_differ(self.mode, self.mode);
                }
                match post_process_msg(state, outcomes, self.mode.to_string()) {
                    Ok(response) => {
                        self.state = JobState::Done;
                        Completion { response: Ok(response), persist: true }
                    },
                    Err(_) => {
                        self.state = JobState::Failed;
                        Completion { response: Err(JobError::InvalidMode), persist: true }
                    },
                }
            },
            ComputeReply::SimulationError(words) => {
                self.state = JobState::Failed;
                Completion { response: Err(JobError::SimulationFailure(words)), persist: false }
            },
            ComputeReply::HandoffLost => {
                self.state = JobState::Failed;
                Completion { response: Err(JobError::InternalHandoffFailure), persist: false }
            },
        }
    }
}

} // verus!
