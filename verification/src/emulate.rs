//! The request as it arrives, the work order handed to the compute stage,
//! and the reductions of a job's outcomes.

use vstd::prelude::*;
use crate::outcome::texts_of;
use crate::reduction::{
    first_seen, fits_first, histogram_of, is_least_frequent, is_most_frequent,
    lemma_extremes_of_tally, lemma_first_seen, lemma_occurs_iff_contained, occurrences, tally,
    z_sums, Expectation, Histogram, HistogramEntry,
};
use crate::substitute::{pairs_of, substitute, substituted, Substitution};
use crate::ServerState;

verus! {

/// How the outcomes of a job are summarised.
#[derive(Debug, Clone, Copy, PartialEq, Eq, Structural)]
pub enum EmulateMode {
    Sequence,
    Aggregation,
    Max,
    Min,
    Expectation,
    Vqe,
}

/// The refusal of a text that names no mode.
#[derive(Debug, Clone, Copy, PartialEq, Eq, Structural)]
pub struct ParseEmulateModeError;

impl ParseEmulateModeError {
    /// The message shown for this error.
    pub fn to_string(&self) -> (message: String)
        ensures
            message@ == "Invalid emulate mode"@,
    {
        "Invalid emulate mode".to_owned()
    }
}

impl EmulateMode {
    /// The name by which a request selects this mode.
    pub open spec fn name(self) -> Seq<char> {
        match self {
            EmulateMode::Sequence => "sequence"@,
            EmulateMode::Aggregation => "aggregation"@,
            EmulateMode::Max => "max"@,
            EmulateMode::Min => "min"@,
            EmulateMode::Expectation => "expectation"@,
            EmulateMode::Vqe => "vqe"@,
        }
    }

    /// The mode that `text` is the name of, if it is the name of one.
    pub open spec fn named(text: Seq<char>) -> Option<EmulateMode> {
        if text == "sequence"@ {
            Some(EmulateMode::Sequence)
        } else if text == "aggregation"@ {
            Some(EmulateMode::Aggregation)
        } else if text == "max"@ {
            Some(EmulateMode::Max)
        } else if text == "min"@ {
            Some(EmulateMode::Min)
        } else if text == "expectation"@ {
            Some(EmulateMode::Expectation)
        } else if text == "vqe"@ {
            Some(EmulateMode::Vqe)
        } else {
            None
        }
    }

    /// The name of the mode, as a request writes it.
    pub fn to_string(&self) -> (name: String)
        ensures
            name@ == self.name(),
    {
        match self {
            EmulateMode::Sequence => "sequence".to_owned(),
            EmulateMode::Aggregation => "aggregation".to_owned(),
            EmulateMode::Max => "max".to_owned(),
            EmulateMode::Min => "min".to_owned(),
            EmulateMode::Expectation => "expectation".to_owned(),
            EmulateMode::Vqe => "vqe".to_owned(),
        }
    }

    /// The mode that `text` names. A text is accepted exactly when it is the
    /// name of a mode, letter for letter.
    pub fn parse(text: &str) -> (result: Result<EmulateMode, ParseEmulateModeError>)
        ensures
            result == match EmulateMode::named(text@) {
                Some(mode) => Ok::<EmulateMode, ParseEmulateModeError>(mode),
                None => Err::<EmulateMode, ParseEmulateModeError>(ParseEmulateModeError),
            },
    {
        let given = text.to_owned();
        if given == EmulateMode::Sequence.to_string() {
            Ok(EmulateMode::Sequence)
        } else if given == EmulateMode::Aggregation.to_string() {
            Ok(EmulateMode::Aggregation)
        } else if given == EmulateMode::Max.to_string() {
            Ok(EmulateMode::Max)
        } else if given == EmulateMode::Min.to_string() {
            Ok(EmulateMode::Min)
        } else if given == EmulateMode::Expectation.to_string() {
            Ok(EmulateMode::Expectation)
        } else if given == EmulateMode::Vqe.to_string() {
            Ok(EmulateMode::Vqe)
        } else {
            Err(ParseEmulateModeError)
        }
    }
}

/// No two modes share a name, so the name of a mode is read back as that
/// mode and no other.
pub proof fn lemma_mode_names_differ(a: EmulateMode, b: EmulateMode)
    ensures
        a.name() == b.name() <==> a == b,
        EmulateMode::named(a.name()) == Some(a),
{
    reveal_strlit("sequence");
    reveal_strlit("aggregation");
    reveal_strlit("max");
    reveal_strlit("min");
    reveal_strlit("expectation");
    reveal_strlit("vqe");
    assert("sequence"@[1] == 'e');
    assert("aggregation"@[1] == 'g');
    assert("max"@[1] == 'a');
    assert("min"@[1] == 'i');
    assert("expectation"@[1] == 'x');
    assert("vqe"@[1] == 'q');
}

/// A request as the service receives it.
#[derive(Debug, Clone)]
pub struct EmulateMessage {
    pub qasm: String,
    pub qubits: usize,
    pub shots: usize,
    pub mode: Option<EmulateMode>,
    pub iterations: Option<usize>,
    pub vars: Option<String>,
    pub vars_range: Option<String>,
}

/// The work order handed to the compute stage.
#[derive(Debug)]
pub struct EmulateInfo {
    pub qasm: String,
    pub shots: Option<usize>,
    pub mode: Option<EmulateMode>,
}

/// The body of a response: the outcomes of a job, reduced as its mode asks.
#[derive(Debug, Clone)]
pub enum Summary {
    /// The outcomes as they came, one per shot.
    Sequence(Vec<String>),
    /// How often each outcome came.
    Aggregation(Histogram),
    /// The one outcome that came most or least often, with its count.
    Extreme(HistogramEntry),
    /// The balance of zeros and ones at each bit position.
    Expectation(Expectation),
}

/// A response to a job that ran: its summary, and where in the archive its
/// outcomes begin.
#[derive(Debug, Clone)]
pub struct JobResult {
    /// The write position of the archive before this job's outcomes.
    pub init_position: usize,
    pub result: Summary,
}

/// Whether line `index` of the tally of `texts` wins: it has the largest
/// count (the smallest, where `is_max` is false) and is the first line that
/// has it.
pub open spec fn wins(texts: Seq<Seq<char>>, is_max: bool, index: int) -> bool {
    let keys = first_seen(texts);
    &&& 0 <= index < keys.len()
    &&& forall|i: int|
        0 <= i < keys.len() ==> if is_max {
            occurrences(texts, #[trigger] keys[i]) <= occurrences(texts, keys[index])
        } else {
            occurrences(texts, #[trigger] keys[i]) >= occurrences(texts, keys[index])
        }
    &&& forall|i: int|
        0 <= i < index ==> if is_max {
            occurrences(texts, #[trigger] keys[i]) < occurrences(texts, keys[index])
        } else {
            occurrences(texts, #[trigger] keys[i]) > occurrences(texts, keys[index])
        }
}

/// Whether `summary` is what `mode` makes of the outcomes. The sweep mode
/// makes nothing of them.
pub open spec fn summarises(summary: Summary, outcomes: Seq<String>, mode: EmulateMode) -> bool {
    let texts = texts_of(outcomes);
    match mode {
        EmulateMode::Sequence => summary matches Summary::Sequence(list) && list@ == outcomes,
        EmulateMode::Aggregation => summary matches Summary::Aggregation(histogram)
            && histogram.counts(texts) && histogram@ == histogram_of(texts),
        EmulateMode::Max => summary matches Summary::Extreme(entry) && is_most_frequent(
            texts,
            entry.outcome@,
        ) && entry.count == occurrences(texts, entry.outcome@) && exists|index: int|
            wins(texts, true, index) && first_seen(texts)[index] == entry.outcome@,
        EmulateMode::Min => summary matches Summary::Extreme(entry) && is_least_frequent(
            texts,
            entry.outcome@,
        ) && entry.count == occurrences(texts, entry.outcome@) && exists|index: int|
            wins(texts, false, index) && first_seen(texts)[index] == entry.outcome@,
        EmulateMode::Expectation => summary matches Summary::Expectation(expectation)
            && expectation.balances(texts),
        EmulateMode::Vqe => false,
    }
}

/// The outcomes that a mode can reduce: the extremes need at least one
/// outcome, the expectation needs that no outcome is longer than the first.
pub open spec fn reducible(outcomes: Seq<String>, mode: EmulateMode) -> bool {
    match mode {
        EmulateMode::Max | EmulateMode::Min => outcomes.len() > 0,
        EmulateMode::Expectation => fits_first(texts_of(outcomes)),
        _ => true,
    }
}

/// Whether `mode` can reduce the outcomes.
pub fn can_reduce(outcomes: &Vec<String>, mode: EmulateMode) -> (ok: bool)
    ensures
        ok == reducible(outcomes@, mode),
{
    match mode {
        EmulateMode::Max | EmulateMode::Min => outcomes.len() > 0,
        EmulateMode::Expectation => {
            if outcomes.len() == 0 {
                return true;
            }
            let ghost texts = texts_of(outcomes@);
            let width = outcomes[0].as_str().unicode_len();
            let mut i: usize = 1;
            while i < outcomes.len()
                invariant
                    1 <= i <= outcomes@.len(),
                    mode == EmulateMode::Expectation,
                    texts == texts_of(outcomes@),
                    width == texts[0].len(),
                    forall|k: int| 0 <= k < i ==> (#[trigger] texts[k]).len() <= width,
                decreases outcomes@.len() - i,
            {
                if outcomes[i].as_str().unicode_len() > width {
                    assert(texts[i as int].len() > texts[0].len());
                    return false;
                }
                i += 1;
            }
            true
        },
        _ => true,
    }
}

/// The frequency histogram of the outcomes.
pub fn post_process_msg_agg(seq: Vec<String>, init_pos: usize) -> (response: JobResult)
    ensures
        response.init_position == init_pos,
        summarises(response.result, seq@, EmulateMode::Aggregation),
        response.result matches Summary::Aggregation(histogram) && histogram.wf(),
{
    JobResult { init_position: init_pos, result: Summary::Aggregation(tally(&seq)) }
}

/// The outcome that came most often (least often, where `is_max` is false),
/// with its count. Where several outcomes share that count, the one that came
/// first among them is given; a caller should not rely on which.
pub fn post_process_msg_minmax(seq: Vec<String>, is_max: bool, init_pos: usize) -> (response:
    JobResult)
    requires
        seq@.len() > 0,
    ensures
        response.init_position == init_pos,
        summarises(
            response.result,
            seq@,
            if is_max {
                EmulateMode::Max
            } else {
                EmulateMode::Min
            },
        ),
{
    let ghost texts = texts_of(seq@);
    let histogram = tally(&seq);
    proof {
        lemma_occurs_iff_contained(texts, texts[0]);
        lemma_first_seen(texts);
        assert(first_seen(texts).contains(texts[0]));
    }
    let index = if is_max {
        histogram.first_maximum()
    } else {
        histogram.first_minimum()
    };
    let entry = histogram.entries[index].clone_entry();
    proof {
        lemma_extremes_of_tally(histogram, texts, index as int);
        assert(wins(texts, is_max, index as int));
    }
    JobResult { init_position: init_pos, result: Summary::Extreme(entry) }
}

/// The balance of zeros and ones at each bit position, with the number of
/// shots to divide it by.
pub fn post_process_msg_expe(seq: Vec<String>, init_pos: usize) -> (response: JobResult)
    requires
        fits_first(texts_of(seq@)),
    ensures
        response.init_position == init_pos,
        summarises(response.result, seq@, EmulateMode::Expectation),
{
    JobResult { init_position: init_pos, result: Summary::Expectation(z_sums(&seq)) }
}

/// Reduces the outcomes as the mode of that name asks. The name of the sweep
/// mode, and a text that names no mode, are refused.
pub fn reduce(seq: Vec<String>, mode: &str, init_pos: usize) -> (result: Result<JobResult, String>)
    requires
        EmulateMode::named(mode@) matches Some(named) ==> reducible(seq@, named),
    ensures
        match EmulateMode::named(mode@) {
            Some(EmulateMode::Vqe) | None => result matches Err(message) && message@
                == "Invalid mode"@,
            Some(named) => result matches Ok(response) && response.init_position == init_pos
                && summarises(response.result, seq@, named),
        },
{
    match EmulateMode::parse(mode) {
        Ok(EmulateMode::Sequence) => Ok(
            JobResult { init_position: init_pos, result: Summary::Sequence(seq) },
        ),
        Ok(EmulateMode::Aggregation) => Ok(post_process_msg_agg(seq, init_pos)),
        Ok(EmulateMode::Max) => Ok(post_process_msg_minmax(seq, true, init_pos)),
        Ok(EmulateMode::Min) => Ok(post_process_msg_minmax(seq, false, init_pos)),
        Ok(EmulateMode::Expectation) => Ok(post_process_msg_expe(seq, init_pos)),
        _ => Err("Invalid mode".to_owned()),
    }
}

/// Writes a job's outcomes to the archive and reduces them as `mode` asks.
/// The response tells where in the archive the outcomes begin. The archive is
/// written whatever the mode; a mode that names no reduction is refused
/// afterwards.
pub fn post_process_msg(state: &mut ServerState, seq: Vec<String>, mode: String) -> (result:
    Result<JobResult, String>)
    requires
        old(state).qmem.wf(),
        old(state).qmem.capacity > 0 || seq@.len() == 0,
        EmulateMode::named(mode@) matches Some(named) ==> reducible(seq@, named),
    ensures
        final(state).qmem@ == old(state).qmem@.append_all(texts_of(seq@)),
        final(state).qmem.wf(),
        final(state).qreg == old(state).qreg,
        final(state).measure_path == old(state).measure_path,
        match EmulateMode::named(mode@) {
            Some(EmulateMode::Vqe) | None => result matches Err(message) && message@
                == "Invalid mode"@,
            Some(named) => result matches Ok(response) && response.init_position == old(
                state).qmem.current_pos && summarises(response.result, seq@, named),
        },
{
    let init_pos = state.qmem.current_pos;
    state.qmem.record(&seq);
    reduce(seq, mode.as_str(), init_pos)
}

/// The number of shots that the compute stage is asked for: one where the
/// request asks for none.
pub open spec fn normalized_shots(shots: usize) -> usize {
    if shots == 0 {
        1
    } else {
        shots
    }
}

/// Makes the work order of a job: the program with the variables of the
/// request replaced by their values, and at least one shot. `vars` holds the
/// variables that the request's `vars` field lists, each with the text of
/// its value; a request without that field has nothing replaced.
pub fn pre_process_msg(msg: EmulateMessage, vars: &Vec<Substitution>) -> (info: EmulateInfo)
    ensures
        info.qasm@ == if msg.vars is Some {
            substituted(msg.qasm@, pairs_of(vars@))
        } else {
            msg.qasm@
        },
        info.shots == Some(normalized_shots(msg.shots)),
        info.mode == msg.mode,
{
    let qasm = if msg.vars.is_some() {
        substitute(msg.qasm.as_str(), vars)
    } else {
        msg.qasm
    };
    EmulateInfo {
        qasm,
        shots: if msg.shots == 0 {
            Some(1)
        } else {
            Some(msg.shots)
        },
        mode: msg.mode,
    }
}

/// Makes the work order of one iteration of a sweep: the program with each
/// ranged variable replaced by the value it takes in this iteration, to be
/// run once. `vars` holds the variables with the texts of those values.
pub fn pre_process_msg_vqe(msg: EmulateMessage, vars: &Vec<Substitution>) -> (info: EmulateInfo)
    ensures
        info.qasm@ == substituted(msg.qasm@, pairs_of(vars@)),
        info.shots == None::<usize>,
        info.mode == msg.mode,
{
    EmulateInfo { qasm: substitute(msg.qasm.as_str(), vars), shots: None, mode: msg.mode }
}

} // verus!
