use qpp_pipeline::emulate::{
    pre_process_msg, pre_process_msg_vqe, EmulateMessage, EmulateMode, ParseEmulateModeError,
};
use qpp_pipeline::optimizer::OptimizerResult;
use qpp_pipeline::substitute::{substitute, Substitution};

fn message(qasm: &str, shots: usize, vars: Option<&str>) -> EmulateMessage {
    EmulateMessage {
        qasm: String::from(qasm),
        qubits: 2,
        shots,
        mode: Some(EmulateMode::Max),
        iterations: None,
        vars: vars.map(String::from),
        vars_range: None,
    }
}

fn vars(list: &[(&str, &str)]) -> Vec<Substitution> {
    list.iter()
        .map(|(name, value)| Substitution { name: String::from(*name), value: String::from(*value) })
        .collect()
}

#[test]
fn mode_names_are_the_request_words() {
    assert_eq!(EmulateMode::Sequence.to_string(), "sequence");
    assert_eq!(EmulateMode::Aggregation.to_string(), "aggregation");
    assert_eq!(EmulateMode::Max.to_string(), "max");
    assert_eq!(EmulateMode::Min.to_string(), "min");
    assert_eq!(EmulateMode::Expectation.to_string(), "expectation");
    assert_eq!(EmulateMode::Vqe.to_string(), "vqe");
}

#[test]
fn every_mode_is_parsed_from_its_name() {
    for mode in [
        EmulateMode::Sequence,
        EmulateMode::Aggregation,
        EmulateMode::Max,
        EmulateMode::Min,
        EmulateMode::Expectation,
        EmulateMode::Vqe,
    ] {
        assert_eq!(EmulateMode::parse(&mode.to_string()), Ok(mode));
    }
}

#[test]
fn other_words_are_no_mode() {
    for text in ["", "Max", "max ", "sequences", "agg"] {
        assert_eq!(EmulateMode::parse(text), Err(ParseEmulateModeError));
    }
}

#[test]
fn parse_error_has_its_message() {
    assert_eq!(ParseEmulateModeError.to_string(), "Invalid emulate mode");
}

#[test]
fn optimizer_results_differ() {
    assert_ne!(OptimizerResult::Failure, OptimizerResult::NumResult);
}

#[test]
fn substitute_replaces_every_occurrence() {
    let out = substitute("rx(theta) q[0]; ry(theta) q[1];", &vars(&[("theta", "0.5")]));
    assert_eq!(out, "rx(0.5) q[0]; ry(0.5) q[1];");
}

#[test]
fn substitute_without_a_match_keeps_the_text() {
    assert_eq!(substitute("h q[0];", &vars(&[("theta", "0.5")])), "h q[0];");
    assert_eq!(substitute("h q[0];", &Vec::new()), "h q[0];");
    assert_eq!(substitute("ab", &vars(&[("abc", "x")])), "ab");
}

#[test]
fn substitute_takes_matches_from_the_left_without_overlap() {
    assert_eq!(substitute("aaa", &vars(&[("aa", "b")])), "ba");
    assert_eq!(substitute("aaaa", &vars(&[("aa", "b")])), "bb");
    assert_eq!(substitute("abab", &vars(&[("ab", "")])), "");
}

#[test]
fn substitute_works_one_variable_after_the_other() {
    assert_eq!(substitute("a b", &vars(&[("a", "b"), ("b", "c")])), "c c");
    assert_eq!(substitute("a b", &vars(&[("b", "c"), ("a", "b")])), "b c");
}

#[test]
fn empty_name_matches_between_all_characters() {
    assert_eq!(substitute("abc", &vars(&[("", "-")])), "-a-b-c-");
    assert_eq!(substitute("", &vars(&[("", "-")])), "-");
}

#[test]
fn substitute_handles_text_beyond_ascii() {
    assert_eq!(substitute("rz(θ) q; rz(θ) r;", &vars(&[("θ", "1.5")])), "rz(1.5) q; rz(1.5) r;");
}

#[test]
fn pre_process_replaces_variables_and_keeps_the_shots() {
    let info = pre_process_msg(
        message("rx(theta) q[0];", 100, Some("{\"theta\": 0.5}")),
        &vars(&[("theta", "0.5")]),
    );
    assert_eq!(info.qasm, "rx(0.5) q[0];");
    assert_eq!(info.shots, Some(100));
    assert_eq!(info.mode, Some(EmulateMode::Max));
}

#[test]
fn pre_process_asks_for_one_shot_where_none_is_asked() {
    let info = pre_process_msg(message("h q[0];", 0, None), &Vec::new());
    assert_eq!(info.shots, Some(1));
    assert_eq!(info.qasm, "h q[0];");
}

#[test]
fn pre_process_without_vars_field_replaces_nothing() {
    let info = pre_process_msg(message("rx(theta) q[0];", 1, None), &vars(&[("theta", "0.5")]));
    assert_eq!(info.qasm, "rx(theta) q[0];");
}

#[test]
fn pre_process_for_a_sweep_runs_once() {
    let mut msg = message("rx(theta) q[0];", 100, None);
    msg.mode = Some(EmulateMode::Vqe);
    let info = pre_process_msg_vqe(msg, &vars(&[("theta", "5")]));
    assert_eq!(info.qasm, "rx(5) q[0];");
    assert_eq!(info.shots, None);
    assert_eq!(info.mode, Some(EmulateMode::Vqe));
}

#[test]
fn pre_process_for_a_sweep_without_variables() {
    let info = pre_process_msg_vqe(message("h q[0];", 3, None), &Vec::new());
    assert_eq!(info.qasm, "h q[0];");
    assert_eq!(info.shots, None);
}
