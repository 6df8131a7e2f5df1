use qpp_pipeline::emulate::{
    can_reduce, post_process_msg, post_process_msg_agg, post_process_msg_expe,
    post_process_msg_minmax, reduce, EmulateMode, Summary,
};
use qpp_pipeline::qubits::{QMemory, QResgister};
use qpp_pipeline::reduction::{tally, z_sums, Histogram};
use qpp_pipeline::ServerState;

fn outcomes(list: &[&str]) -> Vec<String> {
    list.iter().map(|s| String::from(*s)).collect()
}

fn lines(histogram: &Histogram) -> Vec<(String, usize)> {
    let mut lines: Vec<(String, usize)> =
        histogram.entries.iter().map(|e| (e.outcome.clone(), e.count)).collect();
    lines.sort();
    lines
}

fn state(qubits: usize, capacity: usize) -> ServerState {
    ServerState {
        measure_path: String::from("./measure.pkl"),
        qmem: QMemory::new(qubits, capacity),
        qreg: QResgister::new(qubits),
    }
}

#[test]
fn aggregation_counts_each_outcome() {
    let response = post_process_msg_agg(outcomes(&["01", "01", "10"]), 7);
    assert_eq!(response.init_position, 7);
    match response.result {
        Summary::Aggregation(histogram) => {
            assert_eq!(lines(&histogram), vec![(String::from("01"), 2), (String::from("10"), 1)]);
        }
        other => panic!("not a histogram: {:?}", other),
    }
}

#[test]
fn aggregation_of_nothing_is_empty() {
    match post_process_msg_agg(Vec::new(), 0).result {
        Summary::Aggregation(histogram) => assert!(histogram.entries.is_empty()),
        other => panic!("not a histogram: {:?}", other),
    }
}

#[test]
fn tally_lists_outcomes_in_order_of_first_occurrence() {
    let histogram = tally(&outcomes(&["b", "a", "b", "c", "a", "b"]));
    let listed: Vec<(&str, usize)> =
        histogram.entries.iter().map(|e| (e.outcome.as_str(), e.count)).collect();
    assert_eq!(listed, vec![("b", 3), ("a", 2), ("c", 1)]);
}

#[test]
fn tally_tells_outcomes_apart_letter_for_letter() {
    let histogram = tally(&outcomes(&["01", "1", "001", "01"]));
    assert_eq!(
        lines(&histogram),
        vec![(String::from("001"), 1), (String::from("01"), 2), (String::from("1"), 1)]
    );
}

#[test]
fn max_gives_the_most_frequent_outcome() {
    let response = post_process_msg_minmax(outcomes(&["01", "01", "10"]), true, 3);
    assert_eq!(response.init_position, 3);
    match response.result {
        Summary::Extreme(entry) => {
            assert_eq!(entry.outcome, "01");
            assert_eq!(entry.count, 2);
        }
        other => panic!("not a single entry: {:?}", other),
    }
}

#[test]
fn min_gives_the_least_frequent_outcome() {
    let response = post_process_msg_minmax(outcomes(&["01", "01", "10"]), false, 3);
    assert_eq!(response.init_position, 3);
    match response.result {
        Summary::Extreme(entry) => {
            assert_eq!(entry.outcome, "10");
            assert_eq!(entry.count, 1);
        }
        other => panic!("not a single entry: {:?}", other),
    }
}

#[test]
fn extremes_of_a_tie_have_the_shared_count() {
    for is_max in [true, false] {
        match post_process_msg_minmax(outcomes(&["11", "00", "00", "11"]), is_max, 0).result {
            Summary::Extreme(entry) => {
                assert!(entry.outcome == "11" || entry.outcome == "00");
                assert_eq!(entry.count, 2);
            }
            other => panic!("not a single entry: {:?}", other),
        }
    }
}

#[test]
fn extremes_of_one_outcome() {
    for is_max in [true, false] {
        match post_process_msg_minmax(outcomes(&["1"]), is_max, 0).result {
            Summary::Extreme(entry) => {
                assert_eq!(entry.outcome, "1");
                assert_eq!(entry.count, 1);
            }
            other => panic!("not a single entry: {:?}", other),
        }
    }
}

#[test]
fn first_maximum_and_minimum_pick_the_first_of_equals() {
    let histogram = tally(&outcomes(&["a", "b", "b", "c", "c", "d"]));
    assert_eq!(histogram.first_maximum(), 1);
    assert_eq!(histogram.first_minimum(), 0);
}

#[test]
fn expectation_of_balanced_outcomes_is_zero() {
    let response = post_process_msg_expe(outcomes(&["00", "11"]), 5);
    assert_eq!(response.init_position, 5);
    match response.result {
        Summary::Expectation(expectation) => {
            assert_eq!(expectation.sums, vec![0i128, 0]);
            assert_eq!(expectation.shots, 2);
            let values: Vec<f32> = expectation
                .sums
                .iter()
                .map(|sum| *sum as f32 / expectation.shots as f32)
                .collect();
            assert_eq!(values, vec![0.0f32, 0.0]);
        }
        other => panic!("not an expectation: {:?}", other),
    }
}

#[test]
fn expectation_counts_zeros_up_and_ones_down() {
    let expectation = z_sums(&outcomes(&["001", "011", "001", "000"]));
    assert_eq!(expectation.sums, vec![4i128, 2, -2]);
    assert_eq!(expectation.shots, 4);
}

#[test]
fn expectation_of_nothing_is_empty() {
    let expectation = z_sums(&Vec::new());
    assert!(expectation.sums.is_empty());
    assert_eq!(expectation.shots, 0);
}

#[test]
fn expectation_of_shorter_later_outcomes() {
    let expectation = z_sums(&outcomes(&["111", "0", ""]));
    assert_eq!(expectation.sums, vec![0i128, -1, -1]);
    assert_eq!(expectation.shots, 3);
}

#[test]
fn post_process_sequence_returns_the_outcomes_and_fills_the_archive() {
    let mut state = state(2, 3);
    state.qmem.update_results(&String::from("11"));
    let result = post_process_msg(&mut state, outcomes(&["01", "10"]), String::from("sequence"));
    let response = result.unwrap();
    assert_eq!(response.init_position, 1);
    match response.result {
        Summary::Sequence(list) => assert_eq!(list, outcomes(&["01", "10"])),
        other => panic!("not a sequence: {:?}", other),
    }
    assert_eq!(state.qmem.mem, vec![vec![1u8, 1], vec![0, 1], vec![1, 0]]);
    assert_eq!(state.qmem.current_pos, 0);
    assert_eq!(state.qreg.idle, 2);
}

#[test]
fn post_process_reduces_by_mode() {
    let seq = outcomes(&["01", "01", "10"]);
    let mut state = state(2, 4);
    match post_process_msg(&mut state, seq.clone(), String::from("aggregation")).unwrap().result {
        Summary::Aggregation(histogram) => {
            assert_eq!(lines(&histogram), vec![(String::from("01"), 2), (String::from("10"), 1)]);
        }
        other => panic!("not a histogram: {:?}", other),
    }
    let response = post_process_msg(&mut state, seq.clone(), String::from("max")).unwrap();
    assert_eq!(response.init_position, 3);
    match response.result {
        Summary::Extreme(entry) => assert_eq!((entry.outcome.as_str(), entry.count), ("01", 2)),
        other => panic!("not a single entry: {:?}", other),
    }
    match post_process_msg(&mut state, seq.clone(), String::from("min")).unwrap().result {
        Summary::Extreme(entry) => assert_eq!((entry.outcome.as_str(), entry.count), ("10", 1)),
        other => panic!("not a single entry: {:?}", other),
    }
    match post_process_msg(&mut state, seq, String::from("expectation")).unwrap().result {
        Summary::Expectation(expectation) => {
            assert_eq!(expectation.sums, vec![1i128, -1]);
            assert_eq!(expectation.shots, 3);
        }
        other => panic!("not an expectation: {:?}", other),
    }
    assert_eq!(state.qmem.current_pos, 0);
}

#[test]
fn post_process_refuses_a_mode_without_reduction() {
    let mut state = state(2, 4);
    for mode in ["vqe", "", "Sequence", "maximum"] {
        let result = post_process_msg(&mut state, outcomes(&["01"]), String::from(mode));
        assert_eq!(result.unwrap_err(), "Invalid mode");
    }
    // The archive was written all the same.
    assert_eq!(state.qmem.current_pos, 0);
    assert_eq!(state.qmem.mem, vec![vec![0u8, 1]; 4]);
}

#[test]
fn reduce_leaves_the_archive_out_of_it() {
    let response =
        reduce(outcomes(&["01", "01", "10"]), "max", 9).unwrap();
    assert_eq!(response.init_position, 9);
    match response.result {
        Summary::Extreme(entry) => assert_eq!((entry.outcome.as_str(), entry.count), ("01", 2)),
        other => panic!("not a single entry: {:?}", other),
    }
    assert_eq!(
        reduce(outcomes(&["01"]), "vqe", 0).unwrap_err(),
        "Invalid mode"
    );
    assert_eq!(
        reduce(Vec::new(), "median", 0).unwrap_err(),
        "Invalid mode"
    );
}

#[test]
fn can_reduce_tells_what_each_mode_needs() {
    let none: Vec<String> = Vec::new();
    assert!(can_reduce(&none, EmulateMode::Sequence));
    assert!(can_reduce(&none, EmulateMode::Aggregation));
    assert!(can_reduce(&none, EmulateMode::Expectation));
    assert!(can_reduce(&none, EmulateMode::Vqe));
    assert!(!can_reduce(&none, EmulateMode::Max));
    assert!(!can_reduce(&none, EmulateMode::Min));
    assert!(can_reduce(&outcomes(&["0"]), EmulateMode::Max));
    assert!(can_reduce(&outcomes(&["01", "1", "10"]), EmulateMode::Expectation));
    assert!(!can_reduce(&outcomes(&["01", "100"]), EmulateMode::Expectation));
    assert!(can_reduce(&outcomes(&["01", "100"]), EmulateMode::Sequence));
}
