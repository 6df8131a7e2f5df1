use qpp_pipeline::qubits::QResgister;

#[test]
fn new_ledger_is_all_idle() {
    let ledger = QResgister::new(5);
    assert_eq!(ledger.qubits, vec![false; 5]);
    assert_eq!(ledger.idle, 5);
}

#[test]
fn default_ledger_has_twenty_units() {
    let ledger = QResgister::default();
    assert_eq!(ledger.qubits, vec![false; 20]);
    assert_eq!(ledger.idle, 20);
}

#[test]
fn reserve_takes_units_from_the_idle_count() {
    let mut ledger = QResgister::new(5);
    assert!(ledger.reserve(3));
    assert_eq!(ledger.idle, 2);
    assert!(ledger.reserve(2));
    assert_eq!(ledger.idle, 0);
}

#[test]
fn request_for_more_than_idle_is_denied_without_change() {
    let mut ledger = QResgister::new(5);
    assert!(ledger.reserve(3));
    assert!(!ledger.reserve(3));
    assert_eq!(ledger.idle, 2);
    assert_eq!(ledger.qubits, vec![false; 5]);
    assert!(!ledger.reserve(usize::MAX));
    assert_eq!(ledger.idle, 2);
}

#[test]
fn nothing_is_granted_when_nothing_is_idle() {
    let mut ledger = QResgister::new(2);
    assert!(ledger.reserve(2));
    assert!(!ledger.reserve(0));
    assert!(!ledger.reserve(1));
    assert_eq!(ledger.idle, 0);
}

#[test]
fn request_for_no_units_is_granted_while_one_is_idle() {
    let mut ledger = QResgister::new(1);
    assert!(ledger.reserve(0));
    assert_eq!(ledger.idle, 1);
}

#[test]
fn ledger_without_units_grants_nothing() {
    let mut ledger = QResgister::new(0);
    assert!(!ledger.reserve(0));
    assert_eq!(ledger.idle, 0);
}

#[test]
fn idle_and_held_units_make_up_the_pool() {
    let capacity = 6;
    let mut ledger = QResgister::new(capacity);
    let mut held = 0;
    for (reserve, n) in [(true, 2), (true, 3), (true, 4), (false, 2), (true, 1), (false, 3), (false, 1)]
    {
        if reserve {
            if ledger.reserve(n) {
                held += n;
            }
        } else {
            ledger.release(n);
            held -= n;
        }
        assert!(ledger.idle <= capacity);
        assert_eq!(ledger.idle + held, capacity);
    }
    assert_eq!(held, 0);
    assert_eq!(ledger.idle, capacity);
}

#[test]
fn release_gives_units_back() {
    let mut ledger = QResgister::new(4);
    assert!(ledger.reserve(4));
    ledger.release(4);
    assert_eq!(ledger.idle, 4);
}

#[test]
fn update_qubits_forgets_what_is_held() {
    let mut ledger = QResgister::new(4);
    assert!(ledger.reserve(3));
    ledger.update_qubits(2);
    assert_eq!(ledger.qubits, vec![false; 2]);
    assert_eq!(ledger.idle, 2);
}

#[test]
fn update_idle_sets_the_count() {
    let mut ledger = QResgister::new(4);
    ledger.update_idle(1);
    assert_eq!(ledger.idle, 1);
    assert_eq!(ledger.qubits, vec![false; 4]);
}
