use named::resolver::{next_step, ClientStats, NextStep, QueryOutcome};

#[test]
fn busy_connection_is_renewed() {
    assert!(matches!(next_step(&QueryOutcome::Failed { busy: true }), NextStep::RenewClientThenFail));
    assert!(matches!(next_step(&QueryOutcome::Failed { busy: false }), NextStep::Fail));
    assert!(matches!(next_step(&QueryOutcome::TimedOut), NextStep::Fail));
    assert!(matches!(next_step(&QueryOutcome::Answered), NextStep::ReturnAnswers));
}

#[test]
fn count_is_one_plus_renewals() {
    let mut s = ClientStats::new_at(10);
    for t in [20u64, 30, 45] {
        s.record_creation_at(t);
    }
    assert_eq!((s.creation_count, s.last_creation), (4, 45));
}

#[test]
fn client_creations_are_counted() {
    let mut s = ClientStats::new_at(100);
    assert_eq!((s.creation_count, s.last_creation), (1, 100));
    s.record_creation_at(250);
    assert_eq!((s.creation_count, s.last_creation), (2, 250));
    s.creation_count = u64::MAX;
    s.record_creation_at(300);
    assert_eq!(s.creation_count, 0);
    let mut n = ClientStats::new();
    n.record_creation();
    assert_eq!(n.creation_count, 2);
    assert!(n.last_creation > 1_600_000_000);
}
