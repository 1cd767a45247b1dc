use lumol_neighbors::CountDown;

#[test]
fn countdown() {
    let mut countdown = CountDown::new(5, 2, None);

    let expected = [
        // Return false 5 times
        false, false, false, false, false,
        // Return true every second time due
        true, false, true, false, true, false, true, false,
    ];

    for needs_update in &expected {
        assert_eq!(countdown.needs_update_check(), *needs_update)
    }

    assert_eq!(countdown.needs_sanity_check(), false);

    for needs_update in &expected {
        assert_eq!(countdown.needs_update_check(), *needs_update)
    }
}

#[test]
fn countdown_statistics_accounting() {
    let mut countdown = CountDown::new(0, 3, Some(2));
    let mut checks: u64 = 0;
    for _ in 0..10 {
        if countdown.needs_update_check() {
            checks += 1;
        }
    }
    // checks at steps 1, 4, 7 and 10
    assert_eq!(checks, 4);
    assert_eq!(countdown.needs_sanity_check(), false);
    assert_eq!(countdown.needs_sanity_check(), true);
    assert_eq!(countdown.needs_sanity_check(), false);
    let s = *countdown.statistics();
    assert_eq!(s.steps, 10);
    assert_eq!(s.update_checks, 4);
    assert_eq!(s.updates, 3);
    assert_eq!(s.sanity_checks, 1);
    assert!(s.update_checks <= s.steps);
    assert!(s.sanity_checks <= s.updates);
}

#[test]
fn countdown_restarts_after_update() {
    let mut countdown = CountDown::new(1, 1, None);
    assert!(!countdown.needs_update_check());
    assert!(countdown.needs_update_check());
    assert!(countdown.needs_update_check());
    assert!(countdown.next_step_checks());
    assert!(!countdown.needs_sanity_check());
    assert!(!countdown.next_step_checks());
    assert!(!countdown.needs_update_check());
    assert!(countdown.needs_update_check());
    assert!(countdown.has_room());
}
