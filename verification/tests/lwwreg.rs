use etl_destinations::deltalake::util::lwwreg::{LWWReg, Validation};

#[test]
fn test_default() {
    let reg = LWWReg::default();
    assert_eq!(reg, LWWReg { val: "", marker: 0 });
}

#[test]
fn test_update() {
    let mut reg = LWWReg {
        val: 123,
        marker: 0,
    };

    // normal update: new marker is a descended of current marker
    // EXPECTED: success, the val and marker are update
    reg.update(32, 2);
    assert_eq!(reg, LWWReg { val: 32, marker: 2 });

    // stale update: new marker is an ancester of the current marker
    // EXPECTED: succes, no-op
    reg.update(57, 1);
    assert_eq!(reg, LWWReg { val: 32, marker: 2 });

    // redundant update: new marker and val is same as of the current state
    // EXPECTED: success, no-op
    reg.update(32, 2);
    assert_eq!(reg, LWWReg { val: 32, marker: 2 });

    // bad update: new marker same as of the current marker but not value
    // EXPECTED: error
    assert_eq!(
        reg.validate_update(&4000, &2),
        Err(Validation::ConflictingMarker)
    );

    // Applying the update despite the validation error is a no-op
    reg.update(4000, 2);
    assert_eq!(reg, LWWReg { val: 32, marker: 2 });
}

#[test]
fn valid_updates_pass() {
    let reg = LWWReg::new("a", 1);
    assert_eq!(reg.validate_update(&"a", &1), Ok(()));
    assert_eq!(reg.validate_update(&"b", &2), Ok(()));
    assert!(Validation::ConflictingMarker.description().contains("exactly once"));
}

#[test]
fn updates_commute_under_different_markers() {
    let mut left = LWWReg::new("start", (0, 0));
    let mut right = left.clone();
    left.update("a", (1, 5));
    left.update("b", (1, 6));
    right.update("b", (1, 6));
    right.update("a", (1, 5));
    assert_eq!(left, right);
    assert_eq!(left, LWWReg::new("b", (1, 6)));
    left.update("b", (1, 6));
    assert_eq!(left, right);
}
