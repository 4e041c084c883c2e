//! Integration tests

use skedge::{every, every_single, TimeUnit};

#[test]
fn integration_test() {
    assert_eq!(every(1).seconds().unwrap().unit(), Some(TimeUnit::Second));
    assert!(every(1) == every_single());
}
