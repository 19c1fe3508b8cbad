use encoder_bus::registry::{discover, DiscoveryError, ReadOutcome};

fn outcomes_with_devices(present: &[u8]) -> Vec<ReadOutcome> {
    // Candidates 1..=10; a present address answers with a response window,
    // every other candidate times out.
    (1u8..=10)
        .map(|addr| {
            if present.contains(&addr) {
                ReadOutcome::Data(vec![addr, 0x03, 0x02, 0x00, 0x00, 0x00, 0x00])
            } else {
                ReadOutcome::Silent
            }
        })
        .collect()
}

#[test]
fn discovery_keeps_responsive_addresses_in_ascending_order() {
    let outcomes = outcomes_with_devices(&[2, 5, 7]);
    let registry = discover(&outcomes).unwrap();
    assert_eq!(registry.len(), 3);
    assert_eq!(registry.address_at(0), 2);
    assert_eq!(registry.address_at(1), 5);
    assert_eq!(registry.address_at(2), 7);
}

#[test]
fn discovery_treats_errors_like_silence() {
    let mut outcomes = outcomes_with_devices(&[2, 5, 7]);
    outcomes[3] = ReadOutcome::Failed;
    outcomes[8] = ReadOutcome::Failed;
    let registry = discover(&outcomes).unwrap();
    assert_eq!(registry.len(), 3);
    assert_eq!(registry.address_at(0), 2);
    assert_eq!(registry.address_at(1), 5);
    assert_eq!(registry.address_at(2), 7);
}

#[test]
fn discovery_with_no_answer_is_a_fatal_error() {
    let outcomes = outcomes_with_devices(&[]);
    assert_eq!(discover(&outcomes).unwrap_err(), DiscoveryError::NoDevices);
}

#[test]
fn discovery_run_twice_yields_identical_registry() {
    let registry1 = discover(&outcomes_with_devices(&[2, 5, 7])).unwrap();
    let registry2 = discover(&outcomes_with_devices(&[2, 5, 7])).unwrap();
    assert_eq!(registry1.len(), registry2.len());
    for i in 0..registry1.len() {
        assert_eq!(registry1.address_at(i), registry2.address_at(i));
    }
}

#[test]
fn position_of_finds_each_registered_address() {
    let registry = discover(&outcomes_with_devices(&[2, 5, 7])).unwrap();
    assert_eq!(registry.position_of(2), Some(0));
    assert_eq!(registry.position_of(5), Some(1));
    assert_eq!(registry.position_of(7), Some(2));
    assert_eq!(registry.position_of(3), None);
    assert_eq!(registry.position_of(99), None);
}

#[test]
fn single_device_registry() {
    let outcomes = outcomes_with_devices(&[10]);
    let registry = discover(&outcomes).unwrap();
    assert_eq!(registry.len(), 1);
    assert_eq!(registry.address_at(0), 10);
}
