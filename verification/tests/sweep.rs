use encoder_bus::registry::{discover, ReadOutcome};
use encoder_bus::table::{refreshed_record, StateTable, SubReads};
use encoder_bus::telemetry::TelemetryRecord;

fn registry_2_5() -> encoder_bus::registry::DeviceRegistry {
    let outcomes: Vec<ReadOutcome> = (1u8..=10)
        .map(|addr| {
            if addr == 2 || addr == 5 {
                ReadOutcome::Data(vec![addr, 0x03, 0x02, 0x00, 0x00, 0x00, 0x00])
            } else {
                ReadOutcome::Silent
            }
        })
        .collect();
    discover(&outcomes).unwrap()
}

fn full_sub_reads(angle: u16, turn: u8, speed: u32) -> SubReads {
    SubReads {
        speed: ReadOutcome::Data(vec![
            0x00,
            0x03,
            0x04,
            (speed >> 24) as u8,
            (speed >> 16) as u8,
            (speed >> 8) as u8,
            speed as u8,
        ]),
        turn_count: ReadOutcome::Data(vec![0x00, 0x03, 0x02, 0x00, turn]),
        angle: ReadOutcome::Data(vec![0x00, 0x03, 0x02, (angle >> 8) as u8, angle as u8]),
    }
}

#[test]
fn fresh_table_has_one_zeroed_row_per_device() {
    let registry = registry_2_5();
    let table = StateTable::new(&registry);
    assert_eq!(table.len(), 2);
    assert_eq!(
        table.record_at(0),
        TelemetryRecord { address: 2, angle_raw: 0, turn_count: 0, speed_raw: 0 }
    );
    assert_eq!(
        table.record_at(1),
        TelemetryRecord { address: 5, angle_raw: 0, turn_count: 0, speed_raw: 0 }
    );
}

#[test]
fn successful_sweep_replaces_every_field_of_every_row() {
    let registry = registry_2_5();
    let mut table = StateTable::new(&registry);
    let sweep = vec![full_sub_reads(300, 0xFF, 0xFFFFFF9C), full_sub_reads(4095, 2, 12345)];
    table.apply_sweep(&sweep);
    assert_eq!(
        table.record_at(0),
        TelemetryRecord { address: 2, angle_raw: 300, turn_count: -1, speed_raw: -100 }
    );
    assert_eq!(
        table.record_at(1),
        TelemetryRecord { address: 5, angle_raw: 4095, turn_count: 2, speed_raw: 12345 }
    );
}

#[test]
fn failed_sub_read_keeps_last_known_field_value() {
    let registry = registry_2_5();
    let mut table = StateTable::new(&registry);
    table.apply_sweep(&vec![full_sub_reads(300, 1, 500), full_sub_reads(600, 2, 700)]);

    // In the next sweep the first device's speed read fails and its angle
    // read stays silent: those fields keep their last known values while
    // the turn count still updates.
    let partial = SubReads {
        speed: ReadOutcome::Failed,
        turn_count: ReadOutcome::Data(vec![0x00, 0x03, 0x02, 0x00, 0x05]),
        angle: ReadOutcome::Silent,
    };
    table.apply_sweep(&vec![partial, full_sub_reads(900, 3, 800)]);
    assert_eq!(
        table.record_at(0),
        TelemetryRecord { address: 2, angle_raw: 300, turn_count: 5, speed_raw: 500 }
    );
    assert_eq!(
        table.record_at(1),
        TelemetryRecord { address: 5, angle_raw: 900, turn_count: 3, speed_raw: 800 }
    );
}

#[test]
fn too_short_response_window_is_ignored() {
    let prev = TelemetryRecord { address: 2, angle_raw: 11, turn_count: 1, speed_raw: 22 };
    let subs = SubReads {
        speed: ReadOutcome::Data(vec![0x00, 0x03]),
        turn_count: ReadOutcome::Data(vec![]),
        angle: ReadOutcome::Data(vec![0x00, 0x03, 0x02, 0x01]),
    };
    assert_eq!(refreshed_record(&prev, &subs), prev);
}

#[test]
fn sub_reads_of_one_device_touch_only_its_row() {
    let registry = registry_2_5();
    let mut table = StateTable::new(&registry);
    table.record_sweep_result(1, &full_sub_reads(1234, 7, 99));
    assert_eq!(
        table.record_at(0),
        TelemetryRecord { address: 2, angle_raw: 0, turn_count: 0, speed_raw: 0 }
    );
    assert_eq!(
        table.record_at(1),
        TelemetryRecord { address: 5, angle_raw: 1234, turn_count: 7, speed_raw: 99 }
    );
}

#[test]
fn published_payload_is_the_selected_row_as_one_unit() {
    let registry = registry_2_5();
    let mut table = StateTable::new(&registry);
    table.apply_sweep(&vec![full_sub_reads(300, 0xFD, 0xFFFFCFC7), full_sub_reads(1, 1, 1)]);
    let payload = table.publish_payload(0);
    assert_eq!(payload, vec![0x02, 0x01, 0x2C, 0xFD, 0xFF, 0xFF, 0xCF, 0xC7]);
}
