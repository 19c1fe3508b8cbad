use encoder_bus::registry::{discover, ReadOutcome};
use encoder_bus::registry::DeviceRegistry;
use encoder_bus::selector::{extract_number, key_event_of, KeyEvent, Selector};

fn registry_2_5_7() -> DeviceRegistry {
    let outcomes: Vec<ReadOutcome> = (1u8..=10)
        .map(|addr| {
            if addr == 2 || addr == 5 || addr == 7 {
                ReadOutcome::Data(vec![addr, 0x03, 0x02, 0x00, 0x00, 0x00, 0x00])
            } else {
                ReadOutcome::Silent
            }
        })
        .collect();
    discover(&outcomes).unwrap()
}

#[test]
fn next_wraps_from_last_position_to_first() {
    let registry = registry_2_5_7();
    let mut sel = Selector::new();
    sel.handle_key(KeyEvent::Next, &registry);
    sel.handle_key(KeyEvent::Next, &registry);
    assert_eq!(sel.display_index, 2);
    sel.handle_key(KeyEvent::Next, &registry);
    assert_eq!(sel.display_index, 0);
}

#[test]
fn previous_wraps_from_first_position_to_last() {
    let registry = registry_2_5_7();
    let mut sel = Selector::new();
    assert_eq!(sel.display_index, 0);
    sel.handle_key(KeyEvent::Previous, &registry);
    assert_eq!(sel.display_index, 2);
    sel.handle_key(KeyEvent::Previous, &registry);
    assert_eq!(sel.display_index, 1);
}

#[test]
fn confirm_jumps_to_typed_address_and_clears_buffer() {
    let registry = registry_2_5_7();
    let mut sel = Selector::new();
    sel.handle_key(KeyEvent::Symbol('5'), &registry);
    sel.handle_key(KeyEvent::Confirm, &registry);
    assert_eq!(sel.display_index, 1);
    assert!(sel.input_buffer.is_empty());
}

#[test]
fn confirm_with_unknown_address_clears_buffer_and_keeps_index() {
    let registry = registry_2_5_7();
    let mut sel = Selector::new();
    sel.handle_key(KeyEvent::Next, &registry);
    sel.handle_key(KeyEvent::Symbol('9'), &registry);
    sel.handle_key(KeyEvent::Symbol('9'), &registry);
    sel.handle_key(KeyEvent::Confirm, &registry);
    assert_eq!(sel.display_index, 1);
    assert!(sel.input_buffer.is_empty());
}

#[test]
fn confirm_with_non_numeric_buffer_clears_buffer_and_keeps_index() {
    let registry = registry_2_5_7();
    let mut sel = Selector::new();
    sel.handle_key(KeyEvent::Symbol('a'), &registry);
    sel.handle_key(KeyEvent::Symbol('b'), &registry);
    sel.handle_key(KeyEvent::Confirm, &registry);
    assert_eq!(sel.display_index, 0);
    assert!(sel.input_buffer.is_empty());
}

#[test]
fn erase_drops_the_last_typed_character() {
    let registry = registry_2_5_7();
    let mut sel = Selector::new();
    sel.handle_key(KeyEvent::Symbol('5'), &registry);
    sel.handle_key(KeyEvent::Symbol('9'), &registry);
    sel.handle_key(KeyEvent::Erase, &registry);
    assert_eq!(sel.input_buffer, "5");
    sel.handle_key(KeyEvent::Confirm, &registry);
    assert_eq!(sel.display_index, 1);
}

#[test]
fn erase_on_empty_buffer_does_nothing() {
    let registry = registry_2_5_7();
    let mut sel = Selector::new();
    sel.handle_key(KeyEvent::Erase, &registry);
    assert!(sel.input_buffer.is_empty());
    assert_eq!(sel.display_index, 0);
}

#[test]
fn typed_characters_accumulate_in_order() {
    let registry = registry_2_5_7();
    let mut sel = Selector::new();
    sel.handle_key(KeyEvent::Symbol('1'), &registry);
    sel.handle_key(KeyEvent::Symbol('0'), &registry);
    assert_eq!(sel.input_buffer, "10");
}

#[test]
fn extract_number_accepts_decimal_addresses() {
    assert_eq!(extract_number("5"), Some(5));
    assert_eq!(extract_number("0"), Some(0));
    assert_eq!(extract_number("255"), Some(255));
    assert_eq!(extract_number("042"), Some(42));
}

#[test]
fn extract_number_rejects_out_of_range_values() {
    assert_eq!(extract_number("256"), None);
    assert_eq!(extract_number("1000"), None);
}

#[test]
fn extract_number_rejects_non_digits_and_empty_input() {
    assert_eq!(extract_number(""), None);
    assert_eq!(extract_number("ab"), None);
    assert_eq!(extract_number("1a"), None);
    assert_eq!(extract_number("+5"), None);
    assert_eq!(extract_number("-5"), None);
    assert_eq!(extract_number(" 5"), None);
}

#[test]
fn key_symbols_map_to_their_events() {
    assert_eq!(key_event_of('\u{2191}'), KeyEvent::Next);
    assert_eq!(key_event_of('\u{2193}'), KeyEvent::Previous);
    assert_eq!(key_event_of('\n'), KeyEvent::Confirm);
    assert_eq!(key_event_of('\u{232B}'), KeyEvent::Erase);
    assert_eq!(key_event_of('7'), KeyEvent::Symbol('7'));
    assert_eq!(key_event_of('q'), KeyEvent::Symbol('q'));
}
