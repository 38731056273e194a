use kart_stocks::data::{
    get_item_value, get_items, race_start_message, sell_all_message, string_to_number,
    valid_item, State, LAST_PLACE,
};

#[test]
fn string_to_number_reads_digits_only() {
    assert_eq!(string_to_number("12"), Some(12));
    assert_eq!(string_to_number("x1y2z"), Some(12));
    assert_eq!(string_to_number("007"), Some(7));
    assert_eq!(string_to_number("3rd"), Some(3));
}

#[test]
fn string_to_number_without_digits_is_none() {
    assert_eq!(string_to_number(""), None);
    assert_eq!(string_to_number("none"), None);
    assert_eq!(string_to_number("FAILURE"), None);
    assert_eq!(string_to_number("-"), None);
}

#[test]
fn string_to_number_bounds() {
    assert_eq!(string_to_number("4294967295"), Some(u32::MAX));
    assert_eq!(string_to_number("4294967296"), None);
    assert_eq!(string_to_number("99999999999999999999999"), None);
    assert_eq!(string_to_number("-5"), Some(5));
    assert_eq!(string_to_number("١٢"), None);
}

#[test]
fn string_to_number_reads_back_formatted_numbers() {
    for n in [0u32, 1, 9, 10, 24, 1000, 65535, u32::MAX] {
        assert_eq!(string_to_number(&n.to_string()), Some(n));
    }
}

#[test]
fn item_table_values() {
    assert_eq!(get_item_value("none"), Some(0));
    assert_eq!(get_item_value("blooper"), Some(1));
    assert_eq!(get_item_value("coin"), Some(5));
    assert_eq!(get_item_value("triple-mushroom"), Some(70));
    assert_eq!(get_item_value("bullet-bill"), Some(100));
    assert_eq!(get_item_value("Bullet-Bill"), None);
    assert_eq!(get_item_value(""), None);
}

#[test]
fn valid_items_are_exactly_the_listed_ones() {
    let items = get_items();
    assert_eq!(items.len(), 33);
    for item in &items {
        assert!(valid_item(item));
        let v = get_item_value(item).unwrap();
        assert!((0..=100).contains(&v));
    }
    let mut sorted = items.clone();
    sorted.sort();
    sorted.dedup();
    assert_eq!(sorted.len(), 33);
    assert!(!valid_item("FAILURE"));
    assert!(!valid_item("coin "));
    assert!(valid_item("star"));
}

#[test]
fn new_state() {
    let s = State::new(50);
    assert!(s.running);
    assert!(!s.racing);
    assert_eq!(s.place, LAST_PLACE);
    assert_eq!(s.first_item, "none");
    assert_eq!(s.second_item, "none");
    assert_eq!(s.coin_count, 0);
    assert_eq!(s.value, 0);
    assert_eq!(s.initial_price, 50);
    assert!(s.recent_buys.is_empty() && s.recent_sells.is_empty());
}

#[test]
fn update_value_uses_initial_price_outside_races() {
    let mut s = State::new(50);
    s.update_value(77);
    assert_eq!(s.value, 50);
    assert!(s.toggle_racing());
    s.update_value(77);
    assert_eq!(s.value, 77);
    assert!(!s.toggle_racing());
    s.update_value(12);
    assert_eq!(s.value, 50);
}

#[test]
fn apply_reading_keeps_only_plausible_readings() {
    let mut s = State::new(50);
    s.apply_reading(Some(3), "banana", "FAILURE", Some(21));
    assert_eq!(s.place, 3);
    assert_eq!(s.first_item, "banana");
    assert_eq!(s.second_item, "none");
    assert_eq!(s.coin_count, 0);
    s.apply_reading(None, "not-an-item", "star", Some(20));
    assert_eq!(s.place, 3);
    assert_eq!(s.first_item, "banana");
    assert_eq!(s.second_item, "star");
    assert_eq!(s.coin_count, 20);
    s.apply_reading(Some(12), "none", "none", None);
    assert_eq!(s.place, 12);
    assert_eq!(s.first_item, "none");
    assert_eq!(s.coin_count, 20);
}

#[test]
fn race_inputs_are_whole_number_readings() {
    let mut s = State::new(50);
    s.apply_reading(Some(1), "star", "coin", Some(7));
    let r = s.race_inputs(42);
    assert_eq!(r.places_ahead, 23);
    assert_eq!(r.first_item_value, 95);
    assert_eq!(r.second_item_value, 5);
    assert_eq!(r.coin_count, 7);
    assert_eq!(r.race_secs, 42);
    assert_eq!(s.places_ahead(), 23);
    s.apply_reading(Some(24), "none", "none", None);
    assert_eq!(s.places_ahead(), 0);
}

#[test]
fn describe_state() {
    let mut s = State::new(50);
    assert_eq!(s.describe(), "<false> [24, 0¢, none, none] -> 0");
    s.toggle_racing();
    s.apply_reading(Some(2), "red-shell", "banana", Some(13));
    s.update_value(-4);
    assert_eq!(s.describe(), "<true> [2, 13¢, red-shell, banana] -> -4");
}

#[test]
fn clear_recent_empties_both_lists() {
    let mut s = State::new(1);
    s.recent_buys.push(3);
    s.recent_sells.push(4);
    s.clear_recent();
    assert!(s.recent_buys.is_empty() && s.recent_sells.is_empty());
    assert_eq!(s.initial_price, 1);
}

#[test]
fn hotkey_messages() {
    assert_eq!(race_start_message(), "Starting race!");
    assert_eq!(sell_all_message(125), "Selling to all investors at $125.");
    assert_eq!(sell_all_message(0), "Selling to all investors at $0.");
}

#[test]
fn state_well_formedness_check_and_slots() {
    let mut s = State::new(5);
    assert!(s.is_wf());
    s.first_item = "bogus".to_string();
    assert!(!s.is_wf());
    s.apply_reading(None, "coin", "star", None);
    assert!(s.is_wf());
    assert_eq!(kart_stocks::data::PLACEMENT_SLOT, 0);
    assert_eq!(kart_stocks::data::ITEMS_SLOT, 1);
}

#[test]
fn reading_loop_cycle_decisions() {
    let mut s = State::new(30);
    assert!(!s.wants_frame());
    s.recent_buys.push(1);
    assert!(s.finish_cycle(99));
    assert_eq!(s.value, 30);
    assert!(s.recent_buys.is_empty());
    s.toggle_racing();
    assert!(s.wants_frame());
    assert!(s.finish_cycle(99));
    assert_eq!(s.value, 99);
    s.running = false;
    assert!(!s.finish_cycle(5));
    assert_eq!(s.value, 5);
}
