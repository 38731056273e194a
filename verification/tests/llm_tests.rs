use kart_stocks::data::get_items;
use kart_stocks::extract::{coin_count_from_text, item_from_response, placement_from_response};
use kart_stocks::llm::{
    clean_response, identify_outcome, item_prompt, placement_prompt, training_label,
};

#[test]
fn placement_prompt_text() {
    assert_eq!(
        placement_prompt(),
        "What placement number is this? Reply only with the placement number itself. If there appears to be no number, reply \"none\""
    );
}

#[test]
fn item_prompt_lists_every_item() {
    let expected = format!(
        "These are the items in Mario Kart World: {}. Which item is this image depicting? If it does not appear to be an item - mainly a black space - then reply: none. Reply only with the item name itself.",
        get_items().join(", "),
    );
    assert_eq!(item_prompt(), expected);
    assert!(item_prompt().contains("none, blooper, blue-shell"));
}

#[test]
fn clean_response_examples() {
    assert_eq!(clean_response("  Triple Red_Shell.\n"), "Triple-Red-Shell");
    assert_eq!(clean_response("</think>\n\ngreen shell"), "<think>green-shell");
    assert_eq!(clean_response("a</think>b"), "a<think>b");
    assert_eq!(clean_response("1st, place/"), "1st-place");
    assert_eq!(clean_response(""), "");
}

#[test]
fn clean_response_matches_std_chain() {
    for r in ["a b_c/d</think>e.f,g", " x \n y ", "mushroom", "</think>"] {
        let expected = r
            .trim()
            .replace("\n", "")
            .replace(" ", "-")
            .replace("_", "-")
            .replace("/", "")
            .replace("</think>", "")
            .replace(".", "")
            .replace(",", "");
        assert_eq!(clean_response(r), expected);
    }
}

#[test]
fn identify_outcomes() {
    assert_eq!(identify_outcome(Some(" banana ")), "banana");
    assert_eq!(identify_outcome(None), "FAILURE");
}

#[test]
fn training_labels() {
    assert_eq!(training_label("banana.png"), "banana");
    assert_eq!(training_label("12.v2.png"), "12");
    assert_eq!(training_label("noext"), "noext");
    assert_eq!(training_label(".hidden"), "");
}

#[test]
fn extraction_results() {
    assert_eq!(placement_from_response(Some("12th.")), Some(12));
    assert_eq!(placement_from_response(Some("none")), None);
    assert_eq!(placement_from_response(None), None);
    assert_eq!(item_from_response(Some("Blue Shell")), "Blue-Shell");
    assert_eq!(item_from_response(None), "FAILURE");
    assert_eq!(coin_count_from_text(Some("x 17")), Some(17));
    assert_eq!(coin_count_from_text(Some("")), None);
    assert_eq!(coin_count_from_text(None), None);
}

#[test]
fn cleaned_replies_hold_no_separators() {
    for r in ["  a b_c/d.e,f\n", "x \n\n y", "__..,,//", "ok"] {
        let c = clean_response(r);
        for bad in ['\n', ' ', '_', '/', '.', ','] {
            assert!(!c.contains(bad), "{:?} in {:?}", bad, c);
        }
    }
}

#[test]
fn item_names_survive_cleaning() {
    for k in get_items() {
        assert_eq!(clean_response(&k), k);
        assert_eq!(clean_response(&k.replace('-', " ")), k);
        assert_eq!(clean_response(&format!(" {}.\n", k)), k);
    }
}
