use dialogue_view::log_view::{
    scroll_by, scroll_to_newest, write_line, ScrollEvent, ScrollUnit, UiDialogueList,
};

#[test]
fn speaker_line_renders_uppercased_with_separator() {
    let mut list = UiDialogueList::new();
    write_line(&mut list, Some("Kim"), "Hello.");
    assert_eq!(list.entries.len(), 1);
    assert_eq!(list.entries[0], "KIM - Hello.");
}

#[test]
fn line_without_speaker_renders_bare() {
    let mut list = UiDialogueList::new();
    write_line(&mut list, None, "Hello.");
    assert_eq!(list.entries.len(), 1);
    assert_eq!(list.entries[0], "Hello.");
}

#[test]
fn entries_accumulate_in_order() {
    let mut list = UiDialogueList::new();
    write_line(&mut list, Some("Kim"), "Hello.");
    write_line(&mut list, None, "A door.");
    write_line(&mut list, Some("you"), "Open it.");
    assert_eq!(list.entries, vec!["KIM - Hello.", "A door.", "YOU - Open it."]);
}

#[test]
fn line_unit_scrolls_twenty_pixels_per_step() {
    let mut list = UiDialogueList::new();
    scroll_by(
        &mut list,
        ScrollEvent { amount: -3, unit: ScrollUnit::Line },
        300,
        100,
    );
    assert_eq!(list.position, -60);
}

#[test]
fn pixel_unit_scrolls_as_is() {
    let mut list = UiDialogueList::new();
    scroll_by(
        &mut list,
        ScrollEvent { amount: -35, unit: ScrollUnit::Pixel },
        300,
        100,
    );
    assert_eq!(list.position, -35);
}

#[test]
fn scroll_clamps_at_oldest_content() {
    let mut list = UiDialogueList::new();
    scroll_by(
        &mut list,
        ScrollEvent { amount: -1000000, unit: ScrollUnit::Pixel },
        300,
        100,
    );
    assert_eq!(list.position, -200);
}

#[test]
fn scroll_clamps_at_newest_content() {
    let mut list = UiDialogueList::new();
    scroll_to_newest(&mut list, 300, 100);
    scroll_by(
        &mut list,
        ScrollEvent { amount: 1000000, unit: ScrollUnit::Pixel },
        300,
        100,
    );
    assert_eq!(list.position, 0);
}

#[test]
fn content_fitting_viewport_clamps_to_zero() {
    let mut list = UiDialogueList::new();
    scroll_by(
        &mut list,
        ScrollEvent { amount: -50, unit: ScrollUnit::Pixel },
        80,
        300,
    );
    assert_eq!(list.position, 0);
    scroll_to_newest(&mut list, 80, 300);
    assert_eq!(list.position, 0);
}

#[test]
fn scroll_to_newest_pins_to_bottom() {
    let mut list = UiDialogueList::new();
    scroll_to_newest(&mut list, 500, 200);
    assert_eq!(list.position, -300);
    assert_eq!(list.last_content_height, 500);
}
