use dialogue_view::options::{
    create_widgets, resolve_input, ClickedOption, DialogueOption, OptionSelection, SelectorState,
};

fn opt(id: u64, text: &str, is_available: bool) -> DialogueOption {
    DialogueOption { id, text: text.to_string(), is_available }
}

#[test]
fn from_option_set_keeps_available_in_order() {
    let options = vec![opt(1, "A", true), opt(2, "B", false), opt(3, "C", true)];
    let sel = OptionSelection::from_option_set(&options);
    assert_eq!(sel.options.len(), 2);
    assert_eq!(sel.options[0].text, "A");
    assert_eq!(sel.options[0].id, 1);
    assert_eq!(sel.options[1].text, "C");
    assert_eq!(sel.options[1].id, 3);
}

#[test]
fn from_option_set_may_come_up_empty() {
    let options = vec![opt(1, "A", false), opt(2, "B", false)];
    let sel = OptionSelection::from_option_set(&options);
    assert_eq!(sel.options.len(), 0);
}

#[test]
fn hotkey_is_positional_not_engine_id() {
    let options = vec![opt(1, "A", true), opt(2, "B", false), opt(3, "C", true)];
    let sel = OptionSelection::from_option_set(&options);
    let (chosen, echo) = resolve_input(&sel, Some(2), &None);
    assert_eq!(chosen, Some(3));
    assert_eq!(echo, None);
}

#[test]
fn hotkey_past_the_set_picks_nothing() {
    let options = vec![opt(1, "A", true), opt(3, "C", true)];
    let sel = OptionSelection::from_option_set(&options);
    let (chosen, echo) = resolve_input(&sel, Some(5), &None);
    assert_eq!(chosen, None);
    assert_eq!(echo, None);
}

#[test]
fn click_commits_and_echoes_the_widget_text() {
    let options = vec![opt(1, "A", true), opt(3, "C", true)];
    let sel = OptionSelection::from_option_set(&options);
    let clicked = Some(ClickedOption { id: 3, text: "C".to_string() });
    let (chosen, echo) = resolve_input(&sel, None, &clicked);
    assert_eq!(chosen, Some(3));
    assert_eq!(echo, Some("C".to_string()));
}

#[test]
fn hotkey_beats_simultaneous_click() {
    let options = vec![opt(1, "A", true), opt(3, "C", true)];
    let sel = OptionSelection::from_option_set(&options);
    let clicked = Some(ClickedOption { id: 3, text: "C".to_string() });
    let (chosen, echo) = resolve_input(&sel, Some(1), &clicked);
    assert_eq!(chosen, Some(1));
    assert_eq!(echo, None);
}

#[test]
fn widgets_carry_position_labels_ids_and_texts() {
    let options = vec![opt(7, "Leave", true), opt(9, "Stay", true)];
    let sel = OptionSelection::from_option_set(&options);
    let widgets = create_widgets(&sel);
    assert_eq!(widgets.len(), 2);
    assert_eq!(widgets[0].label, "1: Leave");
    assert_eq!(widgets[0].id, 7);
    assert_eq!(widgets[0].text, "Leave");
    assert_eq!(widgets[1].label, "2: Stay");
    assert_eq!(widgets[1].id, 9);
}

#[test]
fn widget_labels_render_two_digit_positions() {
    let mut options = Vec::new();
    for i in 0..12u64 {
        options.push(opt(100 + i, "x", true));
    }
    let sel = OptionSelection::from_option_set(&options);
    let widgets = create_widgets(&sel);
    assert_eq!(widgets[9].label, "10: x");
    assert_eq!(widgets[11].label, "12: x");
}

#[test]
fn selector_state_starts_inactive() {
    let state = SelectorState::Inactive;
    assert!(matches!(state, SelectorState::Inactive));
}
