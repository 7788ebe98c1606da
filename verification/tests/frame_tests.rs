use dialogue_view::log_view::{ScrollEvent, ScrollUnit};
use dialogue_view::options::{ClickedOption, DialogueOption, SelectorState};
use dialogue_view::view::{runner_should_continue, DialogueEvent, DialogueView, FrameInput};

fn opt(id: u64, text: &str, is_available: bool) -> DialogueOption {
    DialogueOption { id, text: text.to_string(), is_available }
}

fn quiet_input() -> FrameInput {
    FrameInput {
        digit: None,
        clicked: None,
        advance_pressed: false,
        scrolls: Vec::new(),
        content_height: 0,
        viewport_height: 0,
    }
}

fn abc_options() -> Vec<DialogueOption> {
    vec![opt(1, "A", true), opt(2, "B", false), opt(3, "C", true)]
}

fn presenting_view() -> DialogueView {
    let mut view = DialogueView::new();
    let events = vec![
        DialogueEvent::Started,
        DialogueEvent::OptionsReady { options: abc_options() },
    ];
    view.frame(&events, &quiet_input());
    view
}

#[test]
fn started_event_shows_the_panel() {
    let mut view = DialogueView::new();
    assert!(!view.root.visible);
    view.frame(&vec![DialogueEvent::Started], &quiet_input());
    assert!(view.root.visible);
}

#[test]
fn lines_append_in_arrival_order() {
    let mut view = DialogueView::new();
    let events = vec![
        DialogueEvent::LineReady { speaker: Some("Kim".to_string()), text: "Hello.".to_string() },
        DialogueEvent::LineReady { speaker: None, text: "A door.".to_string() },
    ];
    view.frame(&events, &quiet_input());
    assert_eq!(view.list.entries, vec!["KIM - Hello.", "A door."]);
}

#[test]
fn options_ready_presents_filtered_set_next_frame_widgets() {
    let mut view = presenting_view();
    match &view.selector {
        SelectorState::Presenting(sel) => {
            assert_eq!(sel.options.len(), 2);
            assert_eq!(sel.options[0].text, "A");
            assert_eq!(sel.options[1].text, "C");
        },
        SelectorState::Inactive => panic!("expected a presenting selector"),
    }
    assert!(view.widgets.is_empty());
    view.frame(&Vec::new(), &quiet_input());
    assert_eq!(view.widgets.len(), 2);
    assert_eq!(view.widgets[0].label, "1: A");
    assert_eq!(view.widgets[1].label, "2: C");
}

#[test]
fn hotkey_selection_tears_down_within_the_frame() {
    let mut view = presenting_view();
    let mut input = quiet_input();
    input.digit = Some(2);
    let actions = view.frame(&Vec::new(), &input);
    assert_eq!(actions.selected, Some(3));
    assert!(matches!(view.selector, SelectorState::Inactive));
    assert!(view.widgets.is_empty());
}

#[test]
fn hotkey_selection_leaves_no_echo() {
    let mut view = presenting_view();
    let before = view.list.entries.len();
    let mut input = quiet_input();
    input.digit = Some(1);
    view.frame(&Vec::new(), &input);
    assert_eq!(view.list.entries.len(), before);
}

#[test]
fn click_selection_echoes_a_you_line() {
    let mut view = presenting_view();
    let mut input = quiet_input();
    input.clicked = Some(ClickedOption { id: 3, text: "C".to_string() });
    let actions = view.frame(&Vec::new(), &input);
    assert_eq!(actions.selected, Some(3));
    assert_eq!(view.list.entries.last().unwrap(), "YOU - C");
    assert!(matches!(view.selector, SelectorState::Inactive));
}

#[test]
fn completion_tears_down_without_selection_or_echo() {
    let mut view = presenting_view();
    let before = view.list.entries.clone();
    let actions = view.frame(&vec![DialogueEvent::Completed], &quiet_input());
    assert_eq!(actions.selected, None);
    assert!(matches!(view.selector, SelectorState::Inactive));
    assert!(view.widgets.is_empty());
    assert_eq!(view.list.entries, before);
}

#[test]
fn continuation_is_ignored_while_presenting() {
    let mut view = presenting_view();
    let mut input = quiet_input();
    input.advance_pressed = true;
    let actions = view.frame(&Vec::new(), &input);
    assert!(!actions.advance_requested);
}

#[test]
fn continuation_is_honored_once_presenting_ends() {
    let mut view = presenting_view();
    let mut input = quiet_input();
    input.digit = Some(1);
    view.frame(&Vec::new(), &input);
    let mut input = quiet_input();
    input.advance_pressed = true;
    let actions = view.frame(&Vec::new(), &input);
    assert!(actions.advance_requested);
    assert!(runner_should_continue(actions.advance_requested, true, false));
    assert!(!runner_should_continue(actions.advance_requested, false, false));
    assert!(!runner_should_continue(actions.advance_requested, true, true));
}

#[test]
fn grown_content_pins_view_to_newest() {
    let mut view = DialogueView::new();
    let mut input = quiet_input();
    input.content_height = 500;
    input.viewport_height = 200;
    view.frame(&Vec::new(), &input);
    assert_eq!(view.list.position, -300);
    assert_eq!(view.list.last_content_height, 500);
}

#[test]
fn manual_scroll_applies_when_height_is_unchanged() {
    let mut view = DialogueView::new();
    let mut input = quiet_input();
    input.content_height = 100;
    input.viewport_height = 40;
    view.frame(&Vec::new(), &input);
    assert_eq!(view.list.position, -60);
    let mut input = quiet_input();
    input.content_height = 100;
    input.viewport_height = 40;
    input.scrolls = vec![ScrollEvent { amount: 30, unit: ScrollUnit::Pixel }];
    view.frame(&Vec::new(), &input);
    assert_eq!(view.list.position, -30);
    let mut input = quiet_input();
    input.content_height = 100;
    input.viewport_height = 40;
    input.scrolls = vec![ScrollEvent { amount: -1000, unit: ScrollUnit::Pixel }];
    view.frame(&Vec::new(), &input);
    assert_eq!(view.list.position, -60);
}

#[test]
fn empty_choice_set_presents_and_selects_nothing() {
    let mut view = DialogueView::new();
    let events = vec![DialogueEvent::OptionsReady {
        options: vec![opt(1, "A", false), opt(2, "B", false)],
    }];
    view.frame(&events, &quiet_input());
    let mut input = quiet_input();
    input.digit = Some(1);
    let actions = view.frame(&Vec::new(), &input);
    assert_eq!(actions.selected, None);
    assert!(matches!(view.selector, SelectorState::Presenting(_)));
    assert!(view.widgets.is_empty());
}
