use vstd::prelude::*;
use crate::line_format::rendered_line;
use crate::log_view::{
    clamp_scroll, log_view, max_scroll, scroll_by, scroll_delta, scroll_to_newest, write_line,
    ScrollEvent, UiDialogueList, UiRootNode,
};
use crate::options::{
    click_view, create_widgets, options_view, resolve_input, resolved_choice, widgets_of,
    widgets_view, ClickedOption, ClickV, DialogueOption, OptionSelection, OptionV, OptionWidget,
    SelectorState, WidgetV,
};

verus! {

/// An engine event delivered to the view, in arrival order within a frame.
pub enum DialogueEvent {
    /// The engine began a dialogue session.
    Started,
    /// A line is ready to present, with its speaker already split off.
    LineReady { speaker: Option<String>, text: String },
    /// The player must choose among these options.
    OptionsReady { options: Vec<DialogueOption> },
    /// The dialogue session finished.
    Completed,
}

/// The mathematical value of a [`DialogueEvent`].
#[verifier::ext_equal]
pub enum EventV {
    Started,
    LineReady { speaker: Option<Seq<char>>, text: Seq<char> },
    OptionsReady { options: Seq<OptionV> },
    Completed,
}

impl View for DialogueEvent {
    type V = EventV;

    open spec fn view(&self) -> EventV {
        match self {
            DialogueEvent::Started => EventV::Started,
            DialogueEvent::LineReady { speaker, text } => EventV::LineReady {
                speaker: match speaker {
                    Option::Some(s) => Option::Some(s@),
                    Option::None => Option::None,
                },
                text: text@,
            },
            DialogueEvent::OptionsReady { options } => EventV::OptionsReady {
                options: options_view(options@),
            },
            DialogueEvent::Completed => EventV::Completed,
        }
    }
}

/// The values of the events of one frame.
pub open spec fn events_view(s: Seq<DialogueEvent>) -> Seq<EventV> {
    s.map_values(|e: DialogueEvent| e@)
}

/// The player input of one frame, as the host's device polling hands it
/// over, together with the sizes layout measured for this frame.
pub struct FrameInput {
    /// The lowest numeric hotkey pressed this frame, 1 through 9, from the
    /// main row or the keypad.
    pub digit: Option<u8>,
    /// The option widget freshly pressed by the pointer this frame, if any.
    pub clicked: Option<ClickedOption>,
    /// A generic advance edge: space, enter, a primary click, or a new touch.
    pub advance_pressed: bool,
    /// The wheel events of the frame, in arrival order.
    pub scrolls: Vec<ScrollEvent>,
    /// The measured height of the log content.
    pub content_height: u32,
    /// The measured height of the clipping viewport.
    pub viewport_height: u32,
}

/// The mathematical value of a [`FrameInput`].
#[verifier::ext_equal]
pub struct InputV {
    pub digit: Option<u8>,
    pub clicked: Option<ClickV>,
    pub advance_pressed: bool,
    pub scrolls: Seq<ScrollEvent>,
    pub content_height: int,
    pub viewport_height: int,
}

impl View for FrameInput {
    type V = InputV;

    open spec fn view(&self) -> InputV {
        InputV {
            digit: self.digit,
            clicked: click_view(self.clicked),
            advance_pressed: self.advance_pressed,
            scrolls: self.scrolls@,
            content_height: self.content_height as int,
            viewport_height: self.viewport_height as int,
        }
    }
}

/// The commands one frame hands back to the engine.
#[derive(Clone, Copy)]
pub struct FrameActions {
    /// The id of the option the player committed this frame, to be
    /// forwarded to every active dialogue runner.
    pub selected: Option<u64>,
    /// Whether a continuation was requested: the host forwards it to each
    /// runner that [`runner_should_continue`] admits.
    pub advance_requested: bool,
}

/// The mathematical state of the dialogue view between frame steps.
#[verifier::ext_equal]
pub struct ViewModel {
    /// Whether the root panel is shown.
    pub visible: bool,
    /// The rendered log entries, oldest first.
    pub log: Seq<Seq<char>>,
    /// The scroll offset of the log content.
    pub position: int,
    /// The content height the scroll logic last saw measured.
    pub last_content_height: int,
    /// The presenting choice set, if a choice is pending.
    pub selector: Option<Seq<OptionV>>,
    /// The rendered choice widgets.
    pub widgets: Seq<WidgetV>,
    /// A selection was committed this frame and awaits teardown.
    pub selected_signal: bool,
    /// The engine's completion was observed and awaits teardown.
    pub complete_signal: bool,
}

impl ViewModel {
    /// What holds of the view at every frame boundary: the scroll offset
    /// lies in the band any measurable height pair allows, and both
    /// teardown signals have been consumed.
    pub open spec fn wf(self) -> bool {
        &&& -(u32::MAX as int) <= self.position <= 0
        &&& !self.selected_signal
        &&& !self.complete_signal
    }
}

/// Whether the engine's completion is among the events of the frame.
pub open spec fn has_completed(es: Seq<EventV>) -> bool {
    exists|i: int| 0 <= i < es.len() && es[i] is Completed
}

/// The queue state the frame starts from: a completion the engine emitted
/// before the view's steps run is visible to teardown as a pending signal.
pub open spec fn absorb_step(v: ViewModel, es: Seq<EventV>) -> ViewModel {
    ViewModel { complete_signal: v.complete_signal || has_completed(es), ..v }
}

/// Widget creation: a presenting choice set that has no widgets yet
/// renders one labelled, clickable entry per option.
pub open spec fn widgets_step(v: ViewModel) -> ViewModel {
    match v.selector {
        Option::Some(opts) => if v.widgets.len() == 0 {
            ViewModel { widgets: widgets_of(opts), ..v }
        } else {
            v
        },
        Option::None => v,
    }
}

/// Input resolution while presenting: at most one option is committed, a
/// pointer commitment echoes the player's choice into the log as a
/// `"YOU"` line, and a commitment raises the selection signal.
pub open spec fn resolve_step(v: ViewModel, digit: Option<u8>, clicked: Option<ClickV>) -> (
    ViewModel,
    Option<u64>,
) {
    match v.selector {
        Option::Some(opts) => {
            let choice = resolved_choice(opts, digit, clicked);
            let echoed = match choice.1 {
                Option::Some(text) => ViewModel {
                    log: v.log.push(rendered_line(Option::Some("YOU"@), text)),
                    ..v
                },
                Option::None => v,
            };
            let signalled = if choice.0 is Some {
                ViewModel { selected_signal: true, ..echoed }
            } else {
                echoed
            };
            (signalled, choice.0)
        },
        Option::None => (v, Option::None),
    }
}

/// Teardown: when a selection was committed or the dialogue completed,
/// both signals are consumed, the choice set is destroyed and every
/// option widget is removed; otherwise nothing happens.
pub open spec fn teardown_step(v: ViewModel) -> ViewModel {
    if v.selected_signal || v.complete_signal {
        ViewModel {
            selector: Option::None,
            widgets: Seq::empty(),
            selected_signal: false,
            complete_signal: false,
            ..v
        }
    } else {
        v
    }
}

/// The effect of one engine event. A completion acts through
/// [`absorb_step`] before the option steps run, so it is inert here.
pub open spec fn event_step(v: ViewModel, e: EventV) -> ViewModel {
    match e {
        EventV::Started => ViewModel { visible: true, ..v },
        EventV::LineReady { speaker, text } => ViewModel {
            log: v.log.push(rendered_line(speaker, text)),
            ..v
        },
        EventV::OptionsReady { options } => ViewModel {
            selector: Option::Some(options.filter(|o: OptionV| o.is_available)),
            ..v
        },
        EventV::Completed => v,
    }
}

/// The events of the frame applied in arrival order, from index `i` on.
pub open spec fn events_step(v: ViewModel, es: Seq<EventV>, i: int) -> ViewModel
    decreases es.len() - i,
{
    if i < 0 || i >= es.len() {
        v
    } else {
        events_step(event_step(v, es[i]), es, i + 1)
    }
}

/// The wheel events of the frame applied in arrival order, from index `i`
/// on, each clamped against the heights measured this frame.
pub open spec fn scrolls_step(pos: int, ss: Seq<ScrollEvent>, i: int, ch: int, vh: int) -> int
    decreases ss.len() - i,
{
    if i < 0 || i >= ss.len() {
        pos
    } else {
        scrolls_step(
            clamp_scroll(pos + scroll_delta(ss[i].amount as int, ss[i].unit), ch, vh),
            ss,
            i + 1,
            ch,
            vh,
        )
    }
}

/// The last step of the frame: when the measured content height differs
/// from the one last seen, the view is pinned to the newest content.
pub open spec fn newest_step(v: ViewModel, ch: int, vh: int) -> ViewModel {
    if ch != v.last_content_height {
        ViewModel { position: -max_scroll(ch, vh), last_content_height: ch, ..v }
    } else {
        v
    }
}

/// One whole frame, in the fixed order of the pipeline: pending
/// completion absorbed, widget creation, input resolution, teardown, the
/// line/start/options events in arrival order, the continuation decision,
/// manual scrolling, and the pin to newest content.
pub open spec fn frame_spec(v: ViewModel, es: Seq<EventV>, inp: InputV) -> (
    ViewModel,
    FrameActions,
) {
    let v0 = absorb_step(v, es);
    let v1 = widgets_step(v0);
    let resolved = resolve_step(v1, inp.digit, inp.clicked);
    let v3 = teardown_step(resolved.0);
    let v4 = events_step(v3, es, 0);
    let advance = inp.advance_pressed && v4.selector is None;
    let v5 = ViewModel {
        position: scrolls_step(v4.position, inp.scrolls, 0, inp.content_height, inp.viewport_height),
        ..v4
    };
    let v6 = newest_step(v5, inp.content_height, inp.viewport_height);
    (v6, FrameActions { selected: resolved.1, advance_requested: advance })
}

/// The dialogue view itself: the root panel, the scrolling log, the
/// option selector with its widgets, and the two frame-scoped teardown
/// signals, stepped once per host frame by [`DialogueView::frame`].
pub struct DialogueView {
    pub root: UiRootNode,
    pub list: UiDialogueList,
    pub selector: SelectorState,
    pub widgets: Vec<OptionWidget>,
    pub selected_signal: bool,
    pub complete_signal: bool,
}

impl View for DialogueView {
    type V = ViewModel;

    open spec fn view(&self) -> ViewModel {
        ViewModel {
            visible: self.root.visible,
            log: log_view(self.list.entries@),
            position: self.list.position as int,
            last_content_height: self.list.last_content_height as int,
            selector: self.selector@,
            widgets: widgets_view(self.widgets@),
            selected_signal: self.selected_signal,
            complete_signal: self.complete_signal,
        }
    }
}

impl DialogueView {
    /// A fresh view: hidden panel, empty log, no pending choice.
    pub fn new() -> (r: Self)
        ensures
            r@ == (ViewModel {
                visible: false,
                log: Seq::empty(),
                position: 0,
                last_content_height: 0,
                selector: Option::None,
                widgets: Seq::empty(),
                selected_signal: false,
                complete_signal: false,
            }),
            r@.wf(),
    {
        let r = DialogueView {
            root: UiRootNode { visible: false },
            list: UiDialogueList::new(),
            selector: SelectorState::Inactive,
            widgets: Vec::new(),
            selected_signal: false,
            complete_signal: false,
        };
        proof {
            assert(r@ =~~= (ViewModel {
                visible: false,
                log: Seq::empty(),
                position: 0,
                last_content_height: 0,
                selector: Option::None,
                widgets: Seq::empty(),
                selected_signal: false,
                complete_signal: false,
            }));
        }
        r
    }
}

impl DialogueView {
    /// Absorbs a pending completion: scans the frame's events for the
    /// engine's completion and raises the completion signal when one is
    /// found, leaving everything else untouched.
    pub fn note_completion(&mut self, events: &Vec<DialogueEvent>)
        ensures
            final(self)@ == absorb_step(old(self)@, events_view(events@)),
    {
        let ghost es = events_view(events@);
        let mut i: usize = 0;
        while i < events.len()
            invariant
                i <= events@.len(),
                es == events_view(events@),
                self.complete_signal == (old(self).complete_signal || has_completed(
                    es.take(i as int),
                )),
                self@ == (ViewModel { complete_signal: self.complete_signal, ..old(self)@ }),
            decreases events@.len() - i,
        {
            let is_completed = match &events[i] {
                DialogueEvent::Completed => true,
                _ => false,
            };
            proof {
                assert(es[i as int] == events@[i as int]@);
                let t0 = es.take(i as int);
                let t1 = es.take(i as int + 1);
                assert(t1[i as int] == es[i as int]);
                if is_completed {
                    assert(has_completed(t1));
                } else {
                    assert(!(es[i as int] is Completed));
                    assert(has_completed(t1) == has_completed(t0)) by {
                        if has_completed(t1) {
                            let j = choose|j: int|
                                0 <= j < t1.len() && t1[j] is Completed;
                            assert(t0[j] == t1[j]);
                            assert(has_completed(t0));
                        }
                        if has_completed(t0) {
                            let j = choose|j: int|
                                0 <= j < t0.len() && t0[j] is Completed;
                            assert(t1[j] == t0[j]);
                            assert(has_completed(t1));
                        }
                    }
                }
            }
            if is_completed {
                self.complete_signal = true;
            }
            i += 1;
        }
        proof {
            assert(es.take(es.len() as int) =~= es);
            assert(self@ =~~= absorb_step(old(self)@, es));
        }
    }

    /// Renders the widgets of a choice set that just began presenting:
    /// the presenting set that has no widgets yet gets one labelled,
    /// clickable entry per option; otherwise nothing happens.
    pub fn create_widgets(&mut self)
        ensures
            final(self)@ == widgets_step(old(self)@),
    {
        let rendered = match &self.selector {
            SelectorState::Presenting(sel) => if self.widgets.len() == 0 {
                Some(create_widgets(sel))
            } else {
                None
            },
            SelectorState::Inactive => None,
        };
        if let Some(w) = rendered {
            self.widgets = w;
        }
        proof {
            assert(self@ =~~= widgets_step(old(self)@));
        }
    }

    /// Resolves the frame's input against the presenting choice set, if
    /// any: a hotkey beats a click, a pointer commitment echoes the
    /// player's choice into the log as a `"YOU"` line, and any commitment
    /// raises the selection signal. Returns the chosen id for the host to
    /// forward to every active dialogue runner.
    pub fn resolve_and_commit(&mut self, digit: Option<u8>, clicked: &Option<ClickedOption>) -> (r:
        Option<u64>)
        ensures
            final(self)@ == resolve_step(old(self)@, digit, click_view(*clicked)).0,
            r == resolve_step(old(self)@, digit, click_view(*clicked)).1,
    {
        let mut chosen: Option<u64> = None;
        let mut echo: Option<String> = None;
        let presenting = match &self.selector {
            SelectorState::Presenting(sel) => {
                let rr = resolve_input(sel, digit, clicked);
                chosen = rr.0;
                echo = rr.1;
                true
            },
            SelectorState::Inactive => false,
        };
        if presenting {
            if let Some(text) = &echo {
                write_line(&mut self.list, Some("YOU"), text.as_str());
            }
            if chosen.is_some() {
                self.selected_signal = true;
            }
        }
        proof {
            assert(self@ =~~= resolve_step(old(self)@, digit, click_view(*clicked)).0);
        }
        chosen
    }

    /// Tears the option UI down when a selection was committed or the
    /// dialogue completed: consumes both signals, destroys the choice set
    /// and removes every widget; a no-op when neither signal is raised.
    pub fn teardown(&mut self)
        ensures
            final(self)@ == teardown_step(old(self)@),
    {
        if self.selected_signal || self.complete_signal {
            self.selected_signal = false;
            self.complete_signal = false;
            self.selector = SelectorState::Inactive;
            self.widgets = Vec::new();
        }
        proof {
            assert(self@ =~~= teardown_step(old(self)@));
        }
    }

    /// Applies one engine event: shows the panel on a session start,
    /// appends a ready line to the log, or captures an offered choice set.
    pub fn handle_event(&mut self, event: &DialogueEvent)
        ensures
            final(self)@ == event_step(old(self)@, event@),
    {
        match event {
            DialogueEvent::Started => {
                self.root.visible = true;
            },
            DialogueEvent::LineReady { speaker, text } => {
                let name: Option<&str> = match speaker {
                    Some(s) => Some(s.as_str()),
                    None => None,
                };
                write_line(&mut self.list, name, text.as_str());
            },
            DialogueEvent::OptionsReady { options } => {
                self.selector = SelectorState::Presenting(
                    OptionSelection::from_option_set(options),
                );
            },
            DialogueEvent::Completed => {},
        }
        proof {
            assert(self@ =~~= event_step(old(self)@, event@));
        }
    }

    /// Applies the frame's wheel events in arrival order, each clamped
    /// against the heights measured this frame.
    pub fn apply_scrolls(&mut self, scrolls: &Vec<ScrollEvent>, content_height: u32, viewport_height: u32)
        requires
            old(self).list.wf(),
        ensures
            final(self)@ == (ViewModel {
                position: scrolls_step(
                    old(self)@.position,
                    scrolls@,
                    0,
                    content_height as int,
                    viewport_height as int,
                ),
                ..old(self)@
            }),
            final(self).list.wf(),
    {
        let ghost ch = content_height as int;
        let ghost vh = viewport_height as int;
        let mut i: usize = 0;
        while i < scrolls.len()
            invariant
                i <= scrolls@.len(),
                ch == content_height as int,
                vh == viewport_height as int,
                self.list.wf(),
                scrolls_step(self@.position, scrolls@, i as int, ch, vh) == scrolls_step(
                    old(self)@.position,
                    scrolls@,
                    0,
                    ch,
                    vh,
                ),
                self@ == (ViewModel { position: self@.position, ..old(self)@ }),
            decreases scrolls@.len() - i,
        {
            let ghost prev = self@.position;
            let ev = scrolls[i];
            proof {
                assert(ev == scrolls@[i as int]);
            }
            scroll_by(&mut self.list, ev, content_height, viewport_height);
            proof {
                assert(self.list.position as int == clamp_scroll(
                    prev + scroll_delta(ev.amount as int, ev.unit),
                    ch,
                    vh,
                ));
                assert(self@.position == clamp_scroll(
                    prev + scroll_delta(scrolls@[i as int].amount as int, scrolls@[i as int].unit),
                    ch,
                    vh,
                ));
                assert(scrolls_step(prev, scrolls@, i as int, ch, vh) == scrolls_step(
                    self@.position,
                    scrolls@,
                    i as int + 1,
                    ch,
                    vh,
                ));
            }
            i += 1;
        }
        proof {
            assert(self@ =~~= (ViewModel {
                position: scrolls_step(old(self)@.position, scrolls@, 0, ch, vh),
                ..old(self)@
            }));
        }
    }

    /// Pins the view to the newest content when the measured content
    /// height changed since it was last seen — as it does after any
    /// append — and records the new height as seen.
    pub fn pin_to_newest(&mut self, content_height: u32, viewport_height: u32)
        requires
            old(self).list.wf(),
        ensures
            final(self)@ == newest_step(
                old(self)@,
                content_height as int,
                viewport_height as int,
            ),
            final(self).list.wf(),
    {
        if content_height != self.list.last_content_height {
            scroll_to_newest(&mut self.list, content_height, viewport_height);
        }
        proof {
            assert(self@ =~~= newest_step(
                old(self)@,
                content_height as int,
                viewport_height as int,
            ));
        }
    }

    /// Runs one whole frame over the engine events and the player input
    /// of the frame, in the pipeline's fixed order, and returns the
    /// commands to hand back to the engine.
    pub fn frame(&mut self, events: &Vec<DialogueEvent>, input: &FrameInput) -> (r: FrameActions)
        requires
            old(self)@.wf(),
        ensures
            final(self)@ == frame_spec(old(self)@, events_view(events@), input@).0,
            r == frame_spec(old(self)@, events_view(events@), input@).1,
            final(self)@.wf(),
    {
        let ghost es = events_view(events@);
        self.note_completion(events);
        self.create_widgets();
        let selected = self.resolve_and_commit(input.digit, &input.clicked);
        self.teardown();
        let ghost v3 = self@;
        let mut i: usize = 0;
        while i < events.len()
            invariant
                i <= events@.len(),
                es == events_view(events@),
                events_step(v3, es, 0) == events_step(self@, es, i as int),
            decreases events@.len() - i,
        {
            proof {
                assert(es[i as int] == events@[i as int]@);
            }
            self.handle_event(&events[i]);
            i += 1;
        }
        let advance = input.advance_pressed && (match &self.selector {
            SelectorState::Inactive => true,
            SelectorState::Presenting(_) => false,
        });
        proof {
            lemma_events_fixed(v3, es, 0);
            assert(self@.position == old(self)@.position);
            assert(self.list.wf());
        }
        self.apply_scrolls(&input.scrolls, input.content_height, input.viewport_height);
        self.pin_to_newest(input.content_height, input.viewport_height);
        let r = FrameActions { selected, advance_requested: advance };
        proof {
            lemma_scrolls_band(
                events_step(v3, es, 0).position,
                input.scrolls@,
                0,
                input.content_height as int,
                input.viewport_height as int,
            );
            assert(self@ =~~= frame_spec(old(self)@, es, input@).0);
        }
        r
    }
}

/// The per-runner continuation gate: a requested advance reaches a
/// dialogue runner exactly when that runner reports it is running and is
/// not awaiting a choice.
pub fn runner_should_continue(advance_requested: bool, is_running: bool, is_waiting_for_choice: bool) -> (r: bool)
    ensures
        r == (advance_requested && is_running && !is_waiting_for_choice),
{
    advance_requested && is_running && !is_waiting_for_choice
}

/// Engine events never touch the scroll state, the widget row or the
/// teardown signals.
pub proof fn lemma_events_fixed(v: ViewModel, es: Seq<EventV>, i: int)
    ensures
        events_step(v, es, i).position == v.position,
        events_step(v, es, i).last_content_height == v.last_content_height,
        events_step(v, es, i).widgets == v.widgets,
        events_step(v, es, i).selected_signal == v.selected_signal,
        events_step(v, es, i).complete_signal == v.complete_signal,
    decreases es.len() - i,
{
    if 0 <= i < es.len() {
        lemma_events_fixed(event_step(v, es[i]), es, i + 1);
    }
}

/// Without an options-ready event among them, the events of a frame
/// leave the selector as it was.
pub proof fn lemma_events_keep_selector(v: ViewModel, es: Seq<EventV>, i: int)
    requires
        forall|j: int| i <= j < es.len() ==> !((#[trigger] es[j]) is OptionsReady),
    ensures
        events_step(v, es, i).selector == v.selector,
    decreases es.len() - i,
{
    if 0 <= i < es.len() {
        lemma_events_keep_selector(event_step(v, es[i]), es, i + 1);
    }
}

/// No event clears a presenting selector: events may replace the choice
/// set, never remove it.
pub proof fn lemma_events_keep_presenting(v: ViewModel, es: Seq<EventV>, i: int)
    requires
        v.selector is Some,
    ensures
        events_step(v, es, i).selector is Some,
    decreases es.len() - i,
{
    if 0 <= i < es.len() {
        lemma_events_keep_presenting(event_step(v, es[i]), es, i + 1);
    }
}

/// Without a line event among them, the events of a frame leave the log
/// as it was.
pub proof fn lemma_events_keep_log(v: ViewModel, es: Seq<EventV>, i: int)
    requires
        forall|j: int| i <= j < es.len() ==> !((#[trigger] es[j]) is LineReady),
    ensures
        events_step(v, es, i).log == v.log,
    decreases es.len() - i,
{
    if 0 <= i < es.len() {
        lemma_events_keep_log(event_step(v, es[i]), es, i + 1);
    }
}

/// Law: committing any option while presenting tears the choice state
/// down within the frame: after it, the choice set is gone, no option
/// widget remains, and the chosen id is handed to the engine — provided
/// no new options-ready event arrives in the same frame.
pub proof fn lemma_selection_inactivates(v: ViewModel, es: Seq<EventV>, inp: InputV)
    requires
        v.selector is Some,
        resolved_choice(v.selector.unwrap(), inp.digit, inp.clicked).0 is Some,
        forall|j: int| 0 <= j < es.len() ==> !((#[trigger] es[j]) is OptionsReady),
    ensures
        frame_spec(v, es, inp).0.selector is None,
        frame_spec(v, es, inp).0.widgets.len() == 0,
        frame_spec(v, es, inp).1.selected is Some,
{
    let v3 = teardown_step(
        resolve_step(widgets_step(absorb_step(v, es)), inp.digit, inp.clicked).0,
    );
    lemma_events_keep_selector(v3, es, 0);
    lemma_events_fixed(v3, es, 0);
}

/// Law: a completion received while presenting forces teardown even with
/// no selection made: after the frame the choice set and the widgets are
/// gone, no id is handed to the engine, and the log receives no echo —
/// with no line events in the frame it is exactly as it was.
pub proof fn lemma_completion_teardown(v: ViewModel, es: Seq<EventV>, inp: InputV)
    requires
        v.selector is Some,
        has_completed(es),
        inp.digit is None,
        inp.clicked is None,
        forall|j: int|
            0 <= j < es.len() ==> !((#[trigger] es[j]) is OptionsReady) && !(es[j] is LineReady),
    ensures
        frame_spec(v, es, inp).0.selector is None,
        frame_spec(v, es, inp).0.widgets.len() == 0,
        frame_spec(v, es, inp).1.selected is None,
        frame_spec(v, es, inp).0.log == v.log,
{
    let v3 = teardown_step(
        resolve_step(widgets_step(absorb_step(v, es)), inp.digit, inp.clicked).0,
    );
    lemma_events_keep_selector(v3, es, 0);
    lemma_events_keep_log(v3, es, 0);
    lemma_events_fixed(v3, es, 0);
}

/// Law: continuation input is ignored entirely while a choice is
/// presented: at a well-formed frame boundary, with no commitment
/// resolved and no completion among the events, the frame requests no
/// advance, whatever the player pressed.
pub proof fn lemma_continuation_ignored_while_presenting(v: ViewModel, es: Seq<EventV>, inp: InputV)
    requires
        v.wf(),
        v.selector is Some,
        resolved_choice(v.selector.unwrap(), inp.digit, inp.clicked).0 is None,
        !has_completed(es),
    ensures
        frame_spec(v, es, inp).1.advance_requested == false,
{
    let v3 = teardown_step(
        resolve_step(widgets_step(absorb_step(v, es)), inp.digit, inp.clicked).0,
    );
    lemma_events_keep_presenting(v3, es, 0);
}

/// Law: once no choice is pending, a continuation edge is honored: with
/// no options-ready event in the frame, an advance is requested exactly
/// when the player pressed one. [`runner_should_continue`] then admits it
/// for each runner that reports running and not awaiting a choice.
pub proof fn lemma_continuation_honored_when_inactive(v: ViewModel, es: Seq<EventV>, inp: InputV)
    requires
        v.selector is None,
        forall|j: int| 0 <= j < es.len() ==> !((#[trigger] es[j]) is OptionsReady),
    ensures
        frame_spec(v, es, inp).1.advance_requested == inp.advance_pressed,
{
    let v3 = teardown_step(
        resolve_step(widgets_step(absorb_step(v, es)), inp.digit, inp.clicked).0,
    );
    lemma_events_keep_selector(v3, es, 0);
}

/// Law: the frame ends pinned to the newest content: whenever the
/// measured content height changed — as it does after any append — the
/// offset after the frame equals `-max_scroll` for the measured heights.
pub proof fn lemma_frame_pins_to_newest(v: ViewModel, es: Seq<EventV>, inp: InputV)
    requires
        inp.content_height != v.last_content_height,
    ensures
        frame_spec(v, es, inp).0.position == -max_scroll(inp.content_height, inp.viewport_height),
{
    let v3 = teardown_step(
        resolve_step(widgets_step(absorb_step(v, es)), inp.digit, inp.clicked).0,
    );
    lemma_events_fixed(v3, es, 0);
}

/// Folding clamped scroll deltas keeps the offset inside the band that
/// any measurable height pair allows.
pub proof fn lemma_scrolls_band(pos: int, ss: Seq<ScrollEvent>, i: int, ch: int, vh: int)
    requires
        -(u32::MAX as int) <= pos <= 0,
        0 <= ch <= u32::MAX as int,
        0 <= vh,
    ensures
        -(u32::MAX as int) <= scrolls_step(pos, ss, i, ch, vh) <= 0,
    decreases ss.len() - i,
{
    if 0 <= i < ss.len() {
        lemma_scrolls_band(
            clamp_scroll(pos + scroll_delta(ss[i].amount as int, ss[i].unit), ch, vh),
            ss,
            i + 1,
            ch,
            vh,
        );
    }
}

} // verus!

