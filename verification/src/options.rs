use vstd::prelude::*;
use crate::line_format::{decimal_of, decimal_string};

verus! {

/// One branch offered by the engine: an opaque id, the display text, and
/// whether the engine lets the player take it.
pub struct DialogueOption {
    pub id: u64,
    pub text: String,
    pub is_available: bool,
}

/// The mathematical value of a [`DialogueOption`].
#[verifier::ext_equal]
pub struct OptionV {
    pub id: u64,
    pub text: Seq<char>,
    pub is_available: bool,
}

impl View for DialogueOption {
    type V = OptionV;

    open spec fn view(&self) -> OptionV {
        OptionV { id: self.id, text: self.text@, is_available: self.is_available }
    }
}

/// The values of a sequence of options.
pub open spec fn options_view(s: Seq<DialogueOption>) -> Seq<OptionV> {
    s.map_values(|o: DialogueOption| o@)
}

/// The transient choice set: it exists exactly while the player must pick
/// an option, and holds the available options in the engine's order.
pub struct OptionSelection {
    pub options: Vec<DialogueOption>,
}

impl OptionSelection {
    /// Captures the options of an options-ready event: the available ones
    /// are kept, in the order the engine gave them; the rest are dropped.
    pub fn from_option_set(options: &Vec<DialogueOption>) -> (r: Self)
        ensures
            options_view(r.options@) == options_view(options@).filter(|o: OptionV| o.is_available),
    {
        let mut kept: Vec<DialogueOption> = Vec::new();
        let mut i: usize = 0;
        proof {
            reveal(Seq::filter);
            let pred = |o: OptionV| o.is_available;
            assert(options_view(kept@) =~~= options_view(options@.take(0)).filter(pred));
        }
        while i < options.len()
            invariant
                i <= options@.len(),
                options_view(kept@) == options_view(options@.take(i as int)).filter(
                    |o: OptionV| o.is_available,
                ),
            decreases options@.len() - i,
        {
            let o = &options[i];
            if o.is_available {
                kept.push(DialogueOption { id: o.id, text: o.text.clone(), is_available: true });
            }
            i += 1;
            proof {
                reveal(Seq::filter);
                let pred = |o: OptionV| o.is_available;
                let seen = options_view(options@.take(i as int));
                assert(seen.drop_last() =~= options_view(options@.take(i as int - 1)));
                assert(seen.last() == options@[i as int - 1]@);
                assert(pred(seen.last()) == options@[i as int - 1]@.is_available);
                assert(options_view(kept@) =~~= seen.filter(pred));
            }
        }
        proof {
            assert(options@.take(options@.len() as int) =~= options@);
        }
        OptionSelection { options: kept }
    }
}

/// The option selector's state, made explicit: either no choice is
/// pending, or a transient choice set is presented that the player must
/// resolve before the dialogue can continue.
pub enum SelectorState {
    Inactive,
    Presenting(OptionSelection),
}

impl View for SelectorState {
    type V = Option<Seq<OptionV>>;

    open spec fn view(&self) -> Option<Seq<OptionV>> {
        match self {
            SelectorState::Inactive => Option::None,
            SelectorState::Presenting(sel) => Option::Some(options_view(sel.options@)),
        }
    }
}

/// One rendered choice entry: the engine's id, a copy of the display text
/// kept for the later echo into the log, and the shown label.
pub struct OptionWidget {
    pub id: u64,
    pub text: String,
    pub label: String,
}

/// The mathematical value of an [`OptionWidget`].
#[verifier::ext_equal]
pub struct WidgetV {
    pub id: u64,
    pub text: Seq<char>,
    pub label: Seq<char>,
}

impl View for OptionWidget {
    type V = WidgetV;

    open spec fn view(&self) -> WidgetV {
        WidgetV { id: self.id, text: self.text@, label: self.label@ }
    }
}

/// The values of a sequence of widgets.
pub open spec fn widgets_view(s: Seq<OptionWidget>) -> Seq<WidgetV> {
    s.map_values(|w: OptionWidget| w@)
}

/// The label of the option at a 1-based display position: the position in
/// decimal, `": "`, then the option's text.
pub open spec fn widget_label(position: nat, text: Seq<char>) -> Seq<char> {
    decimal_of(position) + ": "@ + text
}

/// The widget row a presenting choice set renders: one entry per option,
/// in display order, labelled with its 1-based position.
pub open spec fn widgets_of(opts: Seq<OptionV>) -> Seq<WidgetV> {
    Seq::new(
        opts.len(),
        |i: int|
            WidgetV {
                id: opts[i].id,
                text: opts[i].text,
                label: widget_label((i + 1) as nat, opts[i].text),
            },
    )
}

/// Builds the clickable entries for a presenting choice set, one per
/// option in display order, each labelled `"{position}: {text}"`.
pub fn create_widgets(selection: &OptionSelection) -> (r: Vec<OptionWidget>)
    ensures
        widgets_view(r@) == widgets_of(options_view(selection.options@)),
{
    let mut widgets: Vec<OptionWidget> = Vec::new();
    let mut i: usize = 0;
    while i < selection.options.len()
        invariant
            i <= selection.options@.len(),
            widgets_view(widgets@) == widgets_of(options_view(selection.options@)).take(i as int),
        decreases selection.options@.len() - i,
    {
        let o = &selection.options[i];
        let mut label = decimal_string((i as u64) + 1);
        label.append(": ");
        label.append(o.text.as_str());
        widgets.push(OptionWidget { id: o.id, text: o.text.clone(), label });
        proof {
            let target = widgets_of(options_view(selection.options@));
            assert(target.len() == selection.options@.len());
            assert(target[i as int].id == o.id);
            assert(target[i as int].text == o.text@);
            assert(target[i as int].label =~= label@);
            assert(target.take(i as int).len() == i);
            assert(widgets@.len() == i + 1);
            assert(widgets_view(widgets@).len() == i + 1);
            assert forall|j: int| 0 <= j < i + 1 implies widgets_view(widgets@)[j] =~~= target.take(
                i as int + 1,
            )[j] by {
                if j < i {
                    assert(widgets_view(widgets@)[j] == widgets_view(widgets@.take(i as int))[j]);
                    assert(widgets@.take(i as int) =~= widgets@.drop_last());
                }
            }
            assert(widgets_view(widgets@) =~~= target.take(i as int + 1));
        }
        i += 1;
    }
    proof {
        assert(widgets_of(options_view(selection.options@)).take(
            selection.options@.len() as int,
        ) =~= widgets_of(options_view(selection.options@)));
    }
    widgets
}

/// A pointer press on one option widget, as the host reports it: the
/// widget's id and the display text the widget stored.
pub struct ClickedOption {
    pub id: u64,
    pub text: String,
}

/// The mathematical value of a [`ClickedOption`].
#[verifier::ext_equal]
pub struct ClickV {
    pub id: u64,
    pub text: Seq<char>,
}

impl View for ClickedOption {
    type V = ClickV;

    open spec fn view(&self) -> ClickV {
        ClickV { id: self.id, text: self.text@ }
    }
}

/// The view of an optional click.
pub open spec fn click_view(c: Option<ClickedOption>) -> Option<ClickV> {
    match c {
        Option::Some(c) => Option::Some(c@),
        Option::None => Option::None,
    }
}

/// The option a numeric hotkey picks: digit `d` maps positionally to the
/// `d`-th displayed option. Digits past the ninth or past the end of the
/// set pick nothing.
pub open spec fn hotkey_choice(opts: Seq<OptionV>, digit: Option<u8>) -> Option<u64> {
    match digit {
        Option::Some(d) => if 1 <= d <= 9 && d <= opts.len() {
            Option::Some(opts[d - 1].id)
        } else {
            Option::None
        },
        Option::None => Option::None,
    }
}

/// What one frame of input commits against a presenting choice set: the
/// chosen id, if any, and the text to echo into the log. A hotkey is
/// evaluated first and wins over a simultaneous click; only a pointer
/// commitment echoes the choice.
pub open spec fn resolved_choice(opts: Seq<OptionV>, digit: Option<u8>, clicked: Option<ClickV>) -> (
    Option<u64>,
    Option<Seq<char>>,
) {
    match hotkey_choice(opts, digit) {
        Option::Some(id) => (Option::Some(id), Option::None),
        Option::None => match clicked {
            Option::Some(c) => (Option::Some(c.id), Option::Some(c.text)),
            Option::None => (Option::None, Option::None),
        },
    }
}

/// The view of an optional echo text.
pub open spec fn echo_view(e: Option<String>) -> Option<Seq<char>> {
    match e {
        Option::Some(s) => Option::Some(s@),
        Option::None => Option::None,
    }
}

/// Resolves one frame of player input against a presenting choice set.
/// The first match wins: a numeric hotkey (mapped positionally, 1-based)
/// beats a pointer click polled in the same frame; a pointer commitment
/// also yields the clicked widget's text, to be echoed into the log.
pub fn resolve_input(selection: &OptionSelection, digit: Option<u8>, clicked: &Option<ClickedOption>) -> (r: (
    Option<u64>,
    Option<String>,
))
    ensures
        r.0 == resolved_choice(options_view(selection.options@), digit, click_view(*clicked)).0,
        echo_view(r.1) == resolved_choice(
            options_view(selection.options@),
            digit,
            click_view(*clicked),
        ).1,
{
    let mut chosen: Option<u64> = None;
    let mut echo: Option<String> = None;
    if let Some(d) = digit {
        if 1 <= d && d <= 9 && (d as usize) <= selection.options.len() {
            chosen = Some(selection.options[(d - 1) as usize].id);
        }
    }
    if chosen.is_none() {
        if let Some(c) = clicked {
            chosen = Some(c.id);
            echo = Some(c.text.clone());
        }
    }
    (chosen, echo)
}

} // verus!

