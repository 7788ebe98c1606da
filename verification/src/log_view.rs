use vstd::prelude::*;
use crate::line_format::{format_line, rendered_line, speaker_view};

verus! {

/// The root panel of the dialogue UI. It starts hidden and is shown on the
/// first dialogue-started event; no hide path exists for the session.
pub struct UiRootNode {
    pub visible: bool,
}

/// The unit a wheel event reports its delta in: whole lines, scaled by a
/// fixed step, or raw pixels.
#[derive(Clone, Copy, PartialEq, Eq, Structural)]
pub enum ScrollUnit {
    Line,
    Pixel,
}

/// One scroll-wheel event, as the host's input layer hands it over.
/// Positive amounts scroll towards older content.
#[derive(Clone, Copy, PartialEq, Eq, Structural)]
pub struct ScrollEvent {
    pub amount: i32,
    pub unit: ScrollUnit,
}

/// Pixels scrolled per line-unit wheel step.
pub const LINE_SCROLL_STEP: i64 = 20;

/// The pixel delta of one wheel event.
pub open spec fn scroll_delta(amount: int, unit: ScrollUnit) -> int {
    match unit {
        ScrollUnit::Line => amount * (LINE_SCROLL_STEP as int),
        ScrollUnit::Pixel => amount,
    }
}

/// How far the content can be scrolled up: the overflow of the content
/// past the viewport, never negative.
pub open spec fn max_scroll(content_height: int, viewport_height: int) -> int {
    if content_height - viewport_height > 0 {
        content_height - viewport_height
    } else {
        0
    }
}

/// A scroll offset clamped to the legal band `[-max_scroll, 0]`.
pub open spec fn clamp_scroll(pos: int, content_height: int, viewport_height: int) -> int {
    let lowest = -max_scroll(content_height, viewport_height);
    if pos < lowest {
        lowest
    } else if pos > 0 {
        0
    } else {
        pos
    }
}

/// The rendered texts of the log, oldest first.
pub open spec fn log_view(entries: Seq<String>) -> Seq<Seq<char>> {
    entries.map_values(|s: String| s@)
}

/// The scrollable, append-only list of rendered dialogue entries, together
/// with its vertical offset and the content height it last saw measured.
pub struct UiDialogueList {
    pub entries: Vec<String>,
    pub position: i64,
    pub last_content_height: u32,
}

impl UiDialogueList {
    /// The offset stays inside the band that any height pair up to the
    /// measurable maximum allows.
    pub open spec fn wf(self) -> bool {
        -(u32::MAX as int) <= self.position as int <= 0
    }

    /// An empty log, scrolled to the top.
    pub fn new() -> (r: Self)
        ensures
            r.entries@.len() == 0,
            r.position == 0,
            r.last_content_height == 0,
            r.wf(),
    {
        UiDialogueList { entries: Vec::new(), position: 0, last_content_height: 0 }
    }
}

/// Appends one rendered line as the newest entry of the log. The speaker,
/// when present, is uppercased and joined to the text with `" - "`.
pub fn write_line(list: &mut UiDialogueList, speaker: Option<&str>, line: &str)
    ensures
        log_view(final(list).entries@) == log_view(old(list).entries@).push(
            rendered_line(speaker_view(speaker), line@),
        ),
        final(list).position == old(list).position,
        final(list).last_content_height == old(list).last_content_height,
{
    let entry = format_line(speaker, line);
    list.entries.push(entry);
    proof {
        assert(log_view(list.entries@) =~= log_view(old(list).entries@).push(
            rendered_line(speaker_view(speaker), line@),
        ));
    }
}

/// Applies one wheel event to the scroll offset: line deltas are scaled to
/// pixels, the offset moves by the delta and is clamped to
/// `[-max_scroll, 0]` for the heights measured this frame.
pub fn scroll_by(list: &mut UiDialogueList, ev: ScrollEvent, content_height: u32, viewport_height: u32)
    requires
        old(list).wf(),
    ensures
        final(list).position as int == clamp_scroll(
            old(list).position + scroll_delta(ev.amount as int, ev.unit),
            content_height as int,
            viewport_height as int,
        ),
        -max_scroll(content_height as int, viewport_height as int) <= final(list).position as int
            <= 0,
        final(list).wf(),
        final(list).entries@ == old(list).entries@,
        final(list).last_content_height == old(list).last_content_height,
{
    let dy: i64 = match ev.unit {
        ScrollUnit::Line => (ev.amount as i64) * LINE_SCROLL_STEP,
        ScrollUnit::Pixel => ev.amount as i64,
    };
    let lowest: i64 = if content_height > viewport_height {
        -((content_height - viewport_height) as i64)
    } else {
        0
    };
    let moved: i64 = list.position + dy;
    list.position = if moved < lowest {
        lowest
    } else if moved > 0 {
        0
    } else {
        moved
    };
}

/// Pins the view to the newest content: the offset becomes `-max_scroll`
/// for the heights measured this frame, and that content height is
/// recorded as seen.
pub fn scroll_to_newest(list: &mut UiDialogueList, content_height: u32, viewport_height: u32)
    ensures
        final(list).position as int == -max_scroll(
            content_height as int,
            viewport_height as int,
        ),
        final(list).last_content_height == content_height,
        final(list).entries@ == old(list).entries@,
        final(list).wf(),
{
    let lowest: i64 = if content_height > viewport_height {
        -((content_height - viewport_height) as i64)
    } else {
        0
    };
    list.position = lowest;
    list.last_content_height = content_height;
}

/// Law: for any offset, any delta magnitude and either sign, and any
/// measured heights, the offset after a clamped scroll update lies in
/// `[-max_scroll, 0]`.
pub proof fn lemma_scroll_offset_in_band(
    pos: int,
    amount: int,
    unit: ScrollUnit,
    content_height: int,
    viewport_height: int,
)
    ensures
        -max_scroll(content_height, viewport_height) <= clamp_scroll(
            pos + scroll_delta(amount, unit),
            content_height,
            viewport_height,
        ) <= 0,
{
}

/// The measured height of the log content: the sum of the heights layout
/// assigns to its entries, in order.
pub open spec fn total_height(heights: Seq<nat>) -> int
    decreases heights.len(),
{
    if heights.len() == 0 {
        0
    } else {
        total_height(heights.drop_last()) + heights.last()
    }
}

/// Appending entries only grows the content: for any log whose entries are
/// extended at the end, the total measured height is monotonically
/// non-decreasing, whatever heights layout assigns to the new entries.
pub proof fn lemma_append_grows_height(before: Seq<nat>, after: Seq<nat>)
    requires
        before.len() <= after.len(),
        before == after.take(before.len() as int),
    ensures
        total_height(after) >= total_height(before),
    decreases after.len(),
{
    if after.len() > before.len() {
        assert(before =~= after.drop_last().take(before.len() as int));
        lemma_append_grows_height(before, after.drop_last());
    } else {
        assert(before =~= after);
    }
}

} // verus!
