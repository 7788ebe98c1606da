//! A dialogue-presentation layer for a narrative-scripting engine: a
//! scrolling text log, an option selector driven by hotkeys and pointer
//! clicks, and a continuation trigger, all modelled as an explicit,
//! frame-stepped state machine over plain values. The host application
//! polls its input devices and the engine, hands the events of the frame
//! to [`view::DialogueView::frame`], and carries the returned actions
//! back to the engine.

pub mod line_format;
pub mod log_view;
pub mod options;
pub mod view;
