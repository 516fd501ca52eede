//! Event and output types of the transcript assembler.
//!
//! Times are carried in centiseconds (hundredths of a second) and
//! voice-inactivity probabilities in permille (thousandths), so that the
//! assembler's decisions and the rendered transcript are exact integer
//! functions of its inputs.

use vstd::prelude::*;

verus! {

/// A voice-inactivity probability above this permille threshold signals an
/// end of turn.
pub const EOT_THRESHOLD_PERMILLE: u32 = 500;

/// The number of time horizons a `Step` event reports probabilities for.
pub const ACTIVITY_HORIZONS: usize = 4;

/// The index of the time horizon (about two seconds) whose probability
/// drives the end-of-turn signal.
pub const EOT_HORIZON: usize = 2;

/// Specification-level view of an event after its word tokens have been
/// decoded to text.
pub enum EventView {
    /// Periodic heartbeat with one voice-inactivity probability (permille)
    /// per time horizon.
    Step { activity: Seq<u32> },
    /// A completed word and its start time in centiseconds.
    Word { text: Seq<char>, start_centis: u64 },
    /// The stop time, in centiseconds, of the most recently started word.
    EndWord { stop_centis: u64 },
}

/// Specification-level view of one emitted transcript item.
pub enum ItemView {
    /// A plain word, streamed without timestamps.
    Plain { text: Seq<char> },
    /// A word span; the stop time is open at end of stream.
    Timed { text: Seq<char>, start_centis: u64, stop_centis: Option<u64> },
    /// An end-of-turn marker carrying the probability that triggered it.
    Eot { permille: u32 },
}

/// A well-formed event: a heartbeat carries one probability per horizon,
/// each a permille value.
pub open spec fn event_wf(e: EventView) -> bool {
    match e {
        EventView::Step { activity } => activity.len() == ACTIVITY_HORIZONS
            && forall|k: int| 0 <= k < activity.len() ==> activity[k] <= 1000,
        EventView::Word { .. } => true,
        EventView::EndWord { .. } => true,
    }
}

/// An event whose word text is already decoded, as the assembler consumes it.
pub enum ResolvedEvent {
    Step { activity_permille: Vec<u32> },
    Word { text: String, start_centis: u64 },
    EndWord { stop_centis: u64 },
}

impl View for ResolvedEvent {
    type V = EventView;

    open spec fn view(&self) -> EventView {
        match self {
            ResolvedEvent::Step { activity_permille } => EventView::Step {
                activity: activity_permille@,
            },
            ResolvedEvent::Word { text, start_centis } => EventView::Word {
                text: text@,
                start_centis: *start_centis,
            },
            ResolvedEvent::EndWord { stop_centis } => EventView::EndWord {
                stop_centis: *stop_centis,
            },
        }
    }
}

/// One emitted transcript item.
#[derive(Debug, PartialEq)]
pub enum OutputItem {
    PlainWord { text: String },
    TimedWord { text: String, start_centis: u64, stop_centis: Option<u64> },
    EndOfTurn { permille: u32 },
}

impl View for OutputItem {
    type V = ItemView;

    open spec fn view(&self) -> ItemView {
        match self {
            OutputItem::PlainWord { text } => ItemView::Plain { text: text@ },
            OutputItem::TimedWord { text, start_centis, stop_centis } => ItemView::Timed {
                text: text@,
                start_centis: *start_centis,
                stop_centis: *stop_centis,
            },
            OutputItem::EndOfTurn { permille } => ItemView::Eot { permille: *permille },
        }
    }
}

/// The view of an optional output item.
pub open spec fn out_view(o: Option<OutputItem>) -> Option<ItemView> {
    match o {
        Some(item) => Some(item@),
        None => None,
    }
}

} // verus!
