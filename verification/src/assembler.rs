//! The transcript assembler: a small state machine that consumes decoder
//! events in arrival order and emits transcript items.
//!
//! A word's stop edge is taken from the next word's start time (or left open
//! at end of stream); an `EndWord` event only clears the end-of-turn latch.
//! This is a deliberate resolution of the dual bookkeeping a reader might
//! expect between `EndWord` stop times and next-word start times.

use vstd::prelude::*;
use crate::events::{
    EventView, ItemView, OutputItem, ResolvedEvent, event_wf, out_view, EOT_THRESHOLD_PERMILLE,
    EOT_HORIZON,
};

verus! {

/// The end-of-turn latch: `Latched` once a marker has been emitted and no
/// word boundary has arrived since.
#[derive(Clone, Copy, PartialEq, Eq, Structural, Debug)]
pub enum TurnState {
    Idle,
    Latched,
}

/// The word most recently started and not yet closed by a following word
/// or by the end of the stream.
pub struct PendingWord {
    pub text: String,
    pub start_centis: u64,
}

/// Specification-level state of the assembler.
pub struct AsmView {
    /// The buffered word still waiting for its stop edge, as (text, start).
    pub pending: Option<(Seq<char>, u64)>,
    /// Whether an end-of-turn marker is latched.
    pub latched: bool,
    /// Whether word spans with timestamps are emitted instead of plain words.
    pub timestamps: bool,
    /// Whether voice-activity gating emits end-of-turn markers.
    pub vad: bool,
}

/// A well-formed assembler state: a word is buffered only in timestamped
/// mode, where its stop edge must still be discovered.
pub open spec fn asm_wf(s: AsmView) -> bool {
    !s.timestamps ==> s.pending is None
}

/// The state the assembler starts a run in.
pub open spec fn init_view(timestamps: bool, vad: bool) -> AsmView {
    AsmView { pending: None, latched: false, timestamps, vad }
}

/// The transition relation of the assembler: from a state and one event to
/// the next state and at most one emitted item.
///
/// - A heartbeat whose probability at the end-of-turn horizon exceeds the
///   threshold emits one marker and latches; while latched, further
///   heartbeats emit nothing.
/// - A word clears the latch. Without timestamps its text is emitted at
///   once; with timestamps it closes the buffered word, whose stop edge is
///   this word's start time, and is buffered in its place.
/// - An end-of-word clears the latch and emits nothing.
pub open spec fn transition(s: AsmView, e: EventView) -> (AsmView, Option<ItemView>) {
    match e {
        EventView::Step { activity } => {
            if s.vad && activity[EOT_HORIZON as int] > EOT_THRESHOLD_PERMILLE && !s.latched {
                (
                    AsmView { pending: s.pending, latched: true, timestamps: s.timestamps, vad: s.vad },
                    Some(ItemView::Eot { permille: activity[EOT_HORIZON as int] }),
                )
            } else {
                (s, None)
            }
        },
        EventView::Word { text, start_centis } => {
            if !s.timestamps {
                (
                    AsmView { pending: s.pending, latched: false, timestamps: s.timestamps, vad: s.vad },
                    Some(ItemView::Plain { text }),
                )
            } else {
                let out = match s.pending {
                    Some(p) => Some(
                        ItemView::Timed { text: p.0, start_centis: p.1, stop_centis: Some(start_centis) },
                    ),
                    None => None,
                };
                (
                    AsmView {
                        pending: Some((text, start_centis)),
                        latched: false,
                        timestamps: s.timestamps,
                        vad: s.vad,
                    },
                    out,
                )
            }
        },
        EventView::EndWord { stop_centis: _ } => {
            (
                AsmView { pending: s.pending, latched: false, timestamps: s.timestamps, vad: s.vad },
                None,
            )
        },
    }
}

/// The end-of-stream step: a still-buffered word is emitted with an open
/// stop edge, since no later word bounds it.
pub open spec fn finish_transition(s: AsmView) -> (AsmView, Option<ItemView>) {
    match s.pending {
        Some(p) => (
            AsmView { pending: None, latched: s.latched, timestamps: s.timestamps, vad: s.vad },
            Some(ItemView::Timed { text: p.0, start_centis: p.1, stop_centis: None }),
        ),
        None => (s, None),
    }
}

/// The transcript assembler's runtime state.
pub struct TranscriptAssembler {
    pub pending: Option<PendingWord>,
    pub turn: TurnState,
    pub timestamps: bool,
    pub vad: bool,
}

impl View for TranscriptAssembler {
    type V = AsmView;

    open spec fn view(&self) -> AsmView {
        AsmView {
            pending: match self.pending {
                Some(p) => Some((p.text@, p.start_centis)),
                None => None,
            },
            latched: self.turn is Latched,
            timestamps: self.timestamps,
            vad: self.vad,
        }
    }
}

impl TranscriptAssembler {
    /// A fresh assembler: nothing buffered, latch clear.
    pub fn new(timestamps: bool, vad: bool) -> (r: Self)
        ensures
            r@ == init_view(timestamps, vad),
            asm_wf(r@),
    {
        TranscriptAssembler { pending: None, turn: TurnState::Idle, timestamps, vad }
    }

    /// Consumes one event whose word text is already decoded and returns the
    /// item it emits, if any, exactly as `transition` states.
    pub fn handle_resolved(&mut self, e: ResolvedEvent) -> (out: Option<OutputItem>)
        requires
            asm_wf(old(self)@),
            event_wf(e@),
        ensures
            final(self)@ == transition(old(self)@, e@).0,
            out_view(out) == transition(old(self)@, e@).1,
            asm_wf(final(self)@),
    {
        match e {
            ResolvedEvent::Step { activity_permille } => {
                let latched = match self.turn {
                    TurnState::Latched => true,
                    TurnState::Idle => false,
                };
                if self.vad && activity_permille[EOT_HORIZON] > EOT_THRESHOLD_PERMILLE && !latched {
                    self.turn = TurnState::Latched;
                    Some(OutputItem::EndOfTurn { permille: activity_permille[EOT_HORIZON] })
                } else {
                    None
                }
            },
            ResolvedEvent::Word { text, start_centis } => {
                self.turn = TurnState::Idle;
                if !self.timestamps {
                    Some(OutputItem::PlainWord { text })
                } else {
                    let prev = self.pending.take();
                    self.pending = Some(PendingWord { text, start_centis });
                    match prev {
                        Some(p) => Some(
                            OutputItem::TimedWord {
                                text: p.text,
                                start_centis: p.start_centis,
                                stop_centis: Some(start_centis),
                            },
                        ),
                        None => None,
                    }
                }
            },
            ResolvedEvent::EndWord { stop_centis: _ } => {
                self.turn = TurnState::Idle;
                None
            },
        }
    }

    /// Ends the stream: flushes the still-buffered word, if any, with an
    /// open stop edge, exactly as `finish_transition` states.
    pub fn finish(&mut self) -> (out: Option<OutputItem>)
        requires
            asm_wf(old(self)@),
        ensures
            final(self)@ == finish_transition(old(self)@).0,
            out_view(out) == finish_transition(old(self)@).1,
            asm_wf(final(self)@),
            final(self)@.pending is None,
    {
        match self.pending.take() {
            Some(p) => Some(
                OutputItem::TimedWord {
                    text: p.text,
                    start_centis: p.start_centis,
                    stop_centis: None,
                },
            ),
            None => None,
        }
    }

    /// The word text used for a word whose token decoding was attempted
    /// outside: the decoded text, or empty text when decoding failed, so a
    /// failed word never halts the run and renders as an empty word.
    pub fn word_text_or_empty(decoded: Option<String>) -> (r: String)
        ensures
            match decoded {
                Some(s) => r@ == s@,
                None => r@ == Seq::<char>::empty(),
            },
    {
        match decoded {
            Some(s) => s,
            None => String::new(),
        }
    }
}

} // verus!
