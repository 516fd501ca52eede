use stt_stream::assembler::TranscriptAssembler;
use stt_stream::events::{OutputItem, ResolvedEvent};
use stt_stream::render::render_item;

fn step(p2: u32) -> ResolvedEvent {
    ResolvedEvent::Step { activity_permille: vec![0, 0, p2, 0] }
}

fn word(text: &str, start_centis: u64) -> ResolvedEvent {
    ResolvedEvent::Word { text: text.to_string(), start_centis }
}

fn end_word(stop_centis: u64) -> ResolvedEvent {
    ResolvedEvent::EndWord { stop_centis }
}

#[test]
fn timestamped_two_words_scenario() {
    // Word "hello" at 0.0 s, word "world" at 0.4 s, end of stream.
    let mut acc = TranscriptAssembler::new(true, false);
    let mut out = String::new();
    for ev in [word("hello", 0), word("world", 40)] {
        if let Some(item) = acc.handle_resolved(ev) {
            out.push_str(&render_item(&item, true));
        }
    }
    if let Some(item) = acc.finish() {
        out.push_str(&render_item(&item, true));
    }
    assert_eq!(out, "[ 0.00- 0.40] hello\n[ 0.40-     ] world\n");
}

#[test]
fn plain_two_words_scenario() {
    // Same events with timestamps off: space-prefixed streaming output.
    let mut acc = TranscriptAssembler::new(false, false);
    let mut out = String::new();
    for ev in [word("hello", 0), word("world", 40)] {
        if let Some(item) = acc.handle_resolved(ev) {
            out.push_str(&render_item(&item, false));
        }
    }
    assert!(acc.finish().is_none());
    assert_eq!(out, " hello world");
}

#[test]
fn end_of_turn_emitted_once_while_latched() {
    // A heartbeat above the threshold emits exactly one marker; a later
    // heartbeat while latched emits nothing.
    let mut acc = TranscriptAssembler::new(false, true);
    let first = acc.handle_resolved(step(600));
    assert_eq!(first, Some(OutputItem::EndOfTurn { permille: 600 }));
    assert_eq!(render_item(&first.unwrap(), false), " <endofturn pr=0.6>");
    let second = acc.handle_resolved(step(700));
    assert!(second.is_none());
}

#[test]
fn end_of_turn_rendered_on_own_line_with_timestamps() {
    let mut acc = TranscriptAssembler::new(true, true);
    let first = acc.handle_resolved(step(600)).unwrap();
    assert_eq!(render_item(&first, true), "<endofturn pr=0.6>\n");
}

#[test]
fn end_of_turn_needs_vad_mode_and_threshold() {
    // VAD off: no marker even above the threshold.
    let mut acc = TranscriptAssembler::new(false, false);
    assert!(acc.handle_resolved(step(900)).is_none());
    // VAD on but at the threshold: no marker (strictly above is needed).
    let mut acc = TranscriptAssembler::new(false, true);
    assert!(acc.handle_resolved(step(500)).is_none());
    assert!(acc.handle_resolved(step(501)).is_some());
}

#[test]
fn word_boundary_clears_the_latch() {
    let mut acc = TranscriptAssembler::new(false, true);
    assert!(acc.handle_resolved(step(600)).is_some());
    assert!(acc.handle_resolved(step(700)).is_none());
    // An end-of-word clears the latch; the next high heartbeat fires again.
    assert!(acc.handle_resolved(end_word(100)).is_none());
    let again = acc.handle_resolved(step(700));
    assert_eq!(again, Some(OutputItem::EndOfTurn { permille: 700 }));
    // A word clears it too.
    assert!(acc.handle_resolved(word("hi", 120)).is_some());
    assert!(acc.handle_resolved(step(800)).is_some());
}

#[test]
fn every_word_emitted_exactly_once() {
    // Three words, one still pending at end of stream: three spans in all.
    let mut acc = TranscriptAssembler::new(true, false);
    let events = [
        word("a", 0),
        end_word(20),
        word("b", 30),
        word("c", 50),
        step(100),
    ];
    let mut timed = 0;
    for ev in events {
        if let Some(OutputItem::TimedWord { .. }) = acc.handle_resolved(ev) {
            timed += 1;
        }
    }
    if let Some(OutputItem::TimedWord { .. }) = acc.finish() {
        timed += 1;
    }
    assert_eq!(timed, 3);
}

#[test]
fn spans_come_out_in_start_order() {
    // Ordered word events give spans with non-decreasing start times.
    let mut acc = TranscriptAssembler::new(true, true);
    let events = [word("a", 10), step(700), word("b", 10), end_word(25), word("c", 80)];
    let mut starts = Vec::new();
    for ev in events {
        if let Some(OutputItem::TimedWord { start_centis, .. }) = acc.handle_resolved(ev) {
            starts.push(start_centis);
        }
    }
    if let Some(OutputItem::TimedWord { start_centis, .. }) = acc.finish() {
        starts.push(start_centis);
    }
    assert_eq!(starts, vec![10, 10, 80]);
    assert!(starts.windows(2).all(|w| w[0] <= w[1]));
}

#[test]
fn next_word_start_closes_the_previous_word() {
    // The stop edge comes from the next word's start, not from `EndWord`.
    let mut acc = TranscriptAssembler::new(true, false);
    assert!(acc.handle_resolved(word("hello", 0)).is_none());
    assert!(acc.handle_resolved(end_word(35)).is_none());
    let closed = acc.handle_resolved(word("world", 40)).unwrap();
    assert_eq!(
        closed,
        OutputItem::TimedWord { text: "hello".to_string(), start_centis: 0, stop_centis: Some(40) }
    );
}

#[test]
fn failed_token_decode_renders_as_empty_word() {
    // A failed decode substitutes empty text and the run goes on.
    let text = TranscriptAssembler::word_text_or_empty(None);
    assert_eq!(text, "");
    let ok = TranscriptAssembler::word_text_or_empty(Some("fine".to_string()));
    assert_eq!(ok, "fine");

    let mut acc = TranscriptAssembler::new(true, false);
    assert!(acc.handle_resolved(ResolvedEvent::Word { text, start_centis: 10 }).is_none());
    let closed = acc.handle_resolved(word("next", 30)).unwrap();
    assert_eq!(
        closed,
        OutputItem::TimedWord { text: String::new(), start_centis: 10, stop_centis: Some(30) }
    );
    let last = acc.finish().unwrap();
    assert_eq!(render_item(&last, true), "[ 0.30-     ] next\n");
}
