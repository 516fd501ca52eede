//! Laws of the assembler over whole event sequences: every word is emitted
//! exactly once, and end-of-turn markers never repeat without a word
//! boundary in between.

use vstd::prelude::*;
use vstd::assert_by_contradiction;
use crate::assembler::{AsmView, transition, finish_transition};
use crate::events::{EventView, ItemView};

verus! {

/// The items one optional output contributes to the output stream.
pub open spec fn opt_items(o: Option<ItemView>) -> Seq<ItemView> {
    match o {
        Some(item) => seq![item],
        None => Seq::<ItemView>::empty(),
    }
}

/// Runs the assembler over a whole event sequence: the state it ends in and
/// everything it emitted, in order.
pub open spec fn run_events(s: AsmView, es: Seq<EventView>) -> (AsmView, Seq<ItemView>)
    decreases es.len(),
{
    if es.len() == 0 {
        (s, Seq::<ItemView>::empty())
    } else {
        let prev = run_events(s, es.drop_last());
        let st = transition(prev.0, es.last());
        (st.0, prev.1 + opt_items(st.1))
    }
}

/// The number of word events in a sequence.
pub open spec fn count_words(es: Seq<EventView>) -> nat
    decreases es.len(),
{
    if es.len() == 0 {
        0
    } else {
        count_words(es.drop_last()) + (if es.last() is Word {
            1nat
        } else {
            0nat
        })
    }
}

/// The number of timestamped word spans in an output sequence.
pub open spec fn count_timed(items: Seq<ItemView>) -> nat
    decreases items.len(),
{
    if items.len() == 0 {
        0
    } else {
        count_timed(items.drop_last()) + (if items.last() is Timed {
            1nat
        } else {
            0nat
        })
    }
}

/// One when a word is still buffered in the state, zero otherwise.
pub open spec fn pending_count(s: AsmView) -> nat {
    if s.pending is Some {
        1
    } else {
        0
    }
}

/// A single optional output counts one timestamped span exactly when it is
/// one.
proof fn lemma_count_timed_single(o: Option<ItemView>)
    ensures
        count_timed(opt_items(o)) == (if o matches Some(it) && it is Timed {
            1nat
        } else {
            0nat
        }),
{
    assert(count_timed(Seq::<ItemView>::empty()) == 0);
    match o {
        Some(it) => {
            assert(opt_items(o).drop_last() =~= Seq::<ItemView>::empty());
            assert(opt_items(o).last() == it);
        },
        None => {},
    }
}

/// Law: in timestamped mode, over any event sequence, the timestamped spans
/// emitted so far plus the one word still buffered account for every word
/// event exactly once.
pub proof fn lemma_word_count(s: AsmView, es: Seq<EventView>)
    requires
        s.timestamps,
    ensures
        count_timed(run_events(s, es).1) + pending_count(run_events(s, es).0) == count_words(es)
            + pending_count(s),
        run_events(s, es).0.timestamps,
    decreases es.len(),
{
    if es.len() > 0 {
        lemma_word_count(s, es.drop_last());
        let prev = run_events(s, es.drop_last());
        let st = transition(prev.0, es.last());
        lemma_count_timed_append(prev.1, opt_items(st.1));
        lemma_count_timed_single(st.1);
    }
}

/// Counting timestamped spans distributes over concatenation.
proof fn lemma_count_timed_append(a: Seq<ItemView>, b: Seq<ItemView>)
    ensures
        count_timed(a + b) == count_timed(a) + count_timed(b),
    decreases b.len(),
{
    if b.len() == 0 {
        assert(a + b =~= a);
    } else {
        lemma_count_timed_append(a, b.drop_last());
        assert((a + b).drop_last() =~= a + b.drop_last());
    }
}

/// Law: in timestamped mode, once the stream ends and the final buffered
/// word is flushed, the number of timestamped spans equals the number of
/// word events: every word appears exactly once.
pub proof fn lemma_every_word_emitted(s: AsmView, es: Seq<EventView>)
    requires
        s.timestamps,
        s.pending is None,
    ensures
        count_timed(
            run_events(s, es).1 + opt_items(finish_transition(run_events(s, es).0).1),
        ) == count_words(es),
{
    lemma_word_count(s, es);
    let run = run_events(s, es);
    lemma_count_timed_append(run.1, opt_items(finish_transition(run.0).1));
    lemma_count_timed_single(finish_transition(run.0).1);
}

/// Word events arrive with non-decreasing start times.
pub open spec fn words_ordered(es: Seq<EventView>) -> bool {
    forall|i: int, j: int|
        0 <= i < j < es.len() && es[i] is Word && es[j] is Word ==> es[i]->Word_start_centis
            <= es[j]->Word_start_centis
}

/// Timestamped spans appear with non-decreasing start times.
pub open spec fn timed_sorted(items: Seq<ItemView>) -> bool {
    forall|i: int, j: int|
        0 <= i < j < items.len() && items[i] is Timed && items[j] is Timed
            ==> items[i]->Timed_start_centis <= items[j]->Timed_start_centis
}

/// The buffered word starts no earlier than any span emitted so far, and its
/// start time is one of the word events'; with nothing buffered, no span has
/// been emitted at all.
spec fn pending_bounds(s: AsmView, es: Seq<EventView>, items: Seq<ItemView>) -> bool {
    &&& (s.pending matches Some(p) ==> {
        &&& forall|i: int|
            0 <= i < items.len() && items[i] is Timed ==> items[i]->Timed_start_centis <= p.1
        &&& exists|k: int| 0 <= k < es.len() && es[k] is Word && es[k]->Word_start_centis == p.1
    })
    &&& (s.pending is None ==> forall|i: int| 0 <= i < items.len() ==> !(items[i] is Timed))
}

/// When word events arrive with non-decreasing start times, the spans
/// emitted so far are ordered and the buffered word bounds them.
proof fn lemma_spans_ordered(s: AsmView, es: Seq<EventView>)
    requires
        s.pending is None,
        words_ordered(es),
    ensures
        timed_sorted(run_events(s, es).1),
        pending_bounds(run_events(s, es).0, es, run_events(s, es).1),
    decreases es.len(),
{
    if es.len() > 0 {
        let head = es.drop_last();
        assert(words_ordered(head)) by {
            assert(forall|i: int| 0 <= i < head.len() ==> head[i] == es[i]);
        };
        lemma_spans_ordered(s, head);
        let prev = run_events(s, head);
        let st = transition(prev.0, es.last());
        let items = prev.1 + opt_items(st.1);
        assert(forall|i: int| 0 <= i < prev.1.len() ==> items[i] == prev.1[i]);
        match es.last() {
            EventView::Word { text, start_centis } => {
                if prev.0.timestamps {
                    match prev.0.pending {
                        Some(p) => {
                            // The buffered word's start is an earlier word
                            // event's, so ordering bounds it by this start.
                            let k = choose|k: int|
                                0 <= k < head.len() && head[k] is Word
                                    && head[k]->Word_start_centis == p.1;
                            assert(es[k] is Word && es[k]->Word_start_centis == p.1);
                            assert(p.1 <= start_centis);
                        },
                        None => {},
                    }
                }
            },
            EventView::Step { .. } => {},
            EventView::EndWord { .. } => {},
        }
        assert(timed_sorted(items));
        assert(pending_bounds(st.0, es, items));
    }
}

/// Law: over a whole run with ordered word events, including the final
/// flush, the timestamped spans come out with non-decreasing start times.
pub proof fn lemma_output_order(s: AsmView, es: Seq<EventView>)
    requires
        s.pending is None,
        words_ordered(es),
    ensures
        timed_sorted(
            run_events(s, es).1 + opt_items(finish_transition(run_events(s, es).0).1),
        ),
{
    lemma_spans_ordered(s, es);
    let run = run_events(s, es);
    let items = run.1 + opt_items(finish_transition(run.0).1);
    assert(forall|i: int| 0 <= i < run.1.len() ==> items[i] == run.1[i]);
    assert(timed_sorted(items));
}

/// The state after the first `n` events.
pub open spec fn state_after(s: AsmView, es: Seq<EventView>, n: int) -> AsmView {
    run_events(s, es.take(n)).0
}

/// What the assembler emits on event `i` of the sequence.
pub open spec fn output_at(s: AsmView, es: Seq<EventView>, i: int) -> Option<ItemView> {
    transition(state_after(s, es, i), es[i]).1
}

/// Whether an optional output is an end-of-turn marker.
pub open spec fn is_eot(o: Option<ItemView>) -> bool {
    o matches Some(item) && item is Eot
}

/// Whether an event is a word boundary, which clears the end-of-turn latch.
pub open spec fn is_word_boundary(e: EventView) -> bool {
    e is Word || e is EndWord
}

/// Stepping once extends the prefix state by one transition.
proof fn lemma_state_after_step(s: AsmView, es: Seq<EventView>, n: int)
    requires
        0 <= n < es.len(),
    ensures
        state_after(s, es, n + 1) == transition(state_after(s, es, n), es[n]).0,
{
    assert(es.take(n + 1).drop_last() =~= es.take(n));
    assert(es.take(n + 1).last() == es[n]);
}

/// While only heartbeats arrive, a latched state stays latched.
proof fn lemma_latched_through_steps(s: AsmView, es: Seq<EventView>, a: int, b: int)
    requires
        0 <= a <= b <= es.len(),
        state_after(s, es, a).latched,
        forall|k: int| a <= k < b ==> !is_word_boundary(es[k]),
    ensures
        state_after(s, es, b).latched,
    decreases b - a,
{
    if a < b {
        lemma_state_after_step(s, es, a);
        lemma_latched_through_steps(s, es, a + 1, b);
    }
}

/// Law: end-of-turn markers never repeat without an intervening word
/// boundary: if events `i` and `j` both emit a marker, some word or
/// end-of-word event lies strictly between them.
pub proof fn lemma_no_double_end_of_turn(s: AsmView, es: Seq<EventView>, i: int, j: int)
    requires
        0 <= i < j < es.len(),
        is_eot(output_at(s, es, i)),
        is_eot(output_at(s, es, j)),
    ensures
        exists|k: int| i < k < j && is_word_boundary(es[k]),
{
    assert_by_contradiction!(exists|k: int| i < k < j && is_word_boundary(es[k]), {
        // Emitting the marker at `i` latches the state.
        lemma_state_after_step(s, es, i);
        assert(state_after(s, es, i + 1).latched);
        // Only heartbeats lie between `i` and `j`, so the latch holds at `j`.
        assert(forall|k: int| i + 1 <= k < j ==> !is_word_boundary(es[k]));
        lemma_latched_through_steps(s, es, i + 1, j);
        // A latched state emits no marker on a heartbeat.
        assert(!is_eot(output_at(s, es, j)));
    });
}

} // verus!

