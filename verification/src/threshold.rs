//! The two flush thresholds at work: what a slow producer and what a fast one
//! get for batches.

use vstd::prelude::*;
use crate::session::{
    batches, capped, closed, lemma_add, lemma_session, lemma_step_counts, produced, run,
};
use crate::stream::{elapsed, step, InputView, StreamState, BATCH_LINES, FLUSH_INTERVAL_NANOS};

verus! {

/// The inputs of a process that writes `lines`, the line at each index
/// arriving at the time at the same index of `times`, and has not closed its
/// output.
pub open spec fn timed(lines: Seq<Seq<char>>, times: Seq<u64>) -> Seq<InputView> {
    Seq::new(lines.len(), |i: int| InputView::Line { text: lines[i], now: times[i] })
}

/// Each line in a batch of its own.
pub open spec fn singles(lines: Seq<Seq<char>>) -> Seq<Seq<Seq<char>>> {
    Seq::new(lines.len(), |i: int| seq![lines[i]])
}

/// The `BATCH_LINES` lines of `lines` that make up its full batch number `i`,
/// counted from 0.
pub open spec fn batch_at(lines: Seq<Seq<char>>, i: int) -> Seq<Seq<char>> {
    lines.subrange(i * BATCH_LINES, (i + 1) * BATCH_LINES)
}

/// The full batches of `lines`: `BATCH_LINES` lines each, in order.
pub open spec fn full_batches(lines: Seq<Seq<char>>) -> Seq<Seq<Seq<char>>> {
    Seq::new(lines.len() / (BATCH_LINES as nat), |i: int| batch_at(lines, i))
}

/// The lines of `lines` that follow its full batches; fewer than
/// `BATCH_LINES`.
pub open spec fn remainder(lines: Seq<Seq<char>>) -> Seq<Seq<char>> {
    lines.subrange((lines.len() / (BATCH_LINES as nat)) * BATCH_LINES, lines.len() as int)
}

/// `lines` split into batches of `BATCH_LINES` lines, the last batch holding
/// what is left where the lines do not divide evenly.
pub open spec fn split(lines: Seq<Seq<char>>) -> Seq<Seq<Seq<char>>> {
    if remainder(lines).len() > 0 {
        full_batches(lines).push(remainder(lines))
    } else {
        full_batches(lines)
    }
}

/// Whether the line at `i` arrives a flush interval or more after the line
/// before it; the first line, after `start`.
pub open spec fn arrives_late(start: u64, times: Seq<u64>, i: int) -> bool {
    elapsed(
        if i == 0 {
            start
        } else {
            times[i - 1]
        },
        times[i],
    ) >= FLUSH_INTERVAL_NANOS
}

/// Whether the line at `i` arrives less than a flush interval after `start`.
pub open spec fn arrives_early(start: u64, times: Seq<u64>, i: int) -> bool {
    start <= times[i] < start + FLUSH_INTERVAL_NANOS
}

/// Timed inputs hold their lines and no end of the output.
proof fn lemma_timed(lines: Seq<Seq<char>>, times: Seq<u64>)
    ensures
        !closed(timed(lines, times)),
        produced(timed(lines, times)) == lines,
    decreases lines.len(),
{
    let inputs = timed(lines, times);
    if lines.len() == 0 {
        assert(lines =~= Seq::<Seq<char>>::empty());
    } else {
        assert(inputs.drop_last() =~= timed(lines.drop_last(), times));
        lemma_timed(lines.drop_last(), times);
        assert(lines =~= lines.drop_last().push(lines.last()));
    }
}

/// What a session has done with lines that all arrive late.
proof fn lemma_slow(now: u64, lines: Seq<Seq<char>>, times: Seq<u64>)
    requires
        lines.len() <= times.len(),
        forall|i: int| 0 <= i < lines.len() ==> #[trigger] arrives_late(now, times, i),
    ensures
        ({
            let (s, actions) = run(StreamState::start(now), timed(lines, times));
            &&& batches(actions) == singles(lines.take(capped(lines.len()) as int))
            &&& s.pending.len() == 0
            &&& !s.finished ==> s.last_flush == if lines.len() == 0 {
                now
            } else {
                times[lines.len() - 1]
            }
        }),
    decreases lines.len(),
{
    let start = StreamState::start(now);
    let inputs = timed(lines, times);
    let n = lines.len() as int;
    if n == 0 {
        assert(batches(run(start, inputs).1) =~= singles(lines.take(0)));
    } else {
        let init = lines.drop_last();
        assert(inputs.drop_last() =~= timed(init, times));
        lemma_slow(now, init, times);
        lemma_session(now, timed(init, times));
        lemma_timed(init, times);
        let (s0, a0) = run(start, timed(init, times));
        let (s1, a1) = step(s0, inputs.last());
        assert(run(start, inputs) == (s1, a0 + a1));
        if s0.finished {
            assert(a0 + a1 =~= a0);
            assert(lines.take(capped(lines.len()) as int) =~= init.take(
                capped(init.len()) as int,
            ));
        } else {
            lemma_step_counts(s0, inputs.last());
            lemma_add(a0, a1);
            assert(arrives_late(now, times, n - 1));
            assert(s0.pending =~= Seq::<Seq<char>>::empty());
            assert(s0.pending.push(lines[n - 1]) =~= seq![lines[n - 1]]);
            assert(init.take(n - 1) =~= init);
            assert(lines.take(n) =~= lines);
            assert(singles(init) + seq![seq![lines[n - 1]]] =~= singles(lines));
        }
    }
}

/// What a session has done with lines that all arrive early.
proof fn lemma_fast(now: u64, lines: Seq<Seq<char>>, times: Seq<u64>)
    requires
        lines.len() <= times.len(),
        forall|i: int| 0 <= i < lines.len() ==> #[trigger] arrives_early(now, times, i),
    ensures
        ({
            let (s, actions) = run(StreamState::start(now), timed(lines, times));
            let sent = lines.take(capped(lines.len()) as int);
            &&& batches(actions) == full_batches(sent)
            &&& s.pending == remainder(sent)
            &&& !s.finished ==> now <= s.last_flush < now + FLUSH_INTERVAL_NANOS
        }),
    decreases lines.len(),
{
    let start = StreamState::start(now);
    let inputs = timed(lines, times);
    let n = lines.len() as int;
    if n == 0 {
        let sent = lines.take(0);
        assert(batches(run(start, inputs).1) =~= full_batches(sent));
        assert(start.pending =~= remainder(sent));
    } else {
        let init = lines.drop_last();
        assert(inputs.drop_last() =~= timed(init, times));
        lemma_fast(now, init, times);
        lemma_session(now, timed(init, times));
        lemma_timed(init, times);
        let (s0, a0) = run(start, timed(init, times));
        let (s1, a1) = step(s0, inputs.last());
        assert(run(start, inputs) == (s1, a0 + a1));
        if s0.finished {
            assert(a0 + a1 =~= a0);
            assert(lines.take(capped(lines.len()) as int) =~= init.take(
                capped(init.len()) as int,
            ));
        } else {
            lemma_step_counts(s0, inputs.last());
            lemma_add(a0, a1);
            assert(arrives_early(now, times, n - 1));
            assert(init.take(n - 1) =~= init);
            assert(lines.take(n) =~= lines);
            let k0 = (n - 1) / 1000;
            let pending = s0.pending.push(lines[n - 1]);
            assert(pending =~= lines.subrange(k0 * 1000, n));
            assert forall|i: int| 0 <= i < k0 implies #[trigger] batch_at(init, i) == batch_at(
                lines,
                i,
            ) by {
                assert(batch_at(init, i) =~= batch_at(lines, i));
            }
            if n % 1000 == 0 {
                assert(n / 1000 == k0 + 1);
                assert(full_batches(init).push(pending) =~= full_batches(lines));
                assert(full_batches(init) + seq![pending] =~= full_batches(init).push(pending));
                assert(s1.pending =~= remainder(lines));
            } else {
                assert(n / 1000 == k0);
                assert(full_batches(init) =~= full_batches(lines));
                assert(full_batches(init) + Seq::<Seq<Seq<char>>>::empty() =~= full_batches(
                    init,
                ));
                assert(s1.pending =~= remainder(lines));
            }
        }
    }
}

/// A slow producer: where every line arrives a flush interval or more after
/// the one before it, each line is emitted at once, in a batch of its own,
/// until the match cap is reached. The end of the output adds no batch.
pub proof fn law_slow_producer(now: u64, lines: Seq<Seq<char>>, times: Seq<u64>)
    requires
        lines.len() == times.len(),
        forall|i: int| 0 <= i < lines.len() ==> #[trigger] arrives_late(now, times, i),
    ensures
        batches(run(StreamState::start(now), timed(lines, times)).1) == singles(
            lines.take(capped(lines.len()) as int),
        ),
        batches(run(StreamState::start(now), timed(lines, times).push(InputView::Closed)).1)
            == singles(lines.take(capped(lines.len()) as int)),
{
    lemma_slow(now, lines, times);
    lemma_closing(now, lines, times);
}

/// A fast producer: where every line arrives less than a flush interval after
/// the start, the lines are emitted in batches of exactly `BATCH_LINES`, and
/// what is left of them when the output ends in one last batch. No line beyond
/// the match cap is emitted.
pub proof fn law_fast_producer(now: u64, lines: Seq<Seq<char>>, times: Seq<u64>)
    requires
        lines.len() == times.len(),
        forall|i: int| 0 <= i < lines.len() ==> #[trigger] arrives_early(now, times, i),
    ensures
        batches(run(StreamState::start(now), timed(lines, times)).1) == full_batches(
            lines.take(capped(lines.len()) as int),
        ),
        batches(run(StreamState::start(now), timed(lines, times).push(InputView::Closed)).1)
            == split(lines.take(capped(lines.len()) as int)),
{
    lemma_fast(now, lines, times);
    lemma_closing(now, lines, times);
}

/// What the end of the output adds to the batches of a session.
proof fn lemma_closing(now: u64, lines: Seq<Seq<char>>, times: Seq<u64>)
    ensures
        ({
            let (s, actions) = run(StreamState::start(now), timed(lines, times));
            let all = run(StreamState::start(now), timed(lines, times).push(InputView::Closed)).1;
            batches(all) == if s.pending.len() > 0 {
                batches(actions).push(s.pending)
            } else {
                batches(actions)
            }
        }),
{
    let start = StreamState::start(now);
    let inputs = timed(lines, times);
    let (s, actions) = run(start, inputs);
    let (end, last) = step(s, InputView::Closed);
    assert(inputs.push(InputView::Closed).drop_last() =~= inputs);
    assert(run(start, inputs.push(InputView::Closed)) == (end, actions + last));
    lemma_session(now, inputs);
    if s.finished {
        assert(actions + last =~= actions);
    } else {
        lemma_step_counts(s, InputView::Closed);
        lemma_add(actions, last);
        assert(batches(actions) + seq![s.pending] =~= batches(actions).push(s.pending));
        assert(batches(actions) + Seq::<Seq<Seq<char>>>::empty() =~= batches(actions));
    }
}

} // verus!
