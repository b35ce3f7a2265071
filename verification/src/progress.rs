//! Progress of a separation, reported to a listener that may cancel it.

use crate::fraction::Fraction;
use vstd::prelude::*;

verus! {

/// How far a separation has come.
#[derive(Debug, Clone, Copy, PartialEq, Eq, Structural)]
pub struct FfiSeparationProgress {
    pub fraction: Fraction,
    pub chunk_index: u64,
    pub total_chunks: u64,
}

/// Called from a background thread. Return `false` to cancel; cancellation
/// takes effect at the next chunk boundary (every ~7.8 s of audio), so audio
/// short enough to fit in one chunk always runs to completion.
pub trait FfiSeparationListener: Send + Sync {
    fn on_progress(&self, progress: FfiSeparationProgress) -> bool;
}

/// What the inference core announces during a forward pass. `Other` stands
/// for every announcement that says nothing about progress.
#[derive(Debug, Clone, Copy, PartialEq, Eq, Structural)]
pub enum ForwardEvent {
    ChunkStarted { index: usize, total: usize },
    StemDone { index: usize, total: usize },
    ChunkDone { index: usize, total: usize },
    Other,
}

impl ForwardEvent {
    /// The number of stems or chunks that the event says are done can be
    /// counted.
    pub open spec fn countable(self) -> bool {
        match self {
            ForwardEvent::StemDone { index, .. } => index < usize::MAX,
            ForwardEvent::ChunkDone { index, .. } => index < usize::MAX,
            _ => true,
        }
    }
}

/// The chunk a separation is in, and how many there are.
pub struct Position {
    pub chunk: usize,
    pub total_chunks: usize,
}

/// `n`, but at least one.
pub open spec fn at_least_one(n: usize) -> u64 {
    if n == 0 {
        1
    } else {
        n as u64
    }
}

impl Position {
    /// The position once `event` has been announced.
    pub open spec fn after(self, event: ForwardEvent) -> Position {
        match event {
            ForwardEvent::ChunkStarted { index, total } => Position {
                chunk: index,
                total_chunks: total,
            },
            ForwardEvent::ChunkDone { index, total } => Position {
                chunk: index,
                total_chunks: total,
            },
            _ => self,
        }
    }

    /// The report that `whole` chunks and `part` of `parts` of another are
    /// done.
    pub open spec fn progress(self, whole: u64, part: u64, parts: u64) -> FfiSeparationProgress {
        FfiSeparationProgress {
            fraction: Fraction { whole, part, parts, of: at_least_one(self.total_chunks) },
            chunk_index: self.chunk as u64,
            total_chunks: at_least_one(self.total_chunks),
        }
    }

    /// What the listener is told when `event` is announced, if anything: a
    /// finished stem counts as its share of the current chunk, a finished
    /// chunk as all of it.
    pub open spec fn report(self, event: ForwardEvent) -> Option<FfiSeparationProgress> {
        match event {
            ForwardEvent::StemDone { index, total } => Some(
                self.progress(self.chunk as u64, (index + 1) as u64, at_least_one(total)),
            ),
            ForwardEvent::ChunkDone { index, .. } => Some(
                self.after(event).progress((index + 1) as u64, 0, 1),
            ),
            _ => None,
        }
    }
}

/// Turns the core's forward-pass events into a single monotonic fraction.
pub struct ProgressBridge<L> {
    pub listener: L,
    pub chunk: usize,
    pub total_chunks: usize,
    pub cancelled: bool,
}

impl<L> ProgressBridge<L> {
    /// Where the separation stands.
    pub open spec fn position(self) -> Position {
        Position { chunk: self.chunk, total_chunks: self.total_chunks }
    }

    /// The report that `whole` chunks and `part` of `parts` of another are
    /// done.
    fn progress(&self, whole: usize, part: usize, parts: usize) -> (r: FfiSeparationProgress)
        ensures
            r == self.position().progress(whole as u64, part as u64, at_least_one(parts)),
    {
        let total: u64 = if self.total_chunks == 0 {
            1
        } else {
            self.total_chunks as u64
        };
        let parts: u64 = if parts == 0 {
            1
        } else {
            parts as u64
        };
        FfiSeparationProgress {
            fraction: Fraction { whole: whole as u64, part: part as u64, parts, of: total },
            chunk_index: self.chunk as u64,
            total_chunks: total,
        }
    }

    /// Takes note of `event` and says what the listener is to be told.
    pub fn advance(&mut self, event: ForwardEvent) -> (r: Option<FfiSeparationProgress>)
        requires
            event.countable(),
        ensures
            r == old(self).position().report(event),
            final(self).position() == old(self).position().after(event),
            final(self).cancelled == old(self).cancelled,
            final(self).listener == old(self).listener,
    {
        match event {
            ForwardEvent::ChunkStarted { index, total } => {
                self.chunk = index;
                self.total_chunks = total;
                None
            },
            ForwardEvent::StemDone { index, total } => {
                Some(self.progress(self.chunk, index + 1, total))
            },
            ForwardEvent::ChunkDone { index, total } => {
                self.chunk = index;
                self.total_chunks = total;
                Some(self.progress(index + 1, 0, 1))
            },
            ForwardEvent::Other => None,
        }
    }

    /// Takes note of the listener's reply: once it has refused to go on, the
    /// separation stays cancelled.
    pub fn heard(&mut self, proceed: bool)
        ensures
            final(self).cancelled == (old(self).cancelled || !proceed),
            final(self).position() == old(self).position(),
            final(self).listener == old(self).listener,
    {
        if !proceed {
            self.cancelled = true;
        }
    }

    /// Whether the listener has asked to stop.
    pub fn is_cancelled(&self) -> (r: bool)
        ensures
            r == self.cancelled,
    {
        self.cancelled
    }
}

impl<L: FfiSeparationListener> ProgressBridge<L> {
    /// Tells the listener about `progress` and takes note of its reply.
    pub fn report(&mut self, progress: FfiSeparationProgress)
        ensures
            exists|proceed: bool| #[trigger]
                call_ensures(L::on_progress, (&old(self).listener, progress), proceed)
                    && final(self).cancelled == (old(self).cancelled || !proceed),
            final(self).position() == old(self).position(),
            final(self).listener == old(self).listener,
    {
        let proceed = self.listener.on_progress(progress);
        assert(call_ensures(L::on_progress, (&self.listener, progress), proceed));
        self.heard(proceed);
    }

    /// Takes note of `event`, telling the listener about it where it means
    /// progress.
    pub fn on_event(&mut self, event: ForwardEvent)
        requires
            event.countable(),
        ensures
            match old(self).position().report(event) {
                Some(progress) => exists|proceed: bool| #[trigger]
                    call_ensures(L::on_progress, (&old(self).listener, progress), proceed)
                        && final(self).cancelled == (old(self).cancelled || !proceed),
                None => final(self).cancelled == old(self).cancelled,
            },
            final(self).position() == old(self).position().after(event),
            final(self).listener == old(self).listener,
    {
        match self.advance(event) {
            Some(progress) => self.report(progress),
            None => {},
        }
    }
}

/// The position after all of `events`.
pub open spec fn position_after(start: Position, events: Seq<ForwardEvent>) -> Position
    decreases events.len(),
{
    if events.len() == 0 {
        start
    } else {
        position_after(start, events.drop_last()).after(events.last())
    }
}

/// Everything the listener is told while `events` are announced, in order.
pub open spec fn reports(start: Position, events: Seq<ForwardEvent>) -> Seq<FfiSeparationProgress>
    decreases events.len(),
{
    if events.len() == 0 {
        Seq::empty()
    } else {
        let before = reports(start, events.drop_last());
        match position_after(start, events.drop_last()).report(events.last()) {
            Some(progress) => before.push(progress),
            None => before,
        }
    }
}

/// Where a forward pass over `total` chunks is.
pub enum Phase {
    /// `done` chunks are done and none is being worked on.
    Between { done: u64 },
    /// Chunk `chunk` is being worked on and `stems_done` of its `stems` stems
    /// are done. `stems` is zero until the first stem is.
    Inside { chunk: u64, stems_done: u64, stems: u64 },
}

impl Phase {
    /// A forward pass over `total` chunks that is in this phase can announce
    /// `event` next: chunks follow each other, and within a chunk so do
    /// stems.
    pub open spec fn allows(self, total: usize, event: ForwardEvent) -> bool {
        match (self, event) {
            (Phase::Between { done }, ForwardEvent::ChunkStarted { index, total: of }) => done
                <= index < total && of == total,
            (
                Phase::Inside { stems_done, stems, .. },
                ForwardEvent::StemDone { index, total: of },
            ) => stems_done <= index < of && (stems_done == 0 || of == stems),
            (Phase::Inside { chunk, .. }, ForwardEvent::ChunkDone { index, total: of }) => index
                == chunk && of == total,
            (_, ForwardEvent::Other) => true,
            _ => false,
        }
    }

    /// The phase once `event` has been announced.
    pub open spec fn after(self, event: ForwardEvent) -> Phase {
        match (self, event) {
            (_, ForwardEvent::ChunkStarted { index, .. }) => Phase::Inside {
                chunk: index as u64,
                stems_done: 0,
                stems: 0,
            },
            (Phase::Inside { chunk, .. }, ForwardEvent::StemDone { index, total }) => Phase::Inside {
                chunk,
                stems_done: (index + 1) as u64,
                stems: total as u64,
            },
            (_, ForwardEvent::ChunkDone { index, .. }) => Phase::Between {
                done: (index + 1) as u64,
            },
            _ => self,
        }
    }

    /// The share of `total` chunks that is done in this phase.
    pub open spec fn level(self, total: usize) -> Fraction {
        match self {
            Phase::Between { done } => Fraction {
                whole: done,
                part: 0,
                parts: 1,
                of: at_least_one(total),
            },
            Phase::Inside { chunk, stems_done, stems } => Fraction {
                whole: chunk,
                part: stems_done,
                parts: if stems == 0 {
                    1
                } else {
                    stems
                },
                of: at_least_one(total),
            },
        }
    }

    /// The counts are within their totals.
    pub open spec fn within(self, total: usize) -> bool {
        match self {
            Phase::Between { done } => done <= total,
            Phase::Inside { chunk, stems_done, stems } => chunk < total && stems_done <= stems,
        }
    }
}

/// The phase of a forward pass after all of `events`.
pub open spec fn phase_after(events: Seq<ForwardEvent>) -> Phase
    decreases events.len(),
{
    if events.len() == 0 {
        Phase::Between { done: 0 }
    } else {
        phase_after(events.drop_last()).after(events.last())
    }
}

/// `events` is the beginning of a forward pass over `total` chunks.
pub open spec fn in_order(total: usize, events: Seq<ForwardEvent>) -> bool
    decreases events.len(),
{
    events.len() > 0 ==> {
        &&& in_order(total, events.drop_last())
        &&& phase_after(events.drop_last()).allows(total, events.last())
    }
}

/// Within its totals, a phase is a fraction that needs no holding back.
proof fn level_is_exact(phase: Phase, total: usize)
    requires
        phase.within(total),
        total > 0,
    ensures
        phase.level(total).valid(),
        phase.level(total).numer() == phase.level(total).unclamped(),
{
    let f = phase.level(total);
    let (w, d, p, t) = (f.whole as int, f.part as int, f.parts as int, f.of as int);
    match phase {
        Phase::Between { done } => {},
        Phase::Inside { .. } => {
            assert(w * p + d <= p * t) by (nonlinear_arith)
                requires
                    w + 1 <= t,
                    0 <= d <= p,
                    0 <= w,
            ;
        },
    }
}

/// What is done never shrinks from one phase to the next.
proof fn level_grows(phase: Phase, total: usize, event: ForwardEvent)
    requires
        phase.within(total),
        total > 0,
        phase.allows(total, event),
    ensures
        phase.after(event).within(total),
        phase.level(total).at_most(phase.after(event).level(total)),
{
    let next = phase.after(event);
    level_is_exact(phase, total);
    level_is_exact(next, total);
    let (f, g) = (phase.level(total), next.level(total));
    let (w, d, p, t) = (f.whole as int, f.part as int, f.parts as int, f.of as int);
    let (v, e, q) = (g.whole as int, g.part as int, g.parts as int);
    assert((w * p + d) * (q * t) <= (v * q + e) * (p * t)) by {
        assert((w * p + d) * q <= (v * q + e) * p) by {
            if d == 0 {
                assert((w * p) * q <= (v * q + e) * p) by (nonlinear_arith)
                    requires
                        0 <= w <= v,
                        0 <= e,
                        0 < p,
                        0 < q,
                ;
            } else if v == w {
                assert(p == q);
                assert((w * p + d) * q <= (v * q + e) * p) by (nonlinear_arith)
                    requires
                        v == w,
                        p == q,
                        d <= e,
                        0 < p,
                ;
            } else {
                assert(v == w + 1 && d <= p);
                assert((w * p + d) * q <= (v * q + e) * p) by (nonlinear_arith)
                    requires
                        v == w + 1,
                        0 <= d <= p,
                        0 <= e,
                        0 < q,
                        0 < p,
                ;
            }
        }
        assert((w * p + d) * (q * t) <= (v * q + e) * (p * t)) by (nonlinear_arith)
            requires
                (w * p + d) * q <= (v * q + e) * p,
                t > 0,
        ;
    }
}

/// Each report of a forward pass is the share done in the phase it leads to,
/// and no earlier report says more.
proof fn reports_follow_the_level(total: usize, start: Position, events: Seq<ForwardEvent>)
    requires
        total > 0,
        in_order(total, events),
    ensures
        ({
            let phase = phase_after(events);
            let told = reports(start, events);
            &&& phase.within(total)
            &&& phase matches Phase::Inside { chunk, .. } ==> position_after(start, events) == (
            Position { chunk: chunk as usize, total_chunks: total })
            &&& forall|i: int|
                0 <= i < told.len() ==> (#[trigger] told[i]).fraction.valid()
                    && told[i].fraction.at_most(phase.level(total))
            &&& forall|i: int, j: int|
                0 <= i <= j < told.len() ==> (#[trigger] told[i]).fraction.at_most(
                    (#[trigger] told[j]).fraction,
                )
            &&& phase matches Phase::Between { done } ==> done > 0 ==> told.len() > 0
                && told.last().fraction == phase.level(total)
        }),
    decreases events.len(),
{
    if events.len() > 0 {
        let init = events.drop_last();
        let event = events.last();
        let phase = phase_after(init);
        let next = phase_after(events);
        let before = reports(start, init);
        let told = reports(start, events);
        reports_follow_the_level(total, start, init);
        level_grows(phase, total, event);
        level_is_exact(phase, total);
        level_is_exact(next, total);
        assert forall|i: int| 0 <= i < before.len() implies (#[trigger] before[i]).fraction.at_most(
            next.level(total),
        ) by {
            crate::fraction::at_most_is_transitive(
                before[i].fraction,
                phase.level(total),
                next.level(total),
            );
        }
        match position_after(start, init).report(event) {
            Some(progress) => {
                assert(progress.fraction == next.level(total));
                assert(told == before.push(progress));
                assert forall|i: int, j: int|
                    0 <= i <= j < told.len() implies (#[trigger] told[i]).fraction.at_most(
                    (#[trigger] told[j]).fraction,
                ) by {
                    if j < before.len() {
                        assert(told[i] == before[i] && told[j] == before[j]);
                    } else if i < before.len() {
                        assert(told[i] == before[i]);
                    }
                }
            },
            None => {
                assert(told == before);
            },
        }
    }
}

/// Over a forward pass the reported fractions never go down.
pub proof fn progress_is_monotonic(
    total: usize,
    start: Position,
    events: Seq<ForwardEvent>,
    i: int,
    j: int,
)
    requires
        total > 0,
        in_order(total, events),
        0 <= i <= j < reports(start, events).len(),
    ensures
        reports(start, events)[i].fraction.at_most(reports(start, events)[j].fraction),
{
    reports_follow_the_level(total, start, events);
}

/// Once a forward pass is over, the last fraction reported is one.
pub proof fn progress_reaches_one(total: usize, start: Position, events: Seq<ForwardEvent>)
    requires
        total > 0,
        in_order(total, events),
        phase_after(events) == (Phase::Between { done: total as u64 }),
    ensures
        reports(start, events).len() > 0,
        reports(start, events).last().fraction.complete(),
{
    reports_follow_the_level(total, start, events);
}

/// Whatever is announced, a reported fraction has no zero divisor and lies
/// between zero and one.
pub proof fn progress_is_a_fraction(start: Position, events: Seq<ForwardEvent>, i: int)
    requires
        0 <= i < reports(start, events).len(),
    ensures
        reports(start, events)[i].fraction.valid(),
        0 <= reports(start, events)[i].fraction.numer() <= reports(start, events)[i].fraction.denom(),
    decreases events.len(),
{
    let before = reports(start, events.drop_last());
    if i < before.len() {
        progress_is_a_fraction(start, events.drop_last(), i);
        assert(reports(start, events)[i] == before[i]);
    } else {
        crate::fraction::fraction_is_between_zero_and_one(reports(start, events)[i].fraction);
    }
}

/// Whether a separation is cancelled after the listener has given `replies`.
pub open spec fn cancelled_after(start: bool, replies: Seq<bool>) -> bool
    decreases replies.len(),
{
    if replies.len() == 0 {
        start
    } else {
        cancelled_after(start, replies.drop_last()) || !replies.last()
    }
}

/// A separation is cancelled exactly if the listener has refused to go on at
/// least once; agreeing later does not revive it.
pub proof fn one_refusal_cancels(replies: Seq<bool>)
    ensures
        cancelled_after(false, replies) <==> replies.contains(false),
    decreases replies.len(),
{
    if replies.len() > 0 {
        let init = replies.drop_last();
        one_refusal_cancels(init);
        assert(replies[replies.len() - 1] == replies.last());
        if init.contains(false) {
            let k = init.index_of(false);
            assert(replies[k] == false);
        }
        if replies.contains(false) {
            let k = replies.index_of(false);
            if k < init.len() {
                assert(init[k] == false);
            }
        }
    }
}

/// A finished stem is reported as its share of the current chunk: with chunk
/// `c` of `n` current, stem `index` of `stems` brings the reported number to
/// `(c + (index + 1) / stems) / n`, held to one. A total of zero counts as
/// one.
pub proof fn finished_stem_counts_as_its_share(position: Position, index: usize, stems: usize)
    requires
        index < usize::MAX,
    ensures
        ({
            let c = position.chunk as int;
            let s = if stems == 0 { 1int } else { stems as int };
            let n = if position.total_chunks == 0 { 1int } else { position.total_chunks as int };
            &&& position.report(ForwardEvent::StemDone { index, total: stems }) matches Some(told)
            &&& told.fraction.parts > 0 && told.fraction.of > 0
            &&& told.fraction.whole == c
            &&& told.fraction.part * s == (index + 1) * told.fraction.parts
            &&& told.fraction.of == n
            &&& told.fraction.numer() * (s * n) == (if c * s + index + 1 <= s * n {
                c * s + index + 1
            } else {
                s * n
            }) * told.fraction.denom()
            &&& told.chunk_index == c
            &&& told.total_chunks == n
        }),
{
}

/// A finished chunk is reported as all of it: chunk `index` of `n` brings the
/// reported number to `(index + 1) / n`, held to one.
pub proof fn finished_chunk_counts_in_full(position: Position, index: usize, total: usize)
    requires
        index < usize::MAX,
    ensures
        ({
            let n = if total == 0 { 1int } else { total as int };
            &&& position.report(ForwardEvent::ChunkDone { index, total }) matches Some(told)
            &&& told.fraction.parts > 0 && told.fraction.of > 0
            &&& told.fraction.whole == index + 1
            &&& told.fraction.part == 0
            &&& told.fraction.of == n
            &&& told.fraction.numer() * n == (if index + 1 <= n {
                index + 1
            } else {
                n
            }) * told.fraction.denom()
            &&& told.chunk_index == index
            &&& told.total_chunks == n
        }),
{
    let n = if total == 0 { 1int } else { total as int };
    let told = position.report(ForwardEvent::ChunkDone { index, total })->0;
    let f = told.fraction;
    let (w, p, o) = (f.whole as int, f.parts as int, f.of as int);
    assert(f.denom() == n * p) by (nonlinear_arith)
        requires
            f.denom() == p * o,
            o == n,
    ;
}

/// The listener is told of a finished stem or chunk and of nothing else.
pub proof fn only_finished_work_is_reported(position: Position, event: ForwardEvent)
    ensures
        position.report(event) is Some <==> event is StemDone || event is ChunkDone,
{
}

/// The position is that of the chunk last started or finished; a finished
/// stem does not change it.
pub proof fn position_is_the_last_announced(
    start: Position,
    events: Seq<ForwardEvent>,
    n: int,
    index: usize,
    total: usize,
)
    requires
        0 <= n < events.len(),
        events[n] == (ForwardEvent::ChunkStarted { index, total }) || events[n] == (
        ForwardEvent::ChunkDone { index, total }),
        forall|k: int|
            n < k < events.len() ==> (#[trigger] events[k] is StemDone || events[k] is Other),
    ensures
        position_after(start, events).chunk == index,
        position_after(start, events).total_chunks == total,
    decreases events.len(),
{
    if n < events.len() - 1 {
        let init = events.drop_last();
        assert forall|k: int| n < k < init.len() implies (#[trigger] init[k] is StemDone
            || init[k] is Other) by {
            assert(events[k] == init[k]);
        }
        position_is_the_last_announced(start, init, n, index, total);
        assert(events[events.len() - 1] == events.last());
    }
}

/// Once chunk `chunk` of `chunks` has started, stem `index` of `stems`
/// finishing is told to the listener as `(chunk + (index + 1) / stems) /
/// chunks`, after everything that it was told before.
pub proof fn stem_is_reported_in_its_chunk(
    start: Position,
    events: Seq<ForwardEvent>,
    n: int,
    chunk: usize,
    chunks: usize,
    index: usize,
    stems: usize,
)
    requires
        0 <= n < events.len(),
        chunk < chunks,
        index < stems,
        events[n] == (ForwardEvent::ChunkStarted { index: chunk, total: chunks }),
        forall|k: int|
            n < k < events.len() ==> (#[trigger] events[k] is StemDone || events[k] is Other),
    ensures
        ({
            let told = reports(start, events.push(ForwardEvent::StemDone { index, total: stems }));
            let f = told.last().fraction;
            &&& told == reports(start, events).push(told.last())
            &&& f.valid()
            &&& f.numer() * (stems * chunks) == (chunk * stems + index + 1) * f.denom()
            &&& told.last().chunk_index == chunk
            &&& told.last().total_chunks == chunks
        }),
{
    let event = ForwardEvent::StemDone { index, total: stems };
    let more = events.push(event);
    assert(more.drop_last() =~= events);
    assert(more.last() == event);
    position_is_the_last_announced(start, events, n, chunk, chunks);
    finished_stem_counts_as_its_share(position_after(start, events), index, stems);
    let (c, s, m, i) = (chunk as int, stems as int, chunks as int, index as int);
    assert(c * s + i + 1 <= s * m) by (nonlinear_arith)
        requires
            c + 1 <= m,
            0 <= i < s,
            0 <= c,
    ;
    assert(s * m == stems * chunks);
    let told = reports(start, more);
    assert(told.last() == position_after(start, events).report(event)->0);
}

/// The listener is told as often as stems and chunks finish.
pub proof fn every_finish_is_reported(start: Position, events: Seq<ForwardEvent>)
    ensures
        reports(start, events).len() == events.filter(
            |event: ForwardEvent| event is StemDone || event is ChunkDone,
        ).len(),
    decreases events.len(),
{
    reveal_with_fuel(Seq::filter, 1);
    reveal(Seq::filter);
    if events.len() > 0 {
        every_finish_is_reported(start, events.drop_last());
    }
}

/// Over a forward pass each report is exactly the share of all the work that
/// is done by then.
pub proof fn each_report_is_the_share_done(
    total: usize,
    start: Position,
    events: Seq<ForwardEvent>,
    event: ForwardEvent,
)
    requires
        total > 0,
        in_order(total, events.push(event)),
        event is StemDone || event is ChunkDone,
    ensures
        ({
            let told = reports(start, events.push(event));
            let f = told.last().fraction;
            &&& told == reports(start, events).push(told.last())
            &&& f.valid()
            &&& match phase_after(events.push(event)) {
                Phase::Between { done } => f.numer() * total == done * f.denom(),
                Phase::Inside { chunk, stems_done, stems } => stems > 0 && f.numer() * (stems
                    * total) == (chunk * stems + stems_done) * f.denom(),
            }
        }),
{
    let more = events.push(event);
    assert(more.drop_last() =~= events);
    assert(more.last() == event);
    reports_follow_the_level(total, start, events);
    reports_follow_the_level(total, start, more);
    level_is_exact(phase_after(more), total);
    let told = reports(start, more);
    let f = told.last().fraction;
    assert(f == phase_after(more).level(total));
    match phase_after(more) {
        Phase::Between { done } => {
            let (w, p, o) = (f.whole as int, f.parts as int, f.of as int);
            assert(w * p == w && p * o == o) by (nonlinear_arith)
                requires
                    p == 1,
            ;
            assert(f.numer() == done && f.denom() == total);
        },
        Phase::Inside { chunk, stems_done, stems } => {
            assert(f.numer() * (stems * total) == (chunk * stems + stems_done) * f.denom());
        },
    }
}

/// What a forward pass announces is what its phase counts: a started chunk
/// has no stem done, a finished stem is one more than its index, and a
/// finished chunk is one more than its index.
pub proof fn phases_count_what_is_announced(events: Seq<ForwardEvent>, event: ForwardEvent)
    requires
        event.countable(),
    ensures
        ({
            let before = phase_after(events);
            let after = phase_after(events.push(event));
            &&& event matches ForwardEvent::ChunkStarted { index, .. } ==> (
            after matches Phase::Inside { chunk, stems_done, .. } && chunk == index && stems_done
                == 0)
            &&& event matches ForwardEvent::StemDone { index, total } ==> (
            before matches Phase::Inside { chunk: c, .. } ==> (
            after matches Phase::Inside { chunk, stems_done, stems } && chunk == c && stems_done
                == index + 1 && stems == total))
            &&& event matches ForwardEvent::ChunkDone { index, .. } ==> (
            after matches Phase::Between { done } && done == index + 1)
            &&& event is Other ==> after == before
        }),
{
    assert(events.push(event).drop_last() =~= events);
}

/// An event can be taken note of unless the count of what it says is done
/// would be more than `usize` can express.
pub proof fn events_are_taken_unless_they_overflow(event: ForwardEvent)
    ensures
        !event.countable() <==> {
            ||| event matches ForwardEvent::StemDone { index, .. } && index == usize::MAX
            ||| event matches ForwardEvent::ChunkDone { index, .. } && index == usize::MAX
        },
{
}

/// A bridge stands where its counters say.
pub proof fn bridge_stands_where_it_says<L>(bridge: ProgressBridge<L>)
    ensures
        bridge.position().chunk == bridge.chunk,
        bridge.position().total_chunks == bridge.total_chunks,
{
}

} // verus!
