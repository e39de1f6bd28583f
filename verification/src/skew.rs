//! The skew meter: pairs the pulses that two boards report and keeps the
//! statistics of how far their server times differ.

use std::collections::VecDeque;

use vstd::prelude::*;

use crate::arith::i128_from_u128;
use crate::pulse_log::{Event, EventView};
use crate::stats::{DirStats, StatsState};

verus! {

/// Time between two prints of the statistics.
pub const PRINT_EVERY_NS: u128 = 1_000_000_000;

/// Longest wait for an event.
pub const MAX_WAIT_NS: u128 = 500_000_000;

/// How long to wait for the next event, given how much of the run is left, or
/// `None` when the run is over.
pub fn next_wait(remaining_ns: u128) -> (wait_ns: Option<u128>)
    ensures
        wait_ns == (if remaining_ns == 0 {
            None
        } else if remaining_ns < MAX_WAIT_NS {
            Some(remaining_ns)
        } else {
            Some(MAX_WAIT_NS)
        }),
{
    if remaining_ns == 0 {
        None
    } else if remaining_ns < MAX_WAIT_NS {
        Some(remaining_ns)
    } else {
        Some(MAX_WAIT_NS)
    }
}

/// Captured minus sent time of a pair.
pub open spec fn pair_delta(rx_ns: nat, tx_ns: u128) -> int {
    crate::arith::as_i128(rx_ns as int) - crate::arith::as_i128(tx_ns as int)
}

/// Whether a sent pulse is within the window of a captured one.
pub open spec fn in_window(rx_ns: nat, tx_ns: u128, window_ns: nat) -> bool {
    crate::arith::abs_int(pair_delta(rx_ns, tx_ns)) <= window_ns
}

/// Whether `i` is the first of the sent pulses within the window that is
/// nearest to the captured one.
pub open spec fn is_nearest(sent: Seq<u128>, rx_ns: nat, window_ns: nat, i: int) -> bool {
    &&& 0 <= i < sent.len()
    &&& in_window(rx_ns, sent[i], window_ns)
    &&& forall|j: int|
        0 <= j < sent.len() && in_window(rx_ns, #[trigger] sent[j], window_ns)
            ==> crate::arith::abs_int(pair_delta(rx_ns, sent[i])) <= crate::arith::abs_int(
            pair_delta(rx_ns, sent[j]),
        )
    &&& forall|j: int|
        0 <= j < i && in_window(rx_ns, #[trigger] sent[j], window_ns) ==> crate::arith::abs_int(
            pair_delta(rx_ns, sent[i]),
        ) < crate::arith::abs_int(pair_delta(rx_ns, sent[j]))
}

/// The difference to the nearest sent pulse, if one is within the window.
pub open spec fn nearest_delta(sent: Seq<u128>, rx_ns: nat, window_ns: nat) -> Option<i128> {
    if exists|i: int| is_nearest(sent, rx_ns, window_ns, i) {
        Some(
            pair_delta(rx_ns, sent[choose|i: int| is_nearest(sent, rx_ns, window_ns, i)]) as i128,
        )
    } else {
        None
    }
}

/// A history without the entries at its front that are before `cutoff`.
pub open spec fn without_stale(sent: Seq<u128>, cutoff: int) -> Seq<u128>
    decreases sent.len(),
{
    if sent.len() > 0 && sent[0] < cutoff {
        without_stale(sent.skip(1), cutoff)
    } else {
        sent
    }
}

/// What a meter holds. Entry `d` of each sequence belongs to the pulses that
/// board `d` sent.
#[verifier::ext_equal]
pub struct MeterState {
    pub window_ns: nat,
    /// Server times of the sent pulses that may still be paired.
    pub sent: Seq<Seq<u128>>,
    pub stats: Seq<StatsState>,
}

impl MeterState {
    /// A meter with the given window that has seen nothing yet.
    pub open spec fn fresh(window_ns: nat) -> MeterState {
        MeterState {
            window_ns,
            sent: seq![Seq::empty(), Seq::empty()],
            stats: seq![StatsState::empty(), StatsState::empty()],
        }
    }

    /// There are two boards, and their statistics keep their invariants.
    pub open spec fn valid(self) -> bool {
        &&& self.sent.len() == 2
        &&& self.stats.len() == 2
        &&& self.stats[0].valid()
        &&& self.stats[1].valid()
        &&& self.window_ns <= 1_000_000 * u64::MAX
    }

    /// Whether an event can be taken in: it is of one of the two boards, and
    /// the differences and sums are representable.
    pub open spec fn accepts(self, event: EventView) -> bool {
        match event {
            EventView::Tx { device, .. } => device < 2,
            EventView::Rx { device, synced_ns, .. } => {
                let other = 1 - device;
                &&& device < 2
                &&& forall|i: int|
                    0 <= i < self.sent[other].len() ==> crate::arith::fits_i128(
                        pair_delta(synced_ns, #[trigger] self.sent[other][i]),
                    )
                &&& match nearest_delta(self.sent[other], synced_ns, self.window_ns) {
                    Some(d) => self.stats[other].accepts(d),
                    None => true,
                }
            },
        }
    }

    /// The state after an event. A sent pulse joins its board's history, which
    /// forgets what is more than four windows older. A captured pulse is
    /// paired with the nearest sent one of the other board.
    pub open spec fn after(self, event: EventView) -> MeterState {
        match event {
            EventView::Tx { device, synced_ns, .. } => MeterState {
                sent: self.sent.update(
                    device as int,
                    without_stale(
                        self.sent[device as int].push(synced_ns as u128),
                        synced_ns - 4 * self.window_ns,
                    ),
                ),
                ..self
            },
            EventView::Rx { device, synced_ns, .. } => {
                let other = 1 - device;
                match nearest_delta(self.sent[other], synced_ns, self.window_ns) {
                    Some(d) => MeterState {
                        stats: self.stats.update(other, self.stats[other].record(d)),
                        ..self
                    },
                    None => self,
                }
            },
        }
    }

    /// Whether the statistics are to be looked at after an event: after a
    /// captured pulse, if the other board has sent any.
    pub open spec fn prints_after(self, event: EventView) -> bool {
        match event {
            EventView::Tx { .. } => false,
            EventView::Rx { device, .. } => self.sent[1 - device].len() > 0,
        }
    }

    /// Whether a recorded difference exceeds a limit.
    pub open spec fn overshoots(self, limit_us: u64) -> bool {
        exists|d: int| 0 <= d < 2 && (#[trigger] self.stats[d]).max_abs_us > limit_us
    }
}

/// The name of a direction in the running output.
pub open spec fn short_label(d: int) -> Seq<char> {
    if d == 0 {
        "0→1"@
    } else {
        "1→0"@
    }
}

/// The name of a direction in the final output.
pub open spec fn long_label(d: int) -> Seq<char> {
    if d == 0 {
        "device 0 → device 1"@
    } else {
        "device 1 → device 0"@
    }
}

/// The running line about one direction, if it has any pairs.
pub open spec fn running_lines(st: StatsState, d: int, limit_us: u64, stddev_us: u64) -> Seq<
    Seq<char>,
> {
    if st.n == 0 {
        Seq::empty()
    } else {
        seq![
            crate::stats::stats_line(
                (if st.max_abs_us <= limit_us {
                    "OK  "@
                } else {
                    "!!  "@
                }) + short_label(d),
                st,
                stddev_us,
            ),
        ]
    }
}

/// The final line about one direction.
pub open spec fn final_line(st: StatsState, d: int, stddev_us: u64) -> Seq<char> {
    if st.n == 0 {
        long_label(d) + ": no matched events"@
    } else {
        crate::stats::stats_line(long_label(d), st, stddev_us)
    }
}

/// The texts of a list of strings.
pub open spec fn texts(v: Seq<String>) -> Seq<Seq<char>> {
    Seq::new(v.len(), |i: int| v[i]@)
}

proof fn lemma_nearest(sent: Seq<u128>, rx_ns: nat, window_ns: nat, i: int)
    requires
        is_nearest(sent, rx_ns, window_ns, i),
    ensures
        nearest_delta(sent, rx_ns, window_ns) == Some(pair_delta(rx_ns, sent[i]) as i128),
{
    let k = choose|k: int| is_nearest(sent, rx_ns, window_ns, k);
    assert(is_nearest(sent, rx_ns, window_ns, k));
    assert(in_window(rx_ns, sent[i], window_ns) && in_window(rx_ns, sent[k], window_ns));
    assert(k == i);
}

/// Which direction a pair belongs to: that of the sending board.
pub fn direction_idx(tx_dev: usize, _rx_dev: usize) -> (d: usize)
    ensures
        d == tx_dev,
{
    tx_dev
}

/// What a search for the nearest sent pulse found.
enum Search {
    Overflow,
    Nothing,
    Nearest(i128),
}

/// Magnitude of a difference.
fn magnitude(d: i128) -> (m: u128)
    ensures
        m == crate::arith::abs_int(d as int),
{
    if d == i128::MIN {
        0x8000_0000_0000_0000_0000_0000_0000_0000u128
    } else if d < 0 {
        (-d) as u128
    } else {
        d as u128
    }
}

/// Finds the nearest sent pulse.
fn find_nearest(sent: &VecDeque<u128>, rx_ns: u128, window_ns: u128) -> (r: Search)
    ensures
        ({
            let fits = forall|i: int|
                0 <= i < sent@.len() ==> crate::arith::fits_i128(
                    pair_delta(rx_ns as nat, #[trigger] sent@[i]),
                );
            match r {
                Search::Overflow => !fits,
                Search::Nothing => fits && nearest_delta(sent@, rx_ns as nat, window_ns as nat)
                    is None,
                Search::Nearest(d) => fits && nearest_delta(sent@, rx_ns as nat, window_ns as nat)
                    == Some(d),
            }
        }),
{
    let rx: i128 = i128_from_u128(rx_ns);
    let mut best: Option<i128> = None;
    let ghost mut best_at: int = 0;
    let mut i: usize = 0;
    while i < sent.len()
        invariant
            rx == crate::arith::as_i128(rx_ns as int),
            i <= sent@.len(),
            forall|k: int|
                0 <= k < i ==> crate::arith::fits_i128(
                    pair_delta(rx_ns as nat, #[trigger] sent@[k]),
                ),
            best is None ==> forall|k: int|
                0 <= k < i ==> !in_window(rx_ns as nat, #[trigger] sent@[k], window_ns as nat),
            best is Some ==> {
                &&& is_nearest(sent@.take(i as int), rx_ns as nat, window_ns as nat, best_at)
                &&& best->0 == pair_delta(rx_ns as nat, sent@[best_at])
            },
        decreases sent@.len() - i,
    {
        let ghost cut = sent@.take(i as int);
        let ghost next = sent@.take(i + 1);
        assert(forall|j: int| 0 <= j < i ==> #[trigger] next[j] == cut[j]);
        assert(next[i as int] == sent@[i as int]);
        let d: i128 = match rx.checked_sub(i128_from_u128(sent[i])) {
            Some(d) => d,
            None => {
                assert(!crate::arith::fits_i128(pair_delta(rx_ns as nat, sent@[i as int])));
                return Search::Overflow;
            },
        };
        let nearer: bool = match best {
            Some(b) => magnitude(d) < magnitude(b),
            None => true,
        };
        if magnitude(d) <= window_ns && nearer {
            best = Some(d);
            proof {
                best_at = i as int;
                assert(is_nearest(next, rx_ns as nat, window_ns as nat, best_at)) by {
                    assert forall|j: int|
                        0 <= j < i && in_window(
                            rx_ns as nat,
                            #[trigger] next[j],
                            window_ns as nat,
                        ) implies crate::arith::abs_int(pair_delta(rx_ns as nat, next[best_at]))
                        < crate::arith::abs_int(pair_delta(rx_ns as nat, next[j])) by {
                        assert(in_window(rx_ns as nat, cut[j], window_ns as nat));
                        assert(in_window(rx_ns as nat, sent@[j], window_ns as nat));
                    }
                }
            }
        }
        i = i + 1;
    }
    assert(sent@.take(i as int) =~= sent@);
    match best {
        Some(d) => {
            proof {
                lemma_nearest(sent@, rx_ns as nat, window_ns as nat, best_at);
            }
            Search::Nearest(d)
        },
        None => {
            assert forall|k: int| !is_nearest(sent@, rx_ns as nat, window_ns as nat, k) by {
                if 0 <= k < sent@.len() {
                    assert(!in_window(rx_ns as nat, sent@[k], window_ns as nat));
                }
            }
            Search::Nothing
        },
    }
}

/// Drops the entries at the front of a history that are before `cutoff`.
fn drop_stale(sent: &mut VecDeque<u128>, cutoff: u128)
    ensures
        final(sent)@ == without_stale(old(sent)@, cutoff as int),
{
    while sent.len() > 0 && sent[0] < cutoff
        invariant
            without_stale(sent@, cutoff as int) == without_stale(old(sent)@, cutoff as int),
        decreases sent@.len(),
    {
        let ghost before = sent@;
        let _stale = sent.pop_front();
        assert(sent@ =~= before.skip(1));
    }
}

/// Pairs the pulses of two boards.
#[derive(Debug)]
pub struct SkewMeter {
    window_ns: u128,
    sent_by_0: VecDeque<u128>,
    sent_by_1: VecDeque<u128>,
    from_0: DirStats,
    from_1: DirStats,
}

impl View for SkewMeter {
    type V = MeterState;

    closed spec fn view(&self) -> MeterState {
        MeterState {
            window_ns: self.window_ns as nat,
            sent: seq![self.sent_by_0@, self.sent_by_1@],
            stats: seq![self.from_0@, self.from_1@],
        }
    }
}

impl SkewMeter {
    /// The invariant of the meter.
    pub open spec fn wf(&self) -> bool {
        self@.valid()
    }

    /// A meter that pairs pulses up to `match_window_ms` apart.
    pub fn new(match_window_ms: u64) -> (m: Self)
        ensures
            m.wf(),
            m@ == MeterState::fresh((1_000_000 * match_window_ms) as nat),
    {
        let m = SkewMeter {
            window_ns: (match_window_ms as u128) * 1_000_000,
            sent_by_0: VecDeque::new(),
            sent_by_1: VecDeque::new(),
            from_0: DirStats::default(),
            from_1: DirStats::default(),
        };
        assert(m@ =~= MeterState::fresh((1_000_000 * match_window_ms) as nat));
        m
    }

    /// The times of the pulses that a board sent.
    fn sent_by(&self, device: usize) -> (q: &VecDeque<u128>)
        requires
            device < 2,
        ensures
            q@ == self@.sent[device as int],
    {
        if device == 0 {
            &self.sent_by_0
        } else {
            &self.sent_by_1
        }
    }

    /// Whether an event can be taken in.
    pub fn can_take(&self, event: &Event) -> (b: bool)
        requires
            self.wf(),
        ensures
            b == self@.accepts(event@),
    {
        match event {
            Event::Tx { device, .. } => *device < 2,
            Event::Rx { device, synced_ns, .. } => {
                if *device >= 2 {
                    return false;
                }
                let other: usize = 1 - *device;
                match find_nearest(self.sent_by(other), *synced_ns, self.window_ns) {
                    Search::Overflow => false,
                    Search::Nothing => true,
                    Search::Nearest(d) => self.stats(direction_idx(other, *device)).can_record(d),
                }
            },
        }
    }

    /// Takes in an event; tells whether the statistics are to be looked at.
    pub fn take(&mut self, event: &Event, limit_ns: i128) -> (look: bool)
        requires
            old(self).wf(),
            old(self)@.accepts(event@),
        ensures
            final(self).wf(),
            final(self)@ == old(self)@.after(event@),
            look == old(self)@.prints_after(event@),
    {
        match event {
            Event::Tx { device, synced_ns, .. } => {
                let four: u128 = self.window_ns * 4;
                let cutoff: u128 = synced_ns.saturating_sub(four);
                if *device == 0 {
                    self.sent_by_0.push_back(*synced_ns);
                    proof {
                        lemma_cutoff_at_zero(self.sent_by_0@, synced_ns - four);
                    }
                    drop_stale(&mut self.sent_by_0, cutoff);
                } else {
                    self.sent_by_1.push_back(*synced_ns);
                    proof {
                        lemma_cutoff_at_zero(self.sent_by_1@, synced_ns - four);
                    }
                    drop_stale(&mut self.sent_by_1, cutoff);
                }
                assert(self@ =~= old(self)@.after(event@));
                false
            },
            Event::Rx { device, synced_ns, .. } => {
                let other: usize = 1 - *device;
                let sent: &VecDeque<u128> = self.sent_by(other);
                if sent.len() == 0 {
                    assert(sent@ =~= Seq::<u128>::empty());
                    return false;
                }
                if let Search::Nearest(d) = find_nearest(sent, *synced_ns, self.window_ns) {
                    if direction_idx(other, *device) == 0 {
                        self.from_0.record(d, limit_ns);
                    } else {
                        self.from_1.record(d, limit_ns);
                    }
                }
                assert(self@ =~= old(self)@.after(event@));
                true
            },
        }
    }

    /// The statistics of the pulses that a board sent.
    pub fn stats(&self, tx_dev: usize) -> (s: &DirStats)
        requires
            self.wf(),
            tx_dev < 2,
        ensures
            s@ == self@.stats[tx_dev as int],
    {
        if tx_dev == 0 {
            &self.from_0
        } else {
            &self.from_1
        }
    }

    /// Whether a recorded difference exceeded the limit.
    pub fn overshoot(&self, limit_us: u64) -> (b: bool)
        requires
            self.wf(),
        ensures
            b == self@.overshoots(limit_us),
    {
        let b: bool = self.from_0.max_abs_us() > limit_us || self.from_1.max_abs_us() > limit_us;
        assert(self@.stats[0] == self.from_0@ && self@.stats[1] == self.from_1@);
        b
    }

    /// The lines to print, given the time since the last print and the
    /// standard deviations, or `None` if it is too early to print.
    pub fn maybe_print_stats(&self, elapsed_ns: u128, limit_us: u64, stddev_us: [u64; 2]) -> (r: Option<
        Vec<String>,
    >)
        requires
            self.wf(),
        ensures
            match r {
                None => elapsed_ns < PRINT_EVERY_NS,
                Some(lines) => elapsed_ns >= PRINT_EVERY_NS && texts(lines@) == running_lines(
                    self@.stats[0],
                    0,
                    limit_us,
                    stddev_us@[0],
                ) + running_lines(self@.stats[1], 1, limit_us, stddev_us@[1]),
            },
    {
        if elapsed_ns < PRINT_EVERY_NS {
            return None;
        }
        let mut lines: Vec<String> = Vec::new();
        assert(texts(lines@) =~= Seq::<Seq<char>>::empty());
        push_running_line(&mut lines, &self.from_0, "0→1", limit_us, stddev_us[0], Ghost(0));
        push_running_line(&mut lines, &self.from_1, "1→0", limit_us, stddev_us[1], Ghost(1));
        assert(texts(lines@) =~= running_lines(self@.stats[0], 0, limit_us, stddev_us@[0])
            + running_lines(self@.stats[1], 1, limit_us, stddev_us@[1]));
        Some(lines)
    }

    /// The two lines to print at the end, given the standard deviations.
    pub fn final_lines(&self, stddev_us: [u64; 2]) -> (lines: Vec<String>)
        requires
            self.wf(),
        ensures
            texts(lines@) == seq![
                final_line(self@.stats[0], 0, stddev_us@[0]),
                final_line(self@.stats[1], 1, stddev_us@[1]),
            ],
    {
        let first: String = final_text(&self.from_0, "device 0 → device 1", stddev_us[0], Ghost(0));
        let second: String = final_text(&self.from_1, "device 1 → device 0", stddev_us[1], Ghost(1));
        let mut lines: Vec<String> = Vec::new();
        lines.push(first);
        lines.push(second);
        assert(texts(lines@) =~= seq![
            final_line(self@.stats[0], 0, stddev_us@[0]),
            final_line(self@.stats[1], 1, stddev_us@[1]),
        ]);
        lines
    }
}

/// Appends the running line about one direction, if it has any pairs.
fn push_running_line(
    lines: &mut Vec<String>,
    stats: &DirStats,
    label: &str,
    limit_us: u64,
    stddev_us: u64,
    Ghost(d): Ghost<int>,
)
    requires
        label@ == short_label(d),
    ensures
        texts(final(lines)@) == texts(old(lines)@) + running_lines(
            stats@,
            d,
            limit_us,
            stddev_us,
        ),
{
    if stats.count() == 0 {
        assert(texts(lines@) =~= texts(old(lines)@) + running_lines(stats@, d, limit_us, stddev_us));
        return ;
    }
    let mut full: String = String::new();
    if stats.max_abs_us() <= limit_us {
        full.append("OK  ");
    } else {
        full.append("!!  ");
    }
    full.append(label);
    proof {
        assert(full@ =~= (if stats@.max_abs_us <= limit_us {
            "OK  "@
        } else {
            "!!  "@
        }) + short_label(d));
    }
    let line: String = stats.format(full.as_str(), stddev_us);
    lines.push(line);
    assert(texts(lines@) =~= texts(old(lines)@) + running_lines(stats@, d, limit_us, stddev_us));
}

/// The final line about one direction.
fn final_text(stats: &DirStats, label: &str, stddev_us: u64, Ghost(d): Ghost<int>) -> (line: String)
    requires
        label@ == long_label(d),
    ensures
        line@ == final_line(stats@, d, stddev_us),
{
    if stats.count() == 0 {
        let mut line: String = String::new();
        line.append(label);
        line.append(": no matched events");
        assert(line@ =~= long_label(d) + ": no matched events"@);
        line
    } else {
        stats.format(label, stddev_us)
    }
}

/// Nothing is before a cutoff at or below zero.
proof fn lemma_cutoff_at_zero(sent: Seq<u128>, cutoff: int)
    ensures
        cutoff <= 0 ==> without_stale(sent, cutoff) == without_stale(sent, 0),
{
}

/// What is recorded of a pair is never more than the window.
pub proof fn law_pairs_lie_within_the_window(sent: Seq<u128>, rx_ns: u128, window_ns: nat)
    requires
        window_ns <= 1_000_000 * u64::MAX,
    ensures
        nearest_delta(sent, rx_ns as nat, window_ns) is Some ==> -window_ns <= nearest_delta(
            sent,
            rx_ns as nat,
            window_ns,
        )->0 <= window_ns,
{
}

/// A captured pulse is paired exactly when a sent one is within the window,
/// and no sent one is nearer than the one that it is paired with.
pub proof fn law_pairing_finds_the_nearest(sent: Seq<u128>, rx_ns: u128, window_ns: nat, j: int)
    requires
        window_ns <= 1_000_000 * u64::MAX,
        0 <= j < sent.len(),
        in_window(rx_ns as nat, sent[j], window_ns),
    ensures
        nearest_delta(sent, rx_ns as nat, window_ns) is Some,
        crate::arith::abs_int(nearest_delta(sent, rx_ns as nat, window_ns)->0 as int)
            <= crate::arith::abs_int(pair_delta(rx_ns as nat, sent[j])),
{
    let i = lemma_nearest_exists(sent, rx_ns as nat, window_ns, j);
    lemma_nearest(sent, rx_ns as nat, window_ns, i);
    assert(in_window(rx_ns as nat, sent[i], window_ns));
}

proof fn lemma_nearest_exists(sent: Seq<u128>, rx_ns: nat, window_ns: nat, j: int) -> (i: int)
    requires
        0 <= j < sent.len(),
        in_window(rx_ns, sent[j], window_ns),
    ensures
        is_nearest(sent, rx_ns, window_ns, i),
    decreases sent.len(),
{
    let front = sent.drop_last();
    let last = sent.len() - 1;
    assert(forall|k: int| 0 <= k < last ==> #[trigger] sent[k] == front[k]);
    if exists|k: int| 0 <= k < last && in_window(rx_ns, #[trigger] front[k], window_ns) {
        let k = choose|k: int| 0 <= k < last && in_window(rx_ns, #[trigger] front[k], window_ns);
        let i = lemma_nearest_exists(front, rx_ns, window_ns, k);
        if in_window(rx_ns, sent[last], window_ns) && crate::arith::abs_int(
            pair_delta(rx_ns, sent[last]),
        ) < crate::arith::abs_int(pair_delta(rx_ns, sent[i])) {
            assert forall|m: int|
                0 <= m < last && in_window(
                    rx_ns,
                    #[trigger] sent[m],
                    window_ns,
                ) implies crate::arith::abs_int(pair_delta(rx_ns, sent[last]))
                < crate::arith::abs_int(pair_delta(rx_ns, sent[m])) by {
                assert(in_window(rx_ns, front[m], window_ns));
            }
            last
        } else {
            assert forall|m: int|
                0 <= m < sent.len() && in_window(
                    rx_ns,
                    #[trigger] sent[m],
                    window_ns,
                ) implies crate::arith::abs_int(pair_delta(rx_ns, sent[i]))
                <= crate::arith::abs_int(pair_delta(rx_ns, sent[m])) by {
                if m < last {
                    assert(in_window(rx_ns, front[m], window_ns));
                }
            }
            assert forall|m: int|
                0 <= m < i && in_window(
                    rx_ns,
                    #[trigger] sent[m],
                    window_ns,
                ) implies crate::arith::abs_int(pair_delta(rx_ns, sent[i]))
                < crate::arith::abs_int(pair_delta(rx_ns, sent[m])) by {
                assert(in_window(rx_ns, front[m], window_ns));
            }
            i
        }
    } else {
        assert forall|m: int| 0 <= m < last implies !in_window(
            rx_ns,
            #[trigger] sent[m],
            window_ns,
        ) by {
            assert(!in_window(rx_ns, front[m], window_ns));
        }
        last
    }
}

/// A pulse that was just sent stays in the history.
pub proof fn law_latest_pulse_is_kept(sent: Seq<u128>, synced_ns: u128, window_ns: nat)
    ensures
        without_stale(sent.push(synced_ns), synced_ns - 4 * window_ns).len() > 0,
        without_stale(sent.push(synced_ns), synced_ns - 4 * window_ns).last() == synced_ns,
    decreases sent.len(),
{
    let longer = sent.push(synced_ns);
    if longer[0] < synced_ns - 4 * window_ns {
        assert(sent.len() > 0);
        law_latest_pulse_is_kept(sent.skip(1), synced_ns, window_ns);
        assert(longer.skip(1) =~= sent.skip(1).push(synced_ns));
    }
}

/// What a history forgets is a front part of it that is before the cutoff; the
/// rest stays in order.
pub proof fn law_only_stale_pulses_are_dropped(sent: Seq<u128>, cutoff: int)
    ensures
        exists|k: int|
            {
                &&& 0 <= k <= sent.len()
                &&& without_stale(sent, cutoff) == #[trigger] sent.skip(k)
                &&& forall|j: int| 0 <= j < k ==> sent[j] < cutoff
            },
    decreases sent.len(),
{
    if sent.len() > 0 && sent[0] < cutoff {
        let rest = sent.skip(1);
        law_only_stale_pulses_are_dropped(rest, cutoff);
        let k = choose|k: int|
            {
                &&& 0 <= k <= rest.len()
                &&& without_stale(rest, cutoff) == #[trigger] rest.skip(k)
                &&& forall|j: int| 0 <= j < k ==> rest[j] < cutoff
            };
        assert(rest.skip(k) =~= sent.skip(k + 1));
        assert forall|j: int| 0 <= j < k + 1 implies sent[j] < cutoff by {
            if j > 0 {
                assert(rest[j - 1] == sent[j]);
            }
        }
    } else {
        assert(sent.skip(0) =~= sent);
    }
}

/// The meter after a run of events.
pub open spec fn meter_after(window_ns: nat, events: Seq<EventView>) -> MeterState
    decreases events.len(),
{
    if events.len() == 0 {
        MeterState::fresh(window_ns)
    } else {
        meter_after(window_ns, events.drop_last()).after(events.last())
    }
}

/// The differences recorded over a run of events for the pulses that board `d`
/// sent.
pub open spec fn recorded(window_ns: nat, events: Seq<EventView>, d: int) -> Seq<i128>
    decreases events.len(),
{
    if events.len() == 0 {
        Seq::empty()
    } else {
        let before = recorded(window_ns, events.drop_last(), d);
        match events.last() {
            EventView::Tx { .. } => before,
            EventView::Rx { device, synced_ns, .. } => if 1 - device == d {
                match nearest_delta(
                    meter_after(window_ns, events.drop_last()).sent[d],
                    synced_ns,
                    window_ns,
                ) {
                    Some(delta) => before.push(delta),
                    None => before,
                }
            } else {
                before
            },
        }
    }
}

/// Whether all events of a run are of the two boards.
pub open spec fn of_two_boards(events: Seq<EventView>) -> bool {
    forall|i: int|
        0 <= i < events.len() ==> match #[trigger] events[i] {
            EventView::Tx { device, .. } => device < 2,
            EventView::Rx { device, .. } => device < 2,
        }
}

/// After any run of events, the statistics of each direction are those of the
/// differences recorded for it.
pub proof fn law_statistics_are_of_the_pairs(window_ns: nat, events: Seq<EventView>, d: int)
    requires
        of_two_boards(events),
        0 <= d < 2,
    ensures
        meter_after(window_ns, events).window_ns == window_ns,
        meter_after(window_ns, events).sent.len() == 2,
        meter_after(window_ns, events).stats.len() == 2,
        meter_after(window_ns, events).stats[d] == crate::stats::stats_after(
            recorded(window_ns, events, d),
        ),
    decreases events.len(),
{
    if events.len() > 0 {
        let front = events.drop_last();
        assert forall|i: int| 0 <= i < front.len() implies (match #[trigger] front[i] {
            EventView::Tx { device, .. } => device < 2,
            EventView::Rx { device, .. } => device < 2,
        }) by {
            assert(front[i] == events[i]);
        }
        law_statistics_are_of_the_pairs(window_ns, front, d);
        assert(events.last() == events[events.len() - 1]);
        let before = recorded(window_ns, front, d);
        let now = recorded(window_ns, events, d);
        if now.len() > before.len() {
            assert(now.drop_last() =~= before);
        }
    }
}

/// After any run of events, the meter reports an overshoot exactly when a
/// recorded difference exceeded the limit.
pub proof fn law_overshoot_means_a_pair_beyond_the_limit(
    window_ns: nat,
    events: Seq<EventView>,
    limit_us: u64,
)
    requires
        of_two_boards(events),
    ensures
        meter_after(window_ns, events).overshoots(limit_us) <==> exists|d: int, i: int|
            0 <= d < 2 && 0 <= i < recorded(window_ns, events, d).len()
                && crate::stats::magnitude_us(#[trigger] recorded(window_ns, events, d)[i])
                > limit_us,
{
    let m = meter_after(window_ns, events);
    let r0 = recorded(window_ns, events, 0);
    let r1 = recorded(window_ns, events, 1);
    law_statistics_are_of_the_pairs(window_ns, events, 0);
    law_statistics_are_of_the_pairs(window_ns, events, 1);
    crate::stats::law_maximum_shows_every_overshoot(r0, limit_us);
    crate::stats::law_maximum_shows_every_overshoot(r1, limit_us);
    if m.overshoots(limit_us) {
        let d = choose|d: int| 0 <= d < 2 && (#[trigger] m.stats[d]).max_abs_us > limit_us;
        let r = recorded(window_ns, events, d);
        let i = choose|i: int|
            0 <= i < r.len() && crate::stats::magnitude_us(#[trigger] r[i]) > limit_us;
        assert(crate::stats::magnitude_us(recorded(window_ns, events, d)[i]) > limit_us);
    }
    assert forall|d: int, i: int|
        0 <= d < 2 && 0 <= i < recorded(window_ns, events, d).len() && crate::stats::magnitude_us(
            #[trigger] recorded(window_ns, events, d)[i],
        ) > limit_us implies m.overshoots(limit_us) by {
        assert(d == 0 || d == 1);
        assert(m.stats[d].max_abs_us > limit_us);
    }
}

} // verus!
