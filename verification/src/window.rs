//! What the game window shows, apart from the drawing: the series of values
//! graphed for the current race, and the texts that float up when a share
//! is bought or sold or a race ends.
use vstd::prelude::*;
use vstd::string::*;
use crate::text::{decimal, push_char, push_decimal};

verus! {

/// The price on screen and the values graphed for the race.
pub struct Chart {
    pub value: i32,
    pub values: Vec<i32>,
    pub racing: bool,
    /// A race has started and its first value is still to come; then the
    /// previous race's series is dropped.
    pub next_is_new: bool,
}

/// A chart as plain values: price, graphed series, racing, series to restart.
pub struct ChartView {
    pub value: i32,
    pub values: Seq<i32>,
    pub racing: bool,
    pub next_is_new: bool,
}

/// The chart after a new stock value arrives: it is shown, the series
/// restarts when a race has just started, and it is graphed while racing.
pub open spec fn after_value(c: ChartView, val: i32) -> ChartView {
    let kept = if c.next_is_new {
        Seq::<i32>::empty()
    } else {
        c.values
    };
    ChartView {
        value: val,
        values: if c.racing {
            kept.push(val)
        } else {
            kept
        },
        racing: c.racing,
        next_is_new: false,
    }
}

/// The chart after a race starts (`None`) or ends with a payout (`Some`).
pub open spec fn after_race_change(c: ChartView, change: Option<i32>) -> ChartView {
    match change {
        Some(_) => ChartView { racing: false, ..c },
        None => ChartView { racing: true, next_is_new: true, ..c },
    }
}

impl View for Chart {
    type V = ChartView;

    open spec fn view(&self) -> ChartView {
        ChartView {
            value: self.value,
            values: self.values@,
            racing: self.racing,
            next_is_new: self.next_is_new,
        }
    }
}

impl Chart {
    /// The chart before any race: the initial price, nothing graphed.
    pub fn new(initial_price: i32) -> (c: Chart)
        ensures
            c@ == (ChartView {
                value: initial_price,
                values: Seq::empty(),
                racing: false,
                next_is_new: false,
            }),
    {
        Chart { value: initial_price, values: Vec::new(), racing: false, next_is_new: false }
    }

    /// Takes in a new stock value (see `after_value`).
    pub fn on_value(&mut self, val: i32)
        ensures
            final(self)@ == after_value(old(self)@, val),
    {
        self.value = val;
        if self.next_is_new {
            self.values = Vec::new();
            self.next_is_new = false;
        }
        if self.racing {
            self.values.push(val);
        }
    }

    /// Takes in a race start or end (see `after_race_change`); returns the
    /// payout price, to be shown floating up.
    pub fn on_race_change(&mut self, change: Option<i32>) -> (shown: Option<i32>)
        ensures
            shown == change,
            final(self)@ == after_race_change(old(self)@, change),
    {
        match change {
            Some(v) => {
                self.racing = false;
                Some(v)
            },
            None => {
                self.next_is_new = true;
                self.racing = true;
                None
            },
        }
    }
}

/// Once a race has started, the first value that arrives begins a fresh
/// series holding only that value, whatever was graphed before.
pub proof fn lemma_race_start_restarts_series(c: ChartView, val: i32)
    ensures
        after_value(after_race_change(c, None), val).values =~= seq![val],
{
}

/// During a race every further value is appended to the series.
pub proof fn lemma_racing_appends(c: ChartView, val: i32)
    requires
        c.racing,
        !c.next_is_new,
    ensures
        after_value(c, val).values == c.values.push(val),
{
}

/// After a race ends the series stays as it was, whatever values arrive,
/// until the next race starts.
pub proof fn lemma_ended_race_keeps_series(c: ChartView, payout: i32, val: i32)
    requires
        !c.next_is_new,
    ensures
        after_value(after_race_change(c, Some(payout)), val).values == c.values,
        after_value(after_race_change(c, Some(payout)), val).value == val,
{
}

/// What reaches the window: a new stock value, or a race starting (`None`)
/// or ending with a payout (`Some`).
pub enum ChartEvent {
    Value(i32),
    RaceChange(Option<i32>),
}

/// The chart after the events, taken in order.
pub open spec fn after_events(c: ChartView, events: Seq<ChartEvent>) -> ChartView
    decreases events.len(),
{
    if events.len() == 0 {
        c
    } else {
        let before = after_events(c, events.drop_last());
        match events.last() {
            ChartEvent::Value(v) => after_value(before, v),
            ChartEvent::RaceChange(change) => after_race_change(before, change),
        }
    }
}

/// Whether a race runs after the events: the last race change was a start.
pub open spec fn racing_after(events: Seq<ChartEvent>) -> bool
    decreases events.len(),
{
    if events.len() == 0 {
        false
    } else {
        match events.last() {
            ChartEvent::Value(_) => racing_after(events.drop_last()),
            ChartEvent::RaceChange(None) => true,
            ChartEvent::RaceChange(Some(_)) => false,
        }
    }
}

/// The last value among the events, or `initial` when none came.
pub open spec fn last_value(events: Seq<ChartEvent>, initial: i32) -> i32
    decreases events.len(),
{
    if events.len() == 0 {
        initial
    } else {
        match events.last() {
            ChartEvent::Value(v) => v,
            ChartEvent::RaceChange(_) => last_value(events.drop_last(), initial),
        }
    }
}

/// Whether a race has started and no value has come since.
pub open spec fn awaiting_first_value(events: Seq<ChartEvent>) -> bool
    decreases events.len(),
{
    if events.len() == 0 {
        false
    } else {
        match events.last() {
            ChartEvent::Value(_) => false,
            ChartEvent::RaceChange(None) => true,
            ChartEvent::RaceChange(Some(_)) => awaiting_first_value(events.drop_last()),
        }
    }
}

/// The values received since the last race start while that race ran, in
/// order (none before any race started).
pub open spec fn race_series(events: Seq<ChartEvent>) -> Seq<i32>
    decreases events.len(),
{
    if events.len() == 0 {
        Seq::empty()
    } else {
        let before = events.drop_last();
        match events.last() {
            ChartEvent::Value(v) => if racing_after(before) {
                race_series(before).push(v)
            } else {
                race_series(before)
            },
            ChartEvent::RaceChange(None) => Seq::empty(),
            ChartEvent::RaceChange(Some(_)) => race_series(before),
        }
    }
}

proof fn lemma_after_events_invariant(initial: i32, events: Seq<ChartEvent>)
    ensures
        ({
            let c = after_events(
                ChartView {
                    value: initial,
                    values: Seq::empty(),
                    racing: false,
                    next_is_new: false,
                },
                events,
            );
            &&& c.racing == racing_after(events)
            &&& c.value == last_value(events, initial)
            &&& c.next_is_new == awaiting_first_value(events)
            &&& !awaiting_first_value(events) ==> c.values == race_series(events)
            &&& awaiting_first_value(events) ==> race_series(events) == Seq::<i32>::empty()
        }),
    decreases events.len(),
{
    if events.len() > 0 {
        lemma_after_events_invariant(initial, events.drop_last());
    }
}

/// Over any run of values and race changes reaching a fresh chart: a race
/// is shown running exactly when the last race change was a start; the
/// price shown is the last value received (the initial price before any);
/// and once a value has arrived since the last race start, the graphed
/// series is exactly the values received since that start while the race
/// ran, in order.
pub proof fn lemma_chart_follows_events(initial: i32, events: Seq<ChartEvent>)
    ensures
        ({
            let c = after_events(
                ChartView {
                    value: initial,
                    values: Seq::empty(),
                    racing: false,
                    next_is_new: false,
                },
                events,
            );
            &&& c.racing == racing_after(events)
            &&& c.value == last_value(events, initial)
            &&& !awaiting_first_value(events) ==> c.values == race_series(events)
        }),
{
    lemma_after_events_invariant(initial, events);
}

/// How a floating text looks.
#[derive(Clone, Copy, Debug, PartialEq, Eq, Structural)]
pub enum Tone {
    /// A purchase: white, regular, small.
    Purchase,
    /// The price everyone was paid when a race ended: yellow, bold, large.
    Payout,
    /// A sale at a loss: red, regular, small.
    Loss,
    /// A sale at a gain (or even): green, regular, small.
    Gain,
}

/// A text floating up from the price box.
#[derive(Clone, Copy, Debug, PartialEq, Eq, Structural)]
pub struct ActionText {
    pub value: i32,
    pub special: bool,
    pub is_buy: bool,
}

pub open spec fn tone_of(a: ActionText) -> Tone {
    if a.is_buy {
        Tone::Purchase
    } else if a.special {
        Tone::Payout
    } else if a.value < 0 {
        Tone::Loss
    } else {
        Tone::Gain
    }
}

/// The sign shown before the amount: '-' for a loss, '+' for a gain, none
/// for a purchase or a payout.
pub open spec fn sign_of(t: Tone) -> Seq<char> {
    match t {
        Tone::Loss => seq!['-'],
        Tone::Gain => seq!['+'],
        _ => seq![],
    }
}

/// A sale that is not a payout is shown as a loss, signed '-', exactly when
/// its value is negative, and as a gain, signed '+', otherwise; a purchase
/// or a payout carries no sign.
pub proof fn lemma_sale_sign(a: ActionText)
    ensures
        !a.is_buy && !a.special ==> (tone_of(a) == Tone::Loss <==> a.value < 0),
        !a.is_buy && !a.special ==> (tone_of(a) == Tone::Gain <==> a.value >= 0),
        !a.is_buy && !a.special && a.value < 0 ==> sign_of(tone_of(a)) == seq!['-'],
        !a.is_buy && !a.special && a.value >= 0 ==> sign_of(tone_of(a)) == seq!['+'],
        a.is_buy || a.special ==> sign_of(tone_of(a)) == Seq::<char>::empty(),
{
}

impl ActionText {
    pub fn tone(&self) -> (t: Tone)
        ensures
            t == tone_of(*self),
            t == Tone::Purchase <==> self.is_buy,
            t == Tone::Payout <==> !self.is_buy && self.special,
            t == Tone::Loss <==> !self.is_buy && !self.special && self.value < 0,
            t == Tone::Gain <==> !self.is_buy && !self.special && self.value >= 0,
    {
        if self.is_buy {
            Tone::Purchase
        } else if self.special {
            Tone::Payout
        } else if self.value < 0 {
            Tone::Loss
        } else {
            Tone::Gain
        }
    }

    /// The text shown: the sign, '$' and the amount without its sign.
    pub fn label(&self) -> (s: String)
        requires
            self.value != i32::MIN,
        ensures
            s@ == sign_of(tone_of(*self)) + seq!['$'] + decimal(
                (if self.value < 0 {
                    -self.value
                } else {
                    self.value as int
                }) as nat,
            ),
    {
        let mut s = String::new();
        match self.tone() {
            Tone::Loss => push_char(&mut s, '-'),
            Tone::Gain => push_char(&mut s, '+'),
            _ => {},
        }
        push_char(&mut s, '$');
        let amount: i32 = if self.value < 0 {
            -self.value
        } else {
            self.value
        };
        push_decimal(&mut s, amount as u64);
        s
    }
}

/// A floating text is gone once it has floated for `float_time` milliseconds.
pub fn expired(elapsed_ms: u128, float_time: u128) -> (b: bool)
    ensures
        b == (elapsed_ms >= float_time),
{
    elapsed_ms >= float_time
}


/// The texts, of those paired in order with the milliseconds they have
/// floated, that are not yet gone (see `expired`), in order.
pub open spec fn unexpired<T>(texts: Seq<T>, elapsed_ms: Seq<u128>, float_time: u128) -> Seq<T>
    decreases texts.len(),
{
    if texts.len() == 0 {
        Seq::empty()
    } else {
        let rest = unexpired(texts.skip(1), elapsed_ms.skip(1), float_time);
        if elapsed_ms[0] < float_time {
            seq![texts[0]] + rest
        } else {
            rest
        }
    }
}

/// Drops the floating texts that are gone, given how long each has floated.
pub fn retain_unexpired<T>(texts: &mut Vec<T>, elapsed_ms: &Vec<u128>, float_time: u128)
    requires
        old(texts)@.len() == elapsed_ms@.len(),
    ensures
        final(texts)@ == unexpired(old(texts)@, elapsed_ms@, float_time),
{
    let ghost all = texts@;
    let n = texts.len();
    let mut i: usize = n;
    assert(all.skip(n as int) =~= Seq::<T>::empty());
    while i > 0
        invariant
            all.len() == n,
            n == elapsed_ms@.len(),
            i <= n,
            texts@ == all.take(i as int) + unexpired(
                all.skip(i as int),
                elapsed_ms@.skip(i as int),
                float_time,
            ),
        decreases i,
    {
        let j = i - 1;
        let ghost rest = unexpired(all.skip(i as int), elapsed_ms@.skip(i as int), float_time);
        assert(all.skip(j as int).skip(1) =~= all.skip(i as int));
        assert(elapsed_ms@.skip(j as int).skip(1) =~= elapsed_ms@.skip(i as int));
        assert(all.take(i as int) =~= all.take(j as int).push(all[j as int]));
        if expired(elapsed_ms[j], float_time) {
            texts.remove(j);
            assert(texts@ =~= all.take(j as int) + rest);
        } else {
            assert(texts@ =~= all.take(j as int) + (seq![all[j as int]] + rest));
        }
        i = j;
    }
    assert(all.take(0) + unexpired(all.skip(0), elapsed_ms@.skip(0), float_time) =~= unexpired(
        all,
        elapsed_ms@,
        float_time,
    )) by {
        assert(all.skip(0) =~= all);
        assert(elapsed_ms@.skip(0) =~= elapsed_ms@);
    }
}

} // verus!
