//! Transfer between two samples of a connection: byte counters, the session
//! duration, and the monitor that keeps the previous sample as a baseline.
use vstd::prelude::*;

use crate::status::Status;
use crate::text::{chars_of, law_split_at_separator, pieces, ranges_within, split_on, split_ranges};

verus! {

/// A decimal digit.
pub open spec fn is_digit(c: char) -> bool {
    '0' <= c && c <= '9'
}

/// The number that the decimal digits `s` spell.
pub open spec fn decimal(s: Seq<char>) -> nat
    decreases s.len(),
{
    if s.len() == 0 {
        0
    } else {
        decimal(s.drop_last()) * 10 + (s.last() as nat - '0' as nat) as nat
    }
}

/// The value of a byte counter: a non-empty string of decimal digits whose value fits in a `u64`.
pub open spec fn counter_value(s: Seq<char>) -> Option<u64> {
    if s.len() > 0 && (forall|i: int| 0 <= i < s.len() ==> is_digit(#[trigger] s[i])) && decimal(s)
        <= u64::MAX {
        Some(decimal(s) as u64)
    } else {
        None
    }
}

/// The number of seconds that an "H:M:S" session duration stands for: exactly three
/// counters, minutes and seconds below 60, and a total that fits in a `u64`.
pub open spec fn duration_value(s: Seq<char>) -> Option<u64> {
    let parts = split_on(s, ':');
    if parts.len() == 3 && counter_value(parts[0]) is Some && counter_value(parts[1]) is Some
        && counter_value(parts[2]) is Some {
        let hours = counter_value(parts[0]).unwrap();
        let minutes = counter_value(parts[1]).unwrap();
        let seconds = counter_value(parts[2]).unwrap();
        if minutes < 60 && seconds < 60 && hours * 3600 + minutes * 60 + seconds <= u64::MAX {
            Some((hours * 3600 + minutes * 60 + seconds) as u64)
        } else {
            None
        }
    } else {
        None
    }
}

/// The value of a digit prefix is at most the value of the whole.
proof fn lemma_decimal_prefix(s: Seq<char>, i: int)
    requires
        0 <= i <= s.len(),
        forall|j: int| 0 <= j < s.len() ==> is_digit(#[trigger] s[j]),
    ensures
        decimal(s.take(i)) <= decimal(s),
    decreases s.len(),
{
    if i < s.len() {
        let shorter = s.drop_last();
        assert(s.take(i) =~= shorter.take(i));
        assert forall|j: int| 0 <= j < shorter.len() implies is_digit(#[trigger] shorter[j]) by {
            assert(shorter[j] == s[j]);
        }
        lemma_decimal_prefix(shorter, i);
    } else {
        assert(s.take(i) =~= s);
    }
}

/// The counter value of `chars[start..end]`.
fn counter_in(chars: &Vec<char>, start: usize, end: usize) -> (r: Option<u64>)
    requires
        start <= end <= chars@.len(),
    ensures
        r == counter_value(chars@.subrange(start as int, end as int)),
{
    let ghost s = chars@.subrange(start as int, end as int);
    if start == end {
        return None;
    }
    let mut i = start;
    while i < end
        invariant
            start <= i <= end <= chars@.len(),
            s == chars@.subrange(start as int, end as int),
            forall|j: int| 0 <= j < i - start ==> is_digit(#[trigger] s[j]),
        decreases end - i,
    {
        if !('0' <= chars[i] && chars[i] <= '9') {
            assert(!is_digit(s[i - start]));
            return None;
        }
        i = i + 1;
    }
    let mut value: u64 = 0;
    let mut i = start;
    while i < end
        invariant
            start <= i <= end <= chars@.len(),
            s == chars@.subrange(start as int, end as int),
            forall|j: int| 0 <= j < s.len() ==> is_digit(#[trigger] s[j]),
            value == decimal(s.take(i - start)),
        decreases end - i,
    {
        assert(s[i - start] == chars@[i as int]);
        assert(is_digit(s[i - start]));
        let c = chars[i];
        let digit = (c as u32 - '0' as u32) as u64;
        assert(s.take(i + 1 - start).drop_last() =~= s.take(i - start));
        assert(s.take(i + 1 - start).last() == chars@[i as int]);
        let next = match value.checked_mul(10) {
            Some(tens) => tens.checked_add(digit),
            None => None,
        };
        match next {
            Some(n) => {
                value = n;
            },
            None => {
                proof {
                    lemma_decimal_prefix(s, i + 1 - start);
                }
                return None;
            },
        }
        i = i + 1;
    }
    assert(s.take(s.len() as int) =~= s);
    Some(value)
}

/// Reads a byte counter: `None` unless `value` is a non-empty string of decimal
/// digits whose value fits in a `u64`.
pub fn counter(value: &str) -> (r: Option<u64>)
    ensures
        r == counter_value(value@),
{
    let chars = chars_of(value);
    assert(chars@.subrange(0, chars@.len() as int) =~= chars@);
    counter_in(&chars, 0, chars.len())
}

/// Reads an "H:M:S" session duration as a number of seconds.
pub fn duration(value: &str) -> (r: Option<u64>)
    ensures
        r == duration_value(value@),
{
    let chars = chars_of(value);
    assert(chars@.subrange(0, chars@.len() as int) =~= chars@);
    let parts = split_ranges(&chars, 0, chars.len(), ':');
    if parts.len() != 3 {
        return None;
    }
    let ghost views = pieces(chars@, parts@);
    assert(views[0] == chars@.subrange(parts@[0].0 as int, parts@[0].1 as int));
    assert(views[1] == chars@.subrange(parts@[1].0 as int, parts@[1].1 as int));
    assert(views[2] == chars@.subrange(parts@[2].0 as int, parts@[2].1 as int));
    assert(parts@[0].0 <= parts@[0].1 <= chars@.len());
    assert(parts@[1].0 <= parts@[1].1 <= chars@.len());
    assert(parts@[2].0 <= parts@[2].1 <= chars@.len());
    let hours = match counter_in(&chars, parts[0].0, parts[0].1) {
        Some(h) => h,
        None => return None,
    };
    let minutes = match counter_in(&chars, parts[1].0, parts[1].1) {
        Some(m) => m,
        None => return None,
    };
    let seconds = match counter_in(&chars, parts[2].0, parts[2].1) {
        Some(s) => s,
        None => return None,
    };
    if minutes >= 60 || seconds >= 60 {
        return None;
    }
    match hours.checked_mul(3600) {
        Some(h) => match h.checked_add(minutes * 60) {
            Some(hm) => hm.checked_add(seconds),
            None => None,
        },
        None => None,
    }
}

/// What moved over a connection between two samples: the growth of the byte
/// counters and the time between the samples, in nanoseconds.
#[derive(Clone, Copy, Debug, PartialEq, Eq, Structural)]
pub struct Transfer {
    pub sent: u64,
    pub received: u64,
    pub elapsed_nanos: u128,
}

/// Two samples are of one session: both connected, with the same connection name,
/// interface and address.
pub open spec fn same_session(before: Status, after: Status) -> bool {
    &&& before.state@ == "connected"@
    &&& after.state@ == "connected"@
    &&& before.name@ == after.name@
    &&& before.interface@ == after.interface@
    &&& before.ip@ == after.ip@
}

/// The session duration went backwards: the session was restarted between the samples.
pub open spec fn restarted(before: Status, after: Status) -> bool {
    &&& duration_value(before.duration@) is Some
    &&& duration_value(after.duration@) is Some
    &&& duration_value(after.duration@).unwrap() < duration_value(before.duration@).unwrap()
}

/// The transfer between two samples `elapsed` nanoseconds apart, where a gap longer
/// than `max_gap` is no measurement: none across sessions, over no time, across a
/// session restart, with an unreadable counter or with a counter that went backwards.
pub open spec fn transfer_between(before: Status, after: Status, elapsed: u128, max_gap: u128) -> Option<
    Transfer,
> {
    if !same_session(before, after) || elapsed == 0 || elapsed > max_gap || restarted(
        before,
        after,
    ) {
        None
    } else {
        match (
            counter_value(before.sent@),
            counter_value(after.sent@),
            counter_value(before.received@),
            counter_value(after.received@),
        ) {
            (Some(sent_before), Some(sent_after), Some(received_before), Some(received_after)) => {
                if sent_before <= sent_after && received_before <= received_after {
                    Some(
                        Transfer {
                            sent: (sent_after - sent_before) as u64,
                            received: (received_after - received_before) as u64,
                            elapsed_nanos: elapsed,
                        },
                    )
                } else {
                    None
                }
            },
            _ => None,
        }
    }
}

/// What an observation at `now` yields against the baseline `previous`: nothing
/// without a baseline or where the clock went backwards.
pub open spec fn observed(
    previous: Option<(Status, u128)>,
    status: Status,
    now: u128,
    max_gap: u128,
) -> Option<Transfer> {
    match previous {
        Some((before, then)) => if now < then {
            None
        } else {
            transfer_between(before, status, (now - then) as u128, max_gap)
        },
        None => None,
    }
}

/// The baseline an observation leaves: the sample itself where it is connected, else none.
pub open spec fn next_baseline(status: Status, now: u128) -> Option<(Status, u128)> {
    if status.state@ == "connected"@ {
        Some((status, now))
    } else {
        None
    }
}

/// The transfer between two samples.
fn calculate(before: &Status, after: &Status, elapsed: u128, max_gap: u128) -> (r: Option<
    Transfer,
>)
    ensures
        r == transfer_between(*before, *after, elapsed, max_gap),
{
    if !crate::text::same_text(before.state.as_str(), "connected") || !crate::text::same_text(
        after.state.as_str(),
        "connected",
    ) || before.name != after.name || before.interface != after.interface || before.ip
        != after.ip || elapsed == 0 || elapsed > max_gap {
        return None;
    }
    if let (Some(then), Some(now)) = (
        duration(before.duration.as_str()),
        duration(after.duration.as_str()),
    ) {
        if now < then {
            return None;
        }
    }
    let sent_after = match counter(after.sent.as_str()) {
        Some(n) => n,
        None => return None,
    };
    let sent_before = match counter(before.sent.as_str()) {
        Some(n) => n,
        None => return None,
    };
    if sent_after < sent_before {
        return None;
    }
    let received_after = match counter(after.received.as_str()) {
        Some(n) => n,
        None => return None,
    };
    let received_before = match counter(before.received.as_str()) {
        Some(n) => n,
        None => return None,
    };
    if received_after < received_before {
        return None;
    }
    Some(
        Transfer {
            sent: sent_after - sent_before,
            received: received_after - received_before,
            elapsed_nanos: elapsed,
        },
    )
}

/// Keeps the last connected sample, to measure the transfer up to the next one.
pub struct Monitor {
    previous: Option<(Status, u128)>,
}

impl Default for Monitor {
    fn default() -> (m: Self)
        ensures
            m.baseline() is None,
    {
        Monitor { previous: None }
    }
}

impl Monitor {
    /// The sample that the next observation is measured against, and when it was taken.
    pub closed spec fn baseline(&self) -> Option<(Status, u128)> {
        self.previous
    }

    /// Forgets the baseline.
    pub fn reset(&mut self)
        ensures
            final(self).baseline() is None,
    {
        self.previous = None;
    }

    /// Observes `status` at `now` (nanoseconds on a clock that counts suspend time):
    /// yields the transfer since the baseline, if it can be measured, and makes this
    /// sample the baseline where it is connected.
    pub fn observe(&mut self, status: &Status, now: u128, max_gap: u128) -> (r: Option<Transfer>)
        ensures
            r == observed(old(self).baseline(), *status, now, max_gap),
            final(self).baseline() == next_baseline(*status, now),
    {
        let r = match &self.previous {
            Some((before, then)) => {
                if now < *then {
                    None
                } else {
                    calculate(before, status, now - *then, max_gap)
                }
            },
            None => None,
        };
        self.previous = if crate::text::same_text(status.state.as_str(), "connected") {
            Some((status.snapshot(), now))
        } else {
            None
        };
        r
    }
}

} // verus!

verus! {

/// Without a baseline (at the start, after `reset`, or after a sample that was not
/// connected, such as a failed probe) an observation yields no transfer: a rate needs
/// two connected samples in a row.
pub proof fn law_rates_need_two_connected_samples(
    first: Status,
    second: Status,
    first_at: u128,
    second_at: u128,
    max_gap: u128,
)
    ensures
        observed(None, first, first_at, max_gap) is None,
        first.state@ != "connected"@ ==> observed(
            next_baseline(first, first_at),
            second,
            second_at,
            max_gap,
        ) is None,
{
}

/// A transfer is measured only against a baseline taken earlier, between two samples
/// of one connected session, over a positive time no longer than the gap limit and
/// without a session restart; it is the exact difference of readable counters.
pub proof fn law_transfer_is_exact_difference(
    previous: Option<(Status, u128)>,
    status: Status,
    now: u128,
    max_gap: u128,
)
    requires
        observed(previous, status, now, max_gap) is Some,
    ensures
        ({
            let t = observed(previous, status, now, max_gap).unwrap();
            let (before, then) = previous.unwrap();
            &&& previous is Some
            &&& then < now
            &&& t.elapsed_nanos == now - then
            &&& t.elapsed_nanos <= max_gap
            &&& before.state@ == "connected"@
            &&& status.state@ == "connected"@
            &&& before.name@ == status.name@
            &&& before.interface@ == status.interface@
            &&& before.ip@ == status.ip@
            &&& !(duration_value(before.duration@) is Some && duration_value(status.duration@) is Some
                && duration_value(status.duration@).unwrap() < duration_value(
                before.duration@,
            ).unwrap())
            &&& counter_value(before.sent@) is Some
            &&& counter_value(status.sent@) is Some
            &&& counter_value(before.received@) is Some
            &&& counter_value(status.received@) is Some
            &&& t.sent == counter_value(status.sent@).unwrap() - counter_value(before.sent@).unwrap()
            &&& t.received == counter_value(status.received@).unwrap() - counter_value(
                before.received@,
            ).unwrap()
        }),
{
}

/// Counters that did not change over a measurable window mean an idle connection: a
/// transfer of nothing.
pub proof fn law_idle_connection(before: Status, after: Status, elapsed: u128, max_gap: u128)
    requires
        same_session(before, after),
        0 < elapsed <= max_gap,
        !restarted(before, after),
        counter_value(before.sent@) is Some,
        counter_value(before.received@) is Some,
        after.sent@ == before.sent@,
        after.received@ == before.received@,
    ensures
        transfer_between(before, after, elapsed, max_gap) == Some(
            Transfer { sent: 0, received: 0, elapsed_nanos: elapsed },
        ),
{
}

} // verus!

verus! {

/// The digit character for `d` (below 10).
pub open spec fn digit_char(d: nat) -> char {
    (d + '0' as nat) as char
}

/// The decimal digits of `n`, without leading zeros (what `u64::to_string` writes).
pub open spec fn decimal_digits(n: nat) -> Seq<char>
    decreases n,
{
    if n < 10 {
        seq![digit_char(n)]
    } else {
        decimal_digits(n / 10).push(digit_char(n % 10))
    }
}

/// `count` zero digits.
pub open spec fn zeros(count: nat) -> Seq<char> {
    Seq::new(count, |i: int| '0')
}

proof fn lemma_decimal_digits(n: nat)
    ensures
        decimal_digits(n).len() > 0,
        forall|i: int| 0 <= i < decimal_digits(n).len() ==> is_digit(#[trigger] decimal_digits(n)[i]),
        decimal(decimal_digits(n)) == n,
    decreases n,
{
    if n < 10 {
        let s = decimal_digits(n);
        assert(s.drop_last() =~= Seq::<char>::empty());
        assert(s.last() as nat == n + '0' as nat);
        assert(decimal(s.drop_last()) == 0);
        assert(decimal(s) == n);
    } else {
        lemma_decimal_digits(n / 10);
        let s = decimal_digits(n);
        assert(s.drop_last() =~= decimal_digits(n / 10));
        assert(n == (n / 10) * 10 + n % 10);
        assert(s.last() as nat == n % 10 + '0' as nat);
        assert(decimal(s.drop_last()) == n / 10);
        assert(decimal(s) == (n / 10) * 10 + n % 10);
    }
}

proof fn lemma_leading_zeros(count: nat, s: Seq<char>)
    ensures
        decimal(zeros(count) + s) == decimal(s),
    decreases s.len(),
{
    if s.len() == 0 {
        lemma_zeros(count);
        assert(zeros(count) + s =~= zeros(count));
    } else {
        lemma_leading_zeros(count, s.drop_last());
        assert((zeros(count) + s).drop_last() =~= zeros(count) + s.drop_last());
    }
}

proof fn lemma_zeros(count: nat)
    ensures
        decimal(zeros(count)) == 0,
    decreases count,
{
    if count > 0 {
        lemma_zeros((count - 1) as nat);
        assert(zeros(count).drop_last() =~= zeros((count - 1) as nat));
    }
}

/// A counter reads back the number that its decimal digits spell, with or without
/// leading zeros.
pub proof fn law_counter_reads_decimal_digits(n: u64, leading: nat)
    ensures
        counter_value(decimal_digits(n as nat)) == Some(n),
        counter_value(zeros(leading) + decimal_digits(n as nat)) == Some(n),
{
    let s = decimal_digits(n as nat);
    lemma_decimal_digits(n as nat);
    lemma_leading_zeros(leading, s);
    let t = zeros(leading) + s;
    assert forall|i: int| 0 <= i < t.len() implies is_digit(#[trigger] t[i]) by {
        if i >= leading {
            assert(t[i] == s[i - leading]);
        }
    }
}

} // verus!

verus! {

/// Within one connected session, over a positive time no longer than the gap limit
/// and without a restart, readable counters that did not go backwards always give a
/// transfer: the growth of each counter (either may be zero) over that time.
pub proof fn law_measurable_samples_give_a_transfer(
    before: Status,
    after: Status,
    elapsed: u128,
    max_gap: u128,
)
    requires
        before.state@ == "connected"@,
        after.state@ == "connected"@,
        before.name@ == after.name@,
        before.interface@ == after.interface@,
        before.ip@ == after.ip@,
        0 < elapsed <= max_gap,
        !(duration_value(before.duration@) is Some && duration_value(after.duration@) is Some
            && duration_value(after.duration@).unwrap() < duration_value(before.duration@).unwrap()),
        counter_value(before.sent@) is Some,
        counter_value(after.sent@) is Some,
        counter_value(before.received@) is Some,
        counter_value(after.received@) is Some,
        counter_value(before.sent@).unwrap() <= counter_value(after.sent@).unwrap(),
        counter_value(before.received@).unwrap() <= counter_value(after.received@).unwrap(),
    ensures
        transfer_between(before, after, elapsed, max_gap) == Some(
            Transfer {
                sent: (counter_value(after.sent@).unwrap() - counter_value(
                    before.sent@,
                ).unwrap()) as u64,
                received: (counter_value(after.received@).unwrap() - counter_value(
                    before.received@,
                ).unwrap()) as u64,
                elapsed_nanos: elapsed,
            },
        ),
{
}

/// Observed against a baseline of the same session taken `elapsed` nanoseconds earlier,
/// such samples give that transfer too.
pub proof fn law_observation_measures_from_the_baseline(
    before: Status,
    then: u128,
    after: Status,
    now: u128,
    max_gap: u128,
)
    requires
        then <= now,
        transfer_between(before, after, (now - then) as u128, max_gap) is Some,
    ensures
        observed(Some((before, then)), after, now, max_gap) == transfer_between(
            before,
            after,
            (now - then) as u128,
            max_gap,
        ),
        observed(Some((before, then)), after, now, max_gap) is Some,
{
}

} // verus!

verus! {

/// A connected sample becomes the baseline, so that the next observation measures the
/// transfer from it: two observations in a row give the transfer between their samples.
pub proof fn law_consecutive_observations(
    first: Status,
    second: Status,
    first_at: u128,
    second_at: u128,
    max_gap: u128,
)
    requires
        first.state@ == "connected"@,
        first_at <= second_at,
    ensures
        next_baseline(first, first_at) == Some((first, first_at)),
        observed(next_baseline(first, first_at), second, second_at, max_gap) == transfer_between(
            first,
            second,
            (second_at - first_at) as u128,
            max_gap,
        ),
{
}

} // verus!

verus! {

proof fn lemma_padded_digits(n: u64, leading: nat)
    ensures
        counter_value(zeros(leading) + decimal_digits(n as nat)) == Some(n),
        forall|i: int|
            0 <= i < (zeros(leading) + decimal_digits(n as nat)).len() ==> (zeros(leading)
                + decimal_digits(n as nat))[i] != ':',
{
    law_counter_reads_decimal_digits(n, leading);
    lemma_decimal_digits(n as nat);
    let t = zeros(leading) + decimal_digits(n as nat);
    assert forall|i: int| 0 <= i < t.len() implies t[i] != ':' by {
        if i >= leading {
            assert(t[i] == decimal_digits(n as nat)[i - leading]);
            assert(is_digit(decimal_digits(n as nat)[i - leading]));
        }
    }
}

/// A session duration written "H:M:S" in decimal (each part possibly zero-padded) reads
/// as H hours, M minutes and S seconds, where minutes and seconds are below 60 and the
/// total fits in a `u64`; otherwise it reads as nothing.
pub proof fn law_duration_reads_hours_minutes_seconds(
    hours: u64,
    minutes: u64,
    seconds: u64,
    pad_hours: nat,
    pad_minutes: nat,
    pad_seconds: nat,
)
    ensures
        ({
            let h = zeros(pad_hours) + decimal_digits(hours as nat);
            let m = zeros(pad_minutes) + decimal_digits(minutes as nat);
            let s = zeros(pad_seconds) + decimal_digits(seconds as nat);
            duration_value(h.push(':') + (m.push(':') + s)) == if minutes < 60 && seconds < 60
                && hours * 3600 + minutes * 60 + seconds <= u64::MAX {
                Some((hours * 3600 + minutes * 60 + seconds) as u64)
            } else {
                None::<u64>
            }
        }),
{
    let h = zeros(pad_hours) + decimal_digits(hours as nat);
    let m = zeros(pad_minutes) + decimal_digits(minutes as nat);
    let s = zeros(pad_seconds) + decimal_digits(seconds as nat);
    lemma_padded_digits(hours, pad_hours);
    lemma_padded_digits(minutes, pad_minutes);
    lemma_padded_digits(seconds, pad_seconds);
    law_split_at_separator(h, m.push(':') + s, ':');
    law_split_at_separator(m, s, ':');
    law_split_at_separator(s, Seq::empty(), ':');
    let parts = split_on(h.push(':') + (m.push(':') + s), ':');
    assert(parts =~= seq![h, m, s]);
}

} // verus!

verus! {

/// A counter is read only from a non-empty run of decimal digits whose value fits in a
/// `u64`: a string with any other character, an empty string, or digits of a number
/// beyond `u64::MAX` give nothing.
pub proof fn law_counter_rejects(s: Seq<char>, n: nat)
    ensures
        (exists|i: int| 0 <= i < s.len() && !is_digit(#[trigger] s[i])) ==> counter_value(s) is None,
        counter_value(Seq::<char>::empty()) is None,
        n > u64::MAX ==> counter_value(decimal_digits(n)) is None,
        counter_value(s) matches Some(v) ==> decimal(s) == v,
{
    lemma_decimal_digits(n);
}

/// A session duration has exactly three colon-separated parts: any other number of
/// parts reads as nothing, as does a part that is no counter or minutes or seconds of
/// 60 or more.
pub proof fn law_duration_rejects(s: Seq<char>)
    ensures
        split_on(s, ':').len() != 3 ==> duration_value(s) is None,
        duration_value(s) is Some ==> ({
            let parts = split_on(s, ':');
            &&& counter_value(parts[0]) is Some
            &&& counter_value(parts[1]) is Some && counter_value(parts[1]).unwrap() < 60
            &&& counter_value(parts[2]) is Some && counter_value(parts[2]).unwrap() < 60
            &&& duration_value(s).unwrap() == counter_value(parts[0]).unwrap() * 3600
                + counter_value(parts[1]).unwrap() * 60 + counter_value(parts[2]).unwrap()
        }),
{
}

} // verus!
