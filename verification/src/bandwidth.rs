//! Bandwidth limit by a token bucket.
//!
//! A token is the permission to transfer one byte. The bucket starts with the
//! burst, earns tokens as time passes, and never holds more than one second's
//! worth of tokens plus the burst once it has been refilled. How many tokens the
//! elapsed time earned is for the caller to say.

use vstd::prelude::*;

verus! {

/// A token bucket.
#[derive(Debug)]
pub struct Throttle {
    max_bytes_per_sec: u64,
    tokens: u64,
    burst_size: u64,
}

/// Bytes that are being consumed, chunk by chunk.
#[derive(Debug)]
pub struct Consumption {
    remaining: u64,
    chunk_limit: u64,
}

/// What comes next in a consumption.
#[derive(Debug, Clone, Copy, PartialEq, Eq, Structural)]
pub enum ConsumeStep {
    /// Everything has been consumed.
    Finished,
    /// A chunk has been consumed; more remain.
    Continue,
    /// `needed` tokens are missing; at `per_second` they take a while.
    Wait { needed: u64, per_second: u64 },
}

/// The longest sleep, in milliseconds, before a waiting consumption looks again.
pub const MAX_WAIT_MILLIS: u64 = 50;

impl Consumption {
    /// The bytes that have not been consumed yet.
    pub closed spec fn remaining(self) -> nat {
        self.remaining as nat
    }

    /// The most bytes that one chunk takes.
    pub closed spec fn chunk_limit(self) -> nat {
        self.chunk_limit as nat
    }

    /// The size of the next chunk.
    pub open spec fn next_chunk(self) -> nat {
        if self.remaining() <= self.chunk_limit() {
            self.remaining()
        } else {
            self.chunk_limit()
        }
    }
}

impl Throttle {
    /// The limit in bytes per second; 0 for none.
    pub closed spec fn limit(self) -> nat {
        self.max_bytes_per_sec as nat
    }

    /// The tokens in the bucket.
    pub closed spec fn tokens(self) -> nat {
        self.tokens as nat
    }

    /// The initial allowance.
    pub closed spec fn burst(self) -> nat {
        self.burst_size as nat
    }

    /// What the bucket holds at most after a refill.
    pub open spec fn cap(self) -> nat {
        self.limit() + self.burst()
    }

    /// Whether `earned` tokens can be added without leaving 64 bits.
    pub open spec fn can_earn(self, earned: nat) -> bool {
        self.limit() > 0 && earned > 0 ==> self.cap() <= u64::MAX && self.tokens() + earned
            <= u64::MAX
    }

    /// The tokens after a refill.
    pub open spec fn tokens_refilled(self, earned: nat) -> nat {
        if self.limit() == 0 || earned == 0 {
            self.tokens()
        } else if self.tokens() + earned <= self.cap() {
            self.tokens() + earned
        } else {
            self.cap()
        }
    }

    /// A bucket with the given limit (0 for none) that holds its burst.
    pub fn new(max_bytes_per_sec: u64, burst_size: u64) -> (throttle: Self)
        ensures
            throttle.limit() == max_bytes_per_sec,
            throttle.tokens() == burst_size,
            throttle.burst() == burst_size,
    {
        Throttle { max_bytes_per_sec, tokens: burst_size, burst_size }
    }

    /// A bucket that limits nothing.
    pub fn unlimited() -> (throttle: Self)
        ensures
            throttle.limit() == 0,
            throttle.tokens() == 0,
            throttle.burst() == 0,
    {
        Throttle::new(0, 0)
    }

    /// Changes the limit; the tokens in the bucket stay.
    pub fn set_limit(&mut self, max_bytes_per_sec: u64)
        ensures
            final(self).limit() == max_bytes_per_sec,
            final(self).tokens() == old(self).tokens(),
            final(self).burst() == old(self).burst(),
    {
        self.max_bytes_per_sec = max_bytes_per_sec;
    }

    /// The limit in bytes per second; 0 for none.
    pub fn get_limit(&self) -> (limit: u64)
        ensures
            limit == self.limit(),
    {
        self.max_bytes_per_sec
    }

    /// Whether there is a limit.
    pub fn is_limited(&self) -> (limited: bool)
        ensures
            limited == (self.limit() > 0),
    {
        self.max_bytes_per_sec > 0
    }

    /// Whether `earned` tokens can be added without leaving 64 bits.
    pub fn can_take_in(&self, earned: u64) -> (fits: bool)
        ensures
            fits == self.can_earn(earned as nat),
    {
        self.max_bytes_per_sec == 0 || earned == 0 || (self.burst_size <= u64::MAX - self.max_bytes_per_sec
            && earned <= u64::MAX - self.tokens)
    }

    /// Adds the tokens that the elapsed time earned, up to the cap.
    fn refill(&mut self, earned: u64)
        requires
            old(self).can_earn(earned as nat),
        ensures
            final(self).tokens() == old(self).tokens_refilled(earned as nat),
            final(self).limit() == old(self).limit(),
            final(self).burst() == old(self).burst(),
    {
        if self.max_bytes_per_sec == 0 {
            return;
        }
        if earned > 0 {
            let max_tokens: u64 = self.max_bytes_per_sec + self.burst_size;
            let filled: u64 = self.tokens + earned;
            self.tokens = if filled <= max_tokens {
                filled
            } else {
                max_tokens
            };
        }
    }

    /// Consumes `bytes` if the bucket holds that many tokens after a refill by
    /// `earned`; without a limit always.
    pub fn try_consume(&mut self, bytes: u64, earned: u64) -> (consumed: bool)
        requires
            old(self).can_earn(earned as nat),
        ensures
            final(self).limit() == old(self).limit(),
            final(self).burst() == old(self).burst(),
            old(self).limit() == 0 ==> consumed && final(self).tokens() == old(self).tokens(),
            old(self).limit() > 0 ==> consumed == (bytes <= old(self).tokens_refilled(
                earned as nat,
            )),
            old(self).limit() > 0 && consumed ==> final(self).tokens() == old(
                self,
            ).tokens_refilled(earned as nat) - bytes,
            old(self).limit() > 0 && !consumed ==> final(self).tokens() == old(
                self,
            ).tokens_refilled(earned as nat),
    {
        if self.max_bytes_per_sec == 0 {
            return true;
        }
        self.refill(earned);
        if self.tokens >= bytes {
            self.tokens = self.tokens - bytes;
            true
        } else {
            false
        }
    }

    /// Starts to consume `bytes`; `None` where there is no limit, and so nothing
    /// to wait for. More than one second's worth is consumed in chunks.
    pub fn consume(&self, bytes: u64) -> (consumption: Option<Consumption>)
        ensures
            match consumption {
                None => self.limit() == 0,
                Some(c) => self.limit() > 0 && c.remaining() == bytes && c.chunk_limit()
                    == self.limit(),
            },
    {
        if self.max_bytes_per_sec == 0 {
            None
        } else {
            Some(Consumption { remaining: bytes, chunk_limit: self.max_bytes_per_sec })
        }
    }

    /// Whether the next chunk can be waited for, or need not be: without a limit
    /// nothing is earned.
    pub fn can_go_on(&self, consumption: &Consumption) -> (can: bool)
        ensures
            can == (self.limit() > 0 || self.tokens() >= consumption.next_chunk()),
    {
        self.max_bytes_per_sec > 0 || self.tokens >= consumption.remaining || self.tokens
            >= consumption.chunk_limit
    }

    /// Consumes the next chunk after a refill by `earned`, or says how many
    /// tokens are missing for it. Waiting needs a limit.
    pub fn consume_chunk(&mut self, consumption: &mut Consumption, earned: u64) -> (
        step: ConsumeStep)
        requires
            old(self).can_earn(earned as nat),
            old(consumption).chunk_limit() > 0,
            old(self).limit() > 0 || old(self).tokens() >= old(consumption).next_chunk(),
        ensures
            final(self).limit() == old(self).limit(),
            final(self).burst() == old(self).burst(),
            final(consumption).chunk_limit() == old(consumption).chunk_limit(),
            ({
                let held = old(self).tokens_refilled(earned as nat);
                let chunk = old(consumption).next_chunk();
                if held >= chunk {
                    &&& final(self).tokens() == held - chunk
                    &&& final(consumption).remaining() == old(consumption).remaining() - chunk
                    &&& step == if final(consumption).remaining() == 0 {
                        ConsumeStep::Finished
                    } else {
                        ConsumeStep::Continue
                    }
                } else {
                    &&& final(self).tokens() == held
                    &&& final(consumption).remaining() == old(consumption).remaining()
                    &&& step matches ConsumeStep::Wait { needed, per_second } && needed == chunk
                        - held && per_second == old(self).limit() && per_second > 0
                }
            }),
    {
        self.refill(earned);
        let chunk: u64 = if consumption.remaining <= consumption.chunk_limit {
            consumption.remaining
        } else {
            consumption.chunk_limit
        };
        if self.tokens >= chunk {
            self.tokens = self.tokens - chunk;
            consumption.remaining = consumption.remaining - chunk;
            if consumption.remaining == 0 {
                ConsumeStep::Finished
            } else {
                ConsumeStep::Continue
            }
        } else {
            ConsumeStep::Wait { needed: chunk - self.tokens, per_second: self.max_bytes_per_sec }
        }
    }
}

/// The sum of a sequence.
pub open spec fn sum(amounts: Seq<nat>) -> nat
    decreases amounts.len(),
{
    if amounts.len() == 0 {
        0
    } else {
        sum(amounts.drop_last()) + amounts.last()
    }
}

/// Whether `states` is a run of one bucket with a limit: in step `i` it earned
/// `earned[i]` tokens and `taken[i]` bytes were consumed.
pub open spec fn is_run(states: Seq<Throttle>, earned: Seq<nat>, taken: Seq<nat>) -> bool {
    &&& states.len() == earned.len() + 1
    &&& taken.len() == earned.len()
    &&& forall|i: int|
        #![trigger states[i]]
        0 <= i < earned.len() ==> {
            &&& states[i].limit() > 0
            &&& taken[i] <= states[i].tokens_refilled(earned[i])
            &&& states[i + 1].tokens() == states[i].tokens_refilled(earned[i]) - taken[i]
        }
}

/// However requests are spread over time, no more bytes pass than the bucket
/// held at first and earned since.
pub proof fn law_rate_is_bounded(states: Seq<Throttle>, earned: Seq<nat>, taken: Seq<nat>)
    requires
        is_run(states, earned, taken),
    ensures
        sum(taken) + states.last().tokens() <= states[0].tokens() + sum(earned),
    decreases earned.len(),
{
    if earned.len() > 0 {
        let n = earned.len() - 1;
        let before = states.drop_last();
        assert forall|i: int|
            #![trigger before[i]]
            0 <= i < earned.drop_last().len() implies {
            &&& before[i].limit() > 0
            &&& taken.drop_last()[i] <= before[i].tokens_refilled(earned.drop_last()[i])
            &&& before[i + 1].tokens() == before[i].tokens_refilled(earned.drop_last()[i])
                - taken.drop_last()[i]
        } by {
            assert(before[i] == states[i]);
        }
        law_rate_is_bounded(before, earned.drop_last(), taken.drop_last());
        assert(states[n].limit() > 0);
        assert(before.last() == states[n]);
    }
}

/// While nothing is earned, a bucket lets through what it held at first, to the
/// byte: a request passes if and only if that covers it and all that passed
/// before.
pub proof fn law_burst_is_exact(
    states: Seq<Throttle>,
    earned: Seq<nat>,
    taken: Seq<nat>,
    bytes: nat,
)
    requires
        is_run(states, earned, taken),
        forall|i: int| 0 <= i < earned.len() ==> #[trigger] earned[i] == 0,
    ensures
        sum(taken) + states.last().tokens() == states[0].tokens(),
        bytes <= states.last().tokens_refilled(0) <==> sum(taken) + bytes <= states[0].tokens(),
    decreases earned.len(),
{
    if earned.len() > 0 {
        let n = earned.len() - 1;
        let before = states.drop_last();
        assert forall|i: int|
            #![trigger before[i]]
            0 <= i < earned.drop_last().len() implies {
            &&& before[i].limit() > 0
            &&& taken.drop_last()[i] <= before[i].tokens_refilled(earned.drop_last()[i])
            &&& before[i + 1].tokens() == before[i].tokens_refilled(earned.drop_last()[i])
                - taken.drop_last()[i]
        } by {
            assert(before[i] == states[i]);
        }
        assert forall|i: int| 0 <= i < earned.drop_last().len() implies #[trigger]
            earned.drop_last()[i] == 0 by {
            assert(earned[i] == 0);
        }
        law_burst_is_exact(before, earned.drop_last(), taken.drop_last(), bytes);
        assert(states[n].limit() > 0);
        assert(earned[n] == 0);
        assert(before.last() == states[n]);
    }
}

/// Over any stretch of time, no more bytes pass than the bucket held at first and
/// one limit's worth for every second, if no step earns more than the limit for
/// the time that it took; `nanos[i]` is that time in nanoseconds.
pub proof fn law_rate_is_bounded_over_time(
    states: Seq<Throttle>,
    earned: Seq<nat>,
    taken: Seq<nat>,
    nanos: Seq<nat>,
    limit: nat,
)
    requires
        is_run(states, earned, taken),
        nanos.len() == earned.len(),
        forall|i: int|
            0 <= i < earned.len() ==> #[trigger] earned[i] * 1_000_000_000 <= limit * nanos[i],
    ensures
        sum(taken) * 1_000_000_000 <= states[0].tokens() * 1_000_000_000 + limit * sum(nanos),
{
    law_rate_is_bounded(states, earned, taken);
    lemma_earned_over_time(earned, nanos, limit);
}

proof fn lemma_earned_over_time(earned: Seq<nat>, nanos: Seq<nat>, limit: nat)
    requires
        nanos.len() == earned.len(),
        forall|i: int|
            0 <= i < earned.len() ==> #[trigger] earned[i] * 1_000_000_000 <= limit * nanos[i],
    ensures
        sum(earned) * 1_000_000_000 <= limit * sum(nanos),
    decreases earned.len(),
{
    if earned.len() > 0 {
        let n = earned.len() - 1;
        assert forall|i: int| 0 <= i < earned.drop_last().len() implies #[trigger]
            earned.drop_last()[i] * 1_000_000_000 <= limit * nanos.drop_last()[i] by {
            assert(earned[i] * 1_000_000_000 <= limit * nanos[i]);
        }
        lemma_earned_over_time(earned.drop_last(), nanos.drop_last(), limit);
        assert(earned[n] * 1_000_000_000 <= limit * nanos[n]);
        assert(limit * (sum(nanos.drop_last()) + nanos.last()) == limit * sum(nanos.drop_last())
            + limit * nanos.last()) by (nonlinear_arith);
    } else {
        assert(limit * 0 == 0) by (nonlinear_arith);
    }
}

/// A bucket within its cap stays there when it is refilled, and a refill that
/// adds anything brings one above it, as after the limit was lowered, back.
pub proof fn law_refill_respects_cap(throttle: Throttle, earned: nat)
    requires
        throttle.limit() > 0,
    ensures
        throttle.tokens() <= throttle.cap() || earned > 0 ==> throttle.tokens_refilled(earned)
            <= throttle.cap(),
{
}

/// A bucket starts with its burst, and with just the limit that it was given.
pub proof fn law_bucket_starts_with_its_burst(
    max_bytes_per_sec: u64,
    burst_size: u64,
    throttle: Throttle,
    limited: bool,
)
    requires
        call_ensures(Throttle::new, (max_bytes_per_sec, burst_size), throttle),
        call_ensures(Throttle::is_limited, (&throttle,), limited),
    ensures
        throttle.tokens() == burst_size,
        throttle.limit() == max_bytes_per_sec,
        throttle.burst() == burst_size,
        limited <==> max_bytes_per_sec > 0,
{
}

/// A bucket without a limit never says no and never makes anyone wait.
pub proof fn law_without_a_limit_nothing_waits(
    throttle: &mut Throttle,
    bytes: u64,
    earned: u64,
    consumed: bool,
    consumption: Option<Consumption>,
)
    requires
        call_ensures(Throttle::try_consume, (throttle, bytes, earned), consumed),
        call_ensures(Throttle::consume, (old(throttle), bytes), consumption),
        old(throttle).limit() == 0,
    ensures
        consumed,
        consumption is None,
        final(throttle).tokens() == old(throttle).tokens(),
{
}

/// With a limit, a request passes if and only if the bucket holds enough once it was
/// refilled, and takes just its bytes; one that does not pass takes none. A refill adds
/// what was earned, up to one second's worth and the burst.
pub proof fn law_request_takes_its_bytes(
    throttle: &mut Throttle,
    bytes: u64,
    earned: u64,
    consumed: bool,
)
    requires
        call_ensures(Throttle::try_consume, (throttle, bytes, earned), consumed),
        old(throttle).limit() > 0,
        old(throttle).tokens() <= old(throttle).limit() + old(throttle).burst(),
    ensures
        ({
            let most = old(throttle).limit() + old(throttle).burst();
            let sum = old(throttle).tokens() + earned as nat;
            let held = if sum <= most {
                sum
            } else {
                most
            };
            &&& consumed <==> bytes <= held
            &&& consumed ==> final(throttle).tokens() + bytes == held
            &&& !consumed ==> final(throttle).tokens() == held
            &&& final(throttle).limit() == old(throttle).limit()
            &&& final(throttle).burst() == old(throttle).burst()
        }),
{
}

/// Another limit counts from then on; what is in the bucket stays there.
pub proof fn law_limit_can_be_changed(throttle: &mut Throttle, max_bytes_per_sec: u64, limit: u64)
    requires
        call_ensures(Throttle::set_limit, (throttle, max_bytes_per_sec), ()),
        call_ensures(Throttle::get_limit, (final(throttle),), limit),
    ensures
        limit == max_bytes_per_sec,
        final(throttle).tokens() == old(throttle).tokens(),
        final(throttle).burst() == old(throttle).burst(),
{
}

/// A consumption begins with all its bytes, in chunks of no more than one second's
/// worth.
pub proof fn law_consumption_begins_with_all_bytes(
    throttle: Throttle,
    bytes: u64,
    consumption: Option<Consumption>,
)
    requires
        call_ensures(Throttle::consume, (&throttle, bytes), consumption),
    ensures
        throttle.limit() > 0 <==> consumption is Some,
        consumption is Some ==> consumption->0.remaining() == bytes
            && consumption->0.next_chunk() <= throttle.limit(),
{
}

/// A chunk is consumed as a whole or not at all, never on credit: what leaves the
/// bucket leaves what remains, no more than the chunk limit at once. It waits only for
/// what is missing, and is finished if and only if nothing remains.
pub proof fn law_chunk_is_paid_for(
    throttle: &mut Throttle,
    consumption: &mut Consumption,
    earned: u64,
    step: ConsumeStep,
)
    requires
        call_ensures(Throttle::consume_chunk, (throttle, consumption, earned), step),
        old(throttle).limit() > 0,
        old(throttle).tokens() <= old(throttle).limit() + old(throttle).burst(),
        old(consumption).chunk_limit() > 0,
        old(consumption).remaining() > 0,
    ensures
        ({
            let most = old(throttle).limit() + old(throttle).burst();
            let sum = old(throttle).tokens() + earned as nat;
            let held = if sum <= most {
                sum
            } else {
                most
            };
            let paid = held - final(throttle).tokens();
            &&& old(consumption).remaining() - final(consumption).remaining() == paid
            &&& 0 <= paid <= old(consumption).chunk_limit()
            &&& step is Wait <==> paid == 0
            &&& step is Wait ==> {
                let chunk = held + step->needed;
                &&& step->needed > 0
                &&& chunk == old(consumption).remaining() || chunk == old(
                    consumption,
                ).chunk_limit()
                &&& chunk <= old(consumption).remaining()
                &&& chunk <= old(consumption).chunk_limit()
                &&& step->per_second == old(throttle).limit()
            }
            &&& step is Finished <==> final(consumption).remaining() == 0
            &&& step is Continue ==> paid == old(consumption).chunk_limit()
        }),
{
}

/// Whether tokens can be added, and whether a consumption can go on, is told
/// before it is tried: a refusal means a sum beyond 64 bits, or that nothing is
/// earned and the bucket does not hold the next chunk.
pub proof fn law_trouble_is_told_before(
    throttle: Throttle,
    consumption: Consumption,
    earned: u64,
    fits: bool,
    can: bool,
)
    requires
        call_ensures(Throttle::can_take_in, (&throttle, earned), fits),
        call_ensures(Throttle::can_go_on, (&throttle, &consumption), can),
    ensures
        !fits <==> throttle.limit() > 0 && earned > 0 && (throttle.limit() + throttle.burst()
            > u64::MAX || throttle.tokens() + earned > u64::MAX),
        !can <==> throttle.limit() == 0 && throttle.tokens() < consumption.remaining()
            && throttle.tokens() < consumption.chunk_limit(),
{
}

/// A bucket that limits nothing has no limit.
pub proof fn law_unlimited_bucket_has_no_limit(throttle: Throttle, limited: bool, limit: u64)
    requires
        call_ensures(Throttle::unlimited, (), throttle),
        call_ensures(Throttle::is_limited, (&throttle,), limited),
        call_ensures(Throttle::get_limit, (&throttle,), limit),
    ensures
        !limited,
        limit == 0,
{
}

} // verus!
