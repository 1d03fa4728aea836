//! Rotation over the API keys of one provider.
//!
//! A [`ManagedProvider`] holds one client per key and decides, for each
//! translation, which key to ask, how long a key rests after it ran into a
//! quota, and when to give up:
//!
//! - a key that is cooling down is skipped; the search starts at the key that
//!   was asked last and wraps around;
//! - a quota error puts the key to rest for the time that the provider named,
//!   or a default, with a cap; both depend on the [`QuotaKind`];
//! - with several keys the next one is asked at once, with a single key the
//!   caller sleeps and asks again;
//! - when every key is cooling down the translation fails at once.
//!
//! The caller asks the clients and sleeps: [`ManagedProvider::translate_with_retry`]
//! takes what happened and says what to do next. Times are nanoseconds since
//! some fixed moment, and durations are nanoseconds.

use vstd::prelude::*;

verus! {

/// The most attempts that end in a quota error within one translation, over all
/// keys: on the last of them it gives up.
pub const MAX_QUOTA_ATTEMPTS: u32 = 6;

/// The rest after a rate limit without a named time: 60 seconds.
pub const DEFAULT_RATE_LIMIT_WAIT: u128 = 60_000_000_000;

/// The longest rest after a rate limit: 5 minutes.
pub const MAX_RATE_LIMIT_WAIT: u128 = 300_000_000_000;

/// The rest after a daily quota without a named time: 1 hour.
pub const DEFAULT_DAILY_QUOTA_WAIT: u128 = 3_600_000_000_000;

/// The longest rest after a daily quota: 24 hours.
pub const MAX_DAILY_QUOTA_WAIT: u128 = 86_400_000_000_000;

/// Which quota a key ran into.
#[derive(Clone, Copy, Debug, PartialEq, Eq, Structural)]
pub enum QuotaKind {
    RateLimit,
    DailyQuota,
    Unknown,
}

struct SlotState {
    cooldown_until: Option<u128>,
}

struct Rotation {
    /// The key to try first. It stays with the key that was asked last.
    current: usize,
    slots: Vec<SlotState>,
}

/// The clients of one provider, one per key, and the state of their keys.
pub struct ManagedProvider<P> {
    provider_name: String,
    providers: Vec<P>,
    rotation: Rotation,
}

/// The state of a set of keys: which one comes first, and until when each is
/// cooling down.
pub struct KeyStates {
    pub current: int,
    pub cooldowns: Seq<Option<u128>>,
}

/// Where one translation stands: how many quota errors it has met, and which key
/// it asked last.
#[derive(Clone, Copy, Debug, PartialEq, Eq, Structural)]
pub struct Attempt {
    pub quota_errors: u32,
    pub asked: usize,
}

/// What a client answered. `E` is its error.
#[derive(Debug)]
pub enum Reply<E> {
    Text(String),
    QuotaExceeded { retry_after: Option<u128>, quota_kind: QuotaKind, error: E },
    Failed(E),
}

/// What happened to a translation.
#[derive(Debug)]
pub enum Event<E> {
    /// The translation was requested.
    Start,
    /// The client that was asked answered.
    Replied(Reply<E>),
    /// The sleep is over.
    Woke,
}

/// Why a translation failed.
#[derive(Debug)]
pub enum TranslateError<E> {
    NoProviderConfigured,
    AllProvidersCoolingDown { provider: String, retry_after: u128 },
    Provider(E),
}

/// What the caller does next.
#[derive(Debug)]
pub enum Step<E> {
    /// Ask the client with this index, and come back with its reply.
    Ask { index: usize },
    /// Sleep this long, and come back awake.
    Sleep { wait: u128 },
    /// The translation is over.
    Done(Result<String, TranslateError<E>>),
}

/// The state of the keys and of a translation after an event, and the step that
/// follows.
pub struct Outcome<E> {
    pub keys: KeyStates,
    pub attempt: Attempt,
    pub step: Step<E>,
}

/// A key with this cooldown can be asked at `now`.
pub open spec fn ready(cooldown: Option<u128>, now: u128) -> bool {
    match cooldown {
        None => true,
        Some(until) => until <= now,
    }
}

/// The earlier of two times, where there is one.
pub open spec fn earlier(a: Option<u128>, b: Option<u128>) -> Option<u128> {
    match (a, b) {
        (Some(x), Some(y)) => if y < x {
            b
        } else {
            a
        },
        (None, _) => b,
        (_, None) => a,
    }
}

/// The earliest of all times in `cooldowns`, where there is one.
pub open spec fn earliest(cooldowns: Seq<Option<u128>>) -> Option<u128>
    decreases cooldowns.len(),
{
    if cooldowns.len() == 0 {
        None
    } else {
        earlier(earliest(cooldowns.drop_last()), cooldowns.last())
    }
}

impl KeyStates {
    /// The keys of a new provider: the first one first, none cooling down.
    pub open spec fn fresh(total: nat) -> KeyStates {
        KeyStates { current: 0, cooldowns: Seq::new(total, |i: int| None) }
    }

    /// There is a first key, unless there are no keys.
    pub open spec fn wf(self) -> bool {
        0 <= self.current && (self.current < self.cooldowns.len() || self.current == 0)
    }

    /// The key at `offset` in rotation order: the first one has offset 0, and
    /// the last one is followed by key 0.
    pub open spec fn at_offset(self, offset: int) -> int {
        (self.current + offset) % (self.cooldowns.len() as int)
    }

    /// The first key in rotation order, from `offset` on, that can be asked at
    /// `now`.
    pub open spec fn first_ready(self, now: u128, offset: nat) -> Option<int>
        decreases self.cooldowns.len() - offset,
    {
        if offset >= self.cooldowns.len() {
            None
        } else if ready(self.cooldowns[self.at_offset(offset as int)], now) {
            Some(self.at_offset(offset as int))
        } else {
            self.first_ready(now, offset + 1)
        }
    }

    /// The same cooldowns, with another key first.
    pub open spec fn starting_at(self, index: int) -> KeyStates {
        KeyStates { current: index, ..self }
    }

    /// The same keys, with one of them cooling down until `until`.
    pub open spec fn resting(self, index: int, until: u128) -> KeyStates {
        KeyStates { cooldowns: self.cooldowns.update(index, Some(until)), ..self }
    }

    /// How long it is, at `now`, until the first cooldown ends.
    pub open spec fn time_to_first(self, now: u128) -> u128 {
        match earliest(self.cooldowns) {
            Some(until) if until > now => (until - now) as u128,
            _ => 0,
        }
    }
}

/// The default and the longest rest after a quota error.
pub open spec fn wait_bounds(quota_kind: QuotaKind) -> (u128, u128) {
    match quota_kind {
        QuotaKind::DailyQuota => (DEFAULT_DAILY_QUOTA_WAIT, MAX_DAILY_QUOTA_WAIT),
        _ => (DEFAULT_RATE_LIMIT_WAIT, MAX_RATE_LIMIT_WAIT),
    }
}

/// How long a key rests after a quota error: the time that the provider named,
/// else the default, and in no case longer than the cap.
pub open spec fn quota_wait(retry_after: Option<u128>, quota_kind: QuotaKind) -> u128 {
    let (default_wait, max_wait) = wait_bounds(quota_kind);
    let wanted = match retry_after {
        Some(wait) => wait,
        None => default_wait,
    };
    if wanted <= max_wait {
        wanted
    } else {
        max_wait
    }
}

/// What follows when a key is needed at `now`: the first ready key is asked, or
/// the translation fails because none is ready.
pub open spec fn ask_next<E>(name: String, keys: KeyStates, attempt: Attempt, now: u128) -> Outcome<
    E,
> {
    match keys.first_ready(now, 0) {
        Some(index) => Outcome {
            keys: keys.starting_at(index),
            attempt: Attempt { asked: index as usize, ..attempt },
            step: Step::Ask { index: index as usize },
        },
        None => Outcome {
            keys,
            attempt,
            step: Step::Done(
                Err(
                    TranslateError::AllProvidersCoolingDown {
                        provider: name,
                        retry_after: keys.time_to_first(now),
                    },
                ),
            ),
        },
    }
}

/// The keys among which the next one to ask is looked for after an event at
/// `now`: after a quota error the key that met it rests.
pub open spec fn keys_to_ask<E>(
    keys: KeyStates,
    attempt: Attempt,
    event: Event<E>,
    now: u128,
) -> KeyStates {
    match event {
        Event::Replied(Reply::QuotaExceeded { retry_after, quota_kind, .. }) => keys.resting(
            attempt.asked as int,
            (now + quota_wait(retry_after, quota_kind)) as u128,
        ),
        _ => keys,
    }
}

/// What follows on an event at `now`.
pub open spec fn outcome<E>(
    name: String,
    keys: KeyStates,
    attempt: Attempt,
    event: Event<E>,
    now: u128,
) -> Outcome<E> {
    match event {
        Event::Start => if keys.cooldowns.len() == 0 {
            Outcome {
                keys,
                attempt,
                step: Step::Done(Err(TranslateError::NoProviderConfigured)),
            }
        } else {
            ask_next(name, keys, Attempt { quota_errors: 0, asked: 0 }, now)
        },
        Event::Replied(Reply::Text(text)) => Outcome { keys, attempt, step: Step::Done(Ok(text)) },
        Event::Replied(Reply::Failed(error)) => Outcome {
            keys,
            attempt,
            step: Step::Done(Err(TranslateError::Provider(error))),
        },
        Event::Replied(Reply::QuotaExceeded { retry_after, quota_kind, error }) => {
            let counted = Attempt { quota_errors: (attempt.quota_errors + 1) as u32, ..attempt };
            if counted.quota_errors >= MAX_QUOTA_ATTEMPTS {
                Outcome {
                    keys,
                    attempt: counted,
                    step: Step::Done(Err(TranslateError::Provider(error))),
                }
            } else {
                let wait = quota_wait(retry_after, quota_kind);
                let rested = keys.resting(attempt.asked as int, (now + wait) as u128);
                if keys.cooldowns.len() > 1 {
                    ask_next(name, rested, counted, now)
                } else {
                    Outcome { keys: rested, attempt: counted, step: Step::Sleep { wait } }
                }
            }
        },
        Event::Woke => ask_next(name, keys, attempt, now),
    }
}

/// How long a key rests after a quota error.
pub fn cooldown_wait(retry_after: Option<u128>, quota_kind: QuotaKind) -> (wait: u128)
    ensures
        wait == quota_wait(retry_after, quota_kind),
{
    let (default_wait, max_wait): (u128, u128) = match quota_kind {
        QuotaKind::DailyQuota => (DEFAULT_DAILY_QUOTA_WAIT, MAX_DAILY_QUOTA_WAIT),
        QuotaKind::RateLimit | QuotaKind::Unknown => (DEFAULT_RATE_LIMIT_WAIT, MAX_RATE_LIMIT_WAIT),
    };
    let wanted: u128 = match retry_after {
        Some(wait) => wait,
        None => default_wait,
    };
    if wanted <= max_wait {
        wanted
    } else {
        max_wait
    }
}

/// The message for a provider without keys.
pub fn no_provider_configured() -> (message: &'static str)
    ensures
        message@ == "no provider configured"@,
{
    "no provider configured"
}

impl Attempt {
    /// A translation that has not begun.
    pub fn new() -> (attempt: Attempt)
        ensures
            attempt == (Attempt { quota_errors: 0, asked: 0 }),
    {
        Attempt { quota_errors: 0, asked: 0 }
    }
}

impl<P> ManagedProvider<P> {
    /// The name of the provider.
    pub closed spec fn name(&self) -> String {
        self.provider_name
    }

    /// The clients, one per key.
    pub closed spec fn clients(&self) -> Seq<P> {
        self.providers@
    }

    /// The state of the keys.
    pub closed spec fn keys(&self) -> KeyStates {
        KeyStates {
            current: self.rotation.current as int,
            cooldowns: Seq::new(
                self.rotation.slots@.len(),
                |i: int| self.rotation.slots@[i].cooldown_until,
            ),
        }
    }

    /// Every client has a key's state, and one of them comes first. The keys can be
    /// counted in a `usize`.
    pub open spec fn wf(&self) -> bool {
        &&& self.keys().wf()
        &&& self.keys().cooldowns.len() == self.clients().len()
        &&& self.clients().len() <= usize::MAX
    }

    /// A provider with one client per key. `provider_name` is for messages.
    pub fn new(provider_name: String, providers: Vec<P>) -> (r: Self)
        ensures
            r.wf(),
            r.name() == provider_name,
            r.clients() == providers@,
            r.keys() == KeyStates::fresh(providers@.len()),
    {
        let mut slots: Vec<SlotState> = Vec::new();
        let mut i: usize = 0;
        while i < providers.len()
            invariant
                i <= providers@.len(),
                slots@.len() == i,
                forall|j: int| 0 <= j < i ==> (#[trigger] slots@[j]).cooldown_until is None,
            decreases providers@.len() - i,
        {
            slots.push(SlotState { cooldown_until: None });
            i += 1;
        }
        let r = ManagedProvider { provider_name, providers, rotation: Rotation { current: 0, slots } };
        assert(r.keys().cooldowns =~= KeyStates::fresh(providers@.len()).cooldowns);
        r
    }

    /// How many keys there are.
    pub fn len(&self) -> (n: usize)
        ensures
            n == self.clients().len(),
    {
        self.providers.len()
    }

    /// The client with the given index.
    pub fn provider(&self, index: usize) -> (client: &P)
        requires
            index < self.clients().len(),
        ensures
            *client == self.clients()[index as int],
    {
        &self.providers[index]
    }

    /// Picks the next key that is not cooling down, from the current one on and
    /// around, and makes it the current one. `None` if every key is cooling
    /// down.
    pub fn pick_available_slot(&mut self, now: u128) -> (result: Option<usize>)
        requires
            old(self).wf(),
        ensures
            final(self).wf(),
            final(self).name() == old(self).name(),
            final(self).clients() == old(self).clients(),
            match old(self).keys().first_ready(now, 0) {
                Some(index) => {
                    &&& 0 <= index < old(self).clients().len()
                    &&& result matches Some(picked)
                    &&& picked == index
                    &&& final(self).keys() == old(self).keys().starting_at(index)
                },
                None => result is None && final(self).keys() == old(self).keys(),
            },
    {
        let total: usize = self.providers.len();
        let current: usize = self.rotation.current;
        let ghost keys = self.keys();
        let mut offset: usize = 0;
        while offset < total
            invariant
                *self == *old(self),
                self.wf(),
                keys == self.keys(),
                total == self.providers@.len(),
                current == self.rotation.current,
                offset <= total,
                keys.first_ready(now, 0) == keys.first_ready(now, offset as nat),
            decreases total - offset,
        {
            let idx: usize = if offset < total - current {
                current + offset
            } else {
                offset - (total - current)
            };
            proof {
                assert(idx == keys.at_offset(offset as int)) by {
                    lemma_wrap(current as int, offset as int, total as int);
                }
                assert(keys.cooldowns[idx as int]
                        == self.rotation.slots@[idx as int].cooldown_until);
            }
            let is_ready = match self.rotation.slots[idx].cooldown_until {
                None => true,
                Some(until) => until <= now,
            };
            if is_ready {
                self.rotation.current = idx;
                assert(self.keys().cooldowns =~= keys.cooldowns);
                return Some(idx);
            }
            offset += 1;
        }
        None
    }

    /// The earliest time at which a key's cooldown ends, where there is one.
    pub fn earliest_cooldown(&self) -> (result: Option<u128>)
        ensures
            result == earliest(self.keys().cooldowns),
    {
        let ghost cooldowns = self.keys().cooldowns;
        let mut best: Option<u128> = None;
        let mut i: usize = 0;
        while i < self.rotation.slots.len()
            invariant
                i <= self.rotation.slots@.len(),
                cooldowns == self.keys().cooldowns,
                best == earliest(cooldowns.take(i as int)),
            decreases self.rotation.slots@.len() - i,
        {
            let candidate: Option<u128> = self.rotation.slots[i].cooldown_until;
            proof {
                let next = cooldowns.take(i + 1);
                assert(next.drop_last() =~= cooldowns.take(i as int));
                assert(next.last() == candidate);
            }
            best = match (best, candidate) {
                (Some(x), Some(y)) => if y < x {
                    Some(y)
                } else {
                    Some(x)
                },
                (None, c) => c,
                (b, None) => b,
            };
            i += 1;
        }
        assert(cooldowns.take(i as int) =~= cooldowns);
        best
    }

    /// Puts a key to rest for `wait` from `now` on.
    pub fn put_in_cooldown(&mut self, index: usize, now: u128, wait: u128)
        requires
            old(self).wf(),
            index < old(self).clients().len(),
            now + wait <= u128::MAX,
        ensures
            final(self).wf(),
            final(self).name() == old(self).name(),
            final(self).clients() == old(self).clients(),
            final(self).keys() == old(self).keys().resting(index as int, (now + wait) as u128),
    {
        let ghost keys = self.keys();
        self.rotation.slots.set(index, SlotState { cooldown_until: Some(now + wait) });
        assert(self.keys().cooldowns =~= keys.resting(
            index as int,
            (now + wait) as u128,
        ).cooldowns);
    }

    fn next_key<E>(&mut self, attempt: &mut Attempt, now: u128) -> (step: Step<E>)
        requires
            old(self).wf(),
        ensures
            final(self).wf(),
            final(self).name() == old(self).name(),
            final(self).clients() == old(self).clients(),
            (Outcome { keys: final(self).keys(), attempt: *final(attempt), step }) == ask_next::<E>(
                old(self).name(),
                old(self).keys(),
                *old(attempt),
                now,
            ),
            step matches Step::Ask { index } ==> {
                &&& index < final(self).clients().len()
                &&& old(self).keys().first_ready(now, 0) == Some(index as int)
                &&& final(self).keys().current == index
                &&& final(attempt).asked == index
            },
    {
        match self.pick_available_slot(now) {
            Some(index) => {
                attempt.asked = index;
                Step::Ask { index }
            },
            None => {
                let retry_after: u128 = match self.earliest_cooldown() {
                    Some(until) => if until > now {
                        until - now
                    } else {
                        0
                    },
                    None => 0,
                };
                let provider = self.provider_name.clone();
                Step::Done(Err(TranslateError::AllProvidersCoolingDown { provider, retry_after }))
            },
        }
    }

    /// Takes what happened to a translation at `now` and says what to do next.
    ///
    /// A translation begins with [`Event::Start`]. After [`Step::Ask`] the
    /// caller asks that client and reports the reply, after [`Step::Sleep`] it
    /// sleeps and reports waking up, and after [`Step::Done`] it stops.
    pub fn translate_with_retry<E>(
        &mut self,
        attempt: &mut Attempt,
        event: Event<E>,
        now: u128,
    ) -> (step: Step<E>)
        requires
            old(self).wf(),
            now <= u128::MAX - MAX_DAILY_QUOTA_WAIT,
            event is Replied ==> old(attempt).asked < old(self).clients().len(),
            event is Replied ==> old(attempt).quota_errors < MAX_QUOTA_ATTEMPTS,
        ensures
            final(self).wf(),
            final(self).name() == old(self).name(),
            final(self).clients() == old(self).clients(),
            (Outcome { keys: final(self).keys(), attempt: *final(attempt), step }) == outcome(
                old(self).name(),
                old(self).keys(),
                *old(attempt),
                event,
                now,
            ),
            step matches Step::Ask { index } ==> {
                &&& index < final(self).clients().len()
                &&& keys_to_ask(old(self).keys(), *old(attempt), event, now).first_ready(now, 0)
                    == Some(index as int)
                &&& final(self).keys().current == index
                &&& final(attempt).asked == index
            },
            !(step is Done) && old(attempt).quota_errors < MAX_QUOTA_ATTEMPTS
                ==> final(attempt).quota_errors < MAX_QUOTA_ATTEMPTS,
    {
        match event {
            Event::Start => {
                if self.providers.len() == 0 {
                    return Step::Done(Err(TranslateError::NoProviderConfigured));
                }
                attempt.quota_errors = 0;
                attempt.asked = 0;
                self.next_key(attempt, now)
            },
            Event::Replied(Reply::Text(text)) => Step::Done(Ok(text)),
            Event::Replied(Reply::Failed(error)) => Step::Done(
                Err(TranslateError::Provider(error)),
            ),
            Event::Replied(Reply::QuotaExceeded { retry_after, quota_kind, error }) => {
                attempt.quota_errors = attempt.quota_errors + 1;
                if attempt.quota_errors >= MAX_QUOTA_ATTEMPTS {
                    return Step::Done(Err(TranslateError::Provider(error)));
                }
                let wait = cooldown_wait(retry_after, quota_kind);
                self.put_in_cooldown(attempt.asked, now, wait);
                if self.providers.len() > 1 {
                    self.next_key(attempt, now)
                } else {
                    Step::Sleep { wait }
                }
            },
            Event::Woke => self.next_key(attempt, now),
        }
    }
}

proof fn lemma_wrap(current: int, offset: int, total: int)
    requires
        0 <= current < total,
        0 <= offset < total,
    ensures
        (current + offset) % total == if offset < total - current {
            current + offset
        } else {
            offset - (total - current)
        },
{
    if offset < total - current {
        vstd::arithmetic::div_mod::lemma_small_mod((current + offset) as nat, total as nat);
    } else {
        vstd::arithmetic::div_mod::lemma_mod_sub_multiples_vanish(current + offset, total);
        vstd::arithmetic::div_mod::lemma_small_mod(
            (current + offset - total) as nat,
            total as nat,
        );
    }
}

/// The first ready key is a key, and it is ready; there is none exactly when
/// every key is cooling down.
pub proof fn law_first_ready_is_ready(keys: KeyStates, now: u128)
    requires
        keys.wf(),
    ensures
        match keys.first_ready(now, 0) {
            Some(index) => 0 <= index < keys.cooldowns.len() && ready(keys.cooldowns[index], now),
            None => forall|i: int|
                0 <= i < keys.cooldowns.len() ==> !ready(#[trigger] keys.cooldowns[i], now),
        },
{
    lemma_first_ready_from(keys, now, 0);
    let total = keys.cooldowns.len() as int;
    if keys.first_ready(now, 0) is None {
        assert forall|i: int| 0 <= i < total implies !ready(#[trigger] keys.cooldowns[i], now) by {
            let offset = if i >= keys.current {
                i - keys.current
            } else {
                i - keys.current + total
            };
            lemma_wrap(keys.current, offset, total);
            assert(keys.at_offset(offset) == i);
        }
    }
}

proof fn lemma_first_ready_from(keys: KeyStates, now: u128, offset: nat)
    requires
        keys.wf(),
    ensures
        match keys.first_ready(now, offset) {
            Some(index) => 0 <= index < keys.cooldowns.len() && ready(keys.cooldowns[index], now),
            None => forall|k: int|
                offset <= k < keys.cooldowns.len() ==> !ready(
                    keys.cooldowns[#[trigger] keys.at_offset(k)],
                    now,
                ),
        },
    decreases keys.cooldowns.len() - offset,
{
    if offset < keys.cooldowns.len() {
        lemma_wrap(keys.current, offset as int, keys.cooldowns.len() as int);
        lemma_first_ready_from(keys, now, offset + 1);
    }
}

/// The key that comes first is picked whenever it is ready.
pub proof fn law_current_key_is_preferred(keys: KeyStates, now: u128)
    requires
        keys.wf(),
        keys.cooldowns.len() > 0,
        ready(keys.cooldowns[keys.current], now),
    ensures
        keys.first_ready(now, 0) == Some(keys.current),
{
    lemma_wrap(keys.current, 0, keys.cooldowns.len() as int);
}

/// A key is asked only when it is not cooling down, and the key that is asked
/// comes first from then on.
pub proof fn law_asked_key_is_ready<E>(
    name: String,
    keys: KeyStates,
    attempt: Attempt,
    event: Event<E>,
    now: u128,
)
    requires
        keys.wf(),
        keys.cooldowns.len() <= usize::MAX,
        event is Replied ==> attempt.asked < keys.cooldowns.len(),
    ensures
        ({
            let after = outcome(name, keys, attempt, event, now);
            after.step matches Step::Ask { index } ==> {
                &&& index < after.keys.cooldowns.len()
                &&& ready(after.keys.cooldowns[index as int], now)
                &&& after.keys.current == index
                &&& after.attempt.asked == index
            }
        }),
{
    law_first_ready_is_ready(keys, now);
    if let Event::Replied(Reply::QuotaExceeded { retry_after, quota_kind, error }) = event {
        let wait = quota_wait(retry_after, quota_kind);
        law_first_ready_is_ready(keys.resting(attempt.asked as int, (now + wait) as u128), now);
    }
}

proof fn lemma_earliest(cooldowns: Seq<Option<u128>>)
    ensures
        forall|i: int|
            0 <= i < cooldowns.len() && cooldowns[i] is Some ==> earliest(cooldowns) is Some
                && earliest(cooldowns)->0 <= (#[trigger] cooldowns[i])->0,
        earliest(cooldowns) is Some ==> cooldowns.contains(earliest(cooldowns)),
    decreases cooldowns.len(),
{
    if cooldowns.len() > 0 {
        let rest = cooldowns.drop_last();
        lemma_earliest(rest);
        assert forall|i: int| 0 <= i < cooldowns.len() && cooldowns[i] is Some implies earliest(
            cooldowns,
        ) is Some && earliest(cooldowns)->0 <= (#[trigger] cooldowns[i])->0 by {
            if i < rest.len() {
                assert(rest[i] == cooldowns[i]);
            }
        }
        if earliest(cooldowns) is Some {
            if earliest(cooldowns) == earliest(rest) {
                let k = choose|k: int| 0 <= k < rest.len() && rest[k] == earliest(rest);
                assert(cooldowns[k] == earliest(cooldowns));
            } else {
                assert(cooldowns[cooldowns.len() - 1] == earliest(cooldowns));
            }
        }
    }
}

/// The earliest cooldown is one of the cooldowns, and none of them is earlier.
pub proof fn law_earliest_is_earliest(cooldowns: Seq<Option<u128>>)
    ensures
        match earliest(cooldowns) {
            Some(until) => {
                &&& cooldowns.contains(Some(until))
                &&& forall|i: int|
                    0 <= i < cooldowns.len() && (#[trigger] cooldowns[i]) is Some ==> until
                        <= cooldowns[i]->0
            },
            None => forall|i: int| 0 <= i < cooldowns.len() ==> (#[trigger] cooldowns[i]) is None,
        },
{
    lemma_earliest(cooldowns);
}

/// When a key is needed, the translation fails with all keys cooling down
/// exactly when no key is ready. The time that the failure names is the time
/// until the first key is ready again: not a moment earlier is any key ready.
pub proof fn law_fails_fast_when_all_cool_down<E>(
    name: String,
    keys: KeyStates,
    attempt: Attempt,
    now: u128,
)
    requires
        keys.wf(),
        keys.cooldowns.len() > 0,
    ensures
        ({
            let step = ask_next::<E>(name, keys, attempt, now).step;
            let none_ready = forall|i: int|
                0 <= i < keys.cooldowns.len() ==> !ready(#[trigger] keys.cooldowns[i], now);
            if none_ready {
                let retry_after = keys.time_to_first(now);
                &&& step == Step::<E>::Done(
                    Err(TranslateError::AllProvidersCoolingDown { provider: name, retry_after }),
                )
                &&& retry_after > 0
                &&& now + retry_after <= u128::MAX
                &&& keys.first_ready((now + retry_after) as u128, 0) is Some
                &&& forall|then_at: u128|
                    now <= then_at < now + retry_after ==> #[trigger] keys.first_ready(
                        then_at,
                        0,
                    ) is None
            } else {
                step is Ask
            }
        }),
{
    law_first_ready_is_ready(keys, now);
    if keys.first_ready(now, 0) is None {
        lemma_earliest(keys.cooldowns);
        let cooldowns = keys.cooldowns;
        assert(!ready(cooldowns[0], now));
        let until = earliest(cooldowns)->0;
        let k = choose|k: int| 0 <= k < cooldowns.len() && cooldowns[k] == earliest(cooldowns);
        assert(!ready(cooldowns[k], now));
        law_first_ready_is_ready(keys, until);
        assert(ready(cooldowns[k], until));
        assert forall|then_at: u128| now <= then_at < until implies #[trigger] keys.first_ready(
            then_at,
            0,
        ) is None by {
            law_first_ready_is_ready(keys, then_at);
            if let Some(i) = keys.first_ready(then_at, 0) {
                assert(!ready(cooldowns[i], now));
            }
        }
    }
}

/// Only keys that are cooling down are passed over: with several keys, the key
/// that just met a quota is not asked again before it has rested, and the caller
/// never sleeps.
pub proof fn law_several_keys_rotate<E>(
    name: String,
    keys: KeyStates,
    attempt: Attempt,
    retry_after: Option<u128>,
    quota_kind: QuotaKind,
    error: E,
    now: u128,
)
    requires
        keys.wf(),
        1 < keys.cooldowns.len() <= usize::MAX,
        attempt.asked < keys.cooldowns.len(),
        attempt.quota_errors + 1 < MAX_QUOTA_ATTEMPTS,
        now <= u128::MAX - MAX_DAILY_QUOTA_WAIT,
    ensures
        ({
            let event = Event::Replied(Reply::QuotaExceeded { retry_after, quota_kind, error });
            let after = outcome(name, keys, attempt, event, now);
            &&& !(after.step is Sleep)
            &&& after.keys.cooldowns[attempt.asked as int] == Some(
                (now + quota_wait(retry_after, quota_kind)) as u128,
            )
            &&& (after.step matches Step::Ask { index } ==> quota_wait(retry_after, quota_kind) > 0
                ==> index != attempt.asked)
        }),
{
    let event = Event::Replied(Reply::QuotaExceeded { retry_after, quota_kind, error });
    law_asked_key_is_ready(name, keys, attempt, event, now);
}

/// With a single key, the caller sleeps out the key's rest and then asks the
/// same key again.
pub proof fn law_single_key_waits_and_retries<E>(
    name: String,
    keys: KeyStates,
    attempt: Attempt,
    retry_after: Option<u128>,
    quota_kind: QuotaKind,
    error: E,
    now: u128,
    woken_at: u128,
)
    requires
        keys.wf(),
        keys.cooldowns.len() == 1,
        attempt.asked == 0,
        attempt.quota_errors + 1 < MAX_QUOTA_ATTEMPTS,
        now <= u128::MAX - MAX_DAILY_QUOTA_WAIT,
        woken_at >= now + quota_wait(retry_after, quota_kind),
    ensures
        ({
            let event = Event::Replied(Reply::QuotaExceeded { retry_after, quota_kind, error });
            let slept = outcome(name, keys, attempt, event, now);
            &&& slept.step == (Step::<E>::Sleep { wait: quota_wait(retry_after, quota_kind) })
            &&& outcome(name, slept.keys, slept.attempt, Event::<E>::Woke, woken_at).step
                    == (Step::<
                E,
            >::Ask { index: 0 })
        }),
{
    let event = Event::Replied(Reply::QuotaExceeded { retry_after, quota_kind, error });
    let slept = outcome(name, keys, attempt, event, now);
    law_current_key_is_preferred(slept.keys, woken_at);
}

/// A named rest is kept to the nanosecond unless it is over the cap, an unnamed
/// one is the default, and a daily quota may rest a key far longer than a rate
/// limit.
pub proof fn law_quota_wait_is_capped(retry_after: Option<u128>, quota_kind: QuotaKind)
    ensures
        quota_wait(retry_after, quota_kind) <= wait_bounds(quota_kind).1,
        retry_after is Some && retry_after->0 <= wait_bounds(quota_kind).1 ==> quota_wait(
            retry_after,
            quota_kind,
        ) == retry_after->0,
        retry_after is Some && retry_after->0 > wait_bounds(quota_kind).1 ==> quota_wait(
            retry_after,
            quota_kind,
        ) == wait_bounds(quota_kind).1,
        retry_after is None ==> quota_wait(retry_after, quota_kind) == wait_bounds(quota_kind).0,
        wait_bounds(quota_kind).1 <= MAX_DAILY_QUOTA_WAIT,
        quota_kind != QuotaKind::DailyQuota ==> quota_wait(retry_after, quota_kind)
            <= MAX_RATE_LIMIT_WAIT,
{
}

/// A key that answered with a text is the first to be asked by the next
/// translation.
pub proof fn law_stays_with_a_working_key<E>(
    name: String,
    keys: KeyStates,
    attempt: Attempt,
    event: Event<E>,
    text: String,
    idle: Attempt,
    now: u128,
    replied_at: u128,
    later: u128,
)
    requires
        keys.wf(),
        keys.cooldowns.len() <= usize::MAX,
        event is Replied ==> attempt.asked < keys.cooldowns.len(),
        outcome(name, keys, attempt, event, now).step is Ask,
        now <= later,
    ensures
        ({
            let asked = outcome(name, keys, attempt, event, now);
            let done = outcome(
                name,
                asked.keys,
                asked.attempt,
                Event::<E>::Replied(Reply::Text(text)),
                replied_at,
            );
            &&& done.step == Step::<E>::Done(Ok(text))
            &&& outcome(name, done.keys, idle, Event::<E>::Start, later).step == asked.step
        }),
{
    law_asked_key_is_ready(name, keys, attempt, event, now);
    let asked = outcome(name, keys, attempt, event, now);
    law_current_key_is_preferred(asked.keys, later);
}

/// `event` is what the caller reports after `step`.
pub open spec fn follows<E>(step: Step<E>, event: Event<E>) -> bool {
    match step {
        Step::Ask { .. } => event is Replied,
        Step::Sleep { .. } => event is Woke,
        Step::Done(_) => false,
    }
}

/// What a translation meets at one moment: the keys as they are, which other
/// translations may have changed meanwhile, an event, and its time.
pub struct Moment<E> {
    pub keys: KeyStates,
    pub event: Event<E>,
    pub now: u128,
}

/// The outcomes of a series of moments, one after another.
pub open spec fn outcomes<E>(name: String, moments: Seq<Moment<E>>) -> Seq<Outcome<E>>
    decreases moments.len(),
{
    if moments.len() == 0 {
        seq![]
    } else {
        let before = outcomes(name, moments.drop_last());
        let Moment { keys, event, now } = moments.last();
        let attempt = if before.len() == 0 {
            Attempt { quota_errors: 0, asked: 0 }
        } else {
            before.last().attempt
        };
        before.push(outcome(name, keys, attempt, event, now))
    }
}

/// The moments are those of one translation, up to some time: it starts, and
/// each further event is what the step before it asked for.
pub open spec fn is_translation<E>(name: String, moments: Seq<Moment<E>>) -> bool {
    let steps = outcomes(name, moments);
    &&& moments.len() > 0
    &&& moments[0].event is Start
    &&& forall|i: int|
        0 < i < moments.len() ==> follows(steps[i - 1].step, (#[trigger] moments[i]).event)
}

/// How many of the outcomes ask a client.
pub open spec fn asks<E>(steps: Seq<Outcome<E>>) -> nat
    decreases steps.len(),
{
    if steps.len() == 0 {
        0
    } else {
        asks(steps.drop_last()) + if steps.last().step is Ask {
            1nat
        } else {
            0nat
        }
    }
}

proof fn lemma_outcomes_len<E>(name: String, moments: Seq<Moment<E>>)
    ensures
        outcomes(name, moments).len() == moments.len(),
    decreases moments.len(),
{
    if moments.len() > 0 {
        lemma_outcomes_len(name, moments.drop_last());
    }
}

proof fn lemma_translation_progress<E>(name: String, moments: Seq<Moment<E>>)
    requires
        is_translation(name, moments),
    ensures
        ({
            let steps = outcomes(name, moments);
            let errors = steps.last().attempt.quota_errors;
            &&& steps.len() == moments.len()
            &&& match steps.last().step {
                Step::Ask { .. } => errors < MAX_QUOTA_ATTEMPTS && asks(steps) == errors + 1
                    && moments.len() <= 2 * errors + 1,
                Step::Sleep { .. } => errors < MAX_QUOTA_ATTEMPTS && asks(steps) == errors
                    && moments.len() <= 2 * errors,
                Step::Done(_) => asks(steps) <= MAX_QUOTA_ATTEMPTS && moments.len() <= 2
                    * MAX_QUOTA_ATTEMPTS,
            }
        }),
    decreases moments.len(),
{
    let steps = outcomes(name, moments);
    let earlier_moments = moments.drop_last();
    let before = outcomes(name, earlier_moments);
    lemma_outcomes_len(name, moments);
    lemma_outcomes_len(name, earlier_moments);
    assert(steps.drop_last() =~= before);
    if moments.len() == 1 {
        assert(before =~= seq![]);
        assert(asks(before) == 0);
    } else {
        assert forall|i: int| 0 < i < earlier_moments.len() implies follows(
            before[i - 1].step,
            (#[trigger] earlier_moments[i]).event,
        ) by {
            assert(earlier_moments[i] == moments[i]);
            assert(steps[i - 1] == before[i - 1]);
        }
        lemma_translation_progress(name, earlier_moments);
        assert(follows(steps[moments.len() - 2].step, moments[moments.len() - 1].event));
        assert(steps[moments.len() - 2] == before.last());
    }
}

/// However the clients answer, and whatever other translations do to the keys
/// meanwhile, one translation asks at most six times and is over after at most
/// twelve events.
pub proof fn law_translation_ends<E>(name: String, moments: Seq<Moment<E>>)
    requires
        is_translation(name, moments),
    ensures
        asks(outcomes(name, moments)) <= MAX_QUOTA_ATTEMPTS,
        moments.len() <= 2 * MAX_QUOTA_ATTEMPTS,
{
    lemma_translation_progress(name, moments);
}

/// The moments are those of a translation with a single key that meets nothing
/// but quota errors and wakes up on time.
pub open spec fn is_out_of_luck<E>(name: String, moments: Seq<Moment<E>>) -> bool {
    let steps = outcomes(name, moments);
    &&& is_translation(name, moments)
    &&& moments[0].keys.wf()
    &&& moments[0].keys.cooldowns.len() == 1
    &&& ready(moments[0].keys.cooldowns[0], moments[0].now)
    &&& forall|i: int|
        0 <= i < moments.len() ==> (#[trigger] moments[i]).now <= u128::MAX - MAX_DAILY_QUOTA_WAIT
    &&& forall|i: int|
        0 < i < moments.len() ==> {
            &&& (#[trigger] moments[i]).keys == steps[i - 1].keys
            &&& moments[i].event is Replied ==> moments[i].event->Replied_0 is QuotaExceeded
            &&& steps[i - 1].step is Sleep ==> moments[i].now >= moments[i - 1].now
                + steps[i - 1].step->wait
        }
}

proof fn lemma_out_of_luck<E>(name: String, moments: Seq<Moment<E>>)
    requires
        is_out_of_luck(name, moments),
    ensures
        ({
            let last = outcomes(name, moments).last();
            &&& last.keys.current == 0
            &&& last.keys.cooldowns.len() == 1
            &&& match last.step {
                Step::Ask { index } => index == 0 && last.attempt.asked == 0,
                Step::Sleep { wait } => last.attempt.asked == 0 && last.keys.cooldowns[0] == Some(
                    (moments.last().now + wait) as u128,
                ) && wait <= MAX_DAILY_QUOTA_WAIT,
                Step::Done(result) => {
                    &&& last.attempt.quota_errors == MAX_QUOTA_ATTEMPTS
                    &&& moments.last().event is Replied
                    &&& result == Err::<String, _>(
                        TranslateError::Provider(
                            moments.last().event->Replied_0->QuotaExceeded_error,
                        ),
                    )
                },
            }
        }),
    decreases moments.len(),
{
    let steps = outcomes(name, moments);
    let earlier_moments = moments.drop_last();
    let before = outcomes(name, earlier_moments);
    lemma_outcomes_len(name, moments);
    lemma_outcomes_len(name, earlier_moments);
    assert(steps.drop_last() =~= before);
    let now = moments.last();
    if moments.len() == 1 {
        law_current_key_is_preferred(now.keys, now.now);
    } else {
        assert(earlier_moments[0] == moments[0]);
        assert forall|i: int| 0 < i < earlier_moments.len() implies follows(
            before[i - 1].step,
            (#[trigger] earlier_moments[i]).event,
        ) by {
            assert(earlier_moments[i] == moments[i]);
            assert(steps[i - 1] == before[i - 1]);
        }
        assert forall|i: int| 0 < i < earlier_moments.len() implies {
            &&& (#[trigger] earlier_moments[i]).keys == before[i - 1].keys
            &&& earlier_moments[i].event is Replied
                ==> earlier_moments[i].event->Replied_0 is QuotaExceeded
            &&& before[i - 1].step is Sleep ==> earlier_moments[i].now >= earlier_moments[i - 1].now
                + before[i - 1].step->wait
        } by {
            assert(earlier_moments[i] == moments[i]);
            assert(earlier_moments[i - 1] == moments[i - 1]);
            assert(steps[i - 1] == before[i - 1]);
        }
        assert forall|i: int| 0 <= i < earlier_moments.len() implies (
        #[trigger] earlier_moments[i]).now <= u128::MAX - MAX_DAILY_QUOTA_WAIT by {
            assert(earlier_moments[i] == moments[i]);
        }
        lemma_out_of_luck(name, earlier_moments);
        lemma_translation_progress(name, earlier_moments);
        assert(follows(steps[moments.len() - 2].step, moments[moments.len() - 1].event));
        assert(steps[moments.len() - 2] == before.last());
        assert(moments[moments.len() - 1].keys == before.last().keys);
        assert(earlier_moments.last() == moments[moments.len() - 2]);
        if before.last().step is Sleep {
            assert(ready(now.keys.cooldowns[0], now.now));
            law_current_key_is_preferred(now.keys, now.now);
        }
    }
}

/// A single key that meets nothing but quota errors, with a caller that sleeps as
/// long as it is told, is asked exactly six times; the translation then fails
/// with the last of the provider's errors, never with all keys cooling down.
pub proof fn law_single_key_gives_up_on_the_last_error<E>(name: String, moments: Seq<Moment<E>>)
    requires
        is_out_of_luck(name, moments),
    ensures
        match outcomes(name, moments).last().step {
            Step::Done(result) => {
                &&& asks(outcomes(name, moments)) == MAX_QUOTA_ATTEMPTS
                &&& moments.last().event is Replied
                &&& result == Err::<String, _>(
                    TranslateError::Provider(moments.last().event->Replied_0->QuotaExceeded_error),
                )
            },
            _ => moments.len() < 2 * MAX_QUOTA_ATTEMPTS,
        },
{
    lemma_out_of_luck(name, moments);
    lemma_translation_progress(name, moments);
    if outcomes(name, moments).last().step is Done {
        let steps = outcomes(name, moments);
        let earlier_moments = moments.drop_last();
        let before = outcomes(name, earlier_moments);
        lemma_outcomes_len(name, earlier_moments);
        assert(steps.drop_last() =~= before);
        assert(earlier_moments.len() > 0);
        assert(follows(steps[moments.len() - 2].step, moments[moments.len() - 1].event));
        assert(steps[moments.len() - 2] == before.last());
        assert forall|i: int| 0 < i < earlier_moments.len() implies follows(
            before[i - 1].step,
            (#[trigger] earlier_moments[i]).event,
        ) by {
            assert(earlier_moments[i] == moments[i]);
            assert(steps[i - 1] == before[i - 1]);
        }
        assert(earlier_moments[0] == moments[0]);
        lemma_translation_progress(name, earlier_moments);
    }
}

/// How far behind `start` the key `index` stands in rotation order, among `total`
/// keys of which the last one is followed by the first.
pub open spec fn distance(start: int, index: int, total: int) -> int {
    if index >= start {
        index - start
    } else {
        index + total - start
    }
}

/// A key with this cooldown is resting at `now`.
pub open spec fn is_resting(cooldown: Option<u128>, now: u128) -> bool {
    cooldown is Some && cooldown->0 > now
}

/// The event needs a key to be asked: the translation starts, the caller woke up, or
/// one of several keys met a quota, though not for the sixth time.
pub open spec fn needs_a_key<E>(event: Event<E>, quota_errors: u32, total: nat) -> bool {
    match event {
        Event::Start => true,
        Event::Woke => true,
        Event::Replied(reply) => reply is QuotaExceeded && total > 1 && quota_errors + 1 < 6,
    }
}

proof fn lemma_first_ready_is_nearest(keys: KeyStates, now: u128, offset: nat)
    requires
        keys.wf(),
        offset <= keys.cooldowns.len(),
    ensures
        ({
            let total = keys.cooldowns.len() as int;
            match keys.first_ready(now, offset) {
                Some(index) => {
                    &&& 0 <= index < total
                    &&& !is_resting(keys.cooldowns[index], now)
                    &&& offset <= distance(keys.current, index, total)
                    &&& forall|j: int|
                        0 <= j < total && offset <= distance(keys.current, j, total) < distance(
                            keys.current,
                            index,
                            total,
                        ) ==> is_resting(#[trigger] keys.cooldowns[j], now)
                },
                None => forall|j: int|
                    0 <= j < total && offset <= distance(keys.current, j, total) ==> is_resting(
                        #[trigger] keys.cooldowns[j],
                        now,
                    ),
            }
        }),
    decreases keys.cooldowns.len() - offset,
{
    let total = keys.cooldowns.len() as int;
    if offset < keys.cooldowns.len() {
        lemma_wrap(keys.current, offset as int, total);
        lemma_first_ready_is_nearest(keys, now, offset + 1);
        let here = keys.at_offset(offset as int);
        assert(distance(keys.current, here, total) == offset);
    }
}

/// A reply that is no quota error ends the translation at once, for any number of
/// keys and whatever happened before: a text with that text, a failure with that
/// failure. The keys stay as they were.
pub proof fn law_other_replies_end_the_translation<P, E>(
    managed: &mut ManagedProvider<P>,
    attempt: &mut Attempt,
    event: Event<E>,
    now: u128,
    step: Step<E>,
)
    requires
        old(managed).wf(),
        old(managed).clients().len() > 0,
        now <= u128::MAX - MAX_DAILY_QUOTA_WAIT,
        event is Replied ==> old(attempt).asked < old(managed).clients().len(),
        event is Replied ==> old(attempt).quota_errors < MAX_QUOTA_ATTEMPTS,
        call_ensures(
            ManagedProvider::<P>::translate_with_retry::<E>,
            (managed, attempt, event, now),
            step,
        ),
        event is Replied,
        !(event->Replied_0 is QuotaExceeded),
    ensures
        event->Replied_0 matches Reply::Failed(error) ==> step == Step::<E>::Done(
            Err(TranslateError::Provider(error)),
        ),
        event->Replied_0 matches Reply::Text(text) ==> step == Step::<E>::Done(Ok(text)),
        final(managed).keys() == old(managed).keys(),
        *final(attempt) == *old(attempt),
{
}

/// What can follow on what. A key is asked only after a start, a sleep or a quota
/// error; the caller sleeps only after a quota error; a text comes out only where one
/// came in, and a client's error only where that client failed, or met a quota for
/// the sixth time.
pub proof fn law_steps_follow_their_events<P, E>(
    managed: &mut ManagedProvider<P>,
    attempt: &mut Attempt,
    event: Event<E>,
    now: u128,
    step: Step<E>,
)
    requires
        old(managed).wf(),
        old(managed).clients().len() > 0,
        now <= u128::MAX - MAX_DAILY_QUOTA_WAIT,
        event is Replied ==> old(attempt).asked < old(managed).clients().len(),
        event is Replied ==> old(attempt).quota_errors < MAX_QUOTA_ATTEMPTS,
        call_ensures(
            ManagedProvider::<P>::translate_with_retry::<E>,
            (managed, attempt, event, now),
            step,
        ),
    ensures
        step is Ask ==> event is Start || event is Woke || event->Replied_0 is QuotaExceeded,
        step is Ask ==> needs_a_key(event, old(attempt).quota_errors, old(managed).clients().len()),
        step is Sleep ==> event is Replied && event->Replied_0 is QuotaExceeded
            && old(managed).clients().len() == 1,
        step is Done && step->Done_0 is Ok ==> event is Replied && event->Replied_0 is Text
            && event->Replied_0->Text_0 == step->Done_0->Ok_0,
        step is Done && step->Done_0 is Err && step->Done_0->Err_0 is Provider ==> {
            let error = step->Done_0->Err_0->Provider_0;
            &&& event is Replied
            &&& match event->Replied_0 {
                Reply::Failed(failure) => error == failure,
                Reply::QuotaExceeded { error: failure, .. } => error == failure
                    && old(attempt).quota_errors + 1 >= 6,
                Reply::Text(_) => false,
            }
        },
        !(step is Done && step->Done_0 is Err && step->Done_0->Err_0 is NoProviderConfigured),
{
    law_first_ready_is_ready(old(managed).keys(), now);
}

/// A sixth quota error in one translation ends it with that error, without another
/// rest; an earlier one puts the key that met it to rest from now on, for as long as
/// such a key rests, and no other key. Nothing else changes when a key may be asked.
pub proof fn law_only_the_key_that_met_a_quota_rests<P, E>(
    managed: &mut ManagedProvider<P>,
    attempt: &mut Attempt,
    event: Event<E>,
    now: u128,
    step: Step<E>,
)
    requires
        old(managed).wf(),
        old(managed).clients().len() > 0,
        now <= u128::MAX - MAX_DAILY_QUOTA_WAIT,
        event is Replied ==> old(attempt).asked < old(managed).clients().len(),
        event is Replied ==> old(attempt).quota_errors < MAX_QUOTA_ATTEMPTS,
        call_ensures(
            ManagedProvider::<P>::translate_with_retry::<E>,
            (managed, attempt, event, now),
            step,
        ),
    ensures
        final(managed).keys().cooldowns.len() == old(managed).keys().cooldowns.len(),
        final(managed).clients() == old(managed).clients(),
        final(managed).name() == old(managed).name(),
        forall|i: int|
            0 <= i < old(managed).keys().cooldowns.len() && !(event is Replied
                && event->Replied_0 is QuotaExceeded && i == old(attempt).asked)
                ==> #[trigger] final(managed).keys().cooldowns[i]
                        == old(managed).keys().cooldowns[i],
        event is Replied && event->Replied_0 is QuotaExceeded ==> {
            let asked = old(attempt).asked as int;
            let given_up = old(attempt).quota_errors + 1 >= 6;
            &&& given_up ==> step == Step::<E>::Done(
                Err(TranslateError::Provider(event->Replied_0->QuotaExceeded_error)),
            )
            &&& given_up ==> final(managed).keys() == old(managed).keys()
            &&& !given_up ==> final(managed).keys().cooldowns[asked] is Some
            &&& !given_up ==> forall|wait: u128| #[trigger]
                call_ensures(
                    cooldown_wait,
                    (
                        event->Replied_0->QuotaExceeded_retry_after,
                        event->Replied_0->QuotaExceeded_quota_kind,
                    ),
                    wait,
                ) ==> final(managed).keys().cooldowns[asked]->0 == now + wait
        },
        !(step is Ask) ==> final(managed).keys().current == old(managed).keys().current,
{
    law_first_ready_is_ready(old(managed).keys(), now);
}

/// How quota errors are counted: from zero at the start of a translation, one more
/// with each.
pub proof fn law_quota_errors_are_counted<P, E>(
    managed: &mut ManagedProvider<P>,
    attempt: &mut Attempt,
    event: Event<E>,
    now: u128,
    step: Step<E>,
)
    requires
        old(managed).wf(),
        old(managed).clients().len() > 0,
        now <= u128::MAX - MAX_DAILY_QUOTA_WAIT,
        event is Replied ==> old(attempt).asked < old(managed).clients().len(),
        event is Replied ==> old(attempt).quota_errors < MAX_QUOTA_ATTEMPTS,
        call_ensures(
            ManagedProvider::<P>::translate_with_retry::<E>,
            (managed, attempt, event, now),
            step,
        ),
    ensures
        final(attempt).quota_errors == match event {
            Event::Start => 0int,
            Event::Replied(Reply::QuotaExceeded { .. }) => old(attempt).quota_errors + 1,
            _ => old(attempt).quota_errors as int,
        },
        !(step is Ask) && !(event is Start) ==> final(attempt).asked == old(attempt).asked,
{
}

/// With a single key, a quota error that is not the sixth has the caller sleep for
/// exactly the time that the key rests; with several the caller never sleeps.
pub proof fn law_only_a_single_key_is_waited_for<P, E>(
    managed: &mut ManagedProvider<P>,
    attempt: &mut Attempt,
    event: Event<E>,
    now: u128,
    step: Step<E>,
)
    requires
        old(managed).wf(),
        old(managed).clients().len() > 0,
        now <= u128::MAX - MAX_DAILY_QUOTA_WAIT,
        event is Replied ==> old(attempt).asked < old(managed).clients().len(),
        event is Replied ==> old(attempt).quota_errors < MAX_QUOTA_ATTEMPTS,
        call_ensures(
            ManagedProvider::<P>::translate_with_retry::<E>,
            (managed, attempt, event, now),
            step,
        ),
        event is Replied,
        event->Replied_0 is QuotaExceeded,
        old(attempt).quota_errors + 1 < 6,
    ensures
        old(managed).clients().len() > 1 ==> !(step is Sleep),
        old(managed).clients().len() == 1
            ==> step is Sleep
                && final(managed).keys().cooldowns[old(attempt).asked as int] == Some((now + step->wait) as u128)
            && step->wait <= 24 * 60 * 60 * 1_000_000_000,
{
}

/// The key that is asked is not resting, and every key from the current one up to it,
/// in rotation order, is. It is the current key from then on.
pub proof fn law_nearest_ready_key_is_asked<P, E>(
    managed: &mut ManagedProvider<P>,
    attempt: &mut Attempt,
    event: Event<E>,
    now: u128,
    step: Step<E>,
)
    requires
        old(managed).wf(),
        old(managed).clients().len() > 0,
        now <= u128::MAX - MAX_DAILY_QUOTA_WAIT,
        event is Replied ==> old(attempt).asked < old(managed).clients().len(),
        event is Replied ==> old(attempt).quota_errors < MAX_QUOTA_ATTEMPTS,
        call_ensures(
            ManagedProvider::<P>::translate_with_retry::<E>,
            (managed, attempt, event, now),
            step,
        ),
        step is Ask,
    ensures
        ({
            let cooldowns = final(managed).keys().cooldowns;
            let total = cooldowns.len() as int;
            let start = old(managed).keys().current;
            let index = step->index as int;
            &&& index < total
            &&& !is_resting(cooldowns[index], now)
            &&& forall|j: int|
                0 <= j < total && distance(start, j, total) < distance(start, index, total)
                    ==> is_resting(#[trigger] cooldowns[j], now)
            &&& final(managed).keys().current == index
            &&& final(attempt).asked == index
        }),
{
    let keys = keys_to_ask(old(managed).keys(), *old(attempt), event, now);
    lemma_first_ready_is_nearest(keys, now, 0);
}

/// Where a key is needed, one is asked unless all are resting. If all are, the
/// translation fails at once, under the provider's name and with the time until the
/// first of them is ready: one key's rest ends then, and none ends before.
pub proof fn law_resting_keys_fail_fast<P, E>(
    managed: &mut ManagedProvider<P>,
    attempt: &mut Attempt,
    event: Event<E>,
    now: u128,
    step: Step<E>,
)
    requires
        old(managed).wf(),
        old(managed).clients().len() > 0,
        now <= u128::MAX - MAX_DAILY_QUOTA_WAIT,
        event is Replied ==> old(attempt).asked < old(managed).clients().len(),
        event is Replied ==> old(attempt).quota_errors < MAX_QUOTA_ATTEMPTS,
        call_ensures(
            ManagedProvider::<P>::translate_with_retry::<E>,
            (managed, attempt, event, now),
            step,
        ),
    ensures
        ({
            let cooldowns = final(managed).keys().cooldowns;
            let total = cooldowns.len();
            let all_rest = forall|i: int|
                0 <= i < total ==> is_resting(#[trigger] cooldowns[i], now);
            let failed = step is Done && step->Done_0 is Err
                && step->Done_0->Err_0 is AllProvidersCoolingDown;
            let retry_after = step->Done_0->Err_0->retry_after;
            &&& failed <==> needs_a_key(event, old(attempt).quota_errors, total) && all_rest
            &&& needs_a_key(event, old(attempt).quota_errors, total) && !all_rest ==> step is Ask
            &&& failed ==> step->Done_0->Err_0->provider == old(managed).name()
            &&& failed ==> exists|i: int|
                0 <= i < total && (#[trigger] cooldowns[i])->0 == now + retry_after
            &&& failed ==> forall|i: int|
                0 <= i < total ==> (#[trigger] cooldowns[i])->0 >= now + retry_after
        }),
{
    let keys = keys_to_ask(old(managed).keys(), *old(attempt), event, now);
    law_first_ready_is_ready(keys, now);
    law_earliest_is_earliest(keys.cooldowns);
    assert forall|i: int| 0 <= i < keys.cooldowns.len() implies is_resting(
        #[trigger] keys.cooldowns[i],
        now,
    ) == !ready(keys.cooldowns[i], now) by {}
    if needs_a_key(event, old(attempt).quota_errors, keys.cooldowns.len()) {
        if keys.first_ready(now, 0) is None {
            assert(!ready(keys.cooldowns[0], now));
            let until = earliest(keys.cooldowns)->0;
            let k = choose|k: int|
                0 <= k < keys.cooldowns.len() && keys.cooldowns[k] == Some(until);
            assert(!ready(keys.cooldowns[k], now));
            assert(keys.cooldowns[k]->0 == now + keys.time_to_first(now));
        } else {
            let index = keys.first_ready(now, 0)->0;
            assert(!is_resting(keys.cooldowns[index], now));
        }
    }
}

/// Without keys a translation fails at once for want of a provider, and only then;
/// nothing changes.
pub proof fn law_no_key_is_no_provider<P, E>(
    managed: &mut ManagedProvider<P>,
    attempt: &mut Attempt,
    now: u128,
    step: Step<E>,
    message: &'static str,
)
    requires
        old(managed).wf(),
        old(managed).clients().len() == 0,
        now <= u128::MAX - MAX_DAILY_QUOTA_WAIT,
        call_ensures(
            ManagedProvider::<P>::translate_with_retry::<E>,
            (managed, attempt, Event::Start, now),
            step,
        ),
        call_ensures(no_provider_configured, (), message),
    ensures
        step == Step::<E>::Done(Err(TranslateError::NoProviderConfigured)),
        final(managed).keys() == old(managed).keys(),
        message@ == "no provider configured"@,
{
}

/// Every event is taken that the protocol allows: a start and a waking always, a
/// reply from a key that was asked in a translation that has not given up.
pub proof fn law_every_event_is_taken<P, E>(
    managed: &mut ManagedProvider<P>,
    attempt: &mut Attempt,
    event: Event<E>,
    now: u128,
)
    requires
        old(managed).wf(),
        now <= u128::MAX - 24 * 60 * 60 * 1_000_000_000,
        event is Replied
            ==> old(attempt).asked < old(managed).clients().len() && old(attempt).quota_errors < 6,
    ensures
        call_requires(
            ManagedProvider::<P>::translate_with_retry::<E>,
            (managed, attempt, event, now),
        ),
{
}

/// How long a key rests, in nanoseconds: after a daily quota an hour, or as long as
/// the provider said up to a day; after any other quota a minute, or as long as the
/// provider said up to five.
pub proof fn law_rest_is_as_documented(
    retry_after: Option<u128>,
    quota_kind: QuotaKind,
    wait: u128,
)
    requires
        call_ensures(cooldown_wait, (retry_after, quota_kind), wait),
    ensures
        ({
            let second: int = 1_000_000_000;
            let cap = if quota_kind == QuotaKind::DailyQuota {
                24 * 60 * 60 * second
            } else {
                5 * 60 * second
            };
            let default = if quota_kind == QuotaKind::DailyQuota {
                60 * 60 * second
            } else {
                60 * second
            };
            &&& wait <= cap
            &&& retry_after is None ==> wait == default
            &&& retry_after is Some && retry_after->0 <= cap ==> wait == retry_after->0
            &&& retry_after is Some && retry_after->0 > cap ==> wait == cap
            &&& wait == quota_wait(retry_after, quota_kind)
        }),
{
}

/// A key that was put to rest is not picked before its rest is over; from then on it
/// is ready.
pub proof fn law_rested_key_is_not_picked_early<P>(
    managed: &mut ManagedProvider<P>,
    index: usize,
    now: u128,
    wait: u128,
    later: &mut ManagedProvider<P>,
    then_at: u128,
    picked: Option<usize>,
)
    requires
        old(managed).wf(),
        index < old(managed).clients().len(),
        now + wait <= u128::MAX,
        call_ensures(ManagedProvider::<P>::put_in_cooldown, (managed, index, now, wait), ()),
        old(later).wf(),
        old(later).keys() == final(managed).keys(),
        call_ensures(ManagedProvider::<P>::pick_available_slot, (later, then_at), picked),
    ensures
        then_at < now + wait ==> picked != Some(index),
        then_at >= now + wait ==> picked is Some,
        forall|i: int|
            0 <= i < old(managed).keys().cooldowns.len() && i != index
                ==> #[trigger] final(managed).keys().cooldowns[i]
                    == old(managed).keys().cooldowns[i],
        final(managed).keys().current == old(managed).keys().current,
        final(managed).keys().cooldowns[index as int] == Some((now + wait) as u128),
{
    let keys = old(later).keys();
    law_first_ready_is_ready(keys, then_at);
    assert(keys.cooldowns[index as int] == Some((now + wait) as u128));
}

/// The key that is picked is not resting, and every key from the current one up to
/// it, in rotation order, is. None is picked exactly when all rest.
pub proof fn law_nearest_ready_key_is_picked<P>(
    managed: &mut ManagedProvider<P>,
    now: u128,
    picked: Option<usize>,
)
    requires
        old(managed).wf(),
        call_ensures(ManagedProvider::<P>::pick_available_slot, (managed, now), picked),
    ensures
        ({
            let before = old(managed).keys();
            let after = final(managed).keys();
            let total = before.cooldowns.len() as int;
            &&& after.cooldowns == before.cooldowns
            &&& match picked {
                Some(index) => {
                    &&& index < total
                    &&& !is_resting(before.cooldowns[index as int], now)
                    &&& after.current == index
                    &&& forall|j: int|
                        0 <= j < total && distance(before.current, j, total) < distance(
                            before.current,
                            index as int,
                            total,
                        ) ==> is_resting(#[trigger] before.cooldowns[j], now)
                },
                None => {
                    &&& after.current == before.current
                    &&& forall|j: int|
                        0 <= j < total ==> is_resting(#[trigger] before.cooldowns[j], now)
                },
            }
        }),
{
    lemma_first_ready_is_nearest(old(managed).keys(), now, 0);
}

/// The earliest cooldown is one of the cooldowns, and none of them is earlier; there
/// is none exactly when no key has one.
pub proof fn law_earliest_cooldown_is_the_first_to_end<P>(
    managed: &ManagedProvider<P>,
    result: Option<u128>,
)
    requires
        call_ensures(ManagedProvider::<P>::earliest_cooldown, (managed,), result),
    ensures
        ({
            let cooldowns = managed.keys().cooldowns;
            match result {
                Some(until) => {
                    &&& exists|i: int|
                        0 <= i < cooldowns.len() && #[trigger] cooldowns[i] == Some(until)
                    &&& forall|i: int|
                        0 <= i < cooldowns.len() && (#[trigger] cooldowns[i]) is Some ==> until
                            <= cooldowns[i]->0
                },
                None => forall|i: int|
                    0 <= i < cooldowns.len() ==> (#[trigger] cooldowns[i]) is None,
            }
        }),
{
    law_earliest_is_earliest(managed.keys().cooldowns);
}

/// A new provider has one key per client, none of them resting, and begins with the
/// first; it knows its clients by their indices, and its name.
pub proof fn law_new_provider_is_rested<P>(
    provider_name: String,
    providers: Vec<P>,
    managed: ManagedProvider<P>,
    total: usize,
    index: usize,
    client: &P,
)
    requires
        call_ensures(ManagedProvider::<P>::new, (provider_name, providers), managed),
        call_ensures(ManagedProvider::<P>::len, (&managed,), total),
        index < providers@.len(),
        call_ensures(ManagedProvider::<P>::provider, (&managed, index), client),
    ensures
        managed.wf(),
        managed.name() == provider_name,
        total == providers@.len(),
        *client == providers@[index as int],
        managed.keys().current == 0,
        managed.keys().cooldowns.len() == providers@.len(),
        forall|i: int|
            0 <= i < providers@.len() ==> (#[trigger] managed.keys().cooldowns[i]) is None,
{
}

/// The first translation of a new provider asks its first key, at any time.
pub proof fn law_new_provider_asks_its_first_key<P, E>(
    provider_name: String,
    providers: Vec<P>,
    made: ManagedProvider<P>,
    managed: &mut ManagedProvider<P>,
    attempt: &mut Attempt,
    now: u128,
    step: Step<E>,
)
    requires
        call_ensures(ManagedProvider::<P>::new, (provider_name, providers), made),
        *old(managed) == made,
        providers@.len() > 0,
        now <= u128::MAX - MAX_DAILY_QUOTA_WAIT,
        call_ensures(
            ManagedProvider::<P>::translate_with_retry::<E>,
            (managed, attempt, Event::Start, now),
            step,
        ),
    ensures
        step == (Step::<E>::Ask { index: 0 }),
        final(attempt).quota_errors == 0,
{
    law_current_key_is_preferred(made.keys(), now);
}

/// A translation that has not begun has met no quota error.
pub proof fn law_new_attempt_is_clean(attempt: Attempt)
    requires
        call_ensures(Attempt::new, (), attempt),
    ensures
        attempt.quota_errors == 0,
        attempt.asked == 0,
{
}

} // verus!
