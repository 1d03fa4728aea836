use koharu::managed::{
    cooldown_wait, no_provider_configured, Attempt, Event, ManagedProvider, QuotaKind, Reply, Step, TranslateError,
    DEFAULT_DAILY_QUOTA_WAIT, DEFAULT_RATE_LIMIT_WAIT, MAX_DAILY_QUOTA_WAIT, MAX_QUOTA_ATTEMPTS,
    MAX_RATE_LIMIT_WAIT,
};

const SECOND: u128 = 1_000_000_000;

fn provider(keys: &[&'static str]) -> ManagedProvider<&'static str> {
    ManagedProvider::new("gemini".to_string(), keys.to_vec())
}

fn quota(retry_after: Option<u128>, quota_kind: QuotaKind) -> Event<&'static str> {
    Event::Replied(Reply::QuotaExceeded { retry_after, quota_kind, error: "429" })
}

fn text() -> Event<&'static str> {
    Event::Replied(Reply::Text("hello".to_string()))
}

#[test]
fn waits_are_the_documented_ones() {
    assert_eq!(DEFAULT_RATE_LIMIT_WAIT, 60 * SECOND);
    assert_eq!(MAX_RATE_LIMIT_WAIT, 5 * 60 * SECOND);
    assert_eq!(DEFAULT_DAILY_QUOTA_WAIT, 60 * 60 * SECOND);
    assert_eq!(MAX_DAILY_QUOTA_WAIT, 24 * 60 * 60 * SECOND);
    assert_eq!(MAX_QUOTA_ATTEMPTS, 6);
}

#[test]
fn rest_is_named_or_default_and_capped() {
    for kind in [QuotaKind::RateLimit, QuotaKind::Unknown] {
        assert_eq!(cooldown_wait(None, kind), 60 * SECOND);
        assert_eq!(cooldown_wait(Some(7), kind), 7);
        assert_eq!(cooldown_wait(Some(300 * SECOND), kind), 300 * SECOND);
        assert_eq!(cooldown_wait(Some(301 * SECOND), kind), 300 * SECOND);
    }
    assert_eq!(cooldown_wait(None, QuotaKind::DailyQuota), 3600 * SECOND);
    assert_eq!(cooldown_wait(Some(301 * SECOND), QuotaKind::DailyQuota), 301 * SECOND);
    assert_eq!(cooldown_wait(Some(u128::MAX), QuotaKind::DailyQuota), 86_400 * SECOND);
}

#[test]
fn no_keys_fail_at_once() {
    let mut managed = provider(&[]);
    assert_eq!(managed.len(), 0);
    let step = managed.translate_with_retry::<&str>(&mut Attempt::new(), Event::Start, 0);
    assert!(matches!(step, Step::Done(Err(TranslateError::NoProviderConfigured))));
    assert_eq!(no_provider_configured(), "no provider configured");
}

#[test]
fn text_ends_the_translation() {
    let mut managed = provider(&["a", "b"]);
    let mut attempt = Attempt::new();
    let step = managed.translate_with_retry::<&str>(&mut attempt, Event::Start, 0);
    assert!(matches!(step, Step::Ask { index: 0 }));
    assert_eq!(*managed.provider(0), "a");
    assert_eq!(*managed.provider(1), "b");
    let step = managed.translate_with_retry(&mut attempt, text(), 1);
    assert!(matches!(step, Step::Done(Ok(answer)) if answer == "hello"));
}

#[test]
fn other_failure_is_not_retried() {
    let mut managed = provider(&["a", "b"]);
    let mut attempt = Attempt::new();
    managed.translate_with_retry::<&str>(&mut attempt, Event::Start, 0);
    let step = managed.translate_with_retry(&mut attempt, Event::Replied(Reply::Failed("401")), 1);
    assert!(matches!(step, Step::Done(Err(TranslateError::Provider("401")))));
}

#[test]
fn several_keys_rotate_and_then_fail_fast() {
    let mut managed = provider(&["a", "b", "c"]);
    let mut attempt = Attempt::new();
    managed.translate_with_retry::<&str>(&mut attempt, Event::Start, 0);
    let step =
        managed.translate_with_retry(&mut attempt, quota(Some(90), QuotaKind::RateLimit), 10);
    assert!(matches!(step, Step::Ask { index: 1 }));
    let step =
        managed.translate_with_retry(&mut attempt, quota(Some(50), QuotaKind::RateLimit), 20);
    assert!(matches!(step, Step::Ask { index: 2 }));
    let step =
        managed.translate_with_retry(&mut attempt, quota(Some(70), QuotaKind::RateLimit), 30);
    match step {
        Step::Done(Err(TranslateError::AllProvidersCoolingDown { provider, retry_after })) => {
            assert_eq!(provider, "gemini");
            assert_eq!(retry_after, 40);
        }
        _ => panic!("expected all keys to cool down"),
    }
    assert_eq!(managed.earliest_cooldown(), Some(70));
    let step = managed.translate_with_retry::<&str>(&mut Attempt::new(), Event::Start, 69);
    assert!(matches!(step, Step::Done(Err(TranslateError::AllProvidersCoolingDown {
        retry_after: 1,
        ..
    }))));
    let step = managed.translate_with_retry::<&str>(&mut Attempt::new(), Event::Start, 70);
    assert!(matches!(step, Step::Ask { index: 1 }));
}

#[test]
fn next_translation_stays_with_the_key_that_worked() {
    let mut managed = provider(&["a", "b"]);
    let mut attempt = Attempt::new();
    managed.translate_with_retry::<&str>(&mut attempt, Event::Start, 0);
    managed.translate_with_retry(&mut attempt, quota(Some(5), QuotaKind::Unknown), 1);
    managed.translate_with_retry(&mut attempt, text(), 2);
    let step = managed.translate_with_retry::<&str>(&mut Attempt::new(), Event::Start, 1_000);
    assert!(matches!(step, Step::Ask { index: 1 }));
}

#[test]
fn single_key_sleeps_and_gives_up_after_the_last_attempt() {
    let mut managed = provider(&["a"]);
    let mut attempt = Attempt::new();
    let mut now: u128 = 0;
    let mut asks = 0;
    let mut event = Event::Start;
    let error = loop {
        match managed.translate_with_retry(&mut attempt, event, now) {
            Step::Ask { index } => {
                assert_eq!(index, 0);
                asks += 1;
                event = quota(None, QuotaKind::RateLimit);
            }
            Step::Sleep { wait } => {
                assert_eq!(wait, 60 * SECOND);
                now += wait;
                event = Event::Woke;
            }
            Step::Done(Err(TranslateError::Provider(error))) => break error,
            Step::Done(_) => panic!("expected the provider's error"),
        }
    };
    assert_eq!(error, "429");
    assert_eq!(asks, 6);
}

#[test]
fn waking_early_finds_the_key_cooling_down() {
    let mut managed = provider(&["a"]);
    let mut attempt = Attempt::new();
    managed.translate_with_retry::<&str>(&mut attempt, Event::Start, 0);
    managed.translate_with_retry(&mut attempt, quota(Some(10), QuotaKind::RateLimit), 0);
    let step = managed.translate_with_retry::<&str>(&mut attempt, Event::Woke, 9);
    assert!(matches!(step, Step::Done(Err(TranslateError::AllProvidersCoolingDown {
        retry_after: 1,
        ..
    }))));
}

#[test]
fn slots_are_picked_in_rotation_order() {
    let mut managed = provider(&["a", "b", "c"]);
    assert_eq!(managed.earliest_cooldown(), None);
    assert_eq!(managed.pick_available_slot(0), Some(0));
    managed.put_in_cooldown(0, 0, 100);
    managed.put_in_cooldown(1, 0, 30);
    assert_eq!(managed.pick_available_slot(10), Some(2));
    assert_eq!(managed.pick_available_slot(50), Some(2));
    managed.put_in_cooldown(2, 50, 100);
    assert_eq!(managed.pick_available_slot(50), Some(1));
    managed.put_in_cooldown(1, 50, 1);
    assert_eq!(managed.pick_available_slot(50), None);
    assert_eq!(managed.earliest_cooldown(), Some(51));
    assert_eq!(managed.pick_available_slot(100), Some(1));
}

#[test]
fn quota_errors_are_counted_over_all_keys() {
    let mut managed = provider(&["a", "b", "c"]);
    let mut attempt = Attempt::new();
    let mut asked = Vec::new();
    let mut event = Event::Start;
    let error = loop {
        match managed.translate_with_retry(&mut attempt, event, 0) {
            Step::Ask { index } => {
                asked.push(index);
                event = quota(Some(0), QuotaKind::RateLimit);
            }
            Step::Done(Err(TranslateError::Provider(error))) => break error,
            _ => panic!("a key without a rest is ready at once"),
        }
    };
    assert_eq!(error, "429");
    assert_eq!(asked, vec![0; 6]);
}
