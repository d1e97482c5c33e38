use smes::pipeline::{fetch_delay_ms, fetch_start, fetch_step, FetchEvent, FetchState, MAX_RETRY_PER_ID};

#[test]
fn no_companies_means_nothing_to_fetch() {
    assert_eq!(fetch_start(0), FetchState::Done);
    assert_eq!(fetch_start(2), FetchState::Fetching { index: 0, retry: 0 });
}

#[test]
fn a_sent_page_moves_to_the_next_company() {
    let s = fetch_step(2, FetchState::Fetching { index: 0, retry: 0 }, FetchEvent::Sent);
    assert_eq!(s, FetchState::Fetching { index: 1, retry: 0 });
    let s = fetch_step(2, s, FetchEvent::Sent);
    assert_eq!(s, FetchState::Done);
}

#[test]
fn a_failed_fetch_skips_the_company() {
    let s = fetch_step(3, FetchState::Fetching { index: 1, retry: 2 }, FetchEvent::HtmlFailed);
    assert_eq!(s, FetchState::Fetching { index: 2, retry: 0 });
}

#[test]
fn a_failed_conversion_is_retried_up_to_the_limit() {
    let mut s = fetch_start(2);
    for r in 1..=MAX_RETRY_PER_ID {
        s = fetch_step(2, s, FetchEvent::ConversionFailed);
        assert_eq!(s, FetchState::Fetching { index: 0, retry: r });
    }
    s = fetch_step(2, s, FetchEvent::ConversionFailed);
    assert_eq!(s, FetchState::Fetching { index: 1, retry: 0 });
}

#[test]
fn no_captcha_or_a_lost_receiver_ends_the_loop() {
    let s = FetchState::Fetching { index: 0, retry: 0 };
    assert_eq!(fetch_step(5, s, FetchEvent::NoCaptcha), FetchState::Done);
    assert_eq!(fetch_step(5, s, FetchEvent::SendFailed), FetchState::Done);
    assert_eq!(fetch_step(5, FetchState::Done, FetchEvent::Sent), FetchState::Done);
}

#[test]
fn the_loop_ends_within_its_bound_whatever_happens() {
    let count = 4;
    let events = [
        FetchEvent::ConversionFailed,
        FetchEvent::Sent,
        FetchEvent::HtmlFailed,
        FetchEvent::ConversionFailed,
    ];
    let mut s = fetch_start(count);
    let mut fetches = 0;
    let mut k = 0;
    while s != FetchState::Done {
        s = fetch_step(count, s, events[k % events.len()]);
        k += 1;
        fetches += 1;
        assert!(fetches <= count * (MAX_RETRY_PER_ID + 1));
    }
}

#[test]
fn retries_wait_longer() {
    assert_eq!(fetch_delay_ms(FetchState::Fetching { index: 0, retry: 0 }), 500);
    assert_eq!(fetch_delay_ms(FetchState::Fetching { index: 0, retry: 1 }), 1000);
    assert_eq!(fetch_delay_ms(FetchState::Done), 0);
}
