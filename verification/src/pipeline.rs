//! The decisions of the loop that fetches the balance-sheet page of each company.
//!
//! Each company is tried with one solved captcha after another: a page that
//! cannot be fetched skips the company, a page that cannot be stored is tried
//! again with a new captcha (at most `MAX_RETRY_PER_ID` times), and the loop ends
//! when the captchas run out, a page cannot be handed on, or every company is done.
//! The caller performs each fetch, with its delay, and reports what happened.
use vstd::prelude::*;

verus! {

/// How many times a company is tried again after its page could not be stored.
pub const MAX_RETRY_PER_ID: usize = 3;

/// Where the loop is.
#[derive(Debug, Clone, Copy, PartialEq, Eq)]
pub enum FetchState {
    /// Fetching the page of company `index`, try number `retry` (from 0).
    Fetching { index: usize, retry: usize },
    Done,
}

/// What became of a fetch.
#[derive(Debug, Clone, Copy, PartialEq, Eq)]
pub enum FetchEvent {
    /// No solved captcha is left.
    NoCaptcha,
    /// The page could not be fetched.
    HtmlFailed,
    /// The page was fetched but could not be turned into a page to store.
    ConversionFailed,
    /// The page was handed on.
    Sent,
    /// The page could not be handed on: the receiver is gone.
    SendFailed,
}

/// The state of fetching the pages of `count` companies, before the first fetch.
pub open spec fn start_spec(count: usize) -> FetchState {
    if count == 0 {
        FetchState::Done
    } else {
        FetchState::Fetching { index: 0, retry: 0 }
    }
}

/// The first try of the company after `index`, or the end.
pub open spec fn next_company(count: usize, index: usize) -> FetchState {
    if index + 1 < count {
        FetchState::Fetching { index: (index + 1) as usize, retry: 0 }
    } else {
        FetchState::Done
    }
}

/// The state after `event` in state `state`.
pub open spec fn step_spec(count: usize, state: FetchState, event: FetchEvent) -> FetchState {
    match state {
        FetchState::Done => FetchState::Done,
        FetchState::Fetching { index, retry } => match event {
            FetchEvent::NoCaptcha => FetchState::Done,
            FetchEvent::SendFailed => FetchState::Done,
            FetchEvent::HtmlFailed => next_company(count, index),
            FetchEvent::Sent => next_company(count, index),
            FetchEvent::ConversionFailed => if retry < MAX_RETRY_PER_ID {
                FetchState::Fetching { index, retry: (retry + 1) as usize }
            } else {
                next_company(count, index)
            },
        },
    }
}

/// Whether a state can occur while fetching `count` companies.
pub open spec fn valid_state(count: usize, state: FetchState) -> bool {
    match state {
        FetchState::Done => true,
        FetchState::Fetching { index, retry } => index < count && retry <= MAX_RETRY_PER_ID,
    }
}

/// The most fetches that can still happen from `state`.
pub open spec fn fetches_left(count: usize, state: FetchState) -> nat {
    match state {
        FetchState::Done => 0,
        FetchState::Fetching { index, retry } => ((count - index) * (MAX_RETRY_PER_ID + 1)
            - retry) as nat,
    }
}

/// The state before the first fetch.
pub fn fetch_start(count: usize) -> (res: FetchState)
    ensures
        res == start_spec(count),
{
    if count == 0 {
        FetchState::Done
    } else {
        FetchState::Fetching { index: 0, retry: 0 }
    }
}

/// The state after `event`.
pub fn fetch_step(count: usize, state: FetchState, event: FetchEvent) -> (res: FetchState)
    requires
        valid_state(count, state),
    ensures
        res == step_spec(count, state, event),
{
    match state {
        FetchState::Done => FetchState::Done,
        FetchState::Fetching { index, retry } => match event {
            FetchEvent::NoCaptcha => FetchState::Done,
            FetchEvent::SendFailed => FetchState::Done,
            FetchEvent::HtmlFailed | FetchEvent::Sent => {
                if index + 1 < count {
                    FetchState::Fetching { index: index + 1, retry: 0 }
                } else {
                    FetchState::Done
                }
            },
            FetchEvent::ConversionFailed => {
                if retry < MAX_RETRY_PER_ID {
                    FetchState::Fetching { index, retry: retry + 1 }
                } else if index + 1 < count {
                    FetchState::Fetching { index: index + 1, retry: 0 }
                } else {
                    FetchState::Done
                }
            },
        },
    }
}

/// The delay before a fetch, in milliseconds: half a second before the first
/// try of a company, a second more before each further try.
pub fn fetch_delay_ms(state: FetchState) -> (res: u64)
    ensures
        state matches FetchState::Fetching { retry, .. } && retry == 0 ==> res == 500,
        state matches FetchState::Fetching { retry, .. } && retry > 0 ==> res == 1000,
        state is Done ==> res == 0,
{
    match state {
        FetchState::Fetching { retry, .. } => if retry == 0 {
            500
        } else {
            1000
        },
        FetchState::Done => 0,
    }
}

/// A stored page and a page that cannot be fetched both move on to the first try
/// of the next company, whatever the try the page came from; after the last
/// company the loop is done.
pub proof fn lemma_page_moves_on(count: usize, index: usize, retry: usize, event: FetchEvent)
    requires
        valid_state(count, FetchState::Fetching { index, retry }),
        event is Sent || event is HtmlFailed,
    ensures
        index + 1 < count ==> step_spec(count, FetchState::Fetching { index, retry }, event)
            == (FetchState::Fetching { index: (index + 1) as usize, retry: 0 }),
        index + 1 >= count ==> step_spec(count, FetchState::Fetching { index, retry }, event)
            is Done,
{
}

/// The loop stops only for want of a captcha, a receiver gone, or when the last
/// company is left behind; otherwise it goes on with the same or the next company.
pub proof fn lemma_done_only_at_end(count: usize, index: usize, retry: usize, event: FetchEvent)
    requires
        valid_state(count, FetchState::Fetching { index, retry }),
    ensures
        step_spec(count, FetchState::Fetching { index, retry }, event) is Done
            <==> (event is NoCaptcha || event is SendFailed || (index + 1 >= count && (
        !(event is ConversionFailed) || retry >= MAX_RETRY_PER_ID))),
        event is ConversionFailed && retry < MAX_RETRY_PER_ID ==> step_spec(
            count,
            FetchState::Fetching { index, retry },
            event,
        ) == (FetchState::Fetching { index, retry: (retry + 1) as usize }),
{
}

/// The loop starts in a valid state, with at most `count * (MAX_RETRY_PER_ID + 1)`
/// fetches ahead.
pub proof fn lemma_start(count: usize)
    ensures
        valid_state(count, start_spec(count)),
        fetches_left(count, start_spec(count)) == count * (MAX_RETRY_PER_ID + 1),
{
}

/// Every step keeps the state valid and, unless the loop is done, uses up at least
/// one of the fetches left: the loop ends, and no company is fetched more than
/// `MAX_RETRY_PER_ID + 1` times. The loop moves on through the companies in order:
/// a step stays with the same company only for a retry after a failed conversion.
pub proof fn lemma_step(count: usize, state: FetchState, event: FetchEvent)
    requires
        valid_state(count, state),
    ensures
        valid_state(count, step_spec(count, state, event)),
        state is Fetching ==> fetches_left(count, step_spec(count, state, event)) < fetches_left(
            count,
            state,
        ),
        state matches FetchState::Fetching { index, retry } ==> match step_spec(
            count,
            state,
            event,
        ) {
            FetchState::Fetching { index: i2, retry: r2 } => (i2 == index && r2 == retry + 1
                && event is ConversionFailed) || (i2 == index + 1 && r2 == 0),
            FetchState::Done => true,
        },
{
    if let FetchState::Fetching { index, retry } = state {
        let m = (MAX_RETRY_PER_ID + 1) as int;
        assert((count - index) * m == (count - index - 1) * m + m) by (nonlinear_arith);
        assert((count - index - 1) * m >= 0) by (nonlinear_arith)
            requires
                count - index - 1 >= 0,
                m == 4,
        ;
    }
}

} // verus!
