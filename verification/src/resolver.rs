//! The encoding-resolution protocol: a request/poll state machine that
//! obtains a final, time-limited download URL for one (item, format) pair.
//!
//! The machine only decides; a driver performs each returned action (a page
//! fetch, a trigger request, a status poll, a backoff sleep) and feeds the
//! outcome back as the next event. Every transition is fixed by `step_rel`;
//! the poll budget, expiration recovery, the replacement of an expired
//! provisional URL, and the already-ready short cut are proved below as
//! laws over that relation.

use vstd::prelude::*;
use crate::chars::{append_all, replace_all, replace_all_spec, to_chars, to_string};
use crate::digits::{dec_chars, u64_to_chars};
use crate::errors::{BandcampError, ErrorModel};
use crate::extract::{
    page_is_ready, page_ready_spec, stat_download_url, stat_expired_spec, stat_is_expired,
    stat_is_ok, stat_ok_spec, stat_url_spec,
};
use crate::formats::{encoding_spec, AudioFormat};
use crate::jsonpath::{extract_download_url, extract_err_msg_spec, extract_url_spec};

verus! {

/// A 2xx response status.
pub open spec fn status_success(status: u16) -> bool {
    200 <= status < 300
}

/// The status URL polled for one attempt: the provisional URL with its
/// download path segment substituted, a fresh cache-buster, and a version
/// tag.
pub open spec fn poll_url_spec(url: Seq<char>, now_millis: u64) -> Seq<char> {
    replace_all_spec(url, "/download/"@, "/statdownload/"@) + "&.rand="@ + dec_chars(
        now_millis as nat,
    ) + "&.vrs=1"@
}

/// Error text when the initial page fetch answers a non-success status
/// other than the two recognized ones.
pub open spec fn page_http_error_spec(status: u16) -> Seq<char> {
    "Failed to fetch download page: HTTP "@ + dec_chars(status as nat)
}

/// Error text when the poll budget is exhausted.
pub open spec fn exhausted_msg_spec(artist: Seq<char>, title: Seq<char>, max: nat) -> Seq<char> {
    "Download for "@ + artist + " - "@ + title + " not ready after "@ + dec_chars(max)
        + " attempts. The encoding may take longer - try again in a few minutes."@
}

#[derive(Debug, Clone)]
pub enum ResolverState {
    /// Nothing issued yet.
    Start,
    /// The initial page fetch is in flight.
    AwaitingPage,
    /// The trigger request against the provisional URL is in flight.
    AwaitingTrigger { url: String },
    /// A status poll is in flight; `attempt` polls have been issued.
    AwaitingPoll { url: String, attempt: u32 },
    /// Backing off before the next poll; `attempt` polls have been issued.
    Sleeping { url: String, attempt: u32 },
    /// A page refetch after an expiration marker is in flight.
    AwaitingRefresh { url: String, attempt: u32 },
    /// Resolution succeeded with the final URL.
    Resolved { url: String },
    /// Resolution failed; terminal for this attempt budget.
    Failed { err: BandcampError },
}

pub enum ResolverStateModel {
    Start,
    AwaitingPage,
    AwaitingTrigger { url: Seq<char> },
    AwaitingPoll { url: Seq<char>, attempt: nat },
    Sleeping { url: Seq<char>, attempt: nat },
    AwaitingRefresh { url: Seq<char>, attempt: nat },
    Resolved { url: Seq<char> },
    Failed { err: ErrorModel },
}

impl View for ResolverState {
    type V = ResolverStateModel;

    open spec fn view(&self) -> ResolverStateModel {
        match self {
            ResolverState::Start => ResolverStateModel::Start,
            ResolverState::AwaitingPage => ResolverStateModel::AwaitingPage,
            ResolverState::AwaitingTrigger { url } => ResolverStateModel::AwaitingTrigger {
                url: url@,
            },
            ResolverState::AwaitingPoll { url, attempt } => ResolverStateModel::AwaitingPoll {
                url: url@,
                attempt: *attempt as nat,
            },
            ResolverState::Sleeping { url, attempt } => ResolverStateModel::Sleeping {
                url: url@,
                attempt: *attempt as nat,
            },
            ResolverState::AwaitingRefresh { url, attempt } => ResolverStateModel::AwaitingRefresh {
                url: url@,
                attempt: *attempt as nat,
            },
            ResolverState::Resolved { url } => ResolverStateModel::Resolved { url: url@ },
            ResolverState::Failed { err } => ResolverStateModel::Failed { err: err@ },
        }
    }
}

/// What the driver observed: the outcome of the last action.
#[derive(Debug)]
pub enum ResolverEvent {
    /// Begin the resolution.
    Started,
    /// A page fetch finished with this status and body.
    Page { status: u16, body: String },
    /// The trigger request finished; its response is discarded.
    Triggered,
    /// A status poll finished with this body text.
    PollBody { body: String },
    /// The backoff interval elapsed.
    Slept,
}

pub enum ResolverEventModel {
    Started,
    Page { status: u16, body: Seq<char> },
    Triggered,
    PollBody { body: Seq<char> },
    Slept,
}

impl View for ResolverEvent {
    type V = ResolverEventModel;

    open spec fn view(&self) -> ResolverEventModel {
        match self {
            ResolverEvent::Started => ResolverEventModel::Started,
            ResolverEvent::Page { status, body } => ResolverEventModel::Page {
                status: *status,
                body: body@,
            },
            ResolverEvent::Triggered => ResolverEventModel::Triggered,
            ResolverEvent::PollBody { body } => ResolverEventModel::PollBody { body: body@ },
            ResolverEvent::Slept => ResolverEventModel::Slept,
        }
    }
}

/// What the driver must do next.
#[derive(Debug)]
pub enum ResolverAction {
    /// Authenticated GET of the item's download page.
    FetchPage,
    /// Best-effort GET of the provisional URL; the response is discarded.
    Trigger { url: String },
    /// GET of the status URL.
    Poll { url: String },
    /// Wait the fixed backoff interval.
    Sleep,
    /// Resolution finished with the final URL.
    Done { url: String },
    /// Resolution failed.
    Fail { err: BandcampError },
    /// Nothing to do: the event did not belong to the current state.
    Idle,
}

pub enum ResolverActionModel {
    FetchPage,
    Trigger { url: Seq<char> },
    Poll { url: Seq<char> },
    Sleep,
    Done { url: Seq<char> },
    Fail { err: ErrorModel },
    Idle,
}

impl View for ResolverAction {
    type V = ResolverActionModel;

    open spec fn view(&self) -> ResolverActionModel {
        match self {
            ResolverAction::FetchPage => ResolverActionModel::FetchPage,
            ResolverAction::Trigger { url } => ResolverActionModel::Trigger { url: url@ },
            ResolverAction::Poll { url } => ResolverActionModel::Poll { url: url@ },
            ResolverAction::Sleep => ResolverActionModel::Sleep,
            ResolverAction::Done { url } => ResolverActionModel::Done { url: url@ },
            ResolverAction::Fail { err } => ResolverActionModel::Fail { err: err@ },
            ResolverAction::Idle => ResolverActionModel::Idle,
        }
    }
}

/// One resolution in progress for one (item, format) pair.
#[derive(Debug)]
pub struct EncodingResolver {
    pub artist: String,
    pub title: String,
    pub format: AudioFormat,
    pub max_attempts: u32,
    pub state: ResolverState,
}

pub struct ResolverModel {
    pub artist: Seq<char>,
    pub title: Seq<char>,
    pub format: AudioFormat,
    pub max_attempts: nat,
    pub state: ResolverStateModel,
}

impl View for EncodingResolver {
    type V = ResolverModel;

    open spec fn view(&self) -> ResolverModel {
        ResolverModel {
            artist: self.artist@,
            title: self.title@,
            format: self.format,
            max_attempts: self.max_attempts as nat,
            state: self.state@,
        }
    }
}

/// Attempt counters stay within the poll budget.
pub open spec fn resolver_wf(m: ResolverModel) -> bool {
    &&& m.max_attempts <= u32::MAX
    &&& match m.state {
        ResolverStateModel::AwaitingPoll { url, attempt } => 1 <= attempt <= m.max_attempts,
        ResolverStateModel::Sleeping { url, attempt } => 1 <= attempt < m.max_attempts,
        ResolverStateModel::AwaitingRefresh { url, attempt } => 1 <= attempt <= m.max_attempts,
        _ => true,
    }
}

/// The exhausted-budget failure of this resolver.
pub open spec fn exhausted_err(m: ResolverModel) -> ErrorModel {
    ErrorModel::Download(exhausted_msg_spec(m.artist, m.title, m.max_attempts))
}

/// What a page body, already reported ready, does to the machine: the
/// extracted URL resolves it; an unextractable page fails it with the
/// exact parse error.
pub open spec fn ready_page_outcome(
    m: ResolverModel,
    body: Seq<char>,
    post: ResolverStateModel,
    act: ResolverActionModel,
) -> bool {
    match extract_url_spec(body, encoding_spec(m.format)) {
        Some(u) => post == (ResolverStateModel::Resolved { url: u }) && act == (
        ResolverActionModel::Done { url: u }),
        None => {
            let e = ErrorModel::Parse(extract_err_msg_spec(m.format));
            post == (ResolverStateModel::Failed { err: e }) && act == (ResolverActionModel::Fail {
                err: e,
            })
        },
    }
}

/// What a page body, not yet ready, does to the machine: the extracted
/// provisional URL moves it to the trigger step; an unextractable page
/// fails it with the exact parse error.
pub open spec fn unready_page_outcome(
    m: ResolverModel,
    body: Seq<char>,
    post: ResolverStateModel,
    act: ResolverActionModel,
) -> bool {
    match extract_url_spec(body, encoding_spec(m.format)) {
        Some(u) => post == (ResolverStateModel::AwaitingTrigger { url: u }) && act == (
        ResolverActionModel::Trigger { url: u }),
        None => {
            let e = ErrorModel::Parse(extract_err_msg_spec(m.format));
            post == (ResolverStateModel::Failed { err: e }) && act == (ResolverActionModel::Fail {
                err: e,
            })
        },
    }
}

/// The transition relation of the resolution protocol. Everything but the
/// state is constant; each (state, event) pair determines the successor,
/// up to the URL a JSON-tree lookup hands back.
#[verifier::opaque]
pub open spec fn step_rel(
    pre: ResolverModel,
    ev: ResolverEventModel,
    now_millis: u64,
    post: ResolverModel,
    act: ResolverActionModel,
) -> bool {
    &&& post.artist == pre.artist
    &&& post.title == pre.title
    &&& post.format == pre.format
    &&& post.max_attempts == pre.max_attempts
    &&& match (pre.state, ev) {
        (ResolverStateModel::Start, ResolverEventModel::Started) => {
            &&& post.state == ResolverStateModel::AwaitingPage
            &&& act == ResolverActionModel::FetchPage
        },
        (ResolverStateModel::AwaitingPage, ResolverEventModel::Page { status, body }) => {
            if status == 401 {
                &&& post.state == ResolverStateModel::Failed { err: ErrorModel::SessionExpired }
                &&& act == ResolverActionModel::Fail { err: ErrorModel::SessionExpired }
            } else if status == 503 {
                &&& post.state == ResolverStateModel::Failed {
                    err: ErrorModel::ServiceUnavailable,
                }
                &&& act == ResolverActionModel::Fail { err: ErrorModel::ServiceUnavailable }
            } else if !status_success(status) {
                let e = ErrorModel::Download(page_http_error_spec(status));
                &&& post.state == ResolverStateModel::Failed { err: e }
                &&& act == ResolverActionModel::Fail { err: e }
            } else if page_ready_spec(body) {
                ready_page_outcome(pre, body, post.state, act)
            } else {
                unready_page_outcome(pre, body, post.state, act)
            }
        },
        (ResolverStateModel::AwaitingTrigger { url }, ResolverEventModel::Triggered) => {
            if pre.max_attempts == 0 {
                &&& post.state == ResolverStateModel::Failed { err: exhausted_err(pre) }
                &&& act == ResolverActionModel::Fail { err: exhausted_err(pre) }
            } else {
                &&& post.state == ResolverStateModel::AwaitingPoll { url, attempt: 1 }
                &&& act == ResolverActionModel::Poll { url: poll_url_spec(url, now_millis) }
            }
        },
        (
            ResolverStateModel::AwaitingPoll { url, attempt },
            ResolverEventModel::PollBody { body },
        ) => {
            if stat_ok_spec(body) && stat_url_spec(body) is Some {
                let u = stat_url_spec(body).unwrap();
                &&& post.state == ResolverStateModel::Resolved { url: u }
                &&& act == ResolverActionModel::Done { url: u }
            } else if stat_expired_spec(body) {
                &&& post.state == ResolverStateModel::AwaitingRefresh { url, attempt }
                &&& act == ResolverActionModel::FetchPage
            } else if attempt < pre.max_attempts {
                &&& post.state == ResolverStateModel::Sleeping { url, attempt }
                &&& act == ResolverActionModel::Sleep
            } else {
                &&& post.state == ResolverStateModel::Failed { err: exhausted_err(pre) }
                &&& act == ResolverActionModel::Fail { err: exhausted_err(pre) }
            }
        },
        (ResolverStateModel::Sleeping { url, attempt }, ResolverEventModel::Slept) => {
            &&& post.state == ResolverStateModel::AwaitingPoll { url, attempt: attempt + 1 }
            &&& act == ResolverActionModel::Poll { url: poll_url_spec(url, now_millis) }
        },
        (
            ResolverStateModel::AwaitingRefresh { url, attempt },
            ResolverEventModel::Page { status, body },
        ) => {
            // the page fetch and the extraction run again in full: the old
            // provisional URL has gone stale and is discarded
            if status == 401 {
                &&& post.state == ResolverStateModel::Failed { err: ErrorModel::SessionExpired }
                &&& act == ResolverActionModel::Fail { err: ErrorModel::SessionExpired }
            } else if status == 503 {
                &&& post.state == ResolverStateModel::Failed {
                    err: ErrorModel::ServiceUnavailable,
                }
                &&& act == ResolverActionModel::Fail { err: ErrorModel::ServiceUnavailable }
            } else if !status_success(status) {
                let e = ErrorModel::Download(page_http_error_spec(status));
                &&& post.state == ResolverStateModel::Failed { err: e }
                &&& act == ResolverActionModel::Fail { err: e }
            } else if page_ready_spec(body) {
                ready_page_outcome(pre, body, post.state, act)
            } else {
                match extract_url_spec(body, encoding_spec(pre.format)) {
                    Some(fresh) => if attempt < pre.max_attempts {
                        &&& post.state == ResolverStateModel::Sleeping { url: fresh, attempt }
                        &&& act == ResolverActionModel::Sleep
                    } else {
                        &&& post.state == ResolverStateModel::Failed { err: exhausted_err(pre) }
                        &&& act == ResolverActionModel::Fail { err: exhausted_err(pre) }
                    },
                    None => {
                        let e = ErrorModel::Parse(extract_err_msg_spec(pre.format));
                        &&& post.state == ResolverStateModel::Failed { err: e }
                        &&& act == ResolverActionModel::Fail { err: e }
                    },
                }
            }
        },
        _ => {
            &&& post.state == pre.state
            &&& act == ResolverActionModel::Idle
        },
    }
}

fn build_poll_url(url: &String, now_millis: u64) -> (r: String)
    ensures
        r@ == poll_url_spec(url@, now_millis),
{
    proof {
        reveal_strlit("/download/");
    }
    let uc = to_chars(url.as_str());
    let pat = to_chars("/download/");
    let rep = to_chars("/statdownload/");
    let mut base = replace_all(&uc, &pat, &rep);
    let rand = to_chars("&.rand=");
    append_all(&mut base, &rand);
    let digits = u64_to_chars(now_millis);
    append_all(&mut base, &digits);
    let vrs = to_chars("&.vrs=1");
    append_all(&mut base, &vrs);
    to_string(&base)
}

fn build_exhausted_err(artist: &String, title: &String, max: u32) -> (r: BandcampError)
    ensures
        r@ == ErrorModel::Download(exhausted_msg_spec(artist@, title@, max as nat)),
{
    let digits = u64_to_chars(max as u64);
    let digits_str = to_string(&digits);
    let msg = String::from_str("Download for ").concat(artist.as_str()).concat(" - ").concat(
        title.as_str(),
    ).concat(" not ready after ").concat(digits_str.as_str()).concat(
        " attempts. The encoding may take longer - try again in a few minutes.",
    );
    BandcampError::DownloadError(msg)
}

fn build_page_http_err(status: u16) -> (r: BandcampError)
    ensures
        r@ == ErrorModel::Download(page_http_error_spec(status)),
{
    let digits = u64_to_chars(status as u64);
    let digits_str = to_string(&digits);
    let msg = String::from_str("Failed to fetch download page: HTTP ").concat(digits_str.as_str());
    BandcampError::DownloadError(msg)
}

impl EncodingResolver {
    /// A fresh resolution for one item and format, with a poll budget.
    pub fn new(artist: String, title: String, format: AudioFormat, max_attempts: u32) -> (r:
        EncodingResolver)
        ensures
            r@.artist == artist@,
            r@.title == title@,
            r@.format == format,
            r@.max_attempts == max_attempts as nat,
            r@.state == ResolverStateModel::Start,
            resolver_wf(r@),
    {
        EncodingResolver { artist, title, format, max_attempts, state: ResolverState::Start }
    }

    /// Feed one observed event; the machine moves once and says what to do
    /// next, exactly as `step_rel` fixes it.
    pub fn step(&mut self, event: &ResolverEvent, now_millis: u64) -> (act: ResolverAction)
        requires
            resolver_wf(old(self)@),
        ensures
            resolver_wf(final(self)@),
            step_rel(old(self)@, event@, now_millis, final(self)@, act@),
    {
        proof {
            reveal(step_rel);
        }
        let mut next: Option<ResolverState> = None;
        let act: ResolverAction = match (&self.state, event) {
            (ResolverState::Start, ResolverEvent::Started) => {
                next = Some(ResolverState::AwaitingPage);
                ResolverAction::FetchPage
            },
            (ResolverState::AwaitingPage, ResolverEvent::Page { status, body }) => {
                let st: u16 = *status;
                if st == 401 {
                    next = Some(ResolverState::Failed { err: BandcampError::SessionExpired });
                    ResolverAction::Fail { err: BandcampError::SessionExpired }
                } else if st == 503 {
                    next = Some(ResolverState::Failed { err: BandcampError::ServiceUnavailable });
                    ResolverAction::Fail { err: BandcampError::ServiceUnavailable }
                } else if st < 200 || st >= 300 {
                    let e = build_page_http_err(st);
                    next = Some(ResolverState::Failed { err: e.duplicate() });
                    ResolverAction::Fail { err: e }
                } else {
                    let bc = to_chars(body.as_str());
                    let ready = page_is_ready(&bc);
                    match extract_download_url(body.as_str(), self.format) {
                        Ok(u) => {
                            if ready {
                                next = Some(ResolverState::Resolved { url: u.clone() });
                                ResolverAction::Done { url: u }
                            } else {
                                next = Some(ResolverState::AwaitingTrigger { url: u.clone() });
                                ResolverAction::Trigger { url: u }
                            }
                        },
                        Err(e) => {
                            next = Some(ResolverState::Failed { err: e.duplicate() });
                            ResolverAction::Fail { err: e }
                        },
                    }
                }
            },
            (ResolverState::AwaitingTrigger { url }, ResolverEvent::Triggered) => {
                if self.max_attempts == 0 {
                    let e = build_exhausted_err(&self.artist, &self.title, self.max_attempts);
                    next = Some(ResolverState::Failed { err: e.duplicate() });
                    ResolverAction::Fail { err: e }
                } else {
                    let purl = build_poll_url(url, now_millis);
                    next = Some(ResolverState::AwaitingPoll { url: url.clone(), attempt: 1 });
                    ResolverAction::Poll { url: purl }
                }
            },
            (ResolverState::AwaitingPoll { url, attempt }, ResolverEvent::PollBody { body }) => {
                let bc = to_chars(body.as_str());
                let mut done_url: Option<Vec<char>> = None;
                if stat_is_ok(&bc) {
                    done_url = stat_download_url(&bc);
                }
                match done_url {
                    Some(u) => {
                        let us = to_string(&u);
                        next = Some(ResolverState::Resolved { url: us.clone() });
                        ResolverAction::Done { url: us }
                    },
                    None => {
                        if stat_is_expired(&bc) {
                            next = Some(ResolverState::AwaitingRefresh {
                                url: url.clone(),
                                attempt: *attempt,
                            });
                            ResolverAction::FetchPage
                        } else if *attempt < self.max_attempts {
                            next = Some(ResolverState::Sleeping {
                                url: url.clone(),
                                attempt: *attempt,
                            });
                            ResolverAction::Sleep
                        } else {
                            let e = build_exhausted_err(
                                &self.artist,
                                &self.title,
                                self.max_attempts,
                            );
                            next = Some(ResolverState::Failed { err: e.duplicate() });
                            ResolverAction::Fail { err: e }
                        }
                    },
                }
            },
            (ResolverState::Sleeping { url, attempt }, ResolverEvent::Slept) => {
                let purl = build_poll_url(url, now_millis);
                next = Some(ResolverState::AwaitingPoll {
                    url: url.clone(),
                    attempt: *attempt + 1,
                });
                ResolverAction::Poll { url: purl }
            },
            (ResolverState::AwaitingRefresh { url, attempt }, ResolverEvent::Page {
                status,
                body,
            }) => {
                let st: u16 = *status;
                if st == 401 {
                    next = Some(ResolverState::Failed { err: BandcampError::SessionExpired });
                    ResolverAction::Fail { err: BandcampError::SessionExpired }
                } else if st == 503 {
                    next = Some(ResolverState::Failed { err: BandcampError::ServiceUnavailable });
                    ResolverAction::Fail { err: BandcampError::ServiceUnavailable }
                } else if st < 200 || st >= 300 {
                    let e = build_page_http_err(st);
                    next = Some(ResolverState::Failed { err: e.duplicate() });
                    ResolverAction::Fail { err: e }
                } else {
                    let bc = to_chars(body.as_str());
                    let ready = page_is_ready(&bc);
                    match extract_download_url(body.as_str(), self.format) {
                        Ok(u) => {
                            if ready {
                                next = Some(ResolverState::Resolved { url: u.clone() });
                                ResolverAction::Done { url: u }
                            } else if *attempt < self.max_attempts {
                                next = Some(ResolverState::Sleeping {
                                    url: u,
                                    attempt: *attempt,
                                });
                                ResolverAction::Sleep
                            } else {
                                let e = build_exhausted_err(
                                    &self.artist,
                                    &self.title,
                                    self.max_attempts,
                                );
                                next = Some(ResolverState::Failed { err: e.duplicate() });
                                ResolverAction::Fail { err: e }
                            }
                        },
                        Err(e) => {
                            next = Some(ResolverState::Failed { err: e.duplicate() });
                            ResolverAction::Fail { err: e }
                        },
                    }
                }
            },
            _ => { ResolverAction::Idle },
        };
        if let Some(s) = next {
            self.state = s;
        }
        act
    }

    /// The current state, for drivers and displays.
    pub fn state(&self) -> (r: &ResolverState)
        ensures
            r@ == self@.state,
    {
        &self.state
    }
}

/// A status body that signals neither a finished encode nor an expired URL.
pub open spec fn neutral_body(b: Seq<char>) -> bool {
    !stat_ok_spec(b) && !stat_expired_spec(b)
}

/// A run of the machine: each step follows `step_rel`, and the states
/// chain together. A step records the event, the clock reading, the state
/// after the step, and the action emitted.
pub open spec fn is_run(
    m0: ResolverModel,
    steps: Seq<(ResolverEventModel, u64, ResolverModel, ResolverActionModel)>,
) -> bool
    decreases steps.len(),
{
    steps.len() == 0 || {
        &&& step_rel(m0, steps[0].0, steps[0].1, steps[0].2, steps[0].3)
        &&& is_run(steps[0].2, steps.skip(1))
    }
}

proof fn lemma_step_neutral(
    pre: ResolverModel,
    url: Seq<char>,
    att: nat,
    body: Seq<char>,
    now: u64,
    post: ResolverModel,
    act: ResolverActionModel,
)
    requires
        pre.state == (ResolverStateModel::AwaitingPoll { url, attempt: att }),
        neutral_body(body),
        step_rel(pre, ResolverEventModel::PollBody { body }, now, post, act),
    ensures
        post.artist == pre.artist,
        post.title == pre.title,
        post.format == pre.format,
        post.max_attempts == pre.max_attempts,
        att < pre.max_attempts ==> post.state == (ResolverStateModel::Sleeping {
            url,
            attempt: att,
        }) && act == ResolverActionModel::Sleep,
        att >= pre.max_attempts ==> post.state == (ResolverStateModel::Failed {
            err: exhausted_err(pre),
        }) && act == (ResolverActionModel::Fail { err: exhausted_err(pre) }),
{
    reveal(step_rel);
}

proof fn lemma_step_slept(
    pre: ResolverModel,
    url: Seq<char>,
    att: nat,
    now: u64,
    post: ResolverModel,
    act: ResolverActionModel,
)
    requires
        pre.state == (ResolverStateModel::Sleeping { url, attempt: att }),
        step_rel(pre, ResolverEventModel::Slept, now, post, act),
    ensures
        post.artist == pre.artist,
        post.title == pre.title,
        post.format == pre.format,
        post.max_attempts == pre.max_attempts,
        post.state == (ResolverStateModel::AwaitingPoll { url, attempt: att + 1 }),
        act == (ResolverActionModel::Poll { url: poll_url_spec(url, now) }),
{
    reveal(step_rel);
}

/// Poll termination: a resolver whose status endpoint never reports
/// success (and never expires its URL) fails after exactly its configured
/// number of polls, never more, never fewer. Starting with the `a`-th poll
/// in flight, the run alternates a neutral status body with a completed
/// backoff; every body but the last leaves the machine backing off and
/// re-polling with the attempt counter advancing by one, and the body that
/// answers the `max_attempts`-th poll — and only that one — fails the
/// machine with the exhausted-budget error.
#[verifier::rlimit(100)]
pub proof fn lemma_poll_termination(
    m0: ResolverModel,
    url: Seq<char>,
    a: nat,
    steps: Seq<(ResolverEventModel, u64, ResolverModel, ResolverActionModel)>,
)
    requires
        resolver_wf(m0),
        m0.state == (ResolverStateModel::AwaitingPoll { url, attempt: a }),
        1 <= a <= m0.max_attempts,
        is_run(m0, steps),
        steps.len() == 2 * (m0.max_attempts - a) + 1,
        forall|i: int|
            0 <= i < steps.len() && i % 2 == 0 ==> ((#[trigger] steps[i]).0 matches
                ResolverEventModel::PollBody { body } && neutral_body(body)),
        forall|i: int| 0 <= i < steps.len() && i % 2 == 1 ==> (#[trigger] steps[i]).0 is Slept,
    ensures
        steps[steps.len() - 1].2.state == (ResolverStateModel::Failed { err: exhausted_err(m0) }),
        steps[steps.len() - 1].3 == (ResolverActionModel::Fail { err: exhausted_err(m0) }),
        forall|i: int|
            0 <= i < steps.len() - 1 && i % 2 == 0 ==> (#[trigger] steps[i]).2.state == (
            ResolverStateModel::Sleeping { url, attempt: (a + i / 2) as nat }),
        forall|i: int|
            0 <= i < steps.len() - 1 && i % 2 == 1 ==> (#[trigger] steps[i]).2.state == (
            ResolverStateModel::AwaitingPoll { url, attempt: (a + (i + 1) / 2) as nat }),
    decreases m0.max_attempts - a,
{
    assert(step_rel(m0, steps[0].0, steps[0].1, steps[0].2, steps[0].3));
    assert(is_run(steps[0].2, steps.skip(1)));
    let ev0 = steps[0].0;
    match ev0 {
        ResolverEventModel::PollBody { body } => {
            lemma_step_neutral(m0, url, a, body, steps[0].1, steps[0].2, steps[0].3);
        },
        _ => {
            assert(false);
        },
    }
    if a == m0.max_attempts {
        assert(steps.len() == 1);
    } else {
        assert(steps[0].2.state == (ResolverStateModel::Sleeping { url, attempt: a }));
        assert(steps[0].3 == ResolverActionModel::Sleep);
        assert(step_rel(steps[0].2, steps[1].0, steps[1].1, steps[1].2, steps[1].3));
        lemma_step_slept(steps[0].2, url, a, steps[1].1, steps[1].2, steps[1].3);
        assert(steps[1].2.state == (ResolverStateModel::AwaitingPoll { url, attempt: a + 1 }));
        assert(steps[1].3 matches ResolverActionModel::Poll { url: _ });
        let m2 = steps[1].2;
        let rest = steps.skip(2);
        assert(resolver_wf(m2));
        assert(steps.skip(1)[0] == steps[1]);
        assert(steps.skip(1).skip(1) =~= steps.skip(2));
        assert(is_run(m2, rest));
        assert forall|i: int| 0 <= i < rest.len() && i % 2 == 0 implies ((#[trigger] rest[i]).0
            matches ResolverEventModel::PollBody { body } && neutral_body(body)) by {
            assert(rest[i] == steps[i + 2]);
            assert((i + 2) % 2 == 0);
        }
        assert forall|i: int| 0 <= i < rest.len() && i % 2 == 1 implies (#[trigger] rest[i]).0
            is Slept by {
            assert(rest[i] == steps[i + 2]);
            assert((i + 2) % 2 == 1);
        }
        lemma_poll_termination(m2, url, a + 1, rest);
        assert(exhausted_err(m2) == exhausted_err(m0));
        assert(steps[steps.len() - 1] == rest[rest.len() - 1]);
        assert forall|i: int|
            0 <= i < steps.len() - 1 && i % 2 == 0 implies (#[trigger] steps[i]).2.state == (
        ResolverStateModel::Sleeping { url, attempt: (a + i / 2) as nat }) by {
            if i >= 2 {
                assert(steps[i] == rest[i - 2]);
                assert((i - 2) % 2 == 0);
                assert((a + 1) + (i - 2) / 2 == a + i / 2);
            }
        }
        assert forall|i: int|
            0 <= i < steps.len() - 1 && i % 2 == 1 implies (#[trigger] steps[i]).2.state == (
        ResolverStateModel::AwaitingPoll { url, attempt: (a + (i + 1) / 2) as nat }) by {
            if i >= 2 {
                assert(steps[i] == rest[i - 2]);
                assert((i - 2) % 2 == 1);
                assert((a + 1) + (i - 2 + 1) / 2 == a + (i + 1) / 2);
            }
        }
    }
}

/// Expiration recovery: when the answer to poll attempt `k` carries the
/// expiration marker, the machine refetches the page, and when that
/// refetched page is ready and extraction finds a URL, the machine
/// resolves at once with exactly the URL extracted from the refreshed
/// page — the remaining poll budget is not consumed, whatever `k` was.
pub proof fn lemma_expiration_recovery(
    m0: ResolverModel,
    url: Seq<char>,
    k: nat,
    body1: Seq<char>,
    now1: u64,
    m1: ResolverModel,
    a1: ResolverActionModel,
    status: u16,
    body2: Seq<char>,
    now2: u64,
    m2: ResolverModel,
    a2: ResolverActionModel,
)
    requires
        resolver_wf(m0),
        m0.state == (ResolverStateModel::AwaitingPoll { url, attempt: k }),
        stat_expired_spec(body1),
        !(stat_ok_spec(body1) && stat_url_spec(body1) is Some),
        step_rel(m0, ResolverEventModel::PollBody { body: body1 }, now1, m1, a1),
        status_success(status),
        page_ready_spec(body2),
        extract_url_spec(body2, encoding_spec(m0.format)) is Some,
        step_rel(m1, ResolverEventModel::Page { status, body: body2 }, now2, m2, a2),
    ensures
        a1 == ResolverActionModel::FetchPage,
        m1.state == (ResolverStateModel::AwaitingRefresh { url, attempt: k }),
        m2.state == (ResolverStateModel::Resolved {
            url: extract_url_spec(body2, encoding_spec(m0.format)).unwrap(),
        }),
        a2 == (ResolverActionModel::Done {
            url: extract_url_spec(body2, encoding_spec(m0.format)).unwrap(),
        }),
{
    reveal(step_rel);
}

/// Stale-URL replacement: when the refetched page is not yet ready but
/// still yields a provisional URL, the machine discards the expired URL
/// and continues polling with the fresh one — the next poll, after the
/// backoff, goes to the status URL derived from the refreshed page, and
/// the attempt budget is unchanged.
pub proof fn lemma_refresh_replaces_url(
    m1: ResolverModel,
    url: Seq<char>,
    k: nat,
    status: u16,
    body: Seq<char>,
    now1: u64,
    m2: ResolverModel,
    a2: ResolverActionModel,
    now2: u64,
    m3: ResolverModel,
    a3: ResolverActionModel,
)
    requires
        resolver_wf(m1),
        m1.state == (ResolverStateModel::AwaitingRefresh { url, attempt: k }),
        k < m1.max_attempts,
        status_success(status),
        !page_ready_spec(body),
        extract_url_spec(body, encoding_spec(m1.format)) is Some,
        step_rel(m1, ResolverEventModel::Page { status, body }, now1, m2, a2),
        step_rel(m2, ResolverEventModel::Slept, now2, m3, a3),
    ensures
        ({
            let fresh = extract_url_spec(body, encoding_spec(m1.format)).unwrap();
            &&& m2.state == (ResolverStateModel::Sleeping { url: fresh, attempt: k })
            &&& a2 == ResolverActionModel::Sleep
            &&& m3.state == (ResolverStateModel::AwaitingPoll { url: fresh, attempt: k + 1 })
            &&& a3 == (ResolverActionModel::Poll { url: poll_url_spec(fresh, now2) })
        }),
{
    reveal(step_rel);
}

/// Already-ready short cut: when the very first page response is a
/// success whose body carries the ready flag and extraction finds a URL,
/// a single step resolves the machine with exactly that URL and the
/// emitted action is `Done` — so no trigger request and no status poll is
/// ever issued.
pub proof fn lemma_ready_page_short_cut(
    m0: ResolverModel,
    status: u16,
    body: Seq<char>,
    now: u64,
    m1: ResolverModel,
    act: ResolverActionModel,
)
    requires
        m0.state == ResolverStateModel::AwaitingPage,
        status_success(status),
        page_ready_spec(body),
        extract_url_spec(body, encoding_spec(m0.format)) is Some,
        step_rel(m0, ResolverEventModel::Page { status, body }, now, m1, act),
    ensures
        m1.state == (ResolverStateModel::Resolved {
            url: extract_url_spec(body, encoding_spec(m0.format)).unwrap(),
        }),
        act == (ResolverActionModel::Done {
            url: extract_url_spec(body, encoding_spec(m0.format)).unwrap(),
        }),
{
    reveal(step_rel);
}

} // verus!
