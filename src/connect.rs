//! The client side's dial policy: a fixed number of attempts, each bounded
//! by a timeout, with a fixed pause between failed attempts.
use vstd::prelude::*;

use crate::error::SyncError;
use crate::text::{decimal, push_char, write_decimal};

verus! {

/// Service type under which hosts advertise.
pub const SERVICE_TYPE: &'static str = "_remotesync._tcp.local.";

/// Port that hosts listen on.
pub const WS_PORT: u16 = 18765;

/// Bound on one dial attempt, in seconds.
pub const CONNECT_TIMEOUT_SECS: u64 = 15;

/// Number of dial attempts before giving up.
pub const CONNECT_MAX_ATTEMPTS: u32 = 3;

/// Pause after a failed attempt that is not the last, in milliseconds.
pub const CONNECT_BACKOFF_MS: u64 = 500;

/// Messages a link's outbound queue holds before senders wait.
pub const OUTBOUND_CAPACITY: usize = 32;

/// Cause reported when an attempt ran out of time.
pub const TIMEOUT_CAUSE: &'static str = "Connection timed out. Check that both Macs are on the same network and the other device is sharing.";

/// How one dial attempt ended.
pub enum AttemptOutcome {
    Connected,
    /// The transport refused or failed, with its description.
    Failed { cause: String },
    TimedOut,
}

/// What to do after an attempt.
#[derive(Debug, PartialEq, Eq)]
pub enum ConnectAction {
    /// The link is up.
    Established,
    /// Wait this many milliseconds, then dial again.
    RetryAfter { delay_ms: u64 },
    /// Stop: the error to report.
    GiveUp { error: SyncError },
}

/// Progress of one `connect_to`.
pub struct ConnectRetry {
    attempts: u32,
    last_error: String,
    worst_case_ms: u64,
    done: bool,
}

/// Mathematical model of a [`ConnectRetry`].
pub struct ConnectRetryView {
    /// Attempts whose outcome is known.
    pub attempts: nat,
    /// Longest time the attempts and pauses so far can have taken.
    pub worst_case_ms: nat,
    /// Whether the dial is over (connected or given up).
    pub done: bool,
}

/// The timeout of one attempt, in milliseconds.
pub open spec fn timeout_ms() -> nat {
    (CONNECT_TIMEOUT_SECS * 1000) as nat
}

/// The state after one attempt ends, failed or not, and whether it gives
/// up (`Some(true)`), retries (`Some(false)`) or is connected (`None`).
pub open spec fn attempt_spec(s: ConnectRetryView, failed: bool) -> (ConnectRetryView, Option<bool>) {
    let n = s.attempts + 1;
    if !failed {
        (ConnectRetryView { attempts: n, worst_case_ms: s.worst_case_ms + timeout_ms(), done: true }, None)
    } else if n < CONNECT_MAX_ATTEMPTS {
        (
            ConnectRetryView {
                attempts: n,
                worst_case_ms: (s.worst_case_ms + timeout_ms() + CONNECT_BACKOFF_MS) as nat,
                done: false,
            },
            Some(false),
        )
    } else {
        (ConnectRetryView { attempts: n, worst_case_ms: s.worst_case_ms + timeout_ms(), done: true }, Some(true))
    }
}

/// The state after `k` failed attempts in a row from the start.
pub open spec fn after_failures(k: nat) -> ConnectRetryView
    decreases k,
{
    if k == 0 {
        ConnectRetryView { attempts: 0, worst_case_ms: 0, done: false }
    } else {
        attempt_spec(after_failures((k - 1) as nat), true).0
    }
}

impl View for ConnectRetry {
    type V = ConnectRetryView;

    closed spec fn view(&self) -> ConnectRetryView {
        ConnectRetryView {
            attempts: self.attempts as nat,
            worst_case_ms: self.worst_case_ms as nat,
            done: self.done,
        }
    }
}

impl ConnectRetry {
    /// Nothing tried yet.
    pub fn new() -> (r: ConnectRetry)
        ensures
            r@ == after_failures(0),
    {
        ConnectRetry { attempts: 0, last_error: String::new(), worst_case_ms: 0, done: false }
    }

    /// The bound to put on the next attempt, in seconds.
    pub fn attempt_timeout_secs(&self) -> (r: u64)
        ensures
            r == CONNECT_TIMEOUT_SECS,
    {
        CONNECT_TIMEOUT_SECS
    }

    /// Attempts whose outcome is known.
    pub fn attempts(&self) -> (r: u32)
        ensures
            r == self@.attempts,
    {
        self.attempts
    }

    /// Records how an attempt ended and decides what follows. A failure
    /// before the last attempt asks for the pause; the last one gives up
    /// with the number of attempts and the last cause.
    pub fn on_outcome(&mut self, outcome: AttemptOutcome) -> (r: ConnectAction)
        requires
            !old(self)@.done,
            old(self)@.attempts < CONNECT_MAX_ATTEMPTS,
            old(self)@.worst_case_ms <= old(self)@.attempts * (timeout_ms() + CONNECT_BACKOFF_MS),
        ensures
            final(self)@ == attempt_spec(old(self)@, !(outcome is Connected)).0,
            final(self)@.worst_case_ms <= final(self)@.attempts * (timeout_ms() + CONNECT_BACKOFF_MS),
            match attempt_spec(old(self)@, !(outcome is Connected)).1 {
                None => r is Established,
                Some(false) => r == (ConnectAction::RetryAfter { delay_ms: CONNECT_BACKOFF_MS }),
                Some(true) => r is GiveUp && r->GiveUp_error is ConnectFailure
                    && r->GiveUp_error->ConnectFailure_attempts == CONNECT_MAX_ATTEMPTS
                    && r->GiveUp_error->ConnectFailure_last_error@ == (match outcome {
                    AttemptOutcome::Failed { cause } => cause@,
                    _ => TIMEOUT_CAUSE@,
                }),
            },
    {
        let ghost a: nat = self.attempts as nat;
        assert(timeout_ms() == 15000);
        assert(a * 15500 <= 2 * 15500) by (nonlinear_arith)
            requires
                a <= 2,
        ;
        assert(a * 15500 + 15500 == (a + 1) * 15500) by (nonlinear_arith);
        self.attempts = self.attempts + 1;
        self.worst_case_ms = self.worst_case_ms + CONNECT_TIMEOUT_SECS * 1000;
        match outcome {
            AttemptOutcome::Connected => {
                self.done = true;
                return ConnectAction::Established;
            },
            AttemptOutcome::Failed { cause } => {
                self.last_error = cause;
            },
            AttemptOutcome::TimedOut => {
                self.last_error = String::from_str(TIMEOUT_CAUSE);
            },
        }
        if self.attempts < CONNECT_MAX_ATTEMPTS {
            self.worst_case_ms = self.worst_case_ms + CONNECT_BACKOFF_MS;
            ConnectAction::RetryAfter { delay_ms: CONNECT_BACKOFF_MS }
        } else {
            self.done = true;
            ConnectAction::GiveUp {
                error: SyncError::ConnectFailure {
                    attempts: CONNECT_MAX_ATTEMPTS,
                    last_error: self.last_error.clone(),
                },
            }
        }
    }
}

/// Against a peer that never answers, the dial goes on through every
/// allowed attempt, gives up exactly at the last one, and the attempts and
/// pauses together take at most attempts × (timeout + pause).
pub proof fn lemma_gives_up_after_max_attempts(k: nat)
    requires
        1 <= k <= CONNECT_MAX_ATTEMPTS,
    ensures
        after_failures(k).attempts == k,
        after_failures(k).done <==> k == CONNECT_MAX_ATTEMPTS,
        attempt_spec(after_failures((k - 1) as nat), true).1 == Some(k == CONNECT_MAX_ATTEMPTS),
        after_failures(k).worst_case_ms <= k * (timeout_ms() + CONNECT_BACKOFF_MS),
        after_failures(k).worst_case_ms <= CONNECT_MAX_ATTEMPTS * (timeout_ms()
            + CONNECT_BACKOFF_MS),
    decreases k,
{
    if k > 1 {
        lemma_gives_up_after_max_attempts((k - 1) as nat);
    }
    assert(after_failures(0).attempts == 0);
    assert(after_failures(1).attempts == 1);
}

/// The URL dialed for `host` and `port`: `ws://host:port`.
pub fn connect_url(host: &str, port: u16) -> (r: String)
    ensures
        r@ == "ws://"@ + host@ + seq![':'] + decimal(port as nat),
{
    let mut r = String::from_str("ws://");
    r.append(host);
    push_char(&mut r, ':');
    write_decimal(&mut r, port as u64);
    r
}

} // verus!
