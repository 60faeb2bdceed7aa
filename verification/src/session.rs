//! The clock monitor session as an explicit state machine.
//!
//! A session moves through `Idle -> Subscribed -> Running -> Terminated`.
//! While active it decodes each raw notification, extracts the unix
//! timestamp, and passes it through the monotonic filter; once terminated
//! it never emits again. The surrounding process owns the subscription and
//! the output channel; it drives this machine with one call per upstream
//! event and performs the emission it is told to.

use vstd::prelude::*;
use crate::codec::CLOCK_PAYLOAD_LEN;
use crate::codec::DecodeError;
use crate::codec::deserialize_clock;
use crate::codec::spec_decode_clock;
use crate::filter::MonitorState;
use crate::filter::all_above;
use crate::filter::filter_emissions;
use crate::filter::lemma_emissions_strictly_increasing;
use crate::filter::strictly_increasing;

verus! {

/// Lifecycle of one monitor session.
#[derive(Clone, Copy, Debug, PartialEq, Eq, Structural)]
pub enum Phase {
    /// Before subscription setup.
    Idle,
    /// The subscription's sequence is established.
    Subscribed,
    /// Steady state: notifications are decoded and filtered.
    Running,
    /// The upstream sequence has ended; nothing is ever emitted again.
    Terminated,
}

/// What one notification led to.
#[derive(Clone, Copy, Debug, PartialEq, Eq, Structural)]
pub enum NotifyOutcome {
    /// The decoded timestamp advanced the clock; forward it downstream.
    Emitted(i64),
    /// The decoded timestamp was a duplicate, stale or out of order; it was
    /// discarded silently.
    Suppressed,
    /// The payload did not decode; the session skips it and stays running.
    Malformed(DecodeError),
    /// The session is not active; the notification was dropped.
    Ignored,
}

/// One monitor session: the current lifecycle phase together with the
/// monotonic filter's state.
#[derive(Clone, Copy, Debug, PartialEq, Eq, Structural)]
pub struct ClockMonitor {
    /// Where in its lifecycle the session stands.
    pub phase: Phase,
    /// The filter state; mutated only by this session's own steps.
    pub state: MonitorState,
}

/// Whether a session in `phase` consumes notifications.
pub open spec fn spec_active(phase: Phase) -> bool {
    phase == Phase::Subscribed || phase == Phase::Running
}

impl ClockMonitor {
    /// A fresh session: idle, with nothing emitted yet.
    pub fn new() -> (m: ClockMonitor)
        ensures
            m.phase == Phase::Idle,
            m.state.latest_emitted == 0,
    {
        ClockMonitor { phase: Phase::Idle, state: MonitorState::new() }
    }

    /// Records that the subscription's sequence is established, moving an
    /// idle session to `Subscribed`; any other session is left as it is.
    pub fn on_subscribed(&mut self)
        ensures
            final(self).state == old(self).state,
            final(self).phase == if old(self).phase == Phase::Idle {
                Phase::Subscribed
            } else {
                old(self).phase
            },
    {
        if self.phase == Phase::Idle {
            self.phase = Phase::Subscribed;
        }
    }

    /// Processes one raw notification.
    ///
    /// An active session enters (or stays in) `Running`, decodes the
    /// payload, and emits its unix timestamp exactly when it is strictly
    /// greater than everything emitted so far. A payload that does not
    /// decode is skipped and the session keeps running. A session that is
    /// not active ignores the notification entirely.
    pub fn on_notification(&mut self, data: &Vec<u8>) -> (outcome: NotifyOutcome)
        ensures
            !spec_active(old(self).phase) ==> *final(self) == *old(self) && outcome
                == NotifyOutcome::Ignored,
            spec_active(old(self).phase) ==> final(self).phase == Phase::Running,
            spec_active(old(self).phase) && data@.len() < CLOCK_PAYLOAD_LEN ==> outcome
                == NotifyOutcome::Malformed(DecodeError::TooShort) && final(self).state == old(
                self,
            ).state,
            spec_active(old(self).phase) && data@.len() >= CLOCK_PAYLOAD_LEN ==> ({
                let ts = spec_decode_clock(data@).unix_timestamp;
                if ts > old(self).state.latest_emitted {
                    outcome == NotifyOutcome::Emitted(ts) && final(self).state.latest_emitted == ts
                } else {
                    outcome == NotifyOutcome::Suppressed && final(self).state == old(self).state
                }
            }),
    {
        if !(self.phase == Phase::Subscribed || self.phase == Phase::Running) {
            return NotifyOutcome::Ignored;
        }
        self.phase = Phase::Running;
        match deserialize_clock(data) {
            Err(e) => NotifyOutcome::Malformed(e),
            Ok(snapshot) => {
                let blocktime = snapshot.unix_timestamp;
                if self.state.step(blocktime) {
                    NotifyOutcome::Emitted(blocktime)
                } else {
                    NotifyOutcome::Suppressed
                }
            },
        }
    }

    /// Records that the upstream sequence ended (or that shutdown was
    /// requested): the session terminates and will never emit again, its
    /// filter state untouched.
    pub fn on_stream_end(&mut self)
        ensures
            final(self).phase == Phase::Terminated,
            final(self).state == old(self).state,
    {
        self.phase = Phase::Terminated;
    }
}

/// The unix timestamps carried by `payloads`, in order, skipping every
/// payload too short to decode.
pub open spec fn spec_decoded_timestamps(payloads: Seq<Seq<u8>>) -> Seq<i64>
    decreases payloads.len(),
{
    if payloads.len() == 0 {
        Seq::empty()
    } else {
        let head = if payloads[0].len() >= CLOCK_PAYLOAD_LEN {
            seq![spec_decode_clock(payloads[0]).unix_timestamp]
        } else {
            Seq::empty()
        };
        head + spec_decoded_timestamps(payloads.drop_first())
    }
}

/// Whatever raw notifications a session is fed, the timestamps it emits
/// form a strictly increasing sequence, each strictly above the filter
/// state the session started from.
pub proof fn lemma_session_emissions_strictly_increasing(payloads: Seq<Seq<u8>>, latest: int)
    ensures
        strictly_increasing(filter_emissions(spec_decoded_timestamps(payloads), latest)),
        all_above(filter_emissions(spec_decoded_timestamps(payloads), latest), latest),
{
    lemma_emissions_strictly_increasing(spec_decoded_timestamps(payloads), latest);
}

/// Runs one whole session over a finite sequence of raw notifications,
/// returning exactly the timestamps a fresh session emits for them: the
/// monotonic filter applied to the timestamps of the decodable payloads.
pub fn run_session(payloads: &Vec<Vec<u8>>) -> (emitted: Vec<i64>)
    ensures
        emitted@ == filter_emissions(
            spec_decoded_timestamps(payloads@.map_values(|p: Vec<u8>| p@)),
            0,
        ),
{
    let ghost all = payloads@.map_values(|p: Vec<u8>| p@);
    let ghost all_ts = spec_decoded_timestamps(all);
    let mut monitor = ClockMonitor::new();
    monitor.on_subscribed();
    let mut emitted: Vec<i64> = Vec::new();
    let mut i: usize = 0;
    proof {
        assert(all.skip(0) =~= all);
        assert(emitted@ + filter_emissions(all_ts, 0) =~= filter_emissions(all_ts, 0));
    }
    while i < payloads.len()
        invariant
            i <= all.len(),
            all == payloads@.map_values(|p: Vec<u8>| p@),
            all_ts == spec_decoded_timestamps(all),
            spec_active(monitor.phase),
            emitted@ + filter_emissions(
                spec_decoded_timestamps(all.skip(i as int)),
                monitor.state.latest_emitted as int,
            ) == filter_emissions(all_ts, 0),
        decreases all.len() - i,
    {
        let ghost prev = emitted@;
        let ghost pending = all.skip(i as int);
        let ghost lat = monitor.state.latest_emitted as int;
        let outcome = monitor.on_notification(&payloads[i]);
        if let NotifyOutcome::Emitted(blocktime) = outcome {
            emitted.push(blocktime);
        }
        proof {
            assert(pending[0] == all[i as int]);
            assert(pending.drop_first() =~= all.skip(i + 1));
            let rest_ts = spec_decoded_timestamps(all.skip(i + 1));
            if pending[0].len() >= CLOCK_PAYLOAD_LEN {
                let t = spec_decode_clock(pending[0]).unix_timestamp;
                assert(spec_decoded_timestamps(pending) == seq![t] + rest_ts);
                assert((seq![t] + rest_ts)[0] == t);
                assert((seq![t] + rest_ts).drop_first() =~= rest_ts);
                if t > lat {
                    assert(filter_emissions(spec_decoded_timestamps(pending), lat) == seq![t]
                        + filter_emissions(rest_ts, t as int));
                    assert(emitted@ =~= prev + seq![t]);
                    assert(emitted@ + filter_emissions(rest_ts, t as int) =~= prev
                        + filter_emissions(spec_decoded_timestamps(pending), lat));
                } else {
                    assert(filter_emissions(spec_decoded_timestamps(pending), lat)
                        == filter_emissions(rest_ts, lat));
                }
            } else {
                assert(spec_decoded_timestamps(pending) =~= rest_ts);
            }
        }
        i = i + 1;
    }
    proof {
        assert(all.skip(all.len() as int) =~= Seq::<Seq<u8>>::empty());
        assert(emitted@ + Seq::<i64>::empty() =~= emitted@);
    }
    emitted
}

} // verus!
