//! Per-endpoint monitoring state machine.
//!
//! A monitor starts unhealthy, probes its endpoint on a fixed cadence, and
//! flips the health flag once a streak of consecutive successful probes
//! reaches the configured confidence threshold; any failure resets the
//! streak.  It also watches the endpoint's resolved address set and reports
//! when it changes.  The driving loop performs the DNS and HTTP calls and
//! feeds their outcomes into the state machine, which makes every decision.

use vstd::prelude::*;
use crate::ip::{IpAddress, ip_set, same_ip_set, strictly_sorted};
use crate::text::{contains_str, seq_contains};

verus! {

broadcast use vstd::string::group_string_axioms;

/// What one probe attempt produced: the response body of a `200 OK`
/// answer, or a description of the failure.
#[derive(Debug)]
pub enum ProbeOutcome {
    /// The probe returned `200 OK` with this body.
    Success {
        /// The response body, decoded as UTF-8.
        body: String,
    },
    /// The probe failed; the detail names the phase or status that failed.
    Failure {
        /// Human-readable description of the failure.
        detail: String,
    },
}

/// Mutable state of one endpoint's monitor.
#[derive(Debug)]
pub struct MonitorState {
    /// The published health flag.
    pub healthy: bool,
    /// Number of consecutive successful probes, saturating.
    pub confidence: u8,
    /// The endpoint's resolved address set from the previous cycle, in
    /// canonical (strictly sorted) form.
    pub last_dns: Vec<IpAddress>,
    /// Why the endpoint was last marked unhealthy.
    pub last_problem: Option<String>,
}

/// One more success on a saturating confidence counter.
pub open spec fn bump(c: u8) -> u8 {
    if c < 255 {
        (c + 1) as u8
    } else {
        255u8
    }
}

/// The confidence counter after `n` further consecutive successes.
pub open spec fn confidence_after_successes(c: u8, n: nat) -> u8
    decreases n,
{
    if n == 0 {
        c
    } else {
        bump(confidence_after_successes(c, (n - 1) as nat))
    }
}

/// Confidence saturates: any number of consecutive successes keeps the
/// counter within its range, and a counter at or above the threshold never
/// drops below it on success.
pub proof fn lemma_confidence_saturates(c: u8, threshold: u8, n: nat)
    ensures
        confidence_after_successes(c, n) <= 255,
        c >= threshold ==> confidence_after_successes(c, n) >= threshold,
    decreases n,
{
    if n > 0 {
        lemma_confidence_saturates(c, threshold, (n - 1) as nat);
    }
}

impl MonitorState {
    /// The initial state: unhealthy, no streak, nothing resolved yet.
    pub fn new() -> (r: MonitorState)
        ensures
            !r.healthy,
            r.confidence == 0,
            r.last_dns@.len() == 0,
            r.last_problem is None,
            strictly_sorted(r.last_dns@),
    {
        MonitorState { healthy: false, confidence: 0, last_dns: Vec::new(), last_problem: None }
    }

    /// Fold the confidence streak into the health flag: the endpoint is
    /// healthy exactly when the streak has reached the threshold, and the
    /// counter is clamped there so it cannot overflow.  Returns whether a
    /// `HealthChanged` event must be emitted: exactly when the flag flipped.
    pub fn apply_confidence(&mut self, threshold: u8) -> (emit: bool)
        ensures
            final(self).healthy == (old(self).confidence >= threshold),
            final(self).confidence == if old(self).confidence >= threshold {
                threshold
            } else {
                old(self).confidence
            },
            final(self).confidence <= old(self).confidence,
            emit == (final(self).healthy != old(self).healthy),
            final(self).last_dns == old(self).last_dns,
            final(self).last_problem == old(self).last_problem,
    {
        let new_healthy = self.confidence >= threshold;
        if new_healthy {
            self.confidence = threshold;
        }
        let emit = new_healthy != self.healthy;
        self.healthy = new_healthy;
        emit
    }

    /// Record the outcome of a DNS resolution cycle.
    ///
    /// A failed resolution (`None`) changes nothing.  A successful one
    /// replaces the remembered address set and asks for a
    /// `DnsValuesChanged` event exactly when the set differs; an empty set
    /// additionally records `"no DNS values"` as the problem and resets the
    /// confidence streak.  Returns `(emit_changed, usable)`: whether to
    /// emit the event, and whether the cycle may go on to probe.
    pub fn observe_resolution(&mut self, resolved: Option<Vec<IpAddress>>) -> (r: (bool, bool))
        requires
            strictly_sorted(old(self).last_dns@),
            resolved matches Some(v) ==> strictly_sorted(v@),
        ensures
            strictly_sorted(final(self).last_dns@),
            final(self).healthy == old(self).healthy,
            match resolved {
                None => {
                    &&& *final(self) == *old(self)
                    &&& r == (false, false)
                },
                Some(v) => {
                    &&& r.0 == (ip_set(v@) != ip_set(old(self).last_dns@))
                    &&& final(self).last_dns@ == v@
                    &&& if v@.len() == 0 {
                        &&& r.1 == false
                        &&& final(self).confidence == 0
                        &&& final(self).last_problem matches Some(p) && p@ == "no DNS values"@
                    } else {
                        &&& r.1 == true
                        &&& final(self).confidence == old(self).confidence
                        &&& final(self).last_problem == old(self).last_problem
                    }
                },
            },
    {
        let v = match resolved {
            Some(v) => v,
            None => {
                return (false, false);
            },
        };
        let changed = !same_ip_set(&v, &self.last_dns);
        self.last_dns = v;
        if self.last_dns.len() == 0 {
            self.last_problem = Some("no DNS values".to_owned());
            self.confidence = 0;
            (changed, false)
        } else {
            (changed, true)
        }
    }

    /// The address the probe should connect to: when the probe URI's host
    /// is the endpoint's own record, the probe must reach one of the
    /// resolved addresses directly (the URI host still supplies SNI and the
    /// `Host` header); otherwise the transport resolves the URI normally.
    pub fn probe_target(dns_record: &str, uri_host: &str, resolved: &Vec<IpAddress>) -> (r:
        Option<IpAddress>)
        requires
            resolved.len() > 0,
        ensures
            r == if dns_record@ == uri_host@ {
                Some(resolved@[0])
            } else {
                None::<IpAddress>
            },
    {
        let same = dns_record.to_owned() == uri_host.to_owned();
        if same {
            Some(resolved[0])
        } else {
            None
        }
    }

    /// Record the outcome of one probe attempt.
    ///
    /// A failure stores its description as the problem and resets the
    /// streak.  A `200 OK` body counts as a success — extending the streak
    /// by one, saturating — unless a marker is configured and the body does
    /// not contain it, which resets the streak instead.
    pub fn observe_probe(&mut self, outcome: ProbeOutcome, marker: &Option<String>)
        ensures
            final(self).healthy == old(self).healthy,
            final(self).last_dns == old(self).last_dns,
            match outcome {
                ProbeOutcome::Failure { detail } => {
                    &&& final(self).confidence == 0
                    &&& final(self).last_problem matches Some(p) && p@ == detail@
                },
                ProbeOutcome::Success { body } => {
                    &&& final(self).last_problem == old(self).last_problem
                    &&& match marker {
                        Some(m) => if seq_contains(body@, m@) {
                            final(self).confidence == bump(old(self).confidence)
                        } else {
                            final(self).confidence == 0
                        },
                        None => final(self).confidence == bump(old(self).confidence),
                    }
                },
            },
    {
        match outcome {
            ProbeOutcome::Failure { detail } => {
                self.last_problem = Some(detail);
                self.confidence = 0;
            },
            ProbeOutcome::Success { body } => {
                let ok = match marker {
                    Some(m) => contains_str(body.as_str(), m.as_str()),
                    None => true,
                };
                if ok {
                    if self.confidence < 255 {
                        self.confidence += 1;
                    }
                } else {
                    self.confidence = 0;
                }
            },
        }
    }
}

} // verus!
