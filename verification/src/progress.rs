//! A per-stage progress meter: it counts processed items and says when a
//! report is due, at most once per reporting window.

use vstd::prelude::*;
use vstd::string::*;
use crate::text::{dec_str, push_dec_u64};

verus! {

/// Milliseconds between two reports.
pub const REPORT_INTERVAL_MILLIS: u64 = 10000;

/// Relies on std::time::SystemTime::now: milliseconds since the Unix
/// epoch, to rate-limit reports; nothing is assumed of the value.
#[verifier::external_body]
fn epoch_millis() -> (r: u64)
{
    match std::time::SystemTime::now().duration_since(std::time::UNIX_EPOCH) {
        Ok(d) => {
            let ms = d.as_millis();
            if ms > u64::MAX as u128 {
                u64::MAX
            } else {
                ms as u64
            }
        },
        Err(_) => 0u64,
    }
}

/// Counts processed items and remembers when it last reported.
pub struct Progress {
    pub message: String,
    pub started_at: u64,
    pub reported_at: u64,
    pub total_processed: u64,
}

impl Progress {
    /// A fresh meter under the given label: nothing counted and no
    /// report emitted yet.
    pub fn new(message: String) -> (r: Progress)
        ensures
            r.message@ == message@,
            r.total_processed == 0,
            r.started_at == r.reported_at,
    {
        let now = epoch_millis();
        Progress { message, started_at: now, reported_at: now, total_processed: 0 }
    }

    /// Counts one processed item; true exactly when a report is due and
    /// was marked, so the caller may piggyback extra output.
    pub fn update(&mut self) -> (r: bool)
        ensures
            final(self).total_processed as int == (if old(self).total_processed < u64::MAX {
                old(self).total_processed + 1
            } else {
                u64::MAX as int
            }),
            final(self).message@ == old(self).message@,
    {
        if self.total_processed < u64::MAX {
            self.total_processed = self.total_processed + 1;
        }
        let now = epoch_millis();
        if now >= self.reported_at && now - self.reported_at >= REPORT_INTERVAL_MILLIS {
            self.reported_at = now;
            true
        } else {
            false
        }
    }

    /// Starts a fresh window and count.
    pub fn reset(&mut self)
        ensures
            final(self).total_processed == 0,
            final(self).message@ == old(self).message@,
    {
        let now = epoch_millis();
        self.started_at = now;
        self.reported_at = now;
        self.total_processed = 0;
    }

    /// The report line: the label, the count, and the whole-unit rate per
    /// second since the start.
    pub fn report_line(&self) -> (r: String)
        ensures
            ({
                let rate = (if self.started_at < self.reported_at {
                    self.total_processed as int / ((((self.reported_at - self.started_at) as int
                        - 1) / 1000) + 1)
                } else {
                    self.total_processed as int
                });
                r@ == self.message@ + ": "@ + dec_str(self.total_processed as nat) + " total ("@
                    + dec_str(rate as nat) + "/second)"@
            }),
    {
        proof {
            reveal_strlit(": ");
            reveal_strlit(" total (");
            reveal_strlit("/second)");
        }
        let mut s = self.message.clone();
        s.append(": ");
        push_dec_u64(&mut s, self.total_processed);
        s.append(" total (");
        let rate: u64 = if self.started_at < self.reported_at {
            let elapsed = self.reported_at - self.started_at;
            self.total_processed / (((elapsed - 1) / 1000) + 1)
        } else {
            self.total_processed
        };
        push_dec_u64(&mut s, rate);
        s.append("/second)");
        proof {
            assert(s@ =~= self.message@ + ": "@ + dec_str(self.total_processed as nat)
                + " total ("@ + dec_str((if self.started_at < self.reported_at {
                self.total_processed as int / ((((self.reported_at - self.started_at) as int - 1)
                    / 1000) + 1)
            } else {
                self.total_processed as int
            }) as nat) + "/second)"@);
        }
        s
    }
}

} // verus!
