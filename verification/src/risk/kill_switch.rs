//! Kill switch: operator-initiated immediate flatten.
//!
//! Two triggers: the interrupt signal, which trips the switch for good, and
//! the presence of a flag file (default `kill.flag`), which the caller polls
//! on every tick and hands to [`KillSwitch::check`].

use vstd::prelude::*;
use crate::risk::{RiskDecision, RiskReason};

verus! {

/// Default flag-file path.
pub const DEFAULT_FLAG_FILE: &'static str = "kill.flag";

/// Kill-switch state. The trip is held in the value itself, so the switch
/// is not `Clone`: a copy would not see a later trip. Code that hands one
/// switch to several places shares this one value (behind a reference or a
/// lock), and every holder then sees the trip.
#[derive(Debug)]
pub struct KillSwitch {
    signal_tripped: bool,
    flag_path: String,
}

/// Decision of a kill switch given whether it was tripped and whether the
/// flag file is present.
pub open spec fn spec_kill_decision(tripped: bool, flag_present: bool) -> RiskDecision {
    if tripped {
        RiskDecision::Flatten { reason: RiskReason::KillSignal }
    } else if flag_present {
        RiskDecision::Flatten { reason: RiskReason::KillFlagFile }
    } else {
        RiskDecision::Pass
    }
}

impl KillSwitch {
    /// Whether the switch has been tripped.
    pub closed spec fn tripped(&self) -> bool {
        self.signal_tripped
    }

    /// The polled flag-file path.
    pub closed spec fn path(&self) -> Seq<char> {
        self.flag_path@
    }

    /// Untripped switch polling `flag_path`.
    pub fn new(flag_path: &str) -> (r: Self)
        ensures
            !r.tripped(),
            r.path() == flag_path@,
    {
        KillSwitch { signal_tripped: false, flag_path: flag_path.to_owned() }
    }

    /// Untripped switch polling the default flag file.
    pub fn default_path() -> (r: Self)
        ensures
            !r.tripped(),
            r.path() == DEFAULT_FLAG_FILE@,
    {
        Self::new(DEFAULT_FLAG_FILE)
    }

    /// Trip the switch (signal received, or escalation by another guard).
    pub fn trip(&mut self)
        ensures
            final(self).tripped(),
            final(self).path() == old(self).path(),
    {
        self.signal_tripped = true;
    }

    /// Whether the switch has been tripped.
    pub fn is_tripped(&self) -> (r: bool)
        ensures
            r == self.tripped(),
    {
        self.signal_tripped
    }

    /// The polled flag-file path.
    pub fn flag_path(&self) -> (r: &str)
        ensures
            r@ == self.path(),
    {
        self.flag_path.as_str()
    }

    /// Flatten when tripped or when the flag file is present; Pass otherwise.
    pub fn check(&self, flag_file_present: bool) -> (r: RiskDecision)
        ensures
            r == spec_kill_decision(self.tripped(), flag_file_present),
    {
        if self.signal_tripped {
            return RiskDecision::Flatten { reason: RiskReason::KillSignal };
        }
        if flag_file_present {
            return RiskDecision::Flatten { reason: RiskReason::KillFlagFile };
        }
        RiskDecision::Pass
    }
}

/// A tripped switch stays tripped: tripping again, or any sequence of checks,
/// leaves it flattening whatever the flag file says.
pub proof fn lemma_trip_is_sticky(ks: KillSwitch, flag_present: bool)
    requires
        ks.tripped(),
    ensures
        spec_kill_decision(ks.tripped(), flag_present) == (RiskDecision::Flatten {
            reason: RiskReason::KillSignal,
        }),
{
}

/// An untripped switch follows the flag file alone: removing the file
/// clears the flatten.
pub proof fn lemma_untripped_follows_flag_file(ks: KillSwitch, flag_present: bool)
    requires
        !ks.tripped(),
    ensures
        spec_kill_decision(ks.tripped(), flag_present) is Flatten <==> flag_present,
{
}

} // verus!
