//! Support for HotSync-style synchronization, with pluggable sync
//! conduits.
//!
//! A conduit is an external executable that exchanges configuration with
//! the launcher through environment variables. The decision logic — which
//! sync mode a string names, which variables a conduit is handed, and how
//! a conduit reads its own environment back — lives here; launching the
//! process and reading the real environment are left to the caller.

use vstd::prelude::*;

use crate::text::{chars_eq_str, lower_chars, spec_lower, str_chars};

pub mod conduit;

verus! {

/// One of the three ways a sync can reconcile local and device data.
#[derive(Debug, Copy, Clone, PartialEq, Eq, Structural)]
pub enum SyncMode {
    /// Replace the device's copy of the data with the local copy.
    KeepLocal,
    /// Replace the local copy of the data with the device's copy.
    KeepDevice,
    /// Merge the two copies.
    Merge,
}

/// The sync mode a string names, compared case-insensitively (ASCII):
/// each mode answers to a hyphenated, a run-together and a short name.
pub open spec fn spec_sync_mode_of(s: Seq<char>) -> Option<SyncMode> {
    let l = spec_lower(s);
    if l == "keep-local"@ || l == "keeplocal"@ || l == "local"@ {
        Some(SyncMode::KeepLocal)
    } else if l == "keep-device"@ || l == "keepdevice"@ || l == "device"@ {
        Some(SyncMode::KeepDevice)
    } else if l == "merge"@ {
        Some(SyncMode::Merge)
    } else {
        None
    }
}

impl SyncMode {
    /// The canonical rendering of this mode, as handed to conduits.
    pub open spec fn spec_str(self) -> Seq<char> {
        match self {
            SyncMode::KeepLocal => "keep-local"@,
            SyncMode::KeepDevice => "keep-device"@,
            SyncMode::Merge => "merge"@,
        }
    }

    /// Parse a sync mode name, case-insensitively; an unrecognized name
    /// is handed back as the error.
    pub fn from_str(s: &str) -> (r: Result<SyncMode, String>)
        ensures
            match spec_sync_mode_of(s@) {
                Some(m) => r == Ok::<SyncMode, String>(m),
                None => r matches Err(e) && e@ == s@,
            },
    {
        let chars = str_chars(s);
        let l = lower_chars(&chars);
        if chars_eq_str(&l, "keep-local") || chars_eq_str(&l, "keeplocal") || chars_eq_str(
            &l,
            "local",
        ) {
            Ok(SyncMode::KeepLocal)
        } else if chars_eq_str(&l, "keep-device") || chars_eq_str(&l, "keepdevice")
            || chars_eq_str(&l, "device") {
            Ok(SyncMode::KeepDevice)
        } else if chars_eq_str(&l, "merge") {
            Ok(SyncMode::Merge)
        } else {
            Err(s.to_owned())
        }
    }

    /// The canonical rendering of this mode.
    pub fn as_str(&self) -> (r: &'static str)
        ensures
            r@ == self.spec_str(),
    {
        match self {
            SyncMode::KeepLocal => "keep-local",
            SyncMode::KeepDevice => "keep-device",
            SyncMode::Merge => "merge",
        }
    }
}

impl Default for SyncMode {
    /// Merging is the default reconciliation.
    fn default() -> (r: Self)
        ensures
            r == SyncMode::Merge,
    {
        SyncMode::Merge
    }
}

/// A mode's canonical rendering parses back to the mode: the two
/// functions are inverse on every mode value.
pub proof fn lemma_sync_mode_str_round_trip(m: SyncMode)
    ensures
        spec_sync_mode_of(m.spec_str()) == Some(m),
{
    broadcast use vstd::string::group_string_axioms;

    reveal_strlit("keep-local");
    reveal_strlit("keeplocal");
    reveal_strlit("local");
    reveal_strlit("keep-device");
    reveal_strlit("keepdevice");
    reveal_strlit("device");
    reveal_strlit("merge");
    match m {
        SyncMode::KeepLocal => {
            assert(spec_lower("keep-local"@) =~= "keep-local"@);
        },
        SyncMode::KeepDevice => {
            assert(spec_lower("keep-device"@) =~= "keep-device"@);
            assert("keep-device"@[5] == 'd' && "keep-local"@[5] == 'l');
            assert(spec_lower("keep-device"@) != "keep-local"@);
            assert(spec_lower("keep-device"@) != "keeplocal"@);
            assert(spec_lower("keep-device"@) != "local"@);
        },
        SyncMode::Merge => {
            assert(spec_lower("merge"@) =~= "merge"@);
            assert("merge"@[0] == 'm' && "local"@[0] == 'l' && "device"@[0] == 'd');
            assert(spec_lower("merge"@) != "keep-local"@);
            assert(spec_lower("merge"@) != "keeplocal"@);
            assert(spec_lower("merge"@) != "local"@);
            assert(spec_lower("merge"@) != "keep-device"@);
            assert(spec_lower("merge"@) != "keepdevice"@);
            assert(spec_lower("merge"@) != "device"@);
        },
    }
}

} // verus!
