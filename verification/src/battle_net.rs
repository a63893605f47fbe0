//! The JSON-backed platform adapter's decisions: which launch-argument
//! string to write for a desired change, and what the platform observes
//! for reconciliation. The surrounding application owns the JSON
//! serializer and the file; it hands this module the current
//! launch-argument value and takes back the new one.

use vstd::prelude::*;
use vstd::string::*;

use crate::args::{apply_change, opt_seq, spec_apply_change, FlagChange};
use crate::config::{AdditionalConfig, BackgroundConfig, SharedConfig};
use crate::reconcile::{make_observation, reconcile, reconciled, spec_obs_of};
use crate::steam::spec_reset_changes;
use crate::Error;

verus! {

/// The new launch-argument value to store for the game's record, or an
/// error when the launcher has no record of the game at all (the caller
/// reports it as "reset your settings" guidance).
pub fn set_launch_args(has_overwatch: bool, current_args: Option<&str>, c: &FlagChange) -> (r:
    Result<String, Error>)
    ensures
        r is Ok <==> has_overwatch,
        r matches Ok(s) ==> s@ == spec_apply_change(opt_seq(current_args), *c),
{
    if !has_overwatch {
        return Err(
            Error::Custom(
                String::from_str(
                    "Unable to find an Overwatch installation on Battle.net. If you have changed your Battle.net installation, please reset settings",
                ),
            ),
        );
    }
    Ok(apply_change(current_args, c))
}

/// Recompute the shared state from this platform's launch-argument
/// value; an absent value (the record or the key is missing) yields the
/// neutral state.
pub fn update_config(launch_args: Option<&str>) -> (r: SharedConfig)
    ensures
        match launch_args {
            Some(s) => reconciled(r, seq![spec_obs_of(s@)]),
            None => r.background.current is None && !r.background.is_outdated
                && r.background.custom is None && !r.additional.console_enabled,
        },
{
    match launch_args {
        Some(args) => {
            let o = make_observation(args);
            let mut obs = Vec::new();
            obs.push(o);
            let ghost dv = obs@.map_values(
                |x: crate::reconcile::PlatformObservation| crate::reconcile::obs_view(x),
            );
            let r = reconcile(&obs);
            proof {
                assert(dv =~= seq![spec_obs_of(args@)]);
            }
            r
        },
        None => SharedConfig {
            background: BackgroundConfig { current: None, is_outdated: false, custom: None },
            additional: AdditionalConfig { console_enabled: false },
        },
    }
}

/// The flag changes that reset this platform's managed state, to be
/// applied through `set_launch_args` one by one.
pub fn reset_config(enabled: bool, shared: &SharedConfig) -> (r: Vec<FlagChange>)
    ensures
        r@ == spec_reset_changes(
            enabled,
            shared.background.current is Some,
            shared.additional.console_enabled,
        ),
{
    let mut r: Vec<FlagChange> = Vec::new();
    if enabled {
        if shared.background.current.is_some() {
            r.push(FlagChange::Background(None));
        }
        if shared.additional.console_enabled {
            r.push(FlagChange::Console(false));
        }
    }
    assert(r@ =~= spec_reset_changes(
        enabled,
        shared.background.current is Some,
        shared.additional.console_enabled,
    ));
    r
}

/// Whether the launcher's startup screen value must be forced to its
/// default: it is absent, not textual, or the legacy zero.
pub fn needs_default_startup_screen(screen: Option<&str>) -> (r: bool)
    ensures
        r == match screen {
            Some(s) => s@ == "0"@,
            None => true,
        },
{
    match screen {
        Some(s) => crate::text::str_equal(s, "0"),
        None => true,
    }
}

} // verus!
