//! The aggregate configuration data model: per-platform install and
//! account metadata plus the shared state (current background, outdated
//! flag, debug console flag) that the reconciler recomputes from the
//! foreign files on every read.

use vstd::prelude::*;

verus! {

/// Which part of the first-run setup failed.
pub enum ErrorKey {
    NoOverwatch,
    BattleNetInstall,
    BattleNetConfig,
    SteamInstall,
    SteamAccount,
}

/// A structured setup failure: its kind, a human-readable message, and
/// the platforms the failed setup call was asked for.
pub struct SetupError {
    pub error_key: ErrorKey,
    pub message: String,
    pub platforms: Option<Vec<String>>,
}

/// Battle.net's part of the configuration.
pub struct BattleNetConfig {
    pub enabled: bool,
    pub config: Option<String>,
    pub install: Option<String>,
}

/// One discovered local Steam account: its id and the path of its local
/// configuration file.
pub struct SteamLocalconfig {
    pub id: String,
    pub file: String,
}

/// One Steam account's profile, extracted from its configuration file.
pub struct SteamProfile {
    pub id: String,
    pub name: String,
    pub avatar: Option<String>,
    pub has_overwatch: bool,
}

/// Steam's part of the configuration.
pub struct SteamConfig {
    pub enabled: bool,
    pub in_setup: bool,
    pub install: Option<String>,
    pub configs: Option<Vec<SteamLocalconfig>>,
    pub profiles: Option<Vec<SteamProfile>>,
}

/// The shared background state.
pub struct BackgroundConfig {
    pub current: Option<String>,
    pub is_outdated: bool,
    pub custom: Option<String>,
}

/// The shared additional flags.
pub struct AdditionalConfig {
    pub console_enabled: bool,
}

/// The state shared between platforms: recomputed by the reconciler on
/// every read, never incrementally patched.
pub struct SharedConfig {
    pub background: BackgroundConfig,
    pub additional: AdditionalConfig,
}

/// The whole persisted configuration.
pub struct Config {
    pub is_setup: bool,
    pub battle_net: BattleNetConfig,
    pub steam: SteamConfig,
    pub shared: SharedConfig,
}

/// Which persisted path a resolved setup error fills in.
#[derive(Clone, Copy, PartialEq, Eq, Structural, Debug)]
pub enum SetupField {
    BattleNetInstall,
    BattleNetConfig,
    SteamInstall,
}

/// Which configuration path a setup resolution key names; nothing for
/// an unknown key.
pub fn resolve_setup_field(key: &str) -> (r: Option<SetupField>)
    ensures
        r == Some(SetupField::BattleNetInstall) <==> key@ == "BattleNetInstall"@,
        r == Some(SetupField::BattleNetConfig) <==> key@ == "BattleNetConfig"@,
        r == Some(SetupField::SteamInstall) <==> (key@ == "SteamInstall"@ || key@
            == "SteamAccount"@),
        r is None <==> !(key@ == "BattleNetInstall"@ || key@ == "BattleNetConfig"@ || key@
            == "SteamInstall"@ || key@ == "SteamAccount"@),
{
    proof {
        reveal_strlit("BattleNetInstall");
        reveal_strlit("BattleNetConfig");
        reveal_strlit("SteamInstall");
        reveal_strlit("SteamAccount");
        assert("BattleNetInstall"@.len() == 16);
        assert("BattleNetConfig"@.len() == 15);
        assert("SteamInstall"@.len() == 12);
        assert("SteamAccount"@.len() == 12);
        assert("SteamInstall"@ != "SteamAccount"@) by {
            assert("SteamInstall"@[5] == 'I');
            assert("SteamAccount"@[5] == 'A');
        }
    }
    if crate::text::str_equal(key, "BattleNetInstall") {
        Some(SetupField::BattleNetInstall)
    } else if crate::text::str_equal(key, "BattleNetConfig") {
        Some(SetupField::BattleNetConfig)
    } else if crate::text::str_equal(key, "SteamInstall") {
        Some(SetupField::SteamInstall)
    } else if crate::text::str_equal(key, "SteamAccount") {
        Some(SetupField::SteamInstall)
    } else {
        None
    }
}

/// Whether a shared state is the neutral one: no background, not
/// outdated, console off.
pub open spec fn shared_default(s: SharedConfig) -> bool {
    s.background.current is None && !s.background.is_outdated && s.background.custom is None
        && !s.additional.console_enabled
}

/// The configuration a fresh installation starts from: nothing set up,
/// both platforms disabled, the shared state neutral.
pub fn get_default_config() -> (r: Config)
    ensures
        !r.is_setup,
        !r.battle_net.enabled,
        r.battle_net.config is None,
        r.battle_net.install is None,
        !r.steam.enabled,
        !r.steam.in_setup,
        r.steam.install is None,
        r.steam.configs is None,
        r.steam.profiles is None,
        shared_default(r.shared),
{
    Config {
        is_setup: false,
        battle_net: BattleNetConfig { enabled: false, config: None, install: None },
        steam: SteamConfig {
            enabled: false,
            in_setup: false,
            install: None,
            configs: None,
            profiles: None,
        },
        shared: SharedConfig {
            background: BackgroundConfig { current: None, is_outdated: false, custom: None },
            additional: AdditionalConfig { console_enabled: false },
        },
    }
}

} // verus!
