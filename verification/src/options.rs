use vstd::prelude::*;

verus! {

/// Where the daemon reads its policy by default.
pub const DEFAULT_CONFIG_PATH: &'static str = "/etc/blockuntu/config.toml";
/// Where the daemon keeps its database by default.
pub const DEFAULT_DATABASE_PATH: &'static str = "/var/lib/blockuntu/blockuntu.sqlite3";
/// Where the daemon appends its event log by default.
pub const DEFAULT_EVENT_LOG_PATH: &'static str = "/etc/blockuntu/blockuntu.log";
/// Where the policy recovery snapshot lives by default.
pub const DEFAULT_POLICY_RECOVERY_PATH: &'static str = "/etc/blockuntu/policy-recovery.toml";
/// The daemon's socket by default.
pub const DEFAULT_SOCKET_PATH: &'static str = "/run/blockuntu/blockuntud.sock";
/// Firefox's enterprise policy file.
pub const DEFAULT_FIREFOX_POLICY_PATH: &'static str = "/etc/firefox/policies/policies.json";
/// The id of the Firefox-family extension.
pub const DEFAULT_EXTENSION_ID: &'static str = "{a7c3f3c4-6b1e-4c6f-9f2a-8d4e5b7c1a90}";
/// Where Firefox-family browsers install the extension from.
pub const DEFAULT_FIREFOX_EXTENSION_INSTALL_URL: &'static str =
    "https://addons.mozilla.org/firefox/downloads/latest/blockuntu/latest.xpi";
/// LibreWolf's policy file: its application's distribution directory under
/// /usr/share/librewolf, from which Firefox-family browsers load policies.
pub const DEFAULT_LIBREWOLF_POLICY_PATH: &'static str = "/usr/share/librewolf/distribution/policies.json";
/// Where the values that a merge replaces in LibreWolf's policy are kept.
pub const DEFAULT_LIBREWOLF_POLICY_BACKUP_PATH: &'static str =
    "/var/lib/blockuntu/browser-policy-backups/librewolf.json";
/// Waterfox's policy file.
pub const DEFAULT_WATERFOX_POLICY_PATH: &'static str = "/usr/lib/waterfox/distribution/policies.json";
/// Where the values that a merge replaces in Waterfox's policy are kept.
pub const DEFAULT_WATERFOX_POLICY_BACKUP_PATH: &'static str =
    "/var/lib/blockuntu/browser-policy-backups/waterfox.json";
/// Chrome's managed policy file.
pub const DEFAULT_CHROME_POLICY_PATH: &'static str = "/etc/opt/chrome/policies/managed/blockuntu.json";
/// The id of the Chromium-family extension in the Chrome Web Store.
pub const DEFAULT_CHROME_EXTENSION_ID: &'static str = "opfljaancedgklbpnbpjfhdbbhbfpnoc";
/// Chromium's managed policy file.
pub const DEFAULT_CHROMIUM_POLICY_PATH: &'static str = "/etc/chromium/policies/managed/blockuntu.json";
/// Brave's managed policy file.
pub const DEFAULT_BRAVE_POLICY_PATH: &'static str = "/etc/brave/policies/managed/blockuntu.json";
/// Opera's managed policy file.
pub const DEFAULT_OPERA_POLICY_PATH: &'static str = "/etc/opt/opera/policies/managed/blockuntu.json";
/// Edge's managed policy file.
pub const DEFAULT_EDGE_POLICY_PATH: &'static str = "/etc/opt/edge/policies/managed/blockuntu.json";
/// Vivaldi's managed policy file.
pub const DEFAULT_VIVALDI_POLICY_PATH: &'static str = "/etc/vivaldi/policies/managed/blockuntu.json";
/// The hosts file.
pub const DEFAULT_HOSTS_PATH: &'static str = "/etc/hosts";
/// The loopback address of the bridge for confined Snap browsers.
pub const DEFAULT_SNAP_NATIVE_BRIDGE_ADDRESS: &'static str = "127.0.0.1:35173";
/// The file that holds the Snap bridge's access token.
pub const DEFAULT_SNAP_NATIVE_BRIDGE_TOKEN_FILE: &'static str = "/etc/blockuntu/snap-native-bridge-token";

/// What the daemon is asked to do.
#[derive(Debug, Clone, Copy, PartialEq, Eq, Structural)]
pub enum Command {
    Serve,
    Check,
    RepairFirefoxPolicy,
    RepairChromePolicy,
    RepairHosts,
}

/// The command to run: the one given, else serving.
pub fn command_or_serve(command: Option<Command>) -> (r: Command)
    ensures
        r == match command {
            Some(c) => c,
            None => Command::Serve,
        },
{
    match command {
        Some(c) => c,
        None => Command::Serve,
    }
}

/// The switches that turn browser policy repair off or defer it.
#[derive(Debug, Clone, Copy, PartialEq, Eq, Structural)]
pub struct PolicyRepairSwitches {
    pub no_browser_policy_repair: bool,
    pub no_firefox_policy_repair: bool,
    pub no_chrome_policy_repair: bool,
    pub defer_browser_policy_repair_until_heartbeat: bool,
    pub defer_firefox_policy_repair_until_heartbeat: bool,
    pub defer_chrome_policy_repair_until_heartbeat: bool,
}

impl PolicyRepairSwitches {
    /// Whether Firefox-family policies are managed: unless turned off for all
    /// browsers or for Firefox.
    pub fn manage_firefox_policy(&self) -> (r: bool)
        ensures
            r == !(self.no_browser_policy_repair || self.no_firefox_policy_repair),
    {
        !(self.no_browser_policy_repair || self.no_firefox_policy_repair)
    }

    /// Whether Chromium-family policies are managed: unless turned off for all
    /// browsers or for Chrome.
    pub fn manage_chrome_policy(&self) -> (r: bool)
        ensures
            r == !(self.no_browser_policy_repair || self.no_chrome_policy_repair),
    {
        !(self.no_browser_policy_repair || self.no_chrome_policy_repair)
    }

    /// Whether Firefox-family policy repair waits for the extension's first
    /// heartbeat.
    pub fn defer_firefox_policy_repair_until_heartbeat(&self) -> (r: bool)
        ensures
            r == (self.defer_browser_policy_repair_until_heartbeat
                || self.defer_firefox_policy_repair_until_heartbeat),
    {
        self.defer_browser_policy_repair_until_heartbeat
            || self.defer_firefox_policy_repair_until_heartbeat
    }

    /// Whether Chromium-family policy repair waits for the extension's first
    /// heartbeat.
    pub fn defer_chrome_policy_repair_until_heartbeat(&self) -> (r: bool)
        ensures
            r == (self.defer_browser_policy_repair_until_heartbeat
                || self.defer_chrome_policy_repair_until_heartbeat),
    {
        self.defer_browser_policy_repair_until_heartbeat
            || self.defer_chrome_policy_repair_until_heartbeat
    }
}

} // verus!
