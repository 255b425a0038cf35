use vstd::prelude::*;

use crate::chrome_policy::ChromePolicyManager;
use crate::firefox_policy::FirefoxPolicyManager;
use crate::process_scan::SupportedBrowser;
use crate::strings::owned;

verus! {

/// The Chromium policy manager of one Chromium-family browser.
#[derive(Clone)]
pub struct ChromiumPolicyBinding {
    browser: SupportedBrowser,
    policy: ChromePolicyManager,
}

impl ChromiumPolicyBinding {
    /// The browser that the binding is for.
    pub closed spec fn browser_spec(&self) -> SupportedBrowser {
        self.browser
    }

    /// The policy manager of the binding.
    pub closed spec fn policy_spec(&self) -> ChromePolicyManager {
        self.policy
    }

    /// Binds the policy manager of a Chromium-family browser to it.
    pub fn new(browser: SupportedBrowser, policy: ChromePolicyManager) -> (r: Self)
        requires
            !browser.spec_is_firefox_based(),
        ensures
            r.browser_spec() == browser,
            r.policy_spec() == policy,
    {
        ChromiumPolicyBinding { browser, policy }
    }

    /// The browser that the binding is for.
    pub fn browser(&self) -> (r: SupportedBrowser)
        ensures
            r == self.browser_spec(),
    {
        self.browser
    }

    /// The policy manager of the binding.
    pub fn policy(&self) -> (r: &ChromePolicyManager)
        ensures
            *r == self.policy_spec(),
    {
        &self.policy
    }
}

/// The Firefox policy manager of one Firefox-family browser.
#[derive(Clone)]
pub struct GeckoPolicyBinding {
    browser: SupportedBrowser,
    policy: FirefoxPolicyManager,
}

impl GeckoPolicyBinding {
    /// The browser that the binding is for.
    pub closed spec fn browser_spec(&self) -> SupportedBrowser {
        self.browser
    }

    /// The policy manager of the binding.
    pub closed spec fn policy_spec(&self) -> FirefoxPolicyManager {
        self.policy
    }

    /// Binds the policy manager of a Firefox-family browser to it.
    pub fn new(browser: SupportedBrowser, policy: FirefoxPolicyManager) -> (r: Self)
        requires
            browser.spec_is_firefox_based(),
        ensures
            r.browser_spec() == browser,
            r.policy_spec() == policy,
    {
        GeckoPolicyBinding { browser, policy }
    }

    /// The browser that the binding is for.
    pub fn browser(&self) -> (r: SupportedBrowser)
        ensures
            r == self.browser_spec(),
    {
        self.browser
    }

    /// The policy manager of the binding.
    pub fn policy(&self) -> (r: &FirefoxPolicyManager)
        ensures
            *r == self.policy_spec(),
    {
        &self.policy
    }
}

/// Where each managed browser keeps its policy, and which extension each
/// one installs, as the daemon is configured.
#[derive(Debug, Clone, PartialEq, Eq)]
pub struct BrowserPolicyPaths {
    pub firefox_policy: String,
    pub extension_id: String,
    pub firefox_extension_install_url: String,
    pub librewolf_policy: String,
    pub librewolf_policy_backup: String,
    pub librewolf_extension_id: String,
    pub librewolf_extension_install_url: String,
    pub waterfox_policy: String,
    pub waterfox_policy_backup: String,
    pub waterfox_extension_id: String,
    pub waterfox_extension_install_url: String,
    pub chrome_policy: String,
    pub chrome_extension_id: String,
    pub chromium_policy: String,
    pub chromium_extension_id: String,
    pub brave_policy: String,
    pub brave_extension_id: String,
    pub opera_policy: String,
    pub opera_extension_id: String,
    pub edge_policy: String,
    pub edge_extension_id: String,
    pub vivaldi_policy: String,
    pub vivaldi_extension_id: String,
}

/// Whether a binding is for `browser`, with a manager that owns (or, with
/// a backup path, merges into) the policy at `path` for extension `id`
/// installed from `url`.
pub open spec fn gecko_bound(
    b: GeckoPolicyBinding,
    browser: SupportedBrowser,
    path: String,
    id: String,
    url: String,
    backup: Option<String>,
) -> bool {
    &&& b.browser_spec() == browser
    &&& b.policy_spec().path_spec() == path@
    &&& b.policy_spec().extension_spec() == id@
    &&& b.policy_spec().install_url_spec() == url@
    &&& match backup {
        Some(p) => b.policy_spec().merges() && b.policy_spec().backup_spec() == Some(p@),
        None => !b.policy_spec().merges() && b.policy_spec().backup_spec() is None,
    }
}

/// Whether a binding is for `browser`, with a manager of the policy at
/// `path` for extension `id`, reported under the browser name `name`.
pub open spec fn chromium_bound(
    b: ChromiumPolicyBinding,
    browser: SupportedBrowser,
    path: String,
    id: String,
    name: Seq<char>,
) -> bool {
    &&& b.browser_spec() == browser
    &&& b.policy_spec().path_spec() == path@
    &&& b.policy_spec().extension_spec() == id@
    &&& b.policy_spec().browser_spec() == name
}

/// The Firefox-family bindings of the daemon: Firefox owns its policy file;
/// LibreWolf and Waterfox merge into theirs, keeping a backup.
pub fn gecko_policy_bindings(paths: &BrowserPolicyPaths) -> (r: Vec<GeckoPolicyBinding>)
    ensures
        r@.len() == 3,
        gecko_bound(
            r@[0],
            SupportedBrowser::Firefox,
            paths.firefox_policy,
            paths.extension_id,
            paths.firefox_extension_install_url,
            None,
        ),
        gecko_bound(
            r@[1],
            SupportedBrowser::LibreWolf,
            paths.librewolf_policy,
            paths.librewolf_extension_id,
            paths.librewolf_extension_install_url,
            Some(paths.librewolf_policy_backup),
        ),
        gecko_bound(
            r@[2],
            SupportedBrowser::Waterfox,
            paths.waterfox_policy,
            paths.waterfox_extension_id,
            paths.waterfox_extension_install_url,
            Some(paths.waterfox_policy_backup),
        ),
{
    let firefox = GeckoPolicyBinding::new(
        SupportedBrowser::Firefox,
        FirefoxPolicyManager::for_browser(
            paths.firefox_policy.clone(),
            paths.extension_id.clone(),
            paths.firefox_extension_install_url.clone(),
        ),
    );
    let librewolf = GeckoPolicyBinding::new(
        SupportedBrowser::LibreWolf,
        FirefoxPolicyManager::merging_existing_policy(
            paths.librewolf_policy.clone(),
            paths.librewolf_extension_id.clone(),
            paths.librewolf_extension_install_url.clone(),
            paths.librewolf_policy_backup.clone(),
        ),
    );
    let waterfox = GeckoPolicyBinding::new(
        SupportedBrowser::Waterfox,
        FirefoxPolicyManager::merging_existing_policy(
            paths.waterfox_policy.clone(),
            paths.waterfox_extension_id.clone(),
            paths.waterfox_extension_install_url.clone(),
            paths.waterfox_policy_backup.clone(),
        ),
    );
    vec![firefox, librewolf, waterfox]
}

/// The Chromium-family bindings of the daemon, each reported under its
/// browser's name.
pub fn chromium_policy_bindings(paths: &BrowserPolicyPaths) -> (r: Vec<ChromiumPolicyBinding>)
    ensures
        r@.len() == 6,
        chromium_bound(r@[0], SupportedBrowser::Chrome, paths.chrome_policy, paths.chrome_extension_id, "Chrome"@),
        chromium_bound(
            r@[1],
            SupportedBrowser::Chromium,
            paths.chromium_policy,
            paths.chromium_extension_id,
            "Chromium"@,
        ),
        chromium_bound(r@[2], SupportedBrowser::Brave, paths.brave_policy, paths.brave_extension_id, "Brave"@),
        chromium_bound(r@[3], SupportedBrowser::Opera, paths.opera_policy, paths.opera_extension_id, "Opera"@),
        chromium_bound(
            r@[4],
            SupportedBrowser::Edge,
            paths.edge_policy,
            paths.edge_extension_id,
            "Microsoft Edge"@,
        ),
        chromium_bound(
            r@[5],
            SupportedBrowser::Vivaldi,
            paths.vivaldi_policy,
            paths.vivaldi_extension_id,
            "Vivaldi"@,
        ),
{
    let chrome = ChromiumPolicyBinding::new(
        SupportedBrowser::Chrome,
        ChromePolicyManager::for_browser(paths.chrome_policy.clone(), paths.chrome_extension_id.clone(), owned("Chrome")),
    );
    let chromium = ChromiumPolicyBinding::new(
        SupportedBrowser::Chromium,
        ChromePolicyManager::for_browser(
            paths.chromium_policy.clone(),
            paths.chromium_extension_id.clone(),
            owned("Chromium"),
        ),
    );
    let brave = ChromiumPolicyBinding::new(
        SupportedBrowser::Brave,
        ChromePolicyManager::for_browser(paths.brave_policy.clone(), paths.brave_extension_id.clone(), owned("Brave")),
    );
    let opera = ChromiumPolicyBinding::new(
        SupportedBrowser::Opera,
        ChromePolicyManager::for_browser(paths.opera_policy.clone(), paths.opera_extension_id.clone(), owned("Opera")),
    );
    let edge = ChromiumPolicyBinding::new(
        SupportedBrowser::Edge,
        ChromePolicyManager::for_browser(
            paths.edge_policy.clone(),
            paths.edge_extension_id.clone(),
            owned("Microsoft Edge"),
        ),
    );
    let vivaldi = ChromiumPolicyBinding::new(
        SupportedBrowser::Vivaldi,
        ChromePolicyManager::for_browser(
            paths.vivaldi_policy.clone(),
            paths.vivaldi_extension_id.clone(),
            owned("Vivaldi"),
        ),
    );
    vec![chrome, chromium, brave, opera, edge, vivaldi]
}

} // verus!
