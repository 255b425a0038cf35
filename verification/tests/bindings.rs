use blockuntu::bindings::{chromium_policy_bindings, gecko_policy_bindings, BrowserPolicyPaths};
use blockuntu::process_scan::SupportedBrowser;

fn paths() -> BrowserPolicyPaths {
    let s = |v: &str| v.to_string();
    BrowserPolicyPaths {
        firefox_policy: s("/etc/firefox/policies/policies.json"),
        extension_id: s("blockuntu@example.org"),
        firefox_extension_install_url: s("file:///usr/share/blockuntu/firefox.xpi"),
        librewolf_policy: s("/usr/lib/librewolf/distribution/policies.json"),
        librewolf_policy_backup: s("/var/lib/blockuntu/librewolf-backup.json"),
        librewolf_extension_id: s("blockuntu-lw@example.org"),
        librewolf_extension_install_url: s("file:///usr/share/blockuntu/librewolf.xpi"),
        waterfox_policy: s("/usr/lib/waterfox/distribution/policies.json"),
        waterfox_policy_backup: s("/var/lib/blockuntu/waterfox-backup.json"),
        waterfox_extension_id: s("blockuntu-wf@example.org"),
        waterfox_extension_install_url: s("file:///usr/share/blockuntu/waterfox.xpi"),
        chrome_policy: s("/etc/opt/chrome/policies/managed/blockuntu.json"),
        chrome_extension_id: s("chromeid"),
        chromium_policy: s("/etc/chromium/policies/managed/blockuntu.json"),
        chromium_extension_id: s("chromiumid"),
        brave_policy: s("/etc/brave/policies/managed/blockuntu.json"),
        brave_extension_id: s("braveid"),
        opera_policy: s("/etc/opera/policies/managed/blockuntu.json"),
        opera_extension_id: s("operaid"),
        edge_policy: s("/etc/opt/edge/policies/managed/blockuntu.json"),
        edge_extension_id: s("edgeid"),
        vivaldi_policy: s("/etc/vivaldi/policies/managed/blockuntu.json"),
        vivaldi_extension_id: s("vivaldiid"),
    }
}

#[test]
fn daemon_binds_each_managed_browser_to_its_policy() {
    let paths = paths();
    let gecko = gecko_policy_bindings(&paths);
    let browsers: Vec<SupportedBrowser> = gecko.iter().map(|b| b.browser()).collect();
    assert_eq!(browsers, vec![SupportedBrowser::Firefox, SupportedBrowser::LibreWolf, SupportedBrowser::Waterfox]);
    assert_eq!(gecko[0].policy().policy_path(), paths.firefox_policy);
    assert_eq!(gecko[0].policy().backup_path(), None);
    assert_eq!(gecko[1].policy().backup_path(), Some(paths.librewolf_policy_backup.as_str()));
    assert_eq!(gecko[2].policy().policy_path(), paths.waterfox_policy);

    let chromium = chromium_policy_bindings(&paths);
    let names: Vec<&str> = chromium.iter().map(|b| b.policy().browser_name()).collect();
    assert_eq!(names, vec!["Chrome", "Chromium", "Brave", "Opera", "Microsoft Edge", "Vivaldi"]);
    assert_eq!(chromium[4].browser(), SupportedBrowser::Edge);
    assert_eq!(chromium[1].policy().policy_path(), paths.chromium_policy);
}
