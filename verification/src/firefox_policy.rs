use vstd::prelude::*;

use crate::chrome_policy::{nested_member, optional_member_str, PolicyFileRead};
use crate::daemon_error::{io_error, DaemonError};
use crate::host_error::IoErrorKind;
use crate::json::{
    canonical_json, edit_object, edit_object_pretty, json_edit_object_pretty, edit_views, json_canonical, json_edit_object, json_member,
    json_member_bool, json_member_i64, json_member_str, json_object_len, json_object_pretty,
    json_object_text, json_parse_error, json_piece_text, member_bool, member_i64, member_json,
    member_str, member_views, object_json, object_json_pretty, object_len, parse_error_text,
    lemma_object_text_plain, plain_depth, plain_members, plain_piece,
    piece_json, JsonPiece, PieceView,
};
use crate::strings::{bytes_equal, concat3, owned};

verus! {

/// Writes the enterprise policy that force-installs the extension in one
/// Firefox-family browser.
#[derive(Debug, Clone)]
pub struct FirefoxPolicyManager {
    policy_path: String,
    extension_id: String,
    install_url: String,
    merge_with_existing: bool,
    backup_path: Option<String>,
}

/// What a repair of a Firefox policy did.
#[derive(Debug, Clone, Copy, PartialEq, Eq, Structural)]
pub enum RepairStatus {
    AlreadyCompliant,
    Repaired,
    SkippedInactive,
    SkippedDisabled,
    SkippedDeferred,
}

/// What the daemon reports of a Firefox policy file.
#[derive(Debug, Clone)]
pub struct FirefoxPolicyStatus {
    pub path: String,
    pub extension_id: String,
    pub policy_exists: bool,
    pub valid_json: bool,
    pub compliant: bool,
    pub private_browsing_enabled: bool,
    pub private_browsing_available: bool,
    pub install_url: Option<String>,
    pub detail: String,
}

/// The values that a merge replaced in a browser's own policy, kept so that
/// removal can put them back: each as JSON text, `None` where there was none.
#[derive(Debug, Clone)]
pub struct MergedPolicyBackup {
    pub policy_was_missing: bool,
    pub policy_values: Vec<(String, Option<Vec<u8>>)>,
    pub extension_setting: Option<Vec<u8>>,
    pub preference_setting: Option<Vec<u8>>,
}

/// A repair to carry out: its outcome, a backup to write first (when one
/// must be made), and the policy text to write.
#[derive(Debug, Clone)]
pub struct FirefoxRepairPlan {
    pub status: RepairStatus,
    pub backup: Option<MergedPolicyBackup>,
    pub contents: Option<Vec<u8>>,
}

/// The preference that this program locks.
pub open spec fn quarantine_pref_key() -> Seq<char> {
    "extensions.quarantinedDomains.enabled"@
}

/// The policies that this program sets to fixed values, with their values.
pub open spec fn managed_policy_values() -> Seq<(Seq<char>, PieceView)> {
    seq![
        ("BlockAboutConfig"@, PieceView::Bool(true)),
        ("BlockAboutProfiles"@, PieceView::Bool(true)),
        ("BlockAboutSupport"@, PieceView::Bool(true)),
        ("DisableDeveloperTools"@, PieceView::Bool(true)),
        ("DisableSafeMode"@, PieceView::Bool(true)),
        ("PrivateBrowsingModeAvailability"@, PieceView::Integer(0)),
    ]
}

/// The fixed policies as member edits, each value as serde_json writes it.
pub open spec fn managed_policy_edits() -> Seq<(Seq<char>, Option<Seq<u8>>)> {
    seq![
        ("BlockAboutConfig"@, Some(json_piece_text(PieceView::Bool(true)))),
        ("BlockAboutProfiles"@, Some(json_piece_text(PieceView::Bool(true)))),
        ("BlockAboutSupport"@, Some(json_piece_text(PieceView::Bool(true)))),
        ("DisableDeveloperTools"@, Some(json_piece_text(PieceView::Bool(true)))),
        ("DisableSafeMode"@, Some(json_piece_text(PieceView::Bool(true)))),
        ("PrivateBrowsingModeAvailability"@, Some(json_piece_text(PieceView::Integer(0)))),
    ]
}

proof fn lemma_managed_edit(i: int)
    requires
        0 <= i < 6,
    ensures
        managed_policy_edits()[i] == (
            managed_policy_values()[i].0,
            Some(json_piece_text(managed_policy_values()[i].1)),
        ),
        managed_policy_edits().len() == 6,
        managed_policy_values().len() == 6,
{
    if i == 0 {
    } else if i == 1 {
    } else if i == 2 {
    } else if i == 3 {
    } else if i == 4 {
    } else {
    }
}

/// The names of the policies that this program sets to fixed values.
pub open spec fn managed_policy_keys() -> Seq<Seq<char>> {
    managed_policy_values().map_values(|m: (Seq<char>, PieceView)| m.0)
}

/// The extension's own settings: force-installed from `install_url`, on the
/// toolbar, allowed in private windows.
pub open spec fn extension_setting_text(install_url: Seq<char>) -> Seq<u8> {
    json_object_text(
        seq![
            ("installation_mode"@, PieceView::Text("force_installed"@)),
            ("install_url"@, PieceView::Text(install_url)),
            ("default_area"@, PieceView::Text("navbar"@)),
            ("private_browsing"@, PieceView::Bool(true)),
        ],
    )
}

/// The locked value of the quarantined-domains preference.
pub open spec fn preference_setting_text() -> Seq<u8> {
    json_object_text(seq![("Value"@, PieceView::Bool(false)), ("Status"@, PieceView::Text("locked"@))])
}

/// The members of the `policies` object that a browser should have.
pub open spec fn expected_policies_members(extension_id: Seq<char>, install_url: Seq<char>) -> Seq<
    (Seq<char>, PieceView),
> {
    managed_policy_values() + seq![
        (
            "ExtensionSettings"@,
            PieceView::Raw(
                json_object_text(seq![(extension_id, PieceView::Raw(extension_setting_text(install_url)))]),
            ),
        ),
        (
            "Preferences"@,
            PieceView::Raw(
                json_object_text(seq![(quarantine_pref_key(), PieceView::Raw(preference_setting_text()))]),
            ),
        ),
    ]
}

/// The top-level members of the policy document that a browser should have.
pub open spec fn expected_document_members(extension_id: Seq<char>, install_url: Seq<char>) -> Seq<
    (Seq<char>, PieceView),
> {
    seq![
        (
            "policies"@,
            PieceView::Raw(json_object_text(expected_policies_members(extension_id, install_url))),
        ),
    ]
}

/// The members of the policy document are plain pieces, which serde_json
/// writes and reads back unchanged.
pub proof fn lemma_document_members_plain(extension_id: Seq<char>, install_url: Seq<char>)
    ensures
        plain_members(expected_document_members(extension_id, install_url), plain_depth()),
{
    let setting = seq![
        ("installation_mode"@, PieceView::Text("force_installed"@)),
        ("install_url"@, PieceView::Text(install_url)),
        ("default_area"@, PieceView::Text("navbar"@)),
        ("private_browsing"@, PieceView::Bool(true)),
    ];
    assert(plain_members(setting, 5));
    lemma_object_text_plain(setting, 5);
    let by_id = seq![(extension_id, PieceView::Raw(extension_setting_text(install_url)))];
    assert(plain_members(by_id, 6));
    lemma_object_text_plain(by_id, 6);
    let preference = seq![("Value"@, PieceView::Bool(false)), ("Status"@, PieceView::Text("locked"@))];
    assert(plain_members(preference, 5));
    lemma_object_text_plain(preference, 5);
    let by_pref = seq![(quarantine_pref_key(), PieceView::Raw(preference_setting_text()))];
    assert(plain_members(by_pref, 6));
    lemma_object_text_plain(by_pref, 6);
    let managed = managed_policy_values();
    assert(plain_members(managed, 7));
    let tail = seq![
        ("ExtensionSettings"@, PieceView::Raw(json_object_text(by_id))),
        ("Preferences"@, PieceView::Raw(json_object_text(by_pref))),
    ];
    assert(plain_members(tail, 7));
    let policies = expected_policies_members(extension_id, install_url);
    assert(policies == managed + tail);
    assert forall|i: int| 0 <= i < policies.len() implies plain_piece(#[trigger] policies[i].1, 7) by {
        if i < managed.len() {
            assert(policies[i] == managed[i]);
        } else {
            assert(policies[i] == tail[i - managed.len()]);
        }
    }
    lemma_object_text_plain(policies, 7);
}

/// The policy document, as serde_json writes it, that a browser should have.
pub open spec fn spec_firefox_expected(extension_id: Seq<char>, install_url: Seq<char>) -> Seq<u8> {
    json_object_text(expected_document_members(extension_id, install_url))
}

/// Whether the `policies` objects of `policy` and `expected` agree on the
/// fixed policies, the extension's settings and the locked preference; a
/// document without a `policies` object agrees on nothing.
pub open spec fn spec_includes_managed_settings(
    policy: Seq<u8>,
    expected: Seq<u8>,
    extension_id: Seq<char>,
) -> bool {
    match (json_member(policy, "policies"@), json_member(expected, "policies"@)) {
        (Some(p), Some(e)) => {
            &&& json_object_len(p) is Some
            &&& json_object_len(e) is Some
            &&& forall|i: int|
                0 <= i < 6 ==> json_member(p, #[trigger] managed_policy_keys()[i]) == json_member(
                    e,
                    managed_policy_keys()[i],
                )
            &&& nested_member(p, "ExtensionSettings"@, extension_id) == nested_member(
                e,
                "ExtensionSettings"@,
                extension_id,
            )
            &&& nested_member(p, "Preferences"@, quarantine_pref_key()) == nested_member(
                e,
                "Preferences"@,
                quarantine_pref_key(),
            )
        },
        _ => false,
    }
}

/// Whether two documents agree on the `policies` member `key`.
pub open spec fn same_policy(p: Seq<u8>, e: Seq<u8>, key: Seq<char>) -> bool {
    json_member(p, key) == json_member(e, key)
}

/// A policy counts as holding this program's settings only where its
/// `policies` object agrees with that of the expected document: on the
/// extension's own entry of `ExtensionSettings`, on the locked
/// quarantined-domains preference, and on each of the six fixed policies.
/// So a policy that lost the extension's force-install entry, or changed
/// any of these, is repaired.
pub proof fn law_included_settings_agree_with_the_expected_document(
    policy: Seq<u8>,
    expected: Seq<u8>,
    extension_id: Seq<char>,
)
    ensures
        spec_includes_managed_settings(policy, expected, extension_id) ==> {
            &&& json_member(policy, "policies"@) matches Some(p)
            &&& json_member(expected, "policies"@) matches Some(e)
            &&& nested_member(p, "ExtensionSettings"@, extension_id) == nested_member(
                e,
                "ExtensionSettings"@,
                extension_id,
            )
            &&& nested_member(p, "Preferences"@, "extensions.quarantinedDomains.enabled"@) == nested_member(
                e,
                "Preferences"@,
                "extensions.quarantinedDomains.enabled"@,
            )
            &&& same_policy(p, e, "BlockAboutConfig"@)
            &&& same_policy(p, e, "BlockAboutProfiles"@)
            &&& same_policy(p, e, "BlockAboutSupport"@)
            &&& same_policy(p, e, "DisableDeveloperTools"@)
            &&& same_policy(p, e, "DisableSafeMode"@)
            &&& same_policy(p, e, "PrivateBrowsingModeAvailability"@)
        },
{
    if spec_includes_managed_settings(policy, expected, extension_id) {
        let p = json_member(policy, "policies"@)->0;
        let e = json_member(expected, "policies"@)->0;
        let keys = managed_policy_keys();
        assert(keys[0] == "BlockAboutConfig"@);
        assert(keys[1] == "BlockAboutProfiles"@);
        assert(keys[2] == "BlockAboutSupport"@);
        assert(keys[3] == "DisableDeveloperTools"@);
        assert(keys[4] == "DisableSafeMode"@);
        assert(keys[5] == "PrivateBrowsingModeAvailability"@);
        assert(json_member(p, keys[0]) == json_member(e, keys[0]));
        assert(json_member(p, keys[1]) == json_member(e, keys[1]));
        assert(json_member(p, keys[2]) == json_member(e, keys[2]));
        assert(json_member(p, keys[3]) == json_member(e, keys[3]));
        assert(json_member(p, keys[4]) == json_member(e, keys[4]));
        assert(json_member(p, keys[5]) == json_member(e, keys[5]));
    }
}

/// The message of a merge into a policy without a `policies` object.
pub open spec fn missing_policies_message() -> Seq<char> {
    "browser policy is missing its policies object"@
}

/// A browser's own policy `policy` with this program's settings merged in:
/// the fixed policies set, the extension's settings put under
/// `ExtensionSettings` and the preference under `Preferences` (each object
/// made when missing), everything else kept. A policy whose `policies`,
/// `ExtensionSettings` or `Preferences` is not an object cannot be merged.
pub open spec fn spec_merge_managed_settings(
    policy: Seq<u8>,
    extension_id: Seq<char>,
    install_url: Seq<char>,
) -> Result<Seq<u8>, Seq<char>> {
    match spec_merged_policies(policy, extension_id, install_url) {
        Err(m) => Err(m),
        Ok(merged) => match json_edit_object(policy, seq![("policies"@, Some(merged))]) {
            Some(doc) => Ok(doc),
            None => Err(missing_policies_message()),
        },
    }
}

/// The `policies` object of a browser's own policy with this program's
/// settings merged in (see `spec_merge_managed_settings`).
pub open spec fn spec_merged_policies(
    policy: Seq<u8>,
    extension_id: Seq<char>,
    install_url: Seq<char>,
) -> Result<Seq<u8>, Seq<char>> {
    match json_member(policy, "policies"@) {
        None => Err(missing_policies_message()),
        Some(p) => if json_object_len(p) is None {
            Err(missing_policies_message())
        } else {
            let settings = match json_member(p, "ExtensionSettings"@) {
                None => Ok(
                    json_object_text(seq![(extension_id, PieceView::Raw(extension_setting_text(install_url)))]),
                ),
                Some(es) => match json_edit_object(
                    es,
                    seq![(extension_id, Some(extension_setting_text(install_url)))],
                ) {
                    Some(v) => Ok(v),
                    None => Err("browser policy ExtensionSettings is not an object"@),
                },
            };
            let preferences = match json_member(p, "Preferences"@) {
                None => Ok(
                    json_object_text(seq![(quarantine_pref_key(), PieceView::Raw(preference_setting_text()))]),
                ),
                Some(pr) => match json_edit_object(
                    pr,
                    seq![(quarantine_pref_key(), Some(preference_setting_text()))],
                ) {
                    Some(v) => Ok(v),
                    None => Err("browser policy Preferences is not an object"@),
                },
            };
            match (settings, preferences) {
                (Err(m), _) => Err(m),
                (Ok(_), Err(m)) => Err(m),
                (Ok(es), Ok(pr)) => {
                    let edits = managed_policy_edits() + seq![
                        ("ExtensionSettings"@, Some(es)),
                        ("Preferences"@, Some(pr)),
                    ];
                    match json_edit_object(p, edits) {
                        Some(merged) => Ok(merged),
                        None => Err(missing_policies_message()),
                    }
                },
            }
        },
    }
}

/// The backup of a browser's own policy before a merge: that it was missing,
/// or the prior value of each fixed policy, of the extension's settings and
/// of the preference. A policy without a `policies` object cannot be backed up.
pub open spec fn spec_merged_policy_backup(policy: Option<Seq<u8>>, extension_id: Seq<char>) -> Result<
    (bool, Seq<(Seq<char>, Option<Seq<u8>>)>, Option<Seq<u8>>, Option<Seq<u8>>),
    Seq<char>,
> {
    match policy {
        None => Ok((true, Seq::empty(), None, None)),
        Some(doc) => match json_member(doc, "policies"@) {
            Some(p) => if json_object_len(p) is None {
                Err(missing_policies_message())
            } else {
                Ok(
                    (
                        false,
                        managed_policy_keys().map_values(|k: Seq<char>| (k, json_member(p, k))),
                        nested_member(p, "ExtensionSettings"@, extension_id),
                        nested_member(p, "Preferences"@, quarantine_pref_key()),
                    ),
                )
            },
            None => Err(missing_policies_message()),
        },
    }
}

/// The views of a backup.
pub open spec fn backup_view(b: MergedPolicyBackup) -> (
    bool,
    Seq<(Seq<char>, Option<Seq<u8>>)>,
    Option<Seq<u8>>,
    Option<Seq<u8>>,
) {
    (
        b.policy_was_missing,
        edit_views(b.policy_values@),
        match b.extension_setting {
            Some(v) => Some(v@),
            None => None,
        },
        match b.preference_setting {
            Some(v) => Some(v@),
            None => None,
        },
    )
}

/// The value that `key` has among the members `p` after the edits: the last
/// edit of `key`, or else the member as it was.
pub open spec fn value_after_edits(
    p: Seq<u8>,
    edits: Seq<(Seq<char>, Option<Seq<u8>>)>,
    key: Seq<char>,
) -> Option<Seq<u8>>
    decreases edits.len(),
{
    if edits.len() == 0 {
        json_member(p, key)
    } else if edits.last().0 == key {
        edits.last().1
    } else {
        value_after_edits(p, edits.drop_last(), key)
    }
}

/// How one nested setting is put back: nothing when its parent object is
/// gone; the setting restored (or removed, when there was none) in the
/// parent, which is itself removed once empty. A parent that is not an
/// object cannot be restored.
pub open spec fn spec_restore_nested(
    parent: Option<Seq<u8>>,
    parent_key: Seq<char>,
    child_key: Seq<char>,
    original: Option<Seq<u8>>,
) -> Result<Seq<(Seq<char>, Option<Seq<u8>>)>, Seq<char>> {
    match parent {
        None => Ok(Seq::empty()),
        Some(pv) => match json_edit_object(pv, seq![(child_key, original)]) {
            None => Err("browser policy "@ + parent_key + " is not an object"@),
            Some(restored) => if json_object_len(restored) == Some(0nat) {
                Ok(seq![(parent_key, None)])
            } else {
                Ok(seq![(parent_key, Some(restored))])
            },
        },
    }
}

impl FirefoxPolicyManager {
    /// The path of the policy file.
    pub closed spec fn path_spec(&self) -> Seq<char> {
        self.policy_path@
    }

    /// The id of the force-installed extension.
    pub closed spec fn extension_spec(&self) -> Seq<char> {
        self.extension_id@
    }

    /// Where the extension is installed from.
    pub closed spec fn install_url_spec(&self) -> Seq<char> {
        self.install_url@
    }

    /// Whether the browser's own policy document is merged into rather than
    /// replaced.
    pub closed spec fn merges(&self) -> bool {
        self.merge_with_existing
    }

    /// Where the values replaced by a merge are kept.
    pub closed spec fn backup_spec(&self) -> Option<Seq<char>> {
        match self.backup_path {
            Some(p) => Some(p@),
            None => None,
        }
    }

    /// A manager that owns the policy file at `policy_path`.
    pub fn new(policy_path: String, extension_id: String, install_url: String) -> (r: Self)
        ensures
            r.path_spec() == policy_path@,
            r.extension_spec() == extension_id@,
            r.install_url_spec() == install_url@,
            !r.merges(),
            r.backup_spec() is None,
    {
        Self::for_browser(policy_path, extension_id, install_url)
    }

    /// A manager that owns the policy file at `policy_path` of one browser.
    pub fn for_browser(policy_path: String, extension_id: String, install_url: String) -> (r: Self)
        ensures
            r.path_spec() == policy_path@,
            r.extension_spec() == extension_id@,
            r.install_url_spec() == install_url@,
            !r.merges(),
            r.backup_spec() is None,
    {
        FirefoxPolicyManager {
            policy_path,
            extension_id,
            install_url,
            merge_with_existing: false,
            backup_path: None,
        }
    }

    /// A manager for a browser that ships its own policy document: only this
    /// program's entries are changed, and the values they replace are kept
    /// at `backup_path` so that removal can restore them.
    pub fn merging_existing_policy(
        policy_path: String,
        extension_id: String,
        install_url: String,
        backup_path: String,
    ) -> (r: Self)
        ensures
            r.path_spec() == policy_path@,
            r.extension_spec() == extension_id@,
            r.install_url_spec() == install_url@,
            r.merges(),
            r.backup_spec() == Some(backup_path@),
    {
        FirefoxPolicyManager {
            policy_path,
            extension_id,
            install_url,
            merge_with_existing: true,
            backup_path: Some(backup_path),
        }
    }

    /// The path of the policy file.
    pub fn policy_path(&self) -> (r: &str)
        ensures
            r@ == self.path_spec(),
    {
        self.policy_path.as_str()
    }

    /// Where the values replaced by a merge are kept, if anywhere.
    pub fn backup_path(&self) -> (r: Option<&str>)
        ensures
            match r {
                Some(p) => self.backup_spec() == Some(p@),
                None => self.backup_spec() is None,
            },
    {
        match &self.backup_path {
            Some(p) => Some(p.as_str()),
            None => None,
        }
    }

    /// Whether the browser's own policy document is merged into.
    pub fn merge_with_existing(&self) -> (r: bool)
        ensures
            r == self.merges(),
    {
        self.merge_with_existing
    }

    fn extension_setting(&self) -> (r: Vec<u8>)
        ensures
            r@ == extension_setting_text(self.install_url_spec()),
    {
        let mut m: Vec<(String, JsonPiece)> = Vec::new();
        m.push((owned("installation_mode"), JsonPiece::Text(owned("force_installed"))));
        m.push((owned("install_url"), JsonPiece::Text(self.install_url.clone())));
        m.push((owned("default_area"), JsonPiece::Text(owned("navbar"))));
        m.push((owned("private_browsing"), JsonPiece::Bool(true)));
        assert(member_views(m@) =~= seq![
            ("installation_mode"@, PieceView::Text("force_installed"@)),
            ("install_url"@, PieceView::Text(self.install_url_spec())),
            ("default_area"@, PieceView::Text("navbar"@)),
            ("private_browsing"@, PieceView::Bool(true)),
        ]);
        object_json(&m)
    }

    fn managed_values() -> (r: Vec<(String, JsonPiece)>)
        ensures
            member_views(r@) == managed_policy_values(),
    {
        let mut m: Vec<(String, JsonPiece)> = Vec::new();
        m.push((owned("BlockAboutConfig"), JsonPiece::Bool(true)));
        m.push((owned("BlockAboutProfiles"), JsonPiece::Bool(true)));
        m.push((owned("BlockAboutSupport"), JsonPiece::Bool(true)));
        m.push((owned("DisableDeveloperTools"), JsonPiece::Bool(true)));
        m.push((owned("DisableSafeMode"), JsonPiece::Bool(true)));
        m.push((owned("PrivateBrowsingModeAvailability"), JsonPiece::Integer(0)));
        assert(member_views(m@) =~= managed_policy_values());
        m
    }

    fn expected_members(&self) -> (r: Vec<(String, JsonPiece)>)
        ensures
            member_views(r@) == expected_document_members(self.extension_spec(), self.install_url_spec()),
    {
        let mut by_id: Vec<(String, JsonPiece)> = Vec::new();
        by_id.push((self.extension_id.clone(), JsonPiece::Raw(self.extension_setting())));
        let settings = object_json(&by_id);
        let mut preference: Vec<(String, JsonPiece)> = Vec::new();
        preference.push((owned("Value"), JsonPiece::Bool(false)));
        preference.push((owned("Status"), JsonPiece::Text(owned("locked"))));
        let preference_bytes = object_json(&preference);
        let mut by_pref: Vec<(String, JsonPiece)> = Vec::new();
        by_pref.push((owned("extensions.quarantinedDomains.enabled"), JsonPiece::Raw(preference_bytes)));
        let preferences = object_json(&by_pref);
        let mut policies = Self::managed_values();
        policies.push((owned("ExtensionSettings"), JsonPiece::Raw(settings)));
        policies.push((owned("Preferences"), JsonPiece::Raw(preferences)));
        let policies_bytes = object_json(&policies);
        let mut doc: Vec<(String, JsonPiece)> = Vec::new();
        doc.push((owned("policies"), JsonPiece::Raw(policies_bytes)));
        proof {
            assert(member_views(by_id@) =~= seq![
                (self.extension_spec(), PieceView::Raw(extension_setting_text(self.install_url_spec()))),
            ]);
            assert(member_views(preference@) =~= seq![
                ("Value"@, PieceView::Bool(false)),
                ("Status"@, PieceView::Text("locked"@)),
            ]);
            assert(member_views(by_pref@) =~= seq![
                (quarantine_pref_key(), PieceView::Raw(preference_setting_text())),
            ]);
            assert(member_views(policies@) =~= expected_policies_members(
                self.extension_spec(),
                self.install_url_spec(),
            ));
            assert(member_views(doc@) =~= expected_document_members(
                self.extension_spec(),
                self.install_url_spec(),
            ));
        }
        doc
    }

    /// The policy document that the browser should have, as serde_json writes it.
    pub fn expected_policy(&self) -> (r: Vec<u8>)
        ensures
            r@ == spec_firefox_expected(self.extension_spec(), self.install_url_spec()),
    {
        let members = self.expected_members();
        object_json(&members)
    }
}

/// The view of optional bytes.
pub open spec fn opt_bytes(o: Option<Vec<u8>>) -> Option<Seq<u8>> {
    match o {
        Some(v) => Some(v@),
        None => None,
    }
}

/// Whether two optional byte strings are equal.
fn opt_bytes_equal(a: &Option<Vec<u8>>, b: &Option<Vec<u8>>) -> (r: bool)
    ensures
        r == (opt_bytes(*a) == opt_bytes(*b)),
{
    match (a, b) {
        (Some(x), Some(y)) => bytes_equal(x.as_slice(), y.as_slice()),
        (None, None) => true,
        _ => false,
    }
}

/// The member `key` of the member `outer` of `bytes`.
fn nested(bytes: &[u8], outer: &str, key: &str) -> (r: Option<Vec<u8>>)
    ensures
        opt_bytes(r) == nested_member(bytes@, outer@, key@),
{
    match member_json(bytes, outer) {
        Some(m) => member_json(m.as_slice(), key),
        None => None,
    }
}

/// Whether `policy` holds this program's settings as `expected` has them.
pub fn policy_contains_managed_settings(policy: &[u8], expected: &[u8], extension_id: &str) -> (r:
    bool)
    ensures
        r == spec_includes_managed_settings(policy@, expected@, extension_id@),
{
    let p = match member_json(policy, "policies") {
        Some(p) => p,
        None => return false,
    };
    let e = match member_json(expected, "policies") {
        Some(e) => e,
        None => return false,
    };
    if object_len(p.as_slice()).is_none() || object_len(e.as_slice()).is_none() {
        return false;
    }
    let keys = FirefoxPolicyManager::managed_values();
    let ghost kv = managed_policy_keys();
    let mut i: usize = 0;
    while i < keys.len()
        invariant
            i <= keys@.len(),
            keys@.len() == 6,
            member_views(keys@) == managed_policy_values(),
            kv == managed_policy_keys(),
            json_member(policy@, "policies"@) == Some(p@),
            json_member(expected@, "policies"@) == Some(e@),
            json_object_len(p@) is Some,
            json_object_len(e@) is Some,
            forall|j: int| 0 <= j < i ==> json_member(p@, #[trigger] kv[j]) == json_member(e@, kv[j]),
        decreases keys@.len() - i,
    {
        let key = keys[i].0.as_str();
        assert(member_views(keys@)[i as int].0 == key@);
        assert(kv[i as int] == key@);
        let a = member_json(p.as_slice(), key);
        let b = member_json(e.as_slice(), key);
        if !opt_bytes_equal(&a, &b) {
            assert(json_member(p@, kv[i as int]) != json_member(e@, kv[i as int]));
            return false;
        }
        i = i + 1;
    }
    let ea = nested(p.as_slice(), "ExtensionSettings", extension_id);
    let eb = nested(e.as_slice(), "ExtensionSettings", extension_id);
    let pa = nested(p.as_slice(), "Preferences", "extensions.quarantinedDomains.enabled");
    let pb = nested(e.as_slice(), "Preferences", "extensions.quarantinedDomains.enabled");
    opt_bytes_equal(&ea, &eb) && opt_bytes_equal(&pa, &pb)
}

/// An invalid-data error with the given message.
pub open spec fn is_invalid_data<T>(r: Result<T, DaemonError>, message: Seq<char>) -> bool {
    r matches Err(DaemonError::Io { kind: k, message: m }) && k == IoErrorKind::InvalidData && m@
        == message
}

fn invalid_data(message: &str) -> (e: DaemonError)
    ensures
        e matches DaemonError::Io { kind: k, message: m } && k == IoErrorKind::InvalidData && m@
            == message@,
{
    io_error(IoErrorKind::InvalidData, message)
}

impl FirefoxPolicyManager {
    /// A browser's own policy `policy` with this program's settings merged in.
    pub fn merge_managed_settings(&self, policy: &[u8]) -> (r: Result<Vec<u8>, DaemonError>)
        ensures
            match spec_merge_managed_settings(policy@, self.extension_spec(), self.install_url_spec()) {
                Ok(doc) => r matches Ok(v) && v@ == doc,
                Err(message) => is_invalid_data(r, message),
            },
    {
        let merged = self.merged_policies(policy)?;
        let mut top: Vec<(String, Option<Vec<u8>>)> = Vec::new();
        let ghost merged_view = merged@;
        top.push((owned("policies"), Some(merged)));
        assert(edit_views(top@) =~= seq![("policies"@, Some(merged_view))]);
        match edit_object(policy, &top) {
            Some(doc) => Ok(doc),
            None => Err(invalid_data("browser policy is missing its policies object")),
        }
    }

    /// The `policies` object of `policy` with this program's settings merged in.
    fn merged_policies(&self, policy: &[u8]) -> (r: Result<Vec<u8>, DaemonError>)
        ensures
            match spec_merged_policies(policy@, self.extension_spec(), self.install_url_spec()) {
                Ok(doc) => r matches Ok(v) && v@ == doc && json_member(policy@, "policies"@) is Some,
                Err(message) => is_invalid_data(r, message),
            },
    {
        let p = match member_json(policy, "policies") {
            Some(p) => p,
            None => return Err(invalid_data("browser policy is missing its policies object")),
        };
        if object_len(p.as_slice()).is_none() {
            return Err(invalid_data("browser policy is missing its policies object"));
        }
        let setting = self.extension_setting();
        let settings = match member_json(p.as_slice(), "ExtensionSettings") {
            None => {
                let mut by_id: Vec<(String, JsonPiece)> = Vec::new();
                by_id.push((self.extension_id.clone(), JsonPiece::Raw(setting)));
                assert(member_views(by_id@) =~= seq![
                    (self.extension_spec(), PieceView::Raw(extension_setting_text(self.install_url_spec()))),
                ]);
                object_json(&by_id)
            },
            Some(es) => {
                let mut edits: Vec<(String, Option<Vec<u8>>)> = Vec::new();
                edits.push((self.extension_id.clone(), Some(setting)));
                assert(edit_views(edits@) =~= seq![
                    (self.extension_spec(), Some(extension_setting_text(self.install_url_spec()))),
                ]);
                match edit_object(es.as_slice(), &edits) {
                    Some(v) => v,
                    None => return Err(invalid_data("browser policy ExtensionSettings is not an object")),
                }
            },
        };
        let mut preference: Vec<(String, JsonPiece)> = Vec::new();
        preference.push((owned("Value"), JsonPiece::Bool(false)));
        preference.push((owned("Status"), JsonPiece::Text(owned("locked"))));
        assert(member_views(preference@) =~= seq![
            ("Value"@, PieceView::Bool(false)),
            ("Status"@, PieceView::Text("locked"@)),
        ]);
        let preference_bytes = object_json(&preference);
        let preferences = match member_json(p.as_slice(), "Preferences") {
            None => {
                let mut by_pref: Vec<(String, JsonPiece)> = Vec::new();
                by_pref.push((owned("extensions.quarantinedDomains.enabled"), JsonPiece::Raw(preference_bytes)));
                assert(member_views(by_pref@) =~= seq![
                    (quarantine_pref_key(), PieceView::Raw(preference_setting_text())),
                ]);
                object_json(&by_pref)
            },
            Some(pr) => {
                let mut edits: Vec<(String, Option<Vec<u8>>)> = Vec::new();
                edits.push((owned("extensions.quarantinedDomains.enabled"), Some(preference_bytes)));
                assert(edit_views(edits@) =~= seq![
                    (quarantine_pref_key(), Some(preference_setting_text())),
                ]);
                match edit_object(pr.as_slice(), &edits) {
                    Some(v) => v,
                    None => return Err(invalid_data("browser policy Preferences is not an object")),
                }
            },
        };
        let values = Self::managed_values();
        proof {
            lemma_managed_edit(0);
            assert(member_views(values@).len() == values@.len());
        }
        let mut edits: Vec<(String, Option<Vec<u8>>)> = Vec::new();
        let mut i: usize = 0;
        while i < values.len()
            invariant
                i <= values@.len(),
                values@.len() == 6,
                member_views(values@) == managed_policy_values(),
                edit_views(edits@) =~= managed_policy_edits().take(i as int),
            decreases values@.len() - i,
        {
            let text = piece_json(&values[i].1);
            edits.push((values[i].0.clone(), Some(text)));
            assert(member_views(values@)[i as int] == (values@[i as int].0@, values@[i as int].1@));
            proof {
                lemma_managed_edit(i as int);
            }
            assert(managed_policy_edits().take(i + 1) =~= managed_policy_edits().take(i as int).push(
                managed_policy_edits()[i as int],
            ));
            i = i + 1;
        }
        proof {
            lemma_managed_edit(0);
        }
        assert(managed_policy_edits().take(6) =~= managed_policy_edits());
        let ghost es_view = settings@;
        let ghost pr_view = preferences@;
        edits.push((owned("ExtensionSettings"), Some(settings)));
        edits.push((owned("Preferences"), Some(preferences)));
        assert(edit_views(edits@) =~= managed_policy_edits() + seq![
            ("ExtensionSettings"@, Some(es_view)),
            ("Preferences"@, Some(pr_view)),
        ]);
        match edit_object(p.as_slice(), &edits) {
            Some(v) => Ok(v),
            None => Err(invalid_data("browser policy is missing its policies object")),
        }
    }
}

impl FirefoxPolicyManager {
    /// The backup of the browser's own policy (`None`: there was none)
    /// before a merge.
    pub fn merged_policy_backup(&self, policy: Option<&[u8]>) -> (r: Result<MergedPolicyBackup, DaemonError>)
        ensures
            match spec_merged_policy_backup(
                match policy {
                    Some(p) => Some(p@),
                    None => None,
                },
                self.extension_spec(),
            ) {
                Ok(b) => r matches Ok(v) && backup_view(v) == b,
                Err(message) => is_invalid_data(r, message),
            },
    {
        let doc = match policy {
            None => {
                let r = MergedPolicyBackup {
                    policy_was_missing: true,
                    policy_values: Vec::new(),
                    extension_setting: None,
                    preference_setting: None,
                };
                assert(edit_views(r.policy_values@) =~= Seq::<(Seq<char>, Option<Seq<u8>>)>::empty());
                return Ok(r);
            },
            Some(d) => d,
        };
        let p = match member_json(doc, "policies") {
            Some(p) => p,
            None => return Err(invalid_data("browser policy is missing its policies object")),
        };
        if object_len(p.as_slice()).is_none() {
            return Err(invalid_data("browser policy is missing its policies object"));
        }
        let keys = Self::managed_values();
        proof {
            lemma_managed_edit(0);
            assert(member_views(keys@).len() == keys@.len());
        }
        let ghost want = managed_policy_keys().map_values(|k: Seq<char>| (k, json_member(p@, k)));
        let mut values: Vec<(String, Option<Vec<u8>>)> = Vec::new();
        let mut i: usize = 0;
        while i < keys.len()
            invariant
                i <= keys@.len(),
                keys@.len() == 6,
                member_views(keys@) == managed_policy_values(),
                want == managed_policy_keys().map_values(|k: Seq<char>| (k, json_member(p@, k))),
                edit_views(values@) =~= want.take(i as int),
            decreases keys@.len() - i,
        {
            let key = keys[i].0.clone();
            let value = member_json(p.as_slice(), key.as_str());
            assert(member_views(keys@)[i as int].0 == keys@[i as int].0@);
            assert(managed_policy_keys()[i as int] == managed_policy_values()[i as int].0);
            let ghost kv = key@;
            values.push((key, value));
            assert(want[i as int] == (kv, json_member(p@, kv)));
            assert(want.take(i + 1) =~= want.take(i as int).push(want[i as int]));
            i = i + 1;
        }
        assert(want.take(6) =~= want);
        let extension_setting = nested(p.as_slice(), "ExtensionSettings", self.extension_id.as_str());
        let preference_setting = nested(p.as_slice(), "Preferences", "extensions.quarantinedDomains.enabled");
        Ok(MergedPolicyBackup {
            policy_was_missing: false,
            policy_values: values,
            extension_setting,
            preference_setting,
        })
    }
}

/// A browser's policy `policy` with the values that a merge replaced put
/// back from the backup `b`.
pub open spec fn spec_restore_managed_settings(
    policy: Seq<u8>,
    extension_id: Seq<char>,
    b: (bool, Seq<(Seq<char>, Option<Seq<u8>>)>, Option<Seq<u8>>, Option<Seq<u8>>),
) -> Result<Seq<u8>, Seq<char>> {
    match spec_restored_policies(policy, extension_id, b) {
        Err(m) => Err(m),
        Ok(restored) => match json_edit_object(policy, seq![("policies"@, Some(restored))]) {
            Some(doc) => Ok(doc),
            None => Err(missing_policies_message()),
        },
    }
}

/// The `policies` object of `policy` with the backed-up values put back
/// (see `spec_restore_managed_settings`).
pub open spec fn spec_restored_policies(
    policy: Seq<u8>,
    extension_id: Seq<char>,
    b: (bool, Seq<(Seq<char>, Option<Seq<u8>>)>, Option<Seq<u8>>, Option<Seq<u8>>),
) -> Result<Seq<u8>, Seq<char>> {
    match json_member(policy, "policies"@) {
        None => Err(missing_policies_message()),
        Some(p) => if json_object_len(p) is None {
            Err(missing_policies_message())
        } else {
            let value_edits = b.1;
            match spec_restore_nested(
                value_after_edits(p, value_edits, "ExtensionSettings"@),
                "ExtensionSettings"@,
                extension_id,
                b.2,
            ) {
                Err(m) => Err(m),
                Ok(extension_edits) => {
                    let first = value_edits + extension_edits;
                    match spec_restore_nested(
                        value_after_edits(p, first, "Preferences"@),
                        "Preferences"@,
                        quarantine_pref_key(),
                        b.3,
                    ) {
                        Err(m) => Err(m),
                        Ok(preference_edits) => match json_edit_object(p, first + preference_edits) {
                            None => Err(missing_policies_message()),
                            Some(restored) => Ok(restored),
                        },
                    }
                },
            }
        },
    }
}

/// The value that `key` has among the members `p` after `edits`.
fn member_after_edits(p: &[u8], edits: &Vec<(String, Option<Vec<u8>>)>, key: &str) -> (r: Option<Vec<u8>>)
    ensures
        opt_bytes(r) == value_after_edits(p@, edit_views(edits@), key@),
{
    let mut i: usize = edits.len();
    assert(edit_views(edits@).take(edits@.len() as int) =~= edit_views(edits@));
    while i > 0
        invariant
            i <= edits@.len(),
            value_after_edits(p@, edit_views(edits@), key@) == value_after_edits(
                p@,
                edit_views(edits@).take(i as int),
                key@,
            ),
        decreases i,
    {
        let ghost prefix = edit_views(edits@).take(i as int);
        assert(prefix.last() == edit_views(edits@)[i - 1]);
        assert(prefix.drop_last() =~= edit_views(edits@).take(i - 1));
        if crate::strings::str_equal(edits[i - 1].0.as_str(), key) {
            return match &edits[i - 1].1 {
                Some(v) => Some(v.clone()),
                None => None,
            };
        }
        i = i - 1;
    }
    assert(edit_views(edits@).take(0) =~= Seq::<(Seq<char>, Option<Seq<u8>>)>::empty());
    member_json(p, key)
}

/// How one nested setting is put back.
fn restore_nested(parent: Option<Vec<u8>>, parent_key: &str, child_key: &str, original: Option<Vec<u8>>) -> (r: Result<
    Vec<(String, Option<Vec<u8>>)>,
    DaemonError,
>)
    ensures
        match spec_restore_nested(opt_bytes(parent), parent_key@, child_key@, opt_bytes(original)) {
            Ok(e) => r matches Ok(v) && edit_views(v@) == e,
            Err(message) => is_invalid_data(r, message),
        },
{
    let pv = match parent {
        None => {
            let none: Vec<(String, Option<Vec<u8>>)> = Vec::new();
            assert(edit_views(none@) =~= Seq::<(Seq<char>, Option<Seq<u8>>)>::empty());
            return Ok(none);
        },
        Some(v) => v,
    };
    let mut edit: Vec<(String, Option<Vec<u8>>)> = Vec::new();
    let ghost ov = opt_bytes(original);
    edit.push((owned(child_key), original));
    assert(edit_views(edit@) =~= seq![(child_key@, ov)]);
    let restored = match edit_object(pv.as_slice(), &edit) {
        Some(v) => v,
        None => {
            return Err(
                io_error(
                    IoErrorKind::InvalidData,
                    concat3("browser policy ", parent_key, " is not an object").as_str(),
                ),
            );
        },
    };
    let empty = match object_len(restored.as_slice()) {
        Some(n) => n == 0,
        None => false,
    };
    let mut out: Vec<(String, Option<Vec<u8>>)> = Vec::new();
    if empty {
        out.push((owned(parent_key), None));
        assert(edit_views(out@) =~= seq![(parent_key@, None::<Seq<u8>>)]);
    } else {
        let ghost rv = restored@;
        out.push((owned(parent_key), Some(restored)));
        assert(edit_views(out@) =~= seq![(parent_key@, Some(rv))]);
    }
    Ok(out)
}

impl FirefoxPolicyManager {
    /// A browser's policy `policy` with the values that a merge replaced put
    /// back from `backup`.
    pub fn restore_managed_settings(&self, policy: &[u8], backup: &MergedPolicyBackup) -> (r: Result<
        Vec<u8>,
        DaemonError,
    >)
        ensures
            match spec_restore_managed_settings(policy@, self.extension_spec(), backup_view(*backup)) {
                Ok(doc) => r matches Ok(v) && v@ == doc,
                Err(message) => is_invalid_data(r, message),
            },
    {
        let restored = self.restored_policies(policy, backup)?;
        let mut top: Vec<(String, Option<Vec<u8>>)> = Vec::new();
        let ghost rv = restored@;
        top.push((owned("policies"), Some(restored)));
        assert(edit_views(top@) =~= seq![("policies"@, Some(rv))]);
        match edit_object(policy, &top) {
            Some(doc) => Ok(doc),
            None => Err(invalid_data("browser policy is missing its policies object")),
        }
    }

    /// The `policies` object of `policy` with the backed-up values put back.
    fn restored_policies(&self, policy: &[u8], backup: &MergedPolicyBackup) -> (r: Result<
        Vec<u8>,
        DaemonError,
    >)
        ensures
            match spec_restored_policies(policy@, self.extension_spec(), backup_view(*backup)) {
                Ok(doc) => r matches Ok(v) && v@ == doc && json_member(policy@, "policies"@) is Some,
                Err(message) => is_invalid_data(r, message),
            },
    {
        let p = match member_json(policy, "policies") {
            Some(p) => p,
            None => return Err(invalid_data("browser policy is missing its policies object")),
        };
        if object_len(p.as_slice()).is_none() {
            return Err(invalid_data("browser policy is missing its policies object"));
        }
        let mut edits: Vec<(String, Option<Vec<u8>>)> = Vec::new();
        let mut i: usize = 0;
        while i < backup.policy_values.len()
            invariant
                i <= backup.policy_values@.len(),
                edit_views(edits@) =~= edit_views(backup.policy_values@).take(i as int),
            decreases backup.policy_values@.len() - i,
        {
            let (key, value) = &backup.policy_values[i];
            let copy = match value {
                Some(v) => Some(v.clone()),
                None => None,
            };
            edits.push((key.clone(), copy));
            assert(edit_views(backup.policy_values@).take(i + 1) =~= edit_views(backup.policy_values@).take(
                i as int,
            ).push(edit_views(backup.policy_values@)[i as int]));
            i = i + 1;
        }
        assert(edit_views(backup.policy_values@).take(backup.policy_values@.len() as int)
            =~= edit_views(backup.policy_values@));
        let parent = member_after_edits(p.as_slice(), &edits, "ExtensionSettings");
        let extension_original = match &backup.extension_setting {
            Some(v) => Some(v.clone()),
            None => None,
        };
        let extension_edits = restore_nested(parent, "ExtensionSettings", self.extension_id.as_str(), extension_original)?;
        let ghost value_edits = edit_views(edits@);
        let mut k: usize = 0;
        while k < extension_edits.len()
            invariant
                k <= extension_edits@.len(),
                edit_views(edits@) =~= value_edits + edit_views(extension_edits@).take(k as int),
            decreases extension_edits@.len() - k,
        {
            let (key, value) = &extension_edits[k];
            let copy = match value {
                Some(v) => Some(v.clone()),
                None => None,
            };
            let ghost before = edit_views(edits@);
            edits.push((key.clone(), copy));
            assert(edit_views(edits@) =~= before.push(edit_views(extension_edits@)[k as int]));
            assert(edit_views(extension_edits@).take(k + 1) =~= edit_views(extension_edits@).take(
                k as int,
            ).push(edit_views(extension_edits@)[k as int]));
            k = k + 1;
        }
        assert(edit_views(extension_edits@).take(extension_edits@.len() as int) =~= edit_views(
            extension_edits@,
        ));
        let parent = member_after_edits(p.as_slice(), &edits, "Preferences");
        let preference_original = match &backup.preference_setting {
            Some(v) => Some(v.clone()),
            None => None,
        };
        let preference_edits = restore_nested(parent, "Preferences", "extensions.quarantinedDomains.enabled", preference_original)?;
        let ghost first = edit_views(edits@);
        let mut k: usize = 0;
        while k < preference_edits.len()
            invariant
                k <= preference_edits@.len(),
                edit_views(edits@) =~= first + edit_views(preference_edits@).take(k as int),
            decreases preference_edits@.len() - k,
        {
            let (key, value) = &preference_edits[k];
            let copy = match value {
                Some(v) => Some(v.clone()),
                None => None,
            };
            let ghost before = edit_views(edits@);
            edits.push((key.clone(), copy));
            assert(edit_views(edits@) =~= before.push(edit_views(preference_edits@)[k as int]));
            assert(edit_views(preference_edits@).take(k + 1) =~= edit_views(preference_edits@).take(
                k as int,
            ).push(edit_views(preference_edits@)[k as int]));
            k = k + 1;
        }
        assert(edit_views(preference_edits@).take(preference_edits@.len() as int) =~= edit_views(
            preference_edits@,
        ));
        match edit_object(p.as_slice(), &edits) {
            Some(v) => Ok(v),
            None => Err(invalid_data("browser policy is missing its policies object")),
        }
    }
}

/// A repair that leaves the policy file and its backup alone.
pub open spec fn plan_unchanged(r: Result<FirefoxRepairPlan, DaemonError>) -> bool {
    match r {
        Ok(plan) => plan.status == RepairStatus::AlreadyCompliant && plan.contents is None
            && plan.backup is None,
        Err(_) => false,
    }
}

/// A repair that writes `text` to the policy file, and the backup `backup`
/// first when there is one.
pub open spec fn plan_writes(
    r: Result<FirefoxRepairPlan, DaemonError>,
    text: Seq<u8>,
    backup: Option<(bool, Seq<(Seq<char>, Option<Seq<u8>>)>, Option<Seq<u8>>, Option<Seq<u8>>)>,
) -> bool {
    match r {
        Ok(plan) => {
            &&& plan.status == RepairStatus::Repaired
            &&& match plan.contents {
                Some(t) => t@ == text,
                None => false,
            }
            &&& match (plan.backup, backup) {
                (Some(b), Some(x)) => backup_view(b) == x,
                (None, None) => true,
                _ => false,
            }
        },
        Err(_) => false,
    }
}

/// An invalid-input error with the given message.
pub open spec fn is_invalid_input<T>(r: Result<T, DaemonError>, message: Seq<char>) -> bool {
    r matches Err(DaemonError::Io { kind: k, message: m }) && k == IoErrorKind::InvalidInput && m@
        == message
}

/// The merged document, pretty-printed and ended by a line feed.
pub open spec fn merged_policy_file(policy: Seq<u8>, merged_policies: Seq<u8>) -> Option<Seq<u8>> {
    match json_edit_object_pretty(policy, seq![("policies"@, Some(merged_policies))]) {
        Some(text) => Some(text + seq![10u8]),
        None => None,
    }
}

/// The error of a policy that cannot be read as JSON before a merge.
pub open spec fn merge_parse_message(path: Seq<char>, error: Seq<char>) -> Seq<char> {
    "cannot merge BlocKuntu policy because "@ + path + " is not valid JSON: "@ + error
}

impl FirefoxPolicyManager {
    /// What a repair of the policy file that reads `current` (`None`:
    /// missing) comes to, given whether a merge backup already exists.
    ///
    /// A replaced policy is rewritten, pretty-printed, unless it parses to
    /// the expected document. A merged policy must parse; it is left alone
    /// when it already holds this program's settings; otherwise the backup
    /// of its replaced values is made (once) and the merge is written; a
    /// missing policy gets the expected document.
    pub fn verify_and_repair(&self, current: Option<&[u8]>, backup_exists: bool) -> (r: Result<
        FirefoxRepairPlan,
        DaemonError,
    >)
        ensures
            ({
                let members = expected_document_members(self.extension_spec(), self.install_url_spec());
                let expected = json_object_text(members);
                let fresh = json_object_pretty(members) + seq![10u8];
                if !self.merges() {
                    if current matches Some(c) && json_canonical(c@) == Some(expected) {
                        plan_unchanged(r)
                    } else {
                        plan_writes(r, fresh, None)
                    }
                } else {
                    match current {
                        Some(c) => match json_parse_error(c@) {
                            Some(e) => is_invalid_data(r, merge_parse_message(self.path_spec(), e)),
                            None => if spec_includes_managed_settings(c@, expected, self.extension_spec()) {
                                plan_unchanged(r)
                            } else if self.backup_spec() is None {
                                is_invalid_input(r, "merged Firefox policy has no backup path"@)
                            } else if !backup_exists && spec_merged_policy_backup(Some(c@), self.extension_spec()) is Err {
                                is_invalid_data(r, spec_merged_policy_backup(Some(c@), self.extension_spec())->Err_0)
                            } else {
                                match spec_merged_policies(c@, self.extension_spec(), self.install_url_spec()) {
                                    Err(m) => is_invalid_data(r, m),
                                    Ok(mp) => match merged_policy_file(c@, mp) {
                                        Some(t) => plan_writes(
                                            r,
                                            t,
                                            if backup_exists {
                                                None
                                            } else {
                                                Some(spec_merged_policy_backup(Some(c@), self.extension_spec())->Ok_0)
                                            },
                                        ),
                                        None => is_invalid_data(r, missing_policies_message()),
                                    },
                                }
                            },
                        },
                        None => if self.backup_spec() is None {
                            is_invalid_input(r, "merged Firefox policy has no backup path"@)
                        } else {
                            plan_writes(
                                r,
                                fresh,
                                if backup_exists {
                                    None
                                } else {
                                    Some((true, Seq::empty(), None, None))
                                },
                            )
                        },
                    }
                }
            }),
            !self.merges() ==> (r matches Ok(plan) && (plan.contents matches Some(t) ==> json_canonical(t@)
                == Some(json_object_text(expected_document_members(self.extension_spec(), self.install_url_spec()))))),
            (self.merges() && current is None && r is Ok) ==> (r->Ok_0.contents matches Some(t)
                && json_canonical(t@) == Some(
                json_object_text(expected_document_members(self.extension_spec(), self.install_url_spec())),
            )),
    {
        let members = self.expected_members();
        let expected = object_json(&members);
        if !self.merge_with_existing {
            if let Some(c) = current {
                if let Some(canonical) = canonical_json(c) {
                    if bytes_equal(canonical.as_slice(), expected.as_slice()) {
                        return Ok(FirefoxRepairPlan {
                            status: RepairStatus::AlreadyCompliant,
                            backup: None,
                            contents: None,
                        });
                    }
                }
            }
            proof {
                lemma_document_members_plain(self.extension_spec(), self.install_url_spec());
            }
            let mut text = object_json_pretty(&members);
            let ghost pretty = text@;
            text.push(10u8);
            assert(text@ =~= pretty + seq![10u8]);
            return Ok(FirefoxRepairPlan { status: RepairStatus::Repaired, backup: None, contents: Some(text) });
        }
        if let Some(c) = current {
            if let Some(e) = parse_error_text(c) {
                let head = concat3("cannot merge BlocKuntu policy because ", self.policy_path.as_str(), " is not valid JSON: ");
                let message = concat3(head.as_str(), e.as_str(), "");
                proof {
                    reveal_strlit("");
                }
                return Err(invalid_data(message.as_str()));
            }
            if policy_contains_managed_settings(c, expected.as_slice(), self.extension_id.as_str()) {
                return Ok(FirefoxRepairPlan { status: RepairStatus::AlreadyCompliant, backup: None, contents: None });
            }
        }
        if self.backup_path.is_none() {
            return Err(io_error(IoErrorKind::InvalidInput, "merged Firefox policy has no backup path"));
        }
        let backup = if backup_exists {
            None
        } else {
            Some(self.merged_policy_backup(current)?)
        };
        let contents = match current {
            None => {
                proof {
                    lemma_document_members_plain(self.extension_spec(), self.install_url_spec());
                }
                let mut text = object_json_pretty(&members);
                let ghost pretty = text@;
                text.push(10u8);
                assert(text@ =~= pretty + seq![10u8]);
                text
            },
            Some(c) => {
                let merged = self.merged_policies(c)?;
                let ghost mv = merged@;
                let mut top: Vec<(String, Option<Vec<u8>>)> = Vec::new();
                top.push((owned("policies"), Some(merged)));
                assert(edit_views(top@) =~= seq![("policies"@, Some(mv))]);
                let mut text = match edit_object_pretty(c, &top) {
                    Some(t) => t,
                    None => return Err(invalid_data("browser policy is missing its policies object")),
                };
                let ghost pretty = text@;
                text.push(10u8);
                assert(text@ =~= pretty + seq![10u8]);
                text
            },
        };
        Ok(FirefoxRepairPlan { status: RepairStatus::Repaired, backup, contents: Some(contents) })
    }
}

/// The restored document, pretty-printed and ended by a line feed.
pub open spec fn restored_policy_file(policy: Seq<u8>, restored_policies: Seq<u8>) -> Option<Seq<u8>> {
    match json_edit_object_pretty(policy, seq![("policies"@, Some(restored_policies))]) {
        Some(text) => Some(text + seq![10u8]),
        None => None,
    }
}

impl FirefoxPolicyManager {
    /// What removal of a merged policy writes, given its backup and what the
    /// policy file reads: nothing (`None`: the file goes) when the browser had
    /// no policy of its own; else the policy with the backed-up values put
    /// back. The policy must parse.
    pub fn removal_contents(&self, backup: &MergedPolicyBackup, current: &[u8]) -> (r: Result<
        Option<Vec<u8>>,
        DaemonError,
    >)
        ensures
            backup.policy_was_missing ==> r == Ok::<Option<Vec<u8>>, DaemonError>(None),
            !backup.policy_was_missing ==> match json_parse_error(current@) {
                Some(e) => is_invalid_data(
                    r,
                    "cannot restore browser policy because "@ + self.path_spec()
                        + " is not valid JSON: "@ + e,
                ),
                None => match spec_restored_policies(current@, self.extension_spec(), backup_view(*backup)) {
                    Err(m) => is_invalid_data(r, m),
                    Ok(rp) => match restored_policy_file(current@, rp) {
                        Some(t) => r matches Ok(Some(v)) && v@ == t,
                        None => is_invalid_data(r, missing_policies_message()),
                    },
                },
            },
    {
        if backup.policy_was_missing {
            return Ok(None);
        }
        if let Some(e) = parse_error_text(current) {
            let head = concat3(
                "cannot restore browser policy because ",
                self.policy_path.as_str(),
                " is not valid JSON: ",
            );
            let message = concat3(head.as_str(), e.as_str(), "");
            proof {
                reveal_strlit("");
            }
            return Err(invalid_data(message.as_str()));
        }
        let restored = self.restored_policies(current, backup)?;
        let ghost rv = restored@;
        let mut top: Vec<(String, Option<Vec<u8>>)> = Vec::new();
        top.push((owned("policies"), Some(restored)));
        assert(edit_views(top@) =~= seq![("policies"@, Some(rv))]);
        let mut text = match edit_object_pretty(current, &top) {
            Some(t) => t,
            None => return Err(invalid_data("browser policy is missing its policies object")),
        };
        let ghost pretty = text@;
        text.push(10u8);
        assert(text@ =~= pretty + seq![10u8]);
        Ok(Some(text))
    }

    /// What the status of the policy file reports, given what reading it
    /// gave: its absence or the reason it could not be read or parsed; else
    /// whether it complies (holds this program's settings when merged, is the
    /// expected document otherwise), whether the extension may run in private
    /// windows, whether private windows are turned off, and the install URL.
    pub open spec fn status_holds(&self, read: PolicyFileRead, r: FirefoxPolicyStatus) -> bool {
        &&& r.path@ == self.path_spec()
        &&& r.extension_id@ == self.extension_spec()
        &&& match read {
            PolicyFileRead::Missing => {
                &&& !r.policy_exists && !r.valid_json && !r.compliant
                &&& !r.private_browsing_enabled && !r.private_browsing_available
                &&& r.install_url is None
                &&& r.detail@ == "policy file is missing"@
            },
            PolicyFileRead::Unreadable(err) => {
                &&& r.policy_exists && !r.valid_json && !r.compliant
                &&& !r.private_browsing_enabled && !r.private_browsing_available
                &&& r.install_url is None
                &&& r.detail@ == "policy file cannot be read: "@ + err@
            },
            PolicyFileRead::Contents(c) => match json_parse_error(c@) {
                Some(err) => {
                    &&& r.policy_exists && !r.valid_json && !r.compliant
                    &&& !r.private_browsing_enabled && !r.private_browsing_available
                    &&& r.install_url is None
                    &&& r.detail@ == "policy file is not valid JSON: "@ + err
                },
                None => {
                    let expected = spec_firefox_expected(self.extension_spec(), self.install_url_spec());
                    let settings = match json_member(c@, "policies"@) {
                        Some(p) => nested_member(p, "ExtensionSettings"@, self.extension_spec()),
                        None => None,
                    };
                    let compliant = if self.merges() {
                        spec_includes_managed_settings(c@, expected, self.extension_spec())
                    } else {
                        json_canonical(c@) == Some(expected)
                    };
                    &&& r.policy_exists && r.valid_json
                    &&& r.compliant == compliant
                    &&& r.private_browsing_enabled == (match settings {
                        Some(s) => json_member_bool(s, "private_browsing"@) == Some(true),
                        None => false,
                    })
                    &&& match r.install_url {
                        Some(u) => optional_member_str(settings, "install_url"@) == Some(u@),
                        None => optional_member_str(settings, "install_url"@) is None,
                    }
                    &&& r.private_browsing_available == (match json_member(c@, "policies"@) {
                        Some(p) => json_member_i64(p, "PrivateBrowsingModeAvailability"@) == Some(0int),
                        None => false,
                    })
                    &&& r.detail@ == (if compliant {
                        if self.merges() {
                            "policy contains BlocKuntu's hardened settings and preserves browser defaults"@
                        } else {
                            "policy matches expected hardened settings"@
                        }
                    } else if self.merges() {
                        "policy is missing or changes BlocKuntu's hardened settings"@
                    } else {
                        "policy differs from expected hardened settings"@
                    })
                },
            },
        }
    }

    fn unread_status(&self, exists: bool, detail: String) -> (r: FirefoxPolicyStatus)
        ensures
            r.path@ == self.path_spec(),
            r.extension_id@ == self.extension_spec(),
            r.policy_exists == exists,
            !r.valid_json && !r.compliant,
            !r.private_browsing_enabled && !r.private_browsing_available,
            r.install_url is None,
            r.detail == detail,
    {
        FirefoxPolicyStatus {
            path: self.policy_path.clone(),
            extension_id: self.extension_id.clone(),
            policy_exists: exists,
            valid_json: false,
            compliant: false,
            private_browsing_enabled: false,
            private_browsing_available: false,
            install_url: None,
            detail,
        }
    }

    /// The status of the policy file, given what reading it gave.
    pub fn status(&self, read: PolicyFileRead) -> (r: FirefoxPolicyStatus)
        ensures
            self.status_holds(read, r),
    {
        proof {
            reveal_strlit("");
        }
        let contents = match read {
            PolicyFileRead::Missing => return self.unread_status(false, owned("policy file is missing")),
            PolicyFileRead::Unreadable(err) => {
                return self.unread_status(true, concat3("policy file cannot be read: ", err.as_str(), ""));
            },
            PolicyFileRead::Contents(c) => c,
        };
        if let Some(err) = parse_error_text(contents.as_slice()) {
            return self.unread_status(true, concat3("policy file is not valid JSON: ", err.as_str(), ""));
        }
        let expected = self.expected_policy();
        let policies = member_json(contents.as_slice(), "policies");
        let settings = match &policies {
            Some(p) => nested(p.as_slice(), "ExtensionSettings", self.extension_id.as_str()),
            None => None,
        };
        let private_browsing_enabled = match &settings {
            Some(st) => match member_bool(st.as_slice(), "private_browsing") {
                Some(b) => b,
                None => false,
            },
            None => false,
        };
        let install_url = match &settings {
            Some(st) => member_str(st.as_slice(), "install_url"),
            None => None,
        };
        let private_browsing_available = match &policies {
            Some(p) => match member_i64(p.as_slice(), "PrivateBrowsingModeAvailability") {
                Some(n) => n == 0,
                None => false,
            },
            None => false,
        };
        let compliant = if self.merge_with_existing {
            policy_contains_managed_settings(contents.as_slice(), expected.as_slice(), self.extension_id.as_str())
        } else {
            match canonical_json(contents.as_slice()) {
                Some(canonical) => bytes_equal(canonical.as_slice(), expected.as_slice()),
                None => false,
            }
        };
        let detail = if compliant {
            if self.merge_with_existing {
                owned("policy contains BlocKuntu's hardened settings and preserves browser defaults")
            } else {
                owned("policy matches expected hardened settings")
            }
        } else if self.merge_with_existing {
            owned("policy is missing or changes BlocKuntu's hardened settings")
        } else {
            owned("policy differs from expected hardened settings")
        };
        FirefoxPolicyStatus {
            path: self.policy_path.clone(),
            extension_id: self.extension_id.clone(),
            policy_exists: true,
            valid_json: true,
            compliant,
            private_browsing_enabled,
            private_browsing_available,
            install_url,
            detail,
        }
    }
}

} // verus!
