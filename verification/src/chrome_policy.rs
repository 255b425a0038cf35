use vstd::prelude::*;

use crate::daemon_error::DaemonError;
use crate::json::{
    array_items, array_json, canonical_json, json_array_items, json_array_text, json_as_str,
    json_canonical, json_member, json_member_i64, json_member_str, json_object_pretty,
    json_object_text, json_parse_error, json_str, member_i64, member_json, member_str,
    member_views, object_json, object_json_pretty, parse_error_text, piece_views, JsonPiece,
    lemma_array_text_plain, lemma_object_text_plain, plain_depth, plain_items, plain_members, plain_piece,
    PieceView,
};
use crate::strings::{bytes_equal, concat3, owned, str_equal};
use crate::text::{
    append_chars, byte_views, chars_of, decimal, string_from_chars, string_views, u64_to_decimal,
};

verus! {

/// Where the Chrome Web Store serves extension updates.
pub const CHROME_WEB_STORE_UPDATE_URL: &'static str = "https://clients2.google.com/service/update2/crx";

/// How private windows of Chromium-family browsers are handled. Chromium
/// keeps extension access to Incognito behind a user's consent: the first
/// two modes keep that boundary, the third blocks URLs by browser policy.
#[derive(Debug, Clone, Copy, PartialEq, Eq, Structural)]
pub enum ChromiumIncognitoMode {
    Disabled,
    ManualConsent,
    PolicyUrlBlocking,
}

impl Default for ChromiumIncognitoMode {
    fn default() -> (r: Self)
        ensures
            r == ChromiumIncognitoMode::ManualConsent,
    {
        ChromiumIncognitoMode::ManualConsent
    }
}

/// The stored name of a private-window mode.
pub open spec fn spec_incognito_mode_name(mode: ChromiumIncognitoMode) -> Seq<char> {
    match mode {
        ChromiumIncognitoMode::Disabled => "disabled"@,
        ChromiumIncognitoMode::ManualConsent => "manual_consent"@,
        ChromiumIncognitoMode::PolicyUrlBlocking => "policy_url_blocking"@,
    }
}

/// The stored name of a private-window mode.
pub fn chromium_incognito_mode_name(mode: ChromiumIncognitoMode) -> (r: &'static str)
    ensures
        r@ == spec_incognito_mode_name(mode),
{
    match mode {
        ChromiumIncognitoMode::Disabled => "disabled",
        ChromiumIncognitoMode::ManualConsent => "manual_consent",
        ChromiumIncognitoMode::PolicyUrlBlocking => "policy_url_blocking",
    }
}

/// The private-window mode that the service state records: manual consent
/// when none is stored; an unknown name is an invalid request.
pub open spec fn spec_incognito_mode(stored: Option<Seq<char>>) -> Result<ChromiumIncognitoMode, Seq<char>> {
    match stored {
        None => Ok(ChromiumIncognitoMode::ManualConsent),
        Some(s) => if s == "disabled"@ {
            Ok(ChromiumIncognitoMode::Disabled)
        } else if s == "manual_consent"@ {
            Ok(ChromiumIncognitoMode::ManualConsent)
        } else if s == "policy_url_blocking"@ {
            Ok(ChromiumIncognitoMode::PolicyUrlBlocking)
        } else {
            Err("invalid Chromium private browsing mode '"@ + s + "'"@)
        },
    }
}

/// The private-window mode that the service state records.
pub fn chromium_incognito_mode(stored: Option<&str>) -> (r: Result<ChromiumIncognitoMode, DaemonError>)
    ensures
        match spec_incognito_mode(
            match stored {
                Some(s) => Some(s@),
                None => None,
            },
        ) {
            Ok(mode) => r == Ok::<ChromiumIncognitoMode, DaemonError>(mode),
            Err(message) => r matches Err(DaemonError::InvalidRequest(m)) && m@ == message,
        },
{
    match stored {
        None => Ok(ChromiumIncognitoMode::default()),
        Some(s) => {
            if str_equal(s, "disabled") {
                Ok(ChromiumIncognitoMode::Disabled)
            } else if str_equal(s, "manual_consent") {
                Ok(ChromiumIncognitoMode::ManualConsent)
            } else if str_equal(s, "policy_url_blocking") {
                Ok(ChromiumIncognitoMode::PolicyUrlBlocking)
            } else {
                Err(
                    DaemonError::InvalidRequest(
                        concat3("invalid Chromium private browsing mode '", s, "'"),
                    ),
                )
            }
        },
    }
}

/// Law: a private-window mode read back from its stored name is itself.
pub proof fn law_incognito_mode_name_roundtrip(mode: ChromiumIncognitoMode)
    ensures
        spec_incognito_mode(Some(spec_incognito_mode_name(mode))) == Ok::<
            ChromiumIncognitoMode,
            Seq<char>,
        >(mode),
{
    reveal_strlit("disabled");
    reveal_strlit("manual_consent");
    reveal_strlit("policy_url_blocking");
    assert("disabled"@.len() == 8);
    assert("manual_consent"@.len() == 14);
    assert("policy_url_blocking"@.len() == 19);
}

/// Writes the managed policy that force-installs the extension in one
/// Chromium-family browser.
#[derive(Debug, Clone)]
pub struct ChromePolicyManager {
    policy_path: String,
    extension_id: String,
    update_url: String,
    browser_name: String,
}

/// What a repair of a Chromium policy did.
#[derive(Debug, Clone, Copy, PartialEq, Eq, Structural)]
pub enum ChromePolicyRepairStatus {
    AlreadyCompliant,
    Repaired,
    SkippedInactive,
    SkippedDisabled,
    SkippedDeferred,
}

/// What the daemon reports of a Chromium policy file.
#[derive(Debug, Clone)]
pub struct ChromePolicyStatus {
    pub browser: String,
    pub path: String,
    pub extension_id: String,
    pub update_url: String,
    pub policy_exists: bool,
    pub valid_json: bool,
    pub compliant: bool,
    pub force_install_configured: bool,
    pub incognito_mode: ChromiumIncognitoMode,
    pub incognito_mode_configured: bool,
    pub incognito_url_block_count: usize,
    pub detail: String,
}

/// What reading a policy file gave.
#[derive(Debug, Clone)]
pub enum PolicyFileRead {
    /// There is no such file.
    Missing,
    /// The file could not be read, for this reason.
    Unreadable(String),
    /// The file's bytes.
    Contents(Vec<u8>),
}

/// A policy repair to carry out: its outcome and, when the file must be
/// rewritten, the text to write.
#[derive(Debug, Clone)]
pub struct PolicyRepairPlan {
    pub status: ChromePolicyRepairStatus,
    pub contents: Option<Vec<u8>>,
}

/// The entry of `ExtensionInstallForcelist`: the id, a semicolon and the
/// update URL.
pub open spec fn spec_force_install_entry(extension_id: Seq<char>, update_url: Seq<char>) -> Seq<
    char,
> {
    extension_id + ";"@ + update_url
}

/// The policy key that sets private-window availability: Edge names it
/// "InPrivate", the others "Incognito".
pub open spec fn spec_availability_key(browser_name: Seq<char>) -> Seq<char> {
    if browser_name == "Microsoft Edge"@ {
        "InPrivateModeAvailability"@
    } else {
        "IncognitoModeAvailability"@
    }
}

/// The policy key of the URL blocklist of private windows.
pub open spec fn spec_blocklist_key(browser_name: Seq<char>) -> Seq<char> {
    if browser_name == "Microsoft Edge"@ {
        "InPrivateModeUrlBlocklist"@
    } else {
        "IncognitoModeUrlBlocklist"@
    }
}

/// The URLs of the private-window blocklist as array items.
pub open spec fn url_items(urls: Seq<Seq<char>>) -> Seq<PieceView> {
    urls.map_values(|u: Seq<char>| PieceView::Text(u))
}

/// The policy members that every Chromium policy of this program has:
/// developer tools off, the extension force-installed from its update URL.
pub open spec fn base_policy_members(extension_id: Seq<char>, update_url: Seq<char>) -> Seq<
    (Seq<char>, PieceView),
> {
    seq![
        ("DeveloperToolsDisabled"@, PieceView::Bool(true)),
        (
            "ExtensionInstallForcelist"@,
            PieceView::Raw(
                json_array_text(seq![PieceView::Text(spec_force_install_entry(extension_id, update_url))]),
            ),
        ),
        (
            "ExtensionSettings"@,
            PieceView::Raw(
                json_object_text(
                    seq![
                        (
                            extension_id,
                            PieceView::Raw(
                                json_object_text(
                                    seq![
                                        ("installation_mode"@, PieceView::Text("force_installed"@)),
                                        ("update_url"@, PieceView::Text(update_url)),
                                    ],
                                ),
                            ),
                        ),
                    ],
                ),
            ),
        ),
    ]
}

/// The policy members for private windows: availability 1 (disabled) when
/// they are disabled; availability 0 and the URL blocklist under policy URL
/// blocking; none under manual consent.
pub open spec fn incognito_members(
    browser_name: Seq<char>,
    mode: ChromiumIncognitoMode,
    urls: Seq<Seq<char>>,
) -> Seq<(Seq<char>, PieceView)> {
    match mode {
        ChromiumIncognitoMode::Disabled => seq![
            (spec_availability_key(browser_name), PieceView::Integer(1)),
        ],
        ChromiumIncognitoMode::ManualConsent => Seq::empty(),
        ChromiumIncognitoMode::PolicyUrlBlocking => seq![
            (spec_availability_key(browser_name), PieceView::Integer(0)),
            (spec_blocklist_key(browser_name), PieceView::Raw(json_array_text(url_items(urls)))),
        ],
    }
}

/// The policy members are plain pieces, which serde_json writes and reads
/// back unchanged.
pub proof fn lemma_policy_members_plain(
    extension_id: Seq<char>,
    update_url: Seq<char>,
    browser_name: Seq<char>,
    mode: ChromiumIncognitoMode,
    urls: Seq<Seq<char>>,
)
    ensures
        plain_members(
            base_policy_members(extension_id, update_url) + incognito_members(browser_name, mode, urls),
            plain_depth(),
        ),
{
    let forcelist = seq![PieceView::Text(spec_force_install_entry(extension_id, update_url))];
    assert(plain_items(forcelist, 7));
    lemma_array_text_plain(forcelist, 7);
    let settings = seq![
        ("installation_mode"@, PieceView::Text("force_installed"@)),
        ("update_url"@, PieceView::Text(update_url)),
    ];
    assert(plain_members(settings, 6));
    lemma_object_text_plain(settings, 6);
    let by_id = seq![(extension_id, PieceView::Raw(json_object_text(settings)))];
    assert(plain_members(by_id, 7));
    lemma_object_text_plain(by_id, 7);
    assert(plain_items(url_items(urls), 7));
    lemma_array_text_plain(url_items(urls), 7);
    let base = base_policy_members(extension_id, update_url);
    let extra = incognito_members(browser_name, mode, urls);
    assert(plain_members(base, plain_depth()));
    assert(plain_members(extra, plain_depth()));
    let all = base + extra;
    assert forall|i: int| 0 <= i < all.len() implies plain_piece(#[trigger] all[i].1, plain_depth()) by {
        if i < base.len() {
            assert(all[i] == base[i]);
        } else {
            assert(all[i] == extra[i - base.len()]);
        }
    }
}

/// The policy document, as serde_json writes it, that a browser should have.
pub open spec fn spec_expected_policy(
    extension_id: Seq<char>,
    update_url: Seq<char>,
    browser_name: Seq<char>,
    mode: ChromiumIncognitoMode,
    urls: Seq<Seq<char>>,
) -> Seq<u8> {
    json_object_text(
        base_policy_members(extension_id, update_url) + incognito_members(browser_name, mode, urls),
    )
}

/// Whether an array, as serde_json writes its items, holds the string `s`.
pub open spec fn items_hold_str(items: Option<Seq<Seq<u8>>>, s: Seq<char>) -> bool {
    match items {
        Some(v) => exists|i: int| 0 <= i < v.len() && json_as_str(v[i]) == Some(s),
        None => false,
    }
}

/// Whether an array, as serde_json writes its items, is exactly these strings.
pub open spec fn items_are_strs(items: Option<Seq<Seq<u8>>>, urls: Seq<Seq<char>>) -> bool {
    match items {
        Some(v) => v.len() == urls.len() && forall|i: int|
            0 <= i < v.len() ==> json_as_str(#[trigger] v[i]) == Some(urls[i]),
        None => false,
    }
}

/// How many items the array holds; 0 when it is not an array.
pub open spec fn items_count(items: Option<Seq<Seq<u8>>>) -> nat {
    match items {
        Some(v) => v.len(),
        None => 0,
    }
}

/// The members of `bytes` under `key`, then under `inner`.
pub open spec fn nested_member(bytes: Seq<u8>, key: Seq<char>, inner: Seq<char>) -> Option<Seq<u8>> {
    match json_member(bytes, key) {
        Some(m) => json_member(m, inner),
        None => None,
    }
}

/// A string member of an optional document.
pub open spec fn optional_member_str(bytes: Option<Seq<u8>>, key: Seq<char>) -> Option<Seq<char>> {
    match bytes {
        Some(b) => json_member_str(b, key),
        None => None,
    }
}

impl ChromePolicyManager {
    /// The path of the policy file.
    pub closed spec fn path_spec(&self) -> Seq<char> {
        self.policy_path@
    }

    /// The id of the force-installed extension.
    pub closed spec fn extension_spec(&self) -> Seq<char> {
        self.extension_id@
    }

    /// The update URL the extension comes from.
    pub closed spec fn update_url_spec(&self) -> Seq<char> {
        self.update_url@
    }

    /// The name of the browser, as reports show it.
    pub closed spec fn browser_spec(&self) -> Seq<char> {
        self.browser_name@
    }

    /// A manager of Chrome's policy file at `policy_path`.
    pub fn new(policy_path: String, extension_id: String) -> (r: Self)
        ensures
            r.path_spec() == policy_path@,
            r.extension_spec() == extension_id@,
            r.update_url_spec() == CHROME_WEB_STORE_UPDATE_URL@,
            r.browser_spec() == "Chrome"@,
    {
        Self::for_browser(policy_path, extension_id, owned("Chrome"))
    }

    /// A manager of the policy file at `policy_path` of the browser named
    /// `browser_name`, with the extension from the Chrome Web Store.
    pub fn for_browser(policy_path: String, extension_id: String, browser_name: String) -> (r: Self)
        ensures
            r.path_spec() == policy_path@,
            r.extension_spec() == extension_id@,
            r.update_url_spec() == CHROME_WEB_STORE_UPDATE_URL@,
            r.browser_spec() == browser_name@,
    {
        ChromePolicyManager {
            policy_path,
            extension_id,
            update_url: owned(CHROME_WEB_STORE_UPDATE_URL),
            browser_name,
        }
    }

    /// The path of the policy file.
    pub fn policy_path(&self) -> (r: &str)
        ensures
            r@ == self.path_spec(),
    {
        self.policy_path.as_str()
    }

    /// The name of the browser.
    pub fn browser_name(&self) -> (r: &str)
        ensures
            r@ == self.browser_spec(),
    {
        self.browser_name.as_str()
    }

    /// The entry of `ExtensionInstallForcelist` for the extension.
    pub fn force_install_entry(&self) -> (r: String)
        ensures
            r@ == spec_force_install_entry(self.extension_spec(), self.update_url_spec()),
    {
        concat3(self.extension_id.as_str(), ";", self.update_url.as_str())
    }

    /// The policy key that sets private-window availability.
    pub fn incognito_mode_availability_key(&self) -> (r: &'static str)
        ensures
            r@ == spec_availability_key(self.browser_spec()),
    {
        if str_equal(self.browser_name.as_str(), "Microsoft Edge") {
            "InPrivateModeAvailability"
        } else {
            "IncognitoModeAvailability"
        }
    }

    /// The policy key of the private-window URL blocklist.
    pub fn incognito_url_blocklist_key(&self) -> (r: &'static str)
        ensures
            r@ == spec_blocklist_key(self.browser_spec()),
    {
        if str_equal(self.browser_name.as_str(), "Microsoft Edge") {
            "InPrivateModeUrlBlocklist"
        } else {
            "IncognitoModeUrlBlocklist"
        }
    }

    /// The members of the policy document that the browser should have.
    fn expected_policy_members(&self, incognito_mode: ChromiumIncognitoMode, incognito_url_blocklist: &[String]) -> (r:
        Vec<(String, JsonPiece)>)
        ensures
            member_views(r@) == base_policy_members(self.extension_spec(), self.update_url_spec())
                + incognito_members(
                self.browser_spec(),
                incognito_mode,
                string_views(incognito_url_blocklist@),
            ),
    {
        let mut forcelist: Vec<JsonPiece> = Vec::new();
        forcelist.push(JsonPiece::Text(self.force_install_entry()));
        let forcelist_bytes = array_json(&forcelist);
        let mut settings: Vec<(String, JsonPiece)> = Vec::new();
        settings.push((owned("installation_mode"), JsonPiece::Text(owned("force_installed"))));
        settings.push((owned("update_url"), JsonPiece::Text(self.update_url.clone())));
        let settings_bytes = object_json(&settings);
        let mut by_id: Vec<(String, JsonPiece)> = Vec::new();
        by_id.push((self.extension_id.clone(), JsonPiece::Raw(settings_bytes)));
        let by_id_bytes = object_json(&by_id);
        let mut policy: Vec<(String, JsonPiece)> = Vec::new();
        policy.push((owned("DeveloperToolsDisabled"), JsonPiece::Bool(true)));
        policy.push((owned("ExtensionInstallForcelist"), JsonPiece::Raw(forcelist_bytes)));
        policy.push((owned("ExtensionSettings"), JsonPiece::Raw(by_id_bytes)));
        let ghost eid = self.extension_spec();
        let ghost url = self.update_url_spec();
        proof {
            assert(piece_views(forcelist@) =~= seq![
                PieceView::Text(spec_force_install_entry(eid, url)),
            ]);
            assert(member_views(settings@) =~= seq![
                ("installation_mode"@, PieceView::Text("force_installed"@)),
                ("update_url"@, PieceView::Text(url)),
            ]);
            assert(member_views(by_id@) =~= seq![(eid, PieceView::Raw(settings_bytes@))]);
            assert(member_views(policy@) =~= base_policy_members(eid, url));
        }
        let ghost base = member_views(policy@);
        let ghost urls = string_views(incognito_url_blocklist@);
        match incognito_mode {
            ChromiumIncognitoMode::Disabled => {
                policy.push(
                    (owned(self.incognito_mode_availability_key()), JsonPiece::Integer(1)),
                );
            },
            ChromiumIncognitoMode::ManualConsent => {},
            ChromiumIncognitoMode::PolicyUrlBlocking => {
                let mut items: Vec<JsonPiece> = Vec::new();
                let mut i: usize = 0;
                while i < incognito_url_blocklist.len()
                    invariant
                        i <= incognito_url_blocklist@.len(),
                        urls == string_views(incognito_url_blocklist@),
                        piece_views(items@) =~= url_items(urls.take(i as int)),
                    decreases incognito_url_blocklist@.len() - i,
                {
                    items.push(JsonPiece::Text(incognito_url_blocklist[i].clone()));
                    assert(url_items(urls.take(i + 1)) =~= url_items(urls.take(i as int)).push(
                        PieceView::Text(urls[i as int]),
                    ));
                    i = i + 1;
                }
                assert(urls.take(urls.len() as int) =~= urls);
                let items_bytes = array_json(&items);
                policy.push(
                    (owned(self.incognito_mode_availability_key()), JsonPiece::Integer(0)),
                );
                policy.push(
                    (owned(self.incognito_url_blocklist_key()), JsonPiece::Raw(items_bytes)),
                );
            },
        }
        assert(member_views(policy@) =~= base + incognito_members(
            self.browser_spec(),
            incognito_mode,
            urls,
        ));
        policy
    }

    /// The policy document that the browser should have, as serde_json
    /// writes it.
    pub fn expected_policy_for(&self, incognito_mode: ChromiumIncognitoMode, incognito_url_blocklist: &[String]) -> (r:
        Vec<u8>)
        ensures
            r@ == spec_expected_policy(
                self.extension_spec(),
                self.update_url_spec(),
                self.browser_spec(),
                incognito_mode,
                string_views(incognito_url_blocklist@),
            ),
    {
        let members = self.expected_policy_members(incognito_mode, incognito_url_blocklist);
        object_json(&members)
    }

    /// The policy document for manual consent and no blocklist.
    pub fn expected_policy(&self) -> (r: Vec<u8>)
        ensures
            r@ == spec_expected_policy(
                self.extension_spec(),
                self.update_url_spec(),
                self.browser_spec(),
                ChromiumIncognitoMode::ManualConsent,
                Seq::empty(),
            ),
    {
        let none: Vec<String> = Vec::new();
        let r = self.expected_policy_for(ChromiumIncognitoMode::ManualConsent, none.as_slice());
        assert(string_views(none@) =~= Seq::<Seq<char>>::empty());
        r
    }

    /// The repair of a policy file that reads `current` (`None`: missing):
    /// nothing when it parses to the expected document, else the expected
    /// document, pretty-printed and ended by a line feed, to write.
    pub fn verify_and_repair_with(
        &self,
        incognito_mode: ChromiumIncognitoMode,
        incognito_url_blocklist: &[String],
        current: Option<&[u8]>,
    ) -> (r: PolicyRepairPlan)
        ensures
            ({
                let members = base_policy_members(self.extension_spec(), self.update_url_spec())
                    + incognito_members(
                    self.browser_spec(),
                    incognito_mode,
                    string_views(incognito_url_blocklist@),
                );
                if current matches Some(c) && json_canonical(c@) == Some(json_object_text(members)) {
                    r.status == ChromePolicyRepairStatus::AlreadyCompliant && r.contents is None
                } else {
                    &&& r.status == ChromePolicyRepairStatus::Repaired
                    &&& r.contents matches Some(text) && text@ == json_object_pretty(members) + seq![10u8]
                    &&& r.contents matches Some(text) && json_canonical(text@) == Some(
                        json_object_text(members),
                    )
                }
            }),
    {
        let members = self.expected_policy_members(incognito_mode, incognito_url_blocklist);
        let expected = object_json(&members);
        let compliant = match current {
            Some(c) => match canonical_json(c) {
                Some(canonical) => bytes_equal(canonical.as_slice(), expected.as_slice()),
                None => false,
            },
            None => false,
        };
        if compliant {
            return PolicyRepairPlan { status: ChromePolicyRepairStatus::AlreadyCompliant, contents: None };
        }
        proof {
            lemma_policy_members_plain(
                self.extension_spec(),
                self.update_url_spec(),
                self.browser_spec(),
                incognito_mode,
                string_views(incognito_url_blocklist@),
            );
        }
        let mut text = object_json_pretty(&members);
        let ghost pretty = text@;
        text.push(10u8);
        assert(text@ == pretty + seq![10u8]);
        PolicyRepairPlan { status: ChromePolicyRepairStatus::Repaired, contents: Some(text) }
    }

    /// The repair for manual consent and no blocklist.
    pub fn verify_and_repair(&self, current: Option<&[u8]>) -> (r: PolicyRepairPlan)
        ensures
            ({
                let members = base_policy_members(self.extension_spec(), self.update_url_spec());
                if current matches Some(c) && json_canonical(c@) == Some(json_object_text(members)) {
                    r.status == ChromePolicyRepairStatus::AlreadyCompliant && r.contents is None
                } else {
                    &&& r.status == ChromePolicyRepairStatus::Repaired
                    &&& r.contents matches Some(text) && text@ == json_object_pretty(members) + seq![10u8]
                    &&& r.contents matches Some(text) && json_canonical(text@) == Some(
                        json_object_text(members),
                    )
                }
            }),
    {
        let none: Vec<String> = Vec::new();
        let r = self.verify_and_repair_with(ChromiumIncognitoMode::ManualConsent, none.as_slice(), current);
        assert(base_policy_members(self.extension_spec(), self.update_url_spec()) + incognito_members(
            self.browser_spec(),
            ChromiumIncognitoMode::ManualConsent,
            string_views(none@),
        ) =~= base_policy_members(self.extension_spec(), self.update_url_spec()));
        r
    }
}

/// The items of the array under `key` of the document `bytes`.
pub open spec fn member_items(bytes: Seq<u8>, key: Seq<char>) -> Option<Seq<Seq<u8>>> {
    match json_member(bytes, key) {
        Some(m) => json_array_items(m),
        None => None,
    }
}

/// Whether the private-window settings of a parsed policy match `mode`.
pub open spec fn spec_incognito_configured(
    contents: Seq<u8>,
    browser_name: Seq<char>,
    mode: ChromiumIncognitoMode,
    urls: Seq<Seq<char>>,
) -> bool {
    let avail = spec_availability_key(browser_name);
    let list = spec_blocklist_key(browser_name);
    match mode {
        ChromiumIncognitoMode::Disabled => json_member_i64(contents, avail) == Some(1int),
        ChromiumIncognitoMode::ManualConsent => json_member(contents, avail) is None && json_member(
            contents,
            list,
        ) is None,
        ChromiumIncognitoMode::PolicyUrlBlocking => json_member_i64(contents, avail) == Some(0int)
            && items_are_strs(member_items(contents, list), urls),
    }
}

/// How a report describes the private-window policy of `mode`.
pub open spec fn spec_incognito_detail(mode: ChromiumIncognitoMode, url_count: nat) -> Seq<char> {
    match mode {
        ChromiumIncognitoMode::Disabled => "private browsing is disabled by policy"@,
        ChromiumIncognitoMode::ManualConsent =>
            "private browsing remains available; the user must allow the extension there"@,
        ChromiumIncognitoMode::PolicyUrlBlocking => decimal(url_count)
            + " active URL pattern(s) are blocked in private browsing by policy"@,
    }
}

/// The detail of the status of a policy file that parses: why it complies
/// or, in order, whether the force-install entry, the extension settings or
/// something else differ.
pub open spec fn spec_parsed_detail(
    browser_name: Seq<char>,
    compliant: bool,
    force_install_configured: bool,
    settings_ok: bool,
    incognito_detail: Seq<char>,
) -> Seq<char> {
    if compliant {
        browser_name + " Chrome Web Store policy matches expected force-install settings; "@
            + incognito_detail
    } else if !force_install_configured {
        browser_name
            + " Chrome Web Store force-install entry is missing or points at a different update URL"@
    } else if !settings_ok {
        browser_name + " ExtensionSettings are missing force_installed/update_url settings"@
    } else {
        browser_name + " policy differs from expected hardened settings; "@ + incognito_detail
    }
}

/// The items of the array under `key` of the document `bytes`.
fn member_array_items(bytes: &[u8], key: &str) -> (r: Option<Vec<Vec<u8>>>)
    ensures
        match r {
            Some(v) => member_items(bytes@, key@) == Some(byte_views(v@)),
            None => member_items(bytes@, key@) is None,
        },
{
    match member_json(bytes, key) {
        Some(m) => array_items(m.as_slice()),
        None => None,
    }
}

/// Whether one of the items is the string `s`.
fn items_contain_str(items: &Option<Vec<Vec<u8>>>, s: &str) -> (r: bool)
    ensures
        r == items_hold_str(
            match items {
                Some(v) => Some(byte_views(v@)),
                None => None,
            },
            s@,
        ),
{
    match items {
        None => false,
        Some(v) => {
            let ghost views = byte_views(v@);
            let mut i: usize = 0;
            while i < v.len()
                invariant
                    i <= v@.len(),
                    views == byte_views(v@),
                    items matches Some(w) && byte_views(w@) == views,
                    forall|j: int| 0 <= j < i ==> json_as_str(#[trigger] views[j]) != Some(s@),
                decreases v@.len() - i,
            {
                let item = json_str(v[i].as_slice());
                let hit = match item {
                    Some(t) => str_equal(t.as_str(), s),
                    None => false,
                };
                assert(views[i as int] == v@[i as int]@);
                if hit {
                    assert(json_as_str(views[i as int]) == Some(s@));
                    assert(items_hold_str(Some(views), s@));
                    return true;
                }
                i = i + 1;
            }
            false
        },
    }
}

/// Whether the items are exactly the strings `urls`.
fn items_match_strs(items: &Option<Vec<Vec<u8>>>, urls: &[String]) -> (r: bool)
    ensures
        r == items_are_strs(
            match items {
                Some(v) => Some(byte_views(v@)),
                None => None,
            },
            string_views(urls@),
        ),
{
    match items {
        None => false,
        Some(v) => {
            let ghost views = byte_views(v@);
            let ghost want = string_views(urls@);
            if v.len() != urls.len() {
                return false;
            }
            let mut i: usize = 0;
            while i < v.len()
                invariant
                    i <= v@.len(),
                    v@.len() == urls@.len(),
                    views == byte_views(v@),
                    items matches Some(w) && byte_views(w@) == views,
                    want == string_views(urls@),
                    forall|j: int| 0 <= j < i ==> json_as_str(#[trigger] views[j]) == Some(want[j]),
                decreases v@.len() - i,
            {
                let item = json_str(v[i].as_slice());
                let same = match item {
                    Some(t) => str_equal(t.as_str(), urls[i].as_str()),
                    None => false,
                };
                assert(views[i as int] == v@[i as int]@);
                assert(want[i as int] == urls@[i as int]@);
                if !same {
                    assert(json_as_str(views[i as int]) != Some(want[i as int]));
                    assert(!items_are_strs(Some(views), want));
                    return false;
                }
                i = i + 1;
            }
            true
        },
    }
}

impl ChromePolicyManager {
    fn status_of_unread(&self, incognito_mode: ChromiumIncognitoMode, exists: bool, detail: String) -> (r:
        ChromePolicyStatus)
        ensures
            r.browser@ == self.browser_spec(),
            r.path@ == self.path_spec(),
            r.extension_id@ == self.extension_spec(),
            r.update_url@ == self.update_url_spec(),
            r.policy_exists == exists,
            !r.valid_json && !r.compliant && !r.force_install_configured,
            r.incognito_mode == incognito_mode,
            !r.incognito_mode_configured,
            r.incognito_url_block_count == 0,
            r.detail == detail,
    {
        ChromePolicyStatus {
            browser: self.browser_name.clone(),
            path: self.policy_path.clone(),
            extension_id: self.extension_id.clone(),
            update_url: self.update_url.clone(),
            policy_exists: exists,
            valid_json: false,
            compliant: false,
            force_install_configured: false,
            incognito_mode,
            incognito_mode_configured: false,
            incognito_url_block_count: 0,
            detail,
        }
    }

    /// What the status of the policy file reports, given what reading it
    /// gave, for the private-window mode and blocklist in force: the file's
    /// absence, the reason it could not be read or parsed, or else whether it
    /// is the expected document, whether it force-installs the extension,
    /// whether its private-window settings match, how many URLs it blocks in
    /// private windows, and a detail that says which part differs.
    pub open spec fn status_holds(
        &self,
        incognito_mode: ChromiumIncognitoMode,
        incognito_url_blocklist: Seq<String>,
        read: PolicyFileRead,
        r: ChromePolicyStatus,
    ) -> bool {
        &&& r.browser@ == self.browser_spec()
        &&& r.path@ == self.path_spec()
        &&& r.extension_id@ == self.extension_spec()
        &&& r.update_url@ == self.update_url_spec()
        &&& r.incognito_mode == incognito_mode
        &&& match read {
            PolicyFileRead::Missing => {
                &&& !r.policy_exists && !r.valid_json && !r.compliant
                &&& !r.force_install_configured && !r.incognito_mode_configured
                &&& r.incognito_url_block_count == 0
                &&& r.detail@ == self.browser_spec() + " policy file is missing"@
            },
            PolicyFileRead::Unreadable(err) => {
                &&& r.policy_exists && !r.valid_json && !r.compliant
                &&& !r.force_install_configured && !r.incognito_mode_configured
                &&& r.incognito_url_block_count == 0
                &&& r.detail@ == self.browser_spec() + " policy file cannot be read: "@ + err@
            },
            PolicyFileRead::Contents(c) => match json_parse_error(c@) {
                Some(err) => {
                    &&& r.policy_exists && !r.valid_json && !r.compliant
                    &&& !r.force_install_configured && !r.incognito_mode_configured
                    &&& r.incognito_url_block_count == 0
                    &&& r.detail@ == self.browser_spec() + " policy file is not valid JSON: "@
                        + err
                },
                None => {
                    let urls = string_views(incognito_url_blocklist);
                    let expected = spec_expected_policy(
                        self.extension_spec(),
                        self.update_url_spec(),
                        self.browser_spec(),
                        incognito_mode,
                        urls,
                    );
                    let compliant = json_canonical(c@) == Some(expected);
                    let force = items_hold_str(
                        member_items(c@, "ExtensionInstallForcelist"@),
                        spec_force_install_entry(self.extension_spec(), self.update_url_spec()),
                    );
                    let settings = nested_member(c@, "ExtensionSettings"@, self.extension_spec());
                    let settings_ok = optional_member_str(settings, "installation_mode"@) == Some(
                        "force_installed"@,
                    ) && optional_member_str(settings, "update_url"@) == Some(
                        self.update_url_spec(),
                    );
                    &&& r.policy_exists && r.valid_json
                    &&& r.compliant == compliant
                    &&& r.force_install_configured == force
                    &&& r.incognito_mode_configured == spec_incognito_configured(
                        c@,
                        self.browser_spec(),
                        incognito_mode,
                        urls,
                    )
                    &&& r.incognito_url_block_count == items_count(
                        member_items(c@, spec_blocklist_key(self.browser_spec())),
                    )
                    &&& r.detail@ == spec_parsed_detail(
                        self.browser_spec(),
                        compliant,
                        force,
                        settings_ok,
                        spec_incognito_detail(incognito_mode, urls.len()),
                    )
                },
            },
        }
    }

    /// The status of the policy file, given what reading it gave, for the
    /// private-window mode and blocklist in force.
    pub fn status_with(
        &self,
        incognito_mode: ChromiumIncognitoMode,
        incognito_url_blocklist: &[String],
        read: PolicyFileRead,
    ) -> (r: ChromePolicyStatus)
        ensures
            self.status_holds(incognito_mode, incognito_url_blocklist@, read, r),
            read matches PolicyFileRead::Contents(c) ==> (r.compliant <==> json_canonical(c@) == Some(
                spec_expected_policy(
                    self.extension_spec(),
                    self.update_url_spec(),
                    self.browser_spec(),
                    incognito_mode,
                    string_views(incognito_url_blocklist@),
                ),
            )),
    {
        proof {
            reveal_strlit("");
        }
        let contents = match read {
            PolicyFileRead::Missing => {
                let detail = concat3(self.browser_name.as_str(), " policy file is missing", "");
                return self.status_of_unread(incognito_mode, false, detail);
            },
            PolicyFileRead::Unreadable(err) => {
                let detail = concat3(
                    self.browser_name.as_str(),
                    " policy file cannot be read: ",
                    err.as_str(),
                );
                return self.status_of_unread(incognito_mode, true, detail);
            },
            PolicyFileRead::Contents(c) => c,
        };
        if let Some(err) = parse_error_text(contents.as_slice()) {
            let detail = concat3(
                self.browser_name.as_str(),
                " policy file is not valid JSON: ",
                err.as_str(),
            );
            return self.status_of_unread(incognito_mode, true, detail);
        }
        let expected = self.expected_policy_for(incognito_mode, incognito_url_blocklist);
        let compliant = match canonical_json(contents.as_slice()) {
            Some(canonical) => bytes_equal(canonical.as_slice(), expected.as_slice()),
            None => false,
        };
        let entry = self.force_install_entry();
        let forcelist = member_array_items(contents.as_slice(), "ExtensionInstallForcelist");
        let force_install_configured = items_contain_str(&forcelist, entry.as_str());
        let settings = match member_json(contents.as_slice(), "ExtensionSettings") {
            Some(all) => member_json(all.as_slice(), self.extension_id.as_str()),
            None => None,
        };
        let (force_installed, update_url_ok) = match &settings {
            Some(s) => {
                let mode = match member_str(s.as_slice(), "installation_mode") {
                    Some(v) => str_equal(v.as_str(), "force_installed"),
                    None => false,
                };
                let url = match member_str(s.as_slice(), "update_url") {
                    Some(v) => str_equal(v.as_str(), self.update_url.as_str()),
                    None => false,
                };
                (mode, url)
            },
            None => (false, false),
        };
        let avail = self.incognito_mode_availability_key();
        let list = self.incognito_url_blocklist_key();
        let blocklist = member_array_items(contents.as_slice(), list);
        let incognito_mode_configured = match incognito_mode {
            ChromiumIncognitoMode::Disabled => match member_i64(contents.as_slice(), avail) {
                Some(n) => n == 1,
                None => false,
            },
            ChromiumIncognitoMode::ManualConsent => member_json(contents.as_slice(), avail).is_none()
                && member_json(contents.as_slice(), list).is_none(),
            ChromiumIncognitoMode::PolicyUrlBlocking => {
                let zero = match member_i64(contents.as_slice(), avail) {
                    Some(n) => n == 0,
                    None => false,
                };
                zero && items_match_strs(&blocklist, incognito_url_blocklist)
            },
        };
        let incognito_detail = match incognito_mode {
            ChromiumIncognitoMode::Disabled => owned("private browsing is disabled by policy"),
            ChromiumIncognitoMode::ManualConsent => owned(
                "private browsing remains available; the user must allow the extension there",
            ),
            ChromiumIncognitoMode::PolicyUrlBlocking => {
                let count = u64_to_decimal(incognito_url_blocklist.len() as u64);
                concat3(
                    count.as_str(),
                    " active URL pattern(s) are blocked in private browsing by policy",
                    "",
                )
            },
        };
        let browser = self.browser_name.as_str();
        let detail = if compliant {
            concat3(
                browser,
                " Chrome Web Store policy matches expected force-install settings; ",
                incognito_detail.as_str(),
            )
        } else if !force_install_configured {
            concat3(
                browser,
                " Chrome Web Store force-install entry is missing or points at a different update URL",
                "",
            )
        } else if !force_installed || !update_url_ok {
            concat3(browser, " ExtensionSettings are missing force_installed/update_url settings", "")
        } else {
            concat3(
                browser,
                " policy differs from expected hardened settings; ",
                incognito_detail.as_str(),
            )
        };
        let count = match &blocklist {
            Some(v) => v.len(),
            None => 0,
        };
        ChromePolicyStatus {
            browser: self.browser_name.clone(),
            path: self.policy_path.clone(),
            extension_id: self.extension_id.clone(),
            update_url: self.update_url.clone(),
            policy_exists: true,
            valid_json: true,
            compliant,
            force_install_configured,
            incognito_mode,
            incognito_mode_configured,
            incognito_url_block_count: count,
            detail,
        }
    }

    /// The status of the policy file for manual consent and no blocklist.
    pub fn status(&self, read: PolicyFileRead) -> (r: ChromePolicyStatus)
        ensures
            self.status_holds(ChromiumIncognitoMode::ManualConsent, Seq::empty(), read, r),
    {
        let none: Vec<String> = Vec::new();
        assert(none@ =~= Seq::<String>::empty());
        self.status_with(ChromiumIncognitoMode::ManualConsent, none.as_slice(), read)
    }
}

/// Law: the status report calls a policy file compliant exactly when a
/// repair with the same settings would leave it as it is.
pub proof fn law_status_agrees_with_repair(
    manager: ChromePolicyManager,
    mode: ChromiumIncognitoMode,
    urls: Seq<Seq<char>>,
    contents: Seq<u8>,
    compliant: bool,
    repair_status: ChromePolicyRepairStatus,
)
    requires
        compliant <==> json_canonical(contents) == Some(
            spec_expected_policy(
                manager.extension_spec(),
                manager.update_url_spec(),
                manager.browser_spec(),
                mode,
                urls,
            ),
        ),
        ({
            let members = base_policy_members(manager.extension_spec(), manager.update_url_spec())
                + incognito_members(manager.browser_spec(), mode, urls);
            if json_canonical(contents) == Some(json_object_text(members)) {
                repair_status == ChromePolicyRepairStatus::AlreadyCompliant
            } else {
                repair_status == ChromePolicyRepairStatus::Repaired
            }
        }),
    ensures
        compliant <==> repair_status == ChromePolicyRepairStatus::AlreadyCompliant,
{
}

/// Law: what a repair writes, a second repair with the same settings finds
/// compliant and leaves as it is.
pub proof fn law_second_repair_finds_policy_compliant(
    manager: ChromePolicyManager,
    mode: ChromiumIncognitoMode,
    urls: Seq<Seq<char>>,
    written: Seq<u8>,
    second_status: ChromePolicyRepairStatus,
)
    requires
        json_canonical(written) == Some(
            json_object_text(
                base_policy_members(manager.extension_spec(), manager.update_url_spec())
                    + incognito_members(manager.browser_spec(), mode, urls),
            ),
        ),
        ({
            let members = base_policy_members(manager.extension_spec(), manager.update_url_spec())
                + incognito_members(manager.browser_spec(), mode, urls);
            if json_canonical(written) == Some(json_object_text(members)) {
                second_status == ChromePolicyRepairStatus::AlreadyCompliant
            } else {
                second_status == ChromePolicyRepairStatus::Repaired
            }
        }),
    ensures
        second_status == ChromePolicyRepairStatus::AlreadyCompliant,
{
}

} // verus!
