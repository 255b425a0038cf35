use vstd::prelude::*;

use crate::daemon_error::DaemonError;
use crate::strings::{owned, str_equal};

verus! {

/// A method of the daemon's JSON-RPC interface.
#[derive(Debug, Clone, Copy, PartialEq, Eq, Structural)]
pub enum RpcMethod {
    Status,
    EnforcementStatus,
    ClockIntegrityStatus,
    PrepareUninstall,
    ConfigSnapshot,
    ExportPolicyToml,
    ImportPolicyToml,
    UpsertSiteList,
    DeleteSiteList,
    UpsertAllowance,
    DeleteAllowance,
    UpsertAppRule,
    DeleteAppRule,
    UpsertSchedule,
    DeleteSchedule,
    StartDetox,
    CancelDetox,
    DetoxSessions,
    LogSummary,
    ScheduleActivitySummary,
    NotificationPreferences,
    SetNotificationPreferences,
    PendingNotifications,
    AcknowledgeNotifications,
    RecordNotificationDelivery,
    RunningApps,
    EvaluateUrl,
    RequestUnlock,
    UnlockTier1Edit,
    ConfigureTier1EditCredential,
    SetOperatorWindowRestriction,
    SetProtectedAccessMode,
    SetUnsupportedBrowserBlockMode,
    SetChromiumIncognitoMode,
    SetChromiumIncognitoDisableScope,
    SetChromiumIncognitoChangeAccessMode,
    HideRecoveryCredentials,
    Tier1EditStatus,
    RecordVisitStart,
    RecordVisitHeartbeat,
    RecordVisitEnd,
    ExtensionHeartbeat,
    ExtensionStatus,
}

impl RpcMethod {
    /// The name under which a client calls the method.
    pub open spec fn spec_name(self) -> Seq<char> {
        match self {
            RpcMethod::Status => "status"@,
            RpcMethod::EnforcementStatus => "enforcement_status"@,
            RpcMethod::ClockIntegrityStatus => "clock_integrity_status"@,
            RpcMethod::PrepareUninstall => "prepare_uninstall"@,
            RpcMethod::ConfigSnapshot => "config_snapshot"@,
            RpcMethod::ExportPolicyToml => "export_policy_toml"@,
            RpcMethod::ImportPolicyToml => "import_policy_toml"@,
            RpcMethod::UpsertSiteList => "upsert_site_list"@,
            RpcMethod::DeleteSiteList => "delete_site_list"@,
            RpcMethod::UpsertAllowance => "upsert_allowance"@,
            RpcMethod::DeleteAllowance => "delete_allowance"@,
            RpcMethod::UpsertAppRule => "upsert_app_rule"@,
            RpcMethod::DeleteAppRule => "delete_app_rule"@,
            RpcMethod::UpsertSchedule => "upsert_schedule"@,
            RpcMethod::DeleteSchedule => "delete_schedule"@,
            RpcMethod::StartDetox => "start_detox"@,
            RpcMethod::CancelDetox => "cancel_detox"@,
            RpcMethod::DetoxSessions => "detox_sessions"@,
            RpcMethod::LogSummary => "log_summary"@,
            RpcMethod::ScheduleActivitySummary => "schedule_activity_summary"@,
            RpcMethod::NotificationPreferences => "notification_preferences"@,
            RpcMethod::SetNotificationPreferences => "set_notification_preferences"@,
            RpcMethod::PendingNotifications => "pending_notifications"@,
            RpcMethod::AcknowledgeNotifications => "acknowledge_notifications"@,
            RpcMethod::RecordNotificationDelivery => "record_notification_delivery"@,
            RpcMethod::RunningApps => "running_apps"@,
            RpcMethod::EvaluateUrl => "evaluate_url"@,
            RpcMethod::RequestUnlock => "request_unlock"@,
            RpcMethod::UnlockTier1Edit => "unlock_tier1_edit"@,
            RpcMethod::ConfigureTier1EditCredential => "configure_tier1_edit_credential"@,
            RpcMethod::SetOperatorWindowRestriction => "set_operator_window_restriction"@,
            RpcMethod::SetProtectedAccessMode => "set_protected_access_mode"@,
            RpcMethod::SetUnsupportedBrowserBlockMode => "set_unsupported_browser_block_mode"@,
            RpcMethod::SetChromiumIncognitoMode => "set_chromium_incognito_mode"@,
            RpcMethod::SetChromiumIncognitoDisableScope => "set_chromium_incognito_disable_scope"@,
            RpcMethod::SetChromiumIncognitoChangeAccessMode => "set_chromium_incognito_change_access_mode"@,
            RpcMethod::HideRecoveryCredentials => "hide_recovery_credentials"@,
            RpcMethod::Tier1EditStatus => "tier1_edit_status"@,
            RpcMethod::RecordVisitStart => "record_visit_start"@,
            RpcMethod::RecordVisitHeartbeat => "record_visit_heartbeat"@,
            RpcMethod::RecordVisitEnd => "record_visit_end"@,
            RpcMethod::ExtensionHeartbeat => "extension_heartbeat"@,
            RpcMethod::ExtensionStatus => "extension_status"@,
        }
    }

    /// The name under which a client calls the method.
    pub fn name(self) -> (r: &'static str)
        ensures
            r@ == self.spec_name(),
    {
        match self {
            RpcMethod::Status => "status",
            RpcMethod::EnforcementStatus => "enforcement_status",
            RpcMethod::ClockIntegrityStatus => "clock_integrity_status",
            RpcMethod::PrepareUninstall => "prepare_uninstall",
            RpcMethod::ConfigSnapshot => "config_snapshot",
            RpcMethod::ExportPolicyToml => "export_policy_toml",
            RpcMethod::ImportPolicyToml => "import_policy_toml",
            RpcMethod::UpsertSiteList => "upsert_site_list",
            RpcMethod::DeleteSiteList => "delete_site_list",
            RpcMethod::UpsertAllowance => "upsert_allowance",
            RpcMethod::DeleteAllowance => "delete_allowance",
            RpcMethod::UpsertAppRule => "upsert_app_rule",
            RpcMethod::DeleteAppRule => "delete_app_rule",
            RpcMethod::UpsertSchedule => "upsert_schedule",
            RpcMethod::DeleteSchedule => "delete_schedule",
            RpcMethod::StartDetox => "start_detox",
            RpcMethod::CancelDetox => "cancel_detox",
            RpcMethod::DetoxSessions => "detox_sessions",
            RpcMethod::LogSummary => "log_summary",
            RpcMethod::ScheduleActivitySummary => "schedule_activity_summary",
            RpcMethod::NotificationPreferences => "notification_preferences",
            RpcMethod::SetNotificationPreferences => "set_notification_preferences",
            RpcMethod::PendingNotifications => "pending_notifications",
            RpcMethod::AcknowledgeNotifications => "acknowledge_notifications",
            RpcMethod::RecordNotificationDelivery => "record_notification_delivery",
            RpcMethod::RunningApps => "running_apps",
            RpcMethod::EvaluateUrl => "evaluate_url",
            RpcMethod::RequestUnlock => "request_unlock",
            RpcMethod::UnlockTier1Edit => "unlock_tier1_edit",
            RpcMethod::ConfigureTier1EditCredential => "configure_tier1_edit_credential",
            RpcMethod::SetOperatorWindowRestriction => "set_operator_window_restriction",
            RpcMethod::SetProtectedAccessMode => "set_protected_access_mode",
            RpcMethod::SetUnsupportedBrowserBlockMode => "set_unsupported_browser_block_mode",
            RpcMethod::SetChromiumIncognitoMode => "set_chromium_incognito_mode",
            RpcMethod::SetChromiumIncognitoDisableScope => "set_chromium_incognito_disable_scope",
            RpcMethod::SetChromiumIncognitoChangeAccessMode => "set_chromium_incognito_change_access_mode",
            RpcMethod::HideRecoveryCredentials => "hide_recovery_credentials",
            RpcMethod::Tier1EditStatus => "tier1_edit_status",
            RpcMethod::RecordVisitStart => "record_visit_start",
            RpcMethod::RecordVisitHeartbeat => "record_visit_heartbeat",
            RpcMethod::RecordVisitEnd => "record_visit_end",
            RpcMethod::ExtensionHeartbeat => "extension_heartbeat",
            RpcMethod::ExtensionStatus => "extension_status",
        }
    }
}

/// Every method of the interface, in the order the daemon tries them.
pub open spec fn spec_rpc_methods() -> Seq<RpcMethod> {
    seq![
        RpcMethod::Status,
        RpcMethod::EnforcementStatus,
        RpcMethod::ClockIntegrityStatus,
        RpcMethod::PrepareUninstall,
        RpcMethod::ConfigSnapshot,
        RpcMethod::ExportPolicyToml,
        RpcMethod::ImportPolicyToml,
        RpcMethod::UpsertSiteList,
        RpcMethod::DeleteSiteList,
        RpcMethod::UpsertAllowance,
        RpcMethod::DeleteAllowance,
        RpcMethod::UpsertAppRule,
        RpcMethod::DeleteAppRule,
        RpcMethod::UpsertSchedule,
        RpcMethod::DeleteSchedule,
        RpcMethod::StartDetox,
        RpcMethod::CancelDetox,
        RpcMethod::DetoxSessions,
        RpcMethod::LogSummary,
        RpcMethod::ScheduleActivitySummary,
        RpcMethod::NotificationPreferences,
        RpcMethod::SetNotificationPreferences,
        RpcMethod::PendingNotifications,
        RpcMethod::AcknowledgeNotifications,
        RpcMethod::RecordNotificationDelivery,
        RpcMethod::RunningApps,
        RpcMethod::EvaluateUrl,
        RpcMethod::RequestUnlock,
        RpcMethod::UnlockTier1Edit,
        RpcMethod::ConfigureTier1EditCredential,
        RpcMethod::SetOperatorWindowRestriction,
        RpcMethod::SetProtectedAccessMode,
        RpcMethod::SetUnsupportedBrowserBlockMode,
        RpcMethod::SetChromiumIncognitoMode,
        RpcMethod::SetChromiumIncognitoDisableScope,
        RpcMethod::SetChromiumIncognitoChangeAccessMode,
        RpcMethod::HideRecoveryCredentials,
        RpcMethod::Tier1EditStatus,
        RpcMethod::RecordVisitStart,
        RpcMethod::RecordVisitHeartbeat,
        RpcMethod::RecordVisitEnd,
        RpcMethod::ExtensionHeartbeat,
        RpcMethod::ExtensionStatus,
    ]
}

/// Every method of the interface.
pub fn rpc_methods() -> (r: Vec<RpcMethod>)
    ensures
        r@ == spec_rpc_methods(),
{
    let r = vec![
        RpcMethod::Status,
        RpcMethod::EnforcementStatus,
        RpcMethod::ClockIntegrityStatus,
        RpcMethod::PrepareUninstall,
        RpcMethod::ConfigSnapshot,
        RpcMethod::ExportPolicyToml,
        RpcMethod::ImportPolicyToml,
        RpcMethod::UpsertSiteList,
        RpcMethod::DeleteSiteList,
        RpcMethod::UpsertAllowance,
        RpcMethod::DeleteAllowance,
        RpcMethod::UpsertAppRule,
        RpcMethod::DeleteAppRule,
        RpcMethod::UpsertSchedule,
        RpcMethod::DeleteSchedule,
        RpcMethod::StartDetox,
        RpcMethod::CancelDetox,
        RpcMethod::DetoxSessions,
        RpcMethod::LogSummary,
        RpcMethod::ScheduleActivitySummary,
        RpcMethod::NotificationPreferences,
        RpcMethod::SetNotificationPreferences,
        RpcMethod::PendingNotifications,
        RpcMethod::AcknowledgeNotifications,
        RpcMethod::RecordNotificationDelivery,
        RpcMethod::RunningApps,
        RpcMethod::EvaluateUrl,
        RpcMethod::RequestUnlock,
        RpcMethod::UnlockTier1Edit,
        RpcMethod::ConfigureTier1EditCredential,
        RpcMethod::SetOperatorWindowRestriction,
        RpcMethod::SetProtectedAccessMode,
        RpcMethod::SetUnsupportedBrowserBlockMode,
        RpcMethod::SetChromiumIncognitoMode,
        RpcMethod::SetChromiumIncognitoDisableScope,
        RpcMethod::SetChromiumIncognitoChangeAccessMode,
        RpcMethod::HideRecoveryCredentials,
        RpcMethod::Tier1EditStatus,
        RpcMethod::RecordVisitStart,
        RpcMethod::RecordVisitHeartbeat,
        RpcMethod::RecordVisitEnd,
        RpcMethod::ExtensionHeartbeat,
        RpcMethod::ExtensionStatus,
    ];
    assert(r@ =~= spec_rpc_methods());
    r
}

/// Every method is in the list of methods.
proof fn lemma_every_method_is_listed(m: RpcMethod)
    ensures
        spec_rpc_methods().contains(m),
{
    let all = spec_rpc_methods();
    let i: int = match m {
        RpcMethod::Status => 0,
        RpcMethod::EnforcementStatus => 1,
        RpcMethod::ClockIntegrityStatus => 2,
        RpcMethod::PrepareUninstall => 3,
        RpcMethod::ConfigSnapshot => 4,
        RpcMethod::ExportPolicyToml => 5,
        RpcMethod::ImportPolicyToml => 6,
        RpcMethod::UpsertSiteList => 7,
        RpcMethod::DeleteSiteList => 8,
        RpcMethod::UpsertAllowance => 9,
        RpcMethod::DeleteAllowance => 10,
        RpcMethod::UpsertAppRule => 11,
        RpcMethod::DeleteAppRule => 12,
        RpcMethod::UpsertSchedule => 13,
        RpcMethod::DeleteSchedule => 14,
        RpcMethod::StartDetox => 15,
        RpcMethod::CancelDetox => 16,
        RpcMethod::DetoxSessions => 17,
        RpcMethod::LogSummary => 18,
        RpcMethod::ScheduleActivitySummary => 19,
        RpcMethod::NotificationPreferences => 20,
        RpcMethod::SetNotificationPreferences => 21,
        RpcMethod::PendingNotifications => 22,
        RpcMethod::AcknowledgeNotifications => 23,
        RpcMethod::RecordNotificationDelivery => 24,
        RpcMethod::RunningApps => 25,
        RpcMethod::EvaluateUrl => 26,
        RpcMethod::RequestUnlock => 27,
        RpcMethod::UnlockTier1Edit => 28,
        RpcMethod::ConfigureTier1EditCredential => 29,
        RpcMethod::SetOperatorWindowRestriction => 30,
        RpcMethod::SetProtectedAccessMode => 31,
        RpcMethod::SetUnsupportedBrowserBlockMode => 32,
        RpcMethod::SetChromiumIncognitoMode => 33,
        RpcMethod::SetChromiumIncognitoDisableScope => 34,
        RpcMethod::SetChromiumIncognitoChangeAccessMode => 35,
        RpcMethod::HideRecoveryCredentials => 36,
        RpcMethod::Tier1EditStatus => 37,
        RpcMethod::RecordVisitStart => 38,
        RpcMethod::RecordVisitHeartbeat => 39,
        RpcMethod::RecordVisitEnd => 40,
        RpcMethod::ExtensionHeartbeat => 41,
        RpcMethod::ExtensionStatus => 42,
    };
    assert(all[i] == m);
}

/// The method that a request names: the one whose name it is, or, when no
/// method has that name, an unsupported-method error that quotes it.
pub fn rpc_method(name: &str) -> (r: Result<RpcMethod, DaemonError>)
    ensures
        match r {
            Ok(m) => m.spec_name() == name@,
            Err(e) => e matches DaemonError::UnsupportedMethod(n) && n@ == name@ && forall|m: RpcMethod|
                #[trigger] m.spec_name() != name@,
        },
{
    let methods = rpc_methods();
    let mut i: usize = 0;
    while i < methods.len()
        invariant
            i <= methods@.len(),
            methods@ == spec_rpc_methods(),
            forall|j: int| 0 <= j < i ==> (#[trigger] methods@[j]).spec_name() != name@,
        decreases methods@.len() - i,
    {
        let m = methods[i];
        if str_equal(m.name(), name) {
            return Ok(m);
        }
        i = i + 1;
    }
    assert forall|m: RpcMethod| #[trigger] m.spec_name() != name@ by {
        lemma_every_method_is_listed(m);
        let j = choose|j: int| 0 <= j < spec_rpc_methods().len() && spec_rpc_methods()[j] == m;
        assert(methods@[j] == m);
    }
    Err(DaemonError::UnsupportedMethod(owned(name)))
}

/// The method with a given name, if one has it: the first in the order of
/// the interface.
pub open spec fn spec_method_named(name: Seq<char>) -> Option<RpcMethod> {
    if name == "status"@ {
        Some(RpcMethod::Status)
    } else if name == "enforcement_status"@ {
        Some(RpcMethod::EnforcementStatus)
    } else if name == "clock_integrity_status"@ {
        Some(RpcMethod::ClockIntegrityStatus)
    } else if name == "prepare_uninstall"@ {
        Some(RpcMethod::PrepareUninstall)
    } else if name == "config_snapshot"@ {
        Some(RpcMethod::ConfigSnapshot)
    } else if name == "export_policy_toml"@ {
        Some(RpcMethod::ExportPolicyToml)
    } else if name == "import_policy_toml"@ {
        Some(RpcMethod::ImportPolicyToml)
    } else if name == "upsert_site_list"@ {
        Some(RpcMethod::UpsertSiteList)
    } else if name == "delete_site_list"@ {
        Some(RpcMethod::DeleteSiteList)
    } else if name == "upsert_allowance"@ {
        Some(RpcMethod::UpsertAllowance)
    } else if name == "delete_allowance"@ {
        Some(RpcMethod::DeleteAllowance)
    } else if name == "upsert_app_rule"@ {
        Some(RpcMethod::UpsertAppRule)
    } else if name == "delete_app_rule"@ {
        Some(RpcMethod::DeleteAppRule)
    } else if name == "upsert_schedule"@ {
        Some(RpcMethod::UpsertSchedule)
    } else if name == "delete_schedule"@ {
        Some(RpcMethod::DeleteSchedule)
    } else if name == "start_detox"@ {
        Some(RpcMethod::StartDetox)
    } else if name == "cancel_detox"@ {
        Some(RpcMethod::CancelDetox)
    } else if name == "detox_sessions"@ {
        Some(RpcMethod::DetoxSessions)
    } else if name == "log_summary"@ {
        Some(RpcMethod::LogSummary)
    } else if name == "schedule_activity_summary"@ {
        Some(RpcMethod::ScheduleActivitySummary)
    } else if name == "notification_preferences"@ {
        Some(RpcMethod::NotificationPreferences)
    } else if name == "set_notification_preferences"@ {
        Some(RpcMethod::SetNotificationPreferences)
    } else if name == "pending_notifications"@ {
        Some(RpcMethod::PendingNotifications)
    } else if name == "acknowledge_notifications"@ {
        Some(RpcMethod::AcknowledgeNotifications)
    } else if name == "record_notification_delivery"@ {
        Some(RpcMethod::RecordNotificationDelivery)
    } else if name == "running_apps"@ {
        Some(RpcMethod::RunningApps)
    } else if name == "evaluate_url"@ {
        Some(RpcMethod::EvaluateUrl)
    } else if name == "request_unlock"@ {
        Some(RpcMethod::RequestUnlock)
    } else if name == "unlock_tier1_edit"@ {
        Some(RpcMethod::UnlockTier1Edit)
    } else if name == "configure_tier1_edit_credential"@ {
        Some(RpcMethod::ConfigureTier1EditCredential)
    } else if name == "set_operator_window_restriction"@ {
        Some(RpcMethod::SetOperatorWindowRestriction)
    } else if name == "set_protected_access_mode"@ {
        Some(RpcMethod::SetProtectedAccessMode)
    } else if name == "set_unsupported_browser_block_mode"@ {
        Some(RpcMethod::SetUnsupportedBrowserBlockMode)
    } else if name == "set_chromium_incognito_mode"@ {
        Some(RpcMethod::SetChromiumIncognitoMode)
    } else if name == "set_chromium_incognito_disable_scope"@ {
        Some(RpcMethod::SetChromiumIncognitoDisableScope)
    } else if name == "set_chromium_incognito_change_access_mode"@ {
        Some(RpcMethod::SetChromiumIncognitoChangeAccessMode)
    } else if name == "hide_recovery_credentials"@ {
        Some(RpcMethod::HideRecoveryCredentials)
    } else if name == "tier1_edit_status"@ {
        Some(RpcMethod::Tier1EditStatus)
    } else if name == "record_visit_start"@ {
        Some(RpcMethod::RecordVisitStart)
    } else if name == "record_visit_heartbeat"@ {
        Some(RpcMethod::RecordVisitHeartbeat)
    } else if name == "record_visit_end"@ {
        Some(RpcMethod::RecordVisitEnd)
    } else if name == "extension_heartbeat"@ {
        Some(RpcMethod::ExtensionHeartbeat)
    } else if name == "extension_status"@ {
        Some(RpcMethod::ExtensionStatus)
    } else {
        None
    }
}

/// Each method is the one its name leads to.
proof fn lemma_name_leads_to_method(m: RpcMethod)
    ensures
        spec_method_named(m.spec_name()) == Some(m),
{
    reveal_strlit("status");
    reveal_strlit("enforcement_status");
    reveal_strlit("clock_integrity_status");
    reveal_strlit("prepare_uninstall");
    reveal_strlit("config_snapshot");
    reveal_strlit("export_policy_toml");
    reveal_strlit("import_policy_toml");
    reveal_strlit("upsert_site_list");
    reveal_strlit("delete_site_list");
    reveal_strlit("upsert_allowance");
    reveal_strlit("delete_allowance");
    reveal_strlit("upsert_app_rule");
    reveal_strlit("delete_app_rule");
    reveal_strlit("upsert_schedule");
    reveal_strlit("delete_schedule");
    reveal_strlit("start_detox");
    reveal_strlit("cancel_detox");
    reveal_strlit("detox_sessions");
    reveal_strlit("log_summary");
    reveal_strlit("schedule_activity_summary");
    reveal_strlit("notification_preferences");
    reveal_strlit("set_notification_preferences");
    reveal_strlit("pending_notifications");
    reveal_strlit("acknowledge_notifications");
    reveal_strlit("record_notification_delivery");
    reveal_strlit("running_apps");
    reveal_strlit("evaluate_url");
    reveal_strlit("request_unlock");
    reveal_strlit("unlock_tier1_edit");
    reveal_strlit("configure_tier1_edit_credential");
    reveal_strlit("set_operator_window_restriction");
    reveal_strlit("set_protected_access_mode");
    reveal_strlit("set_unsupported_browser_block_mode");
    reveal_strlit("set_chromium_incognito_mode");
    reveal_strlit("set_chromium_incognito_disable_scope");
    reveal_strlit("set_chromium_incognito_change_access_mode");
    reveal_strlit("hide_recovery_credentials");
    reveal_strlit("tier1_edit_status");
    reveal_strlit("record_visit_start");
    reveal_strlit("record_visit_heartbeat");
    reveal_strlit("record_visit_end");
    reveal_strlit("extension_heartbeat");
    reveal_strlit("extension_status");
    assert("status"@.len() == 6);
    assert("enforcement_status"@.len() == 18);
    assert("clock_integrity_status"@.len() == 22);
    assert("prepare_uninstall"@.len() == 17);
    assert("config_snapshot"@.len() == 15);
    assert("export_policy_toml"@.len() == 18);
    assert("import_policy_toml"@.len() == 18);
    assert("upsert_site_list"@.len() == 16);
    assert("delete_site_list"@.len() == 16);
    assert("upsert_allowance"@.len() == 16);
    assert("delete_allowance"@.len() == 16);
    assert("upsert_app_rule"@.len() == 15);
    assert("delete_app_rule"@.len() == 15);
    assert("upsert_schedule"@.len() == 15);
    assert("delete_schedule"@.len() == 15);
    assert("start_detox"@.len() == 11);
    assert("cancel_detox"@.len() == 12);
    assert("detox_sessions"@.len() == 14);
    assert("log_summary"@.len() == 11);
    assert("schedule_activity_summary"@.len() == 25);
    assert("notification_preferences"@.len() == 24);
    assert("set_notification_preferences"@.len() == 28);
    assert("pending_notifications"@.len() == 21);
    assert("acknowledge_notifications"@.len() == 25);
    assert("record_notification_delivery"@.len() == 28);
    assert("running_apps"@.len() == 12);
    assert("evaluate_url"@.len() == 12);
    assert("request_unlock"@.len() == 14);
    assert("unlock_tier1_edit"@.len() == 17);
    assert("configure_tier1_edit_credential"@.len() == 31);
    assert("set_operator_window_restriction"@.len() == 31);
    assert("set_protected_access_mode"@.len() == 25);
    assert("set_unsupported_browser_block_mode"@.len() == 34);
    assert("set_chromium_incognito_mode"@.len() == 27);
    assert("set_chromium_incognito_disable_scope"@.len() == 36);
    assert("set_chromium_incognito_change_access_mode"@.len() == 41);
    assert("hide_recovery_credentials"@.len() == 25);
    assert("tier1_edit_status"@.len() == 17);
    assert("record_visit_start"@.len() == 18);
    assert("record_visit_heartbeat"@.len() == 22);
    assert("record_visit_end"@.len() == 16);
    assert("extension_heartbeat"@.len() == 19);
    assert("extension_status"@.len() == 16);
    assert("acknowledge_notifications"@[0] == 'a');
    assert("cancel_detox"@[0] == 'c');
    assert("clock_integrity_status"@[0] == 'c');
    assert("config_snapshot"@[0] == 'c');
    assert("configure_tier1_edit_credential"@[0] == 'c');
    assert("delete_allowance"@[0] == 'd');
    assert("delete_allowance"@[7] == 'a');
    assert("delete_app_rule"@[0] == 'd');
    assert("delete_app_rule"@[7] == 'a');
    assert("delete_schedule"@[0] == 'd');
    assert("delete_schedule"@[7] == 's');
    assert("delete_site_list"@[0] == 'd');
    assert("delete_site_list"@[7] == 's');
    assert("detox_sessions"@[0] == 'd');
    assert("enforcement_status"@[0] == 'e');
    assert("enforcement_status"@[1] == 'n');
    assert("evaluate_url"@[0] == 'e');
    assert("export_policy_toml"@[0] == 'e');
    assert("export_policy_toml"@[1] == 'x');
    assert("extension_status"@[0] == 'e');
    assert("hide_recovery_credentials"@[0] == 'h');
    assert("import_policy_toml"@[0] == 'i');
    assert("log_summary"@[0] == 'l');
    assert("prepare_uninstall"@[0] == 'p');
    assert("record_notification_delivery"@[0] == 'r');
    assert("record_visit_end"@[0] == 'r');
    assert("record_visit_heartbeat"@[0] == 'r');
    assert("record_visit_start"@[0] == 'r');
    assert("request_unlock"@[0] == 'r');
    assert("running_apps"@[0] == 'r');
    assert("schedule_activity_summary"@[0] == 's');
    assert("schedule_activity_summary"@[1] == 'c');
    assert("set_notification_preferences"@[0] == 's');
    assert("set_operator_window_restriction"@[0] == 's');
    assert("set_protected_access_mode"@[0] == 's');
    assert("set_protected_access_mode"@[1] == 'e');
    assert("start_detox"@[0] == 's');
    assert("tier1_edit_status"@[0] == 't');
    assert("unlock_tier1_edit"@[0] == 'u');
    assert("upsert_allowance"@[0] == 'u');
    assert("upsert_allowance"@[7] == 'a');
    assert("upsert_app_rule"@[0] == 'u');
    assert("upsert_app_rule"@[7] == 'a');
    assert("upsert_schedule"@[0] == 'u');
    assert("upsert_schedule"@[7] == 's');
    assert("upsert_site_list"@[0] == 'u');
    assert("upsert_site_list"@[7] == 's');
    match m {
        RpcMethod::Status => {},
        RpcMethod::EnforcementStatus => {},
        RpcMethod::ClockIntegrityStatus => {},
        RpcMethod::PrepareUninstall => {},
        RpcMethod::ConfigSnapshot => {},
        RpcMethod::ExportPolicyToml => {},
        RpcMethod::ImportPolicyToml => {},
        RpcMethod::UpsertSiteList => {},
        RpcMethod::DeleteSiteList => {},
        RpcMethod::UpsertAllowance => {},
        RpcMethod::DeleteAllowance => {},
        RpcMethod::UpsertAppRule => {},
        RpcMethod::DeleteAppRule => {},
        RpcMethod::UpsertSchedule => {},
        RpcMethod::DeleteSchedule => {},
        RpcMethod::StartDetox => {},
        RpcMethod::CancelDetox => {},
        RpcMethod::DetoxSessions => {},
        RpcMethod::LogSummary => {},
        RpcMethod::ScheduleActivitySummary => {},
        RpcMethod::NotificationPreferences => {},
        RpcMethod::SetNotificationPreferences => {},
        RpcMethod::PendingNotifications => {},
        RpcMethod::AcknowledgeNotifications => {},
        RpcMethod::RecordNotificationDelivery => {},
        RpcMethod::RunningApps => {},
        RpcMethod::EvaluateUrl => {},
        RpcMethod::RequestUnlock => {},
        RpcMethod::UnlockTier1Edit => {},
        RpcMethod::ConfigureTier1EditCredential => {},
        RpcMethod::SetOperatorWindowRestriction => {},
        RpcMethod::SetProtectedAccessMode => {},
        RpcMethod::SetUnsupportedBrowserBlockMode => {},
        RpcMethod::SetChromiumIncognitoMode => {},
        RpcMethod::SetChromiumIncognitoDisableScope => {},
        RpcMethod::SetChromiumIncognitoChangeAccessMode => {},
        RpcMethod::HideRecoveryCredentials => {},
        RpcMethod::Tier1EditStatus => {},
        RpcMethod::RecordVisitStart => {},
        RpcMethod::RecordVisitHeartbeat => {},
        RpcMethod::RecordVisitEnd => {},
        RpcMethod::ExtensionHeartbeat => {},
        RpcMethod::ExtensionStatus => {},
    }
}

/// No two methods share a name, so a request that names a method reaches
/// exactly that method.
pub proof fn law_method_names_are_distinct(a: RpcMethod, b: RpcMethod)
    ensures
        a.spec_name() == b.spec_name() ==> a == b,
{
    lemma_name_leads_to_method(a);
    lemma_name_leads_to_method(b);
}

} // verus!
