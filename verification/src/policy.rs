use vstd::prelude::*;

verus! {

/// How strictly a rule blocks.
#[derive(Debug, Clone, Copy, PartialEq, Eq, Structural)]
pub enum RuleTier {
    /// Tier 1: always blocked while enabled.
    Hard,
    /// Tier 2: blocked while an attached schedule or Detox is active.
    ScheduledBlock,
    /// Tier 3: blocked while a schedule or Detox is active, with an allowance.
    ControlledAccess,
}

/// What a website pattern is matched against.
#[derive(Debug, Clone, Copy, PartialEq, Eq, Structural)]
pub enum RulePatternKind {
    Domain,
    ExactUrl,
    UrlPrefix,
    UrlContains,
    PathPrefix,
}

/// One website pattern of a site list.
#[derive(Debug, Clone, PartialEq, Eq)]
pub struct RulePattern {
    pub kind: RulePatternKind,
    pub value: String,
    pub match_subdomains: bool,
}

/// A site list: a named set of website patterns with a tier.
#[derive(Debug, Clone, PartialEq, Eq)]
pub struct RuleConfig {
    pub id: String,
    pub name: String,
    pub tier: RuleTier,
    pub enabled: bool,
    pub patterns: Vec<RulePattern>,
    pub schedule_ids: Vec<String>,
    pub allowance_id: Option<String>,
}

/// What an application matcher compares.
#[derive(Debug, Clone, Copy, PartialEq, Eq, Structural)]
pub enum AppMatcherKind {
    ExecutableBasename,
    CommandName,
    DesktopId,
    WindowTitleContains,
}

/// One way to recognise an application.
#[derive(Debug, Clone, PartialEq, Eq)]
pub struct AppMatcherConfig {
    pub kind: AppMatcherKind,
    pub value: String,
}

/// An application rule: a named set of matchers with a tier.
#[derive(Debug, Clone, PartialEq, Eq)]
pub struct AppRuleConfig {
    pub id: String,
    pub name: String,
    pub tier: RuleTier,
    pub enabled: bool,
    pub matchers: Vec<AppMatcherConfig>,
    pub schedule_ids: Vec<String>,
    pub allowance_id: Option<String>,
}

/// The strict-mode settings of a policy.
#[derive(Debug, Clone, Copy, PartialEq, Eq, Structural)]
pub struct StrictModeConfig {
    pub kill_supported_browser_if_extension_stale: bool,
    pub require_firefox_extension: bool,
    pub require_chrome_extension: bool,
    pub grace_seconds: u32,
    pub block_unsupported_browsers: bool,
}

/// The part of a blocking policy that the daemon reads here: its site
/// lists, its application rules and its strict-mode settings.
#[derive(Debug, Clone, PartialEq, Eq)]
pub struct PolicyConfig {
    pub rules: Vec<RuleConfig>,
    pub app_rules: Vec<AppRuleConfig>,
    pub strict_mode: StrictModeConfig,
}

} // verus!
