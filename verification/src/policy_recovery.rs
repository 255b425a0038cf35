use vstd::prelude::*;

use crate::desktop_id::{file_name, file_name_of};
use crate::platform::{path_with_file_name, with_file_name};
use crate::strings::concat3;
use crate::daemon_error::DaemonError;
use crate::text::{append_chars, chars_of, string_from_chars, trim, trim_chars};

verus! {

/// Keeps a copy of the policy outside the daemon's database, so that a lost
/// database can be restored.
#[derive(Debug, Clone)]
pub struct PolicyRecoveryManager {
    path: String,
    enforce_immutable: bool,
}

/// The name of the file beside the recovery snapshot that a new snapshot is
/// written to first: a dot, the snapshot's file name (or
/// "policy-recovery.toml" when the path has none) and ".tmp".
pub open spec fn spec_recovery_temp_path(path: Seq<char>) -> Seq<char> {
    let name = match file_name(path) {
        Some(n) => n,
        None => "policy-recovery.toml"@,
    };
    path_with_file_name(path, "."@ + name + ".tmp"@)
}

/// Where a new recovery snapshot for `path` is written before it replaces
/// the old one.
pub fn recovery_temp_path(path: &str) -> (r: String)
    ensures
        r@ == spec_recovery_temp_path(path@),
{
    let name = match file_name_of(chars_of(path)) {
        Some(n) => string_from_chars(n.as_slice()),
        None => "policy-recovery.toml".to_string(),
    };
    let temp_name = concat3(".", name.as_str(), ".tmp");
    with_file_name(path, temp_name.as_str())
}

/// The name of the file beside `path` that a new version of it is written
/// to first: a dot, its file name (or `default_name` when the path has
/// none), ".blockuntu.", the writing process's id and ".tmp".
pub open spec fn spec_temporary_path(path: Seq<char>, default_name: Seq<char>, pid: u32) -> Seq<char> {
    let name = match file_name(path) {
        Some(n) => n,
        None => default_name,
    };
    path_with_file_name(path, "."@ + name + ".blockuntu."@ + crate::text::decimal(pid as nat) + ".tmp"@)
}

/// Where a new version of the file at `path` is written by process `pid`
/// before it replaces the old one: the hosts file and the browser policy
/// files are written this way.
pub fn temporary_path(path: &str, default_name: &str, pid: u32) -> (r: String)
    ensures
        r@ == spec_temporary_path(path@, default_name@, pid),
{
    let name = match file_name_of(chars_of(path)) {
        Some(n) => string_from_chars(n.as_slice()),
        None => crate::strings::owned(default_name),
    };
    let pid_text = crate::text::u64_to_decimal(pid as u64);
    let head = concat3(".", name.as_str(), ".blockuntu.");
    let temp_name = concat3(head.as_str(), pid_text.as_str(), ".tmp");
    with_file_name(path, temp_name.as_str())
}

impl PolicyRecoveryManager {
    /// The path of the recovery snapshot.
    pub closed spec fn path_spec(&self) -> Seq<char> {
        self.path@
    }

    /// Whether the snapshot must carry the immutable attribute.
    pub closed spec fn enforces_immutable(&self) -> bool {
        self.enforce_immutable
    }

    /// A manager of the snapshot at `path`, kept immutable when
    /// `enforce_immutable` is set.
    pub fn new(path: String, enforce_immutable: bool) -> (r: Self)
        ensures
            r.path_spec() == path@,
            r.enforces_immutable() == enforce_immutable,
    {
        PolicyRecoveryManager { path, enforce_immutable }
    }

    /// The path of the recovery snapshot.
    pub fn path(&self) -> (r: &str)
        ensures
            r@ == self.path_spec(),
    {
        self.path.as_str()
    }

    /// Whether the immutable attribute must be cleared before the snapshot
    /// is replaced: when it is enforced and the snapshot exists.
    pub fn clear_immutable_if_needed(&self, path_exists: bool) -> (r: bool)
        ensures
            r == (self.enforces_immutable() && path_exists),
    {
        self.enforce_immutable && path_exists
    }

    /// Whether the immutable attribute must be set again after a write.
    pub fn set_immutable_if_needed(&self) -> (r: bool)
        ensures
            r == self.enforces_immutable(),
    {
        self.enforce_immutable
    }

    /// Where a new snapshot is written before it replaces the old one.
    pub fn temp_path(&self) -> (r: String)
        ensures
            r@ == spec_recovery_temp_path(self.path_spec()),
    {
        recovery_temp_path(self.path.as_str())
    }
}

/// The error for a failed `chattr` run on the recovery snapshot: the
/// command, its flag and the path, then what it printed on its error
/// output, trimmed, when that is not blank.
pub fn command_error(command: &str, flag: &str, path: &str, stderr: &str) -> (r: DaemonError)
    ensures
        r matches DaemonError::InvalidRequest(m) && m@ == command@ + " "@ + flag@ + " failed for "@
            + path@ + if trim(stderr@).len() == 0 {
            Seq::<char>::empty()
        } else {
            ": "@ + trim(stderr@)
        },
{
    let detail = trim_chars(chars_of(stderr).as_slice());
    let mut message = chars_of(command);
    append_chars(&mut message, chars_of(" ").as_slice());
    append_chars(&mut message, chars_of(flag).as_slice());
    append_chars(&mut message, chars_of(" failed for ").as_slice());
    append_chars(&mut message, chars_of(path).as_slice());
    if detail.len() > 0 {
        append_chars(&mut message, chars_of(": ").as_slice());
        append_chars(&mut message, detail.as_slice());
    }
    DaemonError::InvalidRequest(string_from_chars(message.as_slice()))
}

/// Where the daemon takes its policy from when it starts.
#[derive(Debug, Clone, Copy, PartialEq, Eq, Structural)]
pub enum StartupPolicySource {
    /// The policy stored in the database.
    Database,
    /// The recovery snapshot, which is written back into the database and
    /// recorded as a recovery.
    RecoverySnapshot,
    /// The configuration file of a first start, written into the database.
    ConfigFile,
}

/// Chooses where the starting policy comes from: the database's own policy
/// if it holds one; else the recovery snapshot, if one was found; else, for
/// a database that existed before, nothing (the start fails closed, naming
/// the missing snapshot at `recovery_path`); else, on a first start, the
/// configuration file. The snapshot only matters when the database holds no
/// policy, so a caller need not read it otherwise.
pub fn load_startup_policy(
    database_has_policy: bool,
    recovery_snapshot_found: bool,
    database_preexisting: bool,
    recovery_path: &str,
) -> (r: Result<StartupPolicySource, DaemonError>)
    ensures
        database_has_policy ==> r == Ok::<StartupPolicySource, DaemonError>(StartupPolicySource::Database),
        !database_has_policy && recovery_snapshot_found ==> r == Ok::<StartupPolicySource, DaemonError>(
            StartupPolicySource::RecoverySnapshot,
        ),
        !database_has_policy && !recovery_snapshot_found && database_preexisting ==> (r matches Err(
            DaemonError::MissingPolicyRecovery { recovery_path: p },
        ) && p@ == recovery_path@),
        !database_has_policy && !recovery_snapshot_found && !database_preexisting ==> r == Ok::<
            StartupPolicySource,
            DaemonError,
        >(StartupPolicySource::ConfigFile),
{
    if database_has_policy {
        return Ok(StartupPolicySource::Database);
    }
    if recovery_snapshot_found {
        return Ok(StartupPolicySource::RecoverySnapshot);
    }
    if database_preexisting {
        return Err(DaemonError::MissingPolicyRecovery { recovery_path: crate::strings::owned(recovery_path) });
    }
    Ok(StartupPolicySource::ConfigFile)
}

} // verus!
