use vstd::prelude::*;
use crate::error::{CoreError, ErrorKind};

verus! {

/// Resource limits of a sandbox; time limits are in whole seconds.
#[derive(Clone, Debug)]
pub struct ResourceLimits {
    pub vcpu: u32,
    pub memory_mb: u64,
    pub disk_mb: u64,
    pub sandbox_ttl_sec: Option<u64>,
    pub idle_ttl_sec: Option<u64>,
}

/// Network rules of a sandbox; only `deny_all` is enforced.
#[derive(Clone, Debug)]
pub struct NetworkPolicy {
    pub deny_all: bool,
    pub allow_domains: Vec<String>,
    pub allow_cidrs: Vec<String>,
}

/// A bind mount from a host path to a guest path.
#[derive(Clone, Debug)]
pub struct MountSpec {
    pub host_path: String,
    pub guest_path: String,
    pub read_only: bool,
}

/// The isolation policy attached to a sandbox for its whole life.
#[derive(Clone, Debug)]
pub struct SandboxPolicy {
    pub network: NetworkPolicy,
    pub mounts: Vec<MountSpec>,
    pub enable_gpu: bool,
    pub enable_snapshotting: bool,
    /// Fail an exec instead of running without a requested capability.
    pub strict_no_fallback: bool,
}

/// Everything a provider needs to create a sandbox.
#[derive(Clone, Debug)]
pub struct SandboxSpec {
    pub base_image: String,
    pub working_dir: String,
    pub limits: ResourceLimits,
    pub policy: SandboxPolicy,
}

/// One command execution request; the timeout is in milliseconds.
#[derive(Clone, Debug)]
pub struct ExecSpec {
    pub argv: Vec<String>,
    pub env: Vec<(String, String)>,
    pub cwd: Option<String>,
    pub timeout_ms: u64,
}

/// The final outcome of an execution.
#[derive(Clone, Debug)]
pub struct ExecResult {
    pub exec_id: String,
    pub exit_code: i32,
}

/// What a provider reports after writing a snapshot.
#[derive(Clone, Debug)]
pub struct SnapshotMeta {
    pub snapshot_id: String,
    pub sandbox_id: String,
    pub size_bytes: u64,
}

/// What a provider reports when probed.
#[derive(Clone, Debug)]
pub struct ProviderHealth {
    pub healthy: bool,
    pub version: Option<String>,
    pub snapshot_capable: bool,
    pub gpu_capable: bool,
}

/// A wire duration in seconds, where zero stands for "no limit".
pub open spec fn spec_optional_secs(secs: u64) -> Option<u64> {
    if secs > 0 { Some(secs) } else { None }
}

fn optional_secs(secs: u64) -> (r: Option<u64>)
    ensures
        r == spec_optional_secs(secs),
{
    if secs > 0 { Some(secs) } else { None }
}

impl ResourceLimits {
    /// Limits used when a request carries none: one vCPU, 2048 MB of memory and of disk.
    pub fn default_limits() -> (r: ResourceLimits)
        ensures
            r.vcpu == 1,
            r.memory_mb == 2048,
            r.disk_mb == 2048,
            r.sandbox_ttl_sec is None,
            r.idle_ttl_sec is None,
    {
        ResourceLimits { vcpu: 1, memory_mb: 2048, disk_mb: 2048, sandbox_ttl_sec: None, idle_ttl_sec: None }
    }

    /// Limits from their wire form, where a time limit of zero means none.
    pub fn from_wire(vcpu: u32, memory_mb: u64, disk_mb: u64, sandbox_ttl_sec: u64, idle_ttl_sec: u64) -> (r: ResourceLimits)
        ensures
            r.vcpu == vcpu,
            r.memory_mb == memory_mb,
            r.disk_mb == disk_mb,
            r.sandbox_ttl_sec == spec_optional_secs(sandbox_ttl_sec),
            r.idle_ttl_sec == spec_optional_secs(idle_ttl_sec),
    {
        ResourceLimits {
            vcpu,
            memory_mb,
            disk_mb,
            sandbox_ttl_sec: optional_secs(sandbox_ttl_sec),
            idle_ttl_sec: optional_secs(idle_ttl_sec),
        }
    }
}

impl NetworkPolicy {
    /// A network policy that denies nothing and allows no named destination.
    pub fn open_network() -> (r: NetworkPolicy)
        ensures
            !r.deny_all,
            r.allow_domains@.len() == 0,
            r.allow_cidrs@.len() == 0,
    {
        NetworkPolicy { deny_all: false, allow_domains: Vec::new(), allow_cidrs: Vec::new() }
    }
}

impl SandboxPolicy {
    /// The policy used when a request carries none: open network, no mounts, no GPU, no snapshots.
    pub fn default_policy() -> (r: SandboxPolicy)
        ensures
            !r.network.deny_all,
            r.network.allow_domains@.len() == 0,
            r.network.allow_cidrs@.len() == 0,
            r.mounts@.len() == 0,
            !r.enable_gpu,
            !r.enable_snapshotting,
            !r.strict_no_fallback,
    {
        SandboxPolicy {
            network: NetworkPolicy::open_network(),
            mounts: Vec::new(),
            enable_gpu: false,
            enable_snapshotting: false,
            strict_no_fallback: false,
        }
    }
}

impl ExecSpec {
    /// An exec request from its wire form: the argument list must not be empty, an empty
    /// working directory means the sandbox default, and the timeout is at least one millisecond.
    pub fn from_wire(argv: Vec<String>, env: Vec<(String, String)>, cwd: String, timeout_ms: u64) -> (r: Result<ExecSpec, CoreError>)
        ensures
            argv@.len() == 0 <==> r is Err,
            r is Err ==> r->Err_0.kind == ErrorKind::Invalid,
            r is Ok ==> {
                let s = r->Ok_0;
                &&& s.argv@ == argv@
                &&& s.env@ == env@
                &&& (cwd@.len() == 0 ==> s.cwd is None)
                &&& (cwd@.len() > 0 ==> s.cwd is Some && s.cwd->Some_0@ == cwd@)
                &&& s.timeout_ms == if timeout_ms == 0 { 1 } else { timeout_ms }
            },
    {
        if argv.len() == 0 {
            return Err(CoreError::new(ErrorKind::Invalid, "exec argv must not be empty"));
        }
        let cwd_opt = if cwd.unicode_len() == 0 { None } else { Some(cwd) };
        let timeout: u64 = if timeout_ms == 0 { 1 } else { timeout_ms };
        Ok(ExecSpec { argv, env, cwd: cwd_opt, timeout_ms: timeout })
    }
}

} // verus!
