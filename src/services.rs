use vstd::prelude::*;
use crate::error::{CoreError, ErrorKind};
use crate::store::SnapshotStore;
use crate::types::{ExecSpec, MountSpec, NetworkPolicy, ProviderHealth, ResourceLimits, SandboxPolicy, SandboxSpec, spec_optional_secs};

verus! {

/// Resource limits as a request carries them; a time limit of zero means none.
pub struct LimitsRequest {
    pub vcpu: u32,
    pub memory_mb: u64,
    pub disk_mb: u64,
    pub sandbox_ttl_sec: u64,
    pub idle_ttl_sec: u64,
}

/// A policy as a request carries it; absent parts take their defaults.
pub struct PolicyRequest {
    pub network: Option<NetworkPolicy>,
    pub mounts: Option<Vec<MountSpec>>,
    pub enable_gpu: bool,
    pub enable_snapshotting: bool,
    pub strict_no_fallback: bool,
}

/// Lifecycle state of a sandbox as clients see it.
#[derive(Clone, Copy, Debug, PartialEq, Eq, Structural)]
pub enum SandboxStatus {
    Created,
    Ready,
    Stopped,
    Destroyed,
}

/// A sandbox as the services report it.
pub struct SandboxRecord {
    pub sandbox_id: String,
    pub status: SandboxStatus,
    pub spec: Option<SandboxSpec>,
}

/// Handles sandbox lifecycle requests against a provider.
pub struct SandboxService<P> {
    provider: P,
}

/// Handles exec requests against a provider.
pub struct ExecutionService<P> {
    provider: P,
}

/// Handles snapshot requests against a provider, a catalog and a store.
pub struct SnapshotService<P, D> {
    provider: P,
    db: D,
    store: SnapshotStore,
}

impl<P> SandboxService<P> {
    /// A service over the given provider.
    pub fn new(provider: P) -> (r: Self)
        ensures
            r.provider() == provider,
    {
        SandboxService { provider }
    }

    pub closed spec fn provider(&self) -> P {
        self.provider
    }

    /// The provider this service drives.
    pub fn provider_ref(&self) -> (r: &P)
        ensures
            *r == self.provider(),
    {
        &self.provider
    }

    /// The sandbox spec handed to the provider: limits and policy from the request, or
    /// their defaults (one vCPU, 2048 MB of memory and disk; open network, no mounts, no
    /// GPU, no snapshots) where the request has none.
    pub fn provider_spec(base_image: String, working_dir: String, limits: Option<LimitsRequest>, policy: Option<PolicyRequest>) -> (r: SandboxSpec)
        ensures
            r.base_image@ == base_image@,
            r.working_dir@ == working_dir@,
            match limits {
                Some(l) => r.limits.vcpu == l.vcpu && r.limits.memory_mb == l.memory_mb && r.limits.disk_mb == l.disk_mb
                    && r.limits.sandbox_ttl_sec == spec_optional_secs(l.sandbox_ttl_sec)
                    && r.limits.idle_ttl_sec == spec_optional_secs(l.idle_ttl_sec),
                None => r.limits.vcpu == 1 && r.limits.memory_mb == 2048 && r.limits.disk_mb == 2048
                    && r.limits.sandbox_ttl_sec is None && r.limits.idle_ttl_sec is None,
            },
            match policy {
                Some(p) => {
                    &&& (p.network is Some ==> r.policy.network == p.network->Some_0)
                    &&& (p.network is None ==> !r.policy.network.deny_all && r.policy.network.allow_domains@.len() == 0
                        && r.policy.network.allow_cidrs@.len() == 0)
                    &&& (p.mounts is Some ==> r.policy.mounts@ == p.mounts->Some_0@)
                    &&& (p.mounts is None ==> r.policy.mounts@.len() == 0)
                    &&& r.policy.enable_gpu == p.enable_gpu
                    &&& r.policy.enable_snapshotting == p.enable_snapshotting
                    &&& r.policy.strict_no_fallback == p.strict_no_fallback
                },
                None => !r.policy.network.deny_all && r.policy.network.allow_domains@.len() == 0
                    && r.policy.network.allow_cidrs@.len() == 0 && r.policy.mounts@.len() == 0
                    && !r.policy.enable_gpu && !r.policy.enable_snapshotting && !r.policy.strict_no_fallback,
            },
    {
        let limits = match limits {
            Some(l) => ResourceLimits::from_wire(l.vcpu, l.memory_mb, l.disk_mb, l.sandbox_ttl_sec, l.idle_ttl_sec),
            None => ResourceLimits::default_limits(),
        };
        let policy = match policy {
            Some(p) => SandboxPolicy {
                network: match p.network {
                    Some(n) => n,
                    None => NetworkPolicy::open_network(),
                },
                mounts: match p.mounts {
                    Some(m) => m,
                    None => Vec::new(),
                },
                enable_gpu: p.enable_gpu,
                enable_snapshotting: p.enable_snapshotting,
                strict_no_fallback: p.strict_no_fallback,
            },
            None => SandboxPolicy::default_policy(),
        };
        SandboxSpec { base_image, working_dir, limits, policy }
    }

    /// Admits a sandbox spec against what the provider reported: a policy that enables
    /// snapshots on a provider without them is `Unsupported`.
    pub fn check_spec(spec: &SandboxSpec, health: &ProviderHealth) -> (r: Result<(), CoreError>)
        ensures
            r is Err <==> spec.policy.enable_snapshotting && !health.snapshot_capable,
            r is Err ==> r->Err_0.kind == ErrorKind::Unsupported,
    {
        if spec.policy.enable_snapshotting && !health.snapshot_capable {
            return Err(CoreError::new(ErrorKind::Unsupported, "provider cannot snapshot, but the policy enables snapshots"));
        }
        Ok(())
    }

    /// The record of a sandbox the provider has just created or restored: it is ready.
    pub fn ready_record(sandbox_id: String, spec: Option<SandboxSpec>) -> (r: SandboxRecord)
        ensures
            r.sandbox_id@ == sandbox_id@,
            r.status == SandboxStatus::Ready,
            r.spec == spec,
    {
        SandboxRecord { sandbox_id, status: SandboxStatus::Ready, spec }
    }
}

impl<P> ExecutionService<P> {
    /// A service over the given provider.
    pub fn new(provider: P) -> (r: Self)
        ensures
            r.provider() == provider,
    {
        ExecutionService { provider }
    }

    pub closed spec fn provider(&self) -> P {
        self.provider
    }

    /// The provider this service drives.
    pub fn provider_ref(&self) -> (r: &P)
        ensures
            *r == self.provider(),
    {
        &self.provider
    }

    /// The exec spec of a request; a missing request is `Invalid`, as is an empty argument list.
    pub fn exec_spec(request: Option<(Vec<String>, Vec<(String, String)>, String, u64)>) -> (r: Result<ExecSpec, CoreError>)
        ensures
            request is None ==> r is Err && r->Err_0.kind == ErrorKind::Invalid,
            request is Some ==> {
                let (argv, env, cwd, timeout_ms) = request->Some_0;
                &&& (r is Err <==> argv@.len() == 0)
                &&& (r is Err ==> r->Err_0.kind == ErrorKind::Invalid)
                &&& (r is Ok ==> {
                    let s = r->Ok_0;
                    &&& s.argv@ == argv@
                    &&& s.env@ == env@
                    &&& (cwd@.len() == 0 ==> s.cwd is None)
                    &&& (cwd@.len() > 0 ==> s.cwd is Some && s.cwd->Some_0@ == cwd@)
                    &&& s.timeout_ms == if timeout_ms == 0 { 1 } else { timeout_ms }
                })
            },
    {
        match request {
            None => Err(CoreError::new(ErrorKind::Invalid, "missing exec spec")),
            Some((argv, env, cwd, timeout_ms)) => ExecSpec::from_wire(argv, env, cwd, timeout_ms),
        }
    }
}

impl<P, D> SnapshotService<P, D> {
    /// A service over the given provider, catalog and store.
    pub fn new(provider: P, db: D, store: SnapshotStore) -> (r: Self)
        ensures
            r.provider() == provider,
            r.db() == db,
            r.store().base() == store.base(),
    {
        SnapshotService { provider, db, store }
    }

    pub closed spec fn provider(&self) -> P {
        self.provider
    }

    pub closed spec fn db(&self) -> D {
        self.db
    }

    pub closed spec fn store(&self) -> SnapshotStore {
        self.store
    }

    /// The provider this service drives.
    pub fn provider_ref(&self) -> (r: &P)
        ensures
            *r == self.provider(),
    {
        &self.provider
    }

    /// The catalog this service records snapshots in.
    pub fn db_ref(&self) -> (r: &D)
        ensures
            *r == self.db(),
    {
        &self.db
    }

    /// The store that holds the snapshot directories.
    pub fn store_ref(&self) -> (r: &SnapshotStore)
        ensures
            r.base() == self.store().base(),
    {
        &self.store
    }
}

} // verus!
