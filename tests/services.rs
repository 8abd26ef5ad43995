use crucible::error::ErrorKind;
use crucible::services::{ExecutionService, LimitsRequest, PolicyRequest, SandboxService, SandboxStatus, SnapshotService};
use crucible::store::SnapshotStore;
use crucible::types::{MountSpec, NetworkPolicy, ProviderHealth, ResourceLimits};

fn s(x: &str) -> String {
    x.to_string()
}

fn health(snapshot_capable: bool) -> ProviderHealth {
    ProviderHealth { healthy: true, version: None, snapshot_capable, gpu_capable: false }
}

#[test]
fn create_request_defaults() {
    let spec = SandboxService::<()>::provider_spec(s("alpine:3"), s("/work"), None, None);
    assert_eq!(spec.base_image, "alpine:3");
    assert_eq!(spec.working_dir, "/work");
    assert_eq!((spec.limits.vcpu, spec.limits.memory_mb, spec.limits.disk_mb), (1, 2048, 2048));
    assert!(spec.limits.sandbox_ttl_sec.is_none() && spec.limits.idle_ttl_sec.is_none());
    assert!(!spec.policy.network.deny_all && spec.policy.mounts.is_empty());
    assert!(!spec.policy.enable_gpu && !spec.policy.enable_snapshotting && !spec.policy.strict_no_fallback);
}

#[test]
fn create_request_values_are_kept() {
    let limits = LimitsRequest { vcpu: 4, memory_mb: 512, disk_mb: 1024, sandbox_ttl_sec: 60, idle_ttl_sec: 0 };
    let policy = PolicyRequest {
        network: Some(NetworkPolicy { deny_all: true, allow_domains: vec![s("example.org")], allow_cidrs: vec![] }),
        mounts: Some(vec![MountSpec { host_path: s("/h"), guest_path: s("/g"), read_only: true }]),
        enable_gpu: true,
        enable_snapshotting: true,
        strict_no_fallback: true,
    };
    let spec = SandboxService::<()>::provider_spec(s("img"), s(""), Some(limits), Some(policy));
    assert_eq!(spec.limits.vcpu, 4);
    assert_eq!(spec.limits.sandbox_ttl_sec, Some(60));
    assert_eq!(spec.limits.idle_ttl_sec, None);
    assert!(spec.policy.network.deny_all);
    assert_eq!(spec.policy.network.allow_domains, vec![s("example.org")]);
    assert_eq!(spec.policy.mounts.len(), 1);
    assert!(spec.policy.enable_gpu && spec.policy.enable_snapshotting && spec.policy.strict_no_fallback);
    let partial = PolicyRequest { network: None, mounts: None, enable_gpu: false, enable_snapshotting: false, strict_no_fallback: false };
    let spec = SandboxService::<()>::provider_spec(s("img"), s(""), None, Some(partial));
    assert!(!spec.policy.network.deny_all && spec.policy.mounts.is_empty());
}

#[test]
fn snapshotting_policy_needs_capable_provider() {
    let mut spec = SandboxService::<()>::provider_spec(s("img"), s("/w"), None, None);
    assert!(SandboxService::<()>::check_spec(&spec, &health(false)).is_ok());
    spec.policy.enable_snapshotting = true;
    assert_eq!(SandboxService::<()>::check_spec(&spec, &health(false)).err().unwrap().kind, ErrorKind::Unsupported);
    assert!(SandboxService::<()>::check_spec(&spec, &health(true)).is_ok());
}

#[test]
fn exec_request_mapping() {
    assert_eq!(ExecutionService::<()>::exec_spec(None).err().unwrap().kind, ErrorKind::Invalid);
    let r = ExecutionService::<()>::exec_spec(Some((vec![], vec![], s(""), 5)));
    assert_eq!(r.err().unwrap().kind, ErrorKind::Invalid);
    let spec = ExecutionService::<()>::exec_spec(Some((vec![s("ls")], vec![(s("K"), s("V"))], s(""), 0))).ok().unwrap();
    assert_eq!(spec.timeout_ms, 1);
    assert!(spec.cwd.is_none());
    assert_eq!(spec.env, vec![(s("K"), s("V"))]);
    let spec = ExecutionService::<()>::exec_spec(Some((vec![s("ls")], vec![], s("/w"), 2500))).ok().unwrap();
    assert_eq!(spec.timeout_ms, 2500);
    assert_eq!(spec.cwd, Some(s("/w")));
}

#[test]
fn services_hold_their_collaborators() {
    let sandboxes = SandboxService::new(7u8);
    assert_eq!(*sandboxes.provider_ref(), 7);
    let execs = ExecutionService::new(s("p"));
    assert_eq!(execs.provider_ref(), "p");
    let snaps = SnapshotService::new(1u8, 2u8, SnapshotStore::new(s("/b")));
    assert_eq!((*snaps.provider_ref(), *snaps.db_ref()), (1, 2));
    assert_eq!(snaps.store_ref().base_dir(), "/b");
    let rec = SandboxService::<()>::ready_record(s("id"), None);
    assert_eq!(rec.status, SandboxStatus::Ready);
    assert_eq!(rec.sandbox_id, "id");
}

#[test]
fn limits_from_wire_treat_zero_as_none() {
    let l = ResourceLimits::from_wire(2, 3, 4, 0, 9);
    assert_eq!((l.vcpu, l.memory_mb, l.disk_mb, l.sandbox_ttl_sec, l.idle_ttl_sec), (2, 3, 4, None, Some(9)));
}
