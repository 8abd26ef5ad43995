use crucible::error::{rpc_code, ErrorKind, RpcCode};
use crucible::executor::{exit_code_of, isolation_invocation, join_words};
use crucible::provider::LimaProvider;
use crucible::types::{ExecSpec, MountSpec, SandboxPolicy, SandboxSpec, ResourceLimits};

fn s(x: &str) -> String {
    x.to_string()
}

fn words(v: &[&str]) -> Vec<String> {
    v.iter().map(|w| w.to_string()).collect()
}

fn policy_with(deny_all: bool, mounts: Vec<MountSpec>) -> SandboxPolicy {
    let mut p = SandboxPolicy::default_policy();
    p.network.deny_all = deny_all;
    p.mounts = mounts;
    p
}

#[test]
fn policy_enforcement_orders_directives() {
    let policy = policy_with(true, vec![MountSpec { host_path: s("/data"), guest_path: s("/data"), read_only: true }]);
    let plan = isolation_invocation(&s("/tmp/crucible_sandbox_x"), &policy, &words(&["cat", "/data/x"]), false).ok().unwrap();
    assert_eq!(
        plan.args,
        words(&[
            "bwrap", "--bind", "/", "/", "--dev", "/dev", "--proc", "/proc", "--chdir", "/tmp/crucible_sandbox_x",
            "--unshare-net", "--ro-bind", "/data", "/data", "--", "cat", "/data/x",
        ])
    );
    assert!(!plan.gpu_fallback);
}

#[test]
fn default_policy_has_no_directives() {
    let plan = isolation_invocation(&s("/g"), &SandboxPolicy::default_policy(), &words(&["true"]), false).ok().unwrap();
    assert_eq!(
        plan.args,
        words(&["bwrap", "--bind", "/", "/", "--dev", "/dev", "--proc", "/proc", "--chdir", "/g", "--", "true"])
    );
}

#[test]
fn mounts_keep_policy_order() {
    let policy = policy_with(false, vec![
        MountSpec { host_path: s("/a"), guest_path: s("/x"), read_only: false },
        MountSpec { host_path: s("/b"), guest_path: s("/x"), read_only: true },
    ]);
    let plan = isolation_invocation(&s("/g"), &policy, &words(&["ls"]), true).ok().unwrap();
    assert_eq!(&plan.args[10..], &words(&["--bind", "/a", "/x", "--ro-bind", "/b", "/x", "--", "ls"])[..]);
}

#[test]
fn gpu_without_support_falls_back_unless_strict() {
    let mut policy = SandboxPolicy::default_policy();
    policy.enable_gpu = true;
    let plan = isolation_invocation(&s("/g"), &policy, &words(&["nvidia-smi"]), false).ok().unwrap();
    assert!(plan.gpu_fallback);
    let plan = isolation_invocation(&s("/g"), &policy, &words(&["nvidia-smi"]), true).ok().unwrap();
    assert!(!plan.gpu_fallback);
    policy.strict_no_fallback = true;
    let err = isolation_invocation(&s("/g"), &policy, &words(&["nvidia-smi"]), false).err().unwrap();
    assert_eq!(err.kind, ErrorKind::FailedPrecondition);
    assert_eq!(err.code(), RpcCode::FailedPrecondition);
}

#[test]
fn join_words_uses_single_spaces() {
    assert_eq!(join_words(&words(&["a", "bc", "d"])), "a bc d");
    assert_eq!(join_words(&words(&["only"])), "only");
    assert_eq!(join_words(&Vec::new()), "");
}

#[test]
fn exit_code_defaults_to_minus_one() {
    assert_eq!(exit_code_of(Some(3)), 3);
    assert_eq!(exit_code_of(None), -1);
}

#[test]
fn error_kinds_map_to_boundary_codes() {
    assert_eq!(rpc_code(ErrorKind::NotFound), RpcCode::NotFound);
    assert_eq!(rpc_code(ErrorKind::FailedPrecondition), RpcCode::FailedPrecondition);
    assert_eq!(rpc_code(ErrorKind::Invalid), RpcCode::InvalidArgument);
    assert_eq!(rpc_code(ErrorKind::Unsupported), RpcCode::Unimplemented);
    assert_eq!(rpc_code(ErrorKind::Conflict), RpcCode::Internal);
    assert_eq!(rpc_code(ErrorKind::Internal), RpcCode::Internal);
}

fn spec_with(policy: SandboxPolicy) -> SandboxSpec {
    SandboxSpec { base_image: s("alpine:3"), working_dir: s("/work"), limits: ResourceLimits::default_limits(), policy }
}

fn exec(argv: &[&str]) -> ExecSpec {
    ExecSpec::from_wire(words(argv), vec![], s(""), 0).ok().unwrap()
}

#[test]
fn lima_exec_runs_isolated_shell_line() {
    let mut p = LimaProvider::new(s("crucible-worker"));
    let policy = policy_with(true, vec![MountSpec { host_path: s("/data"), guest_path: s("/data"), read_only: true }]);
    let created = p.create_sandbox(spec_with(policy));
    let id = created.sandbox_id.clone();
    let dir = format!("/tmp/crucible_sandbox_{}", id);
    assert_eq!(created.args, vec![s("shell"), s("crucible-worker"), s("mkdir"), s("-p"), dir.clone()]);
    let inv = p.exec_invocation(&id, &exec(&["cat", "/data/x"]), false).ok().unwrap();
    let line = format!(
        "bwrap --bind / / --dev /dev --proc /proc --chdir {} --unshare-net --ro-bind /data /data -- cat /data/x",
        dir
    );
    assert_eq!(inv.args, vec![s("shell"), s("crucible-worker"), s("sh"), s("-c"), line]);
    assert_eq!(inv.exec_id.len(), 36);
}

#[test]
fn lima_exec_on_unknown_or_destroyed_sandbox_is_not_found() {
    let mut p = LimaProvider::new(s("w"));
    let err = p.exec_invocation(&s("nope"), &exec(&["ls"]), false).err().unwrap();
    assert_eq!(err.kind, ErrorKind::NotFound);
    let id = p.create_sandbox(spec_with(SandboxPolicy::default_policy())).sandbox_id;
    assert!(p.exec_invocation(&id, &exec(&["ls"]), false).is_ok());
    let rm = p.destroy_sandbox(&id);
    assert_eq!(rm, vec![s("shell"), s("w"), s("rm"), s("-rf"), format!("/tmp/crucible_sandbox_{}", id)]);
    let err = p.exec_invocation(&id, &exec(&["ls"]), false).err().unwrap();
    assert_eq!(err.kind, ErrorKind::NotFound);
}

#[test]
fn lima_exec_rejects_empty_argv() {
    let mut p = LimaProvider::new(s("w"));
    let id = p.create_sandbox(spec_with(SandboxPolicy::default_policy())).sandbox_id;
    let empty = ExecSpec { argv: vec![], env: vec![], cwd: None, timeout_ms: 1 };
    assert_eq!(p.exec_invocation(&id, &empty, false).err().unwrap().kind, ErrorKind::Invalid);
}

#[test]
fn lima_registry_keeps_other_sandboxes() {
    let mut p = LimaProvider::new(s("w"));
    p.register(s("a"), spec_with(policy_with(true, vec![])));
    p.register(s("b"), spec_with(SandboxPolicy::default_policy()));
    p.register(s("a"), spec_with(policy_with(false, vec![])));
    assert!(!p.lookup(&s("a")).unwrap().policy.network.deny_all);
    p.unregister(&s("a"));
    assert!(p.lookup(&s("a")).is_none());
    assert!(p.lookup(&s("b")).is_some());
}

#[test]
fn fresh_sandbox_ids_are_uuid_text_and_distinct() {
    let mut p = LimaProvider::new(s("w"));
    let a = p.create_sandbox(spec_with(SandboxPolicy::default_policy())).sandbox_id;
    let b = p.create_sandbox(spec_with(SandboxPolicy::default_policy())).sandbox_id;
    assert_ne!(a, b);
    for id in [&a, &b] {
        assert_eq!(id.len(), 36);
        for (i, c) in id.chars().enumerate() {
            if i == 8 || i == 13 || i == 18 || i == 23 {
                assert_eq!(c, '-');
            } else {
                assert!(c.is_ascii_hexdigit() && !c.is_ascii_uppercase());
            }
        }
    }
}

#[test]
fn probe_reads_listing_and_trims_version() {
    let p = LimaProvider::new(s("crucible-worker"));
    let listing = s("{\"name\":\"crucible-worker\",\"status\":\"Running\",\"dir\":\"x\"}");
    let h = p.health_from_probe(Some(s("  limactl version 1.0.0\n")), &listing);
    assert!(h.healthy);
    assert_eq!(h.version, Some(s("limactl version 1.0.0")));
    assert!(!h.snapshot_capable && !h.gpu_capable);
    let stopped = s("{\"name\":\"crucible-worker\",\"status\":\"Stopped\"}");
    assert!(!p.health_from_probe(Some(s("v")), &stopped).healthy);
    let h = p.health_from_probe(None, &listing);
    assert!(!h.healthy && h.version.is_none());
    assert_eq!(p.provider_name(), "local_lima");
}

#[test]
fn file_copy_arguments_address_the_guest_dir() {
    let p = LimaProvider::new(s("w"));
    assert_eq!(LimaProvider::guest_file_path("id1", "etc/x"), "/tmp/crucible_sandbox_id1/etc/x");
    assert_eq!(p.copy_in_args("id1", "f", "/tmp/l"), vec![s("cp"), s("/tmp/l"), s("w:/tmp/crucible_sandbox_id1/f")]);
    assert_eq!(p.copy_out_args("id1", "f", "/tmp/l"), vec![s("cp"), s("w:/tmp/crucible_sandbox_id1/f"), s("/tmp/l")]);
    assert_eq!(p.run_in_guest_args(&words(&["ls"])), words(&["shell", "w", "ls"]));
}

#[test]
fn listing_shows_each_live_sandbox_once() {
    let mut p = LimaProvider::new(s("w"));
    p.register(s("a"), spec_with(SandboxPolicy::default_policy()));
    p.register(s("b"), spec_with(SandboxPolicy::default_policy()));
    let mut newer = spec_with(SandboxPolicy::default_policy());
    newer.base_image = s("debian:12");
    p.register(s("a"), newer);
    p.unregister(&s("b"));
    let list = p.list_sandboxes();
    assert_eq!(list.len(), 1);
    assert_eq!(list[0].sandbox_id, "a");
    assert_eq!(list[0].base_image, "debian:12");
    assert_eq!(list[0].working_dir, "/work");
}
