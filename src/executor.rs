use vstd::prelude::*;
use crate::error::{CoreError, ErrorKind};
use crate::types::{MountSpec, SandboxPolicy};

verus! {

/// The views of a sequence of strings.
pub open spec fn views(v: Seq<String>) -> Seq<Seq<char>> {
    v.map_values(|s: String| s@)
}

/// Arguments that every invocation starts with: the host root bound as root, fresh
/// `/dev` and `/proc`, and the sandbox's guest directory as working directory.
pub open spec fn base_args(guest_dir: Seq<char>) -> Seq<Seq<char>> {
    seq![
        "bwrap"@, "--bind"@, "/"@, "/"@, "--dev"@, "/dev"@, "--proc"@, "/proc"@,
        "--chdir"@, guest_dir,
    ]
}

/// The bind directive of one mount.
pub open spec fn mount_directive(m: MountSpec) -> Seq<Seq<char>> {
    seq![if m.read_only { "--ro-bind"@ } else { "--bind"@ }, m.host_path@, m.guest_path@]
}

/// The bind directives of the mounts, in policy order.
pub open spec fn mount_args(mounts: Seq<MountSpec>) -> Seq<Seq<char>>
    decreases mounts.len(),
{
    if mounts.len() == 0 {
        seq![]
    } else {
        mount_args(mounts.drop_last()) + mount_directive(mounts.last())
    }
}

/// The network directive of a policy.
pub open spec fn network_args(policy: SandboxPolicy) -> Seq<Seq<char>> {
    if policy.network.deny_all { seq!["--unshare-net"@] } else { seq![] }
}

/// The full isolation invocation for running `argv` under `policy`.
pub open spec fn isolation_args(guest_dir: Seq<char>, policy: SandboxPolicy, argv: Seq<String>) -> Seq<Seq<char>> {
    base_args(guest_dir) + network_args(policy) + mount_args(policy.mounts@) + seq!["--"@] + views(argv)
}

/// Whether the policy asks for a GPU that the provider cannot give.
pub open spec fn gpu_unavailable(policy: SandboxPolicy, gpu_capable: bool) -> bool {
    policy.enable_gpu && !gpu_capable
}

/// An isolation invocation, with whether a requested GPU was dropped.
pub struct IsolationPlan {
    pub args: Vec<String>,
    pub gpu_fallback: bool,
}

fn push_str(v: &mut Vec<String>, s: &str)
    ensures
        views(final(v)@) == views(old(v)@).push(s@),
{
    v.push(String::from_str(s));
    proof {
        assert(views(final(v)@) =~= views(old(v)@).push(s@));
    }
}

fn push_clone(v: &mut Vec<String>, s: &String)
    ensures
        views(final(v)@) == views(old(v)@).push(s@),
{
    v.push(String::from_str(s.as_str()));
    proof {
        assert(views(final(v)@) =~= views(old(v)@).push(s@));
    }
}

/// Composes the isolation invocation that runs `argv` under `policy` in `guest_dir`.
/// A GPU that the provider lacks fails the request when the policy is strict, and is
/// otherwise dropped with `gpu_fallback` set.
pub fn isolation_invocation(guest_dir: &String, policy: &SandboxPolicy, argv: &Vec<String>, gpu_capable: bool) -> (r: Result<IsolationPlan, CoreError>)
    ensures
        r is Err <==> gpu_unavailable(*policy, gpu_capable) && policy.strict_no_fallback,
        r is Err ==> r->Err_0.kind == ErrorKind::FailedPrecondition,
        r is Ok ==> views(r->Ok_0.args@) == isolation_args(guest_dir@, *policy, argv@),
        r is Ok ==> r->Ok_0.gpu_fallback == gpu_unavailable(*policy, gpu_capable),
{
    if policy.enable_gpu && !gpu_capable && policy.strict_no_fallback {
        return Err(CoreError::new(ErrorKind::FailedPrecondition, "GPU requested but the provider cannot pass it through"));
    }
    let mut args: Vec<String> = Vec::new();
    push_str(&mut args, "bwrap");
    push_str(&mut args, "--bind");
    push_str(&mut args, "/");
    push_str(&mut args, "/");
    push_str(&mut args, "--dev");
    push_str(&mut args, "/dev");
    push_str(&mut args, "--proc");
    push_str(&mut args, "/proc");
    push_str(&mut args, "--chdir");
    push_clone(&mut args, guest_dir);
    assert(views(args@) =~= base_args(guest_dir@));
    if policy.network.deny_all {
        push_str(&mut args, "--unshare-net");
    }
    assert(views(args@) =~= base_args(guest_dir@) + network_args(*policy));
    let ghost prefix = views(args@);
    let mut i: usize = 0;
    while i < policy.mounts.len()
        invariant
            i <= policy.mounts@.len(),
            views(args@) == prefix + mount_args(policy.mounts@.take(i as int)),
        decreases policy.mounts@.len() - i,
    {
        let m = &policy.mounts[i];
        if m.read_only {
            push_str(&mut args, "--ro-bind");
        } else {
            push_str(&mut args, "--bind");
        }
        push_clone(&mut args, &m.host_path);
        push_clone(&mut args, &m.guest_path);
        proof {
            let t = policy.mounts@.take(i as int + 1);
            assert(t.drop_last() =~= policy.mounts@.take(i as int));
            assert(views(args@) =~= prefix + mount_args(t));
        }
        i = i + 1;
    }
    assert(policy.mounts@.take(i as int) =~= policy.mounts@);
    push_str(&mut args, "--");
    let ghost before_argv = views(args@);
    let mut j: usize = 0;
    while j < argv.len()
        invariant
            j <= argv@.len(),
            views(args@) == before_argv + views(argv@.take(j as int)),
        decreases argv@.len() - j,
    {
        push_clone(&mut args, &argv[j]);
        proof {
            assert(views(argv@.take(j as int + 1)) =~= views(argv@.take(j as int)).push(argv@[j as int]@));
        }
        j = j + 1;
    }
    assert(argv@.take(j as int) =~= argv@);
    assert(views(args@) =~= isolation_args(guest_dir@, *policy, argv@));
    Ok(IsolationPlan { args, gpu_fallback: policy.enable_gpu && !gpu_capable })
}

/// The words joined with one space between neighbours.
pub open spec fn joined(words: Seq<Seq<char>>) -> Seq<char>
    decreases words.len(),
{
    if words.len() == 0 {
        seq![]
    } else if words.len() == 1 {
        words[0]
    } else {
        joined(words.drop_last()) + seq![' '] + words.last()
    }
}

/// Joins the words with single spaces, as the guest shell receives them.
pub fn join_words(words: &Vec<String>) -> (r: String)
    ensures
        r@ == joined(views(words@)),
{
    let mut out = String::new();
    let mut i: usize = 0;
    while i < words.len()
        invariant
            i <= words@.len(),
            out@ == joined(views(words@.take(i as int))),
        decreases words@.len() - i,
    {
        if i > 0 {
            out.append(" ");
        }
        out.append(words[i].as_str());
        proof {
            let t = views(words@.take(i as int + 1));
            assert(t.drop_last() =~= views(words@.take(i as int)));
            if i == 0 {
                assert(out@ =~= joined(t));
            } else {
                assert(" "@ =~= seq![' ']) by { reveal_strlit(" "); }
                assert(out@ =~= joined(t));
            }
        }
        i = i + 1;
    }
    assert(words@.take(i as int) =~= words@);
    out
}

/// The exit code of a finished process: its status when it exited normally, else -1.
pub fn exit_code_of(status: Option<i32>) -> (r: i32)
    ensures
        status is Some ==> r == status->Some_0,
        status is None ==> r == -1,
{
    match status {
        Some(c) => c,
        None => -1,
    }
}

} // verus!
