use vstd::prelude::*;
use crate::error::{CoreError, ErrorKind};
use crate::executor::{isolation_args, isolation_invocation, join_words, joined, views, gpu_unavailable};
use crate::ids::{fresh_id, is_uuid_text};
use crate::types::{ExecSpec, ProviderHealth, SandboxSpec};

verus! {

/// Whether `needle` occurs as a contiguous run inside `hay`.
pub open spec fn occurs_in(hay: Seq<char>, needle: Seq<char>) -> bool {
    exists|i: int| 0 <= i && i + needle.len() <= hay.len() && #[trigger] hay.subrange(i, i + needle.len()) == needle
}

/// Relies on str::contains with a `&str` pattern: true exactly when the pattern
/// matches a sub-slice of the string.
#[verifier::external_body]
fn str_contains(hay: &str, needle: &str) -> (r: bool)
    ensures
        r == occurs_in(hay@, needle@),
{
    hay.contains(needle)
}

/// What str::trim returns: the text without leading and trailing whitespace.
pub uninterp spec fn trimmed_of(s: Seq<char>) -> Seq<char>;

/// Relies on str::trim: the text without leading and trailing whitespace, which
/// depends on the text alone.
#[verifier::external_body]
fn trim_text(s: &str) -> (r: String)
    ensures
        r@ == trimmed_of(s@),
{
    s.trim().to_string()
}

/// The spec of the sandbox registered last under `id`.
pub open spec fn registered(entries: Seq<(String, SandboxSpec)>, id: Seq<char>) -> Option<SandboxSpec>
    decreases entries.len(),
{
    if entries.len() == 0 {
        None
    } else if entries.last().0@ == id {
        Some(entries.last().1)
    } else {
        registered(entries.drop_last(), id)
    }
}

/// The directory inside the guest that holds a sandbox.
pub open spec fn spec_guest_dir(id: Seq<char>) -> Seq<char> {
    "/tmp/crucible_sandbox_"@ + id
}

/// The marker that the instance listing shows for a running instance.
pub open spec fn running_marker(instance: Seq<char>) -> Seq<char> {
    "\"name\":\""@ + instance + "\",\"status\":\"Running\""@
}

/// The arguments that run `args` in the guest shell of an instance.
pub open spec fn shell_args(instance: Seq<char>, args: Seq<Seq<char>>) -> Seq<Seq<char>> {
    seq!["shell"@, instance] + args
}

/// A command for the host-side Lima tool, as its argument list.
pub struct GuestInvocation {
    pub exec_id: String,
    pub args: Vec<String>,
    pub gpu_fallback: bool,
}

/// A newly registered sandbox and the guest command that prepares its directory.
pub struct SandboxCreation {
    pub sandbox_id: String,
    pub args: Vec<String>,
}

/// A live sandbox as a listing shows it.
pub struct SandboxSummary {
    pub sandbox_id: String,
    pub base_image: String,
    pub working_dir: String,
}

proof fn lemma_registered_last(entries: Seq<(String, SandboxSpec)>, j: int)
    requires
        0 <= j < entries.len(),
        forall|m: int| j < m < entries.len() ==> entries[m].0@ != entries[j].0@,
    ensures
        registered(entries, entries[j].0@) == Some(entries[j].1),
    decreases entries.len(),
{
    if j < entries.len() - 1 {
        lemma_registered_last(entries.drop_last(), j);
    }
}

proof fn lemma_registered_found(entries: Seq<(String, SandboxSpec)>, id: Seq<char>)
    requires
        registered(entries, id) is Some,
    ensures
        exists|j: int| 0 <= j < entries.len() && #[trigger] entries[j].0@ == id,
    decreases entries.len(),
{
    if entries.last().0@ != id {
        lemma_registered_found(entries.drop_last(), id);
        let j = choose|j: int| 0 <= j < entries.len() - 1 && #[trigger] entries.drop_last()[j].0@ == id;
        assert(entries[j].0@ == id);
    } else {
        assert(entries[entries.len() - 1].0@ == id);
    }
}

/// Entry `j`, at or after `from`, is the last entry of its sandbox, and `e` summarises it.
spec fn summary_of(es: Seq<(String, SandboxSpec)>, j: int, e: SandboxSummary, from: int) -> bool {
    &&& from <= j < es.len()
    &&& es[j].0@ == e.sandbox_id@
    &&& es[j].1.base_image@ == e.base_image@
    &&& es[j].1.working_dir@ == e.working_dir@
    &&& forall|m: int| j < m < es.len() ==> es[m].0@ != es[j].0@
}

fn contains_summary(out: &Vec<SandboxSummary>, id: &String) -> (r: bool)
    ensures
        r <==> exists|m: int| 0 <= m < out@.len() && out@[m].sandbox_id@ == id@,
{
    let mut k: usize = 0;
    while k < out.len()
        invariant
            k <= out@.len(),
            forall|m: int| 0 <= m < k ==> out@[m].sandbox_id@ != id@,
        decreases out@.len() - k,
    {
        if out[k].sandbox_id == *id {
            return true;
        }
        k = k + 1;
    }
    false
}

/// A provider whose sandboxes are directories inside one Lima guest instance. It keeps the
/// spec of each live sandbox so that every exec can apply that sandbox's policy.
pub struct LimaProvider {
    pub instance_name: String,
    specs: Vec<(String, SandboxSpec)>,
}

fn string_of(s: &str) -> (r: String)
    ensures
        r@ == s@,
{
    String::from_str(s)
}

fn concat3(a: &str, b: &str, c: &str) -> (r: String)
    ensures
        r@ == a@ + b@ + c@,
{
    let mut s = String::from_str(a);
    s.append(b);
    s.append(c);
    s
}

impl LimaProvider {
    /// The name of the guest instance.
    pub closed spec fn instance(&self) -> Seq<char> {
        self.instance_name@
    }

    /// The spec registered for a sandbox, if it is live.
    pub closed spec fn spec_of(&self, id: Seq<char>) -> Option<SandboxSpec> {
        registered(self.specs@, id)
    }

    /// A provider for the named instance, with no sandbox registered.
    pub fn new(instance_name: String) -> (r: LimaProvider)
        ensures
            r.instance() == instance_name@,
            forall|id: Seq<char>| r.spec_of(id) is None,
    {
        LimaProvider { instance_name, specs: Vec::new() }
    }

    /// The short name recorded in the catalog for snapshots of this provider.
    pub fn provider_name(&self) -> (r: &'static str)
        ensures
            r@ == "local_lima"@,
    {
        "local_lima"
    }

    /// The guest directory of a sandbox.
    pub fn guest_dir(id: &str) -> (r: String)
        ensures
            r@ == spec_guest_dir(id@),
    {
        let mut s = String::from_str("/tmp/crucible_sandbox_");
        s.append(id);
        s
    }

    /// The Lima arguments that run `args` in the guest shell.
    pub fn run_in_guest_args(&self, args: &Vec<String>) -> (r: Vec<String>)
        ensures
            views(r@) == shell_args(self.instance(), views(args@)),
    {
        let mut out: Vec<String> = Vec::new();
        out.push(string_of("shell"));
        out.push(string_of(self.instance_name.as_str()));
        let mut i: usize = 0;
        while i < args.len()
            invariant
                i <= args@.len(),
                views(out@) == shell_args(self.instance(), views(args@.take(i as int))),
            decreases args@.len() - i,
        {
            let ghost before = views(out@);
            out.push(string_of(args[i].as_str()));
            proof {
                assert(views(out@) =~= before.push(args@[i as int]@));
                assert(views(args@.take(i as int + 1)) =~= views(args@.take(i as int)).push(args@[i as int]@));
                assert(views(out@) =~= shell_args(self.instance(), views(args@.take(i as int + 1))));
            }
            i = i + 1;
        }
        assert(args@.take(i as int) =~= args@);
        out
    }

    /// The spec registered for a sandbox.
    pub fn lookup(&self, id: &String) -> (r: Option<&SandboxSpec>)
        ensures
            r is None <==> self.spec_of(id@) is None,
            r is Some ==> self.spec_of(id@) == Some(*r->Some_0),
    {
        let mut i: usize = self.specs.len();
        assert(self.specs@.take(i as int) =~= self.specs@);
        while i > 0
            invariant
                i <= self.specs@.len(),
                registered(self.specs@, id@) == registered(self.specs@.take(i as int), id@),
            decreases i,
        {
            proof {
                assert(self.specs@.take(i as int).drop_last() =~= self.specs@.take(i as int - 1));
            }
            if self.specs[i - 1].0 == *id {
                return Some(&self.specs[i - 1].1);
            }
            i = i - 1;
        }
        None
    }

    /// Records the spec of a sandbox; later lookups of `id` return it.
    pub fn register(&mut self, id: String, spec: SandboxSpec)
        ensures
            final(self).instance() == old(self).instance(),
            final(self).spec_of(id@) == Some(spec),
            forall|other: Seq<char>| other != id@ ==> final(self).spec_of(other) == old(self).spec_of(other),
    {
        self.specs.push((id, spec));
        proof {
            assert(self.specs@.drop_last() =~= old(self).specs@);
        }
    }

    /// Forgets the spec of a sandbox; other sandboxes keep theirs.
    pub fn unregister(&mut self, id: &String)
        ensures
            final(self).instance() == old(self).instance(),
            final(self).spec_of(id@) is None,
            forall|other: Seq<char>| other != id@ ==> final(self).spec_of(other) == old(self).spec_of(other),
    {
        let mut rest: Vec<(String, SandboxSpec)> = Vec::new();
        std::mem::swap(&mut rest, &mut self.specs);
        let ghost orig = rest@;
        let ghost mut taken: int = 0;
        while rest.len() > 0
            invariant
                0 <= taken <= orig.len(),
                rest@ == orig.subrange(taken, orig.len() as int),
                self.instance_name == old(self).instance_name,
                registered(self.specs@, id@) is None,
                forall|other: Seq<char>| other != id@ ==>
                    registered(self.specs@, other) == #[trigger] registered(orig.take(taken), other),
            decreases rest@.len(),
        {
            let e = rest.remove(0);
            proof {
                assert(orig.take(taken + 1).drop_last() =~= orig.take(taken));
                assert(orig.take(taken + 1).last() == e);
                assert(orig.take(taken + 1).last() == orig[taken]);
                taken = taken + 1;
                assert(rest@ =~= orig.subrange(taken, orig.len() as int));
            }
            let ghost before = self.specs@;
            let ghost key = e.0@;
            if e.0 != *id {
                self.specs.push(e);
                proof {
                    assert(self.specs@.drop_last() =~= before);
                }
            }
            proof {
                assert forall|other: Seq<char>| other != id@ implies
                    registered(self.specs@, other) == #[trigger] registered(orig.take(taken), other) by {
                    assert(registered(orig.take(taken), other) == if key == other {
                        Some(orig.take(taken).last().1)
                    } else {
                        registered(orig.take(taken - 1), other)
                    });
                }
            }
        }
        proof {
            assert(orig.take(taken) =~= orig);
        }
    }

    /// Registers a new sandbox under a fresh identifier and gives the guest command
    /// that creates its directory.
    pub fn create_sandbox(&mut self, spec: SandboxSpec) -> (r: SandboxCreation)
        ensures
            is_uuid_text(r.sandbox_id@),
            final(self).instance() == old(self).instance(),
            final(self).spec_of(r.sandbox_id@) == Some(spec),
            forall|other: Seq<char>| other != r.sandbox_id@ ==> final(self).spec_of(other) == old(self).spec_of(other),
            views(r.args@) == shell_args(old(self).instance(), seq!["mkdir"@, "-p"@, spec_guest_dir(r.sandbox_id@)]),
    {
        let id = fresh_id();
        let dir = LimaProvider::guest_dir(id.as_str());
        let mut cmd: Vec<String> = Vec::new();
        cmd.push(string_of("mkdir"));
        cmd.push(string_of("-p"));
        cmd.push(dir);
        assert(views(cmd@) =~= seq!["mkdir"@, "-p"@, spec_guest_dir(id@)]);
        let args = self.run_in_guest_args(&cmd);
        let sandbox_id = string_of(id.as_str());
        self.register(id, spec);
        SandboxCreation { sandbox_id, args }
    }

    /// Forgets a sandbox and gives the guest command that removes its directory.
    pub fn destroy_sandbox(&mut self, id: &String) -> (r: Vec<String>)
        ensures
            final(self).instance() == old(self).instance(),
            final(self).spec_of(id@) is None,
            forall|other: Seq<char>| other != id@ ==> final(self).spec_of(other) == old(self).spec_of(other),
            views(r@) == shell_args(old(self).instance(), seq!["rm"@, "-rf"@, spec_guest_dir(id@)]),
    {
        let mut cmd: Vec<String> = Vec::new();
        cmd.push(string_of("rm"));
        cmd.push(string_of("-rf"));
        cmd.push(LimaProvider::guest_dir(id.as_str()));
        assert(views(cmd@) =~= seq!["rm"@, "-rf"@, spec_guest_dir(id@)]);
        let args = self.run_in_guest_args(&cmd);
        self.unregister(id);
        args
    }

    /// The guest command for one exec: the sandbox's isolation invocation, joined into
    /// one shell line. An unknown sandbox is `NotFound`, an empty argument list is
    /// `Invalid`, and a GPU that a strict policy needs and the provider lacks is
    /// `FailedPrecondition`.
    pub fn exec_invocation(&self, id: &String, spec: &ExecSpec, gpu_capable: bool) -> (r: Result<GuestInvocation, CoreError>)
        ensures
            self.spec_of(id@) is None ==> r is Err && r->Err_0.kind == ErrorKind::NotFound,
            self.spec_of(id@) is Some && spec.argv@.len() == 0 ==> r is Err && r->Err_0.kind == ErrorKind::Invalid,
            self.spec_of(id@) is Some && spec.argv@.len() > 0 ==> {
                let policy = self.spec_of(id@)->Some_0.policy;
                &&& (r is Err <==> gpu_unavailable(policy, gpu_capable) && policy.strict_no_fallback)
                &&& (r is Err ==> r->Err_0.kind == ErrorKind::FailedPrecondition)
                &&& (r is Ok ==> {
                    let inv = r->Ok_0;
                    &&& is_uuid_text(inv.exec_id@)
                    &&& inv.gpu_fallback == gpu_unavailable(policy, gpu_capable)
                    &&& views(inv.args@) == shell_args(self.instance(), seq![
                        "sh"@, "-c"@, joined(isolation_args(spec_guest_dir(id@), policy, spec.argv@)),
                    ])
                })
            },
    {
        let sandbox = match self.lookup(id) {
            Some(s) => s,
            None => {
                return Err(CoreError::new(ErrorKind::NotFound, "no such sandbox"));
            },
        };
        if spec.argv.len() == 0 {
            return Err(CoreError::new(ErrorKind::Invalid, "exec argv must not be empty"));
        }
        let dir = LimaProvider::guest_dir(id.as_str());
        let plan = isolation_invocation(&dir, &sandbox.policy, &spec.argv, gpu_capable)?;
        let script = join_words(&plan.args);
        let mut cmd: Vec<String> = Vec::new();
        cmd.push(string_of("sh"));
        cmd.push(string_of("-c"));
        cmd.push(script);
        let ghost expected = seq!["sh"@, "-c"@, joined(isolation_args(spec_guest_dir(id@), sandbox.policy, spec.argv@))];
        assert(views(cmd@) =~= expected);
        let args = self.run_in_guest_args(&cmd);
        let exec_id = fresh_id();
        Ok(GuestInvocation { exec_id, args, gpu_fallback: plan.gpu_fallback })
    }

    /// Every live sandbox once, with its image and working directory.
    pub fn list_sandboxes(&self) -> (r: Vec<SandboxSummary>)
        ensures
            forall|k: int| 0 <= k < r@.len() ==> {
                let e = #[trigger] r@[k];
                &&& self.spec_of(e.sandbox_id@) is Some
                &&& self.spec_of(e.sandbox_id@)->Some_0.base_image@ == e.base_image@
                &&& self.spec_of(e.sandbox_id@)->Some_0.working_dir@ == e.working_dir@
            },
            forall|id: Seq<char>| #[trigger] self.spec_of(id) is Some ==> exists|k: int| 0 <= k < r@.len() && r@[k].sandbox_id@ == id,
            forall|a: int, b: int| 0 <= a < b < r@.len() ==> r@[a].sandbox_id@ != r@[b].sandbox_id@,
    {
        let ghost es = self.specs@;
        let ghost mut src: Seq<int> = seq![];
        let mut out: Vec<SandboxSummary> = Vec::new();
        let mut i: usize = self.specs.len();
        while i > 0
            invariant
                i <= es.len(),
                es == self.specs@,
                src.len() == out@.len(),
                forall|k: int| 0 <= k < out@.len() ==> summary_of(es, #[trigger] src[k], out@[k], i as int),
                forall|j: int| i <= j < es.len() ==> exists|k: int| 0 <= k < out@.len() && #[trigger] out@[k].sandbox_id@ == #[trigger] es[j].0@,
                forall|a: int, b: int| 0 <= a < b < out@.len() ==> out@[a].sandbox_id@ != out@[b].sandbox_id@,
            decreases i,
        {
            let idx = i - 1;
            let seen = contains_summary(&out, &self.specs[idx].0);
            if !seen {
                let ghost before = out@;
                let ghost before_src = src;
                let spec = &self.specs[idx].1;
                out.push(SandboxSummary {
                    sandbox_id: String::from_str(self.specs[idx].0.as_str()),
                    base_image: String::from_str(spec.base_image.as_str()),
                    working_dir: String::from_str(spec.working_dir.as_str()),
                });
                proof {
                    src = src.push(idx as int);
                    assert forall|m: int| idx < m < es.len() implies es[m].0@ != es[idx as int].0@ by {
                        if es[m].0@ == es[idx as int].0@ {
                            let w = choose|w: int| 0 <= w < before.len() && #[trigger] before[w].sandbox_id@ == #[trigger] es[m].0@;
                        }
                    }
                    assert forall|k: int| 0 <= k < out@.len() implies summary_of(es, #[trigger] src[k], out@[k], idx as int) by {
                        if k < before.len() {
                            assert(out@[k] == before[k]);
                            assert(src[k] == before_src[k]);
                        }
                    }
                    assert forall|j: int| idx <= j < es.len() implies exists|k2: int| 0 <= k2 < out@.len() && #[trigger] out@[k2].sandbox_id@ == #[trigger] es[j].0@ by {
                        if j == idx {
                            assert(out@[before.len() as int].sandbox_id@ == es[j].0@);
                        } else {
                            let w = choose|w: int| 0 <= w < before.len() && #[trigger] before[w].sandbox_id@ == #[trigger] es[j].0@;
                            assert(out@[w] == before[w]);
                        }
                    }
                }
            } else {
                proof {
                    assert forall|j: int| idx <= j < es.len() implies exists|k2: int| 0 <= k2 < out@.len() && #[trigger] out@[k2].sandbox_id@ == #[trigger] es[j].0@ by {
                        if j == idx {
                            let m = choose|m: int| 0 <= m < out@.len() && out@[m].sandbox_id@ == es[idx as int].0@;
                        }
                    }
                    assert forall|k: int| 0 <= k < out@.len() implies summary_of(es, #[trigger] src[k], out@[k], idx as int) by {
                        assert(summary_of(es, src[k], out@[k], i as int));
                    }
                }
            }
            i = idx;
        }
        proof {
            assert forall|k: int| 0 <= k < out@.len() implies {
                let e = #[trigger] out@[k];
                &&& self.spec_of(e.sandbox_id@) is Some
                &&& self.spec_of(e.sandbox_id@)->Some_0.base_image@ == e.base_image@
                &&& self.spec_of(e.sandbox_id@)->Some_0.working_dir@ == e.working_dir@
            } by {
                assert(summary_of(es, src[k], out@[k], 0));
                lemma_registered_last(es, src[k]);
            }
            assert forall|id: Seq<char>| #[trigger] self.spec_of(id) is Some implies exists|k: int| 0 <= k < out@.len() && out@[k].sandbox_id@ == id by {
                lemma_registered_found(es, id);
                let j = choose|j: int| 0 <= j < es.len() && #[trigger] es[j].0@ == id;
                let k = choose|k: int| 0 <= k < out@.len() && #[trigger] out@[k].sandbox_id@ == #[trigger] es[j].0@;
            }
        }
        out
    }

    /// The health report from a probe: the version text when the tool answered, and
    /// whether the instance listing shows this instance as running. This provider
    /// offers neither snapshots nor GPU passthrough.
    pub fn health_from_probe(&self, version_output: Option<String>, listing: &String) -> (r: ProviderHealth)
        ensures
            version_output is None ==> !r.healthy && r.version is None,
            version_output is Some ==> {
                &&& r.healthy == occurs_in(listing@, running_marker(self.instance()))
                &&& r.version is Some
                &&& r.version->Some_0@ == trimmed_of(version_output->Some_0@)
            },
            !r.snapshot_capable,
            !r.gpu_capable,
    {
        match version_output {
            None => ProviderHealth { healthy: false, version: None, snapshot_capable: false, gpu_capable: false },
            Some(v) => {
                let marker = concat3("\"name\":\"", self.instance_name.as_str(), "\",\"status\":\"Running\"");
                let running = str_contains(listing.as_str(), marker.as_str());
                let version = trim_text(v.as_str());
                ProviderHealth { healthy: running, version: Some(version), snapshot_capable: false, gpu_capable: false }
            },
        }
    }

    /// The path of a file inside a sandbox's guest directory.
    pub fn guest_file_path(id: &str, guest_path: &str) -> (r: String)
        ensures
            r@ == spec_guest_dir(id@) + "/"@ + guest_path@,
    {
        let mut s = LimaProvider::guest_dir(id);
        s.append("/");
        s.append(guest_path);
        s
    }

    /// The Lima arguments that copy a local file to a path inside a sandbox.
    pub fn copy_in_args(&self, id: &str, guest_path: &str, local: &str) -> (r: Vec<String>)
        ensures
            views(r@) == seq!["cp"@, local@, self.instance() + ":"@ + spec_guest_dir(id@) + "/"@ + guest_path@],
    {
        let full = LimaProvider::guest_file_path(id, guest_path);
        let dest = concat3(self.instance_name.as_str(), ":", full.as_str());
        let mut out: Vec<String> = Vec::new();
        out.push(string_of("cp"));
        out.push(string_of(local));
        out.push(dest);
        proof {
            assert(dest@ =~= self.instance() + ":"@ + spec_guest_dir(id@) + "/"@ + guest_path@);
            assert(views(out@) =~= seq!["cp"@, local@, self.instance() + ":"@ + spec_guest_dir(id@) + "/"@ + guest_path@]);
        }
        out
    }

    /// The Lima arguments that copy a file inside a sandbox to a local path.
    pub fn copy_out_args(&self, id: &str, guest_path: &str, local: &str) -> (r: Vec<String>)
        ensures
            views(r@) == seq!["cp"@, self.instance() + ":"@ + spec_guest_dir(id@) + "/"@ + guest_path@, local@],
    {
        let full = LimaProvider::guest_file_path(id, guest_path);
        let src = concat3(self.instance_name.as_str(), ":", full.as_str());
        let mut out: Vec<String> = Vec::new();
        out.push(string_of("cp"));
        out.push(src);
        out.push(string_of(local));
        proof {
            assert(src@ =~= self.instance() + ":"@ + spec_guest_dir(id@) + "/"@ + guest_path@);
            assert(views(out@) =~= seq!["cp"@, self.instance() + ":"@ + spec_guest_dir(id@) + "/"@ + guest_path@, local@]);
        }
        out
    }
}

} // verus!
