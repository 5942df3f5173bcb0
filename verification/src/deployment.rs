//! Deployment targets and the decisions taken while deploying to them.
use vstd::prelude::*;
use vstd::string::*;

use crate::local::Local;
use crate::nix::{provider_of, views, NaviError, NodeConfig, NodeName};
use crate::text::owned;
use crate::ssh::Ssh;
use crate::tree::names;

verus! {

/// What a deployment is asked to do (the goals named by this code).
#[derive(Clone, Copy, Debug, PartialEq, Eq, Structural)]
pub enum Goal {
    Build,
    Switch,
    Boot,
    UploadKeys,
}

/// The deployment options that activation and building read.
#[derive(Clone, Copy, Debug, PartialEq, Eq, Structural)]
pub struct DeployOptions {
    pub upload_keys: bool,
    pub substituters_push: bool,
    pub gzip: bool,
    pub force_replace_unknown_profiles: bool,
    pub install_bootloader: bool,
    pub reboot: bool,
    pub create_gc_roots: bool,
    /// Overrides every node's `build_on_target` where set.
    pub force_build_on_target: Option<bool>,
}

/// A host to deploy to.
#[derive(Debug)]
pub enum HostHandle {
    Local(Local),
    Ssh(Ssh),
}

/// A node to deploy to: its name, its host where it can be reached, and its
/// deployment settings.
#[derive(Debug)]
pub struct TargetNode {
    pub name: NodeName,
    pub host: Option<HostHandle>,
    pub config: NodeConfig,
}

impl TargetNode {
    pub fn new(name: NodeName, host: Option<HostHandle>, config: NodeConfig) -> (r: TargetNode)
        ensures
            r.name == name,
            r.host == host,
            r.config == config,
    {
        TargetNode { name, host, config }
    }

    pub fn into_host(self) -> (r: Option<HostHandle>)
        ensures
            r == self.host,
    {
        self.host
    }

    /// Applies the deployment-wide override of `build_on_target`, where there is
    /// one, and says whether the node builds its system itself.
    pub fn builds_on_target(&mut self, force: Option<bool>) -> (r: bool)
        ensures
            r == final(self).config.build_on_target,
            r == match force {
                Some(f) => f,
                None => old(self).config.build_on_target,
            },
            final(self).name == old(self).name,
            final(self).host == old(self).host,
    {
        if let Some(f) = force {
            self.config.set_build_on_target(f);
        }
        self.config.build_on_target()
    }
}

/// What checking a node's active profile before activation found.
#[derive(Clone, Copy, Debug, PartialEq, Eq, Structural)]
pub enum ProfileCheck {
    /// The node replaces unknown profiles; nothing was checked.
    Skipped,
    /// The active profile is known.
    Known,
    /// The active profile is unknown, and the deployment replaces it anyway.
    UnknownIgnored,
}

/// Activates built profiles on nodes.
#[derive(Debug)]
pub struct NodeActivator {
    pub goal: Goal,
    pub options: DeployOptions,
    /// How many nodes activate at once.
    pub parallelism_limit: usize,
}

impl NodeActivator {
    pub fn new(goal: Goal, options: DeployOptions, parallelism_limit: usize) -> (r: NodeActivator)
        ensures
            r.goal == goal,
            r.options == options,
            r.parallelism_limit == parallelism_limit,
    {
        NodeActivator { goal, options, parallelism_limit }
    }

    /// The check of the active profile `profile`: skipped where the node
    /// replaces unknown profiles; an unknown profile stops the activation, with
    /// the profile named, unless the deployment forces its replacement.
    pub fn check_profile(&self, replace_unknown_profiles: bool, profile: &str, profile_known: bool) -> (r: Result<
        ProfileCheck,
        NaviError,
    >)
        ensures
            replace_unknown_profiles ==> r == Ok::<ProfileCheck, NaviError>(ProfileCheck::Skipped),
            !replace_unknown_profiles && profile_known ==> r == Ok::<ProfileCheck, NaviError>(ProfileCheck::Known),
            !replace_unknown_profiles && !profile_known && self.options.force_replace_unknown_profiles ==> r == Ok::<
                ProfileCheck,
                NaviError,
            >(ProfileCheck::UnknownIgnored),
            !replace_unknown_profiles && !profile_known && !self.options.force_replace_unknown_profiles ==> (r matches Err(
                NaviError::ActiveProfileUnknown { profile: p },
            ) && p@ == profile@),
    {
        if replace_unknown_profiles {
            Ok(ProfileCheck::Skipped)
        } else if profile_known {
            Ok(ProfileCheck::Known)
        } else if self.options.force_replace_unknown_profiles {
            Ok(ProfileCheck::UnknownIgnored)
        } else {
            Err(NaviError::ActiveProfileUnknown { profile: owned(profile) })
        }
    }

    /// Whether the activation records provenance on the node: it does for the
    /// goals that make the profile the system's.
    pub fn writes_provenance(&self) -> (r: bool)
        ensures
            r == (self.goal == Goal::Switch || self.goal == Goal::Boot),
    {
        self.goal == Goal::Switch || self.goal == Goal::Boot
    }

    /// How the node is rebooted after activation, where it is: whether the new
    /// profile is expected after the reboot, and whether disks are unlocked.
    pub fn reboot_plan(&self, persists_after_reboot: bool, unlock_enabled: bool) -> (r: Option<(bool, bool)>)
        ensures
            r == (if self.options.reboot {
                Some((persists_after_reboot, unlock_enabled))
            } else {
                None
            }),
    {
        if self.options.reboot {
            Some((persists_after_reboot, unlock_enabled))
        } else {
            None
        }
    }
}

/// The steps of activating a node, in the order they run.
#[derive(Debug, Clone, Copy, PartialEq, Eq, Structural)]
pub enum ActivationStep {
    /// Upload the keys wanted before activation.
    PreActivationKeys,
    /// Check that the node's current profile is known.
    CheckProfile,
    /// Activate the new profile.
    Activate,
    /// Write provenance metadata.
    WriteProvenance,
    /// Reboot, waiting for the node to come back.
    Reboot,
    /// Upload the keys wanted after activation.
    PostActivationKeys,
}

/// The place of a step in the order of activation.
pub open spec fn step_rank(s: ActivationStep) -> int {
    match s {
        ActivationStep::PreActivationKeys => 0,
        ActivationStep::CheckProfile => 1,
        ActivationStep::Activate => 2,
        ActivationStep::WriteProvenance => 3,
        ActivationStep::Reboot => 4,
        ActivationStep::PostActivationKeys => 5,
    }
}

/// The step of rank `k`.
pub open spec fn step_of_rank(k: int) -> ActivationStep {
    if k == 0 {
        ActivationStep::PreActivationKeys
    } else if k == 1 {
        ActivationStep::CheckProfile
    } else if k == 2 {
        ActivationStep::Activate
    } else if k == 3 {
        ActivationStep::WriteProvenance
    } else if k == 4 {
        ActivationStep::Reboot
    } else {
        ActivationStep::PostActivationKeys
    }
}

/// Whether activating a node with this activator and keys `keys` runs step
/// `s`: a key step where keys are uploaded and some key is marked for it, the
/// profile check unless the node replaces unknown profiles, provenance for the
/// goals that make the profile the system's, the reboot where asked; the
/// activation itself always.
pub open spec fn step_runs(
    a: NodeActivator,
    replace_unknown_profiles: bool,
    keys: Seq<(String, UploadKeyAt)>,
    s: ActivationStep,
) -> bool {
    match s {
        ActivationStep::PreActivationKeys => a.options.upload_keys && keys_at(keys, UploadKeyAt::PreActivation).len() > 0,
        ActivationStep::CheckProfile => !replace_unknown_profiles,
        ActivationStep::Activate => true,
        ActivationStep::WriteProvenance => a.goal == Goal::Switch || a.goal == Goal::Boot,
        ActivationStep::Reboot => a.options.reboot,
        ActivationStep::PostActivationKeys => a.options.upload_keys && keys_at(keys, UploadKeyAt::PostActivation).len() > 0,
    }
}

/// Whether some key of `keys` is marked for `at`.
pub fn has_keys_at(keys: &Vec<(String, UploadKeyAt)>, at: UploadKeyAt) -> (r: bool)
    ensures
        r == (keys_at(keys@, at).len() > 0),
{
    let mut i: usize = 0;
    while i < keys.len()
        invariant
            i <= keys@.len(),
            keys_at(keys@.subrange(0, i as int), at).len() == 0,
        decreases keys@.len() - i,
    {
        let ghost pre = keys@.subrange(0, i + 1);
        assert(pre.drop_last() =~= keys@.subrange(0, i as int));
        assert(pre.last() == keys@[i as int]);
        if keys[i].1 == at {
            proof {
                lemma_keys_at_grow(keys@, at, i + 1);
            }
            return true;
        }
        i = i + 1;
    }
    assert(keys@.subrange(0, keys@.len() as int) =~= keys@);
    false
}

/// Keys found in a prefix stay found in the whole list.
proof fn lemma_keys_at_grow(keys: Seq<(String, UploadKeyAt)>, at: UploadKeyAt, n: int)
    requires
        0 <= n <= keys.len(),
    ensures
        keys_at(keys.subrange(0, n), at).len() <= keys_at(keys, at).len(),
    decreases keys.len() - n,
{
    if n < keys.len() {
        lemma_keys_at_grow(keys, at, n + 1);
        let pre = keys.subrange(0, n + 1);
        assert(pre.drop_last() =~= keys.subrange(0, n));
    } else {
        assert(keys.subrange(0, n) =~= keys);
    }
}

impl ActivationStep {
    fn rank(&self) -> (r: u8)
        ensures
            r == step_rank(*self),
    {
        match self {
            ActivationStep::PreActivationKeys => 0,
            ActivationStep::CheckProfile => 1,
            ActivationStep::Activate => 2,
            ActivationStep::WriteProvenance => 3,
            ActivationStep::Reboot => 4,
            ActivationStep::PostActivationKeys => 5,
        }
    }

    fn of_rank(k: u8) -> (r: ActivationStep)
        ensures
            r == step_of_rank(k as int),
    {
        if k == 0 {
            ActivationStep::PreActivationKeys
        } else if k == 1 {
            ActivationStep::CheckProfile
        } else if k == 2 {
            ActivationStep::Activate
        } else if k == 3 {
            ActivationStep::WriteProvenance
        } else if k == 4 {
            ActivationStep::Reboot
        } else {
            ActivationStep::PostActivationKeys
        }
    }
}

impl NodeActivator {
    /// Whether activating a node with keys `keys` runs step `s` (see [`step_runs`]).
    pub fn runs_step(&self, replace_unknown_profiles: bool, keys: &Vec<(String, UploadKeyAt)>, s: ActivationStep) -> (r: bool)
        ensures
            r == step_runs(*self, replace_unknown_profiles, keys@, s),
    {
        match s {
            ActivationStep::PreActivationKeys => self.options.upload_keys && has_keys_at(keys, UploadKeyAt::PreActivation),
            ActivationStep::CheckProfile => !replace_unknown_profiles,
            ActivationStep::Activate => true,
            ActivationStep::WriteProvenance => self.writes_provenance(),
            ActivationStep::Reboot => self.options.reboot,
            ActivationStep::PostActivationKeys => self.options.upload_keys && has_keys_at(
                keys,
                UploadKeyAt::PostActivation,
            ),
        }
    }

    /// The step after `done` (`None`: before the first) when it succeeded: the
    /// next step in the order of activation that runs, or none when the node is
    /// done. A failed step ends the activation.
    pub fn next_step(
        &self,
        replace_unknown_profiles: bool,
        keys: &Vec<(String, UploadKeyAt)>,
        done: Option<ActivationStep>,
        succeeded: bool,
    ) -> (r: Option<
        ActivationStep,
    >)
        ensures
            !succeeded ==> r is None,
            succeeded ==> match r {
                Some(t) => {
                    &&& step_runs(*self, replace_unknown_profiles, keys@, t)
                    &&& (match done {
                        Some(d) => step_rank(d) < step_rank(t),
                        None => true,
                    })
                    &&& forall|u: ActivationStep|
                        step_runs(*self, replace_unknown_profiles, keys@, u) && (match done {
                            Some(d) => step_rank(d) < step_rank(u),
                            None => true,
                        }) ==> step_rank(t) <= #[trigger] step_rank(u)
                },
                None => forall|u: ActivationStep|
                    step_runs(*self, replace_unknown_profiles, keys@, u) ==> (match done {
                        Some(d) => #[trigger] step_rank(u) <= step_rank(d),
                        None => false,
                    }),
            },
    {
        if !succeeded {
            return None;
        }
        let mut k: u8 = match done {
            Some(d) => d.rank() + 1,
            None => 0,
        };
        while k < 6
            invariant
                succeeded,
                k <= 6,
                k == (match done {
                    Some(d) => step_rank(d) + 1,
                    None => 0,
                }) || (k > (match done {
                    Some(d) => step_rank(d) + 1,
                    None => 0,
                })),
                forall|u: ActivationStep|
                    step_runs(*self, replace_unknown_profiles, keys@, u) && (match done {
                        Some(d) => step_rank(d) < step_rank(u),
                        None => true,
                    }) ==> k <= #[trigger] step_rank(u),
            decreases 6 - k,
        {
            let s = ActivationStep::of_rank(k);
            assert(step_rank(s) == k);
            if self.runs_step(replace_unknown_profiles, keys, s) {
                return Some(s);
            }
            assert forall|u: ActivationStep|
                step_runs(*self, replace_unknown_profiles, keys@, u) && (match done {
                    Some(d) => step_rank(d) < step_rank(u),
                    None => true,
                }) implies k + 1 <= #[trigger] step_rank(u) by {
                if step_rank(u) == k {
                    assert(u == s);
                }
            }
            k = k + 1;
        }
        assert forall|u: ActivationStep| step_runs(*self, replace_unknown_profiles, keys@, u) implies (match done {
            Some(d) => #[trigger] step_rank(u) <= step_rank(d),
            None => false,
        }) by {
            assert(step_rank(u) < 6);
        }
        None
    }
}

/// How a key is uploaded: before or after activation.
#[derive(Debug, Clone, Copy, PartialEq, Eq, Structural)]
pub enum UploadKeyAt {
    PreActivation,
    PostActivation,
}

/// The names of the keys uploaded at `at`, in order.
pub open spec fn keys_at(keys: Seq<(String, UploadKeyAt)>, at: UploadKeyAt) -> Seq<Seq<char>>
    decreases keys.len(),
{
    if keys.len() == 0 {
        Seq::empty()
    } else {
        let rest = keys_at(keys.drop_last(), at);
        if keys.last().1 == at {
            rest.push(keys.last().0@)
        } else {
            rest
        }
    }
}

/// The keys that the key step `step` uploads: those marked for before
/// activation at the first key step, those marked for after it at the last;
/// none at other steps.
pub fn keys_for_step(keys: &Vec<(String, UploadKeyAt)>, step: ActivationStep) -> (r: Vec<String>)
    ensures
        views(r@) == match step {
            ActivationStep::PreActivationKeys => keys_at(keys@, UploadKeyAt::PreActivation),
            ActivationStep::PostActivationKeys => keys_at(keys@, UploadKeyAt::PostActivation),
            _ => Seq::empty(),
        },
{
    let at = match step {
        ActivationStep::PreActivationKeys => UploadKeyAt::PreActivation,
        ActivationStep::PostActivationKeys => UploadKeyAt::PostActivation,
        _ => {
            let r: Vec<String> = Vec::new();
            assert(views(r@) =~= Seq::<Seq<char>>::empty());
            return r;
        },
    };
    let mut r: Vec<String> = Vec::new();
    let mut i: usize = 0;
    while i < keys.len()
        invariant
            i <= keys@.len(),
            views(r@) == keys_at(keys@.subrange(0, i as int), at),
        decreases keys@.len() - i,
    {
        let ghost pre = keys@.subrange(0, i + 1);
        assert(pre.drop_last() =~= keys@.subrange(0, i as int));
        assert(pre.last() == keys@[i as int]);
        if keys[i].1 == at {
            let ghost before = views(r@);
            r.push(owned(keys[i].0.as_str()));
            assert(views(r@) =~= before.push(keys@[i as int].0@));
        }
        i = i + 1;
    }
    assert(keys@.subrange(0, keys@.len() as int) =~= keys@);
    r
}

/// `s` cut into pieces of `n`, the last one possibly shorter.
pub open spec fn chunked<A>(s: Seq<A>, n: nat) -> Seq<Seq<A>>
    decreases s.len(),
{
    if s.len() == 0 || n == 0 {
        Seq::empty()
    } else if s.len() <= n {
        seq![s]
    } else {
        seq![s.take(n as int)] + chunked(s.skip(n as int), n)
    }
}

/// Chunking loses and reorders nothing: the chunks, joined, are the nodes, and
/// every chunk holds between one and `n` of them.
pub proof fn lemma_chunks_cover<A>(s: Seq<A>, n: nat)
    requires
        n > 0,
    ensures
        chunked(s, n).flatten() == s,
        forall|k: int| 0 <= k < chunked(s, n).len() ==> 1 <= (#[trigger] chunked(s, n)[k]).len() <= n,
    decreases s.len(),
{
    if s.len() == 0 {
    } else if s.len() <= n {
        let one = seq![s];
        assert(chunked(s, n) == one);
        assert(one.drop_first() =~= Seq::<Seq<A>>::empty());
        assert(one.drop_first().flatten() =~= Seq::<A>::empty());
        assert(one.first() == s);
        assert(one.flatten() =~= s);
    } else {
        lemma_chunks_cover(s.skip(n as int), n);
        let rest = chunked(s.skip(n as int), n);
        let all = seq![s.take(n as int)] + rest;
        assert(all.drop_first() =~= rest);
        assert(all.first() == s.take(n as int));
        assert(s.take(n as int) + s.skip(n as int) =~= s);
        assert forall|k: int| 0 <= k < all.len() implies 1 <= (#[trigger] all[k]).len() <= n by {
            if k > 0 {
                assert(all[k] == rest[k - 1]);
            }
        }
    }
}

/// Evaluates and deploys nodes chunk by chunk.
#[derive(Debug, Clone, Copy)]
pub struct ChunkedExecutor;

/// Deploys each node as soon as its evaluation is done.
#[derive(Debug, Clone, Copy)]
pub struct StreamingExecutor;

impl ChunkedExecutor {
    /// The chunks that are evaluated together: at most `limit` nodes each, all
    /// the nodes at once where there is no limit.
    pub fn chunks(nodes: &Vec<NodeName>, limit: Option<usize>) -> (r: Vec<Vec<NodeName>>)
        requires
            match limit {
                Some(l) => l > 0,
                None => nodes@.len() > 0,
            },
        ensures
            r@.map_values(|c: Vec<NodeName>| names(c@)) == chunked(
                names(nodes@),
                match limit {
                    Some(l) => l as nat,
                    None => nodes@.len(),
                },
            ),
    {
        let n = match limit {
            Some(l) => l,
            None => nodes.len(),
        };
        let ghost all = names(nodes@);
        let mut r: Vec<Vec<NodeName>> = Vec::new();
        let mut start: usize = 0;
        assert(all.skip(0) =~= all);
        assert(r@.map_values(|c: Vec<NodeName>| names(c@)) + chunked(all, n as nat) =~= chunked(all, n as nat));
        while start < nodes.len()
            invariant
                n > 0,
                start <= nodes@.len(),
                all == names(nodes@),
                r@.map_values(|c: Vec<NodeName>| names(c@)) + chunked(all.skip(start as int), n as nat) == chunked(all, n as nat),
            decreases nodes@.len() - start,
        {
            let end = if nodes.len() - start <= n { nodes.len() } else { start + n };
            let mut c: Vec<NodeName> = Vec::new();
            let mut i: usize = start;
            while i < end
                invariant
                    start <= i <= end,
                    end <= nodes@.len(),
                    all == names(nodes@),
                    names(c@) == all.subrange(start as int, i as int),
                decreases end - i,
            {
                let ghost before = c@;
                c.push(nodes[i].clone());
                assert(names(c@) =~= names(before).push(nodes@[i as int]@));
                assert(all.subrange(start as int, i + 1) =~= all.subrange(start as int, i as int).push(all[i as int]));
                i = i + 1;
            }
            let ghost rest = all.skip(start as int);
            let ghost before = r@.map_values(|c: Vec<NodeName>| names(c@));
            r.push(c);
            proof {
                if rest.len() <= n {
                    assert(rest.take(rest.len() as int) =~= rest);
                    assert(all.subrange(start as int, end as int) =~= rest);
                    assert(all.skip(end as int).len() == 0);
                    assert(chunked(all.skip(end as int), n as nat) =~= Seq::empty());
                } else {
                    assert(all.subrange(start as int, end as int) =~= rest.take(n as int));
                    assert(rest.skip(n as int) =~= all.skip(end as int));
                }
                assert(r@.map_values(|c: Vec<NodeName>| names(c@)) =~= before.push(all.subrange(start as int, end as int)));
            }
            start = end;
        }
        proof {
            assert(all.skip(start as int).len() == 0);
            assert(chunked(all.skip(start as int), n as nat) =~= Seq::empty());
            assert(r@.map_values(|c: Vec<NodeName>| names(c@)) =~= r@.map_values(|c: Vec<NodeName>| names(c@)) + Seq::<Seq<Seq<char>>>::empty());
        }
        r
    }
}

/// What the evaluator reports about one node.
#[derive(Debug)]
pub enum EvalEvent {
    /// The node's system was evaluated.
    Evaluated(String),
    /// The node failed to evaluate.
    AttributeFailed(String),
    /// Evaluation as a whole failed.
    GlobalFailure,
}

/// What the streaming executor does on a report.
#[derive(Debug)]
pub enum StreamStep {
    /// Build and activate the node.
    Deploy(NodeName),
    /// Record the node as failed; evaluation goes on.
    Failed(NodeName),
    /// Stop at once.
    Abort,
}

impl StreamingExecutor {
    /// The step taken on a report of the evaluator. A node with an empty name
    /// is refused.
    pub fn step(event: EvalEvent) -> (r: Result<StreamStep, NaviError>)
        ensures
            match event {
                EvalEvent::Evaluated(n) => if n@.len() > 0 {
                    r matches Ok(StreamStep::Deploy(m)) && m@ == n@
                } else {
                    r == Err::<StreamStep, NaviError>(NaviError::EmptyNodeName)
                },
                EvalEvent::AttributeFailed(n) => if n@.len() > 0 {
                    r matches Ok(StreamStep::Failed(m)) && m@ == n@
                } else {
                    r == Err::<StreamStep, NaviError>(NaviError::EmptyNodeName)
                },
                EvalEvent::GlobalFailure => r matches Ok(StreamStep::Abort),
            },
    {
        match event {
            EvalEvent::Evaluated(n) => match NodeName::new(n) {
                Ok(m) => Ok(StreamStep::Deploy(m)),
                Err(e) => Err(e),
            },
            EvalEvent::AttributeFailed(n) => match NodeName::new(n) {
                Ok(m) => Ok(StreamStep::Failed(m)),
                Err(e) => Err(e),
            },
            EvalEvent::GlobalFailure => Ok(StreamStep::Abort),
        }
    }

    /// The result once every started deployment has finished: an error when
    /// some node failed to evaluate.
    pub fn finish(failed: &Vec<NodeName>) -> (r: Result<(), NaviError>)
        ensures
            r == (if failed@.len() > 0 {
                Err::<(), NaviError>(NaviError::AttributeEvaluationError)
            } else {
                Ok(())
            }),
    {
        if failed.len() > 0 {
            Err(NaviError::AttributeEvaluationError)
        } else {
            Ok(())
        }
    }
}


/// The host of the target built for a node with settings `c`: an SSH host
/// where the node has a target host, set up from the node's settings, with the
/// given ssh_config and with `nix copy` for a flake; none otherwise.
pub open spec fn target_host_ok(h: Option<HostHandle>, c: NodeConfig, ssh_config: Option<String>, flake: bool) -> bool {
    match c.target_host {
        None => h is None,
        Some(th) => h matches Some(HostHandle::Ssh(s)) && {
            &&& s.host == th
            &&& s.user == c.target_user
            &&& s.port == c.target_port
            &&& s.ssh_config == ssh_config
            &&& s.privilege_escalation_command@ == c.privilege_escalation_command@
            &&& s.extra_ssh_options@ == c.extra_ssh_options@
            &&& s.use_nix3_copy == flake
            &&& s.provider@ == provider_of(c)
            &&& !s.force_hw_link
            &&& s.hw_link_interfaces is None
        },
    }
}

/// The selected nodes that become targets, in order: all of them, or only
/// those with a target host when only SSH hosts are wanted.
pub open spec fn kept_selection(sel: Seq<(NodeName, NodeConfig)>, ssh_only: bool) -> Seq<(NodeName, NodeConfig)>
    decreases sel.len(),
{
    if sel.len() == 0 {
        Seq::empty()
    } else {
        let rest = kept_selection(sel.drop_last(), ssh_only);
        if !ssh_only || sel.last().1.target_host is Some {
            rest.push(sel.last())
        } else {
            rest
        }
    }
}

/// The deployment targets of the selected nodes, each with its settings
/// (see [`target_host_ok`] and [`kept_selection`]).
pub fn select_targets(selected: Vec<(NodeName, NodeConfig)>, ssh_config: &Option<String>, is_flake: bool, ssh_only: bool) -> (r: Vec<TargetNode>)
    ensures
        r@.len() == kept_selection(selected@, ssh_only).len(),
        forall|k: int| #![trigger r@[k]] 0 <= k < r@.len() ==> {
            let (n, c) = kept_selection(selected@, ssh_only)[k];
            &&& r@[k].name == n
            &&& r@[k].config == c
            &&& target_host_ok(r@[k].host, c, *ssh_config, is_flake)
        },
{
    let ghost all = selected@;
    let mut rest = selected;
    let mut r: Vec<TargetNode> = Vec::new();
    let ghost mut i: int = 0;
    while rest.len() > 0
        invariant
            0 <= i <= all.len(),
            rest@ == all.subrange(i, all.len() as int),
            r@.len() == kept_selection(all.subrange(0, i), ssh_only).len(),
            forall|k: int| #![trigger r@[k]] 0 <= k < r@.len() ==> {
                let (n, c) = kept_selection(all.subrange(0, i), ssh_only)[k];
                &&& r@[k].name == n
                &&& r@[k].config == c
                &&& target_host_ok(r@[k].host, c, *ssh_config, is_flake)
            },
        decreases rest@.len(),
    {
        let ghost pre = all.subrange(0, i + 1);
        assert(pre.drop_last() =~= all.subrange(0, i));
        assert(pre.last() == rest@[0]);
        let (n, c) = rest.remove(0);
        let host = match c.to_ssh_host() {
            Some(mut h) => {
                if let Some(p) = ssh_config {
                    h.set_ssh_config(p.clone());
                }
                if is_flake {
                    h.set_use_nix3_copy(true);
                }
                Some(HostHandle::Ssh(h))
            },
            None => None,
        };
        let has_host = host.is_some();
        let t = TargetNode::new(n, host, c);
        if !ssh_only || has_host {
            r.push(t);
        }
        proof {
            i = i + 1;
            assert(rest@ =~= all.subrange(i, all.len() as int));
        }
    }
    assert(all.subrange(0, all.len() as int) =~= all);
    r
}


/// The targets among `targets` whose node is selected, in order.
pub open spec fn selected_targets(targets: Seq<TargetNode>, sel: Seq<Seq<char>>) -> Seq<TargetNode>
    decreases targets.len(),
{
    if targets.len() == 0 {
        Seq::empty()
    } else {
        let rest = selected_targets(targets.drop_last(), sel);
        if sel.contains(targets.last().name@) {
            rest.push(targets.last())
        } else {
            rest
        }
    }
}

/// Keeps the targets whose node is among `selected` (see [`selected_targets`]).
pub fn retain_selected(targets: Vec<TargetNode>, selected: &Vec<NodeName>) -> (r: Vec<TargetNode>)
    ensures
        r@ == selected_targets(targets@, names(selected@)),
{
    let ghost all = targets@;
    let mut rest = targets;
    let mut r: Vec<TargetNode> = Vec::new();
    let ghost mut i: int = 0;
    while rest.len() > 0
        invariant
            0 <= i <= all.len(),
            rest@ == all.subrange(i, all.len() as int),
            r@ == selected_targets(all.subrange(0, i), names(selected@)),
        decreases rest@.len(),
    {
        let ghost pre = all.subrange(0, i + 1);
        assert(pre.drop_last() =~= all.subrange(0, i));
        assert(pre.last() == rest@[0]);
        let t = rest.remove(0);
        if crate::view::is_selected(selected, &t.name) {
            r.push(t);
        }
        proof {
            i = i + 1;
            assert(rest@ =~= all.subrange(i, all.len() as int));
        }
    }
    assert(all.subrange(0, all.len() as int) =~= all);
    r
}


/// The reboot step runs exactly when the reboot option is set, whatever the
/// goal, the node's profile handling or its keys; and then it comes after the
/// activation and any provenance, and before the keys uploaded after activation.
pub proof fn lemma_reboot_step(
    a: NodeActivator,
    replace_unknown_profiles: bool,
    keys: Seq<(String, UploadKeyAt)>,
)
    ensures
        step_runs(a, replace_unknown_profiles, keys, ActivationStep::Reboot) == a.options.reboot,
        forall|g: Goal| #[trigger] step_runs(NodeActivator { goal: g, ..a }, replace_unknown_profiles, keys, ActivationStep::Reboot)
            == a.options.reboot,
        step_rank(ActivationStep::Activate) < step_rank(ActivationStep::Reboot),
        step_rank(ActivationStep::WriteProvenance) < step_rank(ActivationStep::Reboot),
        step_rank(ActivationStep::Reboot) < step_rank(ActivationStep::PostActivationKeys),
{
}

} // verus!
