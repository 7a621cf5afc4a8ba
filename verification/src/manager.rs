//! The top-level coordinator: it derives one physical watch per distinct
//! root from the agent list, merging the settings of agents that share a
//! root, and decides which events reach the agents at all.

use vstd::prelude::*;

use crate::agent::{Agent, AgentWatcher, Plan};
use crate::errors::SyncError;
use crate::path_model::{AbsPath, CompView};
use crate::settings::DEFAULT_EVENT_WINDOW_SECONDS;

verus! {

/// The kind of a debounced change event: settled, or still in progress.
#[derive(Debug, Clone, Copy, PartialEq, Eq, Structural)]
pub enum EventKind {
    /// A settled change; the only actionable kind.
    Any,
    /// A change still in progress; never dispatched.
    AnyContinuous,
}

/// One debounced change event, as the watch layer reports it.
#[derive(Debug)]
pub struct ChangeEvent {
    pub path: AbsPath,
    pub kind: EventKind,
}

/// An event reaches the agents only when it is settled and its path still
/// names a regular file at dispatch time — deletion races and directory
/// events are dropped here, before any agent sees them.
pub open spec fn event_actionable_spec(kind: EventKind, path_present: bool, path_is_file: bool) -> bool {
    kind == EventKind::Any && path_present && path_is_file
}

/// Decides whether an event is dispatched at all. The shell checks the
/// filesystem and passes in whether the event path still exists and names a
/// regular file.
pub fn event_actionable(kind: EventKind, path_present: bool, path_is_file: bool) -> (r: bool)
    ensures
        r == event_actionable_spec(kind, path_present, path_is_file),
{
    kind == EventKind::Any && path_present && path_is_file
}

/// The smaller of two windows.
pub open spec fn min64(a: u64, b: u64) -> u64 {
    if a <= b {
        a
    } else {
        b
    }
}

/// Does any of the first `k` agents watch `root`?
pub open spec fn has_root_upto(agents: Seq<Agent>, k: int, root: Seq<CompView>) -> bool {
    exists|i: int| 0 <= i < k && agents[i].root() == root
}

/// The effective debounce window of `root` over the first `k` agents: the
/// fold, agent by agent, of the windows of those that watch `root`, where
/// the shorter window wins.
pub open spec fn eff_window_upto(agents: Seq<Agent>, k: int, root: Seq<CompView>) -> u64
    decreases k,
{
    if k <= 0 {
        DEFAULT_EVENT_WINDOW_SECONDS
    } else if agents[k - 1].root() == root {
        if has_root_upto(agents, k - 1, root) {
            min64(
                eff_window_upto(agents, k - 1, root),
                agents[k - 1].watcher.settings.window_spec(),
            )
        } else {
            agents[k - 1].watcher.settings.window_spec()
        }
    } else {
        eff_window_upto(agents, k - 1, root)
    }
}

/// The effective recursion flag of `root` over the first `k` agents: true
/// once any of them asks for recursion.
pub open spec fn eff_recursive_upto(agents: Seq<Agent>, k: int, root: Seq<CompView>) -> bool
    decreases k,
{
    if k <= 0 {
        false
    } else {
        (agents[k - 1].root() == root && agents[k - 1].watcher.settings.recursive_spec())
            || eff_recursive_upto(agents, k - 1, root)
    }
}

/// Does some entry of `watches` carry `root`?
pub open spec fn root_covered(watches: Seq<AgentWatcher>, root: Seq<CompView>) -> bool {
    exists|x: int| 0 <= x < watches.len() && (#[trigger] watches[x]).local_path@ == root
}

/// Does `watches` hold an entry for the root of each of the first `k`
/// agents?
pub open spec fn roots_covered_upto(
    agents: Seq<Agent>,
    k: int,
    watches: Seq<AgentWatcher>,
) -> bool {
    forall|j: int| 0 <= j < k ==> root_covered(watches, (#[trigger] agents[j]).root())
}

/// A later entry never disturbs the cover already-present entries give.
proof fn lemma_roots_covered_push(
    agents: Seq<Agent>,
    k: int,
    watches: Seq<AgentWatcher>,
    w: AgentWatcher,
)
    requires
        roots_covered_upto(agents, k, watches),
    ensures
        roots_covered_upto(agents, k, watches.push(w)),
{
    assert forall|j: int| 0 <= j < k implies root_covered(
        watches.push(w),
        (#[trigger] agents[j]).root(),
    ) by {
        assert(root_covered(watches, agents[j].root()));
        let x = choose|x: int|
            0 <= x < watches.len() && (#[trigger] watches[x]).local_path@ == agents[j].root();
        assert(watches.push(w)[x] == watches[x]);
    }
}

/// Does any agent watch `root`?
pub open spec fn has_root(agents: Seq<Agent>, root: Seq<CompView>) -> bool {
    has_root_upto(agents, agents.len() as int, root)
}

/// The effective debounce window of `root` over the whole agent list.
pub open spec fn eff_window(agents: Seq<Agent>, root: Seq<CompView>) -> u64 {
    eff_window_upto(agents, agents.len() as int, root)
}

/// The effective recursion flag of `root` over the whole agent list.
pub open spec fn eff_recursive(agents: Seq<Agent>, root: Seq<CompView>) -> bool {
    eff_recursive_upto(agents, agents.len() as int, root)
}

/// The effective window of a shared root is the minimum of the windows of
/// the agents that watch it: no larger than any of them, and equal to one
/// of them.
pub proof fn lemma_eff_window_is_min(agents: Seq<Agent>, root: Seq<CompView>)
    requires
        has_root(agents, root),
    ensures
        forall|i: int|
            0 <= i < agents.len() && (#[trigger] agents[i]).root() == root ==> eff_window(
                agents,
                root,
            ) <= agents[i].watcher.settings.window_spec(),
        exists|i: int|
            0 <= i < agents.len() && (#[trigger] agents[i]).root() == root && eff_window(
                agents,
                root,
            ) == agents[i].watcher.settings.window_spec(),
{
    lemma_eff_window_upto_is_min(agents, agents.len() as int, root);
}

proof fn lemma_eff_window_upto_is_min(agents: Seq<Agent>, k: int, root: Seq<CompView>)
    requires
        has_root_upto(agents, k, root),
        k <= agents.len(),
    ensures
        forall|i: int|
            0 <= i < k && (#[trigger] agents[i]).root() == root ==> eff_window_upto(
                agents,
                k,
                root,
            ) <= agents[i].watcher.settings.window_spec(),
        exists|i: int|
            0 <= i < k && (#[trigger] agents[i]).root() == root && eff_window_upto(agents, k, root)
                == agents[i].watcher.settings.window_spec(),
    decreases k,
{
    if k <= 0 {
        assert(false);
    } else if agents[k - 1].root() == root {
        if has_root_upto(agents, k - 1, root) {
            lemma_eff_window_upto_is_min(agents, k - 1, root);
        }
    } else {
        assert(has_root_upto(agents, k - 1, root)) by {
            let w = choose|i: int| 0 <= i < k && agents[i].root() == root;
            assert(0 <= w < k - 1 && agents[w].root() == root);
        }
        lemma_eff_window_upto_is_min(agents, k - 1, root);
    }
}

/// The effective recursion flag of a root is true exactly when some agent
/// watching it asks for recursion.
pub proof fn lemma_eff_recursive_is_or(agents: Seq<Agent>, root: Seq<CompView>)
    ensures
        eff_recursive(agents, root) <==> exists|i: int|
            0 <= i < agents.len() && (#[trigger] agents[i]).root() == root
                && agents[i].watcher.settings.recursive_spec(),
{
    lemma_eff_recursive_upto_is_or(agents, agents.len() as int, root);
}

proof fn lemma_eff_recursive_upto_is_or(agents: Seq<Agent>, k: int, root: Seq<CompView>)
    requires
        k <= agents.len(),
    ensures
        eff_recursive_upto(agents, k, root) <==> exists|i: int|
            0 <= i < k && (#[trigger] agents[i]).root() == root
                && agents[i].watcher.settings.recursive_spec(),
    decreases k,
{
    if k <= 0 {
    } else {
        lemma_eff_recursive_upto_is_or(agents, k - 1, root);
    }
}

/// The top-level coordinator owning the agent list.
#[derive(Debug)]
pub struct Manager {
    pub agents: Vec<Agent>,
}

impl Manager {
    /// Builds a manager after validating the configuration: every agent's
    /// effective debounce window must lie within the accepted bounds.
    /// Invalid configuration is fatal before any watch is created.
    pub fn new(agents: Vec<Agent>) -> (r: Result<Manager, SyncError>)
        ensures
            match r {
                Ok(m) => {
                    &&& m.agents@ == agents@
                    &&& forall|i: int|
                        0 <= i < agents@.len() ==> (
                        #[trigger] agents@[i]).watcher.settings.window_in_bounds_spec()
                },
                Err(e) => {
                    &&& exists|i: int|
                        0 <= i < agents@.len() && !(
                        #[trigger] agents@[i]).watcher.settings.window_in_bounds_spec()
                    &&& e is ConfigurationError
                },
            },
    {
        let mut i: usize = 0;
        while i < agents.len()
            invariant
                i <= agents@.len(),
                forall|j: int|
                    0 <= j < i ==> (#[trigger] agents@[j]).watcher.settings.window_in_bounds_spec(),
            decreases agents@.len() - i,
        {
            if !agents[i].watcher.settings.window_in_bounds() {
                return Err(
                    SyncError::ConfigurationError(
                        String::from_str("debounce window out of bounds"),
                    ),
                );
            }
            i += 1;
        }
        Ok(Manager { agents })
    }

    /// Computes the minimal set of physical watches: exactly one per
    /// distinct root among the agents, carrying that root's merged settings
    /// — the minimum of the contributing windows and the disjunction of the
    /// contributing recursion flags.
    pub fn watchers(&self) -> (r: Vec<AgentWatcher>)
        ensures
            forall|x: int, y: int|
                0 <= x < y < r@.len() ==> (#[trigger] r@[x]).local_path@ != (
                #[trigger] r@[y]).local_path@,
            forall|x: int|
                0 <= x < r@.len() ==> has_root(self.agents@, (#[trigger] r@[x]).local_path@),
            roots_covered_upto(self.agents@, self.agents@.len() as int, r@),
            forall|x: int|
                0 <= x < r@.len() ==> (#[trigger] r@[x]).settings.window_spec() == eff_window(
                    self.agents@,
                    r@[x].local_path@,
                ),
            forall|x: int|
                0 <= x < r@.len() ==> (#[trigger] r@[x]).settings.recursive_spec() == eff_recursive(
                    self.agents@,
                    r@[x].local_path@,
                ),
    {
        let n = self.agents.len();
        let mut r: Vec<AgentWatcher> = Vec::new();
        let mut k: usize = 0;
        while k < n
            invariant
                n == self.agents@.len(),
                k <= n,
                forall|x: int, y: int|
                    0 <= x < y < r@.len() ==> (#[trigger] r@[x]).local_path@ != (
                    #[trigger] r@[y]).local_path@,
                forall|x: int|
                    0 <= x < r@.len() ==> has_root_upto(self.agents@, k as int, (
                    #[trigger] r@[x]).local_path@),
                roots_covered_upto(self.agents@, k as int, r@),
                forall|x: int|
                    0 <= x < r@.len() ==> (#[trigger] r@[x]).settings.window_spec() == eff_window(
                        self.agents@,
                        r@[x].local_path@,
                    ),
                forall|x: int|
                    0 <= x < r@.len() ==> (#[trigger] r@[x]).settings.recursive_spec()
                        == eff_recursive(self.agents@, r@[x].local_path@),
            decreases n - k,
        {
            let ghost r0 = r@;
            let ghost root = self.agents@[k as int].root();
            // Is some earlier agent already watching this root?
            let mut seen = false;
            let mut j: usize = 0;
            while j < k
                invariant
                    j <= k,
                    k < n,
                    n == self.agents@.len(),
                        root == self.agents@[k as int].root(),
                    seen == exists|t: int|
                        0 <= t < j && (#[trigger] self.agents@[t]).root() == root,
                decreases k - j,
            {
                if crate::path_model::abs_path_eq(
                    &self.agents[j].watcher.local_path,
                    &self.agents[k].watcher.local_path,
                ) {
                    seen = true;
                }
                j += 1;
            }
            if !seen {
                // First agent with this root: fold in the settings of every
                // later agent that shares it.
                let mut s = self.agents[k].watcher.settings;
                proof {
                    assert(!has_root_upto(self.agents@, k as int, root));
                    assert(eff_window_upto(self.agents@, k as int + 1, root) == s.window_spec());
                    lemma_eff_recursive_upto_is_or(self.agents@, k as int, root);
                    assert(!eff_recursive_upto(self.agents@, k as int, root));
                    assert(eff_recursive_upto(self.agents@, k as int + 1, root) == s.recursive_spec());
                }
                let mut t: usize = k + 1;
                while t < n
                    invariant
                        k < t <= n,
                        n == self.agents@.len(),
                                root == self.agents@[k as int].root(),
                        s.window_spec() == eff_window_upto(self.agents@, t as int, root),
                        s.recursive_spec() == eff_recursive_upto(self.agents@, t as int, root),
                    decreases n - t,
                {
                    if crate::path_model::abs_path_eq(
                        &self.agents[t].watcher.local_path,
                        &self.agents[k].watcher.local_path,
                    ) {
                        proof {
                            assert(has_root_upto(self.agents@, t as int, root));
                        }
                        s = s.combine(&self.agents[t].watcher.settings);
                    }
                    t += 1;
                }
                let entry = AgentWatcher {
                    local_path: self.agents[k].watcher.local_path.clone(),
                    settings: s,
                };
                proof {
                    // No existing entry carries this root, else an earlier
                    // agent would already watch it.
                    assert(forall|x: int|
                        0 <= x < r@.len() ==> (#[trigger] r@[x]).local_path@ != root);
                }
                let ghost e = entry;
                r.push(entry);
                proof {
                    assert(r@ == r0.push(e));
                    assert(r@[r@.len() - 1].local_path@ == root);
                    lemma_roots_covered_push(self.agents@, k as int, r0, e);
                }
            }
            proof {
                assert(roots_covered_upto(self.agents@, k as int, r@));
                assert forall|j: int| 0 <= j < k + 1 implies root_covered(r@, (
                #[trigger] self.agents@[j]).root()) by {
                    if j == k {
                        if seen {
                            let t = choose|t: int| 0 <= t < k && self.agents@[t].root() == root;
                            assert(root_covered(r@, self.agents@[t].root()));
                            assert(self.agents@[t].root() == root);
                        } else {
                            assert(r@[r@.len() - 1].local_path@ == root);
                            assert(root_covered(r@, root));
                        }
                    }
                }
                assert(roots_covered_upto(self.agents@, k as int + 1, r@));
            }
            k += 1;
        }
        r
    }

    /// The dispatch decision for one delivered event: nothing when the
    /// event is not actionable — still in progress, or its path no longer
    /// names a regular file — and otherwise every agent's plan, in agent
    /// order. The shell reports the filesystem's answers through
    /// `path_present` and `path_is_file`.
    pub fn process_event(
        &self,
        event: &ChangeEvent,
        path_present: bool,
        path_is_file: bool,
    ) -> (r: Option<Vec<Plan>>)
        ensures
            match r {
                None => !event_actionable_spec(event.kind, path_present, path_is_file),
                Some(plans) => {
                    &&& event_actionable_spec(event.kind, path_present, path_is_file)
                    &&& plans@.len() == self.agents@.len()
                    &&& forall|i: int|
                        0 <= i < plans@.len() ==> (#[trigger] self.agents@[i]).plan_matches(
                            event.path@,
                            plans@[i],
                        )
                },
            },
    {
        if !event_actionable(event.kind, path_present, path_is_file) {
            return None;
        }
        Some(self.plans_for_event(&event.path))
    }

    /// The plan of every agent for one event path, in agent order. Every
    /// agent is consulted: fan-out tests each agent against the path rather
    /// than looking up a single owner.
    pub fn plans_for_event(&self, path: &AbsPath) -> (r: Vec<Plan>)
        ensures
            r@.len() == self.agents@.len(),
            forall|i: int|
                0 <= i < r@.len() ==> (#[trigger] self.agents@[i]).plan_matches(path@, r@[i]),
    {
        let mut r: Vec<Plan> = Vec::new();
        let mut i: usize = 0;
        while i < self.agents.len()
            invariant
                i <= self.agents@.len(),
                r@.len() == i as nat,
                forall|j: int|
                    0 <= j < i ==> (#[trigger] self.agents@[j]).plan_matches(path@, r@[j]),
            decreases self.agents@.len() - i,
        {
            let plan = self.agents[i].plan_for(path);
            r.push(plan);
            i += 1;
        }
        r
    }
}

} // verus!
