//! Aggregate process and component health.

use vstd::prelude::*;
use crate::text::same_text;

verus! {

/// Process lifecycle state exposed through health endpoints.
#[derive(Debug, Clone, Copy, PartialEq, Eq, Structural)]
pub enum ProcessState {
    /// Process initialization has not completed.
    Starting,
    /// Process is accepting work.
    Running,
    /// Process is draining and accepts no new work.
    Draining,
    /// Process shutdown is complete.
    Stopped,
}

/// Stable aggregate readiness reason.
#[derive(Debug, Clone, Copy, PartialEq, Eq, Structural)]
pub enum ReadinessReason {
    /// The process has not entered the running state.
    ProcessNotRunning,
    /// At least one registered workload component is unavailable.
    ComponentUnavailable,
}

impl ReadinessReason {
    /// The stable public code.
    pub open spec fn code(self) -> Seq<char> {
        match self {
            ReadinessReason::ProcessNotRunning => "process_not_running"@,
            ReadinessReason::ComponentUnavailable => "component_unavailable"@,
        }
    }

    /// Returns a stable public code.
    pub fn as_str(self) -> (code: &'static str)
        ensures
            code@ == self.code(),
    {
        match self {
            ReadinessReason::ProcessNotRunning => "process_not_running",
            ReadinessReason::ComponentUnavailable => "component_unavailable",
        }
    }
}

/// Aggregate health snapshot containing no private component detail.
#[derive(Debug, Clone, Copy, PartialEq, Eq)]
pub struct HealthSnapshot {
    /// Whether the process event loop is alive.
    pub live: bool,
    /// Whether the process and every registered component can serve work.
    pub ready: bool,
    /// Stable aggregate reason when not ready.
    pub reason: Option<ReadinessReason>,
}

/// The snapshot of a process state and its components.
pub open spec fn snapshot_of(process: ProcessState, all_ready: bool) -> HealthSnapshot {
    HealthSnapshot {
        live: process != ProcessState::Stopped,
        ready: process == ProcessState::Running && all_ready,
        reason: if process != ProcessState::Running {
            Some(ReadinessReason::ProcessNotRunning)
        } else if !all_ready {
            Some(ReadinessReason::ComponentUnavailable)
        } else {
            None
        },
    }
}

#[derive(Debug)]
struct Component {
    name: String,
    ready: bool,
}

/// Whether a component of this name stands at an index.
spec fn named(components: Seq<Component>, i: int, name: Seq<char>) -> bool {
    0 <= i < components.len() && components[i].name@ == name
}

/// Components once one more is registered: a new one is unavailable, a known one stays as it is.
pub open spec fn registered(components: Map<Seq<char>, bool>, name: Seq<char>) -> Map<
    Seq<char>,
    bool,
> {
    if components.contains_key(name) {
        components
    } else {
        components.insert(name, false)
    }
}

/// Components once one reported its readiness; what is not registered is not taken.
pub open spec fn reported(
    components: Map<Seq<char>, bool>,
    name: Seq<char>,
    ready: bool,
) -> Map<Seq<char>, bool> {
    if components.contains_key(name) {
        components.insert(name, ready)
    } else {
        components
    }
}

/// Health registry with aggregate-only public snapshots.
#[derive(Debug)]
pub struct HealthRegistry {
    process: ProcessState,
    components: Vec<Component>,
}

impl HealthRegistry {
    #[verifier::type_invariant]
    spec fn well_formed(self) -> bool {
        forall|i: int, j: int|
            0 <= i < j < self.components@.len() ==> (#[trigger] self.components@[i]).name@ != (
            #[trigger] self.components@[j]).name@
    }

    /// The process lifecycle state.
    pub closed spec fn state(self) -> ProcessState {
        self.process
    }

    /// Readiness of each registered component.
    pub closed spec fn components(self) -> Map<Seq<char>, bool> {
        Map::new(
            |name: Seq<char>| exists|i: int| named(self.components@, i, name),
            |name: Seq<char>|
                self.components@[choose|i: int| named(self.components@, i, name)].ready,
        )
    }

    /// Whether every registered component is ready.
    pub open spec fn all_ready(self) -> bool {
        forall|name: Seq<char>| #[trigger]
            self.components().contains_key(name) ==> self.components()[name]
    }

    /// Creates a registry in `Starting` state.
    pub fn new() -> (health: Self)
        ensures
            health.state() == ProcessState::Starting,
            health.components() == Map::<Seq<char>, bool>::empty(),
    {
        let health = HealthRegistry { process: ProcessState::Starting, components: Vec::new() };
        assert(health.components() =~= Map::<Seq<char>, bool>::empty());
        health
    }

    /// Sets the process lifecycle state.
    pub fn set_process(&mut self, process: ProcessState)
        ensures
            final(self).state() == process,
            final(self).components() == old(self).components(),
    {
        proof {
            use_type_invariant(&*self);
        }
        self.process = process;
        assert(self.components() =~= old(self).components());
    }

    /// The index of a component, or the number of components.
    fn find(&self, name: &str) -> (i: usize)
        ensures
            i <= self.components@.len(),
            i < self.components@.len() ==> named(self.components@, i as int, name@),
            i == self.components@.len() ==> forall|j: int| !named(self.components@, j, name@),
    {
        let mut i: usize = 0;
        while i < self.components.len()
            invariant
                i <= self.components@.len(),
                forall|j: int| 0 <= j < i ==> !named(self.components@, j, name@),
            decreases self.components@.len() - i,
        {
            if same_text(self.components[i].name.as_str(), name) {
                return i;
            }
            i += 1;
        }
        i
    }

    /// Registers a named component as initially unavailable.
    pub fn register_component(&mut self, name: &str)
        ensures
            final(self).state() == old(self).state(),
            final(self).components() == if old(self).components().contains_key(name@) {
                old(self).components()
            } else {
                old(self).components().insert(name@, false)
            },
            final(self).components() == registered(old(self).components(), name@),
    {
        proof {
            use_type_invariant(&*self);
        }
        let ghost before = self.components@;
        let i: usize = self.find(name);
        if i == self.components.len() {
            let mut components: Vec<Component> = Vec::new();
            std::mem::swap(&mut components, &mut self.components);
            components.push(Component { name: name.to_owned(), ready: false });
            proof {
                assert forall|k: int, j: int| 0 <= k < j < components@.len() implies (
                #[trigger] components@[k]).name@ != (#[trigger] components@[j]).name@ by {
                    if j == before.len() {
                        assert(!named(before, k, name@));
                    }
                }
            }
            self.components = components;
            proof {
                assert(named(self.components@, before.len() as int, name@));
                assert forall|other: Seq<char>| self.components().contains_key(other) == old(
                    self,
                ).components().insert(name@, false).contains_key(other) by {
                    if exists|k: int| named(before, k, other) {
                        let k = choose|k: int| named(before, k, other);
                        assert(named(self.components@, k, other));
                    }
                    if exists|k: int| named(self.components@, k, other) {
                        let k = choose|k: int| named(self.components@, k, other);
                        if k < before.len() {
                            assert(named(before, k, other));
                        }
                    }
                }
                assert(self.components() =~= old(self).components().insert(name@, false));
            }
        } else {
            assert(old(self).components().contains_key(name@));
        }
    }

    /// Updates a component, returning `false` when it was never registered.
    pub fn set_component_ready(&mut self, name: &str, ready: bool) -> (known: bool)
        ensures
            final(self).state() == old(self).state(),
            known == old(self).components().contains_key(name@),
            final(self).components() == if known {
                old(self).components().insert(name@, ready)
            } else {
                old(self).components()
            },
            final(self).components() == reported(old(self).components(), name@, ready),
    {
        proof {
            use_type_invariant(&*self);
        }
        let ghost before = self.components@;
        let i: usize = self.find(name);
        if i == self.components.len() {
            return false;
        }
        let mut components: Vec<Component> = Vec::new();
        std::mem::swap(&mut components, &mut self.components);
        let name_copy = components[i].name.as_str().to_owned();
        components.set(i, Component { name: name_copy, ready });
        proof {
            assert forall|k: int, j: int| 0 <= k < j < components@.len() implies (
            #[trigger] components@[k]).name@ != (#[trigger] components@[j]).name@ by {
                assert(components@[k].name@ == before[k].name@);
                assert(components@[j].name@ == before[j].name@);
            }
        }
        self.components = components;
        proof {
            let now = self.components@;
            assert(named(now, i as int, name@));
            assert forall|k: int, other: Seq<char>| #[trigger] named(now, k, other) == named(
                before,
                k,
                other,
            ) by {}
            assert forall|other: Seq<char>| self.components().contains_key(other) == old(
                self,
            ).components().insert(name@, ready).contains_key(other) by {
                if exists|k: int| named(before, k, other) {
                    let k = choose|k: int| named(before, k, other);
                    assert(named(now, k, other));
                }
                if exists|k: int| named(now, k, other) {
                    let k = choose|k: int| named(now, k, other);
                    assert(named(before, k, other));
                }
            }
            assert forall|other: Seq<char>| self.components().contains_key(other) implies (
            #[trigger] self.components()[other]) == old(self).components().insert(
                name@,
                ready,
            )[other] by {
                let k = choose|k: int| named(now, k, other);
                let m = choose|m: int| named(before, m, other);
                assert(named(before, k, other));
                assert(before[k].name@ == before[m].name@);
                assert(k == m);
            }
            assert(self.components() =~= old(self).components().insert(name@, ready));
        }
        true
    }

    /// Returns a privacy-safe aggregate snapshot.
    pub fn snapshot(&self) -> (snapshot: HealthSnapshot)
        ensures
            snapshot == snapshot_of(self.state(), self.all_ready()),
    {
        proof {
            use_type_invariant(self);
        }
        let mut all_ready = true;
        let mut i: usize = 0;
        while i < self.components.len()
            invariant
                i <= self.components@.len(),
                all_ready <==> forall|j: int| 0 <= j < i ==> (#[trigger] self.components@[j]).ready,
            decreases self.components@.len() - i,
        {
            if !self.components[i].ready {
                all_ready = false;
            }
            i += 1;
        }
        proof {
            if all_ready {
                assert forall|name: Seq<char>| #[trigger]
                    self.components().contains_key(name) implies self.components()[name] by {
                    let k = choose|k: int| named(self.components@, k, name);
                    assert(named(self.components@, k, name));
                }
            } else {
                let j = choose|j: int|
                    0 <= j < self.components@.len() && !(#[trigger] self.components@[j]).ready;
                let name = self.components@[j].name@;
                assert(named(self.components@, j, name));
                let k = choose|k: int| named(self.components@, k, name);
                assert(self.components@[k].name@ == self.components@[j].name@);
                assert(k == j);
                assert(self.components().contains_key(name));
                assert(!self.components()[name]);
            }
        }
        let running = self.process == ProcessState::Running;
        let ready = running && all_ready;
        let reason = if ready {
            None
        } else if !running {
            Some(ReadinessReason::ProcessNotRunning)
        } else {
            Some(ReadinessReason::ComponentUnavailable)
        };
        HealthSnapshot { live: self.process != ProcessState::Stopped, ready, reason }
    }
}

/// A process is ready exactly when it runs and every registered component is ready, and it names a
/// reason exactly when it is not.
pub proof fn readiness_needs_process_and_components(process: ProcessState, all_ready: bool)
    ensures
        ({
            let snapshot = snapshot_of(process, all_ready);
            &&& snapshot.ready <==> process == ProcessState::Running && all_ready
            &&& snapshot.ready <==> snapshot.reason is None
            &&& snapshot.ready ==> snapshot.live
        }),
{
}

/// What is missing is named: a process that does not run before any component, and a component only
/// where the process runs. A process lives until it has stopped.
pub proof fn reasons_name_what_is_missing(process: ProcessState, all_ready: bool)
    ensures
        ({
            let snapshot = snapshot_of(process, all_ready);
            &&& snapshot.live <==> process != ProcessState::Stopped
            &&& snapshot.reason == Some(ReadinessReason::ProcessNotRunning) <==> process
                != ProcessState::Running
            &&& snapshot.reason == Some(ReadinessReason::ComponentUnavailable) <==> process
                == ProcessState::Running && !all_ready
        }),
{
}

/// A component is unavailable until it reports, its last report counts, and no report touches
/// another component. Registering it again changes nothing, and what was never registered cannot
/// report.
pub proof fn the_last_report_counts(
    components: Map<Seq<char>, bool>,
    name: Seq<char>,
    other: Seq<char>,
    first: bool,
    second: bool,
)
    ensures
        registered(components, name).contains_key(name),
        registered(registered(components, name), name) == registered(components, name),
        !components.contains_key(name) ==> !registered(components, name)[name],
        !components.contains_key(name) ==> reported(components, name, first) == components,
        components.contains_key(name) ==> {
            &&& registered(components, name) == components
            &&& reported(components, name, first)[name] == first
            &&& reported(reported(components, name, first), name, second) =~= reported(
                components,
                name,
                second,
            )
        },
        other != name ==> {
            &&& registered(components, name).contains_key(other) == components.contains_key(other)
            &&& reported(components, name, first).contains_key(other) == components.contains_key(
                other,
            )
            &&& components.contains_key(other) ==> reported(components, name, first)[other]
                == components[other]
        },
{
}

}
