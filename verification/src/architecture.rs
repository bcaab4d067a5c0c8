//! The core architecture: a lifecycle and the components it drives.
use vstd::prelude::*;
use crate::lifecycle::{after_run, after_shutdown, LifecycleState};

verus! {

/// A component managed by the core architecture.
pub trait Component {
    /// The component's name.
    fn name(&self) -> &'static str;

    /// Prepares the component.
    fn init(&self) -> Result<(), String>;

    /// Runs the component.
    fn run(&self) -> Result<(), String>;

    /// Shuts the component down.
    fn shutdown(&self) -> Result<(), String>;
}

/// An operation that the architecture asks of a component.
#[derive(Clone, Copy, PartialEq, Eq, Structural)]
pub enum ComponentOp {
    /// Prepare it.
    Init,
    /// Run it.
    Run,
    /// Shut it down.
    Shutdown,
}

/// Asking each of the first `n` components, in order, for `op`.
pub open spec fn each_component(n: nat, op: ComponentOp) -> Seq<(nat, ComponentOp)> {
    Seq::new(n, |i: int| (i as nat, op))
}

/// The core architecture: its lifecycle state and its components.
pub struct CoreArchitecture {
    /// Where the architecture stands in its lifecycle.
    pub state: LifecycleState,
    /// The components, in the order they were added.
    pub components: Vec<Box<dyn Component>>,
    /// The calls made on the listed components, in order: each with the
    /// component's position in the list and the operation asked of it.
    pub calls: Ghost<Seq<(nat, ComponentOp)>>,
}

impl CoreArchitecture {
    /// A freshly initialized architecture without components.
    pub fn new() -> (r: Self)
        ensures
            r.state == LifecycleState::Initialized,
            r.components@.len() == 0,
            r.calls@.len() == 0,
    {
        CoreArchitecture {
            state: LifecycleState::Initialized,
            components: Vec::new(),
            calls: Ghost(Seq::empty()),
        }
    }

    /// Asks the component at position `i` for `op`, ignoring what it
    /// answers, and records the call.
    fn call_component(&mut self, i: usize, op: ComponentOp)
        requires
            i < old(self).components@.len(),
        ensures
            final(self).state == old(self).state,
            final(self).components@ == old(self).components@,
            final(self).calls@ == old(self).calls@.push((i as nat, op)),
    {
        let _ = match op {
            ComponentOp::Init => self.components[i].init(),
            ComponentOp::Run => self.components[i].run(),
            ComponentOp::Shutdown => self.components[i].shutdown(),
        };
        proof {
            self.calls@ = self.calls@.push((i as nat, op));
        }
    }

    /// Asks every listed component, in order, for `op`.
    fn call_each(&mut self, op: ComponentOp)
        ensures
            final(self).state == old(self).state,
            final(self).components@ == old(self).components@,
            final(self).calls@ == old(self).calls@ + each_component(
                old(self).components@.len(),
                op,
            ),
    {
        let n = self.components.len();
        for i in 0..n
            invariant
                n == self.components@.len(),
                self.state == old(self).state,
                self.components@ == old(self).components@,
                self.calls@ == old(self).calls@ + each_component(i as nat, op),
        {
            self.call_component(i, op);
            assert(each_component((i + 1) as nat, op) =~= each_component(i as nat, op).push(
                (i as nat, op),
            ));
        }
    }

    /// Starts the architecture and runs every component once; a request
    /// while not freshly initialized is ignored. A component that fails to
    /// run does not stop the others.
    pub fn run(&mut self)
        ensures
            final(self).state == after_run(old(self).state),
            final(self).components@ == old(self).components@,
            old(self).state == LifecycleState::Initialized ==> final(self).calls@ == old(
                self,
            ).calls@ + each_component(old(self).components@.len(), ComponentOp::Run),
            old(self).state != LifecycleState::Initialized ==> final(self).calls@ == old(
                self,
            ).calls@,
    {
        if self.state != LifecycleState::Initialized {
            return;
        }
        self.state = LifecycleState::Running;
        self.call_each(ComponentOp::Run);
    }

    /// Shuts the architecture down, shutting down every component; a request
    /// while already shut down is ignored. A component that fails to shut
    /// down does not stop the others.
    pub fn shutdown(&mut self)
        ensures
            final(self).state == after_shutdown(old(self).state),
            final(self).components@ == old(self).components@,
            old(self).state != LifecycleState::Shutdown ==> final(self).calls@ == old(
                self,
            ).calls@ + each_component(old(self).components@.len(), ComponentOp::Shutdown),
            old(self).state == LifecycleState::Shutdown ==> final(self).calls@ == old(
                self,
            ).calls@,
    {
        if self.state == LifecycleState::Shutdown {
            return;
        }
        self.state = LifecycleState::ShuttingDown;
        self.call_each(ComponentOp::Shutdown);
        self.state = LifecycleState::Shutdown;
    }

    /// Initializes a component and, when that succeeds, adds it after the
    /// others; when it fails, the architecture is unchanged and the failure
    /// is returned.
    pub fn add_component(&mut self, component: Box<dyn Component>) -> (r: Result<(), String>)
        ensures
            final(self).state == old(self).state,
            r is Ok ==> final(self).components@ == old(self).components@.push(component),
            r is Err ==> final(self).components@ == old(self).components@,
            final(self).calls@ == old(self).calls@.push(
                (old(self).components@.len(), ComponentOp::Init),
            ),
    {
        let outcome = component.init();
        proof {
            self.calls@ = self.calls@.push((self.components@.len(), ComponentOp::Init));
        }
        outcome?;
        self.components.push(component);
        Ok(())
    }
}

/// Settings of the architecture.
pub struct ArchitectureConfig {
    /// Whether debugging aids are on.
    pub debug_mode: bool,
    /// Whether performance is monitored.
    pub performance_monitoring: bool,
    /// How long a component may take to start, in milliseconds.
    pub component_timeout_ms: u64,
}

impl Default for ArchitectureConfig {
    fn default() -> (r: Self)
        ensures
            r.debug_mode,
            r.performance_monitoring,
            r.component_timeout_ms == 5000,
    {
        ArchitectureConfig { debug_mode: true, performance_monitoring: true, component_timeout_ms: 5000 }
    }
}

} // verus!
