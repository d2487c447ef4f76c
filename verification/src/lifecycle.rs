//! The lifecycle of one plugin instance.
//!
//! The embedding program does the work on a module (compiling it, linking
//! it, running its entry points) and reports each outcome as an [`Event`].
//! The functions here decide what state the instance is in afterwards and
//! what is to be done next.

use vstd::prelude::*;

verus! {

/// Where a plugin instance stands.
#[derive(Clone, Copy, Debug, PartialEq, Eq, Structural)]
pub enum Lifecycle {
    /// Found in the plugin directory; nothing done yet.
    Discovered,
    /// The module compiled.
    Compiled,
    /// Every import of the module resolved against the host's capabilities.
    Linked,
    /// The module runs in a store of its own.
    Instantiated,
    /// The initialization entry point has returned.
    Initialized,
    /// The plugin has reported its name and takes requests.
    Ready,
    /// A request is outstanding.
    Invoking,
    /// The instance failed and is abandoned.
    Faulted,
}

/// What the embedding program reports of its work on one instance.
#[derive(Debug)]
pub enum Event {
    /// The module compiled.
    Compiled,
    /// The module did not compile; the text is the engine's diagnostic.
    CompileFailed(String),
    /// Every import resolved.
    Linked,
    /// An import did not resolve; the text names it.
    LinkFailed(String),
    /// The module was instantiated in a fresh store.
    Instantiated,
    /// The initialization entry point returned.
    Initialized,
    /// The plugin reported its name.
    Named(String),
    /// A request was handed to the instance.
    Invoked,
    /// The outstanding request returned.
    Returned,
    /// The instance trapped; the text is the engine's diagnostic.
    Trapped(String),
}

/// What the embedding program is to do next with an instance.
#[derive(Clone, Copy, Debug, PartialEq, Eq, Structural)]
pub enum Action {
    /// Compile the module.
    Compile,
    /// Resolve the module's imports.
    Link,
    /// Create a fresh store and instantiate the module in it.
    Instantiate,
    /// Call the initialization entry point.
    Initialize,
    /// Ask the plugin for its name.
    QueryName,
    /// Nothing until a request comes in.
    Serve,
    /// Wait for the outstanding request.
    Await,
    /// Nothing, ever: the instance is abandoned.
    Abandon,
}

/// The kinds of failure that end an instance.
#[derive(Clone, Copy, Debug, PartialEq, Eq, Structural)]
pub enum FaultKind {
    /// The module is malformed, truncated or uses what the engine lacks.
    Compile,
    /// The module imports what the host does not offer.
    UnresolvedImport,
    /// The instance failed at run time.
    Trap,
}

impl Event {
    /// The kind of failure that the event reports, if it reports one.
    pub open spec fn fault(self) -> Option<FaultKind> {
        match self {
            Event::CompileFailed(_) => Some(FaultKind::Compile),
            Event::LinkFailed(_) => Some(FaultKind::UnresolvedImport),
            Event::Trapped(_) => Some(FaultKind::Trap),
            _ => None,
        }
    }

    /// The text that comes with the event: a diagnostic, the name of an
    /// import, or the plugin's name.
    pub open spec fn text(self) -> Seq<char> {
        match self {
            Event::CompileFailed(s) => s@,
            Event::LinkFailed(s) => s@,
            Event::Trapped(s) => s@,
            Event::Named(s) => s@,
            _ => Seq::empty(),
        }
    }

    /// Decides which kind of failure the event reports, if any.
    pub fn fault_kind(&self) -> (kind: Option<FaultKind>)
        ensures
            kind == self.fault(),
    {
        match self {
            Event::CompileFailed(_) => Some(FaultKind::Compile),
            Event::LinkFailed(_) => Some(FaultKind::UnresolvedImport),
            Event::Trapped(_) => Some(FaultKind::Trap),
            _ => None,
        }
    }
}

impl Lifecycle {
    /// The state that follows `self` on `event`, or `None` where the event
    /// cannot occur in this state.
    pub open spec fn after(self, event: Event) -> Option<Lifecycle> {
        match (self, event) {
            (Lifecycle::Discovered, Event::Compiled) => Some(Lifecycle::Compiled),
            (Lifecycle::Discovered, Event::CompileFailed(_)) => Some(Lifecycle::Faulted),
            (Lifecycle::Compiled, Event::Linked) => Some(Lifecycle::Linked),
            (Lifecycle::Compiled, Event::LinkFailed(_)) => Some(Lifecycle::Faulted),
            (Lifecycle::Linked, Event::Instantiated) => Some(Lifecycle::Instantiated),
            (Lifecycle::Linked, Event::Trapped(_)) => Some(Lifecycle::Faulted),
            (Lifecycle::Instantiated, Event::Initialized) => Some(Lifecycle::Initialized),
            (Lifecycle::Instantiated, Event::Trapped(_)) => Some(Lifecycle::Faulted),
            (Lifecycle::Initialized, Event::Named(_)) => Some(Lifecycle::Ready),
            (Lifecycle::Initialized, Event::Trapped(_)) => Some(Lifecycle::Faulted),
            (Lifecycle::Ready, Event::Invoked) => Some(Lifecycle::Invoking),
            (Lifecycle::Invoking, Event::Returned) => Some(Lifecycle::Ready),
            (Lifecycle::Invoking, Event::Trapped(_)) => Some(Lifecycle::Faulted),
            _ => None,
        }
    }

    /// What is to be done next in this state.
    pub open spec fn pending(self) -> Action {
        match self {
            Lifecycle::Discovered => Action::Compile,
            Lifecycle::Compiled => Action::Link,
            Lifecycle::Linked => Action::Instantiate,
            Lifecycle::Instantiated => Action::Initialize,
            Lifecycle::Initialized => Action::QueryName,
            Lifecycle::Ready => Action::Serve,
            Lifecycle::Invoking => Action::Await,
            Lifecycle::Faulted => Action::Abandon,
        }
    }

    /// How far the instance has come on the way from discovery to service.
    pub open spec fn progress(self) -> nat {
        match self {
            Lifecycle::Discovered => 0,
            Lifecycle::Compiled => 1,
            Lifecycle::Linked => 2,
            Lifecycle::Instantiated => 3,
            Lifecycle::Initialized => 4,
            Lifecycle::Ready => 5,
            Lifecycle::Invoking => 5,
            Lifecycle::Faulted => 6,
        }
    }

    /// Whether the plugin has reported its name in this state or before it.
    pub open spec fn is_loaded(self) -> bool {
        self == Lifecycle::Ready || self == Lifecycle::Invoking
    }

    /// Computes the state that follows on `event`, if the event can occur.
    pub fn step(self, event: &Event) -> (next: Option<Lifecycle>)
        ensures
            next == self.after(*event),
    {
        match self {
            Lifecycle::Discovered => match event {
                Event::Compiled => Some(Lifecycle::Compiled),
                Event::CompileFailed(_) => Some(Lifecycle::Faulted),
                _ => None,
            },
            Lifecycle::Compiled => match event {
                Event::Linked => Some(Lifecycle::Linked),
                Event::LinkFailed(_) => Some(Lifecycle::Faulted),
                _ => None,
            },
            Lifecycle::Linked => match event {
                Event::Instantiated => Some(Lifecycle::Instantiated),
                Event::Trapped(_) => Some(Lifecycle::Faulted),
                _ => None,
            },
            Lifecycle::Instantiated => match event {
                Event::Initialized => Some(Lifecycle::Initialized),
                Event::Trapped(_) => Some(Lifecycle::Faulted),
                _ => None,
            },
            Lifecycle::Initialized => match event {
                Event::Named(_) => Some(Lifecycle::Ready),
                Event::Trapped(_) => Some(Lifecycle::Faulted),
                _ => None,
            },
            Lifecycle::Ready => match event {
                Event::Invoked => Some(Lifecycle::Invoking),
                _ => None,
            },
            Lifecycle::Invoking => match event {
                Event::Returned => Some(Lifecycle::Ready),
                Event::Trapped(_) => Some(Lifecycle::Faulted),
                _ => None,
            },
            Lifecycle::Faulted => None,
        }
    }

    /// Tells what is to be done next in this state.
    pub fn next_action(self) -> (action: Action)
        ensures
            action == self.pending(),
    {
        match self {
            Lifecycle::Discovered => Action::Compile,
            Lifecycle::Compiled => Action::Link,
            Lifecycle::Linked => Action::Instantiate,
            Lifecycle::Instantiated => Action::Initialize,
            Lifecycle::Initialized => Action::QueryName,
            Lifecycle::Ready => Action::Serve,
            Lifecycle::Invoking => Action::Await,
            Lifecycle::Faulted => Action::Abandon,
        }
    }
}

/// A faulted instance is abandoned: no event moves it again.
pub proof fn lemma_faulted_is_terminal(event: Event)
    ensures
        Lifecycle::Faulted.after(event) is None,
{
}

/// An instance never goes back: every event that can occur leaves it where
/// it is between `Ready` and `Invoking` or moves it forward. So each step of
/// loading, the initialization among them, happens at most once.
pub proof fn lemma_no_way_back(state: Lifecycle, event: Event)
    requires
        state.after(event) is Some,
    ensures
        state.progress() <= state.after(event).unwrap().progress(),
        state.progress() == state.after(event).unwrap().progress() ==> state.is_loaded()
            && state.after(event).unwrap().is_loaded(),
{
}

/// An event that reports a failure, where it can occur, ends the instance;
/// no other event does.
pub proof fn lemma_faults_end_the_instance(state: Lifecycle, event: Event)
    requires
        state.after(event) is Some,
    ensures
        state.after(event) == Some(Lifecycle::Faulted) <==> event.fault() is Some,
{
}

/// The plugin reports its name exactly on the step from `Initialized` to
/// `Ready`.
pub proof fn lemma_named_once(state: Lifecycle, event: Event)
    requires
        state.after(event) is Some,
    ensures
        event is Named <==> state == Lifecycle::Initialized && state.after(event) == Some(
            Lifecycle::Ready,
        ),
{
}

} // verus!
