//! The plugin host: the registry of discovered plugins, their descriptors
//! and their failures.
//!
//! A host is an ordinary value. It assigns identifiers, keeps the lifecycle
//! state of every plugin it has discovered and decides, event by event, what
//! becomes of the one plugin the event is about. No event about one plugin
//! touches the record of another.

use vstd::prelude::*;

use crate::discovery::{candidates, candidates_below, DirEntry};
use crate::lifecycle::{Action, Event, FaultKind, Lifecycle};
use crate::table::PluginId;

verus! {

/// Why the host refused an operation.
#[derive(Clone, Copy, Debug, PartialEq, Eq, Structural)]
pub enum HostError {
    /// The plugin directory does not exist or is no directory.
    DirectoryNotFound,
    /// The host has assigned no such identifier.
    PluginNotFound,
    /// The plugin has failed and is abandoned.
    Faulted,
    /// The event or request cannot occur in the plugin's state.
    OutOfOrder,
    /// The request trapped; the plugin is abandoned from now on.
    Trap,
}

/// What the host knows of a plugin that loaded.
#[derive(Debug)]
pub struct PluginDesc {
    /// The identifier that the host assigned at discovery.
    pub id: PluginId,
    /// The name that the plugin reported of itself.
    pub name: String,
    /// The file that the plugin was loaded from.
    pub path: String,
}

/// A descriptor as a mathematical value.
pub struct DescView {
    pub id: PluginId,
    pub name: Seq<char>,
    pub path: Seq<char>,
}

impl View for PluginDesc {
    type V = DescView;

    open spec fn view(&self) -> DescView {
        DescView { id: self.id, name: self.name@, path: self.path@ }
    }
}

/// The record of a plugin that failed.
#[derive(Debug)]
pub struct Failure {
    /// The identifier that the host assigned at discovery.
    pub id: PluginId,
    /// The file that the plugin was to be loaded from.
    pub path: String,
    /// The kind of failure.
    pub kind: FaultKind,
    /// The engine's diagnostic, or the name of the import that is missing.
    pub detail: String,
}

/// A failure as a mathematical value.
pub struct FailureView {
    pub id: PluginId,
    pub path: Seq<char>,
    pub kind: FaultKind,
    pub detail: Seq<char>,
}

impl View for Failure {
    type V = FailureView;

    open spec fn view(&self) -> FailureView {
        FailureView { id: self.id, path: self.path@, kind: self.kind, detail: self.detail@ }
    }
}

/// What the host keeps of one discovered plugin.
pub struct PluginView {
    pub path: Seq<char>,
    pub state: Lifecycle,
}

/// The host as a mathematical value. A plugin's identifier is its position
/// in `plugins`.
pub struct HostView {
    pub plugins: Seq<PluginView>,
    pub descriptors: Seq<DescView>,
    pub failures: Seq<FailureView>,
}

/// The descriptors of `list` as mathematical values.
pub open spec fn desc_views(list: Seq<PluginDesc>) -> Seq<DescView> {
    list.map_values(|d: PluginDesc| d@)
}

/// The failures of `list` as mathematical values.
pub open spec fn failure_views(list: Seq<Failure>) -> Seq<FailureView> {
    list.map_values(|f: Failure| f@)
}

/// The identifiers `base`, `base + 1`, ... up to `count` of them.
pub open spec fn fresh_ids(base: nat, count: nat) -> Seq<PluginId> {
    Seq::new(count, |i: int| (base + i) as usize)
}

impl HostView {
    /// Whether a descriptor of the plugin `id` is on record.
    pub open spec fn described(self, id: PluginId) -> bool {
        exists|k: int| 0 <= k < self.descriptors.len() && (#[trigger] self.descriptors[k]).id == id
    }

    /// Whether a failure of the plugin `id` is on record.
    pub open spec fn failed(self, id: PluginId) -> bool {
        exists|k: int| 0 <= k < self.failures.len() && (#[trigger] self.failures[k]).id == id
    }

    /// The registry's invariant. Descriptors and failures speak of
    /// discovered plugins under the paths they were discovered at; each
    /// plugin has at most one descriptor and at most one failure; a plugin
    /// has a descriptor exactly if it has reported its name, and a failure
    /// exactly if it is abandoned.
    pub open spec fn valid(self) -> bool {
        &&& forall|k: int|
            0 <= k < self.descriptors.len() ==> {
                let d = #[trigger] self.descriptors[k];
                &&& d.id < self.plugins.len()
                &&& d.path == self.plugins[d.id as int].path
                &&& self.plugins[d.id as int].state.progress() >= 5
            }
        &&& forall|j: int, k: int|
            0 <= j < k < self.descriptors.len() ==> (#[trigger] self.descriptors[j]).id != (
            #[trigger] self.descriptors[k]).id
        &&& forall|k: int|
            0 <= k < self.failures.len() ==> {
                let f = #[trigger] self.failures[k];
                &&& f.id < self.plugins.len()
                &&& f.path == self.plugins[f.id as int].path
                &&& self.plugins[f.id as int].state == Lifecycle::Faulted
            }
        &&& forall|j: int, k: int|
            0 <= j < k < self.failures.len() ==> (#[trigger] self.failures[j]).id != (
            #[trigger] self.failures[k]).id
        &&& forall|id: PluginId|
            id < self.plugins.len() && (#[trigger] self.plugins[id as int]).state.is_loaded()
                ==> self.described(id)
        &&& forall|id: PluginId|
            id < self.plugins.len() && (#[trigger] self.plugins[id as int]).state
                == Lifecycle::Faulted ==> self.failed(id)
    }

    /// Why the host refuses `event` for the plugin `id`, if it does.
    pub open spec fn refusal(self, id: PluginId, event: Event) -> Option<HostError> {
        if id >= self.plugins.len() {
            Some(HostError::PluginNotFound)
        } else if self.plugins[id as int].state == Lifecycle::Faulted {
            Some(HostError::Faulted)
        } else if self.plugins[id as int].state.after(event) is None {
            Some(HostError::OutOfOrder)
        } else {
            None
        }
    }

    /// The host after `event` was reported for the plugin `id`. An event
    /// that the host refuses changes nothing. Otherwise the plugin moves to
    /// the state that follows; its name, where the event reports it, is
    /// committed as a descriptor, and a failure is put on record.
    pub open spec fn apply(self, id: PluginId, event: Event) -> HostView {
        if self.refusal(id, event) is Some {
            self
        } else {
            let plugin = self.plugins[id as int];
            let moved = PluginView { path: plugin.path, state: plugin.state.after(event).unwrap() };
            HostView {
                plugins: self.plugins.update(id as int, moved),
                descriptors: if event is Named {
                    self.descriptors.push(DescView { id, name: event.text(), path: plugin.path })
                } else {
                    self.descriptors
                },
                failures: match event.fault() {
                    Some(kind) => self.failures.push(
                        FailureView { id, path: plugin.path, kind, detail: event.text() },
                    ),
                    None => self.failures,
                },
            }
        }
    }

    /// The host after the files at `paths` were discovered: each is a new
    /// plugin in state `Discovered`, with the next identifiers in order.
    pub open spec fn with_candidates(self, paths: Seq<Seq<char>>) -> HostView {
        HostView {
            plugins: self.plugins + Seq::new(
                paths.len(),
                |i: int| PluginView { path: paths[i], state: Lifecycle::Discovered },
            ),
            descriptors: self.descriptors,
            failures: self.failures,
        }
    }
}

/// Reporting an event keeps the registry's invariant.
pub proof fn lemma_apply_keeps_valid(host: HostView, id: PluginId, event: Event)
    requires
        host.valid(),
    ensures
        host.apply(id, event).valid(),
{
    let next = host.apply(id, event);
    if host.refusal(id, event) is None {
        let before = host.plugins[id as int].state;
        let after = before.after(event).unwrap();
        assert forall|k: int| 0 <= k < host.descriptors.len() implies (
        #[trigger] host.descriptors[k]).id != id || (after.progress() >= 5 && !(event is Named)) by {}
        assert forall|k: int| 0 <= k < host.failures.len() implies (#[trigger] host.failures[k]).id
            != id by {}
        assert forall|other: PluginId|
            other < next.plugins.len() && (#[trigger] next.plugins[other as int]).state.is_loaded()
            implies next.described(other) by {
            if other == id && event is Named {
                assert(next.descriptors[host.descriptors.len() as int].id == id);
            } else {
                assert(host.plugins[other as int].state.is_loaded());
                let k = choose|k: int|
                    0 <= k < host.descriptors.len() && (#[trigger] host.descriptors[k]).id
                        == other;
                assert(next.descriptors[k].id == other);
            }
        }
        assert forall|other: PluginId|
            other < next.plugins.len() && (#[trigger] next.plugins[other as int]).state
                == Lifecycle::Faulted implies next.failed(other) by {
            if other == id {
                assert(event.fault() is Some);
                assert(next.failures[host.failures.len() as int].id == id);
            } else {
                assert(host.plugins[other as int].state == Lifecycle::Faulted);
                let k = choose|k: int|
                    0 <= k < host.failures.len() && (#[trigger] host.failures[k]).id == other;
                assert(next.failures[k].id == other);
            }
        }
    }
}

/// Discovering files keeps the registry's invariant.
pub proof fn lemma_discovery_keeps_valid(host: HostView, paths: Seq<Seq<char>>)
    requires
        host.valid(),
    ensures
        host.with_candidates(paths).valid(),
{
    let next = host.with_candidates(paths);
    assert forall|id: PluginId|
        id < next.plugins.len() && (#[trigger] next.plugins[id as int]).state.is_loaded()
        implies next.described(id) by {
        assert(host.plugins[id as int].state.is_loaded());
        let k = choose|k: int|
            0 <= k < host.descriptors.len() && (#[trigger] host.descriptors[k]).id == id;
        assert(next.descriptors[k].id == id);
    }
    assert forall|id: PluginId|
        id < next.plugins.len() && (#[trigger] next.plugins[id as int]).state
            == Lifecycle::Faulted implies next.failed(id) by {
        assert(host.plugins[id as int].state == Lifecycle::Faulted);
        let k = choose|k: int| 0 <= k < host.failures.len() && (#[trigger] host.failures[k]).id == id;
        assert(next.failures[k].id == id);
    }
}

/// What the host keeps of one discovered plugin.
struct Record {
    path: String,
    state: Lifecycle,
}

/// The plugin host.
pub struct PluginHost {
    /// One record per discovered plugin; a plugin's identifier is its index.
    records: Vec<Record>,
    descriptors: Vec<PluginDesc>,
    failures: Vec<Failure>,
}

impl View for PluginHost {
    type V = HostView;

    closed spec fn view(&self) -> HostView {
        HostView {
            plugins: self.records@.map_values(
                |r: Record| PluginView { path: r.path@, state: r.state },
            ),
            descriptors: desc_views(self.descriptors@),
            failures: failure_views(self.failures@),
        }
    }
}

impl PluginHost {
    /// The host's invariant: that of its registry.
    pub open spec fn wf(&self) -> bool {
        self@.valid()
    }

    /// A host that has discovered nothing yet.
    pub fn new() -> (host: PluginHost)
        ensures
            host.wf(),
            host@.plugins.len() == 0,
            host@.descriptors.len() == 0,
            host@.failures.len() == 0,
    {
        PluginHost { records: Vec::new(), descriptors: Vec::new(), failures: Vec::new() }
    }

    /// Takes the listing of the plugin directory, or `None` where the path
    /// is no directory, and registers every candidate of the listing, in the
    /// order of the listing, as a plugin in state `Discovered`. Returns the
    /// identifiers assigned: the next ones, none used before. Without a
    /// directory the call fails with `DirectoryNotFound` and registers
    /// nothing.
    pub fn discover(&mut self, listing: Option<&Vec<DirEntry>>) -> (res: Result<
        Vec<PluginId>,
        HostError,
    >)
        requires
            old(self).wf(),
        ensures
            final(self).wf(),
            match res {
                Ok(ids) => {
                    &&& listing matches Some(entries)
                    &&& final(self)@ == old(self)@.with_candidates(candidates(entries@))
                    &&& ids@ == fresh_ids(
                        old(self)@.plugins.len(),
                        candidates(entries@).len(),
                    )
                },
                Err(e) => {
                    &&& listing is None
                    &&& e == HostError::DirectoryNotFound
                    &&& final(self)@ == old(self)@
                },
            },
    {
        let entries = match listing {
            Some(entries) => entries,
            None => {
                return Err(HostError::DirectoryNotFound);
            },
        };
        let mut ids: Vec<PluginId> = Vec::new();
        let mut i: usize = 0;
        proof {
            assert(self@.plugins =~= old(self)@.with_candidates(
                candidates_below(entries@, 0),
            ).plugins);
        }
        while i < entries.len()
            invariant
                i <= entries.len(),
                self@ == old(self)@.with_candidates(candidates_below(entries@, i as nat)),
                ids@ == fresh_ids(
                    old(self)@.plugins.len(),
                    candidates_below(entries@, i as nat).len(),
                ),
            decreases entries.len() - i,
        {
            let ghost found = candidates_below(entries@, i as nat);
            if entries[i].is_candidate() {
                let id: PluginId = self.records.len();
                let ghost prior = self@;
                proof {
                    assert(prior.plugins.len() == self.records@.len());
                    assert(prior.plugins.len() == old(self)@.plugins.len() + found.len());
                }
                self.records.push(Record { path: entries[i].path.clone(), state: Lifecycle::Discovered });
                ids.push(id);
                proof {
                    let grown = old(self)@.with_candidates(found.push(entries@[i as int].path@));
                    assert(id == old(self)@.plugins.len() + found.len());
                    assert(self@.plugins =~= prior.plugins.push(
                        PluginView { path: entries@[i as int].path@, state: Lifecycle::Discovered },
                    ));
                    assert(self@.plugins =~= grown.plugins);
                    assert(self@.descriptors == grown.descriptors);
                    assert(self@.failures == grown.failures);
                    assert(ids@ =~= fresh_ids(old(self)@.plugins.len(), found.len() + 1));
                }
            }
            i = i + 1;
        }
        proof {
            lemma_discovery_keeps_valid(old(self)@, candidates(entries@));
        }
        Ok(ids)
    }

    /// The number of plugins discovered so far, which is the identifier
    /// that the next one gets.
    pub fn plugin_count(&self) -> (n: usize)
        ensures
            n == self@.plugins.len(),
    {
        self.records.len()
    }

    /// The state of the plugin `id`, or `None` where there is no such plugin.
    pub fn state_of(&self, id: PluginId) -> (state: Option<Lifecycle>)
        ensures
            state == if id < self@.plugins.len() {
                Some(self@.plugins[id as int].state)
            } else {
                None
            },
    {
        if id < self.records.len() {
            Some(self.records[id].state)
        } else {
            None
        }
    }

    /// The file of the plugin `id`, or `None` where there is no such plugin.
    pub fn path_of(&self, id: PluginId) -> (path: Option<&String>)
        ensures
            path is Some <==> id < self@.plugins.len(),
            path matches Some(p) ==> p@ == self@.plugins[id as int].path,
    {
        if id < self.records.len() {
            Some(&self.records[id].path)
        } else {
            None
        }
    }

    /// What is to be done next with the plugin `id`; `PluginNotFound` where
    /// there is no such plugin.
    pub fn next_action(&self, id: PluginId) -> (res: Result<Action, HostError>)
        ensures
            res == if id < self@.plugins.len() {
                Ok::<Action, HostError>(self@.plugins[id as int].state.pending())
            } else {
                Err::<Action, HostError>(HostError::PluginNotFound)
            },
    {
        if id < self.records.len() {
            Ok(self.records[id].state.next_action())
        } else {
            Err(HostError::PluginNotFound)
        }
    }

    /// Takes the report of `event` for the plugin `id` and returns the
    /// plugin's new state. The event is refused, and nothing changes, with
    /// `PluginNotFound` where there is no such plugin, with `Faulted` where
    /// the plugin is abandoned, and with `OutOfOrder` where the event cannot
    /// occur in the plugin's state. Otherwise only this plugin's record
    /// changes; see [`HostView::apply`].
    pub fn advance(&mut self, id: PluginId, event: Event) -> (res: Result<Lifecycle, HostError>)
        requires
            old(self).wf(),
        ensures
            final(self).wf(),
            final(self)@ == old(self)@.apply(id, event),
            match res {
                Ok(state) => {
                    &&& old(self)@.refusal(id, event) is None
                    &&& old(self)@.plugins[id as int].state.after(event) == Some(state)
                },
                Err(e) => old(self)@.refusal(id, event) == Some(e),
            },
    {
        if id >= self.records.len() {
            return Err(HostError::PluginNotFound);
        }
        let state = self.records[id].state;
        let next = match state.step(&event) {
            Some(next) => next,
            None => {
                return match state {
                    Lifecycle::Faulted => Err(HostError::Faulted),
                    _ => Err(HostError::OutOfOrder),
                };
            },
        };
        let kind = event.fault_kind();
        let path = self.records[id].path.clone();
        self.records.set(id, Record { path: path.clone(), state: next });
        match event {
            Event::Named(name) => {
                self.descriptors.push(PluginDesc { id, name, path });
            },
            Event::CompileFailed(detail) => {
                self.failures.push(Failure { id, path, kind: FaultKind::Compile, detail });
            },
            Event::LinkFailed(detail) => {
                self.failures.push(Failure { id, path, kind: FaultKind::UnresolvedImport, detail });
            },
            Event::Trapped(detail) => {
                self.failures.push(Failure { id, path, kind: FaultKind::Trap, detail });
            },
            _ => {},
        }
        proof {
            assert(self@.plugins =~= old(self)@.apply(id, event).plugins);
            assert(self@.descriptors =~= old(self)@.apply(id, event).descriptors);
            assert(self@.failures =~= old(self)@.apply(id, event).failures);
            lemma_apply_keeps_valid(old(self)@, id, event);
        }
        Ok(next)
    }

    /// Admits a request to the plugin `id`: the plugin goes from `Ready` to
    /// `Invoking`, and the embedding program may make the call. Refused, and
    /// nothing changes, with `PluginNotFound` where there is no such plugin,
    /// with `Faulted` where the plugin is abandoned, and with `OutOfOrder`
    /// where it has not finished loading or a request is outstanding.
    pub fn begin_invoke(&mut self, id: PluginId) -> (res: Result<(), HostError>)
        requires
            old(self).wf(),
        ensures
            final(self).wf(),
            final(self)@ == old(self)@.apply(id, Event::Invoked),
            match res {
                Ok(_) => old(self)@.refusal(id, Event::Invoked) is None,
                Err(e) => old(self)@.refusal(id, Event::Invoked) == Some(e),
            },
    {
        match self.advance(id, Event::Invoked) {
            Ok(_) => Ok(()),
            Err(e) => Err(e),
        }
    }

    /// Takes the outcome of the request that is outstanding at the plugin
    /// `id`: `None` where the call returned, the engine's diagnostic where
    /// it trapped. After a return the plugin is `Ready` again. After a trap
    /// it is abandoned, a failure is on record, and the call fails with
    /// `Trap`. Refused as [`PluginHost::advance`] refuses where no request
    /// is outstanding.
    pub fn finish_invoke(&mut self, id: PluginId, trap: Option<String>) -> (res: Result<
        (),
        HostError,
    >)
        requires
            old(self).wf(),
        ensures
            final(self).wf(),
            final(self)@ == old(self)@.apply(id, outcome_event(trap)),
            match res {
                Ok(_) => old(self)@.refusal(id, outcome_event(trap)) is None && trap is None,
                Err(e) => match old(self)@.refusal(id, outcome_event(trap)) {
                    Some(refused) => e == refused,
                    None => trap is Some && e == HostError::Trap,
                },
            },
    {
        match trap {
            None => match self.advance(id, Event::Returned) {
                Ok(_) => Ok(()),
                Err(e) => Err(e),
            },
            Some(detail) => match self.advance(id, Event::Trapped(detail)) {
                Ok(_) => Err(HostError::Trap),
                Err(e) => Err(e),
            },
        }
    }

    /// The descriptors of the plugins that loaded, in the order in which
    /// they reported their names.
    pub fn descriptors(&self) -> (list: &Vec<PluginDesc>)
        ensures
            desc_views(list@) == self@.descriptors,
    {
        &self.descriptors
    }

    /// The failures on record, in the order in which they were reported.
    pub fn failures(&self) -> (list: &Vec<Failure>)
        ensures
            failure_views(list@) == self@.failures,
    {
        &self.failures
    }
}

/// The event that the outcome of a request amounts to.
pub open spec fn outcome_event(trap: Option<String>) -> Event {
    match trap {
        None => Event::Returned,
        Some(detail) => Event::Trapped(detail),
    }
}

impl HostView {
    /// The host after the reports of `trace`, each a plugin and an event,
    /// were taken in order.
    pub open spec fn run(self, trace: Seq<(PluginId, Event)>) -> HostView
        decreases trace.len(),
    {
        if trace.len() == 0 {
            self
        } else {
            self.apply(trace[0].0, trace[0].1).run(trace.drop_first())
        }
    }
}

/// The events of `trace` that are about the plugin `id`, in order.
pub open spec fn events_of(trace: Seq<(PluginId, Event)>, id: PluginId) -> Seq<Event>
    decreases trace.len(),
{
    if trace.len() == 0 {
        Seq::empty()
    } else if trace[0].0 == id {
        seq![trace[0].1] + events_of(trace.drop_first(), id)
    } else {
        events_of(trace.drop_first(), id)
    }
}

/// Whether `events` are the reports of a load without failure that starts
/// in the state `from` and ends, with the last event, in `Ready`.
pub open spec fn loads_cleanly(events: Seq<Event>, from: Lifecycle) -> bool
    decreases events.len(),
{
    if events.len() == 0 {
        from == Lifecycle::Ready
    } else {
        &&& from.progress() < 5
        &&& events[0].fault() is None
        &&& from.after(events[0]) is Some
        &&& loads_cleanly(events.drop_first(), from.after(events[0]).unwrap())
    }
}

/// Identifiers are never reused: the identifiers that one discovery assigns
/// differ from each other and from every identifier assigned before.
pub proof fn lemma_fresh_ids_are_new(base: nat, count: nat, i: int, j: int)
    requires
        base + count <= usize::MAX + 1,
        0 <= i < count,
        0 <= j < count,
    ensures
        fresh_ids(base, count)[i] >= base,
        i != j ==> fresh_ids(base, count)[i] != fresh_ids(base, count)[j],
{
}

/// Reports change no identity: after any reports the host knows the same
/// plugins under the same identifiers and paths, and none has gone back in
/// its lifecycle.
pub proof fn lemma_reports_keep_identity(host: HostView, trace: Seq<(PluginId, Event)>)
    ensures
        host.run(trace).plugins.len() == host.plugins.len(),
        forall|id: int|
            0 <= id < host.plugins.len() ==> {
                &&& (#[trigger] host.run(trace).plugins[id]).path == host.plugins[id].path
                &&& host.plugins[id].state.progress() <= host.run(trace).plugins[id].state.progress()
            },
    decreases trace.len(),
{
    if trace.len() > 0 {
        let mid = host.apply(trace[0].0, trace[0].1);
        lemma_reports_keep_identity(mid, trace.drop_first());
        assert forall|id: int| 0 <= id < host.plugins.len() implies {
            &&& (#[trigger] host.run(trace).plugins[id]).path == host.plugins[id].path
            &&& host.plugins[id].state.progress() <= host.run(trace).plugins[id].state.progress()
        } by {
            assert(mid.plugins[id].path == host.plugins[id].path);
            assert(host.plugins[id].state.progress() <= mid.plugins[id].state.progress());
        }
    }
}

/// Reports never remove what is on record: a descriptor stays through
/// every later report.
pub proof fn lemma_descriptors_stay(host: HostView, trace: Seq<(PluginId, Event)>, d: DescView)
    requires
        host.descriptors.contains(d),
    ensures
        host.run(trace).descriptors.contains(d),
    decreases trace.len(),
{
    if trace.len() > 0 {
        let mid = host.apply(trace[0].0, trace[0].1);
        let k = choose|k: int| 0 <= k < host.descriptors.len() && host.descriptors[k] == d;
        assert(mid.descriptors[k] == d);
        lemma_descriptors_stay(mid, trace.drop_first(), d);
    }
}

/// A failure never spreads. Whatever is reported of other plugins, before,
/// between or after, be it a module that does not compile, an import that
/// does not resolve or a trap: a plugin whose own reports are those of a
/// load without failure ends up `Ready`, under the path it was discovered
/// at, with a descriptor that carries the name it reported.
pub proof fn lemma_load_is_independent(
    host: HostView,
    trace: Seq<(PluginId, Event)>,
    id: PluginId,
)
    requires
        host.valid(),
        id < host.plugins.len(),
        loads_cleanly(events_of(trace, id), host.plugins[id as int].state),
    ensures
        host.run(trace).valid(),
        host.run(trace).plugins.len() == host.plugins.len(),
        host.run(trace).plugins[id as int] == (PluginView {
            path: host.plugins[id as int].path,
            state: Lifecycle::Ready,
        }),
        host.run(trace).described(id),
        events_of(trace, id).len() > 0 ==> host.run(trace).descriptors.contains(
            DescView {
                id,
                name: events_of(trace, id).last().text(),
                path: host.plugins[id as int].path,
            },
        ),
    decreases trace.len(),
{
    if trace.len() > 0 {
        let other = trace[0].0;
        let event = trace[0].1;
        let rest = trace.drop_first();
        let mid = host.apply(other, event);
        lemma_apply_keeps_valid(host, other, event);
        if other == id {
            let mine = events_of(trace, id);
            let later = events_of(rest, id);
            assert(mine[0] == event);
            assert(mine.drop_first() =~= later);
            lemma_load_is_independent(mid, rest, id);
            if later.len() == 0 {
                let from = host.plugins[id as int].state;
                assert(loads_cleanly(later, from.after(event).unwrap()));
                assert(from.after(event) == Some(Lifecycle::Ready));
                assert(event is Named);
                let d = DescView { id, name: event.text(), path: host.plugins[id as int].path };
                assert(mid.descriptors[host.descriptors.len() as int] == d);
                lemma_descriptors_stay(mid, rest, d);
                assert(mine.last() == event);
            } else {
                assert(mine.last() == later.last());
            }
        } else {
            lemma_load_is_independent(mid, rest, id);
        }
    }
}

/// One candidate of a batch, as a mathematical value: the path it was found
/// at and what the engine reports of it, in order.
pub struct Candidate {
    pub path: Seq<char>,
    pub events: Seq<Event>,
}

/// Whether the candidate is a malformed module: the first thing reported of
/// it is that it does not compile.
pub open spec fn is_malformed(candidate: Candidate) -> bool {
    candidate.events.len() > 0 && candidate.events[0] is CompileFailed
}

/// The batch without its malformed modules, in the same order.
pub open spec fn without_malformed(batch: Seq<Candidate>) -> Seq<Candidate>
    decreases batch.len(),
{
    if batch.len() == 0 {
        Seq::empty()
    } else if is_malformed(batch[0]) {
        without_malformed(batch.drop_first())
    } else {
        seq![batch[0]] + without_malformed(batch.drop_first())
    }
}

/// The paths of the candidates of a batch, in order.
pub open spec fn paths_of(batch: Seq<Candidate>) -> Seq<Seq<char>> {
    batch.map_values(|c: Candidate| c.path)
}

/// What descriptors say of the plugins apart from their identifiers: name
/// and path of each, in order.
pub open spec fn titles(descriptors: Seq<DescView>) -> Seq<(Seq<char>, Seq<char>)> {
    descriptors.map_values(|d: DescView| (d.name, d.path))
}

/// The names that a plugin reports while `events` are taken in order from
/// the state `from`. An event that cannot occur is refused and counts for
/// nothing.
pub open spec fn names_from(from: Lifecycle, events: Seq<Event>) -> Seq<Seq<char>>
    decreases events.len(),
{
    if events.len() == 0 {
        Seq::empty()
    } else {
        match from.after(events[0]) {
            Some(next) => if events[0] is Named {
                seq![events[0].text()] + names_from(next, events.drop_first())
            } else {
                names_from(next, events.drop_first())
            },
            None => names_from(from, events.drop_first()),
        }
    }
}

/// The state that a plugin is in after `events` were taken in order from the
/// state `from`.
pub open spec fn state_from(from: Lifecycle, events: Seq<Event>) -> Lifecycle
    decreases events.len(),
{
    if events.len() == 0 {
        from
    } else {
        match from.after(events[0]) {
            Some(next) => state_from(next, events.drop_first()),
            None => state_from(from, events.drop_first()),
        }
    }
}

/// The given names, each with the path `path`.
pub open spec fn billed(names: Seq<Seq<char>>, path: Seq<char>) -> Seq<(Seq<char>, Seq<char>)> {
    names.map_values(|n: Seq<char>| (n, path))
}

/// Name and path of every descriptor that loading the batch yields: for each
/// candidate in order, the names that its own reports lead to.
pub open spec fn yields(batch: Seq<Candidate>) -> Seq<(Seq<char>, Seq<char>)>
    decreases batch.len(),
{
    if batch.len() == 0 {
        Seq::empty()
    } else {
        billed(names_from(Lifecycle::Discovered, batch[0].events), batch[0].path) + yields(
            batch.drop_first(),
        )
    }
}

impl HostView {
    /// The host after `events` were reported, in order, for the plugin `id`.
    pub open spec fn run_for(self, id: PluginId, events: Seq<Event>) -> HostView
        decreases events.len(),
    {
        if events.len() == 0 {
            self
        } else {
            self.apply(id, events[0]).run_for(id, events.drop_first())
        }
    }

    /// The host after the candidates of `batch`, which stand registered
    /// under the identifiers from `base` on, were loaded one after the
    /// other.
    pub open spec fn load_each(self, base: nat, batch: Seq<Candidate>) -> HostView
        decreases batch.len(),
    {
        if batch.len() == 0 {
            self
        } else {
            self.run_for(base as usize, batch[0].events).load_each(base + 1, batch.drop_first())
        }
    }

    /// The host after a whole batch: every candidate is registered, then
    /// each is loaded on its own, in the order of the batch.
    pub open spec fn load_all(self, batch: Seq<Candidate>) -> HostView {
        self.with_candidates(paths_of(batch)).load_each(self.plugins.len(), batch)
    }
}

/// An abandoned plugin reports no name, whatever is reported of it.
pub proof fn lemma_faulted_names_nothing(events: Seq<Event>)
    ensures
        names_from(Lifecycle::Faulted, events).len() == 0,
    decreases events.len(),
{
    if events.len() > 0 {
        lemma_faulted_names_nothing(events.drop_first());
    }
}

/// Reports about one plugin change that plugin's record alone, and add to
/// the descriptors exactly the names that the plugin reports.
pub proof fn lemma_run_for_one(host: HostView, id: PluginId, events: Seq<Event>)
    requires
        id < host.plugins.len(),
    ensures
        host.run_for(id, events).plugins == host.plugins.update(
            id as int,
            PluginView {
                path: host.plugins[id as int].path,
                state: state_from(host.plugins[id as int].state, events),
            },
        ),
        titles(host.run_for(id, events).descriptors) == titles(host.descriptors) + billed(
            names_from(host.plugins[id as int].state, events),
            host.plugins[id as int].path,
        ),
    decreases events.len(),
{
    let plugin = host.plugins[id as int];
    if events.len() == 0 {
        assert(host.plugins =~= host.plugins.update(
            id as int,
            PluginView { path: plugin.path, state: plugin.state },
        ));
        assert(titles(host.descriptors) =~= titles(host.descriptors) + billed(
            names_from(plugin.state, events),
            plugin.path,
        ));
    } else {
        let event = events[0];
        let rest = events.drop_first();
        let mid = host.apply(id, event);
        lemma_run_for_one(mid, id, rest);
        let end = host.run_for(id, events);
        match plugin.state.after(event) {
            Some(next) => {
                assert(mid.plugins[id as int] == PluginView { path: plugin.path, state: next });
                assert(end.plugins =~= host.plugins.update(
                    id as int,
                    PluginView { path: plugin.path, state: state_from(plugin.state, events) },
                ));
                let later = names_from(next, rest);
                if event is Named {
                    assert(titles(mid.descriptors) =~= titles(host.descriptors).push(
                        (event.text(), plugin.path),
                    ));
                    assert(billed(seq![event.text()] + later, plugin.path) =~= seq![
                        (event.text(), plugin.path),
                    ] + billed(later, plugin.path));
                    assert(titles(end.descriptors) =~= titles(host.descriptors) + billed(
                        names_from(plugin.state, events),
                        plugin.path,
                    ));
                } else {
                    assert(mid.descriptors == host.descriptors);
                }
            },
            None => {
                assert(mid == host);
            },
        }
    }
}

/// Loading a batch adds to the descriptors exactly what its candidates
/// yield, each from its own reports.
pub proof fn lemma_load_each(host: HostView, base: nat, batch: Seq<Candidate>)
    requires
        base + batch.len() <= host.plugins.len(),
        host.plugins.len() <= usize::MAX,
        forall|i: int|
            0 <= i < batch.len() ==> #[trigger] host.plugins[base + i] == (PluginView {
                path: batch[i].path,
                state: Lifecycle::Discovered,
            }),
    ensures
        titles(host.load_each(base, batch).descriptors) == titles(host.descriptors) + yields(batch),
    decreases batch.len(),
{
    if batch.len() == 0 {
        assert(titles(host.descriptors) =~= titles(host.descriptors) + yields(batch));
    } else {
        let first = batch[0];
        let rest = batch.drop_first();
        let mid = host.run_for(base as usize, first.events);
        assert(host.plugins[base + 0int] == PluginView {
            path: first.path,
            state: Lifecycle::Discovered,
        });
        lemma_run_for_one(host, base as usize, first.events);
        assert forall|i: int| 0 <= i < rest.len() implies #[trigger] mid.plugins[base + 1 + i] == (
        PluginView { path: rest[i].path, state: Lifecycle::Discovered }) by {
            assert(host.plugins[base + (i + 1)] == PluginView {
                path: batch[i + 1].path,
                state: Lifecycle::Discovered,
            });
        }
        lemma_load_each(mid, base + 1, rest);
        assert(titles(host.load_each(base, batch).descriptors) =~= titles(host.descriptors)
            + yields(batch));
    }
}

/// Malformed modules yield nothing, so a batch yields what it yields
/// without them.
pub proof fn lemma_yields_without_malformed(batch: Seq<Candidate>)
    ensures
        yields(without_malformed(batch)) == yields(batch),
    decreases batch.len(),
{
    if batch.len() > 0 {
        let first = batch[0];
        let rest = batch.drop_first();
        let kept = without_malformed(rest);
        lemma_yields_without_malformed(rest);
        if is_malformed(first) {
            lemma_faulted_names_nothing(first.events.drop_first());
            assert(billed(names_from(Lifecycle::Discovered, first.events), first.path) =~= Seq::<
                (Seq<char>, Seq<char>),
            >::empty());
            assert(yields(batch) =~= yields(rest));
        } else {
            let whole = seq![first] + kept;
            assert(whole[0] == first);
            assert(whole.drop_first() =~= kept);
        }
    }
}

/// Loading registers each candidate as discovered, under its path.
proof fn lemma_registered(host: HostView, batch: Seq<Candidate>)
    ensures
        forall|i: int|
            0 <= i < batch.len() ==> #[trigger] host.with_candidates(
                paths_of(batch),
            ).plugins[host.plugins.len() + i] == (PluginView {
                path: batch[i].path,
                state: Lifecycle::Discovered,
            }),
        host.with_candidates(paths_of(batch)).plugins.len() == host.plugins.len() + batch.len(),
        host.with_candidates(paths_of(batch)).descriptors == host.descriptors,
{
}

/// A directory and the same directory without its malformed modules load to
/// the same descriptors: the same names under the same paths in the same
/// order. Only the identifiers, which count every candidate, and the
/// failures on record differ.
pub proof fn lemma_malformed_modules_change_no_descriptor(host: HostView, batch: Seq<Candidate>)
    requires
        host.plugins.len() + batch.len() <= usize::MAX,
    ensures
        titles(host.load_all(batch).descriptors) == titles(
            host.load_all(without_malformed(batch)).descriptors,
        ),
        titles(host.load_all(batch).descriptors) == titles(host.descriptors) + yields(batch),
{
    let kept = without_malformed(batch);
    lemma_without_malformed_is_shorter(batch);
    lemma_registered(host, batch);
    lemma_registered(host, kept);
    lemma_load_each(host.with_candidates(paths_of(batch)), host.plugins.len(), batch);
    lemma_load_each(host.with_candidates(paths_of(kept)), host.plugins.len(), kept);
    lemma_yields_without_malformed(batch);
}

/// Leaving candidates out makes a batch no longer.
proof fn lemma_without_malformed_is_shorter(batch: Seq<Candidate>)
    ensures
        without_malformed(batch).len() <= batch.len(),
    decreases batch.len(),
{
    if batch.len() > 0 {
        lemma_without_malformed_is_shorter(batch.drop_first());
    }
}

} // verus!
