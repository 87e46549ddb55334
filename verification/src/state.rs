//! The console's state: the metadata of spans, the tasks and resources,
//! when the last update came, whether the view is paused, and how long
//! completed tasks and dropped resources stay.
use vstd::prelude::*;
use crate::fields::{metadata_holds, push_metadata_texts, Metadata, ProtoMetadata};
use crate::intern::{holds_text, InternedStr, Strings};
use vstd::std_specs::iter::IteratorSpec;
use crate::resources::{
    raw_created, resource_retained, resources_updated, ResourceUpdate, ResourcesState,
};
use crate::store::Visibility;
use crate::styles::Styles;
use crate::tasks::{raw_stats_ok, still_retained, tasks_updated, TaskUpdate, TasksState};
use crate::time::{Duration, SystemTime};
use crate::view::ViewState;
use crate::warnings::Linter;
use std::collections::HashMap;

verus! {

broadcast use vstd::std_specs::hash::group_hash_axioms;

/// Whether the view follows the updates or is paused.
#[derive(PartialEq, Eq, Structural, Clone, Copy, Debug)]
pub enum Temporality {
    Live,
    Paused,
}

/// The metadata of a span as the observed program registers it, with the
/// span's metadata ID.
pub struct ProtoMetadataEntry {
    pub id: Option<u64>,
    pub metadata: Option<ProtoMetadata>,
}

/// An update from the observed program: the time it was sent, new metadata,
/// and updates of the tasks and resources.
pub struct Update {
    pub now: Option<SystemTime>,
    pub new_metadata: Option<Vec<ProtoMetadataEntry>>,
    pub task_update: Option<TaskUpdate>,
    pub resource_update: Option<ResourceUpdate>,
}

/// Whether `m` is the metadata `pb` registered under `id`.
pub open spec fn metadata_from(m: Metadata, pb: ProtoMetadata, id: u64) -> bool {
    &&& m.id == id
    &&& m.target@ == pb.target@
    &&& m.field_names@.len() == pb.field_names@.len()
    &&& forall|i: int| 0 <= i < m.field_names@.len() ==> #[trigger] m.field_names@[i]@ == pb.field_names@[i]@
}

/// The last of the first `upto` entries that registers metadata under `k`.
pub open spec fn last_meta_entry(entries: Seq<ProtoMetadataEntry>, k: u64, upto: int) -> Option<int>
    decreases upto,
{
    if upto <= 0 {
        None
    } else if entries[upto - 1].id == Some(k) && entries[upto - 1].metadata is Some {
        Some(upto - 1)
    } else {
        last_meta_entry(entries, k, upto - 1)
    }
}

/// Whether `after` is the metadata `before` with the entries registered
/// (a later entry under the same ID wins).
pub open spec fn metas_registered(
    before: Map<u64, Metadata>,
    after: Map<u64, Metadata>,
    entries: Seq<ProtoMetadataEntry>,
) -> bool {
    &&& forall|k: u64|
        #[trigger] after.contains_key(k) <==> (before.contains_key(k) || last_meta_entry(
            entries,
            k,
            entries.len() as int,
        ) is Some)
    &&& forall|k: u64| #[trigger]
        after.contains_key(k) ==> match last_meta_entry(entries, k, entries.len() as int) {
            Some(i) => metadata_from(after[k], entries[i].metadata.unwrap(), k),
            None => after[k] == before[k],
        }
}

/// Whether the tasks `after` are those of `before` still shown at `now`
/// when completed tasks are kept for `retain_for`.
pub open spec fn tasks_kept(
    before: Map<u64, crate::tasks::Task>,
    after: Map<u64, crate::tasks::Task>,
    now: SystemTime,
    retain_for: Duration,
) -> bool {
    &&& forall|k: u64| #[trigger]
        after.contains_key(k) <==> before.contains_key(k) && still_retained(before[k], now, retain_for)
    &&& forall|k: u64| #[trigger] after.contains_key(k) ==> after[k] == before[k]
}

/// Whether the resources `after` are those of `before` still shown at `now`
/// when dropped resources are kept for `retain_for`.
pub open spec fn resources_kept(
    before: Map<u64, crate::resources::Resource>,
    after: Map<u64, crate::resources::Resource>,
    now: SystemTime,
    retain_for: Duration,
) -> bool {
    &&& forall|k: u64| #[trigger]
        after.contains_key(k) <==> before.contains_key(k) && resource_retained(before[k], now, retain_for)
    &&& forall|k: u64| #[trigger] after.contains_key(k) ==> after[k] == before[k]
}

/// The console's state.
pub struct State {
    metas: HashMap<u64, Metadata>,
    last_updated_at: Option<SystemTime>,
    temporality: Temporality,
    tasks_state: TasksState,
    resources_state: ResourcesState,
    retain_for: Option<Duration>,
    strings: Strings,
}

/// The visibility of new items for a list that is shown exactly in the view
/// `shown`, while the view is `current`.
pub open spec fn visibility_in(current: ViewState, shown: ViewState) -> Visibility {
    if current == shown {
        Visibility::Show
    } else {
        Visibility::Hide
    }
}

impl State {
    /// The metadata of spans, by metadata ID.
    pub closed spec fn metas(self) -> Map<u64, Metadata> {
        self.metas@
    }

    /// When the last update was sent, if one came.
    pub closed spec fn last_updated(self) -> Option<SystemTime> {
        self.last_updated_at
    }

    /// Whether the view is paused.
    pub closed spec fn paused(self) -> bool {
        self.temporality == Temporality::Paused
    }

    /// The tasks.
    pub closed spec fn tasks(self) -> TasksState {
        self.tasks_state
    }

    /// The resources.
    pub closed spec fn resources(self) -> ResourcesState {
        self.resources_state
    }

    /// How long completed tasks and dropped resources stay, if they are
    /// dropped at all.
    pub closed spec fn spec_retain_for(self) -> Option<Duration> {
        self.retain_for
    }

    /// The strings that the state's interner holds.
    pub closed spec fn interned(self) -> Set<Seq<char>> {
        self.strings@
    }

    /// Whether the metadata, a task or a resource that the state keeps holds
    /// the interned string `s`.
    pub open spec fn references(self, s: Seq<char>) -> bool {
        ||| exists|k: u64| #[trigger]
            self.metas().contains_key(k) && metadata_holds(self.metas()[k], s)
        ||| self.tasks().holds_text(s)
        ||| self.resources().holds_text(s)
    }

    pub open spec fn wf(self) -> bool {
        self.tasks().wf() && self.resources().wf()
    }

    /// A state with nothing in it, live, that keeps everything.
    pub fn new() -> (r: Self)
        ensures
            r.wf(),
            r.metas() == Map::<u64, Metadata>::empty(),
            r.last_updated() is None,
            !r.paused(),
            r.tasks().store().items() == Map::<u64, crate::tasks::Task>::empty(),
            r.tasks().spec_linters() == Seq::<Linter>::empty(),
            r.resources().store().items() == Map::<u64, crate::resources::Resource>::empty(),
            r.spec_retain_for() is None,
            r.interned() == Set::<Seq<char>>::empty(),
    {
        State {
            metas: HashMap::new(),
            last_updated_at: None,
            temporality: Temporality::Live,
            tasks_state: TasksState::new(),
            resources_state: ResourcesState::new(),
            retain_for: None,
            strings: Strings::new(),
        }
    }

    /// This state, keeping completed tasks and dropped resources for
    /// `retain_for` (forever if `None`).
    pub fn with_retain_for(self, retain_for: Option<Duration>) -> (r: Self)
        ensures
            r.spec_retain_for() == retain_for,
            r.metas() == self.metas(),
            r.last_updated() == self.last_updated(),
            r.paused() == self.paused(),
            r.tasks() == self.tasks(),
            r.resources() == self.resources(),
            r.interned() == self.interned(),
    {
        let mut s = self;
        s.retain_for = retain_for;
        s
    }

    /// This state, with `linters` added to those that check the tasks.
    pub fn with_task_linters(self, linters: Vec<Linter>) -> (r: Self)
        requires
            self.wf(),
        ensures
            r.wf(),
            r.tasks().spec_linters() == self.tasks().spec_linters() + linters@,
            r.tasks().store() == self.tasks().store(),
            r.metas() == self.metas(),
            r.last_updated() == self.last_updated(),
            r.paused() == self.paused(),
            r.resources() == self.resources(),
            r.spec_retain_for() == self.spec_retain_for(),
            r.interned() == self.interned(),
    {
        let State { metas, last_updated_at, temporality, tasks_state, resources_state, retain_for, strings } =
            self;
        State {
            metas,
            last_updated_at,
            temporality,
            tasks_state: tasks_state.with_task_linters(linters),
            resources_state,
            retain_for,
            strings,
        }
    }

    /// When the last update was sent, if one came.
    pub fn last_updated_at(&self) -> (r: Option<SystemTime>)
        ensures
            r == self.last_updated(),
    {
        self.last_updated_at
    }

    /// Registers the metadata of `entries` (each one that has an ID and
    /// metadata).
    fn register_metadata(&mut self, entries: Vec<ProtoMetadataEntry>)
        ensures
            metas_registered(old(self).metas(), final(self).metas(), entries@),
            final(self).last_updated() == old(self).last_updated(),
            final(self).paused() == old(self).paused(),
            final(self).tasks() == old(self).tasks(),
            final(self).resources() == old(self).resources(),
            final(self).spec_retain_for() == old(self).spec_retain_for(),
            old(self).interned().subset_of(final(self).interned()),
    {
        let ghost orig = entries@;
        let ghost total = orig.len();
        let ghost m0 = self.metas@;
        let mut rest = crate::store::reversed(entries);
        while rest.len() > 0
            invariant
                rest@.len() <= total,
                total == orig.len(),
                rest@ == orig.reverse().take(rest@.len() as int),
                forall|k: u64|
                    #[trigger] self.metas@.contains_key(k) <==> (m0.contains_key(k) || last_meta_entry(
                        orig,
                        k,
                        total - rest@.len(),
                    ) is Some),
                forall|k: u64| #[trigger]
                    self.metas@.contains_key(k) ==> match last_meta_entry(orig, k, total - rest@.len()) {
                        Some(i) => metadata_from(self.metas@[k], orig[i].metadata.unwrap(), k),
                        None => self.metas@[k] == m0[k],
                    },
                m0 == old(self).metas@,
                self.last_updated_at == old(self).last_updated_at,
                self.temporality == old(self).temporality,
                self.tasks_state == old(self).tasks_state,
                self.resources_state == old(self).resources_state,
                self.retain_for == old(self).retain_for,
                old(self).strings@.subset_of(self.strings@),
            decreases rest.len(),
        {
            let ghost done = total - rest@.len();
            let entry = rest.pop().unwrap();
            assert(orig[done] == entry) by {
                assert(orig.reverse()[rest@.len() as int] == orig[total - 1 - rest@.len()]);
            }
            assert(rest@ =~= orig.reverse().take(rest@.len() as int));
            let ProtoMetadataEntry { id, metadata } = entry;
            if let Some(id) = id {
                if let Some(metadata) = metadata {
                    let ghost pb = metadata;
                    let ghost before = self.strings@;
                    let meta = Metadata::from_proto(metadata, id, &mut self.strings);
                    assert(before.subset_of(self.strings@));
                    self.metas.insert(id, meta);
                    assert(metadata_from(self.metas@[id], pb, id));
                }
            }
        }
    }

    /// Takes in an update: its time becomes the time of the last update, its
    /// metadata is registered, and the tasks and resources take in their
    /// updates under all the metadata known (new tasks are shown at once on
    /// the task list, new resources on the resource list); the tasks are
    /// checked at `now`.
    pub fn update(&mut self, styles: &Styles, current_view: &ViewState, update: Update, now: SystemTime)
        requires
            old(self).wf(),
            update.task_update matches Some(u) ==> {
                &&& forall|k: u64| #[trigger]
                    u.stats_update@.contains_key(k) ==> raw_stats_ok(u.stats_update@[k])
                &&& old(self).tasks().spec_dropped_events() + u.dropped_events <= u64::MAX
            },
            update.resource_update matches Some(u) ==> {
                &&& forall|k: u64| #[trigger]
                    u.stats_update@.contains_key(k) ==> raw_created(u.stats_update@[k])
                &&& old(self).resources().spec_dropped_events() + u.dropped_events <= u64::MAX
            },
        ensures
            final(self).wf(),
            final(self).last_updated() == match update.now {
                Some(t) => Some(t),
                None => old(self).last_updated(),
            },
            match update.new_metadata {
                Some(entries) => metas_registered(old(self).metas(), final(self).metas(), entries@),
                None => final(self).metas() == old(self).metas(),
            },
            match update.task_update {
                Some(u) => tasks_updated(
                    old(self).tasks(),
                    final(self).tasks(),
                    *styles,
                    final(self).metas(),
                    u,
                    visibility_in(*current_view, ViewState::TasksList),
                    now,
                ),
                None => final(self).tasks() == old(self).tasks(),
            },
            match update.resource_update {
                Some(u) => resources_updated(
                    old(self).resources(),
                    final(self).resources(),
                    *styles,
                    final(self).metas(),
                    u,
                    visibility_in(*current_view, ViewState::ResourcesList),
                ),
                None => final(self).resources() == old(self).resources(),
            },
            final(self).paused() == old(self).paused(),
            final(self).spec_retain_for() == old(self).spec_retain_for(),
            old(self).interned().subset_of(final(self).interned()),
    {
        let Update { now: sent, new_metadata, task_update, resource_update } = update;
        if let Some(t) = sent {
            self.last_updated_at = Some(t);
        }
        if let Some(entries) = new_metadata {
            self.register_metadata(entries);
        }
        if let Some(u) = task_update {
            let visibility = match current_view {
                ViewState::TasksList => Visibility::Show,
                _ => Visibility::Hide,
            };
            self.tasks_state.update_tasks(styles, &mut self.strings, &self.metas, u, visibility, now);
        }
        if let Some(u) = resource_update {
            let visibility = match current_view {
                ViewState::ResourcesList => Visibility::Show,
                _ => Visibility::Hide,
            };
            self.resources_state.update_resources(styles, &mut self.strings, &self.metas, u, visibility);
        }
    }

    /// Copies of the interned strings that the metadata, the tasks and the
    /// resources hold.
    fn referenced_texts(&self) -> (r: Vec<InternedStr>)
        ensures
            forall|s: Seq<char>| #![trigger holds_text(r@, s)] holds_text(r@, s) <==> self.references(s),
    {
        let ghost v = vstd::std_specs::hash::spec_hash_map_iter(&self.metas).remaining();
        let mut metas: Vec<&Metadata> = Vec::new();
        for pair in it: self.metas.iter()
            invariant
                it.seq() == v,
                metas@.len() == it.index(),
                forall|i: int| 0 <= i < metas@.len() ==> #[trigger] metas@[i] == v[i].1,
        {
            let (_, m) = pair;
            metas.push(m);
        }
        let mut out: Vec<InternedStr> = Vec::new();
        let n = metas.len();
        let mut i: usize = 0;
        while i < n
            invariant
                n == metas@.len(),
                n == v.len(),
                i <= n,
                forall|j: int| 0 <= j < n ==> #[trigger] metas@[j] == v[j].1,
                forall|s: Seq<char>| #![trigger holds_text(out@, s)]
                    holds_text(out@, s) <==> exists|j: int| 0 <= j < i && metadata_holds(*#[trigger] metas@[j], s),
            decreases n - i,
        {
            let ghost before = out@;
            let ghost j0 = i as int;
            push_metadata_texts(&mut out, metas[i]);
            i = i + 1;
            assert(j0 + 1 == i as int);
            assert forall|s: Seq<char>|
                holds_text(out@, s) <==> exists|j: int| 0 <= j < i && metadata_holds(*#[trigger] metas@[j], s) by {
                assert(holds_text(out@, s) <==> holds_text(before, s) || metadata_holds(*metas@[j0], s));
                assert(holds_text(before, s) <==> exists|j: int|
                    0 <= j < j0 && metadata_holds(*#[trigger] metas@[j], s));
            }
        }
        let ghost after_metas = out@;
        proof {
            assert forall|s: Seq<char>| holds_text(after_metas, s) <==> exists|k: u64| #[trigger]
                self.metas().contains_key(k) && metadata_holds(self.metas()[k], s) by {
                assert(holds_text(after_metas, s) <==> exists|j: int|
                    0 <= j < n && metadata_holds(*#[trigger] metas@[j], s));
                if exists|j: int| 0 <= j < n && metadata_holds(*#[trigger] metas@[j], s) {
                    let j = choose|j: int| 0 <= j < n && metadata_holds(*#[trigger] metas@[j], s);
                    assert(self.metas@.contains_key(*v[j].0));
                    assert(self.metas@[*v[j].0] == *v[j].1);
                    assert(self.metas().contains_key(*v[j].0) && metadata_holds(self.metas()[*v[j].0], s));
                }
                if exists|k: u64| #[trigger] self.metas().contains_key(k) && metadata_holds(self.metas()[k], s) {
                    let k = choose|k: u64| #[trigger]
                        self.metas().contains_key(k) && metadata_holds(self.metas()[k], s);
                    assert(v.contains((&k, &self.metas@[k])));
                    let j = choose|j: int| 0 <= j < v.len() && v[j] == (&k, &self.metas@[k]);
                    assert(metadata_holds(*metas@[j], s));
                }
            }
        }
        self.tasks_state.push_held_texts(&mut out);
        let ghost after_tasks = out@;
        self.resources_state.push_held_texts(&mut out);
        assert forall|s: Seq<char>| holds_text(out@, s) <==> self.references(s) by {
            assert(holds_text(after_tasks, s) <==> holds_text(after_metas, s) || self.tasks().holds_text(s));
            assert(holds_text(out@, s) <==> holds_text(after_tasks, s) || self.resources().holds_text(s));
            assert(holds_text(after_metas, s) <==> exists|k: u64| #[trigger]
                self.metas().contains_key(k) && metadata_holds(self.metas()[k], s));
        }
        out
    }

    /// Unless the view is paused, drops the tasks and resources that were
    /// dropped at least the retention time before the last update (if both
    /// are known), and then the interned strings that nothing the state keeps
    /// holds any more.
    pub fn retain_active(&mut self)
        requires
            old(self).wf(),
        ensures
            final(self).wf(),
            final(self).metas() == old(self).metas(),
            final(self).last_updated() == old(self).last_updated(),
            final(self).paused() == old(self).paused(),
            final(self).spec_retain_for() == old(self).spec_retain_for(),
            final(self).tasks().spec_linters() == old(self).tasks().spec_linters(),
            final(self).tasks().store().spec_ids() == old(self).tasks().store().spec_ids(),
            final(self).resources().store().spec_ids() == old(self).resources().store().spec_ids(),
            match (old(self).paused(), old(self).last_updated(), old(self).spec_retain_for()) {
                (false, Some(now), Some(retain_for)) => {
                    &&& tasks_kept(old(self).tasks().store().items(), final(self).tasks().store().items(), now, retain_for)
                    &&& resources_kept(old(self).resources().store().items(), final(self).resources().store().items(), now, retain_for)
                },
                _ => final(self).tasks() == old(self).tasks() && final(self).resources() == old(self).resources(),
            },
            old(self).paused() ==> final(self).interned() == old(self).interned(),
            !old(self).paused() ==> final(self).interned() == old(self).interned().filter(
                |s: Seq<char>| final(self).references(s),
            ),
    {
        if self.is_paused() {
            return;
        }
        if let (Some(now), Some(retain_for)) = (self.last_updated_at, self.retain_for) {
            self.tasks_state.retain_active(now, retain_for);
            self.resources_state.retain_active(now, retain_for);
        }
        let held = self.referenced_texts();
        let ghost kept = *self;
        self.strings.retain_held(&held);
        proof {
            assert forall|s: Seq<char>| holds_text(held@, s) == self.references(s) by {
                assert(holds_text(held@, s) <==> kept.references(s));
                assert(self.metas() == kept.metas());
                assert(self.tasks() == kept.tasks());
                assert(self.resources() == kept.resources());
            }
            assert(self.interned() =~= old(self).interned().filter(|s: Seq<char>| self.references(s)));
        }
    }

    /// The tasks.
    pub fn tasks_state(&self) -> (r: &TasksState)
        ensures
            *r == self.tasks(),
    {
        &self.tasks_state
    }

    /// The tasks, to change them.
    pub fn tasks_state_mut(&mut self) -> (r: &mut TasksState)
        ensures
            *r == old(self).tasks(),
            final(self).tasks() == *final(r),
            final(self).resources() == old(self).resources(),
            final(self).metas() == old(self).metas(),
            final(self).last_updated() == old(self).last_updated(),
            final(self).paused() == old(self).paused(),
            final(self).spec_retain_for() == old(self).spec_retain_for(),
            final(self).interned() == old(self).interned(),
    {
        &mut self.tasks_state
    }

    /// The resources.
    pub fn resources_state(&self) -> (r: &ResourcesState)
        ensures
            *r == self.resources(),
    {
        &self.resources_state
    }

    /// The resources, to change them.
    pub fn resources_state_mut(&mut self) -> (r: &mut ResourcesState)
        ensures
            *r == old(self).resources(),
            final(self).resources() == *final(r),
            final(self).tasks() == old(self).tasks(),
            final(self).metas() == old(self).metas(),
            final(self).last_updated() == old(self).last_updated(),
            final(self).paused() == old(self).paused(),
            final(self).spec_retain_for() == old(self).spec_retain_for(),
            final(self).interned() == old(self).interned(),
    {
        &mut self.resources_state
    }

    /// Pauses the view.
    pub fn pause(&mut self)
        ensures
            final(self).paused(),
            final(self).metas() == old(self).metas(),
            final(self).last_updated() == old(self).last_updated(),
            final(self).tasks() == old(self).tasks(),
            final(self).resources() == old(self).resources(),
            final(self).spec_retain_for() == old(self).spec_retain_for(),
            final(self).interned() == old(self).interned(),
    {
        self.temporality = Temporality::Paused;
    }

    /// Makes the view follow the updates again.
    pub fn resume(&mut self)
        ensures
            !final(self).paused(),
            final(self).metas() == old(self).metas(),
            final(self).last_updated() == old(self).last_updated(),
            final(self).tasks() == old(self).tasks(),
            final(self).resources() == old(self).resources(),
            final(self).spec_retain_for() == old(self).spec_retain_for(),
            final(self).interned() == old(self).interned(),
    {
        self.temporality = Temporality::Live;
    }

    /// Whether the state's interner holds `s`.
    pub fn interns(&self, s: &str) -> (r: bool)
        ensures
            r == self.interned().contains(s@),
    {
        self.strings.contains(s)
    }

    /// Whether the view is paused.
    pub fn is_paused(&self) -> (r: bool)
        ensures
            r == self.paused(),
    {
        match self.temporality {
            Temporality::Paused => true,
            Temporality::Live => false,
        }
    }
}

impl Default for Temporality {
    fn default() -> (r: Self)
        ensures
            r == Temporality::Live,
    {
        Temporality::Live
    }
}

} // verus!
