//! The live state of the daemon: the queues and timers of the outputs that
//! rotate on their own, of the groups, and of the one queue that all outputs
//! share in synchronized behavior.

use crate::config::{group_texts, BehaviorView, MonitorBehavior};
use crate::error::SwwwsError;
use crate::queue::{Queue, QueueView};
use crate::state::{unix_now, DaemonState, OutputStateView, SnapshotView};
use crate::text::{
    clone_texts, contains_text, first_index_of, is_first_index, lemma_first_index_of, same_text,
    texts,
};
use crate::time::Span;
use vstd::prelude::*;

verus! {

/// An output that rotates on its own: its queue, and the clock reading of
/// its last rotation.
#[derive(Debug)]
pub struct OutputEntry {
    pub name: String,
    pub queue: Queue,
    pub timer: Span,
}

/// A group of outputs that rotate together: one queue and one timer for all
/// its members.
#[derive(Debug)]
pub struct MonitorGroup {
    pub name: String,
    pub outputs: Vec<String>,
    pub queue: Queue,
    pub timer: Span,
}

/// The live state of the daemon.
#[derive(Debug)]
pub struct LiveState {
    /// The outputs that rotate on their own, each name once.
    pub outputs: Vec<OutputEntry>,
    pub groups: Vec<MonitorGroup>,
    /// The queue that all outputs share in synchronized behavior.
    pub shared_queue: Option<Queue>,
    pub shared_timer: Option<Span>,
    pub paused: bool,
    pub persistent_state: DaemonState,
}

/// An image to be shown on an output.
#[derive(Debug)]
pub struct WallpaperChange {
    pub output: String,
    pub image: String,
}

/// An output that rotates on its own, as texts and the view of its queue.
pub struct EntryView {
    pub name: Seq<char>,
    pub queue: QueueView,
    pub timer: Span,
}

/// A group, as texts and the view of its queue.
pub struct GroupView {
    pub name: Seq<char>,
    pub outputs: Seq<Seq<char>>,
    pub queue: QueueView,
    pub timer: Span,
}

/// An image to be shown on an output, as texts.
pub struct ChangeView {
    pub output: Seq<char>,
    pub image: Seq<char>,
}

/// The live state, as the views of its parts.
pub struct LiveView {
    pub entries: Seq<EntryView>,
    pub groups: Seq<GroupView>,
    pub shared_queue: Option<QueueView>,
    pub shared_timer: Option<Span>,
    pub paused: bool,
    pub snapshot: SnapshotView,
}

impl View for OutputEntry {
    type V = EntryView;

    open spec fn view(&self) -> EntryView {
        EntryView { name: self.name@, queue: self.queue@, timer: self.timer }
    }
}

impl View for MonitorGroup {
    type V = GroupView;

    open spec fn view(&self) -> GroupView {
        GroupView {
            name: self.name@,
            outputs: texts(self.outputs@),
            queue: self.queue@,
            timer: self.timer,
        }
    }
}

impl View for WallpaperChange {
    type V = ChangeView;

    open spec fn view(&self) -> ChangeView {
        ChangeView { output: self.output@, image: self.image@ }
    }
}

/// The changes of a list, as texts.
pub open spec fn change_views(changes: Seq<WallpaperChange>) -> Seq<ChangeView> {
    changes.map_values(|c: WallpaperChange| c@)
}

/// The view of a queue that may be absent.
pub open spec fn option_queue(q: Option<Queue>) -> Option<QueueView> {
    match q {
        Some(q) => Some(q@),
        None => None,
    }
}

impl View for LiveState {
    type V = LiveView;

    open spec fn view(&self) -> LiveView {
        LiveView {
            entries: self.outputs@.map_values(|e: OutputEntry| e@),
            groups: self.groups@.map_values(|g: MonitorGroup| g@),
            shared_queue: option_queue(self.shared_queue),
            shared_timer: self.shared_timer,
            paused: self.paused,
            snapshot: self.persistent_state@,
        }
    }
}

/// The names of a list of entries.
pub open spec fn entry_names(entries: Seq<EntryView>) -> Seq<Seq<char>> {
    entries.map_values(|e: EntryView| e.name)
}

/// Whether one of the groups has `name` among its outputs.
pub open spec fn in_some_group(groups: Seq<GroupView>, name: Seq<char>) -> bool {
    exists|g: int| 0 <= g < groups.len() && (#[trigger] groups[g]).outputs.contains(name)
}

/// Whether `g` is the place of the first group that has `name` among its
/// outputs.
pub open spec fn is_first_group_of(groups: Seq<GroupView>, name: Seq<char>, g: int) -> bool {
    &&& 0 <= g < groups.len()
    &&& groups[g].outputs.contains(name)
    &&& forall|k: int| 0 <= k < g ==> !(#[trigger] groups[k]).outputs.contains(name)
}

impl LiveView {
    /// The behavior that the state shows: synchronized if there is a shared
    /// queue, else grouped if there are groups, else independent.
    pub open spec fn behavior(self) -> BehaviorView {
        if self.shared_queue is Some {
            BehaviorView::Synchronized
        } else if self.groups.len() > 0 {
            BehaviorView::Grouped(self.groups.map_values(|g: GroupView| g.outputs))
        } else {
            BehaviorView::Independent
        }
    }

    /// Whether there is nothing to rotate: no output on its own, no shared
    /// queue, no group.
    pub open spec fn is_idle(self) -> bool {
        self.entries.len() == 0 && self.shared_queue is None && self.groups.len() == 0
    }
}

impl LiveState {
    /// Every queue is well formed, no output has two entries, and the
    /// snapshot is well formed.
    pub open spec fn wf(&self) -> bool {
        &&& forall|i: int| 0 <= i < self.outputs@.len() ==> (#[trigger] self.outputs@[i]).queue.wf()
        &&& forall|i: int| 0 <= i < self.groups@.len() ==> (#[trigger] self.groups@[i]).queue.wf()
        &&& self.shared_queue matches Some(q) ==> q.wf()
        &&& entry_names(self@.entries).no_duplicates()
        &&& self.persistent_state.wf()
    }

    /// A state with nothing to rotate, around the snapshot that was loaded,
    /// or around an empty one if loading failed. It is paused if the
    /// snapshot says so.
    pub fn new(loaded: Result<DaemonState, SwwwsError>) -> (r: LiveState)
        requires
            loaded matches Ok(s) ==> s.wf(),
        ensures
            r.wf(),
            r@.is_idle(),
            r@.shared_timer is None,
            r@.paused == r@.snapshot.global_paused,
            match loaded {
                Ok(s) => r@.snapshot == s@,
                Err(_) => r@.snapshot.names.len() == 0 && !r@.paused,
            },
    {
        let persistent_state = match loaded {
            Ok(s) => s,
            Err(_) => DaemonState::new(),
        };
        let paused = persistent_state.is_paused();
        LiveState {
            outputs: Vec::new(),
            groups: Vec::new(),
            shared_queue: None,
            shared_timer: None,
            paused,
            persistent_state,
        }
    }

    /// The place of the entry of the output `name`.
    pub fn find_entry(&self, name: &str) -> (r: Option<usize>)
        ensures
            match r {
                Some(i) => first_index_of(entry_names(self@.entries), name@) == Some(i as int)
                    && i < self.outputs@.len() && self.outputs@[i as int].name@ == name@,
                None => first_index_of(entry_names(self@.entries), name@) is None
                    && !entry_names(self@.entries).contains(name@),
            },
    {
        let ghost names = entry_names(self@.entries);
        proof {
            lemma_first_index_of(names, name@);
        }
        let mut i: usize = 0;
        while i < self.outputs.len()
            invariant
                i <= self.outputs@.len(),
                names == entry_names(self@.entries),
                forall|j: int| 0 <= j < i ==> names[j] != name@,
                forall|k: int|
                    is_first_index(names, name@, k) ==> first_index_of(names, name@) == Some(k),
                first_index_of(names, name@) is Some <==> names.contains(name@),
            decreases self.outputs@.len() - i,
        {
            if same_text(self.outputs[i].name.as_str(), name) {
                assert(is_first_index(names, name@, i as int));
                return Some(i);
            }
            i += 1;
        }
        assert(!names.contains(name@)) by {
            if names.contains(name@) {
                let w = choose|w: int| 0 <= w < names.len() && names[w] == name@;
                assert(names[w] != name@);
            }
        }
        None
    }

    /// Whether one of the groups has the output `name` among its outputs.
    pub fn is_in_group(&self, name: &str) -> (r: bool)
        ensures
            r == in_some_group(self@.groups, name@),
    {
        let mut g: usize = 0;
        while g < self.groups.len()
            invariant
                g <= self.groups@.len(),
                forall|k: int| 0 <= k < g ==> !(#[trigger] self@.groups[k]).outputs.contains(name@),
            decreases self.groups@.len() - g,
        {
            if contains_text(&self.groups[g].outputs, name) {
                assert(self@.groups[g as int].outputs.contains(name@));
                return true;
            }
            g += 1;
        }
        false
    }

    /// The first group that has the output `name` among its outputs.
    pub fn get_group_for_output(&self, name: &str) -> (r: Option<&MonitorGroup>)
        ensures
            r is Some <==> in_some_group(self@.groups, name@),
            r matches Some(group) ==> exists|g: int|
                is_first_group_of(self@.groups, name@, g) && (#[trigger] self.groups@[g]) == *group,
    {
        let mut g: usize = 0;
        while g < self.groups.len()
            invariant
                g <= self.groups@.len(),
                forall|k: int| 0 <= k < g ==> !(#[trigger] self@.groups[k]).outputs.contains(name@),
            decreases self.groups@.len() - g,
        {
            if contains_text(&self.groups[g].outputs, name) {
                assert(self@.groups[g as int].outputs.contains(name@));
                assert(is_first_group_of(self@.groups, name@, g as int));
                return Some(&self.groups[g]);
            }
            g += 1;
        }
        None
    }

    /// The outputs that rotate together with the output `name`: those of
    /// the first group that has it, or the output alone if no group has it.
    pub fn find_outputs_in_same_group(&self, name: &str) -> (r: Vec<String>)
        ensures
            if in_some_group(self@.groups, name@) {
                exists|g: int|
                    is_first_group_of(self@.groups, name@, g) && texts(r@)
                        == (#[trigger] self@.groups[g]).outputs
            } else {
                texts(r@) == seq![name@]
            },
    {
        match self.get_group_for_output(name) {
            Some(group) => {
                let outputs = clone_texts(&group.outputs);
                proof {
                    let g = choose|g: int|
                        is_first_group_of(self@.groups, name@, g) && (#[trigger] self.groups@[g])
                            == *group;
                    assert(self@.groups[g].outputs == texts(group.outputs@));
                }
                outputs
            },
            None => {
                let mut alone: Vec<String> = Vec::new();
                alone.push(crate::text::owned(name));
                assert(texts(alone@) =~= seq![name@]);
                alone
            },
        }
    }

    /// The behavior that the state shows: synchronized if there is a shared
    /// queue, else grouped if there are groups, else independent.
    pub fn current_behavior(&self) -> (r: MonitorBehavior)
        ensures
            r@ == self@.behavior(),
    {
        if self.shared_queue.is_some() {
            MonitorBehavior::Synchronized
        } else if self.groups.len() > 0 {
            let mut groups: Vec<Vec<String>> = Vec::new();
            let mut i: usize = 0;
            while i < self.groups.len()
                invariant
                    i <= self.groups@.len(),
                    group_texts(groups@) == self@.groups.map_values(
                        |g: GroupView| g.outputs,
                    ).take(i as int),
                decreases self.groups@.len() - i,
            {
                let ghost before = groups@;
                groups.push(clone_texts(&self.groups[i].outputs));
                assert(group_texts(groups@) =~= group_texts(before).push(
                    self@.groups[i as int].outputs,
                ));
                i += 1;
                assert(group_texts(groups@) =~= self@.groups.map_values(
                    |g: GroupView| g.outputs,
                ).take(i as int));
            }
            assert(group_texts(groups@) =~= self@.groups.map_values(|g: GroupView| g.outputs));
            MonitorBehavior::Grouped(groups)
        } else {
            MonitorBehavior::Independent
        }
    }

    /// Whether there is nothing to rotate.
    pub fn is_idle(&self) -> (r: bool)
        ensures
            r == self@.is_idle(),
    {
        self.outputs.len() == 0 && self.shared_queue.is_none() && self.groups.len() == 0
    }
}

/// What the snapshot keeps of an entry at `now`: its current image, its
/// position, the capacity of its queue, its mode, and its images in the
/// order of the pass.
pub open spec fn entry_record(e: EntryView, now: i64) -> OutputStateView {
    OutputStateView {
        current_image: e.queue.current,
        queue_position: e.queue.history.len() as usize,
        queue_size: e.queue.capacity as usize,
        sorting: e.queue.sorting,
        images: e.queue.all_images(),
        last_updated: now,
    }
}

/// The snapshot after the first `n` entries were written into it at `now`.
pub open spec fn synced(snapshot: SnapshotView, entries: Seq<EntryView>, n: int, now: i64)
    -> SnapshotView
    decreases n,
{
    if n <= 0 {
        snapshot
    } else {
        synced(snapshot, entries, n - 1, now).with_output(
            entries[n - 1].name,
            entry_record(entries[n - 1], now),
            now,
        )
    }
}

impl LiveState {
    /// Writes the queue of every output that rotates on its own into the
    /// snapshot, with the pause flag, as of `now`. What is written is what
    /// a later run needs to take the rotation up again.
    pub fn sync_snapshot_at(&mut self, now: i64)
        requires
            old(self).wf(),
        ensures
            final(self).wf(),
            final(self)@ == (LiveView {
                snapshot: SnapshotView {
                    global_paused: old(self)@.paused,
                    last_save: now,
                    ..synced(
                        old(self)@.snapshot,
                        old(self)@.entries,
                        old(self)@.entries.len() as int,
                        now,
                    )
                },
                ..old(self)@
            }),
    {
        let ghost before = self@;
        let mut i: usize = 0;
        while i < self.outputs.len()
            invariant
                i <= self.outputs@.len(),
                self.wf(),
                self@.entries == before.entries,
                self@.groups == before.groups,
                self@.shared_queue == before.shared_queue,
                self@.shared_timer == before.shared_timer,
                self@.paused == before.paused,
                self@.snapshot == synced(before.snapshot, before.entries, i as int, now),
            decreases self.outputs@.len() - i,
        {
            let entry = &self.outputs[i];
            let images = entry.queue.get_all_images();
            let current = match entry.queue.current_image() {
                Some(c) => Some(c.clone()),
                None => None,
            };
            let position = entry.queue.current_position();
            let capacity = entry.queue.capacity();
            let sorting = entry.queue.get_sorting();
            let name = entry.name.clone();
            self.persistent_state.update_output_state_at(
                name.as_str(),
                match &current {
                    Some(c) => Some(c.as_str()),
                    None => None,
                },
                position,
                capacity,
                sorting,
                &images,
                now,
            );
            assert(self@.entries[i as int] == before.entries[i as int]);
            i += 1;
        }
        self.persistent_state.set_paused_at(self.paused, now);
    }

    /// Writes the queues into the snapshot as of now, as `sync_snapshot_at`
    /// does; the snapshot is then ready to be stored.
    pub fn save_state(&mut self)
        requires
            old(self).wf(),
        ensures
            final(self).wf(),
            final(self)@.entries == old(self)@.entries,
            final(self)@.groups == old(self)@.groups,
            final(self)@.shared_queue == old(self)@.shared_queue,
            final(self)@.shared_timer == old(self)@.shared_timer,
            final(self)@.paused == old(self)@.paused,
            final(self)@.snapshot == (SnapshotView {
                global_paused: old(self)@.paused,
                last_save: final(self)@.snapshot.last_save,
                ..synced(
                    old(self)@.snapshot,
                    old(self)@.entries,
                    old(self)@.entries.len() as int,
                    final(self)@.snapshot.last_save,
                )
            }),
    {
        let now = unix_now();
        self.sync_snapshot_at(now);
    }
}

} // verus!
