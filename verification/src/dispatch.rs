//! The dispatcher of control requests: what each request does to the live
//! state, which images it has shown, and what it answers.

use crate::config::{BehaviorView, Config, ConfigView, MonitorBehavior};
use crate::error::{ErrorReporting, SwwwsError};
use crate::ipc::{
    status_views, CommandView, IpcCommand, IpcResponse, OutputStatus, ResponseView, StatusView,
};
use crate::live::{
    change_views, entry_names, in_some_group, ChangeView, EntryView, GroupView, LiveState, LiveView,
    WallpaperChange,
};
use crate::manager::{build_failure, changes_for, groups_changes, idle_view, shown_on, Discovery};
use crate::paths::{file_name, shown_name};
use crate::queue::{Queue, QueueView};
use crate::text::{clone_texts, first_index_of, join, join3, owned, texts};
use crate::time::Span;
use vstd::prelude::*;

verus! {

/// The entry with its queue one step forward and its timer started at `now`.
pub open spec fn entry_stepped(before: EntryView, after: EntryView, now: Span) -> bool {
    &&& after.name == before.name
    &&& after.timer == now
    &&& before.queue.advances_to(after.queue)
}

/// The group with its queue one step forward and its timer started at `now`.
pub open spec fn group_stepped(before: GroupView, after: GroupView, now: Span) -> bool {
    &&& after.name == before.name
    &&& after.outputs == before.outputs
    &&& after.timer == now
    &&& before.queue.advances_to(after.queue)
}

/// The entry one image back, its timer started at `now`; as it was, if
/// nothing was shown before its current image.
pub open spec fn entry_back(e: EntryView, now: Span) -> EntryView {
    if e.queue.history.len() > 0 {
        EntryView { name: e.name, queue: e.queue.retreated(), timer: now }
    } else {
        e
    }
}

/// The group one image back, its timer started at `now`; as it was, if
/// nothing was shown before its current image.
pub open spec fn group_back(g: GroupView, now: Span) -> GroupView {
    if g.queue.history.len() > 0 {
        GroupView { name: g.name, outputs: g.outputs, queue: g.queue.retreated(), timer: now }
    } else {
        g
    }
}

/// The changes that show the current image of each of the first `n` entries
/// that is in none of the groups.
pub open spec fn forward_changes(entries: Seq<EntryView>, groups: Seq<GroupView>, n: int) -> Seq<
    ChangeView,
>
    decreases n,
{
    if n <= 0 {
        Seq::empty()
    } else {
        let before = forward_changes(entries, groups, n - 1);
        let e = entries[n - 1];
        if in_some_group(groups, e.name) {
            before
        } else {
            before.push(ChangeView { output: e.name, image: e.queue.current.unwrap() })
        }
    }
}

/// The changes that show the current image of each of the first `n` entries
/// that went one image back: those in none of the groups that had shown an
/// image before. `was` are the entries before the step, `entries` after it.
pub open spec fn backward_changes(
    was: Seq<EntryView>,
    entries: Seq<EntryView>,
    groups: Seq<GroupView>,
    n: int,
) -> Seq<ChangeView>
    decreases n,
{
    if n <= 0 {
        Seq::empty()
    } else {
        let before = backward_changes(was, entries, groups, n - 1);
        let e = entries[n - 1];
        if in_some_group(groups, e.name) || was[n - 1].queue.history.len() == 0 {
            before
        } else {
            before.push(ChangeView { output: e.name, image: e.queue.current.unwrap() })
        }
    }
}

/// The changes that show the current image of each of the first `n` groups
/// that went one image back on the group's outputs. `was` are the groups
/// before the step, `groups` after it.
pub open spec fn groups_back_changes(was: Seq<GroupView>, groups: Seq<GroupView>, n: int) -> Seq<
    ChangeView,
>
    decreases n,
{
    if n <= 0 {
        Seq::empty()
    } else {
        let before = groups_back_changes(was, groups, n - 1);
        if was[n - 1].queue.history.len() == 0 {
            before
        } else {
            before + shown_on(groups[n - 1].outputs, groups[n - 1].queue.current.unwrap())
        }
    }
}

/// The outputs that a step of the shared queue forward is shown on: the
/// known outputs, or the outputs with an entry if none is known.
pub open spec fn forward_targets(known: Result<Vec<String>, SwwwsError>, entries: Seq<EntryView>)
    -> Seq<Seq<char>> {
    match known {
        Ok(v) => if v@.len() > 0 {
            texts(v@)
        } else {
            entry_names(entries)
        },
        Err(_) => entry_names(entries),
    }
}

/// The known outputs, or none if they could not be asked for.
pub open spec fn known_or_none(known: Result<Vec<String>, SwwwsError>) -> Seq<Seq<char>> {
    match known {
        Ok(v) => texts(v@),
        Err(_) => Seq::empty(),
    }
}

impl LiveView {
    /// Whether `after` is this state with the output `name` one image
    /// forward at `now`, whatever group it is in, `changes` showing its new
    /// image. Without an entry for the output nothing changes.
    pub open spec fn next_for_output(
        self,
        name: Seq<char>,
        now: Span,
        after: LiveView,
        changes: Seq<ChangeView>,
    ) -> bool {
        match first_index_of(entry_names(self.entries), name) {
            None => after == self && changes.len() == 0,
            Some(i) => {
                &&& after.entries.len() == self.entries.len()
                &&& entry_stepped(self.entries[i], after.entries[i], now)
                &&& after == (LiveView {
                    entries: self.entries.update(i, after.entries[i]),
                    ..self
                })
                &&& changes == seq![
                    ChangeView { output: name, image: after.entries[i].queue.current.unwrap() },
                ]
            },
        }
    }

    /// This state with the output `name` one image back at `now`, whatever
    /// group it is in. Without an entry for the output, and where the output
    /// has shown nothing before, nothing changes.
    pub open spec fn previous_for_output(self, name: Seq<char>, now: Span) -> LiveView {
        match first_index_of(entry_names(self.entries), name) {
            None => self,
            Some(i) => LiveView {
                entries: self.entries.update(i, entry_back(self.entries[i], now)),
                ..self
            },
        }
    }

    /// The change that shows the new image of the output `name` after it
    /// went one image back, if it did.
    pub open spec fn previous_change(self, name: Seq<char>, now: Span) -> Seq<ChangeView> {
        match first_index_of(entry_names(self.entries), name) {
            None => Seq::empty(),
            Some(i) => if self.entries[i].queue.history.len() > 0 {
                seq![
                    ChangeView {
                        output: name,
                        image: self.entries[i].queue.retreated().current.unwrap(),
                    },
                ]
            } else {
                Seq::empty()
            },
        }
    }

    /// Whether `after` is this state one image forward everywhere at `now`,
    /// `changes` showing the new images.
    ///
    /// With a shared queue, that queue goes one image forward and its new
    /// image is shown on every known output. Else every group goes one image
    /// forward, its new image shown on its outputs, and so does every output
    /// with a queue of its own that is in no group.
    pub open spec fn next_everywhere(
        self,
        known: Result<Vec<String>, SwwwsError>,
        now: Span,
        after: LiveView,
        changes: Seq<ChangeView>,
    ) -> bool {
        &&& after.paused == self.paused
        &&& after.snapshot == self.snapshot
        &&& match self.shared_queue {
            Some(q) => {
                &&& after.entries == self.entries
                &&& after.groups == self.groups
                &&& after.shared_timer == Some(now)
                &&& after.shared_queue matches Some(stepped)
                &&& q.advances_to(stepped)
                &&& changes == shown_on(
                    forward_targets(known, self.entries),
                    stepped.current.unwrap(),
                )
            },
            None => {
                &&& after.shared_queue is None
                &&& after.shared_timer == self.shared_timer
                &&& after.groups.len() == self.groups.len()
                &&& forall|g: int|
                    0 <= g < self.groups.len() ==> group_stepped(
                        self.groups[g],
                        #[trigger] after.groups[g],
                        now,
                    )
                &&& after.entries.len() == self.entries.len()
                &&& forall|i: int|
                    0 <= i < self.entries.len() ==> if in_some_group(
                        self.groups,
                        self.entries[i].name,
                    ) {
                        #[trigger] after.entries[i] == self.entries[i]
                    } else {
                        entry_stepped(self.entries[i], after.entries[i], now)
                    }
                &&& changes == groups_changes(after.groups, after.groups.len() as int)
                    + forward_changes(after.entries, after.groups, after.entries.len() as int)
            },
        }
    }

    /// This state one image back everywhere at `now`.
    ///
    /// With a shared queue, that queue goes one image back. Else every group
    /// does, and every output with a queue of its own that is in no group.
    /// A queue that has shown nothing before its current image stays as it
    /// is, and so does its timer.
    pub open spec fn previous_everywhere(self, now: Span) -> LiveView {
        match self.shared_queue {
            Some(q) => if q.history.len() > 0 {
                LiveView { shared_queue: Some(q.retreated()), shared_timer: Some(now), ..self }
            } else {
                self
            },
            None => LiveView {
                groups: Seq::new(self.groups.len(), |g: int| group_back(self.groups[g], now)),
                entries: Seq::new(
                    self.entries.len(),
                    |i: int|
                        if in_some_group(self.groups, self.entries[i].name) {
                            self.entries[i]
                        } else {
                            entry_back(self.entries[i], now)
                        },
                ),
                ..self
            },
        }
    }

    /// The changes that show the new images after a step back everywhere:
    /// that of the shared queue on the known outputs, or those of the groups
    /// on their outputs and of the outputs on their own.
    pub open spec fn previous_changes(self, known: Result<Vec<String>, SwwwsError>, now: Span)
        -> Seq<ChangeView> {
        let after = self.previous_everywhere(now);
        match self.shared_queue {
            Some(q) => if q.history.len() > 0 {
                shown_on(known_or_none(known), q.retreated().current.unwrap())
            } else {
                Seq::empty()
            },
            None => groups_back_changes(self.groups, after.groups, self.groups.len() as int)
                + backward_changes(
                self.entries,
                after.entries,
                self.groups,
                self.entries.len() as int,
            ),
        }
    }
}

impl LiveState {
    /// Shows the next image on the output `output_name`, whatever group it
    /// is in.
    pub fn handle_next_for_output(&mut self, output_name: &str, now: Span) -> (r: Vec<
        WallpaperChange,
    >)
        requires
            old(self).wf(),
        ensures
            final(self).wf(),
            old(self)@.next_for_output(output_name@, now, final(self)@, change_views(r@)),
    {
        let ghost before = self@;
        let mut changes: Vec<WallpaperChange> = Vec::new();
        match self.find_entry(output_name) {
            Some(i) => {
                let image = match self.outputs[i].queue.next() {
                    Some(c) => c.clone(),
                    None => String::new(),
                };
                self.outputs[i].timer = now;
                changes.push(WallpaperChange { output: owned(output_name), image });
                proof {
                    assert(self@.entries =~= before.entries.update(
                        i as int,
                        self@.entries[i as int],
                    ));
                    assert(entry_names(self@.entries) =~= entry_names(before.entries));
                    assert(self@.groups =~= before.groups);
                    assert(change_views(changes@) =~= seq![
                        ChangeView {
                            output: output_name@,
                            image: self@.entries[i as int].queue.current.unwrap(),
                        },
                    ]);
                }
            },
            None => {},
        }
        changes
    }

    /// Shows the previous image on the output `output_name`, whatever group
    /// it is in.
    pub fn handle_previous_for_output(&mut self, output_name: &str, now: Span) -> (r: Vec<
        WallpaperChange,
    >)
        requires
            old(self).wf(),
        ensures
            final(self).wf(),
            final(self)@ == old(self)@.previous_for_output(output_name@, now),
            change_views(r@) == old(self)@.previous_change(output_name@, now),
    {
        let ghost before = self@;
        let mut changes: Vec<WallpaperChange> = Vec::new();
        match self.find_entry(output_name) {
            Some(i) => {
                let image = match self.outputs[i].queue.previous() {
                    Some(c) => Some(c.clone()),
                    None => None,
                };
                match image {
                    Some(image) => {
                        self.outputs[i].timer = now;
                        changes.push(WallpaperChange { output: owned(output_name), image });
                        proof {
                            assert(change_views(changes@) =~= before.previous_change(
                                output_name@,
                                now,
                            ));
                        }
                    },
                    None => {},
                }
                proof {
                    assert(self@.entries =~= before.entries.update(
                        i as int,
                        entry_back(before.entries[i as int], now),
                    ));
                    assert(entry_names(self@.entries) =~= entry_names(before.entries));
                    assert(self@.groups =~= before.groups);
                }
            },
            None => {},
        }
        changes
    }
}

/// The forward changes of the first `n` entries do not depend on the
/// entries after them.
proof fn lemma_forward_changes_prefix(
    a: Seq<EntryView>,
    b: Seq<EntryView>,
    groups: Seq<GroupView>,
    n: int,
)
    requires
        0 <= n <= a.len(),
        n <= b.len(),
        forall|i: int| 0 <= i < n ==> a[i] == b[i],
    ensures
        forward_changes(a, groups, n) == forward_changes(b, groups, n),
    decreases n,
{
    if n > 0 {
        lemma_forward_changes_prefix(a, b, groups, n - 1);
    }
}

/// The changes of the first `n` groups do not depend on the groups after
/// them.
proof fn lemma_groups_changes_prefix(a: Seq<GroupView>, b: Seq<GroupView>, n: int)
    requires
        0 <= n <= a.len(),
        n <= b.len(),
        forall|i: int| 0 <= i < n ==> a[i] == b[i],
    ensures
        groups_changes(a, n) == groups_changes(b, n),
    decreases n,
{
    if n > 0 {
        lemma_groups_changes_prefix(a, b, n - 1);
    }
}

/// The backward changes of the first `n` entries do not depend on the
/// entries after them.
proof fn lemma_backward_changes_prefix(
    was: Seq<EntryView>,
    a: Seq<EntryView>,
    b: Seq<EntryView>,
    groups: Seq<GroupView>,
    n: int,
)
    requires
        0 <= n <= a.len(),
        n <= b.len(),
        forall|i: int| 0 <= i < n ==> a[i] == b[i],
    ensures
        backward_changes(was, a, groups, n) == backward_changes(was, b, groups, n),
    decreases n,
{
    if n > 0 {
        lemma_backward_changes_prefix(was, a, b, groups, n - 1);
    }
}

/// The backward changes of the first `n` groups do not depend on the groups
/// after them.
proof fn lemma_groups_back_changes_prefix(
    was: Seq<GroupView>,
    a: Seq<GroupView>,
    b: Seq<GroupView>,
    n: int,
)
    requires
        0 <= n <= a.len(),
        n <= b.len(),
        forall|i: int| 0 <= i < n ==> a[i] == b[i],
    ensures
        groups_back_changes(was, a, n) == groups_back_changes(was, b, n),
    decreases n,
{
    if n > 0 {
        lemma_groups_back_changes_prefix(was, a, b, n - 1);
    }
}

/// Whether a group's member list holds the name, by the lists alone.
proof fn lemma_in_some_group_by_outputs(a: Seq<GroupView>, b: Seq<GroupView>, name: Seq<char>)
    requires
        a.len() == b.len(),
        forall|g: int| 0 <= g < a.len() ==> a[g].outputs == b[g].outputs,
    ensures
        in_some_group(a, name) == in_some_group(b, name),
{
    if in_some_group(a, name) {
        let g = choose|g: int| 0 <= g < a.len() && (#[trigger] a[g]).outputs.contains(name);
        assert(b[g].outputs.contains(name));
    }
    if in_some_group(b, name) {
        let g = choose|g: int| 0 <= g < b.len() && (#[trigger] b[g]).outputs.contains(name);
        assert(a[g].outputs.contains(name));
    }
}

impl LiveState {
    /// Moves every group one image forward at `now` and returns the changes
    /// that show the new images on the groups' outputs.
    fn step_groups(&mut self, now: Span) -> (r: Vec<WallpaperChange>)
        requires
            old(self).wf(),
        ensures
            final(self).wf(),
            final(self)@.entries == old(self)@.entries,
            final(self)@.shared_queue == old(self)@.shared_queue,
            final(self)@.shared_timer == old(self)@.shared_timer,
            final(self)@.paused == old(self)@.paused,
            final(self)@.snapshot == old(self)@.snapshot,
            final(self)@.groups.len() == old(self)@.groups.len(),
            forall|g: int|
                0 <= g < old(self)@.groups.len() ==> group_stepped(
                    old(self)@.groups[g],
                    #[trigger] final(self)@.groups[g],
                    now,
                ),
            change_views(r@) == groups_changes(
                final(self)@.groups,
                final(self)@.groups.len() as int,
            ),
    {
        let ghost before = self@;
        let mut changes: Vec<WallpaperChange> = Vec::new();
        let mut g: usize = 0;
        while g < self.groups.len()
            invariant
                g <= self.groups@.len(),
                self.wf(),
                self@.entries == before.entries,
                self@.shared_queue == before.shared_queue,
                self@.shared_timer == before.shared_timer,
                self@.paused == before.paused,
                self@.snapshot == before.snapshot,
                self@.groups.len() == before.groups.len(),
                forall|k: int|
                    0 <= k < g ==> group_stepped(before.groups[k], #[trigger] self@.groups[k], now),
                forall|k: int| g <= k < self@.groups.len() ==> self@.groups[k] == before.groups[k],
                change_views(changes@) == groups_changes(self@.groups, g as int),
            decreases self.groups@.len() - g,
        {
            let ghost mid = self@;
            let ghost mg = self.groups@;
            let ghost made = changes@;
            let image = match self.groups[g].queue.next() {
                Some(c) => c.clone(),
                None => String::new(),
            };
            self.groups[g].timer = now;
            let mut shown = changes_for(&self.groups[g].outputs, image.as_str());
            let ghost s = shown@;
            changes.append(&mut shown);
            proof {
                assert(self@.entries =~= before.entries);
                assert(change_views(changes@) =~= change_views(made) + change_views(s));
                assert forall|k: int| 0 <= k < self@.groups.len() && k != g implies self@.groups[k]
                    == mid.groups[k] by {
                    assert(self.groups@[k] == mg[k]);
                }
                assert(mid.groups[g as int] == mg[g as int]@);
                assert(group_stepped(before.groups[g as int], self@.groups[g as int], now));
                assert forall|k: int| 0 <= k < g + 1 implies group_stepped(
                    before.groups[k],
                    #[trigger] self@.groups[k],
                    now,
                ) by {
                    if k < g {
                        assert(self@.groups[k] == mid.groups[k]);
                        assert(group_stepped(before.groups[k], mid.groups[k], now));
                    }
                }
                lemma_groups_changes_prefix(self@.groups, mid.groups, g as int);
                assert(self@.groups[g as int].outputs == mid.groups[g as int].outputs);
            }
            g += 1;
        }
        changes
    }

    /// Moves every output with a queue of its own that is in no group one
    /// image forward at `now`, and returns the changes that show the new
    /// images.
    fn step_entries(&mut self, now: Span) -> (r: Vec<WallpaperChange>)
        requires
            old(self).wf(),
        ensures
            final(self).wf(),
            final(self)@.groups == old(self)@.groups,
            final(self)@.shared_queue == old(self)@.shared_queue,
            final(self)@.shared_timer == old(self)@.shared_timer,
            final(self)@.paused == old(self)@.paused,
            final(self)@.snapshot == old(self)@.snapshot,
            final(self)@.entries.len() == old(self)@.entries.len(),
            forall|i: int|
                0 <= i < old(self)@.entries.len() ==> if in_some_group(
                    old(self)@.groups,
                    old(self)@.entries[i].name,
                ) {
                    #[trigger] final(self)@.entries[i] == old(self)@.entries[i]
                } else {
                    entry_stepped(old(self)@.entries[i], final(self)@.entries[i], now)
                },
            change_views(r@) == forward_changes(
                final(self)@.entries,
                final(self)@.groups,
                final(self)@.entries.len() as int,
            ),
    {
        let ghost before = self@;
        let mut changes: Vec<WallpaperChange> = Vec::new();
        let mut i: usize = 0;
        while i < self.outputs.len()
            invariant
                i <= self.outputs@.len(),
                self.wf(),
                self@.groups == before.groups,
                self@.shared_queue == before.shared_queue,
                self@.shared_timer == before.shared_timer,
                self@.paused == before.paused,
                self@.snapshot == before.snapshot,
                self@.entries.len() == before.entries.len(),
                forall|k: int|
                    0 <= k < i ==> if in_some_group(before.groups, before.entries[k].name) {
                        #[trigger] self@.entries[k] == before.entries[k]
                    } else {
                        entry_stepped(before.entries[k], self@.entries[k], now)
                    },
                forall|k: int|
                    i <= k < self@.entries.len() ==> self@.entries[k] == before.entries[k],
                change_views(changes@) == forward_changes(self@.entries, self@.groups, i as int),
            decreases self.outputs@.len() - i,
        {
            let ghost mid = self@;
            let ghost me = self.outputs@;
            let ghost made = changes@;
            let name = self.outputs[i].name.clone();
            assert(mid.entries[i as int] == me[i as int]@);
            if !self.is_in_group(name.as_str()) {
                let image = match self.outputs[i].queue.next() {
                    Some(c) => c.clone(),
                    None => String::new(),
                };
                self.outputs[i].timer = now;
                changes.push(WallpaperChange { output: name, image });
                proof {
                    assert(self@.groups =~= before.groups);
                    assert forall|k: int|
                        0 <= k < self@.entries.len() && k != i implies self@.entries[k]
                        == mid.entries[k] by {
                        assert(self.outputs@[k] == me[k]);
                    }
                    assert(entry_stepped(before.entries[i as int], self@.entries[i as int], now));
                    assert forall|k: int| 0 <= k < i + 1 implies if in_some_group(
                        before.groups,
                        before.entries[k].name,
                    ) {
                        #[trigger] self@.entries[k] == before.entries[k]
                    } else {
                        entry_stepped(before.entries[k], self@.entries[k], now)
                    } by {
                        if k < i {
                            assert(self@.entries[k] == mid.entries[k]);
                        }
                    }
                    assert(entry_names(self@.entries) =~= entry_names(mid.entries));
                    assert(change_views(changes@) =~= change_views(made).push(
                        ChangeView {
                            output: self@.entries[i as int].name,
                            image: self@.entries[i as int].queue.current.unwrap(),
                        },
                    ));
                    lemma_forward_changes_prefix(self@.entries, mid.entries, self@.groups, i as int);
                }
            }
            i += 1;
        }
        changes
    }

    /// Shows the next image everywhere: on every known output from the
    /// shared queue if there is one, else on the outputs of every group and
    /// on every output with a queue of its own that is in no group.
    pub fn next_everywhere(&mut self, known: &Result<Vec<String>, SwwwsError>, now: Span) -> (r:
        Vec<WallpaperChange>)
        requires
            old(self).wf(),
        ensures
            final(self).wf(),
            old(self)@.next_everywhere(*known, now, final(self)@, change_views(r@)),
    {
        let ghost before = self@;
        if self.shared_queue.is_some() {
            let image = match &mut self.shared_queue {
                Some(queue) => match queue.next() {
                    Some(c) => c.clone(),
                    None => String::new(),
                },
                None => String::new(),
            };
            self.shared_timer = Some(now);
            let targets = match known {
                Ok(v) => if v.len() > 0 {
                    clone_texts(v)
                } else {
                    self.entry_names()
                },
                Err(_) => self.entry_names(),
            };
            proof {
                assert(self@.entries =~= before.entries);
                assert(self@.groups =~= before.groups);
            }
            changes_for(&targets, image.as_str())
        } else {
            let mut changes = self.step_groups(now);
            let ghost first = changes@;
            let ghost mid = self@;
            let mut more = self.step_entries(now);
            let ghost second = more@;
            changes.append(&mut more);
            proof {
                assert(change_views(changes@) =~= change_views(first) + change_views(second));
                assert forall|i: int| 0 <= i < before.entries.len() implies in_some_group(
                    before.groups,
                    before.entries[i].name,
                ) == in_some_group(mid.groups, mid.entries[i].name) by {
                    lemma_in_some_group_by_outputs(
                        before.groups,
                        mid.groups,
                        before.entries[i].name,
                    );
                }
            }
            changes
        }
    }

    /// The names of the outputs with a queue of their own.
    pub fn entry_names(&self) -> (r: Vec<String>)
        ensures
            texts(r@) == entry_names(self@.entries),
    {
        let mut names: Vec<String> = Vec::new();
        let mut i: usize = 0;
        while i < self.outputs.len()
            invariant
                i <= self.outputs@.len(),
                names@.len() == i,
                forall|k: int| 0 <= k < i ==> (#[trigger] names@[k])@ == self.outputs@[k].name@,
            decreases self.outputs@.len() - i,
        {
            names.push(self.outputs[i].name.clone());
            i += 1;
        }
        assert(texts(names@) =~= entry_names(self@.entries));
        names
    }
}

impl LiveState {
    /// Moves every group that has shown an image before one image back at
    /// `now`, and returns the changes that show the new images.
    fn back_groups(&mut self, now: Span) -> (r: Vec<WallpaperChange>)
        requires
            old(self).wf(),
        ensures
            final(self).wf(),
            final(self)@.entries == old(self)@.entries,
            final(self)@.shared_queue == old(self)@.shared_queue,
            final(self)@.shared_timer == old(self)@.shared_timer,
            final(self)@.paused == old(self)@.paused,
            final(self)@.snapshot == old(self)@.snapshot,
            final(self)@.groups == Seq::new(
                old(self)@.groups.len(),
                |g: int| group_back(old(self)@.groups[g], now),
            ),
            change_views(r@) == groups_back_changes(
                old(self)@.groups,
                final(self)@.groups,
                final(self)@.groups.len() as int,
            ),
    {
        let ghost before = self@;
        let mut changes: Vec<WallpaperChange> = Vec::new();
        let mut g: usize = 0;
        while g < self.groups.len()
            invariant
                g <= self.groups@.len(),
                self.wf(),
                self@.entries == before.entries,
                self@.shared_queue == before.shared_queue,
                self@.shared_timer == before.shared_timer,
                self@.paused == before.paused,
                self@.snapshot == before.snapshot,
                self@.groups.len() == before.groups.len(),
                forall|k: int|
                    0 <= k < g ==> #[trigger] self@.groups[k] == group_back(before.groups[k], now),
                forall|k: int| g <= k < self@.groups.len() ==> self@.groups[k] == before.groups[k],
                change_views(changes@) == groups_back_changes(
                    before.groups,
                    self@.groups,
                    g as int,
                ),
            decreases self.groups@.len() - g,
        {
            let ghost mid = self@;
            let ghost mg = self.groups@;
            let ghost made = changes@;
            assert(mid.groups[g as int] == mg[g as int]@);
            let image = match self.groups[g].queue.previous() {
                Some(c) => Some(c.clone()),
                None => None,
            };
            match image {
                Some(image) => {
                    self.groups[g].timer = now;
                    let mut shown = changes_for(&self.groups[g].outputs, image.as_str());
                    let ghost s = shown@;
                    changes.append(&mut shown);
                    assert(change_views(changes@) =~= change_views(made) + change_views(s));
                },
                None => {},
            }
            proof {
                assert(self@.entries =~= before.entries);
                assert forall|k: int| 0 <= k < self@.groups.len() && k != g implies self@.groups[k]
                    == mid.groups[k] by {
                    assert(self.groups@[k] == mg[k]);
                }
                assert(self@.groups[g as int] == group_back(before.groups[g as int], now));
                assert forall|k: int| 0 <= k < g + 1 implies #[trigger] self@.groups[k]
                    == group_back(before.groups[k], now) by {
                    if k < g {
                        assert(self@.groups[k] == mid.groups[k]);
                    }
                }
                lemma_groups_back_changes_prefix(before.groups, self@.groups, mid.groups, g as int);
            }
            g += 1;
        }
        assert(self@.groups =~= Seq::new(
            before.groups.len(),
            |g: int| group_back(before.groups[g], now),
        ));
        changes
    }

    /// Moves every output with a queue of its own that is in no group and
    /// has shown an image before one image back at `now`, and returns the
    /// changes that show the new images.
    fn back_entries(&mut self, now: Span) -> (r: Vec<WallpaperChange>)
        requires
            old(self).wf(),
        ensures
            final(self).wf(),
            final(self)@.groups == old(self)@.groups,
            final(self)@.shared_queue == old(self)@.shared_queue,
            final(self)@.shared_timer == old(self)@.shared_timer,
            final(self)@.paused == old(self)@.paused,
            final(self)@.snapshot == old(self)@.snapshot,
            final(self)@.entries == Seq::new(
                old(self)@.entries.len(),
                |i: int|
                    if in_some_group(old(self)@.groups, old(self)@.entries[i].name) {
                        old(self)@.entries[i]
                    } else {
                        entry_back(old(self)@.entries[i], now)
                    },
            ),
            change_views(r@) == backward_changes(
                old(self)@.entries,
                final(self)@.entries,
                old(self)@.groups,
                final(self)@.entries.len() as int,
            ),
    {
        let ghost before = self@;
        let mut changes: Vec<WallpaperChange> = Vec::new();
        let mut i: usize = 0;
        while i < self.outputs.len()
            invariant
                i <= self.outputs@.len(),
                self.wf(),
                self@.groups == before.groups,
                self@.shared_queue == before.shared_queue,
                self@.shared_timer == before.shared_timer,
                self@.paused == before.paused,
                self@.snapshot == before.snapshot,
                self@.entries.len() == before.entries.len(),
                forall|k: int|
                    0 <= k < i ==> #[trigger] self@.entries[k] == if in_some_group(
                        before.groups,
                        before.entries[k].name,
                    ) {
                        before.entries[k]
                    } else {
                        entry_back(before.entries[k], now)
                    },
                forall|k: int|
                    i <= k < self@.entries.len() ==> self@.entries[k] == before.entries[k],
                change_views(changes@) == backward_changes(
                    before.entries,
                    self@.entries,
                    before.groups,
                    i as int,
                ),
            decreases self.outputs@.len() - i,
        {
            let ghost mid = self@;
            let ghost me = self.outputs@;
            let ghost made = changes@;
            let name = self.outputs[i].name.clone();
            assert(mid.entries[i as int] == me[i as int]@);
            if !self.is_in_group(name.as_str()) {
                let image = match self.outputs[i].queue.previous() {
                    Some(c) => Some(c.clone()),
                    None => None,
                };
                match image {
                    Some(image) => {
                        self.outputs[i].timer = now;
                        changes.push(WallpaperChange { output: name, image });
                        assert(change_views(changes@) =~= change_views(made).push(
                            ChangeView {
                                output: before.entries[i as int].name,
                                image: before.entries[i as int].queue.retreated().current.unwrap(),
                            },
                        ));
                    },
                    None => {},
                }
            }
            proof {
                assert(self@.groups =~= before.groups);
                assert forall|k: int|
                    0 <= k < self@.entries.len() && k != i implies self@.entries[k]
                    == mid.entries[k] by {
                    assert(self.outputs@[k] == me[k]);
                }
                assert(entry_names(self@.entries) =~= entry_names(mid.entries));
                assert forall|k: int| 0 <= k < i + 1 implies #[trigger] self@.entries[k]
                    == if in_some_group(before.groups, before.entries[k].name) {
                    before.entries[k]
                } else {
                    entry_back(before.entries[k], now)
                } by {
                    if k < i {
                        assert(self@.entries[k] == mid.entries[k]);
                    }
                }
                lemma_backward_changes_prefix(
                    before.entries,
                    self@.entries,
                    mid.entries,
                    before.groups,
                    i as int,
                );
            }
            i += 1;
        }
        assert(self@.entries =~= Seq::new(
            before.entries.len(),
            |i: int|
                if in_some_group(before.groups, before.entries[i].name) {
                    before.entries[i]
                } else {
                    entry_back(before.entries[i], now)
                },
        ));
        changes
    }

    /// Shows the previous image everywhere: on every known output from the
    /// shared queue if there is one, else on the outputs of every group and
    /// on every output with a queue of its own that is in no group.
    pub fn previous_everywhere(&mut self, known: &Result<Vec<String>, SwwwsError>, now: Span)
        -> (r: Vec<WallpaperChange>)
        requires
            old(self).wf(),
        ensures
            final(self).wf(),
            final(self)@ == old(self)@.previous_everywhere(now),
            change_views(r@) == old(self)@.previous_changes(*known, now),
    {
        let ghost before = self@;
        if self.shared_queue.is_some() {
            let image = match &mut self.shared_queue {
                Some(queue) => match queue.previous() {
                    Some(c) => Some(c.clone()),
                    None => None,
                },
                None => None,
            };
            proof {
                assert(self@.entries =~= before.entries);
                assert(self@.groups =~= before.groups);
            }
            match image {
                Some(image) => {
                    self.shared_timer = Some(now);
                    match known {
                        Ok(v) => changes_for(v, image.as_str()),
                        Err(_) => {
                            let none: Vec<WallpaperChange> = Vec::new();
                            assert(change_views(none@) =~= shown_on(
                                Seq::empty(),
                                image@,
                            ));
                            none
                        },
                    }
                },
                None => {
                    let none: Vec<WallpaperChange> = Vec::new();
                    assert(change_views(none@) =~= Seq::empty());
                    none
                },
            }
        } else {
            let mut changes = self.back_groups(now);
            let ghost first = changes@;
            let ghost mid = self@;
            let mut more = self.back_entries(now);
            let ghost second = more@;
            changes.append(&mut more);
            proof {
                assert(change_views(changes@) =~= change_views(first) + change_views(second));
                assert forall|i: int| 0 <= i < before.entries.len() implies in_some_group(
                    before.groups,
                    before.entries[i].name,
                ) == in_some_group(mid.groups, mid.entries[i].name) by {
                    lemma_in_some_group_by_outputs(
                        before.groups,
                        mid.groups,
                        before.entries[i].name,
                    );
                }
                assert(self@.entries =~= before.previous_everywhere(now).entries);
                lemma_backward_changes_groups(
                    before.entries,
                    self@.entries,
                    before.groups,
                    mid.groups,
                    before.entries.len() as int,
                );
            }
            changes
        }
    }
}

/// The backward changes depend on the groups only by their member lists.
proof fn lemma_backward_changes_groups(
    was: Seq<EntryView>,
    entries: Seq<EntryView>,
    a: Seq<GroupView>,
    b: Seq<GroupView>,
    n: int,
)
    requires
        a.len() == b.len(),
        forall|g: int| 0 <= g < a.len() ==> a[g].outputs == b[g].outputs,
    ensures
        backward_changes(was, entries, a, n) == backward_changes(was, entries, b, n),
    decreases n,
{
    if n > 0 {
        lemma_backward_changes_groups(was, entries, a, b, n - 1);
        lemma_in_some_group_by_outputs(a, b, entries[n - 1].name);
    }
}

/// The whole seconds until a rotation is due that was last made at `timer`
/// and is made every `target`; zero if it is due already.
pub open spec fn remaining_secs(timer: Option<Span>, now: Span, target: Span) -> u64 {
    let elapsed = match timer {
        Some(t) => now.since(t),
        None => Span { nanos: 0 },
    };
    target.since(elapsed).whole_secs()
}

/// The record of a queue for the output shown as `label`.
pub open spec fn record(
    label: Seq<char>,
    q: QueueView,
    timer: Option<Span>,
    now: Span,
    target: Span,
    paused: bool,
) -> StatusView {
    StatusView {
        name: label,
        current_image: match q.current {
            Some(c) => Some(shown_name(c)),
            None => None,
        },
        queue_position: q.history.len() as usize,
        queue_size: (q.history.len() + q.buffer.len() + 1) as usize,
        timer_remaining: Some(remaining_secs(timer, now, target)),
        paused,
    }
}

/// The time between rotations that is configured for the first of the
/// outputs, or five minutes where there is none.
pub open spec fn target_of(config: ConfigView, outputs: Seq<Seq<char>>) -> Span {
    if outputs.len() > 0 {
        config.output_config(outputs[0]).settings.duration
    } else {
        Span { nanos: 300_000_000_000 }
    }
}

/// The records of the outputs of a group, each labelled with the group.
pub open spec fn group_records(
    g: GroupView,
    config: ConfigView,
    now: Span,
    paused: bool,
) -> Seq<StatusView> {
    Seq::new(
        g.outputs.len(),
        |m: int|
            record(
                g.outputs[m] + " ("@ + g.name + ")"@,
                g.queue,
                Some(g.timer),
                now,
                target_of(config, g.outputs),
                paused,
            ),
    )
}

/// The records of the outputs of the first `n` groups.
pub open spec fn groups_records(
    groups: Seq<GroupView>,
    config: ConfigView,
    now: Span,
    paused: bool,
    n: int,
) -> Seq<StatusView>
    decreases n,
{
    if n <= 0 {
        Seq::empty()
    } else {
        groups_records(groups, config, now, paused, n - 1) + group_records(
            groups[n - 1],
            config,
            now,
            paused,
        )
    }
}

/// The record of an output with a queue of its own, labelled as `label`.
pub open spec fn entry_record(
    e: EntryView,
    label: Seq<char>,
    config: ConfigView,
    now: Span,
    paused: bool,
) -> StatusView {
    record(
        label,
        e.queue,
        Some(e.timer),
        now,
        config.output_config(e.name).settings.duration,
        paused,
    )
}

/// The records of those of the first `n` entries that are in no group, each
/// labelled as independent.
pub open spec fn ungrouped_records(
    entries: Seq<EntryView>,
    groups: Seq<GroupView>,
    config: ConfigView,
    now: Span,
    paused: bool,
    n: int,
) -> Seq<StatusView>
    decreases n,
{
    if n <= 0 {
        Seq::empty()
    } else {
        let before = ungrouped_records(entries, groups, config, now, paused, n - 1);
        let e = entries[n - 1];
        if in_some_group(groups, e.name) {
            before
        } else {
            before.push(entry_record(e, e.name + " (independent)"@, config, now, paused))
        }
    }
}

impl LiveView {
    /// One record for each output, all taken from this one state.
    ///
    /// With a shared queue every known output has the record of that queue.
    /// With groups every output of a group has the record of the group's
    /// queue, and every output with a queue of its own that is in no group
    /// has the record of that queue. Else every output with a queue of its
    /// own has the record of that queue.
    pub open spec fn status_records(
        self,
        config: ConfigView,
        known: Result<Vec<String>, SwwwsError>,
        now: Span,
    ) -> Seq<StatusView> {
        match self.shared_queue {
            Some(q) => {
                let outputs = known_or_none(known);
                Seq::new(
                    outputs.len(),
                    |i: int|
                        record(
                            outputs[i] + " (sync)"@,
                            q,
                            self.shared_timer,
                            now,
                            target_of(config, outputs),
                            self.paused,
                        ),
                )
            },
            None => if self.groups.len() > 0 {
                groups_records(self.groups, config, now, self.paused, self.groups.len() as int)
                    + ungrouped_records(
                    self.entries,
                    self.groups,
                    config,
                    now,
                    self.paused,
                    self.entries.len() as int,
                )
            } else {
                Seq::new(
                    self.entries.len(),
                    |i: int|
                        entry_record(
                            self.entries[i],
                            self.entries[i].name,
                            config,
                            now,
                            self.paused,
                        ),
                )
            },
        }
    }
}

/// The record of a queue for the output shown as `label`.
pub fn status_record(
    label: String,
    queue: &Queue,
    timer: Option<Span>,
    now: Span,
    target: Span,
    paused: bool,
) -> (r: OutputStatus)
    requires
        queue.wf(),
    ensures
        r@ == record(label@, queue@, timer, now, target, paused),
{
    let elapsed = match timer {
        Some(t) => now.saturating_sub(t),
        None => Span { nanos: 0 },
    };
    let remaining = target.saturating_sub(elapsed);
    OutputStatus {
        name: label,
        current_image: match queue.current_image() {
            Some(c) => Some(file_name(c.as_str())),
            None => None,
        },
        queue_position: queue.current_position(),
        queue_size: queue.size(),
        timer_remaining: Some(remaining.as_secs()),
        paused,
    }
}

/// The time between rotations that is configured for the first of the
/// outputs, or five minutes where there is none.
pub fn target_duration(config: &Config, outputs: &Vec<String>) -> (r: Span)
    ensures
        r == target_of(config@, texts(outputs@)),
{
    if outputs.len() > 0 {
        assert(texts(outputs@)[0] == outputs@[0]@);
        config.get_output_config(outputs[0].as_str()).duration
    } else {
        Span::from_secs(300)
    }
}

impl LiveState {
    /// One record for each output, all taken from this one state.
    pub fn status(&self, config: &Config, known: &Result<Vec<String>, SwwwsError>, now: Span)
        -> (r: Vec<OutputStatus>)
        requires
            self.wf(),
        ensures
            status_views(r@) == self@.status_records(config@, *known, now),
    {
        let mut records: Vec<OutputStatus> = Vec::new();
        match &self.shared_queue {
            Some(queue) => {
                let none: Vec<String> = Vec::new();
                let outputs = match known {
                    Ok(v) => v,
                    Err(_) => &none,
                };
                assert(texts(none@) =~= Seq::empty());
                let target = target_duration(config, outputs);
                let mut i: usize = 0;
                while i < outputs.len()
                    invariant
                        i <= outputs@.len(),
                        queue.wf(),
                        records@.len() == i,
                        forall|k: int|
                            0 <= k < i ==> (#[trigger] records@[k])@ == record(
                                outputs@[k]@ + " (sync)"@,
                                queue@,
                                self.shared_timer,
                                now,
                                target,
                                self.paused,
                            ),
                    decreases outputs@.len() - i,
                {
                    let label = join(outputs[i].as_str(), " (sync)");
                    records.push(
                        status_record(label, queue, self.shared_timer, now, target, self.paused),
                    );
                    i += 1;
                }
                assert(status_views(records@) =~= self@.status_records(config@, *known, now));
            },
            None => {
                if self.groups.len() > 0 {
                    let mut g: usize = 0;
                    while g < self.groups.len()
                        invariant
                            g <= self.groups@.len(),
                            self.wf(),
                            status_views(records@) == groups_records(
                                self@.groups,
                                config@,
                                now,
                                self.paused,
                                g as int,
                            ),
                        decreases self.groups@.len() - g,
                    {
                        let ghost made = records@;
                        let group = &self.groups[g];
                        assert(self@.groups[g as int] == group@);
                        let target = target_duration(config, &group.outputs);
                        let mut shown: Vec<OutputStatus> = Vec::new();
                        let mut m: usize = 0;
                        while m < group.outputs.len()
                            invariant
                                m <= group.outputs@.len(),
                                group.queue.wf(),
                                shown@.len() == m,
                                forall|k: int|
                                    0 <= k < m ==> (#[trigger] shown@[k])@ == record(
                                        group.outputs@[k]@ + " ("@ + group.name@ + ")"@,
                                        group.queue@,
                                        Some(group.timer),
                                        now,
                                        target,
                                        self.paused,
                                    ),
                            decreases group.outputs@.len() - m,
                        {
                            let head = join3(group.outputs[m].as_str(), " (", group.name.as_str());
                            let label = join(head.as_str(), ")");
                            shown.push(
                                status_record(
                                    label,
                                    &group.queue,
                                    Some(group.timer),
                                    now,
                                    target,
                                    self.paused,
                                ),
                            );
                            m += 1;
                        }
                        let ghost s = shown@;
                        assert(status_views(s) =~= group_records(
                            group@,
                            config@,
                            now,
                            self.paused,
                        ));
                        records.append(&mut shown);
                        assert(status_views(records@) =~= status_views(made) + status_views(s));
                        g += 1;
                    }
                    let ghost head = status_views(records@);
                    let mut i: usize = 0;
                    while i < self.outputs.len()
                        invariant
                            i <= self.outputs@.len(),
                            self.wf(),
                            status_views(records@) == head + ungrouped_records(
                                self@.entries,
                                self@.groups,
                                config@,
                                now,
                                self.paused,
                                i as int,
                            ),
                        decreases self.outputs@.len() - i,
                    {
                        let ghost made = records@;
                        let entry = &self.outputs[i];
                        assert(self@.entries[i as int] == entry@);
                        if !self.is_in_group(entry.name.as_str()) {
                            let label = join(entry.name.as_str(), " (independent)");
                            let target = config.get_output_config(entry.name.as_str()).duration;
                            records.push(
                                status_record(
                                    label,
                                    &entry.queue,
                                    Some(entry.timer),
                                    now,
                                    target,
                                    self.paused,
                                ),
                            );
                            assert(status_views(records@) =~= status_views(made).push(
                                entry_record(
                                    entry@,
                                    entry@.name + " (independent)"@,
                                    config@,
                                    now,
                                    self.paused,
                                ),
                            ));
                        }
                        i += 1;
                    }
                } else {
                    let mut i: usize = 0;
                    while i < self.outputs.len()
                        invariant
                            i <= self.outputs@.len(),
                            self.wf(),
                            records@.len() == i,
                            forall|k: int|
                                0 <= k < i ==> (#[trigger] records@[k])@ == entry_record(
                                    self@.entries[k],
                                    self@.entries[k].name,
                                    config@,
                                    now,
                                    self.paused,
                                ),
                        decreases self.outputs@.len() - i,
                    {
                        let entry = &self.outputs[i];
                        assert(self@.entries[i as int] == entry@);
                        let target = config.get_output_config(entry.name.as_str()).duration;
                        records.push(
                            status_record(
                                entry.name.clone(),
                                &entry.queue,
                                Some(entry.timer),
                                now,
                                target,
                                self.paused,
                            ),
                        );
                        i += 1;
                    }
                    assert(status_views(records@) =~= self@.status_records(config@, *known, now));
                }
            },
        }
        records
    }
}

/// What the dispatcher is handed from outside with a request: the
/// configuration as it was just loaded, what the wallpaper service answered,
/// the images found on disk, and the reading of the clock.
pub struct DispatchContext {
    /// The configuration, or why it could not be loaded.
    pub config: Result<Config, SwwwsError>,
    /// The configuration as loaded anew for a reload.
    pub reloaded: Result<Config, SwwwsError>,
    /// Whether the wallpaper service can be reached.
    pub daemon_check: Result<(), SwwwsError>,
    /// The outputs that the wallpaper service knows.
    pub outputs: Result<Vec<String>, SwwwsError>,
    /// The images found under the paths of the reloaded configuration.
    pub discoveries: Vec<Discovery>,
    pub now: Span,
}

impl DispatchContext {
    /// Why a reload is refused before anything is rebuilt, if so: the
    /// configuration cannot be loaded, it asks for grouped behavior without
    /// any group, the wallpaper service cannot be reached, or no output is
    /// known.
    pub open spec fn reload_refusal(self) -> Option<Seq<char>> {
        match self.reloaded {
            Err(e) => Some("Failed to reload configuration: "@ + e.friendly_text()),
            Ok(config) => {
                if config@.effective_behavior() matches BehaviorView::Grouped(groups)
                    && groups.len() == 0 {
                    Some("Invalid config: grouped behavior with empty groups"@)
                } else {
                    match self.daemon_check {
                        Err(e) => Some(
                            "Cannot reload: swww daemon not accessible: "@ + e.friendly_text(),
                        ),
                        Ok(_) => match self.outputs {
                            Err(e) => Some(
                                "Cannot reload: failed to get swww outputs: "@
                                    + e.friendly_text(),
                            ),
                            Ok(v) => if v@.len() == 0 {
                                Some("Cannot reload: no swww outputs available"@)
                            } else {
                                None
                            },
                        },
                    }
                }
            },
        }
    }
}

impl LiveView {
    /// Whether `after`, `response` and `changes` are what a reload makes of
    /// this state.
    ///
    /// A reload that is refused answers with an error and changes nothing.
    /// Where the reloaded configuration asks for the kind of behavior that
    /// the state shows, the reload is acknowledged and nothing changes. Else
    /// the state is built anew, keeping the pause flag and the snapshot; if
    /// that fails, the answer is an error and the state stays as it was.
    pub open spec fn reloaded(
        self,
        context: DispatchContext,
        after: LiveView,
        response: ResponseView,
        changes: Seq<ChangeView>,
    ) -> bool {
        match context.reload_refusal() {
            Some(m) => after == self && changes.len() == 0 && response == (ResponseView::Error {
                message: m,
            }),
            None => {
                let config = context.reloaded->Ok_0@;
                let outputs = texts(context.outputs->Ok_0@);
                if self.behavior().same_kind(config.effective_behavior()) {
                    after == self && changes.len() == 0 && response == (ResponseView::Success {
                        message: "Configuration reloaded successfully"@,
                    })
                } else {
                    match build_failure(self.snapshot, config, outputs, context.discoveries@) {
                        Some(m) => after == self && changes.len() == 0 && response == (
                        ResponseView::Error {
                            message: "Failed to reinitialize daemon state: "@ + m,
                        }),
                        None => {
                            &&& !after.is_idle()
                            &&& after.built_on(
                                idle_view(self.snapshot, self.paused),
                                config,
                                outputs,
                                context.discoveries@,
                                context.now,
                                changes,
                            )
                            &&& response == (ResponseView::Success {
                                message: "Configuration reloaded and daemon state reinitialized for new monitor behavior"@,
                            })
                        },
                    }
                }
            },
        }
    }

    /// Whether `after`, `response` and `changes` are what the request makes
    /// of this state: the state after it, the answer, and the images to show.
    ///
    /// Where the configuration could not be loaded, every request is
    /// answered with an error and changes nothing. A request that names an
    /// output acts on the queue of that output alone, whatever it shares.
    /// Pausing and resuming change the pause flag and nothing else. A status
    /// request changes nothing.
    pub open spec fn dispatched(
        self,
        command: CommandView,
        context: DispatchContext,
        after: LiveView,
        response: ResponseView,
        changes: Seq<ChangeView>,
    ) -> bool {
        match context.config {
            Err(e) => after == self && changes.len() == 0 && response == (ResponseView::Error {
                message: "Failed to load config: "@ + e.friendly_text(),
            }),
            Ok(config) => match command {
                CommandView::Next { output: Some(name) } => {
                    &&& self.next_for_output(name, context.now, after, changes)
                    &&& response == (ResponseView::Success { message: "Next wallpaper set"@ })
                },
                CommandView::Next { output: None } => {
                    &&& self.next_everywhere(context.outputs, context.now, after, changes)
                    &&& response == (ResponseView::Success { message: "Next wallpaper set"@ })
                },
                CommandView::Previous { output: Some(name) } => {
                    &&& after == self.previous_for_output(name, context.now)
                    &&& changes == self.previous_change(name, context.now)
                    &&& response == (ResponseView::Success {
                        message: "Previous wallpaper set"@,
                    })
                },
                CommandView::Previous { output: None } => {
                    &&& after == self.previous_everywhere(context.now)
                    &&& changes == self.previous_changes(context.outputs, context.now)
                    &&& response == (ResponseView::Success {
                        message: "Previous wallpaper set"@,
                    })
                },
                CommandView::Pause => {
                    &&& after == (LiveView { paused: true, ..self })
                    &&& changes.len() == 0
                    &&& response == (ResponseView::Success { message: "Slideshow paused"@ })
                },
                CommandView::Resume => {
                    &&& after == (LiveView { paused: false, ..self })
                    &&& changes.len() == 0
                    &&& response == (ResponseView::Success { message: "Slideshow resumed"@ })
                },
                CommandView::TogglePause => {
                    &&& after == (LiveView { paused: !self.paused, ..self })
                    &&& changes.len() == 0
                    &&& response == (ResponseView::Success {
                        message: "Slideshow "@ + if self.paused {
                            "resumed"@
                        } else {
                            "paused"@
                        },
                    })
                },
                CommandView::Reload => self.reloaded(context, after, response, changes),
                CommandView::Status => {
                    &&& after == self
                    &&& changes.len() == 0
                    &&& response == (ResponseView::Status {
                        outputs: self.status_records(config@, context.outputs, context.now),
                        paused: self.paused,
                    })
                },
            },
        }
    }
}

fn success(message: &str) -> (r: IpcResponse)
    ensures
        r@ == (ResponseView::Success { message: message@ }),
{
    IpcResponse::Success { message: owned(message) }
}

fn failure(head: &str, detail: &str) -> (r: IpcResponse)
    ensures
        r@ == (ResponseView::Error { message: head@ + detail@ }),
{
    IpcResponse::Error { message: join(head, detail) }
}

impl LiveState {
    /// Reloads the configuration: refuses where the new configuration or
    /// the surroundings do not allow it, acknowledges where the kind of
    /// behavior stays, and else builds the state anew.
    pub fn reload(&mut self, context: &DispatchContext) -> (r: (
        IpcResponse,
        Vec<WallpaperChange>,
    ))
        requires
            old(self).wf(),
        ensures
            final(self).wf(),
            old(self)@.reloaded(*context, final(self)@, r.0@, change_views(r.1@)),
    {
        let none: Vec<WallpaperChange> = Vec::new();
        let config = match &context.reloaded {
            Ok(c) => c,
            Err(e) => {
                return (
                    failure(
                        "Failed to reload configuration: ",
                        e.user_friendly_message().as_str(),
                    ),
                    none,
                );
            },
        };
        let wanted = config.get_effective_monitor_behavior();
        match &wanted {
            MonitorBehavior::Grouped(groups) => {
                if groups.len() == 0 {
                    return (
                        IpcResponse::Error {
                            message: owned("Invalid config: grouped behavior with empty groups"),
                        },
                        none,
                    );
                }
            },
            _ => {},
        }
        match &context.daemon_check {
            Ok(_) => {},
            Err(e) => {
                return (
                    failure(
                        "Cannot reload: swww daemon not accessible: ",
                        e.user_friendly_message().as_str(),
                    ),
                    none,
                );
            },
        }
        let outputs = match &context.outputs {
            Ok(v) => v,
            Err(e) => {
                return (
                    failure(
                        "Cannot reload: failed to get swww outputs: ",
                        e.user_friendly_message().as_str(),
                    ),
                    none,
                );
            },
        };
        if outputs.len() == 0 {
            return (
                IpcResponse::Error { message: owned("Cannot reload: no swww outputs available") },
                none,
            );
        }
        let shown = self.current_behavior();
        if same_kind(&shown, &wanted) {
            return (success("Configuration reloaded successfully"), none);
        }
        match self.reinitialize_daemon_state(config, outputs, &context.discoveries, context.now) {
            Ok(changes) => (
                success(
                    "Configuration reloaded and daemon state reinitialized for new monitor behavior",
                ),
                changes,
            ),
            Err(m) => (failure("Failed to reinitialize daemon state: ", m.as_str()), none),
        }
    }
}

/// Whether the two behaviors are of the same kind, whatever their groups.
pub fn same_kind(a: &MonitorBehavior, b: &MonitorBehavior) -> (r: bool)
    ensures
        r == a@.same_kind(b@),
{
    match (a, b) {
        (MonitorBehavior::Independent, MonitorBehavior::Independent) => true,
        (MonitorBehavior::Synchronized, MonitorBehavior::Synchronized) => true,
        (MonitorBehavior::Grouped(_), MonitorBehavior::Grouped(_)) => true,
        _ => false,
    }
}

/// Carries out one control request on the live state, and returns the
/// answer with the images that are to be shown for it.
pub fn handle_ipc_command(command: IpcCommand, state: &mut LiveState, context: &DispatchContext)
    -> (r: (IpcResponse, Vec<WallpaperChange>))
    requires
        old(state).wf(),
    ensures
        final(state).wf(),
        old(state)@.dispatched(command@, *context, final(state)@, r.0@, change_views(r.1@)),
{
    let none: Vec<WallpaperChange> = Vec::new();
    let config = match &context.config {
        Ok(c) => c,
        Err(e) => {
            return (
                failure("Failed to load config: ", e.user_friendly_message().as_str()),
                none,
            );
        },
    };
    match command {
        IpcCommand::Next { output } => {
            let changes = match output {
                Some(name) => state.handle_next_for_output(name.as_str(), context.now),
                None => state.next_everywhere(&context.outputs, context.now),
            };
            (success("Next wallpaper set"), changes)
        },
        IpcCommand::Previous { output } => {
            let changes = match output {
                Some(name) => state.handle_previous_for_output(name.as_str(), context.now),
                None => state.previous_everywhere(&context.outputs, context.now),
            };
            (success("Previous wallpaper set"), changes)
        },
        IpcCommand::Pause => {
            state.paused = true;
            (success("Slideshow paused"), none)
        },
        IpcCommand::Resume => {
            state.paused = false;
            (success("Slideshow resumed"), none)
        },
        IpcCommand::TogglePause => {
            state.paused = !state.paused;
            let status = if state.paused {
                "paused"
            } else {
                "resumed"
            };
            (IpcResponse::Success { message: join("Slideshow ", status) }, none)
        },
        IpcCommand::Reload => state.reload(context),
        IpcCommand::Status => {
            let records = state.status(config, &context.outputs, context.now);
            (IpcResponse::Status { outputs: records, paused: state.paused }, none)
        },
    }
}

/// A request for the next image without an output, on a state with a
/// shared queue, shows one and the same new image on every known output and
/// starts the shared timer anew.
pub proof fn lemma_synchronized_next(
    before: LiveView,
    context: DispatchContext,
    after: LiveView,
    response: ResponseView,
    changes: Seq<ChangeView>,
)
    requires
        before.shared_queue is Some,
        context.config is Ok,
        context.outputs matches Ok(v) && v@.len() > 0,
        before.dispatched(CommandView::Next { output: None }, context, after, response, changes),
    ensures
        after.shared_timer == Some(context.now),
        after.shared_queue is Some,
        before.shared_queue.unwrap().advances_to(after.shared_queue.unwrap()),
        changes.len() == context.outputs->Ok_0@.len(),
        forall|i: int|
            0 <= i < changes.len() ==> (#[trigger] changes[i]).output
                == context.outputs->Ok_0@[i]@ && changes[i].image
                == after.shared_queue.unwrap().current.unwrap(),
{
}

/// A reload to a configuration that asks for grouped behavior without any
/// group is answered with an error and leaves the state as it was.
pub proof fn lemma_reload_without_groups(
    before: LiveView,
    context: DispatchContext,
    after: LiveView,
    response: ResponseView,
    changes: Seq<ChangeView>,
)
    requires
        context.config is Ok,
        context.reloaded matches Ok(c) && c@.effective_behavior() matches BehaviorView::Grouped(
            groups,
        ) && groups.len() == 0,
        before.dispatched(CommandView::Reload, context, after, response, changes),
    ensures
        response is Error,
        after == before,
        changes.len() == 0,
{
}

/// A reload that is answered with an error leaves the state as it was.
pub proof fn lemma_failed_reload_keeps_state(
    before: LiveView,
    context: DispatchContext,
    after: LiveView,
    response: ResponseView,
    changes: Seq<ChangeView>,
)
    requires
        before.dispatched(CommandView::Reload, context, after, response, changes),
        response is Error,
    ensures
        after == before,
        changes.len() == 0,
{
}

/// Whether the record shows the position, the size and the image of the
/// queue `q`.
pub open spec fn taken_from(r: StatusView, q: QueueView) -> bool {
    &&& r.queue_position == q.history.len() as usize
    &&& r.queue_size == (q.history.len() + q.buffer.len() + 1) as usize
    &&& r.current_image == match q.current {
        Some(c) => Some(shown_name(c)),
        None => None,
    }
}

impl LiveView {
    /// Whether `q` is one of the queues of this state: the shared queue, the
    /// queue of a group, or the queue of an output.
    pub open spec fn holds_queue(self, q: QueueView) -> bool {
        ||| self.shared_queue == Some(q)
        ||| exists|g: int| 0 <= g < self.groups.len() && (#[trigger] self.groups[g]).queue == q
        ||| exists|i: int| 0 <= i < self.entries.len() && (#[trigger] self.entries[i]).queue == q
    }
}

impl LiveView {
    /// Whether the record is taken from one of the queues of this state.
    pub open spec fn shows_a_queue(self, r: StatusView) -> bool {
        exists|q: QueueView| self.holds_queue(q) && taken_from(r, q)
    }
}

/// Every record of the outputs of groups is taken from the queue of a
/// group.
proof fn lemma_groups_records(
    groups: Seq<GroupView>,
    config: ConfigView,
    now: Span,
    paused: bool,
    n: int,
    i: int,
) -> (g: int)
    requires
        0 <= n <= groups.len(),
        0 <= i < groups_records(groups, config, now, paused, n).len(),
    ensures
        0 <= g < n,
        taken_from(groups_records(groups, config, now, paused, n)[i], groups[g].queue),
    decreases n,
{
    let before = groups_records(groups, config, now, paused, n - 1);
    if i < before.len() {
        lemma_groups_records(groups, config, now, paused, n - 1, i)
    } else {
        n - 1
    }
}

/// Every record of the outputs that are in no group is taken from the queue
/// of an output.
proof fn lemma_ungrouped_records(
    entries: Seq<EntryView>,
    groups: Seq<GroupView>,
    config: ConfigView,
    now: Span,
    paused: bool,
    n: int,
    i: int,
) -> (e: int)
    requires
        0 <= n <= entries.len(),
        0 <= i < ungrouped_records(entries, groups, config, now, paused, n).len(),
    ensures
        0 <= e < n,
        taken_from(
            ungrouped_records(entries, groups, config, now, paused, n)[i],
            entries[e].queue,
        ),
    decreases n,
{
    let before = ungrouped_records(entries, groups, config, now, paused, n - 1);
    if i < before.len() {
        lemma_ungrouped_records(entries, groups, config, now, paused, n - 1, i)
    } else {
        n - 1
    }
}

/// A status request changes nothing, and every record of its answer is
/// taken from one queue of the one state that the request saw: the
/// position, the size and the image that a record shows belong together.
pub proof fn lemma_status_reads_one_state(
    before: LiveView,
    context: DispatchContext,
    after: LiveView,
    response: ResponseView,
    changes: Seq<ChangeView>,
)
    requires
        context.config is Ok,
        before.dispatched(CommandView::Status, context, after, response, changes),
    ensures
        after == before,
        response matches ResponseView::Status { outputs, paused } && paused == before.paused
            && forall|i: int| 0 <= i < outputs.len() ==> before.shows_a_queue(#[trigger] outputs[i]),
{
    let config = context.config->Ok_0@;
    let records = before.status_records(config, context.outputs, context.now);
    assert(response == (ResponseView::Status { outputs: records, paused: before.paused }));
    assert forall|i: int| 0 <= i < records.len() implies before.shows_a_queue(
        #[trigger] records[i],
    ) by {
        match before.shared_queue {
            Some(q) => {
                assert(before.holds_queue(q) && taken_from(records[i], q));
            },
            None => {
                if before.groups.len() > 0 {
                    let first = groups_records(
                        before.groups,
                        config,
                        context.now,
                        before.paused,
                        before.groups.len() as int,
                    );
                    if i < first.len() {
                        let g = lemma_groups_records(
                            before.groups,
                            config,
                            context.now,
                            before.paused,
                            before.groups.len() as int,
                            i,
                        );
                        let q = before.groups[g].queue;
                        assert(before.holds_queue(q) && taken_from(records[i], q));
                    } else {
                        let e = lemma_ungrouped_records(
                            before.entries,
                            before.groups,
                            config,
                            context.now,
                            before.paused,
                            before.entries.len() as int,
                            i - first.len(),
                        );
                        let q = before.entries[e].queue;
                        assert(before.holds_queue(q) && taken_from(records[i], q));
                    }
                } else {
                    let q = before.entries[i].queue;
                    assert(before.holds_queue(q) && taken_from(records[i], q));
                }
            },
        }
    }
}

/// Pausing, resuming and toggling change the pause flag and leave every
/// queue and timer as it was.
pub proof fn lemma_pause_keeps_queues(
    before: LiveView,
    command: CommandView,
    context: DispatchContext,
    after: LiveView,
    response: ResponseView,
    changes: Seq<ChangeView>,
)
    requires
        command is Pause || command is Resume || command is TogglePause,
        before.dispatched(command, context, after, response, changes),
    ensures
        after.entries == before.entries,
        after.groups == before.groups,
        after.shared_queue == before.shared_queue,
        after.shared_timer == before.shared_timer,
        after.snapshot == before.snapshot,
        changes.len() == 0,
{
}

} // verus!
