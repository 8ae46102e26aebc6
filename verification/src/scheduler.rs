//! The scheduler: what a tick of the daemon's clock does to the live state,
//! and when the wallpaper service is checked and the snapshot is stored.

use crate::config::{Config, ConfigView};
use crate::dispatch::{entry_stepped, group_stepped, target_duration, target_of};
use crate::live::{
    change_views, entry_names, in_some_group, synced, ChangeView, EntryView, GroupView, LiveState,
    LiveView, WallpaperChange,
};
use crate::manager::{changes_for, shown_on};
use crate::state::SnapshotView;
use crate::text::texts;
use crate::time::Span;
use vstd::prelude::*;

verus! {

/// The ticks between two checks of the wallpaper service, and between two
/// stores of the snapshot.
pub const TICKS_PER_ROUND: u32 = 30;

/// How often showing an image is tried.
pub const MAX_ATTEMPTS: u32 = 3;

/// Whether a rotation that was last made at `timer` and is made every
/// `target` is due at `now`.
pub open spec fn is_due(timer: Span, now: Span, target: Span) -> bool {
    now.since(timer).nanos >= target.nanos
}

/// Whether a rotation that was last made at `timer` and is made every
/// `target` is due at `now`.
pub fn due(timer: Span, now: Span, target: Span) -> (r: bool)
    ensures
        r == is_due(timer, now, target),
{
    now.saturating_sub(timer).nanos >= target.nanos
}

/// Whether the entry is to rotate at `now`: it is in no group, and the time
/// configured for its output has passed since its last rotation.
pub open spec fn entry_due(e: EntryView, groups: Seq<GroupView>, config: ConfigView, now: Span)
    -> bool {
    !in_some_group(groups, e.name) && is_due(
        e.timer,
        now,
        config.output_config(e.name).settings.duration,
    )
}

/// Whether the group is to rotate at `now`: the time configured for its
/// first output has passed since its last rotation.
pub open spec fn group_due(g: GroupView, config: ConfigView, now: Span) -> bool {
    is_due(g.timer, now, target_of(config, g.outputs))
}

/// The changes that show the current image of each of the first `n` groups
/// that rotated. `was` are the groups before the tick, `groups` after it.
pub open spec fn due_group_changes(
    was: Seq<GroupView>,
    groups: Seq<GroupView>,
    config: ConfigView,
    now: Span,
    n: int,
) -> Seq<ChangeView>
    decreases n,
{
    if n <= 0 {
        Seq::empty()
    } else {
        let before = due_group_changes(was, groups, config, now, n - 1);
        if group_due(was[n - 1], config, now) {
            before + shown_on(groups[n - 1].outputs, groups[n - 1].queue.current.unwrap())
        } else {
            before
        }
    }
}

/// The changes that show the current image of each of the first `n` entries
/// that rotated. `was` are the entries before the tick, `entries` after it.
pub open spec fn due_entry_changes(
    was: Seq<EntryView>,
    entries: Seq<EntryView>,
    groups: Seq<GroupView>,
    config: ConfigView,
    now: Span,
    n: int,
) -> Seq<ChangeView>
    decreases n,
{
    if n <= 0 {
        Seq::empty()
    } else {
        let before = due_entry_changes(was, entries, groups, config, now, n - 1);
        if entry_due(was[n - 1], groups, config, now) {
            before.push(
                ChangeView {
                    output: entries[n - 1].name,
                    image: entries[n - 1].queue.current.unwrap(),
                },
            )
        } else {
            before
        }
    }
}

proof fn lemma_due_group_changes_prefix(
    was: Seq<GroupView>,
    a: Seq<GroupView>,
    b: Seq<GroupView>,
    config: ConfigView,
    now: Span,
    n: int,
)
    requires
        0 <= n <= a.len(),
        n <= b.len(),
        forall|i: int| 0 <= i < n ==> a[i] == b[i],
    ensures
        due_group_changes(was, a, config, now, n) == due_group_changes(was, b, config, now, n),
    decreases n,
{
    if n > 0 {
        lemma_due_group_changes_prefix(was, a, b, config, now, n - 1);
    }
}

proof fn lemma_due_entry_changes_prefix(
    was: Seq<EntryView>,
    a: Seq<EntryView>,
    b: Seq<EntryView>,
    groups: Seq<GroupView>,
    config: ConfigView,
    now: Span,
    n: int,
)
    requires
        0 <= n <= a.len(),
        n <= b.len(),
        forall|i: int| 0 <= i < n ==> a[i] == b[i],
    ensures
        due_entry_changes(was, a, groups, config, now, n) == due_entry_changes(
            was,
            b,
            groups,
            config,
            now,
            n,
        ),
    decreases n,
{
    if n > 0 {
        lemma_due_entry_changes_prefix(was, a, b, groups, config, now, n - 1);
    }
}

impl LiveView {
    /// Whether `after` is this state with every rotation made that is due at
    /// `now`, `changes` showing the new images.
    ///
    /// The shared queue rotates when the time configured for the first known
    /// output has passed, and its new image goes to every known output. A
    /// group rotates when the time configured for its first output has
    /// passed, and its new image goes to its outputs. An output with a queue
    /// of its own that is in no group rotates when its own time has passed.
    /// What rotates has its timer started anew; the rest stays as it is.
    pub open spec fn rotated(
        self,
        config: ConfigView,
        outputs: Seq<Seq<char>>,
        now: Span,
        after: LiveView,
        changes: Seq<ChangeView>,
    ) -> bool {
        &&& after.paused == self.paused
        &&& after.snapshot == self.snapshot
        &&& after.groups.len() == self.groups.len()
        &&& after.entries.len() == self.entries.len()
        &&& forall|g: int|
            0 <= g < self.groups.len() ==> if group_due(self.groups[g], config, now) {
                group_stepped(self.groups[g], #[trigger] after.groups[g], now)
            } else {
                after.groups[g] == self.groups[g]
            }
        &&& forall|i: int|
            0 <= i < self.entries.len() ==> if entry_due(
                self.entries[i],
                self.groups,
                config,
                now,
            ) {
                entry_stepped(self.entries[i], #[trigger] after.entries[i], now)
            } else {
                after.entries[i] == self.entries[i]
            }
        &&& self.shared_rotated(config, outputs, now, after)
        &&& changes == self.shared_changes(config, outputs, now, after) + due_group_changes(
            self.groups,
            after.groups,
            config,
            now,
            self.groups.len() as int,
        ) + due_entry_changes(
            self.entries,
            after.entries,
            self.groups,
            config,
            now,
            self.entries.len() as int,
        )
    }

    /// Whether the shared queue is to rotate at `now`: there is one, with a
    /// timer, and the time configured for the first known output has passed
    /// since its last rotation.
    pub open spec fn shared_due(self, config: ConfigView, outputs: Seq<Seq<char>>, now: Span)
        -> bool {
        self.shared_queue is Some && self.shared_timer is Some && is_due(
            self.shared_timer.unwrap(),
            now,
            target_of(config, outputs),
        )
    }

    /// Whether the shared queue of `after` is that of this state, rotated if
    /// it is due at `now`.
    pub open spec fn shared_rotated(
        self,
        config: ConfigView,
        outputs: Seq<Seq<char>>,
        now: Span,
        after: LiveView,
    ) -> bool {
        if self.shared_due(config, outputs, now) {
            &&& after.shared_timer == Some(now)
            &&& after.shared_queue matches Some(stepped)
            &&& self.shared_queue.unwrap().advances_to(stepped)
        } else {
            &&& after.shared_queue == self.shared_queue
            &&& after.shared_timer == self.shared_timer
        }
    }

    /// The changes that show the new image of the shared queue on every
    /// known output, if the queue rotated.
    pub open spec fn shared_changes(
        self,
        config: ConfigView,
        outputs: Seq<Seq<char>>,
        now: Span,
        after: LiveView,
    ) -> Seq<ChangeView> {
        if self.shared_due(config, outputs, now) {
            shown_on(outputs, after.shared_queue.unwrap().current.unwrap())
        } else {
            Seq::empty()
        }
    }
}

impl LiveState {
    /// Rotates the shared queue if it is due.
    fn rotate_shared(&mut self, config: &Config, outputs: &Vec<String>, now: Span) -> (r: Vec<
        WallpaperChange,
    >)
        requires
            old(self).wf(),
        ensures
            final(self).wf(),
            final(self)@.entries == old(self)@.entries,
            final(self)@.groups == old(self)@.groups,
            final(self)@.paused == old(self)@.paused,
            final(self)@.snapshot == old(self)@.snapshot,
            old(self)@.shared_rotated(config@, texts(outputs@), now, final(self)@),
            change_views(r@) == old(self)@.shared_changes(
                config@,
                texts(outputs@),
                now,
                final(self)@,
            ),
    {
        let ghost before = self@;
        let none: Vec<WallpaperChange> = Vec::new();
        assert(change_views(none@) =~= Seq::empty());
        let timer = match self.shared_timer {
            Some(t) => t,
            None => {
                return none;
            },
        };
        if self.shared_queue.is_none() || !due(timer, now, target_duration(config, outputs)) {
            return none;
        }
        let image = match &mut self.shared_queue {
            Some(queue) => match queue.next() {
                Some(c) => c.clone(),
                None => String::new(),
            },
            None => String::new(),
        };
        self.shared_timer = Some(now);
        proof {
            assert(self@.entries =~= before.entries);
            assert(self@.groups =~= before.groups);
        }
        changes_for(outputs, image.as_str())
    }

    /// Rotates every group that is due.
    fn rotate_groups(&mut self, config: &Config, now: Span) -> (r: Vec<WallpaperChange>)
        requires
            old(self).wf(),
        ensures
            final(self).wf(),
            final(self)@.entries == old(self)@.entries,
            final(self)@.shared_queue == old(self)@.shared_queue,
            final(self)@.shared_timer == old(self)@.shared_timer,
            final(self)@.paused == old(self)@.paused,
            final(self)@.snapshot == old(self)@.snapshot,
            final(self)@.groups.len() == old(self)@.groups.len(),
            forall|g: int|
                0 <= g < old(self)@.groups.len() ==> if group_due(
                    old(self)@.groups[g],
                    config@,
                    now,
                ) {
                    group_stepped(old(self)@.groups[g], #[trigger] final(self)@.groups[g], now)
                } else {
                    final(self)@.groups[g] == old(self)@.groups[g]
                },
            change_views(r@) == due_group_changes(
                old(self)@.groups,
                final(self)@.groups,
                config@,
                now,
                old(self)@.groups.len() as int,
            ),
    {
        let ghost before = self@;
        let mut changes: Vec<WallpaperChange> = Vec::new();
        let mut g: usize = 0;
        while g < self.groups.len()
            invariant
                g <= self.groups@.len(),
                self.wf(),
                self@.entries == before.entries,
                self@.shared_queue == before.shared_queue,
                self@.shared_timer == before.shared_timer,
                self@.paused == before.paused,
                self@.snapshot == before.snapshot,
                self@.groups.len() == before.groups.len(),
                forall|k: int|
                    0 <= k < g ==> if group_due(before.groups[k], config@, now) {
                        group_stepped(before.groups[k], #[trigger] self@.groups[k], now)
                    } else {
                        self@.groups[k] == before.groups[k]
                    },
                forall|k: int| g <= k < self@.groups.len() ==> self@.groups[k] == before.groups[k],
                change_views(changes@) == due_group_changes(
                    before.groups,
                    self@.groups,
                    config@,
                    now,
                    g as int,
                ),
            decreases self.groups@.len() - g,
        {
            let ghost mid = self@;
            let ghost mg = self.groups@;
            let ghost made = changes@;
            assert(mid.groups[g as int] == mg[g as int]@);
            let target = target_duration(config, &self.groups[g].outputs);
            if due(self.groups[g].timer, now, target) {
                let image = match self.groups[g].queue.next() {
                    Some(c) => c.clone(),
                    None => String::new(),
                };
                self.groups[g].timer = now;
                let mut shown = changes_for(&self.groups[g].outputs, image.as_str());
                let ghost s = shown@;
                changes.append(&mut shown);
                assert(change_views(changes@) =~= change_views(made) + change_views(s));
            }
            proof {
                assert(self@.entries =~= before.entries);
                assert forall|k: int| 0 <= k < self@.groups.len() && k != g implies self@.groups[k]
                    == mid.groups[k] by {
                    assert(self.groups@[k] == mg[k]);
                }
                assert forall|k: int| 0 <= k < g + 1 implies if group_due(
                    before.groups[k],
                    config@,
                    now,
                ) {
                    group_stepped(before.groups[k], #[trigger] self@.groups[k], now)
                } else {
                    self@.groups[k] == before.groups[k]
                } by {
                    if k < g {
                        assert(self@.groups[k] == mid.groups[k]);
                    } else {
                        assert(self@.groups[g as int] == self.groups@[g as int]@);
                    }
                }
                lemma_due_group_changes_prefix(
                    before.groups,
                    self@.groups,
                    mid.groups,
                    config@,
                    now,
                    g as int,
                );
            }
            g += 1;
        }
        changes
    }

    /// Rotates every output with a queue of its own that is due and in no
    /// group.
    fn rotate_entries(&mut self, config: &Config, now: Span) -> (r: Vec<WallpaperChange>)
        requires
            old(self).wf(),
        ensures
            final(self).wf(),
            final(self)@.groups == old(self)@.groups,
            final(self)@.shared_queue == old(self)@.shared_queue,
            final(self)@.shared_timer == old(self)@.shared_timer,
            final(self)@.paused == old(self)@.paused,
            final(self)@.snapshot == old(self)@.snapshot,
            final(self)@.entries.len() == old(self)@.entries.len(),
            forall|i: int|
                0 <= i < old(self)@.entries.len() ==> if entry_due(
                    old(self)@.entries[i],
                    old(self)@.groups,
                    config@,
                    now,
                ) {
                    entry_stepped(old(self)@.entries[i], #[trigger] final(self)@.entries[i], now)
                } else {
                    final(self)@.entries[i] == old(self)@.entries[i]
                },
            change_views(r@) == due_entry_changes(
                old(self)@.entries,
                final(self)@.entries,
                old(self)@.groups,
                config@,
                now,
                old(self)@.entries.len() as int,
            ),
    {
        let ghost before = self@;
        let mut changes: Vec<WallpaperChange> = Vec::new();
        let mut i: usize = 0;
        while i < self.outputs.len()
            invariant
                i <= self.outputs@.len(),
                self.wf(),
                self@.groups == before.groups,
                self@.shared_queue == before.shared_queue,
                self@.shared_timer == before.shared_timer,
                self@.paused == before.paused,
                self@.snapshot == before.snapshot,
                self@.entries.len() == before.entries.len(),
                forall|k: int|
                    0 <= k < i ==> if entry_due(before.entries[k], before.groups, config@, now) {
                        entry_stepped(before.entries[k], #[trigger] self@.entries[k], now)
                    } else {
                        self@.entries[k] == before.entries[k]
                    },
                forall|k: int|
                    i <= k < self@.entries.len() ==> self@.entries[k] == before.entries[k],
                change_views(changes@) == due_entry_changes(
                    before.entries,
                    self@.entries,
                    before.groups,
                    config@,
                    now,
                    i as int,
                ),
            decreases self.outputs@.len() - i,
        {
            let ghost mid = self@;
            let ghost me = self.outputs@;
            let ghost made = changes@;
            let name = self.outputs[i].name.clone();
            assert(mid.entries[i as int] == me[i as int]@);
            if !self.is_in_group(name.as_str()) {
                let target = config.get_output_config(name.as_str()).duration;
                if due(self.outputs[i].timer, now, target) {
                    let image = match self.outputs[i].queue.next() {
                        Some(c) => c.clone(),
                        None => String::new(),
                    };
                    self.outputs[i].timer = now;
                    changes.push(WallpaperChange { output: name, image });
                    assert(change_views(changes@) =~= change_views(made).push(
                        ChangeView {
                            output: self.outputs@[i as int].name@,
                            image: self.outputs@[i as int].queue@.current.unwrap(),
                        },
                    ));
                }
            }
            proof {
                assert(self@.groups =~= before.groups);
                assert forall|k: int|
                    0 <= k < self@.entries.len() && k != i implies self@.entries[k]
                    == mid.entries[k] by {
                    assert(self.outputs@[k] == me[k]);
                }
                assert(entry_names(self@.entries) =~= entry_names(mid.entries));
                assert forall|k: int| 0 <= k < i + 1 implies if entry_due(
                    before.entries[k],
                    before.groups,
                    config@,
                    now,
                ) {
                    entry_stepped(before.entries[k], #[trigger] self@.entries[k], now)
                } else {
                    self@.entries[k] == before.entries[k]
                } by {
                    if k < i {
                        assert(self@.entries[k] == mid.entries[k]);
                    } else {
                        assert(self@.entries[i as int] == self.outputs@[i as int]@);
                    }
                }
                lemma_due_entry_changes_prefix(
                    before.entries,
                    self@.entries,
                    mid.entries,
                    before.groups,
                    config@,
                    now,
                    i as int,
                );
            }
            i += 1;
        }
        changes
    }

    /// Makes every rotation that is due at `now` and returns the changes
    /// that show the new images.
    pub fn rotate_due(&mut self, config: &Config, outputs: &Vec<String>, now: Span) -> (r: Vec<
        WallpaperChange,
    >)
        requires
            old(self).wf(),
        ensures
            final(self).wf(),
            old(self)@.rotated(config@, texts(outputs@), now, final(self)@, change_views(r@)),
    {
        let ghost before = self@;
        let mut changes = self.rotate_shared(config, outputs, now);
        let ghost first = changes@;
        let ghost one = self@;
        let mut grouped = self.rotate_groups(config, now);
        let ghost second = grouped@;
        let ghost two = self@;
        changes.append(&mut grouped);
        let mut single = self.rotate_entries(config, now);
        let ghost third = single@;
        changes.append(&mut single);
        proof {
            assert(change_views(changes@) =~= change_views(first) + change_views(second)
                + change_views(third));
            assert forall|i: int| 0 <= i < before.entries.len() implies entry_due(
                before.entries[i],
                before.groups,
                config@,
                now,
            ) == entry_due(two.entries[i], two.groups, config@, now) by {
                lemma_due_by_outputs(before.groups, two.groups, before.entries[i], config@, now);
            }
            lemma_due_entry_changes_groups(
                before.entries,
                self@.entries,
                before.groups,
                two.groups,
                config@,
                now,
                before.entries.len() as int,
            );
        }
        changes
    }
}

/// Whether an entry is due depends on the groups only by their member
/// lists.
proof fn lemma_due_by_outputs(
    a: Seq<GroupView>,
    b: Seq<GroupView>,
    e: EntryView,
    config: ConfigView,
    now: Span,
)
    requires
        a.len() == b.len(),
        forall|g: int|
            0 <= g < a.len() ==> (#[trigger] b[g]).outputs == a[g].outputs,
    ensures
        entry_due(e, a, config, now) == entry_due(e, b, config, now),
{
    if in_some_group(a, e.name) {
        let g = choose|g: int| 0 <= g < a.len() && (#[trigger] a[g]).outputs.contains(e.name);
        assert(b[g].outputs.contains(e.name));
    }
    if in_some_group(b, e.name) {
        let g = choose|g: int| 0 <= g < b.len() && (#[trigger] b[g]).outputs.contains(e.name);
        assert(a[g].outputs.contains(e.name));
    }
}

proof fn lemma_due_entry_changes_groups(
    was: Seq<EntryView>,
    entries: Seq<EntryView>,
    a: Seq<GroupView>,
    b: Seq<GroupView>,
    config: ConfigView,
    now: Span,
    n: int,
)
    requires
        a.len() == b.len(),
        forall|g: int|
            0 <= g < a.len() ==> (#[trigger] b[g]).outputs == a[g].outputs,
    ensures
        due_entry_changes(was, entries, a, config, now, n) == due_entry_changes(
            was,
            entries,
            b,
            config,
            now,
            n,
        ),
    decreases n,
{
    if n > 0 {
        lemma_due_entry_changes_groups(was, entries, a, b, config, now, n - 1);
        lemma_due_by_outputs(a, b, was[n - 1], config, now);
    }
}

/// The counters of the tick loop: the ticks since the snapshot was last
/// stored, and since the wallpaper service was last checked.
#[derive(Debug, Clone, Copy, PartialEq, Eq, Structural)]
pub struct Scheduler {
    pub save_counter: u32,
    pub swww_check_counter: u32,
}

/// What is to be done outside the library after a tick.
#[derive(Debug)]
pub struct TickOutcome {
    /// Whether the wallpaper service is to be checked now.
    pub check_service: bool,
    /// The images to show.
    pub changes: Vec<WallpaperChange>,
    /// Whether the snapshot, which the tick has brought up to date, is to be
    /// stored now.
    pub save: bool,
}

/// One more tick on a counter, up to the largest number there is.
pub open spec fn counted(counter: u32) -> u32 {
    if counter < u32::MAX {
        (counter + 1) as u32
    } else {
        counter
    }
}

/// The counter after a tick that did what was due.
pub open spec fn settled(counter: u32) -> u32 {
    if counted(counter) >= TICKS_PER_ROUND {
        0
    } else {
        counted(counter)
    }
}

impl Scheduler {
    /// A scheduler that has seen no tick.
    pub fn new() -> (r: Scheduler)
        ensures
            r.save_counter == 0,
            r.swww_check_counter == 0,
    {
        Scheduler { save_counter: 0, swww_check_counter: 0 }
    }

    /// A tick on which the state could not be had: nothing is done, and what
    /// is due stays due for the next tick.
    pub fn skip_tick(&mut self)
        ensures
            final(self).save_counter == counted(old(self).save_counter),
            final(self).swww_check_counter == counted(old(self).swww_check_counter),
    {
        self.count();
    }

    fn count(&mut self)
        ensures
            final(self).save_counter == counted(old(self).save_counter),
            final(self).swww_check_counter == counted(old(self).swww_check_counter),
    {
        if self.save_counter < u32::MAX {
            self.save_counter = self.save_counter + 1;
        }
        if self.swww_check_counter < u32::MAX {
            self.swww_check_counter = self.swww_check_counter + 1;
        }
    }

    /// A tick with the state in hand. Every thirtieth tick the wallpaper
    /// service is to be checked, and the snapshot is brought up to date and
    /// is to be stored. Unless rotation is paused, every rotation that is
    /// due is made. The three do not depend on one another.
    pub fn tick(
        &mut self,
        state: &mut LiveState,
        config: &Config,
        outputs: &Vec<String>,
        now: Span,
    ) -> (r: TickOutcome)
        requires
            old(state).wf(),
        ensures
            final(state).wf(),
            final(self).save_counter == settled(old(self).save_counter),
            final(self).swww_check_counter == settled(old(self).swww_check_counter),
            r.check_service == (counted(old(self).swww_check_counter) >= TICKS_PER_ROUND),
            r.save == (counted(old(self).save_counter) >= TICKS_PER_ROUND),
            if old(state)@.paused {
                &&& change_views(r.changes@).len() == 0
                &&& final(state)@.entries == old(state)@.entries
                &&& final(state)@.groups == old(state)@.groups
                &&& final(state)@.shared_queue == old(state)@.shared_queue
                &&& final(state)@.shared_timer == old(state)@.shared_timer
                &&& final(state)@.paused
            } else {
                old(state)@.rotated(
                    config@,
                    texts(outputs@),
                    now,
                    LiveView { snapshot: old(state)@.snapshot, ..final(state)@ },
                    change_views(r.changes@),
                )
            },
            if r.save {
                final(state)@.snapshot == (SnapshotView {
                    global_paused: final(state)@.paused,
                    last_save: final(state)@.snapshot.last_save,
                    ..synced(
                        old(state)@.snapshot,
                        final(state)@.entries,
                        final(state)@.entries.len() as int,
                        final(state)@.snapshot.last_save,
                    )
                })
            } else {
                final(state)@.snapshot == old(state)@.snapshot
            },
    {
        let ghost before = state@;
        self.count();
        let check_service = self.swww_check_counter >= TICKS_PER_ROUND;
        if check_service {
            self.swww_check_counter = 0;
        }
        let changes = if state.paused {
            Vec::new()
        } else {
            state.rotate_due(config, outputs, now)
        };
        let ghost mid = state@;
        let save = self.save_counter >= TICKS_PER_ROUND;
        if save {
            self.save_counter = 0;
            state.save_state();
        }
        proof {
            assert((LiveView { snapshot: before.snapshot, ..state@ }) == mid);
        }
        TickOutcome { check_service, changes, save }
    }
}

/// What follows a check of the wallpaper service.
#[derive(Debug, Clone, Copy, PartialEq, Eq, Structural)]
pub enum LivenessStep {
    /// The service answered.
    Healthy,
    /// The service did not answer: wait this long and check once more.
    RetryAfter(Span),
    /// The service did not answer twice: go on without it until the next
    /// round.
    GiveUp,
}

/// What follows the check number `attempt` (from zero) of the wallpaper
/// service in one round: after a first failure one more check, five seconds
/// later; after a second failure the daemon goes on without the service.
pub fn after_liveness_check(attempt: u32, reachable: bool) -> (r: LivenessStep)
    ensures
        r == if reachable {
            LivenessStep::Healthy
        } else if attempt == 0 {
            LivenessStep::RetryAfter(Span { nanos: 5_000_000_000 })
        } else {
            LivenessStep::GiveUp
        },
{
    if reachable {
        LivenessStep::Healthy
    } else if attempt == 0 {
        LivenessStep::RetryAfter(Span::from_secs(5))
    } else {
        LivenessStep::GiveUp
    }
}

/// What follows an attempt to show an image.
#[derive(Debug, Clone, Copy, PartialEq, Eq, Structural)]
pub enum ApplyStep {
    /// The image is shown.
    Done,
    /// The attempt failed: wait this long and try again.
    RetryAfter(Span),
    /// The last attempt failed: the image is not shown.
    GiveUp,
}

/// What follows the attempt number `attempt` (from zero) to show an image:
/// a failed attempt is followed by another, half a second later, until
/// three attempts were made.
pub fn after_apply_attempt(attempt: u32, succeeded: bool) -> (r: ApplyStep)
    ensures
        r == if succeeded {
            ApplyStep::Done
        } else if attempt + 1 < MAX_ATTEMPTS {
            ApplyStep::RetryAfter(Span { nanos: 500_000_000 })
        } else {
            ApplyStep::GiveUp
        },
{
    if succeeded {
        ApplyStep::Done
    } else if attempt < MAX_ATTEMPTS - 1 {
        ApplyStep::RetryAfter(Span::from_millis(500))
    } else {
        ApplyStep::GiveUp
    }
}

} // verus!
