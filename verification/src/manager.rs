//! The monitor-behavior manager: it builds the live state from the
//! configuration, the known outputs and the images found on disk, and takes
//! a rotation up again from the persisted snapshot where that still fits.

use crate::config::{group_texts, BehaviorView, Config, ConfigView, MonitorBehavior};
use crate::error::{ErrorReporting, SwwwsError};
use crate::live::{
    change_views, entry_names, in_some_group, ChangeView, EntryView, GroupView, LiveState, LiveView,
    MonitorGroup, OutputEntry, WallpaperChange,
};
use crate::queue::{
    lemma_ordered_same_images, lemma_same_images_contains, ordered, Queue, QueueView, Sorting,
};
use crate::state::{DaemonState, OutputState, OutputStateView, SnapshotView};
use crate::text::{
    ascending, clone_texts, contains_text, debug_text, decimal, decimal_text, descending,
    first_index_of, index_of_text, is_first_index, join, lemma_first_index_of, owned, quoted,
    same_text, same_texts, texts,
};
use crate::time::Span;
use vstd::prelude::*;

verus! {

/// What a walk of one directory found: its images, or why there are none.
pub struct Discovery {
    pub path: String,
    pub images: Result<Vec<String>, SwwwsError>,
}

/// The paths of a table of discoveries.
pub open spec fn discovery_paths(table: Seq<Discovery>) -> Seq<Seq<char>> {
    table.map_values(|d: Discovery| d.path@)
}

/// The images that the table holds for a directory, or what a user is told
/// of the failure to find any. A directory that the table does not hold
/// counts as one without images.
pub open spec fn found_images(table: Seq<Discovery>, path: Seq<char>) -> Result<
    Seq<Seq<char>>,
    Seq<char>,
> {
    match first_index_of(discovery_paths(table), path) {
        Some(i) => match table[i].images {
            Ok(v) => Ok(texts(v@)),
            Err(e) => Err(e.friendly_text()),
        },
        None => Err("No images found in directory: "@ + debug_text(path)),
    }
}

/// A table that was made for the directories that a configuration names
/// holds the directory of every output that is configured with one.
pub proof fn lemma_table_holds_configured_paths(
    config: ConfigView,
    table: Seq<Discovery>,
    name: Seq<char>,
)
    requires
        discovery_paths(table) == config.image_paths(),
        config.output_names.len() == config.output_configs.len(),
        config.output_config(name).path is Some,
    ensures
        first_index_of(discovery_paths(table), config.output_config(name).path->0) is Some,
{
    crate::config::lemma_image_paths_cover(config, name);
    lemma_first_index_of(discovery_paths(table), config.output_config(name).path->0);
}

/// The images that the table holds for a directory, or what a user is told
/// of the failure to find any.
pub fn lookup_images(table: &Vec<Discovery>, path: &str) -> (r: Result<Vec<String>, String>)
    ensures
        match found_images(table@, path@) {
            Ok(images) => r matches Ok(v) && texts(v@) == images,
            Err(message) => r matches Err(m) && m@ == message,
        },
{
    let ghost paths = discovery_paths(table@);
    proof {
        lemma_first_index_of(paths, path@);
    }
    let mut i: usize = 0;
    while i < table.len()
        invariant
            i <= table@.len(),
            paths == discovery_paths(table@),
            forall|j: int| 0 <= j < i ==> paths[j] != path@,
            forall|k: int|
                is_first_index(paths, path@, k) ==> first_index_of(paths, path@) == Some(k),
            first_index_of(paths, path@) is Some <==> paths.contains(path@),
        decreases table@.len() - i,
    {
        if same_text(table[i].path.as_str(), path) {
            assert(is_first_index(paths, path@, i as int));
            return match &table[i].images {
                Ok(v) => Ok(clone_texts(v)),
                Err(e) => Err(e.user_friendly_message()),
            };
        }
        i += 1;
    }
    assert(!paths.contains(path@)) by {
        if paths.contains(path@) {
            let w = choose|w: int| 0 <= w < paths.len() && paths[w] == path@;
            assert(paths[w] != path@);
        }
    }
    Err(join("No images found in directory: ", quoted(path).as_str()))
}

/// Whether the rotation that was kept for an output can be taken up again
/// over the images found now. In random mode the image that was current must
/// still be there. In the ordered modes the images found now, in their
/// order, must be exactly the images that were kept, and the position that
/// was kept must be one of theirs.
pub open spec fn can_restore(saved: OutputStateView, images: Seq<Seq<char>>) -> bool {
    match saved.sorting {
        Sorting::Random => saved.current_image matches Some(c) && images.contains(c),
        Sorting::Ascending => images.len() > 0 && ascending(images) == saved.images
            && saved.queue_position < images.len(),
        Sorting::Descending => images.len() > 0 && descending(images) == saved.images
            && saved.queue_position < images.len(),
    }
}

/// Whether `q` takes up the rotation that was kept: a queue over the images
/// found now, with the capacity and mode that were kept. In random mode its
/// current image is the one that was current, at its first place in the new
/// order; in the ordered modes it stands at the position that was kept.
pub open spec fn restored(saved: OutputStateView, images: Seq<Seq<char>>, q: QueueView) -> bool {
    &&& q.wf()
    &&& q.capacity == saved.queue_size
    &&& q.sorting == saved.sorting
    &&& ordered(saved.sorting, images, q.all_images())
    &&& match saved.sorting {
        Sorting::Random => q.current == saved.current_image && is_first_index(
            q.all_images(),
            saved.current_image.unwrap(),
            q.history.len() as int,
        ),
        _ => q.history.len() == saved.queue_position,
    }
}

/// Takes up the rotation that was kept for an output, over the images found
/// now, where `can_restore` allows it.
pub fn restore_queue(saved: &OutputState, discovered_images: Vec<String>) -> (r: Option<Queue>)
    ensures
        r is Some <==> can_restore(saved@, texts(discovered_images@)),
        r matches Some(q) ==> q.wf() && restored(saved@, texts(discovered_images@), q@),
{
    let ghost images = texts(discovered_images@);
    match saved.sorting {
        Sorting::Random => {
            let current = match &saved.current_image {
                Some(c) => c,
                None => {
                    return None;
                },
            };
            if !contains_text(&discovered_images, current.as_str()) {
                return None;
            }
            let mut queue = match Queue::new(saved.queue_size, saved.sorting, discovered_images) {
                Some(q) => q,
                None => {
                    return None;
                },
            };
            let all = queue.get_all_images();
            proof {
                lemma_ordered_same_images(saved.sorting, images, texts(all@));
                lemma_same_images_contains(images, texts(all@), current@);
            }
            let position = match index_of_text(&all, current.as_str()) {
                Some(p) => p,
                None => {
                    return None;
                },
            };
            let moved = queue.set_position(position);
            proof {
                crate::queue::lemma_arranged(
                    texts(all@).take(position as int),
                    texts(all@)[position as int],
                    texts(all@).skip(position + 1),
                    saved.queue_size as nat,
                    saved.sorting,
                );
                lemma_first_index_of(texts(all@), current@);
            }
            Some(queue)
        },
        _ => {
            let mut queue = match Queue::new(saved.queue_size, saved.sorting, discovered_images) {
                Some(q) => q,
                None => {
                    return None;
                },
            };
            let all = queue.get_all_images();
            proof {
                lemma_ordered_same_images(saved.sorting, images, texts(all@));
            }
            if !same_texts(&all, &saved.images) {
                return None;
            }
            if !queue.set_position(saved.queue_position) {
                return None;
            }
            proof {
                crate::queue::lemma_arranged(
                    texts(all@).take(saved.queue_position as int),
                    texts(all@)[saved.queue_position as int],
                    texts(all@).skip(saved.queue_position + 1),
                    saved.queue_size as nat,
                    saved.sorting,
                );
            }
            Some(queue)
        },
    }
}

/// What the queue of an output is made from.
pub enum Seed {
    /// The rotation that the snapshot kept, over the images found now.
    Restore { saved: OutputStateView, images: Seq<Seq<char>> },
    /// A new rotation over the images found now.
    Fresh { capacity: usize, sorting: Sorting, images: Seq<Seq<char>> },
}

/// What the queue of the output `name` is made from, or `None` where the
/// output gets no queue: it has no path configured, or no images were found
/// there. The kept rotation is taken up where `can_restore` allows it and no
/// queue is shared by all outputs; else the rotation starts anew, with the
/// capacity and mode of the output's settings.
pub open spec fn seed_for(
    snapshot: SnapshotView,
    shared: bool,
    config: ConfigView,
    table: Seq<Discovery>,
    name: Seq<char>,
) -> Option<Seed> {
    let settings = config.output_config(name);
    match settings.path {
        None => None,
        Some(path) => match found_images(table, path) {
            Err(_) => None,
            Ok(images) => {
                if !shared && snapshot.get(name) is Some && can_restore(
                    snapshot.get(name).unwrap(),
                    images,
                ) {
                    Some(Seed::Restore { saved: snapshot.get(name).unwrap(), images })
                } else if images.len() > 0 {
                    Some(
                        Seed::Fresh {
                            capacity: settings.settings.queue_size,
                            sorting: settings.settings.sorting,
                            images,
                        },
                    )
                } else {
                    None
                }
            },
        },
    }
}

/// Whether `q` is a queue made from the seed.
pub open spec fn seed_makes(seed: Seed, q: QueueView) -> bool {
    match seed {
        Seed::Restore { saved, images } => restored(saved, images, q),
        Seed::Fresh { capacity, sorting, images } => q.created_from(
            capacity as nat,
            sorting,
            images,
        ),
    }
}

/// Whether `e` is the entry that the output of its name gets at `now`.
pub open spec fn entry_made(
    snapshot: SnapshotView,
    shared: bool,
    config: ConfigView,
    table: Seq<Discovery>,
    e: EntryView,
    now: Span,
) -> bool {
    &&& e.timer == now
    &&& seed_for(snapshot, shared, config, table, e.name) matches Some(seed) && seed_makes(
        seed,
        e.queue,
    )
}

/// The first image of each of the entries from place `lo` up to place `n`
/// whose rotation starts anew, to be shown on its output at once. A rotation
/// that is taken up again shows nothing until its timer runs out.
pub open spec fn initial_changes(
    entries: Seq<EntryView>,
    snapshot: SnapshotView,
    shared: bool,
    config: ConfigView,
    table: Seq<Discovery>,
    lo: int,
    n: int,
) -> Seq<ChangeView>
    decreases n,
{
    if n <= lo || n <= 0 {
        Seq::empty()
    } else {
        let before = initial_changes(entries, snapshot, shared, config, table, lo, n - 1);
        let e = entries[n - 1];
        if seed_for(snapshot, shared, config, table, e.name) matches Some(Seed::Fresh { .. }) {
            before.push(ChangeView { output: e.name, image: e.queue.current.unwrap() })
        } else {
            before
        }
    }
}

/// The initial changes of the first `n` entries do not depend on the entries
/// after them.
pub proof fn lemma_initial_changes_prefix(
    a: Seq<EntryView>,
    b: Seq<EntryView>,
    snapshot: SnapshotView,
    shared: bool,
    config: ConfigView,
    table: Seq<Discovery>,
    lo: int,
    n: int,
)
    requires
        0 <= n <= a.len(),
        n <= b.len(),
        a.take(n) == b.take(n),
    ensures
        initial_changes(a, snapshot, shared, config, table, lo, n) == initial_changes(
            b,
            snapshot,
            shared,
            config,
            table,
            lo,
            n,
        ),
    decreases n,
{
    if n > lo && n > 0 {
        assert(a.take(n - 1) =~= a.take(n).take(n - 1));
        assert(b.take(n - 1) =~= b.take(n).take(n - 1));
        lemma_initial_changes_prefix(a, b, snapshot, shared, config, table, lo, n - 1);
        assert(a[n - 1] == a.take(n)[n - 1]);
        assert(b[n - 1] == b.take(n)[n - 1]);
    }
}

/// The names of the entries after the first `n` of the known outputs were
/// gone through: an output gets an entry if it is in no group, has a seed,
/// and has no entry yet.
pub open spec fn grown_names(
    start: Seq<Seq<char>>,
    groups: Seq<GroupView>,
    snapshot: SnapshotView,
    shared: bool,
    config: ConfigView,
    table: Seq<Discovery>,
    outputs: Seq<Seq<char>>,
    n: int,
) -> Seq<Seq<char>>
    decreases n,
{
    if n <= 0 {
        start
    } else {
        let before = grown_names(start, groups, snapshot, shared, config, table, outputs, n - 1);
        let name = outputs[n - 1];
        if !in_some_group(groups, name) && seed_for(snapshot, shared, config, table, name)
            is Some && !before.contains(name) {
            before.push(name)
        } else {
            before
        }
    }
}

impl LiveState {
    /// Gives the output a queue of its own, unless it has one already, has no
    /// path configured, or no images are found there. The rotation that the
    /// snapshot kept for the output is taken up again where that fits; else
    /// the rotation starts anew, and its first image is returned, to be shown
    /// at once.
    pub fn initialize_output_queue(
        &mut self,
        output_name: &str,
        config: &Config,
        table: &Vec<Discovery>,
        now: Span,
    ) -> (r: Option<WallpaperChange>)
        requires
            old(self).wf(),
        ensures
            final(self).wf(),
            final(self)@.groups == old(self)@.groups,
            final(self)@.shared_queue == old(self)@.shared_queue,
            final(self)@.shared_timer == old(self)@.shared_timer,
            final(self)@.paused == old(self)@.paused,
            final(self)@.snapshot == old(self)@.snapshot,
            ({
                let seed = seed_for(
                    old(self)@.snapshot,
                    old(self)@.shared_queue is Some,
                    config@,
                    table@,
                    output_name@,
                );
                if entry_names(old(self)@.entries).contains(output_name@) || seed is None {
                    final(self)@.entries == old(self)@.entries && r is None
                } else {
                    let e = final(self)@.entries.last();
                    &&& final(self)@.entries == old(self)@.entries.push(e)
                    &&& e.name == output_name@
                    &&& e.timer == now
                    &&& seed_makes(seed.unwrap(), e.queue)
                    &&& match seed.unwrap() {
                        Seed::Fresh { .. } => r matches Some(c) && c@ == (ChangeView {
                            output: output_name@,
                            image: e.queue.current.unwrap(),
                        }),
                        Seed::Restore { .. } => r is None,
                    }
                }
            }),
    {
        let ghost before = self@;
        if self.find_entry(output_name).is_some() {
            return None;
        }
        let settings = config.get_output_config(output_name);
        let path = match &settings.path {
            Some(p) => p,
            None => {
                return None;
            },
        };
        let images = match lookup_images(table, path.as_str()) {
            Ok(v) => v,
            Err(_) => {
                return None;
            },
        };
        if self.shared_queue.is_none() {
            let kept = match self.persistent_state.get_output_state(output_name) {
                Some(saved) => restore_queue(saved, clone_texts(&images)),
                None => None,
            };
            match kept {
                Some(queue) => {
                    self.push_entry(output_name, queue, now);
                    return None;
                },
                None => {},
            }
        }
        match Queue::new(settings.queue_size, settings.sorting, images) {
            Some(queue) => {
                let image = match queue.current_image() {
                    Some(c) => c.clone(),
                    None => String::new(),
                };
                self.push_entry(output_name, queue, now);
                Some(WallpaperChange { output: crate::text::owned(output_name), image })
            },
            None => None,
        }
    }

    /// Adds an entry for an output that has none.
    fn push_entry(&mut self, output_name: &str, queue: Queue, now: Span)
        requires
            old(self).wf(),
            queue.wf(),
            !entry_names(old(self)@.entries).contains(output_name@),
        ensures
            final(self).wf(),
            final(self)@ == (LiveView {
                entries: old(self)@.entries.push(
                    EntryView { name: output_name@, queue: queue@, timer: now },
                ),
                ..old(self)@
            }),
    {
        let ghost before = self@;
        let ghost names = entry_names(before.entries);
        self.outputs.push(
            OutputEntry { name: crate::text::owned(output_name), queue, timer: now },
        );
        proof {
            let e = EntryView { name: output_name@, queue: queue@, timer: now };
            assert(self@.entries =~= before.entries.push(e));
            let after = entry_names(self@.entries);
            assert(after =~= names.push(output_name@));
            assert forall|i: int, j: int| 0 <= i < after.len() && 0 <= j < after.len() && i
                != j implies after[i] != after[j] by {
                if i < names.len() {
                    assert(names.contains(names[i]));
                }
                if j < names.len() {
                    assert(names.contains(names[j]));
                }
            }
            assert(self@.groups =~= before.groups);
        }
    }

    /// Gives each of the known outputs that is in no group a queue of its
    /// own, as `initialize_output_queue` does, and returns the first images
    /// of the rotations that start anew.
    pub fn initialize_outputs(
        &mut self,
        outputs: &Vec<String>,
        config: &Config,
        table: &Vec<Discovery>,
        now: Span,
    ) -> (r: Vec<WallpaperChange>)
        requires
            old(self).wf(),
        ensures
            final(self).wf(),
            final(self)@.groups == old(self)@.groups,
            final(self)@.shared_queue == old(self)@.shared_queue,
            final(self)@.shared_timer == old(self)@.shared_timer,
            final(self)@.paused == old(self)@.paused,
            final(self)@.snapshot == old(self)@.snapshot,
            final(self)@.entries.len() >= old(self)@.entries.len(),
            final(self)@.entries.take(old(self)@.entries.len() as int) == old(self)@.entries,
            entry_names(final(self)@.entries) == grown_names(
                entry_names(old(self)@.entries),
                old(self)@.groups,
                old(self)@.snapshot,
                old(self)@.shared_queue is Some,
                config@,
                table@,
                texts(outputs@),
                outputs@.len() as int,
            ),
            forall|i: int|
                old(self)@.entries.len() <= i < final(self)@.entries.len() ==> entry_made(
                    old(self)@.snapshot,
                    old(self)@.shared_queue is Some,
                    config@,
                    table@,
                    #[trigger] final(self)@.entries[i],
                    now,
                ),
            change_views(r@) == initial_changes(
                final(self)@.entries,
                old(self)@.snapshot,
                old(self)@.shared_queue is Some,
                config@,
                table@,
                old(self)@.entries.len() as int,
                final(self)@.entries.len() as int,
            ),
    {
        let ghost before = self@;
        let ghost lo = before.entries.len() as int;
        let ghost shared = before.shared_queue is Some;
        let mut changes: Vec<WallpaperChange> = Vec::new();
        let mut i: usize = 0;
        assert(self@.entries.take(lo) =~= before.entries);
        while i < outputs.len()
            invariant
                i <= outputs@.len(),
                self.wf(),
                lo == before.entries.len(),
                shared == (before.shared_queue is Some),
                self@.groups == before.groups,
                self@.shared_queue == before.shared_queue,
                self@.shared_timer == before.shared_timer,
                self@.paused == before.paused,
                self@.snapshot == before.snapshot,
                self@.entries.len() >= lo,
                self@.entries.take(lo) == before.entries,
                entry_names(self@.entries) == grown_names(
                    entry_names(before.entries),
                    before.groups,
                    before.snapshot,
                    shared,
                    config@,
                    table@,
                    texts(outputs@),
                    i as int,
                ),
                forall|k: int|
                    lo <= k < self@.entries.len() ==> entry_made(
                        before.snapshot,
                        shared,
                        config@,
                        table@,
                        #[trigger] self@.entries[k],
                        now,
                    ),
                change_views(changes@) == initial_changes(
                    self@.entries,
                    before.snapshot,
                    shared,
                    config@,
                    table@,
                    lo,
                    self@.entries.len() as int,
                ),
            decreases outputs@.len() - i,
        {
            let ghost mid = self@;
            let ghost made = changes@;
            let name = &outputs[i];
            assert(texts(outputs@)[i as int] == name@);
            if !self.is_in_group(name.as_str()) {
                let change = self.initialize_output_queue(name.as_str(), config, table, now);
                proof {
                    let n = mid.entries.len() as int;
                    if self@.entries.len() > n {
                        assert(self@.entries.take(n) =~= mid.entries);
                        assert(mid.entries.take(n) =~= mid.entries);
                        lemma_initial_changes_prefix(
                            self@.entries,
                            mid.entries,
                            before.snapshot,
                            shared,
                            config@,
                            table@,
                            lo,
                            n,
                        );
                        assert(self@.entries.take(lo) =~= mid.entries.take(lo));
                        assert(entry_names(self@.entries) =~= entry_names(mid.entries).push(
                            name@,
                        ));
                    }
                }
                match change {
                    Some(c) => {
                        changes.push(c);
                        assert(change_views(changes@) =~= change_views(made).push(c@));
                    },
                    None => {},
                }
            }
            i += 1;
        }
        changes
    }
}

/// One change for each of the outputs, all to the same image.
pub open spec fn shown_on(outputs: Seq<Seq<char>>, image: Seq<char>) -> Seq<ChangeView> {
    Seq::new(outputs.len(), |i: int| ChangeView { output: outputs[i], image })
}

/// One change for each of the outputs, all to the same image.
pub fn changes_for(outputs: &Vec<String>, image: &str) -> (r: Vec<WallpaperChange>)
    ensures
        change_views(r@) == shown_on(texts(outputs@), image@),
{
    let mut changes: Vec<WallpaperChange> = Vec::new();
    let mut i: usize = 0;
    while i < outputs.len()
        invariant
            i <= outputs@.len(),
            changes@.len() == i,
            forall|k: int|
                0 <= k < i ==> (#[trigger] changes@[k])@ == (ChangeView {
                    output: outputs@[k]@,
                    image: image@,
                }),
        decreases outputs@.len() - i,
    {
        changes.push(WallpaperChange { output: outputs[i].clone(), image: owned(image) });
        i += 1;
    }
    assert(change_views(changes@) =~= shown_on(texts(outputs@), image@));
    changes
}

/// The changes that show the current image of each of the first `n` groups
/// on the group's outputs, group after group.
pub open spec fn groups_changes(groups: Seq<GroupView>, n: int) -> Seq<ChangeView>
    decreases n,
{
    if n <= 0 {
        Seq::empty()
    } else {
        groups_changes(groups, n - 1) + shown_on(
            groups[n - 1].outputs,
            groups[n - 1].queue.current.unwrap(),
        )
    }
}

/// What is said where synchronized behavior finds no output.
pub open spec fn no_outputs_text() -> Seq<char> {
    "No display outputs available for synchronized mode"@
}

/// What is said where synchronized behavior finds no path.
pub open spec fn no_shared_path_text() -> Seq<char> {
    "No wallpaper path configured for synchronized mode. Add 'path = \"/path/to/wallpapers\"' to [any] section in config"@
}

/// What is said where there is nothing to rotate.
pub open spec fn nothing_to_rotate_text() -> Seq<char> {
    "No valid wallpaper management initialized - check configuration and paths"@
}

/// What the queue that all outputs share is made from: the images at the
/// path of the first known output, with that output's capacity and mode.
/// There is an error without a known output, without a path for the first
/// one, and where looking for images failed; there is no queue where the
/// directory holds no images.
pub open spec fn shared_plan(config: ConfigView, outputs: Seq<Seq<char>>, table: Seq<Discovery>)
    -> Result<Option<Seed>, Seq<char>> {
    if outputs.len() == 0 {
        Err(no_outputs_text())
    } else {
        let settings = config.output_config(outputs[0]);
        match settings.path {
            None => Err(no_shared_path_text()),
            Some(path) => match found_images(table, path) {
                Err(m) => Err("Failed to discover images for synchronized mode: "@ + m),
                Ok(images) => if images.len() > 0 {
                    Ok(
                        Some(
                            Seed::Fresh {
                                capacity: settings.settings.queue_size,
                                sorting: settings.settings.sorting,
                                images,
                            },
                        ),
                    )
                } else {
                    Ok(None)
                },
            },
        }
    }
}

/// Whether the output is known and has a path configured, so that a group
/// can take its images from there.
pub open spec fn can_lead(config: ConfigView, outputs: Seq<Seq<char>>, name: Seq<char>) -> bool {
    outputs.contains(name) && config.output_config(name).path is Some
}

/// Whether `k` is the place of the first member that can lead its group.
pub open spec fn is_leader(
    config: ConfigView,
    outputs: Seq<Seq<char>>,
    members: Seq<Seq<char>>,
    k: int,
) -> bool {
    &&& 0 <= k < members.len()
    &&& can_lead(config, outputs, members[k])
    &&& forall|j: int| 0 <= j < k ==> !can_lead(config, outputs, #[trigger] members[j])
}

/// Those of the first `n` members that are known outputs, in their order.
pub open spec fn present(members: Seq<Seq<char>>, outputs: Seq<Seq<char>>, n: int) -> Seq<
    Seq<char>,
>
    decreases n,
{
    if n <= 0 {
        Seq::empty()
    } else if outputs.contains(members[n - 1]) {
        present(members, outputs, n - 1).push(members[n - 1])
    } else {
        present(members, outputs, n - 1)
    }
}

/// The name of the group at place `idx` of the configured groups.
pub open spec fn group_name(idx: nat) -> Seq<char> {
    "group_"@ + decimal_text(idx)
}

/// What becomes of a configured group.
pub enum GroupPlan {
    /// No member is known and has a path, or no images are found at the
    /// path: the group is left out.
    Skip,
    /// The group rotates, over the images of its first member that is known
    /// and has a path; its outputs are its known members.
    Make { name: Seq<char>, outputs: Seq<Seq<char>>, seed: Seed },
}

/// What becomes of the group at place `idx` with these members.
pub open spec fn group_plan(
    config: ConfigView,
    outputs: Seq<Seq<char>>,
    table: Seq<Discovery>,
    members: Seq<Seq<char>>,
    idx: nat,
) -> GroupPlan {
    if exists|k: int| is_leader(config, outputs, members, k) {
        let k = choose|k: int| is_leader(config, outputs, members, k);
        let settings = config.output_config(members[k]);
        match found_images(table, settings.path.unwrap()) {
            Err(_) => GroupPlan::Skip,
            Ok(images) => if images.len() > 0 {
                GroupPlan::Make {
                    name: group_name(idx),
                    outputs: present(members, outputs, members.len() as int),
                    seed: Seed::Fresh {
                        capacity: settings.settings.queue_size,
                        sorting: settings.settings.sorting,
                        images,
                    },
                }
            } else {
                GroupPlan::Skip
            },
        }
    } else {
        GroupPlan::Skip
    }
}

/// Whether `g` is a group made to the plan at `now`.
pub open spec fn group_made(plan: GroupPlan, g: GroupView, now: Span) -> bool {
    plan matches GroupPlan::Make { name, outputs, seed } && g.name == name && g.outputs
        == outputs && g.timer == now && seed_makes(seed, g.queue)
}

/// The plans of those of the first `n` configured groups that rotate.
pub open spec fn made_plans(
    config: ConfigView,
    outputs: Seq<Seq<char>>,
    table: Seq<Discovery>,
    groups: Seq<Seq<Seq<char>>>,
    n: int,
) -> Seq<GroupPlan>
    decreases n,
{
    if n <= 0 {
        Seq::empty()
    } else {
        let before = made_plans(config, outputs, table, groups, n - 1);
        let plan = group_plan(config, outputs, table, groups[n - 1], (n - 1) as nat);
        if plan is Make {
            before.push(plan)
        } else {
            before
        }
    }
}

/// The known members of a group, in their order.
pub fn present_members(members: &Vec<String>, outputs: &Vec<String>) -> (r: Vec<String>)
    ensures
        texts(r@) == present(texts(members@), texts(outputs@), members@.len() as int),
{
    let mut kept: Vec<String> = Vec::new();
    let mut i: usize = 0;
    while i < members.len()
        invariant
            i <= members@.len(),
            texts(kept@) == present(texts(members@), texts(outputs@), i as int),
        decreases members@.len() - i,
    {
        let ghost k = kept@;
        if contains_text(outputs, members[i].as_str()) {
            kept.push(members[i].clone());
            assert(texts(kept@) =~= texts(k).push(members@[i as int]@));
        }
        assert(texts(members@)[i as int] == members@[i as int]@);
        i += 1;
    }
    kept
}

/// Makes the group at place `idx` of the configured groups, as its plan
/// says.
pub fn plan_group(
    config: &Config,
    outputs: &Vec<String>,
    table: &Vec<Discovery>,
    members: &Vec<String>,
    idx: usize,
    now: Span,
) -> (r: Option<MonitorGroup>)
    ensures
        match group_plan(config@, texts(outputs@), table@, texts(members@), idx as nat) {
            GroupPlan::Skip => r is None,
            plan => r matches Some(g) && g.queue.wf() && group_made(plan, g@, now),
        },
{
    let ghost c = config@;
    let ghost o = texts(outputs@);
    let ghost ms = texts(members@);
    let mut k: usize = 0;
    while k < members.len()
        invariant
            k <= members@.len(),
            c == config@,
            o == texts(outputs@),
            ms == texts(members@),
            forall|j: int| 0 <= j < k ==> !can_lead(c, o, #[trigger] ms[j]),
        decreases members@.len() - k,
    {
        assert(ms[k as int] == members@[k as int]@);
        if contains_text(outputs, members[k].as_str()) {
            let settings = config.get_output_config(members[k].as_str());
            match &settings.path {
                Some(path) => {
                    proof {
                        assert(is_leader(c, o, ms, k as int));
                        let w = choose|w: int| is_leader(c, o, ms, w);
                        if w < k {
                            assert(!can_lead(c, o, ms[w]));
                        }
                        if k < w {
                            assert(!can_lead(c, o, ms[k as int]));
                        }
                        assert(w == k);
                    }
                    let images = match lookup_images(table, path.as_str()) {
                        Ok(v) => v,
                        Err(_) => {
                            return None;
                        },
                    };
                    return match Queue::new(settings.queue_size, settings.sorting, images) {
                        Some(queue) => Some(
                            MonitorGroup {
                                name: join("group_", decimal(idx as u64).as_str()),
                                outputs: present_members(members, outputs),
                                queue,
                                timer: now,
                            },
                        ),
                        None => None,
                    };
                },
                None => {},
            }
        }
        k += 1;
    }
    assert(!exists|w: int| is_leader(c, o, ms, w)) by {
        if exists|w: int| is_leader(c, o, ms, w) {
            let w = choose|w: int| is_leader(c, o, ms, w);
            assert(!can_lead(c, o, ms[w]));
        }
    }
    None
}

/// Makes the configured groups, each as its plan says.
pub fn build_groups(
    config: &Config,
    outputs: &Vec<String>,
    table: &Vec<Discovery>,
    groups: &Vec<Vec<String>>,
    now: Span,
) -> (r: Vec<MonitorGroup>)
    ensures
        r@.len() == made_plans(
            config@,
            texts(outputs@),
            table@,
            group_texts(groups@),
            groups@.len() as int,
        ).len(),
        forall|i: int|
            0 <= i < r@.len() ==> (#[trigger] r@[i]).queue.wf() && group_made(
                made_plans(
                    config@,
                    texts(outputs@),
                    table@,
                    group_texts(groups@),
                    groups@.len() as int,
                )[i],
                r@[i]@,
                now,
            ),
{
    let ghost c = config@;
    let ghost o = texts(outputs@);
    let ghost gs = group_texts(groups@);
    let mut made: Vec<MonitorGroup> = Vec::new();
    let mut i: usize = 0;
    while i < groups.len()
        invariant
            i <= groups@.len(),
            c == config@,
            o == texts(outputs@),
            gs == group_texts(groups@),
            made@.len() == made_plans(c, o, table@, gs, i as int).len(),
            forall|k: int|
                0 <= k < made@.len() ==> (#[trigger] made@[k]).queue.wf() && group_made(
                    made_plans(c, o, table@, gs, i as int)[k],
                    made@[k]@,
                    now,
                ),
        decreases groups@.len() - i,
    {
        assert(gs[i as int] == texts(groups@[i as int]@));
        match plan_group(config, outputs, table, &groups[i], i, now) {
            Some(group) => {
                made.push(group);
            },
            None => {},
        }
        i += 1;
    }
    made
}

/// The groups that the behavior in effect configures.
pub open spec fn configured_groups(config: ConfigView) -> Seq<Seq<Seq<char>>> {
    match config.effective_behavior() {
        BehaviorView::Grouped(groups) => groups,
        _ => Seq::empty(),
    }
}

/// Whether the groups are made to the plans, one for one, at `now`.
pub open spec fn groups_made(plans: Seq<GroupPlan>, groups: Seq<GroupView>, now: Span) -> bool {
    &&& groups.len() == plans.len()
    &&& forall|i: int| 0 <= i < groups.len() ==> group_made(plans[i], #[trigger] groups[i], now)
}

impl LiveView {
    /// Whether this state is what the manager builds at `now` on the idle
    /// state `base`, `changes` being the images to show at once.
    ///
    /// In synchronized behavior there is the one shared queue, and its
    /// current image goes to every known output. Else there are the
    /// configured groups that rotate, whose current images go to their
    /// outputs, and a queue for each known output that is in no group and
    /// has images, whose first image is shown if its rotation starts anew.
    pub open spec fn built_on(
        self,
        base: LiveView,
        config: ConfigView,
        outputs: Seq<Seq<char>>,
        table: Seq<Discovery>,
        now: Span,
        changes: Seq<ChangeView>,
    ) -> bool {
        &&& self.paused == base.paused
        &&& self.snapshot == base.snapshot
        &&& match config.effective_behavior() {
            BehaviorView::Synchronized => {
                &&& self.entries.len() == 0
                &&& self.groups.len() == 0
                &&& self.shared_timer == Some(now)
                &&& shared_plan(config, outputs, table) matches Ok(Some(seed))
                &&& self.shared_queue matches Some(q)
                &&& seed_makes(seed, q)
                &&& changes == shown_on(outputs, q.current.unwrap())
            },
            _ => {
                &&& self.shared_queue is None
                &&& self.shared_timer is None
                &&& groups_made(
                    made_plans(
                        config,
                        outputs,
                        table,
                        configured_groups(config),
                        configured_groups(config).len() as int,
                    ),
                    self.groups,
                    now,
                )
                &&& entry_names(self.entries) == grown_names(
                    Seq::empty(),
                    self.groups,
                    base.snapshot,
                    false,
                    config,
                    table,
                    outputs,
                    outputs.len() as int,
                )
                &&& forall|i: int|
                    0 <= i < self.entries.len() ==> entry_made(
                        base.snapshot,
                        false,
                        config,
                        table,
                        #[trigger] self.entries[i],
                        now,
                    )
                &&& changes == groups_changes(self.groups, self.groups.len() as int)
                    + initial_changes(
                    self.entries,
                    base.snapshot,
                    false,
                    config,
                    table,
                    0,
                    self.entries.len() as int,
                )
            },
        }
    }
}

/// Why nothing can be built on a snapshot from this configuration, these
/// outputs and these images, if so: the shared queue cannot be made, or
/// there would be nothing to rotate.
pub open spec fn build_failure(
    snapshot: SnapshotView,
    config: ConfigView,
    outputs: Seq<Seq<char>>,
    table: Seq<Discovery>,
) -> Option<Seq<char>> {
    match config.effective_behavior() {
        BehaviorView::Synchronized => match shared_plan(config, outputs, table) {
            Err(m) => Some(m),
            Ok(None) => Some(nothing_to_rotate_text()),
            Ok(Some(_)) => None,
        },
        _ => {
            let groups = configured_groups(config);
            if made_plans(config, outputs, table, groups, groups.len() as int).len() == 0
                && grown_names(
                Seq::empty(),
                Seq::empty(),
                snapshot,
                false,
                config,
                table,
                outputs,
                outputs.len() as int,
            ).len() == 0 {
                Some(nothing_to_rotate_text())
            } else {
                None
            }
        },
    }
}

impl LiveState {
    /// Sets up what the outputs share under the behavior in effect: the one
    /// queue of synchronized behavior, made from the images of the first
    /// known output, or the groups of grouped behavior. Independent behavior
    /// shares nothing. Only synchronized behavior can fail, and on an error
    /// nothing is changed.
    pub fn initialize_monitor_behavior(
        &mut self,
        config: &Config,
        outputs: &Vec<String>,
        table: &Vec<Discovery>,
        now: Span,
    ) -> (r: Result<(), String>)
        requires
            old(self).wf(),
        ensures
            final(self).wf(),
            final(self)@.entries == old(self)@.entries,
            final(self)@.paused == old(self)@.paused,
            final(self)@.snapshot == old(self)@.snapshot,
            r is Err ==> final(self)@ == old(self)@,
            match config@.effective_behavior() {
                BehaviorView::Independent => r is Ok && final(self)@ == old(self)@,
                BehaviorView::Synchronized => {
                    &&& final(self)@.groups == old(self)@.groups
                    &&& match shared_plan(config@, texts(outputs@), table@) {
                        Err(m) => r matches Err(e) && e@ == m,
                        Ok(None) => r is Ok && final(self)@ == old(self)@,
                        Ok(Some(seed)) => {
                            &&& r is Ok
                            &&& final(self)@.shared_timer == Some(now)
                            &&& final(self)@.shared_queue matches Some(q) && seed_makes(seed, q)
                        },
                    }
                },
                BehaviorView::Grouped(groups) => {
                    &&& final(self)@.shared_queue == old(self)@.shared_queue
                    &&& final(self)@.shared_timer == old(self)@.shared_timer
                    &&& r is Ok
                    &&& final(self)@.groups.take(old(self)@.groups.len() as int) == old(
                        self,
                    )@.groups
                    &&& groups_made(
                        made_plans(config@, texts(outputs@), table@, groups, groups.len() as int),
                        final(self)@.groups.skip(old(self)@.groups.len() as int),
                        now,
                    )
                },
            },
    {
        let ghost before = self@;
        match config.get_effective_monitor_behavior() {
            MonitorBehavior::Independent => Ok(()),
            MonitorBehavior::Synchronized => {
                if outputs.len() == 0 {
                    return Err(owned("No display outputs available for synchronized mode"));
                }
                assert(texts(outputs@)[0] == outputs@[0]@);
                let settings = config.get_output_config(outputs[0].as_str());
                let path = match &settings.path {
                    Some(p) => p,
                    None => {
                        return Err(
                            owned(
                                "No wallpaper path configured for synchronized mode. Add 'path = \"/path/to/wallpapers\"' to [any] section in config",
                            ),
                        );
                    },
                };
                let images = match lookup_images(table, path.as_str()) {
                    Ok(v) => v,
                    Err(m) => {
                        return Err(
                            join(
                                "Failed to discover images for synchronized mode: ",
                                m.as_str(),
                            ),
                        );
                    },
                };
                match Queue::new(settings.queue_size, settings.sorting, images) {
                    Some(queue) => {
                        self.shared_queue = Some(queue);
                        self.shared_timer = Some(now);
                        assert(self@.entries =~= before.entries);
                        assert(self@.groups =~= before.groups);
                    },
                    None => {},
                }
                Ok(())
            },
            MonitorBehavior::Grouped(groups) => {
                let mut made = build_groups(config, outputs, table, &groups, now);
                let ghost old_groups = self.groups@;
                let ghost new_groups = made@;
                self.groups.append(&mut made);
                proof {
                    let n = before.groups.len() as int;
                    assert(self.groups@ =~= old_groups + new_groups);
                    assert(self@.groups.take(n) =~= before.groups);
                    assert(self@.groups.skip(n) =~= new_groups.map_values(
                        |g: MonitorGroup| g@,
                    ));
                    assert(self@.entries =~= before.entries);
                    assert forall|i: int| 0 <= i < self.groups@.len() implies (
                    #[trigger] self.groups@[i]).queue.wf() by {
                        if i >= n {
                            assert(self.groups@[i] == new_groups[i - n]);
                        } else {
                            assert(self.groups@[i] == old_groups[i]);
                        }
                    }
                }
                Ok(())
            },
        }
    }

    /// The changes that show the current image of each group on the group's
    /// outputs.
    pub fn group_wallpapers(&self) -> (r: Vec<WallpaperChange>)
        requires
            self.wf(),
        ensures
            change_views(r@) == groups_changes(self@.groups, self@.groups.len() as int),
    {
        let mut changes: Vec<WallpaperChange> = Vec::new();
        let mut i: usize = 0;
        while i < self.groups.len()
            invariant
                i <= self.groups@.len(),
                self.wf(),
                change_views(changes@) == groups_changes(self@.groups, i as int),
            decreases self.groups@.len() - i,
        {
            let ghost before = changes@;
            let group = &self.groups[i];
            assert(self@.groups[i as int] == group@);
            match group.queue.current_image() {
                Some(image) => {
                    let mut shown = changes_for(&group.outputs, image.as_str());
                    let ghost s = shown@;
                    changes.append(&mut shown);
                    assert(change_views(changes@) =~= change_views(before) + change_views(s));
                },
                None => {},
            }
            i += 1;
        }
        changes
    }
}

/// The idle state around a snapshot.
pub open spec fn idle_view(snapshot: SnapshotView, paused: bool) -> LiveView {
    LiveView {
        entries: Seq::empty(),
        groups: Seq::empty(),
        shared_queue: None,
        shared_timer: None,
        paused,
        snapshot,
    }
}

/// Builds the live state on an idle one: what the outputs share under the
/// behavior in effect, then a queue for each output that rotates on its own.
/// Returns the state with the images to show at once. Fails where the shared
/// queue cannot be made, and where there would be nothing to rotate.
pub fn build(
    base: LiveState,
    config: &Config,
    outputs: &Vec<String>,
    table: &Vec<Discovery>,
    now: Span,
) -> (r: Result<(LiveState, Vec<WallpaperChange>), String>)
    requires
        base.wf(),
        base@ == idle_view(base@.snapshot, base@.paused),
    ensures
        match build_failure(base@.snapshot, config@, texts(outputs@), table@) {
            Some(m) => r matches Err(e) && e@ == m,
            None => r matches Ok((state, changes)) && state.wf() && !state@.is_idle()
                && state@.built_on(
                base@,
                config@,
                texts(outputs@),
                table@,
                now,
                change_views(changes@),
            ),
        },
{
    let ghost b = base@;
    let mut state = base;
    match state.initialize_monitor_behavior(config, outputs, table, now) {
        Ok(_) => {},
        Err(m) => {
            return Err(m);
        },
    }
    let changes = match config.get_effective_monitor_behavior() {
        MonitorBehavior::Synchronized => {
            let shown = match &state.shared_queue {
                Some(queue) => match queue.current_image() {
                    Some(image) => changes_for(outputs, image.as_str()),
                    None => Vec::new(),
                },
                None => Vec::new(),
            };
            assert(state@.entries =~= Seq::empty());
            assert(state@.groups =~= Seq::empty());
            shown
        },
        _ => {
            let ghost groups = configured_groups(config@);
            assert(state@.groups.skip(0) =~= state@.groups);
            let ghost made = state@;
            let mut changes = state.group_wallpapers();
            let ghost first = changes@;
            let mut more = state.initialize_outputs(outputs, config, table, now);
            let ghost second = more@;
            changes.append(&mut more);
            proof {
                assert(change_views(changes@) =~= change_views(first) + change_views(second));
                if state@.groups.len() == 0 {
                    assert(state@.groups =~= Seq::empty());
                }
                assert(entry_names(made.entries) =~= Seq::empty());
            }
            changes
        },
    };
    if state.is_idle() {
        return Err(owned("No valid wallpaper management initialized - check configuration and paths"));
    }
    Ok((state, changes))
}

/// What is said where the daemon starts without a known output.
pub open spec fn no_known_outputs_text() -> Seq<char> {
    "No swww outputs found"@
}

/// Why the daemon cannot start, if so: no output is known, or nothing can be
/// built.
pub open spec fn start_failure(
    snapshot: SnapshotView,
    config: ConfigView,
    outputs: Seq<Seq<char>>,
    table: Seq<Discovery>,
) -> Option<Seq<char>> {
    if outputs.len() == 0 {
        Some(no_known_outputs_text())
    } else {
        build_failure(snapshot, config, outputs, table)
    }
}

/// The snapshot that a start goes by: the one that was loaded, or an empty
/// one.
pub open spec fn loaded_snapshot(loaded: Result<DaemonState, SwwwsError>, s: SnapshotView)
    -> bool {
    match loaded {
        Ok(d) => s == d@,
        Err(_) => s.names.len() == 0 && !s.global_paused && s.wf(),
    }
}

impl LiveState {
    /// The live state at the start of the daemon, built around the snapshot
    /// that was loaded (or an empty one if loading failed), with the images
    /// to show at once. It is an error if no output is known, if the shared
    /// queue cannot be made, and if there is nothing to rotate.
    pub fn initialize(
        loaded: Result<DaemonState, SwwwsError>,
        config: &Config,
        outputs: &Vec<String>,
        table: &Vec<Discovery>,
        now: Span,
    ) -> (r: Result<(LiveState, Vec<WallpaperChange>), String>)
        requires
            loaded matches Ok(s) ==> s.wf(),
        ensures
            exists|snapshot: SnapshotView|
                #![trigger loaded_snapshot(loaded, snapshot)]
                loaded_snapshot(loaded, snapshot) && match start_failure(
                    snapshot,
                    config@,
                    texts(outputs@),
                    table@,
                ) {
                    Some(m) => r matches Err(e) && e@ == m,
                    None => r matches Ok((state, changes)) && state.wf() && !state@.is_idle()
                        && state@.built_on(
                        idle_view(snapshot, snapshot.global_paused),
                        config@,
                        texts(outputs@),
                        table@,
                        now,
                        change_views(changes@),
                    ),
                },
    {
        let base = LiveState::new(loaded);
        let ghost snapshot = base@.snapshot;
        assert(base@.entries =~= Seq::empty());
        assert(base@.groups =~= Seq::empty());
        assert(loaded_snapshot(loaded, snapshot));
        if outputs.len() == 0 {
            return Err(owned("No swww outputs found"));
        }
        build(base, config, outputs, table, now)
    }

    /// Builds the live state anew for the configuration, keeping only the
    /// pause flag and the snapshot, and returns the images to show at once.
    /// On an error the state stays as it was.
    pub fn reinitialize_daemon_state(
        &mut self,
        config: &Config,
        outputs: &Vec<String>,
        table: &Vec<Discovery>,
        now: Span,
    ) -> (r: Result<Vec<WallpaperChange>, String>)
        requires
            old(self).wf(),
        ensures
            final(self).wf(),
            match build_failure(old(self)@.snapshot, config@, texts(outputs@), table@) {
                Some(m) => r matches Err(e) && e@ == m && final(self)@ == old(self)@,
                None => r matches Ok(changes) && !final(self)@.is_idle() && final(self)@.built_on(
                    idle_view(old(self)@.snapshot, old(self)@.paused),
                    config@,
                    texts(outputs@),
                    table@,
                    now,
                    change_views(changes@),
                ),
            },
    {
        let base = LiveState {
            outputs: Vec::new(),
            groups: Vec::new(),
            shared_queue: None,
            shared_timer: None,
            paused: self.paused,
            persistent_state: self.persistent_state.clone(),
        };
        assert(base@.entries =~= Seq::empty());
        assert(base@.groups =~= Seq::empty());
        match build(base, config, outputs, table, now) {
            Ok((state, changes)) => {
                *self = state;
                Ok(changes)
            },
            Err(m) => Err(m),
        }
    }
}

} // verus!
