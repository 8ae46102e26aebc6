//! The persisted snapshot: what is kept of each output's queue between runs
//! of the daemon.

use crate::config::{clone_option, option_text};
use crate::queue::Sorting;
use crate::text::{
    clone_texts, first_index_of, is_first_index, lemma_first_index_of, owned, same_text, texts,
};
use vstd::prelude::*;

verus! {

/// What is kept of the queue of one output. Times are seconds since the
/// Unix epoch.
#[derive(Debug)]
pub struct OutputState {
    pub current_image: Option<String>,
    pub queue_position: usize,
    pub queue_size: usize,
    pub sorting: Sorting,
    pub images: Vec<String>,
    pub last_updated: i64,
}

/// What is kept of the queue of one output, as texts.
pub struct OutputStateView {
    pub current_image: Option<Seq<char>>,
    pub queue_position: usize,
    pub queue_size: usize,
    pub sorting: Sorting,
    pub images: Seq<Seq<char>>,
    pub last_updated: i64,
}

impl View for OutputState {
    type V = OutputStateView;

    open spec fn view(&self) -> OutputStateView {
        OutputStateView {
            current_image: option_text(self.current_image),
            queue_position: self.queue_position,
            queue_size: self.queue_size,
            sorting: self.sorting,
            images: texts(self.images@),
            last_updated: self.last_updated,
        }
    }
}

impl Clone for OutputState {
    fn clone(&self) -> (r: OutputState)
        ensures
            r@ == self@,
    {
        OutputState {
            current_image: clone_option(&self.current_image),
            queue_position: self.queue_position,
            queue_size: self.queue_size,
            sorting: self.sorting,
            images: clone_texts(&self.images),
            last_updated: self.last_updated,
        }
    }
}

/// The state of one output, under its name.
#[derive(Debug)]
pub struct NamedOutputState {
    pub name: String,
    pub state: OutputState,
}

/// The snapshot: the state of each output by name, whether rotation is
/// paused, and when the snapshot was last changed.
#[derive(Debug)]
pub struct DaemonState {
    pub outputs: Vec<NamedOutputState>,
    pub global_paused: bool,
    pub last_save: i64,
}

/// The snapshot, as texts; the names and the states of the outputs go
/// side by side.
pub struct SnapshotView {
    pub names: Seq<Seq<char>>,
    pub states: Seq<OutputStateView>,
    pub global_paused: bool,
    pub last_save: i64,
}

impl View for DaemonState {
    type V = SnapshotView;

    open spec fn view(&self) -> SnapshotView {
        SnapshotView {
            names: self.outputs@.map_values(|o: NamedOutputState| o.name@),
            states: self.outputs@.map_values(|o: NamedOutputState| o.state@),
            global_paused: self.global_paused,
            last_save: self.last_save,
        }
    }
}

impl Clone for DaemonState {
    fn clone(&self) -> (r: DaemonState)
        ensures
            r@ == self@,
    {
        let mut outputs: Vec<NamedOutputState> = Vec::new();
        let mut i: usize = 0;
        while i < self.outputs.len()
            invariant
                i <= self.outputs@.len(),
                outputs@.len() == i,
                forall|k: int|
                    0 <= k < i ==> (#[trigger] outputs@[k]).name@ == self.outputs@[k].name@
                        && outputs@[k].state@ == self.outputs@[k].state@,
            decreases self.outputs@.len() - i,
        {
            outputs.push(
                NamedOutputState {
                    name: self.outputs[i].name.clone(),
                    state: self.outputs[i].state.clone(),
                },
            );
            i += 1;
        }
        let r = DaemonState {
            outputs,
            global_paused: self.global_paused,
            last_save: self.last_save,
        };
        assert(r@.names =~= self@.names);
        assert(r@.states =~= self@.states);
        r
    }
}

/// The whole hours from `then` to `now`, rounded towards zero.
pub open spec fn age_hours(now: i64, then: i64) -> int {
    if now >= then {
        (now - then) / 3600
    } else {
        -((then - now) / 3600)
    }
}

/// Whether more than `max_age_hours` whole hours have passed from `then` to
/// `now`.
pub fn is_older_than(now: i64, then: i64, max_age_hours: u64) -> (r: bool)
    ensures
        r == (age_hours(now, then) > max_age_hours),
{
    if now < then {
        false
    } else {
        let d: i128 = now as i128 - then as i128;
        d / 3600 > max_age_hours as i128
    }
}

impl SnapshotView {
    /// No output has two entries.
    pub open spec fn wf(self) -> bool {
        &&& self.names.len() == self.states.len()
        &&& self.names.no_duplicates()
    }

    /// The state kept for the output `name`.
    pub open spec fn get(self, name: Seq<char>) -> Option<OutputStateView> {
        match first_index_of(self.names, name) {
            Some(i) => Some(self.states[i]),
            None => None,
        }
    }

    /// The snapshot with `state` kept for `name`, in place of what was kept
    /// for it before, and changed at `now`.
    pub open spec fn with_output(
        self,
        name: Seq<char>,
        state: OutputStateView,
        now: i64,
    ) -> SnapshotView {
        match first_index_of(self.names, name) {
            Some(i) => SnapshotView {
                names: self.names,
                states: self.states.update(i, state),
                global_paused: self.global_paused,
                last_save: now,
            },
            None => SnapshotView {
                names: self.names.push(name),
                states: self.states.push(state),
                global_paused: self.global_paused,
                last_save: now,
            },
        }
    }

    /// The entries of the first `n` outputs that were updated no more than
    /// `max_age_hours` whole hours before `now`, in their order.
    pub open spec fn fresh_names(self, n: int, now: i64, max_age_hours: u64) -> Seq<Seq<char>>
        decreases n,
    {
        if n <= 0 {
            Seq::empty()
        } else if age_hours(now, self.states[n - 1].last_updated) > max_age_hours {
            self.fresh_names(n - 1, now, max_age_hours)
        } else {
            self.fresh_names(n - 1, now, max_age_hours).push(self.names[n - 1])
        }
    }

    /// The states that go with `fresh_names`.
    pub open spec fn fresh_states(
        self,
        n: int,
        now: i64,
        max_age_hours: u64,
    ) -> Seq<OutputStateView>
        decreases n,
    {
        if n <= 0 {
            Seq::empty()
        } else if age_hours(now, self.states[n - 1].last_updated) > max_age_hours {
            self.fresh_states(n - 1, now, max_age_hours)
        } else {
            self.fresh_states(n - 1, now, max_age_hours).push(self.states[n - 1])
        }
    }

    /// The snapshot without the outputs that were updated more than
    /// `max_age_hours` whole hours before `now`.
    pub open spec fn without_stale(self, now: i64, max_age_hours: u64) -> SnapshotView {
        SnapshotView {
            names: self.fresh_names(self.names.len() as int, now, max_age_hours),
            states: self.fresh_states(self.names.len() as int, now, max_age_hours),
            global_paused: self.global_paused,
            last_save: self.last_save,
        }
    }
}

/// Every fresh name is one of the first `n` names, so fresh names are not
/// repeated where names are not.
pub proof fn lemma_fresh_names(s: SnapshotView, n: int, now: i64, max_age_hours: u64)
    requires
        s.wf(),
        0 <= n <= s.names.len(),
    ensures
        s.fresh_names(n, now, max_age_hours).len() == s.fresh_states(
            n,
            now,
            max_age_hours,
        ).len(),
        s.fresh_names(n, now, max_age_hours).no_duplicates(),
        forall|x: Seq<char>|
            s.fresh_names(n, now, max_age_hours).contains(x) ==> s.names.take(n).contains(x),
    decreases n,
{
    if n > 0 {
        lemma_fresh_names(s, n - 1, now, max_age_hours);
        let before = s.fresh_names(n - 1, now, max_age_hours);
        let after = s.fresh_names(n, now, max_age_hours);
        assert forall|x: Seq<char>| after.contains(x) implies s.names.take(n).contains(x) by {
            let i = choose|i: int| 0 <= i < after.len() && after[i] == x;
            if i < before.len() && before.len() <= after.len() && before =~= after.take(
                before.len() as int,
            ) {
                assert(before[i] == x);
                assert(before.contains(x));
                let t = s.names.take(n - 1);
                let j = choose|j: int| 0 <= j < t.len() && t[j] == x;
                assert(s.names.take(n)[j] == x);
            } else {
                assert(x == s.names[n - 1]);
                assert(s.names.take(n)[n - 1] == x);
            }
        }
        if after.len() > before.len() {
            assert forall|i: int, j: int| 0 <= i < after.len() && 0 <= j < after.len() && i
                != j implies after[i] != after[j] by {
                if i == before.len() || j == before.len() {
                    let other = if i == before.len() {
                        j
                    } else {
                        i
                    };
                    assert(before[other] == after[other]);
                    assert(before.contains(before[other]));
                    let t = s.names.take(n - 1);
                    let k = choose|k: int| 0 <= k < t.len() && t[k] == before[other];
                    assert(s.names[k] == before[other]);
                } else {
                    assert(before[i] == after[i]);
                    assert(before[j] == after[j]);
                }
            }
        }
    }
}

/// `chrono::Utc::now().timestamp()`: the seconds since the Unix epoch on
/// the system clock. Nothing is known of the reading. The clock cannot be
/// read where it is set to a time before the epoch.
#[verifier::external_body]
pub(crate) fn unix_now() -> (r: i64) {
    chrono::Utc::now().timestamp()
}

impl DaemonState {
    /// No output has two entries.
    pub open spec fn wf(&self) -> bool {
        self@.wf()
    }

    /// An empty snapshot, not paused, made now.
    pub fn new() -> (r: DaemonState)
        ensures
            r.wf(),
            r@.names.len() == 0,
            !r@.global_paused,
    {
        DaemonState::new_at(unix_now())
    }

    /// An empty snapshot, not paused, made at `now`.
    pub fn new_at(now: i64) -> (r: DaemonState)
        ensures
            r.wf(),
            r@.names.len() == 0,
            !r@.global_paused,
            r@.last_save == now,
    {
        DaemonState { outputs: Vec::new(), global_paused: false, last_save: now }
    }

    /// The path of the snapshot file of this user.
    pub fn get_state_file() -> (r: String)
        ensures
            exists|dir: Option<Seq<char>>| r@ == #[trigger] crate::paths::state_file_text(dir),
    {
        crate::paths::get_state_file()
    }

    /// The place of the entry of `output_name`.
    fn find(&self, output_name: &str) -> (r: Option<usize>)
        ensures
            match r {
                Some(i) => first_index_of(self@.names, output_name@) == Some(i as int) && i
                    < self.outputs@.len(),
                None => first_index_of(self@.names, output_name@) is None,
            },
    {
        proof {
            lemma_first_index_of(self@.names, output_name@);
        }
        let mut i: usize = 0;
        while i < self.outputs.len()
            invariant
                i <= self.outputs@.len(),
                forall|j: int| 0 <= j < i ==> self@.names[j] != output_name@,
                forall|k: int|
                    is_first_index(self@.names, output_name@, k) ==> first_index_of(
                        self@.names,
                        output_name@,
                    ) == Some(k),
                first_index_of(self@.names, output_name@) is Some <==> self@.names.contains(
                    output_name@,
                ),
            decreases self.outputs@.len() - i,
        {
            if same_text(self.outputs[i].name.as_str(), output_name) {
                assert(is_first_index(self@.names, output_name@, i as int));
                return Some(i);
            }
            i += 1;
        }
        None
    }

    /// Keeps the given state for the output, in place of what was kept for it
    /// before, as of now.
    pub fn update_output_state(
        &mut self,
        output_name: &str,
        current_image: Option<&str>,
        queue_position: usize,
        queue_size: usize,
        sorting: Sorting,
        images: &Vec<String>,
    )
        requires
            old(self).wf(),
        ensures
            final(self).wf(),
            final(self)@ == old(self)@.with_output(
                output_name@,
                OutputStateView {
                    current_image: match current_image {
                        Some(c) => Some(c@),
                        None => None,
                    },
                    queue_position,
                    queue_size,
                    sorting,
                    images: texts(images@),
                    last_updated: final(self)@.last_save,
                },
                final(self)@.last_save,
            ),
    {
        let now = unix_now();
        self.update_output_state_at(
            output_name,
            current_image,
            queue_position,
            queue_size,
            sorting,
            images,
            now,
        );
    }

    /// Keeps the given state for the output, in place of what was kept for it
    /// before, as of `now`.
    pub fn update_output_state_at(
        &mut self,
        output_name: &str,
        current_image: Option<&str>,
        queue_position: usize,
        queue_size: usize,
        sorting: Sorting,
        images: &Vec<String>,
        now: i64,
    )
        requires
            old(self).wf(),
        ensures
            final(self).wf(),
            final(self)@ == old(self)@.with_output(
                output_name@,
                OutputStateView {
                    current_image: match current_image {
                        Some(c) => Some(c@),
                        None => None,
                    },
                    queue_position,
                    queue_size,
                    sorting,
                    images: texts(images@),
                    last_updated: now,
                },
                now,
            ),
    {
        let ghost before = self@;
        let state = OutputState {
            current_image: match current_image {
                Some(c) => Some(owned(c)),
                None => None,
            },
            queue_position,
            queue_size,
            sorting,
            images: clone_texts(images),
            last_updated: now,
        };
        let ghost sv = state@;
        match self.find(output_name) {
            Some(i) => {
                let name = self.outputs[i].name.clone();
                self.outputs[i] = NamedOutputState { name, state };
                assert(self@.names =~= before.names);
                assert(self@.states =~= before.states.update(i as int, sv));
            },
            None => {
                self.outputs.push(NamedOutputState { name: owned(output_name), state });
                proof {
                    lemma_first_index_of(before.names, output_name@);
                    assert(self@.names =~= before.names.push(output_name@));
                    assert(self@.states =~= before.states.push(sv));
                }
            },
        }
        self.last_save = now;
    }

    /// The state kept for the output.
    pub fn get_output_state(&self, output_name: &str) -> (r: Option<&OutputState>)
        ensures
            match r {
                Some(s) => self@.get(output_name@) == Some(s@),
                None => self@.get(output_name@) is None,
            },
    {
        match self.find(output_name) {
            Some(i) => Some(&self.outputs[i].state),
            None => None,
        }
    }

    /// Sets whether rotation is paused, as of now.
    pub fn set_paused(&mut self, paused: bool)
        ensures
            final(self)@.global_paused == paused,
            final(self)@.names == old(self)@.names,
            final(self)@.states == old(self)@.states,
    {
        self.set_paused_at(paused, unix_now());
    }

    /// Sets whether rotation is paused, as of `now`.
    pub fn set_paused_at(&mut self, paused: bool, now: i64)
        ensures
            final(self)@ == (SnapshotView {
                global_paused: paused,
                last_save: now,
                ..old(self)@
            }),
    {
        self.global_paused = paused;
        self.last_save = now;
    }

    /// Whether rotation is paused.
    pub fn is_paused(&self) -> (r: bool)
        ensures
            r == self@.global_paused,
    {
        self.global_paused
    }

    /// Whether the snapshot was last changed more than `max_age_hours` whole
    /// hours ago.
    pub fn is_stale(&self, max_age_hours: u64) -> (r: bool)
        ensures
            exists|now: i64| r == (#[trigger] age_hours(now, self@.last_save) > max_age_hours),
    {
        let now = unix_now();
        self.is_stale_at(max_age_hours, now)
    }

    /// Whether the snapshot was last changed more than `max_age_hours` whole
    /// hours before `now`.
    pub fn is_stale_at(&self, max_age_hours: u64, now: i64) -> (r: bool)
        ensures
            r == (age_hours(now, self@.last_save) > max_age_hours),
    {
        is_older_than(now, self.last_save, max_age_hours)
    }

    /// Drops the outputs that were updated more than `max_age_hours` whole
    /// hours ago.
    pub fn cleanup_stale_state(&mut self, max_age_hours: u64)
        requires
            old(self).wf(),
        ensures
            final(self).wf(),
            exists|now: i64|
                final(self)@ == #[trigger] old(self)@.without_stale(now, max_age_hours),
    {
        let now = unix_now();
        self.cleanup_stale_state_at(max_age_hours, now);
    }

    /// Drops the outputs that were updated more than `max_age_hours` whole
    /// hours before `now`.
    pub fn cleanup_stale_state_at(&mut self, max_age_hours: u64, now: i64)
        requires
            old(self).wf(),
        ensures
            final(self).wf(),
            final(self)@ == old(self)@.without_stale(now, max_age_hours),
    {
        let ghost before = self@;
        let mut kept: Vec<NamedOutputState> = Vec::new();
        let mut n: usize = 0;
        let total: usize = self.outputs.len();
        while self.outputs.len() > 0
            invariant
                n + self.outputs@.len() == total,
                total == before.names.len(),
                before.wf(),
                self@.names == before.names.skip(n as int),
                self@.states == before.states.skip(n as int),
                self@.global_paused == before.global_paused,
                self@.last_save == before.last_save,
                kept@.map_values(|o: NamedOutputState| o.name@) == before.fresh_names(
                    n as int,
                    now,
                    max_age_hours,
                ),
                kept@.map_values(|o: NamedOutputState| o.state@) == before.fresh_states(
                    n as int,
                    now,
                    max_age_hours,
                ),
            decreases self.outputs@.len(),
        {
            let ghost k = kept@;
            let ghost rest = self@;
            let ghost o = self.outputs@;
            let entry = self.outputs.remove(0);
            assert(self.outputs@ =~= o.skip(1));
            assert(entry.name@ == rest.names[0]);
            assert(entry.state@ == rest.states[0]);
            assert(self@.names =~= rest.names.skip(1));
            assert(self@.states =~= rest.states.skip(1));
            assert(self@.names =~= before.names.skip(n + 1));
            assert(self@.states =~= before.states.skip(n + 1));
            if !is_older_than(now, entry.state.last_updated, max_age_hours) {
                kept.push(entry);
                assert(kept@.map_values(|o: NamedOutputState| o.name@) =~= k.map_values(
                    |o: NamedOutputState| o.name@,
                ).push(before.names[n as int]));
                assert(kept@.map_values(|o: NamedOutputState| o.state@) =~= k.map_values(
                    |o: NamedOutputState| o.state@,
                ).push(before.states[n as int]));
            }
            n += 1;
        }
        self.outputs = kept;
        proof {
            lemma_fresh_names(before, total as int, now, max_age_hours);
        }
    }
}

} // verus!
