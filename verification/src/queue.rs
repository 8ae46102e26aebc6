//! The rotation queue: an ordered cycle over a set of images with a bounded
//! lookahead buffer, a history, and a pool of images not yet buffered.

use crate::text::{ascending, descending, shuffle, sort_ascending, sort_descending, texts};
use std::collections::VecDeque;
use vstd::prelude::*;

verus! {

/// How the images of a queue are ordered when it is created and each time
/// it starts over.
#[derive(Debug, Clone, Copy, PartialEq, Eq, Structural)]
pub enum Sorting {
    Random,
    Ascending,
    Descending,
}

impl Sorting {
    /// The name of the mode, in small letters.
    pub open spec fn name_text(self) -> Seq<char> {
        match self {
            Sorting::Random => "random"@,
            Sorting::Ascending => "ascending"@,
            Sorting::Descending => "descending"@,
        }
    }

    /// The name of the mode, in small letters.
    pub fn name(&self) -> (r: String)
        ensures
            r@ == self.name_text(),
    {
        match self {
            Sorting::Random => crate::text::owned("random"),
            Sorting::Ascending => crate::text::owned("ascending"),
            Sorting::Descending => crate::text::owned("descending"),
        }
    }
}

/// Whether `r` is an order that the mode allows for the images `s`: the one
/// sorted order for the ordered modes, any rearrangement for `Random`.
pub open spec fn ordered(sorting: Sorting, s: Seq<Seq<char>>, r: Seq<Seq<char>>) -> bool {
    match sorting {
        Sorting::Random => r.to_multiset() == s.to_multiset(),
        Sorting::Ascending => r == ascending(s),
        Sorting::Descending => r == descending(s),
    }
}

/// The lookahead that a configured capacity stands for: a capacity of zero
/// still looks one image ahead.
pub open spec fn lookahead(capacity: nat) -> nat {
    if capacity == 0 {
        1
    } else {
        capacity
    }
}

/// What a queue holds, as texts.
pub struct QueueView {
    /// The images shown before the current one, oldest first.
    pub history: Seq<Seq<char>>,
    /// The image being shown.
    pub current: Option<Seq<char>>,
    /// The images that come next, in order.
    pub buffer: Seq<Seq<char>>,
    /// The images that follow the buffer, in order.
    pub pool: Seq<Seq<char>>,
    /// The configured size of the buffer.
    pub capacity: nat,
    pub sorting: Sorting,
}

impl QueueView {
    /// The images that follow the current one: the buffer, then the pool.
    pub open spec fn upcoming(self) -> Seq<Seq<char>> {
        self.buffer + self.pool
    }

    /// Every image of the queue, in the order in which a pass shows them:
    /// history, current, buffer, pool.
    pub open spec fn all_images(self) -> Seq<Seq<char>> {
        match self.current {
            Some(c) => self.history.push(c) + self.upcoming(),
            None => self.history + self.upcoming(),
        }
    }

    /// The queue with this history, current image and upcoming images, the
    /// buffer holding as many of the upcoming images as the lookahead allows.
    pub open spec fn arranged(
        history: Seq<Seq<char>>,
        current: Seq<char>,
        upcoming: Seq<Seq<char>>,
        capacity: nat,
        sorting: Sorting,
    ) -> QueueView {
        let k = if upcoming.len() < lookahead(capacity) {
            upcoming.len()
        } else {
            lookahead(capacity)
        };
        QueueView {
            history,
            current: Some(current),
            buffer: upcoming.take(k as int),
            pool: upcoming.skip(k as int),
            capacity,
            sorting,
        }
    }

    /// A current image is there, the buffer is within the lookahead, and the
    /// pool holds only what the buffer has no room for.
    pub open spec fn wf(self) -> bool {
        &&& self.current is Some
        &&& self.buffer.len() <= lookahead(self.capacity)
        &&& self.pool.len() > 0 ==> self.buffer.len() == lookahead(self.capacity)
    }

    /// The queue as `Queue::new` leaves it for this capacity, mode and image
    /// set: nothing shown yet, the images in an order that the mode allows.
    pub open spec fn created_from(
        self,
        capacity: nat,
        sorting: Sorting,
        images: Seq<Seq<char>>,
    ) -> bool {
        &&& self.wf()
        &&& self.history.len() == 0
        &&& self.capacity == capacity
        &&& self.sorting == sorting
        &&& ordered(sorting, images, self.all_images())
    }

    /// Whether `next` is one step of the queue forward from `self`.
    ///
    /// With two or more images upcoming the first of them becomes current and
    /// the old current joins the history. With one upcoming it becomes
    /// current and the queue starts over: everything shown so far is ordered
    /// anew and becomes the upcoming images. With none upcoming the queue
    /// starts over with all its images, the first of the new order current.
    pub open spec fn advances_to(self, next: QueueView) -> bool {
        let shown = self.history.push(self.current.unwrap());
        let up = self.upcoming();
        if up.len() >= 2 {
            next == QueueView::arranged(shown, up[0], up.skip(1), self.capacity, self.sorting)
        } else {
            &&& next.wf()
            &&& next.history.len() == 0
            &&& next.capacity == self.capacity
            &&& next.sorting == self.sorting
            &&& if up.len() == 1 {
                &&& next.current == Some(up[0])
                &&& ordered(self.sorting, shown, next.upcoming())
            } else {
                ordered(self.sorting, shown, next.all_images())
            }
        }
    }

    /// The queue one step back: the last image of the history is current
    /// again and the old current is the first upcoming. With an empty history
    /// nothing changes.
    pub open spec fn retreated(self) -> QueueView {
        if self.history.len() == 0 {
            self
        } else {
            QueueView::arranged(
                self.history.drop_last(),
                self.history.last(),
                seq![self.current.unwrap()] + self.upcoming(),
                self.capacity,
                self.sorting,
            )
        }
    }

    /// The queue with exactly `position` images before the current one, the
    /// order of its images unchanged.
    pub open spec fn positioned(self, position: int) -> QueueView {
        let all = self.all_images();
        QueueView::arranged(
            all.take(position),
            all[position],
            all.skip(position + 1),
            self.capacity,
            self.sorting,
        )
    }
}

/// An arranged queue is well formed, and holds what it was arranged from.
pub proof fn lemma_arranged(
    history: Seq<Seq<char>>,
    current: Seq<char>,
    upcoming: Seq<Seq<char>>,
    capacity: nat,
    sorting: Sorting,
)
    ensures
        QueueView::arranged(history, current, upcoming, capacity, sorting).wf(),
        QueueView::arranged(history, current, upcoming, capacity, sorting).upcoming() == upcoming,
        QueueView::arranged(history, current, upcoming, capacity, sorting).all_images()
            == history.push(current) + upcoming,
{
    let q = QueueView::arranged(history, current, upcoming, capacity, sorting);
    assert(q.upcoming() =~= upcoming);
}

/// A well-formed queue is the arrangement of its own parts.
pub proof fn lemma_wf_is_arranged(q: QueueView)
    requires
        q.wf(),
    ensures
        q == QueueView::arranged(
            q.history,
            q.current.unwrap(),
            q.upcoming(),
            q.capacity,
            q.sorting,
        ),
{
    let a = QueueView::arranged(
        q.history,
        q.current.unwrap(),
        q.upcoming(),
        q.capacity,
        q.sorting,
    );
    assert(a.buffer =~= q.buffer);
    assert(a.pool =~= q.pool);
}

/// An order that a mode allows holds the same images as what was ordered.
pub proof fn lemma_ordered_same_images(sorting: Sorting, s: Seq<Seq<char>>, r: Seq<Seq<char>>)
    requires
        ordered(sorting, s, r),
    ensures
        r.to_multiset() == s.to_multiset(),
        r.len() == s.len(),
{
    crate::text::lemma_text_order_total();
    s.lemma_sort_by_ensures(crate::text::text_order());
    ascending(s).lemma_reverse_to_multiset();
    vstd::seq_lib::to_multiset_len(r);
    vstd::seq_lib::to_multiset_len(s);
}

/// A rotation queue over image paths.
#[derive(Debug)]
pub struct Queue {
    buffer: VecDeque<String>,
    current: Option<String>,
    tail: VecDeque<String>,
    size: usize,
    sorting: Sorting,
    images: Vec<String>,
}

impl View for Queue {
    type V = QueueView;

    closed spec fn view(&self) -> QueueView {
        QueueView {
            history: texts(self.tail@),
            current: match self.current {
                Some(s) => Some(s@),
                None => None,
            },
            buffer: texts(self.buffer@),
            pool: texts(self.images@),
            capacity: self.size as nat,
            sorting: self.sorting,
        }
    }
}

/// A copy of each string of the queue.
fn clone_deque(d: &VecDeque<String>) -> (r: VecDeque<String>)
    ensures
        texts(r@) == texts(d@),
{
    let mut out: VecDeque<String> = VecDeque::new();
    let mut i: usize = 0;
    while i < d.len()
        invariant
            i <= d@.len(),
            texts(out@) == texts(d@).take(i as int),
        decreases d@.len() - i,
    {
        let ghost o = out@;
        out.push_back(d[i].clone());
        assert(texts(out@) =~= texts(o).push(d@[i as int]@));
        i += 1;
        assert(texts(out@) =~= texts(d@).take(i as int));
    }
    assert(texts(out@) =~= texts(d@));
    out
}

impl Clone for Queue {
    fn clone(&self) -> (r: Queue)
        ensures
            r@ == self@,
    {
        Queue {
            buffer: clone_deque(&self.buffer),
            current: match &self.current {
                Some(c) => Some(c.clone()),
                None => None,
            },
            tail: clone_deque(&self.tail),
            size: self.size,
            sorting: self.sorting,
            images: crate::text::clone_texts(&self.images),
        }
    }
}

/// Puts the strings into an order that the mode allows.
fn arrange(sorting: Sorting, images: &mut Vec<String>)
    ensures
        ordered(sorting, texts(old(images)@), texts(final(images)@)),
{
    match sorting {
        Sorting::Random => shuffle(images),
        Sorting::Ascending => sort_ascending(images),
        Sorting::Descending => sort_descending(images),
    }
}

/// Moves every string of `src`, front first, to the back of `dst`.
fn drain_into(dst: &mut Vec<String>, src: &mut VecDeque<String>)
    ensures
        final(dst)@ == old(dst)@ + old(src)@,
        final(src)@.len() == 0,
{
    while src.len() > 0
        invariant
            dst@ + src@ == old(dst)@ + old(src)@,
        decreases src@.len(),
    {
        let ghost d = dst@;
        let ghost r = src@;
        let x = src.pop_front().unwrap();
        dst.push(x);
        assert(dst@ + src@ =~= d + r);
    }
    assert(dst@ =~= dst@ + src@);
}

impl Queue {
    /// The queue is well formed, and its images can be counted.
    pub open spec fn wf(&self) -> bool {
        &&& self@.wf()
        &&& self@.all_images().len() <= usize::MAX
    }

    /// A queue over `images` with a lookahead buffer of `size` images, or
    /// `None` if there are no images. The images are ordered once, as the
    /// mode says; the first is current and the buffer is filled from the
    /// rest.
    pub fn new(size: usize, sorting: Sorting, images: Vec<String>) -> (r: Option<Queue>)
        ensures
            r is None <==> images@.len() == 0,
            r matches Some(q) ==> q.wf() && q@.created_from(
                size as nat,
                sorting,
                texts(images@),
            ),
    {
        if images.len() == 0 {
            return None;
        }
        let ghost given = texts(images@);
        let mut images = images;
        arrange(sorting, &mut images);
        proof {
            lemma_ordered_same_images(sorting, given, texts(images@));
        }
        let ghost order = texts(images@);
        let first = images.remove(0);
        let mut queue = Queue {
            buffer: VecDeque::new(),
            current: Some(first),
            tail: VecDeque::new(),
            size,
            sorting,
            images,
        };
        assert(queue@.all_images() =~= order);
        queue.refill();
        Some(queue)
    }

    /// The lookahead of this queue.
    fn lookahead(&self) -> (k: usize)
        ensures
            k == lookahead(self@.capacity),
    {
        if self.size == 0 {
            1
        } else {
            self.size
        }
    }

    /// Moves images from the front of the pool to the back of the buffer
    /// until the buffer is as long as the lookahead or the pool is empty.
    fn refill(&mut self)
        requires
            old(self)@.current is Some,
            old(self)@.buffer.len() <= lookahead(old(self)@.capacity),
        ensures
            final(self)@.wf(),
            final(self)@.history == old(self)@.history,
            final(self)@.current == old(self)@.current,
            final(self)@.upcoming() == old(self)@.upcoming(),
            final(self)@.all_images() == old(self)@.all_images(),
            final(self)@.capacity == old(self)@.capacity,
            final(self)@.sorting == old(self)@.sorting,
    {
        let k = self.lookahead();
        while self.buffer.len() < k && self.images.len() > 0
            invariant
                k == lookahead(self@.capacity),
                self@.history == old(self)@.history,
                self@.current == old(self)@.current,
                self@.upcoming() == old(self)@.upcoming(),
                self@.capacity == old(self)@.capacity,
                self@.sorting == old(self)@.sorting,
                self@.buffer.len() <= k,
            decreases self.images@.len(),
        {
            let ghost before = self@;
            let image = self.images.remove(0);
            self.buffer.push_back(image);
            assert(self@.upcoming() =~= before.upcoming());
        }
    }

    /// Starts the queue over: everything shown so far goes back to the pool,
    /// ordered anew as the mode says.
    fn restart(&mut self)
        requires
            old(self)@.upcoming().len() == 0,
        ensures
            final(self)@.history.len() == 0,
            final(self)@.buffer.len() == 0,
            ordered(old(self)@.sorting, old(self)@.history, final(self)@.pool),
            final(self)@.current == old(self)@.current,
            final(self)@.capacity == old(self)@.capacity,
            final(self)@.sorting == old(self)@.sorting,
    {
        let mut shown: Vec<String> = Vec::new();
        drain_into(&mut shown, &mut self.tail);
        arrange(self.sorting, &mut shown);
        self.images = shown;
        assert(self@.buffer =~= Seq::empty());
    }

    /// Moves the queue one image forward and returns the image that is now
    /// current. The old current image joins the history and the first
    /// upcoming image becomes current. When that leaves nothing upcoming, the
    /// queue starts over: everything shown goes back to the pool, ordered
    /// anew. A queue therefore never runs dry.
    pub fn next(&mut self) -> (r: Option<&String>)
        requires
            old(self).wf(),
        ensures
            final(self).wf(),
            old(self)@.advances_to(final(self)@),
            final(self)@.all_images().to_multiset() == old(self)@.all_images().to_multiset(),
            r matches Some(s) && Some(s@) == final(self)@.current,
    {
        let ghost before = self@;
        let ghost shown = before.history.push(before.current.unwrap());
        let ghost up = before.upcoming();
        match self.current.take() {
            Some(c) => self.tail.push_back(c),
            None => {},
        }
        self.current = self.buffer.pop_front();
        assert(self@.history =~= shown);
        if self.current.is_some() {
            assert(self@.upcoming() =~= up.skip(1));
            self.refill();
            if self.buffer.len() == 0 {
                self.restart();
                self.refill();
            } else {
                proof {
                    lemma_wf_is_arranged(self@);
                }
            }
        } else {
            self.restart();
            let ghost order = self@.pool;
            proof {
                lemma_ordered_same_images(before.sorting, shown, order);
            }
            let first = self.images.remove(0);
            self.current = Some(first);
            assert(self@.all_images() =~= order);
            self.refill();
        }
        proof {
            lemma_advance_keeps_images(before, self@);
        }
        self.current.as_ref()
    }

    /// Moves the queue one image back and returns the image that is now
    /// current, or `None`, changing nothing, when the history is empty. The
    /// old current image becomes the first upcoming one.
    pub fn previous(&mut self) -> (r: Option<&String>)
        requires
            old(self).wf(),
        ensures
            final(self).wf(),
            final(self)@ == old(self)@.retreated(),
            final(self)@.all_images() == old(self)@.all_images(),
            r is Some <==> old(self)@.history.len() > 0,
            r matches Some(s) ==> Some(s@) == final(self)@.current,
    {
        if self.tail.len() == 0 {
            return None;
        }
        let ghost before = self@;
        let k = self.lookahead();
        match self.current.take() {
            Some(c) => self.buffer.push_front(c),
            None => {},
        }
        if self.buffer.len() > k {
            let last = self.buffer.pop_back().unwrap();
            self.images.insert(0, last);
        }
        self.current = self.tail.pop_back();
        proof {
            assert(self@.upcoming() =~= seq![before.current.unwrap()] + before.upcoming());
            assert(self@.history =~= before.history.drop_last());
            lemma_wf_is_arranged(self@);
            assert(self@.all_images() =~= before.all_images());
        }
        self.current.as_ref()
    }

    /// Rebuilds the queue so that exactly `position` images come before the
    /// current one, in the order that the images have now. Returns `false`,
    /// changing nothing, when the queue has no image at `position`.
    pub fn set_position(&mut self, position: usize) -> (r: bool)
        requires
            old(self).wf(),
        ensures
            final(self).wf(),
            r == (position < old(self)@.all_images().len()),
            r ==> final(self)@ == old(self)@.positioned(position as int),
            r ==> final(self)@.history.len() == position,
            !r ==> final(self)@ == old(self)@,
            final(self)@.all_images() == old(self)@.all_images(),
    {
        let ghost before = self@;
        let total = self.tail.len() + self.buffer.len() + self.images.len() + 1;
        if position >= total {
            return false;
        }
        let mut all: Vec<String> = Vec::new();
        drain_into(&mut all, &mut self.tail);
        match self.current.take() {
            Some(c) => all.push(c),
            None => {},
        }
        drain_into(&mut all, &mut self.buffer);
        all.append(&mut self.images);
        assert(texts(all@) =~= before.all_images());
        let mut rest = all.split_off(position);
        crate::text::reverse(&mut all);
        while all.len() > 0
            invariant
                all@.len() <= position,
                texts(self.tail@) + texts(all@.reverse()) + texts(rest@) == before.all_images(),
                self.tail@.len() + all@.len() == position,
                self.buffer@.len() == 0,
                self.images@.len() == 0,
                self.size == before.capacity,
                self.sorting == before.sorting,
            decreases all@.len(),
        {
            let ghost t = self.tail@;
            let ghost a = all@;
            let x = all.pop().unwrap();
            self.tail.push_back(x);
            assert(texts(self.tail@) + texts(all@.reverse()) =~= texts(t) + texts(a.reverse()));
        }
        assert(texts(self.tail@) + texts(rest@) =~= before.all_images());
        assert(texts(self.tail@) =~= before.all_images().take(position as int));
        let first = rest.remove(0);
        assert(first@ == before.all_images()[position as int]);
        self.current = Some(first);
        self.images = rest;
        assert(self@.upcoming() =~= before.all_images().skip(position + 1));
        assert(self@.all_images() =~= before.all_images());
        self.refill();
        proof {
            lemma_wf_is_arranged(self@);
        }
        true
    }

    /// Every image of the queue, in the order in which a pass shows them:
    /// history, current, buffer, pool.
    pub fn get_all_images(&self) -> (r: Vec<String>)
        ensures
            texts(r@) == self@.all_images(),
    {
        let mut all: Vec<String> = Vec::new();
        let mut i: usize = 0;
        while i < self.tail.len()
            invariant
                i <= self.tail@.len(),
                texts(all@) == texts(self.tail@).take(i as int),
            decreases self.tail@.len() - i,
        {
            let ghost a = all@;
            all.push(self.tail[i].clone());
            assert(texts(all@) =~= texts(a).push(self.tail@[i as int]@));
            i += 1;
            assert(texts(all@) =~= texts(self.tail@).take(i as int));
        }
        assert(texts(all@) =~= self@.history);
        match &self.current {
            Some(c) => {
                let ghost a = all@;
                all.push(c.clone());
                assert(texts(all@) =~= texts(a).push(c@));
            },
            None => {},
        }
        let ghost head = texts(all@);
        let mut j: usize = 0;
        while j < self.buffer.len()
            invariant
                j <= self.buffer@.len(),
                texts(all@) == head + texts(self.buffer@).take(j as int),
            decreases self.buffer@.len() - j,
        {
            let ghost a = all@;
            all.push(self.buffer[j].clone());
            assert(texts(all@) =~= texts(a).push(self.buffer@[j as int]@));
            j += 1;
            assert(texts(all@) =~= head + texts(self.buffer@).take(j as int));
        }
        let ghost mid = texts(all@);
        assert(mid =~= head + self@.buffer);
        let mut k: usize = 0;
        while k < self.images.len()
            invariant
                k <= self.images@.len(),
                texts(all@) == mid + texts(self.images@).take(k as int),
            decreases self.images@.len() - k,
        {
            let ghost a = all@;
            all.push(self.images[k].clone());
            assert(texts(all@) =~= texts(a).push(self.images@[k as int]@));
            k += 1;
            assert(texts(all@) =~= mid + texts(self.images@).take(k as int));
        }
        assert(texts(all@) =~= self@.all_images());
        all
    }

    /// Whether the buffer holds as many images as the configured size.
    pub fn is_full(&self) -> (r: bool)
        ensures
            r == (self@.buffer.len() >= self@.capacity),
    {
        self.buffer.len() >= self.size
    }

    /// The image being shown.
    pub fn current_image(&self) -> (r: Option<&String>)
        ensures
            r is Some <==> self@.current is Some,
            r matches Some(s) ==> Some(s@) == self@.current,
    {
        self.current.as_ref()
    }

    /// How many images were shown before the current one.
    pub fn current_position(&self) -> (r: usize)
        ensures
            r == self@.history.len(),
    {
        self.tail.len()
    }

    /// The number of images in history and buffer, and one for the current
    /// image.
    pub fn size(&self) -> (r: usize)
        requires
            self.wf(),
        ensures
            r == self@.history.len() + self@.buffer.len() + 1,
    {
        self.tail.len() + self.buffer.len() + 1
    }

    /// The configured size of the lookahead buffer.
    pub fn capacity(&self) -> (r: usize)
        ensures
            r == self@.capacity,
    {
        self.size
    }

    /// The mode by which this queue orders its images.
    pub fn get_sorting(&self) -> (r: Sorting)
        ensures
            r == self@.sorting,
    {
        self.sorting
    }
}

/// A step forward keeps the queue well formed and keeps its images.
pub proof fn lemma_advance_keeps_images(q: QueueView, next: QueueView)
    requires
        q.wf(),
        q.advances_to(next),
    ensures
        next.wf(),
        next.all_images().to_multiset() == q.all_images().to_multiset(),
        next.all_images().len() == q.all_images().len(),
        next.capacity == q.capacity,
        next.sorting == q.sorting,
{
    let shown = q.history.push(q.current.unwrap());
    let up = q.upcoming();
    if up.len() >= 2 {
        lemma_arranged(shown, up[0], up.skip(1), q.capacity, q.sorting);
        assert(next.all_images() =~= q.all_images());
    } else if up.len() == 1 {
        lemma_ordered_same_images(q.sorting, shown, next.upcoming());
        let one = seq![up[0]];
        assert(next.all_images() =~= one + next.upcoming());
        assert(q.all_images() =~= shown + one);
        vstd::seq_lib::lemma_multiset_commutative(one, next.upcoming());
        vstd::seq_lib::lemma_multiset_commutative(shown, one);
        broadcast use vstd::multiset::group_multiset_axioms;
        assert(one.to_multiset().add(shown.to_multiset()) =~= shown.to_multiset().add(
            one.to_multiset(),
        ));
    } else {
        lemma_ordered_same_images(q.sorting, shown, next.all_images());
        assert(q.all_images() =~= shown);
    }
    vstd::seq_lib::to_multiset_len(next.all_images());
    vstd::seq_lib::to_multiset_len(q.all_images());
}

/// Two sequences with the same elements, each as often, contain the same
/// values.
pub proof fn lemma_same_images_contains(a: Seq<Seq<char>>, b: Seq<Seq<char>>, x: Seq<char>)
    requires
        a.to_multiset() == b.to_multiset(),
        a.contains(x),
    ensures
        b.contains(x),
{
    vstd::seq_lib::to_multiset_contains(a, x);
    vstd::seq_lib::to_multiset_contains(b, x);
}

/// A step forward followed at once by a step back leaves the queue as it
/// was, unless the step forward started the queue over (which it does when
/// fewer than two images are upcoming).
pub proof fn lemma_advance_then_retreat(q: QueueView, next: QueueView)
    requires
        q.wf(),
        q.advances_to(next),
        q.upcoming().len() >= 2,
    ensures
        next.retreated() == q,
        next.retreated().current == q.current,
{
    let shown = q.history.push(q.current.unwrap());
    let up = q.upcoming();
    lemma_arranged(shown, up[0], up.skip(1), q.capacity, q.sorting);
    assert(shown.drop_last() =~= q.history);
    assert(seq![up[0]] + up.skip(1) =~= up);
    lemma_wf_is_arranged(q);
}

/// A queue of a single image steps forward onto itself.
pub proof fn lemma_single_image_cycles(q: QueueView, next: QueueView)
    requires
        q.wf(),
        q.all_images().len() == 1,
        q.advances_to(next),
    ensures
        next == q,
        next.current == q.current,
{
    broadcast use vstd::seq_lib::group_to_multiset_ensures;

    let c = q.current.unwrap();
    let shown = q.history.push(c);
    assert(q.history =~= Seq::empty());
    assert(q.upcoming() =~= Seq::empty());
    assert(q.buffer =~= Seq::empty());
    assert(q.pool =~= Seq::empty());
    lemma_ordered_same_images(q.sorting, shown, next.all_images());
    let all = next.all_images();
    assert(shown[0] == c);
    assert(shown.contains(c));
    lemma_same_images_contains(shown, all, c);
    assert(all[0] == c);
    assert(next.upcoming().len() == 0);
    assert(next.history =~= Seq::empty());
    assert(next.buffer =~= Seq::empty());
    assert(next.pool =~= Seq::empty());
}

/// Seeking to a position that the queue has puts exactly that many images
/// before the current one, which is then the image at that position; the
/// images and their order stay.
pub proof fn lemma_seek_position(q: QueueView, position: int)
    requires
        q.wf(),
        0 <= position < q.all_images().len(),
    ensures
        q.positioned(position).wf(),
        q.positioned(position).history.len() == position,
        q.positioned(position).current == Some(q.all_images()[position]),
        q.positioned(position).all_images() == q.all_images(),
{
    let all = q.all_images();
    lemma_arranged(
        all.take(position),
        all[position],
        all.skip(position + 1),
        q.capacity,
        q.sorting,
    );
    assert(all.take(position).push(all[position]) + all.skip(position + 1) =~= all);
}

/// Whether each queue of `run` is one step forward from the one before it.
pub open spec fn is_run(run: Seq<QueueView>) -> bool {
    forall|i: int| 0 <= i < run.len() - 1 ==> (#[trigger] run[i]).advances_to(run[i + 1])
}

/// Every queue of a run is well formed and holds as many images as the
/// first.
pub proof fn lemma_run_keeps_images(run: Seq<QueueView>, k: int)
    requires
        run.len() > 0,
        run[0].wf(),
        is_run(run),
        0 <= k < run.len(),
    ensures
        run[k].wf(),
        run[k].all_images().to_multiset() == run[0].all_images().to_multiset(),
        run[k].all_images().len() == run[0].all_images().len(),
    decreases k,
{
    if k > 0 {
        lemma_run_keeps_images(run, k - 1);
        assert(run[k - 1].advances_to(run[k - 1 + 1]));
        lemma_advance_keeps_images(run[k - 1], run[k]);
    }
}

/// The image at place `i` of the upcoming images is current after `i + 1`
/// steps.
pub proof fn lemma_upcoming_becomes_current(run: Seq<QueueView>, i: int)
    requires
        run.len() >= i + 2,
        run[0].wf(),
        is_run(run),
        0 <= i < run[0].upcoming().len(),
    ensures
        run[i + 1].current == Some(run[0].upcoming()[i]),
    decreases i,
{
    let q = run[0];
    let up = q.upcoming();
    let shown = q.history.push(q.current.unwrap());
    assert(q.advances_to(run[0int + 1]));
    if i > 0 {
        lemma_arranged(shown, up[0], up.skip(1), q.capacity, q.sorting);
        let rest = run.skip(1);
        assert forall|j: int| 0 <= j < rest.len() - 1 implies (#[trigger] rest[j]).advances_to(
            rest[j + 1],
        ) by {
            assert(run[j + 1].advances_to(run[j + 1 + 1]));
        }
        lemma_upcoming_becomes_current(rest, i - 1);
    }
}

/// An image that is current or in the history is current again within as
/// many steps as there are upcoming images and images in all.
proof fn lemma_shown_comes_back(run: Seq<QueueView>, image: Seq<char>) -> (k: int)
    requires
        run.len() > 0,
        run[0].wf(),
        is_run(run),
        run[0].history.push(run[0].current.unwrap()).contains(image),
        run.len() >= run[0].upcoming().len() + run[0].all_images().len() + 1,
    ensures
        1 <= k < run.len(),
        run[k].current == Some(image),
    decreases run[0].upcoming().len(),
{
    broadcast use vstd::seq_lib::group_to_multiset_ensures;

    let q = run[0];
    let up = q.upcoming();
    let shown = q.history.push(q.current.unwrap());
    let next = run[1];
    assert(q.advances_to(run[0int + 1]));
    lemma_advance_keeps_images(q, next);
    let rest = run.skip(1);
    assert forall|j: int| 0 <= j < rest.len() - 1 implies (#[trigger] rest[j]).advances_to(
        rest[j + 1],
    ) by {
        assert(run[j + 1].advances_to(run[j + 1 + 1]));
    }
    if up.len() >= 2 {
        lemma_arranged(shown, up[0], up.skip(1), q.capacity, q.sorting);
        let i = choose|i: int| 0 <= i < shown.len() && shown[i] == image;
        assert(next.history.push(next.current.unwrap())[i] == image);
        let k = lemma_shown_comes_back(rest, image);
        k + 1
    } else if up.len() == 1 {
        lemma_ordered_same_images(q.sorting, shown, next.upcoming());
        lemma_same_images_contains(shown, next.upcoming(), image);
        let j = choose|j: int| 0 <= j < next.upcoming().len() && next.upcoming()[j] == image;
        assert(q.all_images().len() == shown.len() + 1);
        lemma_upcoming_becomes_current(rest, j);
        j + 2
    } else {
        lemma_ordered_same_images(q.sorting, shown, next.all_images());
        let all = next.all_images();
        lemma_same_images_contains(shown, all, image);
        let j = choose|j: int| 0 <= j < all.len() && all[j] == image;
        if j == 0 {
            1
        } else {
            assert(next.upcoming()[j - 1] == image);
            lemma_upcoming_becomes_current(rest, j - 1);
            j + 1
        }
    }
}

/// Stepping forward shows every image again: take any run of steps from a
/// well-formed queue that is at least twice as long as the queue has images.
/// Then each image of the queue is current after one of those steps, however
/// a random mode arranges the images when the queue starts over.
pub proof fn lemma_every_image_returns(run: Seq<QueueView>, image: Seq<char>)
    requires
        run.len() > 0,
        run[0].wf(),
        is_run(run),
        run[0].all_images().contains(image),
        run.len() >= 2 * run[0].all_images().len(),
    ensures
        exists|k: int| 1 <= k < run.len() && (#[trigger] run[k]).current == Some(image),
{
    let q = run[0];
    let up = q.upcoming();
    let shown = q.history.push(q.current.unwrap());
    let all = q.all_images();
    let i = choose|i: int| 0 <= i < all.len() && all[i] == image;
    if i < shown.len() {
        assert(shown[i] == image);
        let k = lemma_shown_comes_back(run, image);
        assert(run[k].current == Some(image));
    } else {
        assert(up[i - shown.len()] == image);
        lemma_upcoming_becomes_current(run, i - shown.len());
        assert(run[i - shown.len() + 1].current == Some(image));
    }
}

} // verus!
