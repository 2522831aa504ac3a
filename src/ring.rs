use vstd::prelude::*;

use circular_queue::CircularQueue;

use crate::tweet::{BackPressureEntry, ProcessedTweet};

verus! {

#[verifier::external_type_specification]
#[verifier::external_body]
#[verifier::reject_recursive_types(T)]
pub struct ExCircularQueue<T>(CircularQueue<T>);

/// What a ring of posts holds, oldest first.
pub uninterp spec fn posts_held(q: CircularQueue<ProcessedTweet>) -> Seq<ProcessedTweet>;

/// The capacity a ring of posts was made with.
pub uninterp spec fn posts_capacity(q: CircularQueue<ProcessedTweet>) -> nat;

/// What a ring of latency samples holds, oldest first.
pub uninterp spec fn samples_held(q: CircularQueue<BackPressureEntry>) -> Seq<BackPressureEntry>;

/// The capacity a ring of latency samples was made with.
pub uninterp spec fn samples_capacity(q: CircularQueue<BackPressureEntry>) -> nat;

/// `s` after pushing `x` into a ring of capacity `cap`: the oldest item
/// leaves once the ring is full, and a ring of capacity zero keeps nothing.
pub open spec fn push_bounded<T>(s: Seq<T>, x: T, cap: nat) -> Seq<T> {
    if cap == 0 {
        s
    } else if s.len() < cap {
        s.push(x)
    } else {
        s.push(x).drop_first()
    }
}

/// The last `n` items of `s`.
pub open spec fn last_n<T>(s: Seq<T>, n: nat) -> Seq<T> {
    if s.len() <= n {
        s
    } else {
        s.skip(s.len() - n)
    }
}

/// A ring of capacity `cap` after the pushes `pushes`, from empty.
pub open spec fn ring_after<T>(pushes: Seq<T>, cap: nat) -> Seq<T>
    decreases pushes.len(),
{
    if pushes.len() == 0 {
        Seq::empty()
    } else {
        push_bounded(ring_after(pushes.drop_last(), cap), pushes.last(), cap)
    }
}

/// A ring never holds more than its capacity, and holds exactly the last
/// `cap` items pushed into it, in the order they were pushed.
pub proof fn lemma_ring_bounds<T>(pushes: Seq<T>, cap: nat)
    ensures
        ring_after(pushes, cap).len() <= cap,
        ring_after(pushes, cap) == last_n(pushes, cap),
    decreases pushes.len(),
{
    if pushes.len() > 0 {
        let init = pushes.drop_last();
        lemma_ring_bounds(init, cap);
        if cap == 0 {
            assert(last_n(pushes, cap) =~= Seq::<T>::empty());
        } else if init.len() < cap {
            assert(init.push(pushes.last()) =~= pushes);
        } else {
            assert(last_n(init, cap).push(pushes.last()).drop_first() =~= last_n(pushes, cap));
        }
    }
}

/// Relies on circular_queue's `CircularQueue::with_capacity`: an empty ring
/// of the given capacity.
#[verifier::external_body]
fn new_post_ring(capacity: usize) -> (r: CircularQueue<ProcessedTweet>)
    ensures
        posts_held(r) == Seq::<ProcessedTweet>::empty(),
        posts_capacity(r) == capacity,
{
    CircularQueue::with_capacity(capacity)
}

/// Relies on circular_queue's `CircularQueue::push`: appends, dropping the
/// oldest item when the ring is full; the capacity stays.
#[verifier::external_body]
fn push_post(q: &mut CircularQueue<ProcessedTweet>, x: ProcessedTweet)
    ensures
        posts_held(*final(q)) == push_bounded(posts_held(*old(q)), x, posts_capacity(*old(q))),
        posts_capacity(*final(q)) == posts_capacity(*old(q)),
{
    q.push(x);
}

/// Relies on circular_queue's `CircularQueue::iter`: the items from newest to
/// oldest.
#[verifier::external_body]
fn posts_newest_first(q: &CircularQueue<ProcessedTweet>) -> (r: Vec<ProcessedTweet>)
    ensures
        r@ == posts_held(*q).reverse(),
{
    q.iter().copied().collect()
}

/// Relies on circular_queue's `CircularQueue::with_capacity`: an empty ring
/// of the given capacity.
#[verifier::external_body]
fn new_sample_ring(capacity: usize) -> (r: CircularQueue<BackPressureEntry>)
    ensures
        samples_held(r) == Seq::<BackPressureEntry>::empty(),
        samples_capacity(r) == capacity,
{
    CircularQueue::with_capacity(capacity)
}

/// Relies on circular_queue's `CircularQueue::push`: appends, dropping the
/// oldest item when the ring is full; the capacity stays.
#[verifier::external_body]
fn push_sample(q: &mut CircularQueue<BackPressureEntry>, x: BackPressureEntry)
    ensures
        samples_held(*final(q)) == push_bounded(samples_held(*old(q)), x, samples_capacity(*old(q))),
        samples_capacity(*final(q)) == samples_capacity(*old(q)),
{
    q.push(x);
}

/// Relies on circular_queue's `CircularQueue::iter`: the items from newest to
/// oldest.
#[verifier::external_body]
fn samples_newest_first(q: &CircularQueue<BackPressureEntry>) -> (r: Vec<BackPressureEntry>)
    ensures
        r@ == samples_held(*q).reverse(),
{
    q.iter().copied().collect()
}

/// How many processed posts are kept.
pub const NUM_PROCESSED_TWEETS_STORED: usize = 400;

/// How many latency samples are kept.
pub const NUM_BACK_PRESSURE_ENTRIES_STORED: usize = 400;

/// The latency samples, newest first.
pub struct BackPressureData {
    pub data: Vec<BackPressureEntry>,
}

/// The shared state: the most recent processed posts and latency samples.
pub struct Rings {
    processed_tweets: CircularQueue<ProcessedTweet>,
    back_pressure_entries: CircularQueue<BackPressureEntry>,
    pushed_posts: Ghost<Seq<ProcessedTweet>>,
    pushed_samples: Ghost<Seq<BackPressureEntry>>,
}

impl Rings {
    /// Every post recorded so far, oldest first.
    pub closed spec fn pushed_posts(&self) -> Seq<ProcessedTweet> {
        self.pushed_posts@
    }

    /// Every latency sample recorded so far, oldest first.
    pub closed spec fn pushed_samples(&self) -> Seq<BackPressureEntry> {
        self.pushed_samples@
    }

    /// The posts held, oldest first.
    pub closed spec fn posts(&self) -> Seq<ProcessedTweet> {
        posts_held(self.processed_tweets)
    }

    /// The latency samples held, oldest first.
    pub closed spec fn samples(&self) -> Seq<BackPressureEntry> {
        samples_held(self.back_pressure_entries)
    }

    /// Each ring holds the last pushes that fit, oldest first.
    pub closed spec fn wf(&self) -> bool {
        &&& posts_capacity(self.processed_tweets) == NUM_PROCESSED_TWEETS_STORED
        &&& samples_capacity(self.back_pressure_entries) == NUM_BACK_PRESSURE_ENTRIES_STORED
        &&& self.posts() == ring_after(self.pushed_posts(), NUM_PROCESSED_TWEETS_STORED as nat)
        &&& self.samples() == ring_after(self.pushed_samples(), NUM_BACK_PRESSURE_ENTRIES_STORED as nat)
    }

    /// Two empty rings.
    pub fn new() -> (r: Rings)
        ensures
            r.wf(),
            r.pushed_posts() == Seq::<ProcessedTweet>::empty(),
            r.pushed_samples() == Seq::<BackPressureEntry>::empty(),
            r.posts() == Seq::<ProcessedTweet>::empty(),
            r.samples() == Seq::<BackPressureEntry>::empty(),
    {
        Rings {
            processed_tweets: new_post_ring(NUM_PROCESSED_TWEETS_STORED),
            back_pressure_entries: new_sample_ring(NUM_BACK_PRESSURE_ENTRIES_STORED),
            pushed_posts: Ghost(Seq::empty()),
            pushed_samples: Ghost(Seq::empty()),
        }
    }

    /// Records one processed post and its latency sample.
    pub fn push(&mut self, post: ProcessedTweet, sample: BackPressureEntry)
        requires
            old(self).wf(),
        ensures
            final(self).wf(),
            final(self).pushed_posts() == old(self).pushed_posts().push(post),
            final(self).pushed_samples() == old(self).pushed_samples().push(sample),
            final(self).posts() == last_n(final(self).pushed_posts(), NUM_PROCESSED_TWEETS_STORED as nat),
            final(self).samples() == last_n(final(self).pushed_samples(), NUM_BACK_PRESSURE_ENTRIES_STORED as nat),
            final(self).posts().len() <= NUM_PROCESSED_TWEETS_STORED,
            final(self).samples().len() <= NUM_BACK_PRESSURE_ENTRIES_STORED,
    {
        push_post(&mut self.processed_tweets, post);
        push_sample(&mut self.back_pressure_entries, sample);
        self.pushed_posts = Ghost(self.pushed_posts@.push(post));
        self.pushed_samples = Ghost(self.pushed_samples@.push(sample));
        proof {
            assert(self.pushed_posts@.drop_last() =~= old(self).pushed_posts@);
            assert(self.pushed_samples@.drop_last() =~= old(self).pushed_samples@);
            lemma_ring_bounds(self.pushed_posts@, NUM_PROCESSED_TWEETS_STORED as nat);
            lemma_ring_bounds(self.pushed_samples@, NUM_BACK_PRESSURE_ENTRIES_STORED as nat);
        }
    }

    /// Each ring holds the last pushes that fit, and no more than its
    /// capacity.
    pub proof fn lemma_posts_bounded(&self)
        requires
            self.wf(),
        ensures
            self.posts().len() <= NUM_PROCESSED_TWEETS_STORED,
            self.samples().len() <= NUM_BACK_PRESSURE_ENTRIES_STORED,
            self.posts() == last_n(self.pushed_posts(), NUM_PROCESSED_TWEETS_STORED as nat),
            self.samples() == last_n(self.pushed_samples(), NUM_BACK_PRESSURE_ENTRIES_STORED as nat),
    {
        lemma_ring_bounds(self.pushed_posts(), NUM_PROCESSED_TWEETS_STORED as nat);
        lemma_ring_bounds(self.pushed_samples(), NUM_BACK_PRESSURE_ENTRIES_STORED as nat);
    }

    /// The posts held, newest first.
    pub fn processed_tweets(&self) -> (r: Vec<ProcessedTweet>)
        ensures
            r@ == self.posts().reverse(),
    {
        posts_newest_first(&self.processed_tweets)
    }

    /// The latency samples held, newest first.
    pub fn back_pressure_data(&self) -> (r: BackPressureData)
        ensures
            r.data@ == self.samples().reverse(),
    {
        BackPressureData { data: samples_newest_first(&self.back_pressure_entries) }
    }
}

} // verus!
