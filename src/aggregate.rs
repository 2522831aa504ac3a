use vstd::prelude::*;

use crate::ring::Rings;
use crate::tweet::{ProcessedTweet, NUM_KEYWORDS};

verus! {

/// How many of `posts` name keyword `i`.
pub open spec fn occurrences(posts: Seq<ProcessedTweet>, i: int) -> nat
    decreases posts.len(),
{
    if posts.len() == 0 {
        0
    } else {
        occurrences(posts.drop_last(), i) + if posts.last().keywords@[i] { 1nat } else { 0nat }
    }
}

/// How many of `posts` name keyword `i` and hold an emoji.
pub open spec fn emoji_occurrences(posts: Seq<ProcessedTweet>, i: int) -> nat
    decreases posts.len(),
{
    if posts.len() == 0 {
        0
    } else {
        emoji_occurrences(posts.drop_last(), i) + if posts.last().keywords@[i]
            && posts.last().emoji_encountered { 1nat } else { 0nat }
    }
}

/// How many of the first `n` entries of `kw` are set.
pub open spec fn hits_upto(kw: Seq<bool>, n: int) -> nat
    decreases n,
{
    if n <= 0 {
        0
    } else {
        hits_upto(kw, n - 1) + if kw[n - 1] { 1nat } else { 0nat }
    }
}

/// Keyword hits summed over `posts`: a post naming two keywords counts twice.
pub open spec fn total_hits(posts: Seq<ProcessedTweet>) -> nat
    decreases posts.len(),
{
    if posts.len() == 0 {
        0
    } else {
        total_hits(posts.drop_last()) + hits_upto(posts.last().keywords@, NUM_KEYWORDS as int)
    }
}

/// Per-keyword counts over a set of posts.
pub struct KeywordCounts {
    pub occurrence: Vec<usize>,
    pub emoji_occurrence: Vec<usize>,
    pub total: usize,
}

impl KeywordCounts {
    /// The counts are those of `posts`.
    pub open spec fn counts_of(&self, posts: Seq<ProcessedTweet>) -> bool {
        &&& self.occurrence@.len() == NUM_KEYWORDS
        &&& self.emoji_occurrence@.len() == NUM_KEYWORDS
        &&& forall|i: int| 0 <= i < NUM_KEYWORDS ==> #[trigger] self.occurrence@[i] == occurrences(posts, i)
        &&& forall|i: int| 0 <= i < NUM_KEYWORDS ==> #[trigger] self.emoji_occurrence@[i] == emoji_occurrences(posts, i)
        &&& self.total == total_hits(posts)
    }

    /// Share of keyword `i` among all hits, as numerator and denominator;
    /// the denominator is zero when there were no hits.
    pub fn frequency(&self, i: usize) -> (r: (usize, usize))
        requires
            i < self.occurrence@.len(),
        ensures
            r == (self.occurrence@[i as int], self.total),
    {
        (self.occurrence[i], self.total)
    }

    /// Share of the posts naming keyword `i` that hold an emoji, as numerator
    /// and denominator; the denominator is at least one.
    pub fn emoji_frequency(&self, i: usize) -> (r: (usize, usize))
        requires
            i < self.occurrence@.len(),
            i < self.emoji_occurrence@.len(),
        ensures
            r.0 == self.emoji_occurrence@[i as int],
            r.1 == if self.occurrence@[i as int] == 0 { 1 } else { self.occurrence@[i as int] },
    {
        let safe_occurrence = if self.occurrence[i] == 0 {
            1
        } else {
            self.occurrence[i]
        };
        (self.emoji_occurrence[i], safe_occurrence)
    }
}

proof fn lemma_hits_upto_le(kw: Seq<bool>, n: int)
    ensures
        hits_upto(kw, n) <= if n < 0 { 0 } else { n },
    decreases n,
{
    if n > 0 {
        lemma_hits_upto_le(kw, n - 1);
    }
}

proof fn lemma_counts_le(posts: Seq<ProcessedTweet>, i: int)
    ensures
        emoji_occurrences(posts, i) <= occurrences(posts, i),
        occurrences(posts, i) <= posts.len(),
        total_hits(posts) <= posts.len() * NUM_KEYWORDS,
    decreases posts.len(),
{
    if posts.len() > 0 {
        lemma_counts_le(posts.drop_last(), i);
        lemma_hits_upto_le(posts.last().keywords@, NUM_KEYWORDS as int);
    }
}

/// Counts, per keyword, the posts naming it and those of them holding an
/// emoji, and the keyword hits over all posts.
pub fn keyword_counts(posts: &Vec<ProcessedTweet>) -> (r: KeywordCounts)
    requires
        posts@.len() <= usize::MAX / NUM_KEYWORDS,
    ensures
        r.counts_of(posts@),
{
    let mut occurrence: Vec<usize> = vec![0; NUM_KEYWORDS];
    let mut emoji_occurrence: Vec<usize> = vec![0; NUM_KEYWORDS];
    let mut total: usize = 0;
    let mut n: usize = 0;
    while n < posts.len()
        invariant
            n <= posts@.len() <= usize::MAX / NUM_KEYWORDS,
            occurrence@.len() == NUM_KEYWORDS,
            emoji_occurrence@.len() == NUM_KEYWORDS,
            forall|k: int| 0 <= k < NUM_KEYWORDS ==> #[trigger] occurrence@[k] == occurrences(posts@.take(n as int), k),
            forall|k: int| 0 <= k < NUM_KEYWORDS ==> #[trigger] emoji_occurrence@[k] == emoji_occurrences(posts@.take(n as int), k),
            total == total_hits(posts@.take(n as int)),
            total <= n * NUM_KEYWORDS,
        decreases posts.len() - n,
    {
        let pt = posts[n];
        let ghost before = posts@.take(n as int);
        let ghost after = posts@.take(n + 1);
        assert(after.drop_last() =~= before);
        let mut i: usize = 0;
        while i < NUM_KEYWORDS
            invariant
                n < posts@.len() <= usize::MAX / NUM_KEYWORDS,
                i <= NUM_KEYWORDS,
                pt == posts@[n as int],
                after == posts@.take(n + 1),
                after.drop_last() == before,
                occurrence@.len() == NUM_KEYWORDS,
                emoji_occurrence@.len() == NUM_KEYWORDS,
                forall|k: int| 0 <= k < i ==> #[trigger] occurrence@[k] == occurrences(after, k),
                forall|k: int| i <= k < NUM_KEYWORDS ==> #[trigger] occurrence@[k] == occurrences(before, k),
                forall|k: int| 0 <= k < i ==> #[trigger] emoji_occurrence@[k] == emoji_occurrences(after, k),
                forall|k: int| i <= k < NUM_KEYWORDS ==> #[trigger] emoji_occurrence@[k] == emoji_occurrences(before, k),
                total == total_hits(before) + hits_upto(pt.keywords@, i as int),
                total <= n * NUM_KEYWORDS + i,
            decreases NUM_KEYWORDS - i,
        {
            proof {
                lemma_counts_le(before, i as int);
            }
            if pt.keywords[i] {
                if pt.emoji_encountered {
                    emoji_occurrence.set(i, emoji_occurrence[i] + 1);
                }
                occurrence.set(i, occurrence[i] + 1);
                total = total + 1;
            }
            i = i + 1;
        }
        n = n + 1;
    }
    assert(posts@.take(n as int) =~= posts@);
    KeywordCounts { occurrence, emoji_occurrence, total }
}

/// With no posts, every count is zero: each keyword's share has a zero
/// denominator and its emoji share a zero numerator.
pub proof fn lemma_empty_counts(i: int)
    ensures
        occurrences(Seq::<ProcessedTweet>::empty(), i) == 0,
        emoji_occurrences(Seq::<ProcessedTweet>::empty(), i) == 0,
        total_hits(Seq::<ProcessedTweet>::empty()) == 0,
{
}

impl Rings {
    /// The keyword counts over the posts held.
    pub fn keyword_counts(&self) -> (r: KeywordCounts)
        requires
            self.wf(),
        ensures
            r.counts_of(self.posts().reverse()),
    {
        let posts = self.processed_tweets();
        proof {
            self.lemma_posts_bounded();
        }
        keyword_counts(&posts)
    }
}

} // verus!
