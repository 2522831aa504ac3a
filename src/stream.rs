use vstd::prelude::*;

use crate::oauth::{decimal_chars, header, oauth_header, Credentials};
use crate::encode::hex_lower;
use crate::ring::{last_n, Rings, NUM_BACK_PRESSURE_ENTRIES_STORED, NUM_PROCESSED_TWEETS_STORED};
use crate::tweet::{accepted, keyword, keyword_spec, process_tweet, Tweet, NUM_KEYWORDS};

verus! {

broadcast use vstd::string::group_string_axioms;

/// The filtered stream endpoint.
pub const STREAM_API_URL: &'static str = "https://stream.twitter.com/1.1/statuses/filter.json";

/// The first `n` keywords joined by commas.
pub open spec fn keywords_joined(n: int) -> Seq<char>
    decreases n,
{
    if n <= 0 {
        Seq::empty()
    } else if n == 1 {
        keyword_spec(0)
    } else {
        keywords_joined(n - 1) + seq![','] + keyword_spec(n - 1)
    }
}

/// The track list: every keyword, joined by commas.
pub fn keywords_concat() -> (r: String)
    ensures
        r@ == keywords_joined(NUM_KEYWORDS as int),
{
    let mut r = String::new();
    let mut i: usize = 0;
    while i < NUM_KEYWORDS
        invariant
            i <= NUM_KEYWORDS,
            r@ == keywords_joined(i as int),
        decreases NUM_KEYWORDS - i,
    {
        if i > 0 {
            r.push(',');
        }
        r.append(keyword(i));
        i = i + 1;
    }
    r
}

/// The URL and authorization header of a stream request that tracks every
/// keyword; `None` where no nonce could be drawn.
pub fn stream_request(credentials: &Credentials) -> (r: Option<(String, String)>)
    ensures
        r matches Some((url, h)) ==> {
            &&& url@ == STREAM_API_URL@ + "?track="@ + keywords_joined(NUM_KEYWORDS as int)
            &&& exists|nonce: Seq<u8>, ts: nat|
                nonce.len() == 16 && h@ == oauth_header(*credentials, "POST"@, STREAM_API_URL@, "track"@,
                    keywords_joined(NUM_KEYWORDS as int), hex_lower(nonce), decimal_chars(ts))
        },
{
    let keywords = keywords_concat();
    let h = match header(credentials, "POST", STREAM_API_URL, ("track", keywords.as_str())) {
        Some(h) => h,
        None => {
            return None;
        },
    };
    let mut url = String::new();
    url.append(STREAM_API_URL);
    url.append("?track=");
    url.append(keywords.as_str());
    Some((url, h))
}

impl Rings {
    /// Processes one decoded post and records its features and latency
    /// sample when it is accepted; returns whether it was.
    pub fn ingest(&mut self, tweet: Tweet) -> (r: bool)
        requires
            old(self).wf(),
        ensures
            final(self).wf(),
            r == accepted(tweet),
            !r ==> *final(self) == *old(self),
            r ==> final(self).pushed_posts().len() == old(self).pushed_posts().len() + 1,
            r ==> final(self).pushed_samples().len() == old(self).pushed_samples().len() + 1,
            r ==> final(self).pushed_samples().last().0 == final(self).pushed_posts().last().timestamp,
            final(self).posts() == last_n(final(self).pushed_posts(), NUM_PROCESSED_TWEETS_STORED as nat),
            final(self).samples() == last_n(final(self).pushed_samples(), NUM_BACK_PRESSURE_ENTRIES_STORED as nat),
    {
        match process_tweet(tweet) {
            Some((post, sample)) => {
                self.push(post, sample);
                true
            },
            None => {
                proof {
                    self.lemma_posts_bounded();
                }
                false
            },
        }
    }
}

} // verus!
