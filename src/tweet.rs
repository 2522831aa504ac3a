use vstd::prelude::*;

use crate::clock::timestamp_as_millis;
use crate::text::{chars_of, contains_chars, is_substring, parse_u128, parsed_u128};

verus! {

/// Number of tracked keywords.
pub const NUM_KEYWORDS: usize = 10;

/// The tracked keywords, in the order of every keyword vector.
pub open spec fn keyword_spec(i: int) -> Seq<char> {
    if i == 0 {
        "twitter"@
    } else if i == 1 {
        "facebook"@
    } else if i == 2 {
        "google"@
    } else if i == 3 {
        "travel"@
    } else if i == 4 {
        "art"@
    } else if i == 5 {
        "music"@
    } else if i == 6 {
        "photography"@
    } else if i == 7 {
        "love"@
    } else if i == 8 {
        "fashion"@
    } else {
        "food"@
    }
}

/// The keyword at index `i`.
pub fn keyword(i: usize) -> (r: &'static str)
    requires
        i < NUM_KEYWORDS,
    ensures
        r@ == keyword_spec(i as int),
{
    match i {
        0 => "twitter",
        1 => "facebook",
        2 => "google",
        3 => "travel",
        4 => "art",
        5 => "music",
        6 => "photography",
        7 => "love",
        8 => "fashion",
        _ => "food",
    }
}

pub struct User {
    pub created_at: String,
    pub followers_count: i32,
    pub friends_count: i32,
    pub statuses_count: i32,
}

/// The post that a share refers to.
pub struct OriginalTweet {
    pub text: String,
}

/// A decoded post of the stream.
pub struct Tweet {
    pub created_at: String,
    pub favorite_count: i32,
    pub retweet_count: i32,
    pub reply_count: i32,
    pub text: String,
    /// Unix milliseconds, as decimal text.
    pub timestamp_ms: String,
    pub retweeted_status: Option<OriginalTweet>,
    pub user: User,
}

/// Features of one accepted post.
#[derive(Clone, Copy, Debug, PartialEq, Eq)]
pub struct ProcessedTweet {
    /// Entry `i` tells whether keyword `i` occurs in the text.
    pub keywords: [bool; NUM_KEYWORDS],
    /// Byte length of the text.
    pub len: usize,
    /// Unix milliseconds of the post.
    pub timestamp: u128,
    pub emoji_encountered: bool,
}

/// A latency sample: the post's timestamp and how long ago it was seen.
pub type BackPressureEntry = (u128, u128);

/// Which keywords occur in `text`.
pub open spec fn keyword_hits(text: Seq<char>) -> Seq<bool> {
    Seq::new(NUM_KEYWORDS as nat, |i: int| is_substring(keyword_spec(i), text))
}

pub open spec fn any_keyword(text: Seq<char>) -> bool {
    exists|i: int| 0 <= i < NUM_KEYWORDS && #[trigger] is_substring(keyword_spec(i), text)
}

/// A post is kept when it shares another one, names a keyword, and carries
/// a readable timestamp.
pub open spec fn accepted(t: Tweet) -> bool {
    &&& t.retweeted_status is Some
    &&& any_keyword(t.text@)
    &&& parsed_u128(t.timestamp_ms@) is Some
}

pub open spec fn byte_len(s: Seq<char>) -> nat {
    vstd::utf8::encode_utf8(s).len()
}

/// Delay from `ts` to `now`, zero where the clock lags the post.
pub open spec fn delay(now: u128, ts: u128) -> u128 {
    if ts <= now {
        (now - ts) as u128
    } else {
        0
    }
}

/// Whether some character has the Unicode `Emoji` property.
pub uninterp spec fn has_emoji(s: Seq<char>) -> bool;

/// Relies on regex's `Regex::is_match` with the pattern `\p{Emoji}`: true
/// exactly when some character of the text has the Unicode Emoji property.
#[verifier::external_body]
fn contains_emoji(message: &str) -> (r: bool)
    ensures
        r == has_emoji(message@),
{
    regex::Regex::new("\\p{Emoji}").unwrap().is_match(message)
}

/// The features of `t`, with `now_millis` as the time it is seen.
pub fn process_tweet_at(tweet: Tweet, now_millis: u128) -> (r: Option<(ProcessedTweet, BackPressureEntry)>)
    ensures
        r is Some <==> accepted(tweet),
        r matches Some((p, e)) ==> {
            &&& p.keywords@ == keyword_hits(tweet.text@)
            &&& p.len as nat == byte_len(tweet.text@)
            &&& Some(p.timestamp) == parsed_u128(tweet.timestamp_ms@)
            &&& p.emoji_encountered == has_emoji(tweet.text@)
            &&& e.0 == p.timestamp
            &&& e.1 == delay(now_millis, p.timestamp)
        },
{
    if tweet.retweeted_status.is_none() {
        return None;
    }
    let text = tweet.text.as_str();
    let text_chars = chars_of(text);
    let mut encountered_keywords: [bool; NUM_KEYWORDS] = [false; NUM_KEYWORDS];
    let mut contains_keyword = false;
    let mut i: usize = 0;
    while i < NUM_KEYWORDS
        invariant
            i <= NUM_KEYWORDS,
            text_chars@ == tweet.text@,
            forall|k: int| 0 <= k < i ==> encountered_keywords@[k] == #[trigger] is_substring(keyword_spec(k), tweet.text@),
            contains_keyword == exists|k: int| 0 <= k < i && #[trigger] is_substring(keyword_spec(k), tweet.text@),
        decreases NUM_KEYWORDS - i,
    {
        let kw = chars_of(keyword(i));
        let keyword_found = contains_chars(&text_chars, &kw);
        encountered_keywords[i] = keyword_found;
        contains_keyword = contains_keyword || keyword_found;
        i = i + 1;
    }
    if !contains_keyword {
        return None;
    }
    let timestamp = match parse_u128(tweet.timestamp_ms.as_str()) {
        Some(t) => t,
        None => {
            return None;
        },
    };
    let back_pressure = if timestamp <= now_millis {
        now_millis - timestamp
    } else {
        0
    };
    let processed_tweet = ProcessedTweet {
        keywords: encountered_keywords,
        len: text.as_bytes().len(),
        timestamp,
        emoji_encountered: contains_emoji(text),
    };
    assert(processed_tweet.keywords@ =~= keyword_hits(tweet.text@));
    Some((processed_tweet, (timestamp, back_pressure)))
}

/// The features of `t`, seen now. The delay of the sample depends on the
/// clock; everything else is as `process_tweet_at` states.
pub fn process_tweet(tweet: Tweet) -> (r: Option<(ProcessedTweet, BackPressureEntry)>)
    ensures
        r is Some <==> accepted(tweet),
        r matches Some((p, e)) ==> {
            &&& p.keywords@ == keyword_hits(tweet.text@)
            &&& p.len as nat == byte_len(tweet.text@)
            &&& Some(p.timestamp) == parsed_u128(tweet.timestamp_ms@)
            &&& p.emoji_encountered == has_emoji(tweet.text@)
            &&& e.0 == p.timestamp
        },
{
    let now = timestamp_as_millis();
    process_tweet_at(tweet, now)
}

} // verus!
