//! Streaming ingest of keyword-filtered posts: signed stream requests, CRLF
//! framing of the chunked response, per-post feature extraction, bounded
//! rings of recent results and the aggregates served from them.

mod aggregate;
mod clock;
mod encode;
mod framer;
mod oauth;
mod ring;
mod stream;
mod text;
mod tweet;
mod util;

pub use clock::{timestamp_as_millis, timestamp_as_secs};
pub use text::parse_u128;
pub use tweet::{
    keyword, process_tweet, process_tweet_at, BackPressureEntry, OriginalTweet, ProcessedTweet,
    Tweet, User, NUM_KEYWORDS,
};
pub use util::find_cr_lf;
pub use ring::{
    lemma_ring_bounds, BackPressureData, Rings, NUM_BACK_PRESSURE_ENTRIES_STORED, NUM_PROCESSED_TWEETS_STORED,
};
pub use aggregate::{keyword_counts, lemma_empty_counts, KeywordCounts};
pub use framer::{lemma_frames_concat, lemma_frames_cover, Framer};
pub use encode::{generate_nonce, sign_base_string, url_encode};
pub use oauth::{header, header_with, lemma_header_deterministic, Credentials};
pub use stream::{keywords_concat, stream_request, STREAM_API_URL};
