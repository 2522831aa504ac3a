use tweet_stream::{
    find_cr_lf, keyword, parse_u128, process_tweet, process_tweet_at, OriginalTweet, Rings,
    Tweet, User, NUM_KEYWORDS,
};

fn tweet(text: &str, timestamp_ms: &str, shared: bool) -> Tweet {
    Tweet {
        created_at: "Mon Sep 14 12:00:00 +0000 2020".to_string(),
        favorite_count: 0,
        retweet_count: 0,
        reply_count: 0,
        text: text.to_string(),
        timestamp_ms: timestamp_ms.to_string(),
        retweeted_status: if shared {
            Some(OriginalTweet { text: "orig".to_string() })
        } else {
            None
        },
        user: User {
            created_at: "Mon Sep 14 12:00:00 +0000 2020".to_string(),
            followers_count: 1,
            friends_count: 2,
            statuses_count: 3,
        },
    }
}

fn hits(indices: &[usize]) -> [bool; NUM_KEYWORDS] {
    let mut k = [false; NUM_KEYWORDS];
    for &i in indices {
        k[i] = true;
    }
    k
}

#[test]
fn keyword_table_order() {
    let names: Vec<&str> = (0..NUM_KEYWORDS).map(keyword).collect();
    assert_eq!(
        names,
        vec!["twitter", "facebook", "google", "travel", "art", "music", "photography", "love", "fashion", "food"]
    );
}

#[test]
fn happy_decode() {
    let (post, sample) = process_tweet_at(tweet("I love food", "1000", true), 4000).unwrap();
    assert_eq!(post.keywords, hits(&[7, 9]));
    assert!(!post.emoji_encountered);
    assert_eq!(post.len, 11);
    assert_eq!(post.timestamp, 1000);
    assert_eq!(sample, (1000, 3000));
}

#[test]
fn happy_decode_into_rings() {
    let mut rings = Rings::new();
    assert!(rings.ingest(tweet("I love food", "1000", true)));
    let posts = rings.processed_tweets();
    assert_eq!(posts.len(), 1);
    assert_eq!(posts[0].keywords, hits(&[7, 9]));
    assert_eq!(posts[0].timestamp, 1000);
    let samples = rings.back_pressure_data().data;
    assert_eq!(samples.len(), 1);
    assert_eq!(samples[0].0, 1000);
}

#[test]
fn unshared_post_skipped() {
    assert!(process_tweet_at(tweet("I love food", "1000", false), 4000).is_none());
    let mut rings = Rings::new();
    assert!(!rings.ingest(tweet("I love food", "1000", false)));
    assert!(rings.processed_tweets().is_empty());
    assert!(rings.back_pressure_data().data.is_empty());
}

#[test]
fn no_match_skipped() {
    assert!(process_tweet_at(tweet("hello world", "1000", true), 4000).is_none());
}

#[test]
fn keyword_match_is_case_sensitive() {
    assert!(process_tweet_at(tweet("I LOVE FOOD", "1000", true), 4000).is_none());
}

#[test]
fn emoji_true() {
    let (post, _) = process_tweet_at(tweet("I love music 🎵", "1000", true), 4000).unwrap();
    assert!(post.emoji_encountered);
    assert_eq!(post.keywords, hits(&[5, 7]));
    assert_eq!(post.len, "I love music 🎵".len());
}

#[test]
fn substring_inside_word_counts() {
    let (post, _) = process_tweet_at(tweet("smartphone", "7", true), 7).unwrap();
    assert_eq!(post.keywords, hits(&[4]));
}

#[test]
fn unreadable_timestamp_skipped() {
    assert!(process_tweet_at(tweet("I love food", "12a", true), 4000).is_none());
    assert!(process_tweet_at(tweet("I love food", "", true), 4000).is_none());
}

#[test]
fn latency_is_clock_minus_timestamp() {
    let (_, sample) = process_tweet_at(tweet("art", "2500", true), 2500).unwrap();
    assert_eq!(sample, (2500, 0));
    let (_, sample) = process_tweet_at(tweet("art", "2500", true), 1000).unwrap();
    assert_eq!(sample, (2500, 0));
}

#[test]
fn process_with_clock() {
    let (post, sample) = process_tweet(tweet("travel", "1000", true)).unwrap();
    assert_eq!(post.keywords, hits(&[3]));
    assert_eq!(sample.0, 1000);
    assert!(sample.1 > 0);
}

#[test]
fn parse_timestamps() {
    assert_eq!(parse_u128("1000"), Some(1000));
    assert_eq!(parse_u128("+42"), Some(42));
    assert_eq!(parse_u128("0"), Some(0));
    assert_eq!(parse_u128("+"), None);
    assert_eq!(parse_u128(""), None);
    assert_eq!(parse_u128("-1"), None);
    assert_eq!(parse_u128("1 "), None);
    assert_eq!(parse_u128("340282366920938463463374607431768211455"), Some(u128::MAX));
    assert_eq!(parse_u128("340282366920938463463374607431768211456"), None);
}

#[test]
fn crlf_search() {
    assert_eq!(find_cr_lf(b""), None);
    assert_eq!(find_cr_lf(b"\r"), None);
    assert_eq!(find_cr_lf(b"\r\n"), Some(0));
    assert_eq!(find_cr_lf(b"ab\n\r\ncd\r\n"), Some(3));
    assert_eq!(find_cr_lf(b"ab\rcd\n"), None);
}
