use tweet_stream::{
    keyword_counts, ProcessedTweet, Rings, NUM_KEYWORDS, NUM_PROCESSED_TWEETS_STORED,
};

fn post(indices: &[usize], emoji: bool, timestamp: u128) -> ProcessedTweet {
    let mut keywords = [false; NUM_KEYWORDS];
    for &i in indices {
        keywords[i] = true;
    }
    ProcessedTweet { keywords, len: 10, timestamp, emoji_encountered: emoji }
}

const LOVE: usize = 7;
const FOOD: usize = 9;

#[test]
fn aggregation() {
    let mut rings = Rings::new();
    rings.push(post(&[FOOD], false, 1), (1, 5));
    rings.push(post(&[FOOD, LOVE], false, 2), (2, 6));
    let counts = rings.keyword_counts();
    assert_eq!(counts.total, 3);
    assert_eq!(counts.frequency(FOOD), (2, 3));
    assert_eq!(counts.frequency(LOVE), (1, 3));
    for i in 0..NUM_KEYWORDS {
        if i != FOOD && i != LOVE {
            assert_eq!(counts.frequency(i), (0, 3));
        }
        assert_eq!(counts.emoji_frequency(i).0, 0);
    }
}

#[test]
fn aggregation_of_empty_ring() {
    let counts = Rings::new().keyword_counts();
    assert_eq!(counts.total, 0);
    for i in 0..NUM_KEYWORDS {
        let (n, d) = counts.frequency(i);
        assert_eq!((n, d), (0, 0));
        assert!((n as f32 / d as f32).is_nan());
        assert_eq!(counts.emoji_frequency(i), (0, 1));
    }
}

#[test]
fn emoji_share_per_keyword() {
    let posts = vec![post(&[LOVE], true, 1), post(&[LOVE], false, 2), post(&[FOOD], true, 3)];
    let counts = keyword_counts(&posts);
    assert_eq!(counts.occurrence[LOVE], 2);
    assert_eq!(counts.emoji_occurrence[LOVE], 1);
    assert_eq!(counts.emoji_frequency(LOVE), (1, 2));
    assert_eq!(counts.emoji_frequency(FOOD), (1, 1));
    assert_eq!(counts.total, 3);
}

#[test]
fn ring_keeps_last_pushes() {
    let mut rings = Rings::new();
    let n = NUM_PROCESSED_TWEETS_STORED as u128 + 5;
    for t in 0..n {
        rings.push(post(&[0], false, t), (t, 1));
    }
    let posts = rings.processed_tweets();
    assert_eq!(posts.len(), NUM_PROCESSED_TWEETS_STORED);
    assert_eq!(posts[0].timestamp, n - 1);
    assert_eq!(posts[posts.len() - 1].timestamp, 5);
    let samples = rings.back_pressure_data().data;
    assert_eq!(samples.len(), 400);
    assert_eq!(samples[0], (n - 1, 1));
    assert_eq!(samples[399], (5, 1));
}

#[test]
fn back_pressure_newest_first() {
    let mut rings = Rings::new();
    rings.push(post(&[1], false, 10), (10, 3));
    rings.push(post(&[2], false, 20), (20, 4));
    assert_eq!(rings.back_pressure_data().data, vec![(20, 4), (10, 3)]);
}
