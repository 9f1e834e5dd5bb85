// Concrete checks of the store's stated properties: id allocation,
// ownership-gated deletion, like accumulation, pagination and the
// author-filter window, and reconstruction from persisted records.

use near_twitter_example_rs::{Tweet, TwitterContract};

fn post(contract: &mut TwitterContract, author: &str, text: &str) -> Tweet {
    contract.post_tweet(author.to_string(), text.to_string(), 0)
}

#[test]
fn monotonic_ids_across_deletes() {
    let mut contract = TwitterContract::new();
    let a = post(&mut contract, "alice", "one");
    let b = post(&mut contract, "alice", "two");
    assert_eq!(a.id, 0);
    assert_eq!(b.id, 1);
    contract.delete_tweet(0, "alice".to_string());
    let c = post(&mut contract, "alice", "three");
    let d = post(&mut contract, "alice", "four");
    assert_eq!(c.id, 2);
    assert_eq!(d.id, 3);
    assert_eq!(contract.next_post_id(), 4);
}

#[test]
fn deleted_id_is_never_reused() {
    let mut contract = TwitterContract::new();
    post(&mut contract, "alice", "a");
    post(&mut contract, "bob", "b");
    post(&mut contract, "alice", "c");
    contract.delete_tweet(1, "bob".to_string());
    let mut later_ids = Vec::new();
    later_ids.push(post(&mut contract, "bob", "d").id);
    later_ids.push(post(&mut contract, "alice", "e").id);
    later_ids.push(post(&mut contract, "bob", "f").id);
    assert_eq!(later_ids, vec![3, 4, 5]);
    assert!(!later_ids.contains(&1));
    assert!(contract.get_tweet_by_id(1).is_none());
}

#[test]
fn ownership_gate_on_delete() {
    let mut contract = TwitterContract::new();
    let posted = post(&mut contract, "alice", "mine");

    // A caller other than the author leaves the post retrievable, unchanged.
    contract.delete_tweet(0, "bob".to_string());
    let still_there = contract.get_tweet_by_id(0);
    assert_eq!(still_there, Some(posted));

    // The author removes it.
    contract.delete_tweet(0, "alice".to_string());
    assert!(contract.get_tweet_by_id(0).is_none());
}

#[test]
fn likes_accumulate_one_per_call() {
    let mut contract = TwitterContract::new();
    post(&mut contract, "alice", "likeable");
    for expected in 1..=5u64 {
        let liked = contract.like_tweet(0).unwrap();
        assert_eq!(liked.likes, expected);
    }
    assert_eq!(contract.get_tweet_by_id(0).unwrap().likes, 5);

    // A like of a missing id is absent and leaves the store as it was.
    assert!(contract.like_tweet(999).is_none());
    assert_eq!(contract.get_all_tweets(None, None).len(), 1);
    assert_eq!(contract.get_tweet_by_id(0).unwrap().likes, 5);
}

#[test]
fn pagination_is_a_clipped_window() {
    let mut contract = TwitterContract::new();
    for text in ["p0", "p1", "p2", "p3", "p4"] {
        post(&mut contract, "alice", text);
    }

    let window = contract.get_all_tweets(Some(1), Some(2));
    assert_eq!(window.len(), 2);
    assert_eq!(window[0].text, "p1");
    assert_eq!(window[1].text, "p2");

    // A limit past the end is clipped to what remains.
    let tail = contract.get_all_tweets(Some(3), Some(10));
    assert_eq!(tail.len(), 2);
    assert_eq!(tail[0].text, "p3");
    assert_eq!(tail[1].text, "p4");

    // An offset at or past the count yields an empty page.
    assert!(contract.get_all_tweets(Some(5), Some(1)).is_empty());
    assert!(contract.get_all_tweets(Some(7), Some(3)).is_empty());

    // A zero limit yields an empty page.
    assert!(contract.get_all_tweets(Some(0), Some(0)).is_empty());
}

#[test]
fn default_limit_is_ten() {
    let mut contract = TwitterContract::new();
    for i in 0..12u64 {
        contract.post_tweet("alice".to_string(), format!("post {}", i), i);
    }
    let page = contract.get_all_tweets(None, None);
    assert_eq!(page.len(), 10);
    assert_eq!(page[0].text, "post 0");
    assert_eq!(page[9].text, "post 9");
}

/// The naive definition the author scan is proved equal to: filter the
/// full enumeration, then slice the window.
fn naive_by_author(contract: &TwitterContract, author: &str, offset: u64, limit: u64) -> Vec<Tweet> {
    contract
        .get_all_tweets(Some(0), Some(u64::MAX))
        .into_iter()
        .filter(|t| t.author == author)
        .skip(offset as usize)
        .take(limit as usize)
        .collect()
}

#[test]
fn author_filter_matches_naive_definition() {
    let mut contract = TwitterContract::new();
    // Interleave authors so the early exit has boundaries to get wrong.
    for (author, text) in [
        ("alice", "a0"),
        ("bob", "b0"),
        ("alice", "a1"),
        ("bob", "b1"),
        ("alice", "a2"),
    ] {
        post(&mut contract, author, text);
    }

    for author in ["alice", "bob", "carol"] {
        for offset in 0..=4u64 {
            for limit in 0..=4u64 {
                let fast = contract.get_tweets_by_author(author.to_string(), Some(offset), Some(limit));
                let naive = naive_by_author(&contract, author, offset, limit);
                assert_eq!(fast, naive, "author={author} offset={offset} limit={limit}");
            }
        }
    }

    // The off-by-one edge: the window ends exactly at a match that the
    // scan must still emit before stopping.
    let one = contract.get_tweets_by_author("alice".to_string(), Some(1), Some(1));
    assert_eq!(one.len(), 1);
    assert_eq!(one[0].text, "a1");
    let last = contract.get_tweets_by_author("alice".to_string(), Some(2), Some(1));
    assert_eq!(last.len(), 1);
    assert_eq!(last[0].text, "a2");
}

#[test]
fn delete_of_absent_id_is_idempotent() {
    let mut contract = TwitterContract::new();

    // Never-created id, on an empty store.
    contract.delete_tweet(5, "alice".to_string());
    assert!(contract.get_all_tweets(None, None).is_empty());

    // Never-created id, on a non-empty store.
    let posted = post(&mut contract, "alice", "keep");
    contract.delete_tweet(7, "alice".to_string());
    assert_eq!(contract.get_all_tweets(None, None), vec![posted]);

    // Already-deleted id: the second delete is a no-op as well.
    contract.delete_tweet(0, "alice".to_string());
    contract.delete_tweet(0, "alice".to_string());
    assert!(contract.get_all_tweets(None, None).is_empty());
    assert_eq!(contract.next_post_id(), 1);
}

#[test]
fn first_post_scenario() {
    let mut contract = TwitterContract::new();
    let tweet = contract.post_tweet("alice".to_string(), "hi".to_string(), 42);
    assert_eq!(tweet.id, 0);
    assert_eq!(tweet.author, "alice");
    assert_eq!(tweet.text, "hi");
    assert_eq!(tweet.timestamp, 42);
    assert_eq!(tweet.likes, 0);
    assert_eq!(contract.next_post_id(), 1);
}

#[test]
fn three_posts_in_order_scenario() {
    let mut contract = TwitterContract::new();
    post(&mut contract, "alice", "a");
    post(&mut contract, "alice", "b");
    post(&mut contract, "alice", "c");

    let all = contract.get_all_tweets(None, None);
    let texts: Vec<&str> = all.iter().map(|t| t.text.as_str()).collect();
    assert_eq!(texts, vec!["a", "b", "c"]);

    let middle = contract.get_all_tweets(Some(1), Some(1));
    assert_eq!(middle.len(), 1);
    assert_eq!(middle[0].text, "b");
}

#[test]
fn author_listing_scenario() {
    let mut contract = TwitterContract::new();
    let a0 = post(&mut contract, "alice", "first");
    post(&mut contract, "bob", "interloper");
    let a1 = post(&mut contract, "alice", "second");

    let alices = contract.get_tweets_by_author("alice".to_string(), Some(0), Some(10));
    assert_eq!(alices, vec![a0, a1]);

    let carols = contract.get_tweets_by_author("carol".to_string(), Some(0), Some(10));
    assert!(carols.is_empty());
}

#[test]
fn records_roundtrip_through_persistence() {
    let mut contract = TwitterContract::new();
    post(&mut contract, "alice", "a");
    post(&mut contract, "bob", "b");
    post(&mut contract, "alice", "c");
    contract.delete_tweet(1, "bob".to_string());
    contract.like_tweet(2);

    let records = contract.get_all_tweets(Some(0), Some(u64::MAX));
    let next_id = contract.next_post_id();
    let restored = TwitterContract::from_records(records.clone(), next_id)
        .expect("well-formed records are accepted");
    assert_eq!(restored.get_all_tweets(Some(0), Some(u64::MAX)), records);
    assert_eq!(restored.next_post_id(), next_id);
}

#[test]
fn malformed_records_are_rejected() {
    let mut contract = TwitterContract::new();
    let t0 = post(&mut contract, "alice", "a");
    let t1 = post(&mut contract, "alice", "b");

    // Out-of-order ids.
    assert!(TwitterContract::from_records(vec![t1.clone(), t0.clone()], 2).is_none());
    // A duplicated id.
    assert!(TwitterContract::from_records(vec![t0.clone(), t0.clone()], 2).is_none());
    // An id at or above the counter.
    assert!(TwitterContract::from_records(vec![t0.clone(), t1.clone()], 1).is_none());
    // The well-formed combination is accepted.
    assert!(TwitterContract::from_records(vec![t0, t1], 2).is_some());
}
