//! The post store: data model, well-formedness, and the verified
//! create / like / delete / lookup / pagination operations.

use vstd::prelude::*;

verus! {

use vstd::pervasive::VecAdditionalExecFns;
use vstd::seq_lib::*;

/// A single stored text record created by one identity.
///
/// Everything but `likes` is immutable once the record is stored; `likes`
/// only ever grows, one step at a time.
#[derive(Clone, Debug, PartialEq)]
pub struct Tweet {
    /// Unique identifier, assigned densely in creation order, never reused.
    pub id: u64,
    /// Identity of the caller that created the post.
    pub author: String,
    /// The post's content.
    pub text: String,
    /// Opaque timestamp supplied by the caller at creation.
    pub timestamp: u64,
    /// Number of likes received so far.
    pub likes: u64,
}

/// The ids of `posts`, in enumeration order, are strictly increasing.
pub open spec fn ids_strictly_increasing(posts: Seq<Tweet>) -> bool {
    forall|i: int, j: int| 0 <= i < j < posts.len() ==> posts[i].id < posts[j].id
}

/// Every stored id was allocated before `next`: ids are handed out from a
/// counter that only grows, so nothing at or above `next` can be present.
pub open spec fn ids_below(posts: Seq<Tweet>, next: u64) -> bool {
    forall|i: int| 0 <= i < posts.len() ==> posts[i].id < next
}

/// Well-formedness of a store with contents `posts` and counter `next`.
pub open spec fn store_wf(posts: Seq<Tweet>, next: u64) -> bool {
    ids_strictly_increasing(posts) && ids_below(posts, next)
}

/// Some stored post carries the id `id`.
pub open spec fn has_id(posts: Seq<Tweet>, id: u64) -> bool {
    exists|i: int| 0 <= i < posts.len() && posts[i].id == id
}

/// The position of the post with id `id` (meaningful when `has_id` holds
/// and ids are unique).
pub open spec fn idx_of(posts: Seq<Tweet>, id: u64) -> int {
    choose|i: int| 0 <= i < posts.len() && posts[i].id == id
}

/// The stored post with id `id` (meaningful when `has_id` holds).
pub open spec fn found(posts: Seq<Tweet>, id: u64) -> Tweet {
    posts[idx_of(posts, id)]
}

/// `t` with one more like.
pub open spec fn liked(t: Tweet) -> Tweet {
    Tweet { likes: (t.likes + 1) as u64, ..t }
}

/// The record a successful create stores and returns.
pub open spec fn new_tweet(id: u64, author: String, text: String, timestamp: u64) -> Tweet {
    Tweet { id, author, text, timestamp, likes: 0 }
}

/// Contents after a create: the new record is appended, so ascending-id
/// order is enumeration order.
pub open spec fn step_post(
    posts: Seq<Tweet>,
    next: u64,
    author: String,
    text: String,
    timestamp: u64,
) -> Seq<Tweet> {
    posts.push(new_tweet(next, author, text, timestamp))
}

/// Contents after a like: one more like on the matching record, or
/// unchanged when the id is absent.
pub open spec fn step_like(posts: Seq<Tweet>, id: u64) -> Seq<Tweet> {
    if has_id(posts, id) {
        posts.update(idx_of(posts, id), liked(found(posts, id)))
    } else {
        posts
    }
}

/// Contents after a delete: the matching record is removed when the caller
/// is its author, and nothing changes otherwise (absent id, or any other
/// caller).
pub open spec fn step_delete(posts: Seq<Tweet>, id: u64, caller: String) -> Seq<Tweet> {
    if has_id(posts, id) && found(posts, id).author@ == caller@ {
        posts.remove(idx_of(posts, id))
    } else {
        posts
    }
}

/// The posts whose author is `author`.
pub open spec fn by_author(author: String) -> spec_fn(Tweet) -> bool {
    |t: Tweet| t.author@ == author@
}

/// The posts of `author`, in enumeration order.
pub open spec fn author_posts(posts: Seq<Tweet>, author: String) -> Seq<Tweet> {
    posts.filter(by_author(author))
}

/// The window `[start, start + limit)` of `s`, clipped to its length:
/// skip the first `start` entries, then take up to `limit`.
pub open spec fn page(s: Seq<Tweet>, start: int, limit: int) -> Seq<Tweet>
    recommends
        0 <= start,
        0 <= limit,
{
    s.subrange(
        if start <= s.len() { start } else { s.len() as int },
        if start + limit <= s.len() { start + limit } else { s.len() as int },
    )
}

/// Default number of entries a paginated query returns when no limit is
/// given.
pub const DEFAULT_PAGE_LIMIT: u64 = 10;

/// The effective value of an optional query parameter.
pub open spec fn or_default(v: Option<u64>, d: u64) -> u64 {
    match v {
        Some(x) => x,
        None => d,
    }
}

/// The store: a flat table of posts in ascending-id order, and the
/// next-identifier counter.
pub struct TwitterContract {
    tweets: Vec<Tweet>,
    next_tweet_id: u64,
}

impl TwitterContract {
    /// The stored posts, in ascending-id (creation) order.
    pub closed spec fn posts(&self) -> Seq<Tweet> {
        self.tweets@
    }

    /// The id the next successful create will assign; equals the number of
    /// posts ever created, deletions notwithstanding.
    pub closed spec fn next_id(&self) -> u64 {
        self.next_tweet_id
    }

    /// Store invariant, established by the constructors and preserved by
    /// every operation.
    pub open spec fn wf(&self) -> bool {
        store_wf(self.posts(), self.next_id())
    }

    /// The id the next successful create will assign; equals the number
    /// of posts ever created, whatever was deleted since.
    pub fn next_post_id(&self) -> (r: u64)
        ensures
            r == self.next_id(),
    {
        self.next_tweet_id
    }

    /// Rebuilds a store from records and a counter value, as they come
    /// back from persistence. Accepts exactly the well-formed
    /// combinations — records in strictly ascending id order, every id
    /// below `next_id` — and rejects everything else.
    pub fn from_records(tweets: Vec<Tweet>, next_id: u64) -> (r: Option<TwitterContract>)
        ensures
            match r {
                Some(s) => store_wf(tweets@, next_id) && s.posts() == tweets@ && s.next_id()
                    == next_id,
                None => !store_wf(tweets@, next_id),
            },
    {
        let n = tweets.len();
        let mut i: usize = 0;
        while i < n
            invariant
                i <= n,
                n == tweets@.len(),
                forall|a: int, b: int| 0 <= a < b < i ==> tweets@[a].id < tweets@[b].id,
                forall|a: int| 0 <= a < i ==> tweets@[a].id < next_id,
            decreases n - i,
        {
            if tweets[i].id >= next_id {
                return None;
            }
            if i > 0 && tweets[i - 1].id >= tweets[i].id {
                return None;
            }
            i += 1;
        }
        Some(TwitterContract { tweets, next_tweet_id: next_id })
    }

    /// An empty store: no posts, ids start at 0.
    pub fn new() -> (s: Self)
        ensures
            s.posts() == Seq::<Tweet>::empty(),
            s.next_id() == 0,
            s.wf(),
    {
        TwitterContract { tweets: Vec::new(), next_tweet_id: 0 }
    }
}

/// With strictly increasing ids, a position whose record carries `id` is
/// the one position `idx_of` picks.
pub proof fn lemma_idx_of_is(posts: Seq<Tweet>, id: u64, i: int)
    requires
        ids_strictly_increasing(posts),
        0 <= i < posts.len(),
        posts[i].id == id,
    ensures
        has_id(posts, id),
        idx_of(posts, id) == i,
        found(posts, id) == posts[i],
{
    assert(has_id(posts, id));
    let k = idx_of(posts, id);
    assert(0 <= k < posts.len() && posts[k].id == id);
    if k < i {
        assert(posts[k].id < posts[i].id);
    }
    if i < k {
        assert(posts[i].id < posts[k].id);
    }
}

/// The position of the record with id `tweet_id`, by a linear scan.
fn index_of_id(tweets: &Vec<Tweet>, tweet_id: u64) -> (r: Option<usize>)
    ensures
        match r {
            Some(i) => i < tweets@.len() && tweets@[i as int].id == tweet_id,
            None => !has_id(tweets@, tweet_id),
        },
{
    let n = tweets.len();
    let mut i: usize = 0;
    while i < n
        invariant
            i <= n,
            n == tweets@.len(),
            forall|j: int| 0 <= j < i ==> tweets@[j].id != tweet_id,
        decreases n - i,
    {
        if tweets[i].id == tweet_id {
            return Some(i);
        }
        i += 1;
    }
    None
}

impl TwitterContract {
    /// Creates a post: assigns the next id, stores the record with zero
    /// likes, and advances the counter. Always succeeds; returns the
    /// stored record.
    pub fn post_tweet(&mut self, author: String, text: String, timestamp: u64) -> (tweet: Tweet)
        requires
            old(self).wf(),
            old(self).next_id() < u64::MAX,
        ensures
            final(self).wf(),
            tweet == new_tweet(old(self).next_id(), author, text, timestamp),
            final(self).posts() == step_post(
                old(self).posts(),
                old(self).next_id(),
                author,
                text,
                timestamp,
            ),
            final(self).next_id() == old(self).next_id() + 1,
    {
        let tweet_id = self.next_tweet_id;
        let new_t = Tweet { id: tweet_id, author, text, timestamp, likes: 0 };
        let ret = tweet_copy(&new_t);
        self.tweets.push(new_t);
        self.next_tweet_id = tweet_id + 1;
        ret
    }

    /// Likes a post: one more like on the record with this id, returned
    /// updated; an absent id changes nothing and yields `None`.
    pub fn like_tweet(&mut self, tweet_id: u64) -> (result: Option<Tweet>)
        requires
            old(self).wf(),
            has_id(old(self).posts(), tweet_id) ==> found(old(self).posts(), tweet_id).likes
                < u64::MAX,
        ensures
            final(self).wf(),
            final(self).next_id() == old(self).next_id(),
            final(self).posts() == step_like(old(self).posts(), tweet_id),
            match result {
                Some(t) => has_id(old(self).posts(), tweet_id) && t == liked(
                    found(old(self).posts(), tweet_id),
                ),
                None => !has_id(old(self).posts(), tweet_id),
            },
    {
        match index_of_id(&self.tweets, tweet_id) {
            Some(i) => {
                proof {
                    lemma_idx_of_is(self.tweets@, tweet_id, i as int);
                }
                let t = &self.tweets[i];
                let updated = Tweet {
                    id: t.id,
                    author: t.author.clone(),
                    text: t.text.clone(),
                    timestamp: t.timestamp,
                    likes: t.likes + 1,
                };
                let ret = tweet_copy(&updated);
                self.tweets.set(i, updated);
                Some(ret)
            },
            None => None,
        }
    }

    /// Deletes a post, gated on ownership: the record goes away only when
    /// `caller` is its author. An absent id, or any other caller, changes
    /// nothing; the call completes normally either way, and the id is
    /// never handed out again.
    pub fn delete_tweet(&mut self, tweet_id: u64, caller: String)
        requires
            old(self).wf(),
        ensures
            final(self).wf(),
            final(self).next_id() == old(self).next_id(),
            final(self).posts() == step_delete(old(self).posts(), tweet_id, caller),
    {
        match index_of_id(&self.tweets, tweet_id) {
            Some(i) => {
                proof {
                    lemma_idx_of_is(self.tweets@, tweet_id, i as int);
                }
                if self.tweets[i].author == caller {
                    proof {
                        self.tweets@.remove_ensures(i as int);
                    }
                    self.tweets.remove(i);
                }
            },
            None => {},
        }
    }

    /// Returns one page of all posts, in ascending-id order: skips the
    /// first `from_index` (default 0), then takes up to `limit` (default
    /// `DEFAULT_PAGE_LIMIT`). An offset past the end yields an empty
    /// vector. No side effects.
    pub fn get_all_tweets(&self, from_index: Option<u64>, limit: Option<u64>) -> (result: Vec<Tweet>)
        ensures
            result@ == page(
                self.posts(),
                or_default(from_index, 0) as int,
                or_default(limit, DEFAULT_PAGE_LIMIT) as int,
            ),
    {
        let start: u64 = match from_index {
            Some(v) => v,
            None => 0,
        };
        let limit_val: u64 = match limit {
            Some(v) => v,
            None => DEFAULT_PAGE_LIMIT,
        };
        let n = self.tweets.len();
        let mut result: Vec<Tweet> = Vec::new();
        let mut i: usize = if start < n as u64 {
            start as usize
        } else {
            n
        };
        let ghost s0: int = i as int;
        while i < n && (result.len() as u64) < limit_val
            invariant
                n == self.tweets@.len(),
                s0 == if start as int <= n as int {
                    start as int
                } else {
                    n as int
                },
                s0 <= i <= n,
                result@ == self.tweets@.subrange(s0, i as int),
                result@.len() <= limit_val,
            decreases n - i,
        {
            proof {
                assert(self.tweets@.subrange(s0, i as int + 1) =~= self.tweets@.subrange(
                    s0,
                    i as int,
                ).push(self.tweets@[i as int]));
            }
            result.push(tweet_copy(&self.tweets[i]));
            i += 1;
        }
        proof {
            assert(result@ =~= page(
                self.posts(),
                start as int,
                limit_val as int,
            ));
        }
        result
    }

    /// Returns one page of the posts of `author_id`, with the same
    /// offset/limit defaults and semantics as `get_all_tweets` applied
    /// after filtering, ascending-id order kept among the matches.
    ///
    /// The body is a single linear scan that stops as soon as the
    /// requested window is full; the contract pins it to the naive
    /// filter-then-slice definition, so the early exit is a cost
    /// optimization only. No side effects.
    pub fn get_tweets_by_author(
        &self,
        author_id: String,
        from_index: Option<u64>,
        limit: Option<u64>,
    ) -> (result: Vec<Tweet>)
        ensures
            result@ == page(
                author_posts(self.posts(), author_id),
                or_default(from_index, 0) as int,
                or_default(limit, DEFAULT_PAGE_LIMIT) as int,
            ),
    {
        let start: u64 = match from_index {
            Some(v) => v,
            None => 0,
        };
        let limit_val: u64 = match limit {
            Some(v) => v,
            None => DEFAULT_PAGE_LIMIT,
        };
        let ghost posts = self.posts();
        let ghost p = by_author(author_id);
        let n = self.tweets.len();
        let mut author_tweets: Vec<Tweet> = Vec::new();
        let mut count: u64 = 0;
        let mut current_index: u64 = 0;
        let mut i: usize = 0;
        while i < n
            invariant
                posts == self.tweets@,
                p == by_author(author_id),
                n == posts.len(),
                i <= n,
                current_index == posts.take(i as int).filter(p).len(),
                current_index <= i,
                author_tweets@ == page(
                    posts.take(i as int).filter(p),
                    start as int,
                    limit_val as int,
                ),
                count == author_tweets@.len(),
                count <= limit_val,
            ensures
                i == n || (count >= limit_val && current_index > start),
            decreases n - i,
        {
            let ghost prev = posts.take(i as int);
            let ghost fprev = prev.filter(p);
            proof {
                assert(posts.take(i as int + 1) =~= prev.push(posts[i as int]));
                prev.lemma_filter_push(posts[i as int], p);
            }
            let t = &self.tweets[i];
            if t.author == author_id {
                proof {
                    assert(p(posts[i as int]));
                }
                if current_index >= start && count < limit_val {
                    author_tweets.push(tweet_copy(t));
                    count = count + 1;
                    proof {
                        let fnew = fprev.push(posts[i as int]);
                        assert(fprev.len() < start + limit_val);
                        assert(page(fnew, start as int, limit_val as int) =~= page(
                            fprev,
                            start as int,
                            limit_val as int,
                        ).push(posts[i as int]));
                    }
                } else {
                    proof {
                        let fnew = fprev.push(posts[i as int]);
                        if current_index < start {
                            assert(page(fnew, start as int, limit_val as int) =~= page(
                                fprev,
                                start as int,
                                limit_val as int,
                            ));
                        } else {
                            assert(fprev.len() >= start + limit_val);
                            assert(page(fnew, start as int, limit_val as int) =~= page(
                                fprev,
                                start as int,
                                limit_val as int,
                            ));
                        }
                    }
                }
                current_index = current_index + 1;
            }
            i += 1;
            if count >= limit_val && current_index > start {
                break;
            }
        }
        proof {
            let f = posts.take(i as int).filter(p);
            let whole = posts.filter(p);
            assert(posts.take(i as int) =~= posts.subrange(0, i as int));
            posts.take(i as int).lemma_filter_monotone(posts, p);
            if i == n {
                assert(posts.take(i as int) =~= posts);
            } else {
                if limit_val == 0 {
                    assert(author_tweets@ =~= page(whole, start as int, limit_val as int));
                } else {
                    assert(f.len() >= start + limit_val);
                    assert(author_tweets@ =~= page(whole, start as int, limit_val as int));
                }
            }
        }
        author_tweets
    }

    /// Looks a post up by id; returns a copy of the record, or `None`
    /// when the id is absent. No side effects.
    pub fn get_tweet_by_id(&self, tweet_id: u64) -> (result: Option<Tweet>)
        requires
            self.wf(),
        ensures
            match result {
                Some(t) => has_id(self.posts(), tweet_id) && t == found(self.posts(), tweet_id),
                None => !has_id(self.posts(), tweet_id),
            },
    {
        match index_of_id(&self.tweets, tweet_id) {
            Some(i) => {
                proof {
                    lemma_idx_of_is(self.tweets@, tweet_id, i as int);
                }
                Some(tweet_copy(&self.tweets[i]))
            },
            None => None,
        }
    }
}

/// A field-for-field copy of a stored record.
fn tweet_copy(t: &Tweet) -> (r: Tweet)
    ensures
        r == *t,
{
    Tweet {
        id: t.id,
        author: t.author.clone(),
        text: t.text.clone(),
        timestamp: t.timestamp,
        likes: t.likes,
    }
}

} // verus!
