//! The catalog client's verified core: the collection data model, the
//! classification of an attempt's outcome, and the bounded
//! exponential-backoff retry policy.

use vstd::prelude::*;
use crate::error::FetchError;
use crate::text::{dec_rep, sanitize_filename, sanitize_spec, u32_to_string};

verus! {

/// A collection as the catalog API reports it.
#[derive(Debug, Clone)]
pub struct Collection {
    pub id: u32,
    pub name: String,
    pub uploader: Uploader,
    pub beatmapsets: Vec<Beatmapset>,
}

/// The user that uploaded the collection.
#[derive(Debug, Clone)]
pub struct Uploader {
    pub id: u32,
    pub username: String,
}

/// One archive the collection references, with its sub-entries.
#[derive(Debug, Clone)]
pub struct Beatmapset {
    pub id: u32,
    pub beatmaps: Vec<Beatmap>,
}

/// One sub-entry of an archive, carrying a checksum.
#[derive(Debug, Clone)]
pub struct Beatmap {
    pub id: u32,
    pub checksum: String,
}

/// The total number of attempts the catalog client makes.
pub const MAX_ATTEMPTS: u8 = 3;

/// The per-request timeout of a catalog fetch, in seconds.
pub const COLLECTION_FETCH_TIMEOUT_SECS: u64 = 30;

/// What the retry policy does after a failed attempt.
#[derive(Clone, Copy, Debug, PartialEq, Eq, Structural)]
pub enum RetryDecision {
    /// Wait for the given number of seconds, then try again.
    Retry { delay_secs: u64 },
    /// Surface the error; no further attempt is made.
    GiveUp,
}

/// Two to the given power.
pub open spec fn pow2(e: nat) -> nat
    decreases e,
{
    if e == 0 {
        1
    } else {
        2 * pow2((e - 1) as nat)
    }
}

/// The seconds slept before retrying, over a run of `attempts`
/// attempts that all fail retryably: one wait after each attempt but
/// the last, the wait after attempt `k` being `2^(k-1)` seconds.
pub open spec fn total_backoff(attempts: nat) -> nat
    decreases attempts,
{
    if attempts <= 1 {
        0
    } else {
        total_backoff((attempts - 1) as nat) + pow2((attempts - 2) as nat)
    }
}

/// What the retry policy decides after attempt number `attempt`
/// (1-indexed) fails: retry with exponential backoff while the failure
/// is retryable and the attempt budget is not exhausted.
pub open spec fn spec_retry_decision(attempt: u8, retryable: bool) -> RetryDecision {
    if retryable && attempt < MAX_ATTEMPTS {
        RetryDecision::Retry { delay_secs: pow2((attempt - 1) as nat) as u64 }
    } else {
        RetryDecision::GiveUp
    }
}

/// Decides what to do after a failed fetch attempt.
pub fn next_fetch_step(attempt: u8, err: &FetchError) -> (r: RetryDecision)
    requires
        1 <= attempt,
    ensures
        r == spec_retry_decision(attempt, err.spec_is_retryable()),
{
    if err.is_retryable() && attempt < MAX_ATTEMPTS {
        let delay: u64 = if attempt == 1 {
            1
        } else {
            2
        };
        proof {
            assert(pow2(0) == 1);
            assert(pow2(1) == 2);
        }
        RetryDecision::Retry { delay_secs: delay }
    } else {
        RetryDecision::GiveUp
    }
}

/// How the catalog client classifies an HTTP status: 404 and 429 are
/// the distinguished terminal errors, any other non-2xx status is a
/// generic HTTP error, and a 2xx status is no error at all.
pub open spec fn spec_classify_status(id: u32, status: u16) -> Option<FetchError> {
    if status == 404 {
        Some(FetchError::NotFound(id))
    } else if status == 429 {
        Some(FetchError::RateLimited)
    } else if !(200 <= status < 300) {
        Some(FetchError::HttpError(status))
    } else {
        None
    }
}

/// Classifies the HTTP status of a fetch attempt for collection `id`.
pub fn classify_status(id: u32, status: u16) -> (r: Option<FetchError>)
    ensures
        r == spec_classify_status(id, status),
{
    if status == 404 {
        Some(FetchError::NotFound(id))
    } else if status == 429 {
        Some(FetchError::RateLimited)
    } else if status < 200 || status >= 300 {
        Some(FetchError::HttpError(status))
    } else {
        None
    }
}

/// With every attempt failing retryably, the client makes exactly
/// three attempts: it retries after the first (waiting one second) and
/// after the second (waiting two seconds), gives up after the third,
/// and the waits total three seconds.
pub proof fn lemma_retry_budget()
    ensures
        spec_retry_decision(1, true) == (RetryDecision::Retry { delay_secs: 1 }),
        spec_retry_decision(2, true) == (RetryDecision::Retry { delay_secs: 2 }),
        forall|k: u8| k >= MAX_ATTEMPTS ==> spec_retry_decision(k, true) == RetryDecision::GiveUp,
        total_backoff(MAX_ATTEMPTS as nat) == 3,
{
    assert(pow2(0) == 1);
    assert(pow2(1) == 2);
    assert(total_backoff(1) == 0);
    assert(total_backoff(2) == 1);
    assert(total_backoff(3) == 3);
}

/// A 429 response is terminal: it is classified as the rate-limited
/// error, which is never retryable, so the client gives up at once,
/// with zero retries whatever the attempt number.
pub proof fn lemma_rate_limited_not_retried(id: u32, attempt: u8)
    ensures
        spec_classify_status(id, 429) == Some(FetchError::RateLimited),
        !FetchError::RateLimited.spec_is_retryable(),
        spec_retry_decision(attempt, false) == RetryDecision::GiveUp,
{
}

/// The catalog endpoint queried for a collection id.
pub fn api_url_for(id: u32) -> (r: String)
    ensures
        r@ == "https://osucollector.com/api/collections/"@ + dec_rep(id as int),
{
    let mut s = String::from_str("https://osucollector.com/api/collections/");
    let digits = u32_to_string(id);
    s.append(digits.as_str());
    s
}

/// The checksums of one archive's sub-entries, in order.
pub open spec fn set_checksums(b: Beatmapset) -> Seq<Seq<char>> {
    Seq::new(b.beatmaps@.len(), |i: int| b.beatmaps@[i].checksum@)
}

/// All checksums of the collection, flattened in order: each archive's
/// sub-entries contribute their checksums one after the other.
pub open spec fn flat_checksums(sets: Seq<Beatmapset>) -> Seq<Seq<char>>
    decreases sets.len(),
{
    if sets.len() == 0 {
        Seq::empty()
    } else {
        set_checksums(sets[0]) + flat_checksums(sets.drop_first())
    }
}

proof fn lemma_flat_checksums_push(sets: Seq<Beatmapset>, b: Beatmapset)
    ensures
        flat_checksums(sets.push(b)) == flat_checksums(sets) + set_checksums(b),
    decreases sets.len(),
{
    if sets.len() == 0 {
        assert(sets.push(b)[0] == b);
        assert(sets.push(b).drop_first() =~= Seq::<Beatmapset>::empty());
        assert(flat_checksums(Seq::<Beatmapset>::empty()) == Seq::<Seq<char>>::empty());
        assert(set_checksums(b) + Seq::<Seq<char>>::empty() =~= set_checksums(b));
        assert(Seq::<Seq<char>>::empty() + set_checksums(b) =~= set_checksums(b));
    } else {
        lemma_flat_checksums_push(sets.drop_first(), b);
        assert(sets.push(b).drop_first() =~= sets.drop_first().push(b));
        assert(sets.push(b)[0] == sets[0]);
        assert(set_checksums(sets[0]) + (flat_checksums(sets.drop_first()) + set_checksums(b))
            =~= (set_checksums(sets[0]) + flat_checksums(sets.drop_first())) + set_checksums(b));
    }
}

/// Flattens the collection's archives into the ordered checksum list
/// the index serializer writes.
pub fn collect_checksums(c: &Collection) -> (r: Vec<String>)
    ensures
        r.deep_view() == flat_checksums(c.beatmapsets@),
{
    let mut out: Vec<String> = Vec::new();
    let n = c.beatmapsets.len();
    let mut i: usize = 0;
    proof {
        assert(c.beatmapsets@.take(0) =~= Seq::<Beatmapset>::empty());
        assert(out.deep_view() =~= flat_checksums(c.beatmapsets@.take(0)));
    }
    while i < n
        invariant
            0 <= i <= n,
            n == c.beatmapsets@.len(),
            out.deep_view() == flat_checksums(c.beatmapsets@.take(i as int)),
        decreases n - i,
    {
        let set = &c.beatmapsets[i];
        let m = set.beatmaps.len();
        let mut j: usize = 0;
        while j < m
            invariant
                0 <= j <= m,
                0 <= i < n,
                n == c.beatmapsets@.len(),
                m == set.beatmaps@.len(),
                set == c.beatmapsets@[i as int],
                out.deep_view() == flat_checksums(c.beatmapsets@.take(i as int))
                    + set_checksums(*set).take(j as int),
            decreases m - j,
        {
            let s = set.beatmaps[j].checksum.clone();
            let ghost sv = s@;
            let ghost pre = out@;
            let ghost pre_deep = out.deep_view();
            proof {
                assert(sv == set.beatmaps@[j as int].checksum@);
                assert(set_checksums(*set).take(j + 1) =~= set_checksums(*set).take(
                    j as int,
                ).push(set.beatmaps@[j as int].checksum@));
            }
            out.push(s);
            proof {
                let rhs = flat_checksums(c.beatmapsets@.take(i as int)) + set_checksums(
                    *set,
                ).take(j + 1);
                assert(out.deep_view().len() == out@.len());
                assert(pre_deep.len() == pre.len());
                assert(out@.len() == pre.len() + 1);
                assert(set_checksums(*set).take(j + 1).len() == j + 1);
                assert(out.deep_view().len() == rhs.len());
                assert forall|k: int| 0 <= k < rhs.len() implies out.deep_view()[k] == rhs[k] by {
                    assert(out.deep_view()[k] == out@[k]@);
                    if k < pre.len() {
                        assert(out@[k] == pre[k]);
                        assert(pre_deep[k] == pre[k]@);
                    } else {
                        assert(out@[k] == pre.push(out@[k])[k]);
                        assert(out@[k]@ == sv);
                    }
                }
                assert(out.deep_view() =~= rhs);
            }
            j = j + 1;
        }
        proof {
            lemma_flat_checksums_push(c.beatmapsets@.take(i as int), *set);
            assert(c.beatmapsets@.take(i as int).push(*set) =~= c.beatmapsets@.take(i + 1));
            assert(set_checksums(*set).take(m as int) =~= set_checksums(*set));
        }
        i = i + 1;
    }
    proof {
        assert(c.beatmapsets@.take(n as int) =~= c.beatmapsets@);
    }
    out
}

/// The folder name for a fetched collection: its sanitized name, a
/// dash, and its decimal id.
pub fn generate_collection_folder_name(collection: &Collection) -> (r: String)
    ensures
        r@ == sanitize_spec(collection.name@) + "-"@ + dec_rep(collection.id as int),
{
    let mut s = sanitize_filename(collection.name.as_str());
    s.append("-");
    let digits = u32_to_string(collection.id);
    s.append(digits.as_str());
    s
}

} // verus!
