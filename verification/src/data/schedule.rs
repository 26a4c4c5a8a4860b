//! The schedule cache: a rate-limited view of the external schedule feed,
//! and the liveness rule that derives the current match from a snapshot.
//!
//! The cache itself never talks to the feed.  A caller asks
//! [`ScheduleCache::needs_fetch`] whether the snapshot for an event is
//! stale, performs the one upstream request outside the library if so, and
//! hands the outcome to [`ScheduleCache::apply_fetch`]; a failed fetch
//! leaves the last-known-good snapshot in place, trading freshness for
//! availability.

use vstd::prelude::*;

use crate::assoc::assoc_map;
use crate::assoc::lemma_assoc_map_absent;
use crate::assoc::lemma_assoc_map_last;
use crate::assoc::lemma_assoc_map_push;
use crate::assoc::lemma_assoc_map_update_last;
use crate::data::AssignmentError;
use crate::data::MatchNumber;
use crate::data::theblueallience::TbaMatchData;

verus! {

/// How long a fetched snapshot stays fresh, in seconds.  Callers arriving
/// within this window of the last fetch are all answered from the cache,
/// so the feed sees at most one request per event per window even when a
/// whole scouting crew starts a round at once.  The feed's ground truth
/// moves on a scale of minutes, so fifteen seconds of staleness is safe.
pub const SCHEDULE_CACHE_TTL_SECONDS: u64 = 15;

/// How long after its recorded actual start a match is still considered
/// live, in seconds.  A round of the game runs well under three minutes;
/// ten minutes after a match actually started, even a delayed field has
/// moved on, so the next scheduled match is taken as current.
pub const MATCH_DEAD_SECONDS: u64 = 600;

/// One cached snapshot: an event's match list, in the feed's schedule
/// order, and the time it was fetched (seconds of the Unix epoch).
#[derive(Debug, Clone, PartialEq, Eq)]
pub struct CacheEntry {
    pub snapshot: Vec<TbaMatchData>,
    pub fetched_at: u64,
}

/// The mathematical content of a cached snapshot.
pub struct CacheEntryView {
    pub snapshot: Seq<TbaMatchData>,
    pub fetched_at: u64,
}

impl View for CacheEntry {
    type V = CacheEntryView;

    open spec fn view(&self) -> CacheEntryView {
        CacheEntryView { snapshot: self.snapshot@, fetched_at: self.fetched_at }
    }
}

impl DeepView for CacheEntry {
    type V = CacheEntryView;

    open spec fn deep_view(&self) -> CacheEntryView {
        self.view()
    }
}

/// What came back from one upstream schedule request: the converted match
/// list, or any failure at all (network, status, malformed payload,
/// timeout), which the cache treats alike.
#[derive(Debug, Clone)]
pub enum FetchOutcome {
    Success(Vec<TbaMatchData>),
    Failure,
}

/// The index of the last match of the schedule with a recorded actual
/// start, if any match has one.
pub open spec fn spec_last_started(s: Seq<TbaMatchData>) -> Option<int>
    decreases s.len(),
{
    if s.len() == 0 {
        None
    } else if s.last().actual_time > 0 {
        Some(s.len() - 1)
    } else {
        spec_last_started(s.drop_last())
    }
}

/// The liveness rule, on a non-empty schedule in schedule order: the last
/// match that actually started is live; once it has been running longer
/// than [`MATCH_DEAD_SECONDS`] the next scheduled match is current (or it
/// stays current itself when it is the final one); before any match has
/// started, the first of the schedule is current.
pub open spec fn spec_live_index(s: Seq<TbaMatchData>, now: u64) -> int {
    match spec_last_started(s) {
        None => 0,
        Some(i) => if now > s[i].actual_time + MATCH_DEAD_SECONDS {
            if i + 1 < s.len() {
                i + 1
            } else {
                i
            }
        } else {
            i
        },
    }
}

/// The current match a snapshot answers, if the snapshot holds any match.
pub open spec fn spec_current_from_snapshot(s: Seq<TbaMatchData>, now: u64) -> Option<MatchNumber> {
    if s.len() == 0 {
        None
    } else {
        Some(s[spec_live_index(s, now)].match_number)
    }
}

/// A schedule with a recorded actual start somewhere has its last started
/// match at a valid index, which did start.
pub proof fn lemma_last_started_range(s: Seq<TbaMatchData>)
    ensures
        spec_last_started(s) matches Some(i) ==> 0 <= i < s.len() && s[i].actual_time > 0,
    decreases s.len(),
{
    if s.len() > 0 && !(s.last().actual_time > 0) {
        lemma_last_started_range(s.drop_last());
    }
}

/// The live index of a non-empty schedule is a valid index.
pub proof fn lemma_live_index_range(s: Seq<TbaMatchData>, now: u64)
    requires
        s.len() > 0,
    ensures
        0 <= spec_live_index(s, now) < s.len(),
{
    lemma_last_started_range(s);
}

/// A schedule in which no match has a recorded actual start has no last
/// started match.
proof fn lemma_last_started_none(s: Seq<TbaMatchData>)
    requires
        forall|j: int| 0 <= j < s.len() ==> (#[trigger] s[j]).actual_time == 0,
    ensures
        spec_last_started(s) is None,
    decreases s.len(),
{
    if s.len() > 0 {
        assert(forall|j: int|
            0 <= j < s.drop_last().len() ==> (#[trigger] s.drop_last()[j]).actual_time == 0);
        lemma_last_started_none(s.drop_last());
    }
}

/// The match with a recorded actual start that no later match of the
/// schedule has is the last started one.
proof fn lemma_last_started_at(s: Seq<TbaMatchData>, i: int)
    requires
        0 <= i < s.len(),
        s[i].actual_time > 0,
        forall|j: int| i < j < s.len() ==> (#[trigger] s[j]).actual_time == 0,
    ensures
        spec_last_started(s) == Some(i),
    decreases s.len(),
{
    if i < s.len() - 1 {
        assert(forall|j: int|
            i < j < s.drop_last().len() ==> (#[trigger] s.drop_last()[j]).actual_time == 0);
        lemma_last_started_at(s.drop_last(), i);
    }
}

/// Derives the current match from a snapshot by the liveness rule.
pub fn current_from_snapshot(s: &Vec<TbaMatchData>, now: u64) -> (r: Option<MatchNumber>)
    ensures
        r == spec_current_from_snapshot(s@, now),
{
    let n = s.len();
    if n == 0 {
        return None;
    }
    let mut i: usize = n;
    while i > 0 && s[i - 1].actual_time == 0
        invariant
            i <= n,
            n == s@.len(),
            forall|j: int| i <= j < n ==> (#[trigger] s@[j]).actual_time == 0,
        decreases i,
    {
        i = i - 1;
    }
    if i == 0 {
        proof {
            lemma_last_started_none(s@);
        }
        Some(s[0].match_number)
    } else {
        let li = i - 1;
        proof {
            lemma_last_started_at(s@, li as int);
        }
        let at = s[li].actual_time;
        if now > at && now - at > MATCH_DEAD_SECONDS {
            if li + 1 < n {
                Some(s[li + 1].match_number)
            } else {
                Some(s[li].match_number)
            }
        } else {
            Some(s[li].match_number)
        }
    }
}

/// The cache: one snapshot per event the feed has answered for.
#[derive(Debug, Clone)]
pub struct ScheduleCache {
    entries: Vec<(String, CacheEntry)>,
}

impl View for ScheduleCache {
    type V = Map<Seq<char>, CacheEntryView>;

    closed spec fn view(&self) -> Map<Seq<char>, CacheEntryView> {
        assoc_map(self.entries@)
    }
}

/// The age of a snapshot fetched at `fetched_at` as seen at `now`; a clock
/// that moved backward reads as age zero.
pub open spec fn spec_age(fetched_at: u64, now: u64) -> int {
    if now >= fetched_at {
        now - fetched_at
    } else {
        0
    }
}

impl ScheduleCache {
    /// Whether a caller at `now` must refresh the event's snapshot before
    /// the cache can answer for it: there is none, or it has outlived the
    /// freshness window.
    pub open spec fn spec_needs_fetch(
        m: Map<Seq<char>, CacheEntryView>,
        event: Seq<char>,
        now: u64,
    ) -> bool {
        ||| !m.contains_key(event)
        ||| spec_age(m[event].fetched_at, now) > SCHEDULE_CACHE_TTL_SECONDS
    }

    /// What the cache answers for an event at `now`: the current match
    /// derived from the event's snapshot; an event never fetched is
    /// unknown, and an empty snapshot can name no match.
    pub open spec fn spec_current_match(
        m: Map<Seq<char>, CacheEntryView>,
        event: Seq<char>,
        now: u64,
    ) -> Result<MatchNumber, AssignmentError> {
        if !m.contains_key(event) {
            Err(AssignmentError::UnknownEvent)
        } else {
            match spec_current_from_snapshot(m[event].snapshot, now) {
                None => Err(AssignmentError::ScheduleUnavailable),
                Some(mn) => Ok(mn),
            }
        }
    }

    /// An empty cache: no event has a snapshot.
    pub fn new() -> (c: ScheduleCache)
        ensures
            c@ == Map::<Seq<char>, CacheEntryView>::empty(),
    {
        let c = ScheduleCache { entries: Vec::new() };
        proof {
            assert(c@ =~= Map::<Seq<char>, CacheEntryView>::empty());
        }
        c
    }

    /// The position of the event's entry, searched so that the entry
    /// found is the one the cache's map answers with.
    fn find_entry(&self, event: &String) -> (r: Option<usize>)
        ensures
            r matches Some(i) ==> i < self.entries@.len() && self.entries@[i as int].0@ == event@
                && (forall|j: int|
                i < j < self.entries@.len() ==> (#[trigger] self.entries@[j]).0@ != event@),
            r is None ==> forall|j: int|
                0 <= j < self.entries@.len() ==> (#[trigger] self.entries@[j]).0@ != event@,
    {
        let n = self.entries.len();
        let mut i: usize = n;
        while i > 0 && !(self.entries[i - 1].0 == *event)
            invariant
                i <= n,
                n == self.entries@.len(),
                forall|j: int| i <= j < n ==> (#[trigger] self.entries@[j]).0@ != event@,
            decreases i,
        {
            i = i - 1;
        }
        if i > 0 {
            Some(i - 1)
        } else {
            None
        }
    }

    /// Whether a caller at `now` must refresh the event's snapshot.
    pub fn needs_fetch(&self, event: &String, now: u64) -> (b: bool)
        ensures
            b == Self::spec_needs_fetch(self@, event@, now),
    {
        match self.find_entry(event) {
            None => {
                proof {
                    lemma_assoc_map_absent::<String, CacheEntry>(self.entries@, event@);
                }
                true
            },
            Some(i) => {
                proof {
                    lemma_assoc_map_last::<String, CacheEntry>(self.entries@, i as int);
                }
                let fetched_at = self.entries[i].1.fetched_at;
                let age = if now >= fetched_at {
                    now - fetched_at
                } else {
                    0
                };
                age > SCHEDULE_CACHE_TTL_SECONDS
            },
        }
    }

    /// Records the outcome of one upstream fetch for an event, made at
    /// `now`.  A success replaces the event's snapshot; a failure changes
    /// nothing, so the last-known-good snapshot keeps serving.
    pub fn apply_fetch(&mut self, event: &String, outcome: FetchOutcome, now: u64)
        ensures
            outcome matches FetchOutcome::Success(m) ==> final(self)@ == old(self)@.insert(
                event@,
                CacheEntryView { snapshot: m@, fetched_at: now },
            ),
            outcome is Failure ==> final(self)@ == old(self)@,
    {
        match outcome {
            FetchOutcome::Failure => {},
            FetchOutcome::Success(m) => {
                let ghost s0 = self.entries@;
                match self.find_entry(event) {
                    Some(i) => {
                        let key = self.entries[i].0.clone();
                        let entry = CacheEntry { snapshot: m, fetched_at: now };
                        proof {
                            lemma_assoc_map_update_last::<String, CacheEntry>(
                                s0,
                                i as int,
                                s0[i as int].0,
                                entry,
                            );
                        }
                        self.entries[i] = (key, entry);
                    },
                    None => {
                        let entry = CacheEntry { snapshot: m, fetched_at: now };
                        proof {
                            lemma_assoc_map_push::<String, CacheEntry>(s0, *event, entry);
                        }
                        self.entries.push((event.clone(), entry));
                    },
                }
            },
        }
    }

    /// Answers the current match for an event from the cached snapshot.
    pub fn current_match(&self, event: &String, now: u64) -> (r: Result<
        MatchNumber,
        AssignmentError,
    >)
        ensures
            r == Self::spec_current_match(self@, event@, now),
    {
        match self.find_entry(event) {
            None => {
                proof {
                    lemma_assoc_map_absent::<String, CacheEntry>(self.entries@, event@);
                }
                Err(AssignmentError::UnknownEvent)
            },
            Some(i) => {
                proof {
                    lemma_assoc_map_last::<String, CacheEntry>(self.entries@, i as int);
                }
                match current_from_snapshot(&self.entries[i].1.snapshot, now) {
                    None => Err(AssignmentError::ScheduleUnavailable),
                    Some(mn) => Ok(mn),
                }
            },
        }
    }
}

/// At most one upstream request per event per freshness window: once a
/// successful fetch at time `t` has been applied, every caller up to the
/// window's length later sees no need to fetch, so however many callers
/// arrive inside the window, none of them triggers a second request, and
/// all of them are answered from the one snapshot.
pub proof fn lemma_no_refetch_within_ttl(
    m: Map<Seq<char>, CacheEntryView>,
    event: Seq<char>,
    snapshot: Seq<TbaMatchData>,
    t: u64,
    t2: u64,
)
    requires
        t <= t2,
        t2 - t <= SCHEDULE_CACHE_TTL_SECONDS,
    ensures
        !ScheduleCache::spec_needs_fetch(
            m.insert(event, CacheEntryView { snapshot, fetched_at: t }),
            event,
            t2,
        ),
{
}

} // verus!
