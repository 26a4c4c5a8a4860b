//! Core data model: match identity, per-match slot tables, per-event
//! registries, and the manager that composes them.

pub mod openscout;
pub mod os_data;
pub mod schedule;
pub mod season;
pub mod theblueallience;

use vstd::prelude::*;

use crate::assignments::Position;
use crate::assoc::assoc_map;
use crate::assoc::lemma_assoc_map_absent;
use crate::assoc::lemma_assoc_map_last;
use crate::assoc::lemma_assoc_map_push;
use crate::assoc::lemma_assoc_map_update_last;
use crate::data::openscout::auth_satisfies;
use crate::data::openscout::spec_level_below;
use crate::data::openscout::Auth;
use crate::data::openscout::AuthLevel;
use crate::data::schedule::CacheEntryView;
use crate::data::schedule::FetchOutcome;
use crate::data::schedule::ScheduleCache;
use crate::numerals::spec_digits;
use crate::numerals::u32_digits;
use vstd::string::StringExecFns;

verus! {

/// The level of play a match belongs to.
#[derive(Debug, Clone, Copy, PartialEq, Eq, Structural)]
pub enum Complevel {
    Practice,
    Qualifier,
    Semifinal,
    Final,
}

impl Complevel {
    /// The name under which reports for this level are filed in the report
    /// store.
    pub fn level_name(&self) -> (s: &'static str)
        ensures
            self == Complevel::Practice ==> s@ == "Practice"@,
            self == Complevel::Qualifier ==> s@ == "Qualifier"@,
            self == Complevel::Semifinal ==> s@ == "Semifinal"@,
            self == Complevel::Final ==> s@ == "Final"@,
    {
        match self {
            Complevel::Practice => "Practice",
            Complevel::Qualifier => "Qualifier",
            Complevel::Semifinal => "Semifinal",
            Complevel::Final => "Final",
        }
    }
}

/// A match identity within one event: a number plus the level of play.
#[derive(Debug, Clone, Copy, PartialEq, Eq, Structural)]
pub struct MatchNumber {
    pub number: u32,
    pub level: Complevel,
}

/// Why no schedule-feed key exists for a match.
#[derive(Debug, Clone, Copy, PartialEq, Eq, Structural)]
pub enum MatchKeyError {
    /// Practice matches are not recorded by the schedule feed.
    PracticeNotRecorded,
}

impl MatchNumber {
    /// The schedule-feed key text of this match, if the feed records the
    /// level at all: `qm<n>` for qualifiers, `sf<n>m1` for semifinals,
    /// `f1m<n>` for finals, and nothing for practice matches.
    pub open spec fn spec_tba_string(self) -> Option<Seq<char>> {
        match self.level {
            Complevel::Practice => None,
            Complevel::Qualifier => Some("qm"@ + spec_digits(self.number as int)),
            Complevel::Semifinal => Some("sf"@ + spec_digits(self.number as int) + "m1"@),
            Complevel::Final => Some("f1m"@ + spec_digits(self.number as int)),
        }
    }

    /// Renders the schedule-feed key of this match; practice matches have
    /// none and are rejected.
    pub fn get_tba_string(&self) -> (r: Result<String, MatchKeyError>)
        ensures
            r matches Ok(s) ==> self.spec_tba_string() == Some(s@),
            r is Err <==> self.level == Complevel::Practice,
    {
        match self.level {
            Complevel::Practice => Err(MatchKeyError::PracticeNotRecorded),
            Complevel::Qualifier => {
                let digits = u32_digits(self.number);
                Ok(String::from_str("qm").concat(digits.as_str()))
            },
            Complevel::Semifinal => {
                let digits = u32_digits(self.number);
                let mut s = String::from_str("sf");
                s.append(digits.as_str());
                s.append("m1");
                Ok(s)
            },
            Complevel::Final => {
                let digits = u32_digits(self.number);
                Ok(String::from_str("f1m").concat(digits.as_str()))
            },
        }
    }
}

/// Which alliance a statement is about.
#[derive(Debug, Clone, Copy, PartialEq, Eq, Structural)]
pub enum Allience {
    RED,
    BLUE,
}

/// One entry of the event directory served by the schedule feed.
#[derive(Debug, Clone, PartialEq, Eq)]
pub struct Eventdata {
    pub key: String,
    pub name: String,
}

/// A scout's pit observations for one team at one event.
#[derive(Debug, Clone, PartialEq, Eq)]
pub struct TeamPitReport {
    pub team_number: u32,
    pub team_member: String,
    pub event: String,
    pub data: season::PitData2024,
}

/// A failure to produce an assignment for a request.
#[derive(Debug, Clone, Copy, PartialEq, Eq, Structural)]
pub enum AssignmentError {
    /// The schedule feed failed and no cached snapshot exists for the
    /// event, so no answer can be produced at all.
    ScheduleUnavailable,
    /// The request references an event the system has never seen a
    /// schedule for.
    UnknownEvent,
}

/// The answer to an assignment request: where to stand, for which match.
#[derive(Debug, Clone, PartialEq, Eq)]
pub struct ScoutingAssignment {
    pub event: String,
    pub match_number: MatchNumber,
    pub slot: Position,
    pub team_number: u32,
}

/// Tracks which of the six observation stations of one match are filled.
///
/// The six stations form a closed set, so the table is six fixed flags
/// rather than a general map: an entry per station, never added or removed,
/// only flipped from unfilled to filled.
#[derive(Debug, Clone, Copy, PartialEq, Eq, Structural)]
pub struct Match {
    pub red1: bool,
    pub red2: bool,
    pub red3: bool,
    pub blue1: bool,
    pub blue2: bool,
    pub blue3: bool,
}

impl Match {
    /// Whether the given station has been claimed.
    pub open spec fn spec_filled(self, p: Position) -> bool {
        match p {
            Position::RED1 => self.red1,
            Position::RED2 => self.red2,
            Position::RED3 => self.red3,
            Position::BLUE1 => self.blue1,
            Position::BLUE2 => self.blue2,
            Position::BLUE3 => self.blue3,
        }
    }

    /// The table with every station unfilled.
    pub open spec fn spec_empty() -> Match {
        Match { red1: false, red2: false, red3: false, blue1: false, blue2: false, blue3: false }
    }

    /// The table with station `p` additionally claimed.
    pub open spec fn spec_fill(self, p: Position) -> Match {
        match p {
            Position::RED1 => Match { red1: true, ..self },
            Position::RED2 => Match { red2: true, ..self },
            Position::RED3 => Match { red3: true, ..self },
            Position::BLUE1 => Match { blue1: true, ..self },
            Position::BLUE2 => Match { blue2: true, ..self },
            Position::BLUE3 => Match { blue3: true, ..self },
        }
    }

    /// The first unclaimed station in enumeration order, if any.
    pub open spec fn spec_first_open(self) -> Option<Position> {
        if !self.red1 {
            Some(Position::RED1)
        } else if !self.red2 {
            Some(Position::RED2)
        } else if !self.red3 {
            Some(Position::RED3)
        } else if !self.blue1 {
            Some(Position::BLUE1)
        } else if !self.blue2 {
            Some(Position::BLUE2)
        } else if !self.blue3 {
            Some(Position::BLUE3)
        } else {
            None
        }
    }

    /// Whether every station has been claimed.
    pub open spec fn spec_full(self) -> bool {
        self.red1 && self.red2 && self.red3 && self.blue1 && self.blue2 && self.blue3
    }

    /// How many stations have been claimed, from 0 to 6.
    pub open spec fn spec_num_filled(self) -> int {
        (if self.red1 { 1int } else { 0 }) + (if self.red2 { 1int } else { 0 })
            + (if self.red3 { 1int } else { 0 }) + (if self.blue1 { 1int } else { 0 })
            + (if self.blue2 { 1int } else { 0 }) + (if self.blue3 { 1int } else { 0 })
    }

    /// A fresh table: all six stations present and unfilled.
    pub fn new() -> (m: Match)
        ensures
            m == Match::spec_empty(),
            forall|p: Position| !m.spec_filled(p),
    {
        Match { red1: false, red2: false, red3: false, blue1: false, blue2: false, blue3: false }
    }

    /// Whether the given station has been claimed.
    pub fn filled(&self, p: Position) -> (b: bool)
        ensures
            b == self.spec_filled(p),
    {
        match p {
            Position::RED1 => self.red1,
            Position::RED2 => self.red2,
            Position::RED3 => self.red3,
            Position::BLUE1 => self.blue1,
            Position::BLUE2 => self.blue2,
            Position::BLUE3 => self.blue3,
        }
    }

    /// Claims and returns the first unclaimed station in enumeration order.
    ///
    /// When every station is already claimed the call still answers rather
    /// than failing: it returns a uniformly random station and leaves the
    /// fill state untouched, a deliberate best-effort duplicate for matches
    /// observed by more scouts than there are stations.
    pub fn get_assignment(&mut self) -> (p: Position)
        ensures
            old(self).spec_first_open() matches Some(q) ==> p == q && *final(self) == old(
                self,
            ).spec_fill(q),
            old(self).spec_first_open() is None ==> *final(self) == *old(self),
    {
        if !self.red1 {
            self.red1 = true;
            Position::RED1
        } else if !self.red2 {
            self.red2 = true;
            Position::RED2
        } else if !self.red3 {
            self.red3 = true;
            Position::RED3
        } else if !self.blue1 {
            self.blue1 = true;
            Position::BLUE1
        } else if !self.blue2 {
            self.blue2 = true;
            Position::BLUE2
        } else if !self.blue3 {
            self.blue3 = true;
            Position::BLUE3
        } else {
            Position::from_index(random_station_index())
        }
    }
}

/// Relies on rand::random_range: a sample from the non-empty range `0..6`,
/// drawn uniformly with the thread-local generator, lies in that range.
#[verifier::external_body]
fn random_station_index() -> (r: usize)
    ensures
        r < 6,
{
    rand::random_range(0..6usize)
}

/// The station the table hands out is never one that was already claimed,
/// and claiming it raises the claimed count by exactly one; the count
/// reaches its maximum of six exactly when no station is open.  Together
/// these give the allocation guarantee: as long as the table is not full,
/// every call claims a station that no earlier call has handed out, so six
/// calls from a fresh table return six distinct stations and leave every
/// station filled.
pub proof fn lemma_allocation_progress(t: Match)
    ensures
        t.spec_first_open() matches Some(p) ==> !t.spec_filled(p) && t.spec_fill(p).spec_filled(p)
            && t.spec_fill(p).spec_num_filled() == t.spec_num_filled() + 1,
        t.spec_first_open() is None <==> t.spec_full(),
        t.spec_full() <==> t.spec_num_filled() == 6,
        t.spec_full() <==> (forall|p: Position| t.spec_filled(p)),
{
    if t.spec_full() {
        assert(forall|p: Position| t.spec_filled(p));
    } else {
        let w = t.spec_first_open().unwrap();
        assert(!t.spec_filled(w));
    }
}

/// Filling a station never unfills another: the set of claimed stations
/// only grows, so a match table moves monotonically from unopened towards
/// full and a claimed station stays claimed.
pub proof fn lemma_fill_monotonic(t: Match, p: Position, q: Position)
    ensures
        t.spec_filled(q) ==> t.spec_fill(p).spec_filled(q),
        t.spec_fill(p).spec_filled(q) ==> t.spec_filled(q) || q == p,
{
}

/// The table after one allocation: the first open station claimed, or the
/// table unchanged when it is already full.
pub open spec fn spec_allocate_once(t: Match) -> Match {
    match t.spec_first_open() {
        Some(p) => t.spec_fill(p),
        None => t,
    }
}

/// The table after `k` allocations.
pub open spec fn spec_allocate_k(t: Match, k: nat) -> Match
    decreases k,
{
    if k == 0 {
        t
    } else {
        spec_allocate_once(spec_allocate_k(t, (k - 1) as nat))
    }
}

/// From a fresh table, the first six allocations hand out the six
/// stations in enumeration order — so any run of up to six allocations
/// returns pairwise distinct stations — and the `k`-th allocation finds
/// exactly `k` stations already claimed.
pub proof fn lemma_fresh_allocation_sequence(k: nat)
    requires
        k < 6,
    ensures
        spec_allocate_k(Match::spec_empty(), k).spec_first_open() == Some(
            Position::spec_from_index(k as int),
        ),
        spec_allocate_k(Match::spec_empty(), k).spec_num_filled() == k,
    decreases k,
{
    if k > 0 {
        lemma_fresh_allocation_sequence((k - 1) as nat);
    }
}

/// After six allocations a fresh table reports every station filled.
pub proof fn lemma_fresh_six_allocations_fill()
    ensures
        spec_allocate_k(Match::spec_empty(), 6).spec_full(),
{
    lemma_fresh_allocation_sequence(5);
    assert(spec_allocate_k(Match::spec_empty(), 6) == spec_allocate_once(
        spec_allocate_k(Match::spec_empty(), 5),
    ));
}

/// Allocation hands no station out twice while the table is under-full.
/// The table is mutated under exclusive access, so two concurrent calls
/// run in some serial order; whichever goes first claims the station it
/// returns, and the one after it finds that station filled and returns a
/// different one.
pub proof fn lemma_serialized_allocations_distinct(t: Match)
    requires
        t.spec_first_open() is Some,
    ensures
        spec_allocate_once(t).spec_filled(t.spec_first_open().unwrap()),
        spec_allocate_once(t).spec_first_open() matches Some(q) ==> q != t.spec_first_open().unwrap(),
{
}

impl DeepView for Match {
    type V = Match;

    open spec fn deep_view(&self) -> Match {
        *self
    }
}

/// The mathematical content of a per-event registry: the watermark and the
/// map from match number to that match's slot table.
pub struct RegistryView {
    pub current_match: u32,
    pub tables: Map<u32, Match>,
}

impl RegistryView {
    /// The registry with no matches referenced yet.
    pub open spec fn empty() -> RegistryView {
        RegistryView { current_match: 0, tables: Map::empty() }
    }

    /// The slot table a registry answers for a match number: the recorded
    /// one, or a fresh all-unfilled table for a match not yet referenced.
    pub open spec fn table_or_fresh(self, n: u32) -> Match {
        if self.tables.contains_key(n) {
            self.tables[n]
        } else {
            Match::spec_empty()
        }
    }

    /// The registry after one allocation against match `n`: the watermark
    /// only moves forward, and the match's table gains its first open
    /// station, or stays as it was when it is already full.
    pub open spec fn after_allocate(self, n: u32) -> RegistryView {
        let w = if n > self.current_match {
            n
        } else {
            self.current_match
        };
        let t0 = self.table_or_fresh(n);
        let t1 = match t0.spec_first_open() {
            Some(q) => t0.spec_fill(q),
            None => t0,
        };
        RegistryView { current_match: w, tables: self.tables.insert(n, t1) }
    }
}

/// Per-event assignment registry: the watermark of the highest match number
/// referenced so far, plus one slot table per referenced match, created
/// lazily on first reference.
#[derive(Debug, Clone)]
pub struct MatchScoutAssignments {
    current_match: u32,
    matches: Vec<(u32, Match)>,
}

impl View for MatchScoutAssignments {
    type V = RegistryView;

    closed spec fn view(&self) -> RegistryView {
        RegistryView { current_match: self.current_match, tables: assoc_map(self.matches@) }
    }
}

impl DeepView for MatchScoutAssignments {
    type V = RegistryView;

    open spec fn deep_view(&self) -> RegistryView {
        self.view()
    }
}

impl MatchScoutAssignments {
    /// A registry that has seen no matches: watermark zero, no tables.
    pub fn new() -> (r: MatchScoutAssignments)
        ensures
            r@ == RegistryView::empty(),
    {
        let r = MatchScoutAssignments { current_match: 0, matches: Vec::new() };
        proof {
            assert(r@.tables =~= Map::<u32, Match>::empty());
            assert(r@ == RegistryView::empty());
        }
        r
    }

    /// The watermark: the highest match number any caller has referenced.
    pub fn current_match(&self) -> (n: u32)
        ensures
            n == self@.current_match,
    {
        self.current_match
    }

    /// Allocates a station for the given match, creating the match's slot
    /// table on first reference.  The watermark moves up to `match_num` if
    /// that is ahead of it and never moves backward, even for a caller that
    /// references an older match.
    pub fn get_assignment(&mut self, match_num: u32) -> (p: Position)
        ensures
            final(self)@ == old(self)@.after_allocate(match_num),
            final(self)@.current_match >= old(self)@.current_match,
            ({
                let t0 = old(self)@.table_or_fresh(match_num);
                match t0.spec_first_open() {
                    Some(q) => p == q,
                    None => true,
                }
            }),
    {
        if match_num > self.current_match {
            self.current_match = match_num;
        }
        let ghost s0 = self.matches@;
        let n = self.matches.len();
        let mut i: usize = n;
        while i > 0 && self.matches[i - 1].0 != match_num
            invariant
                i <= n,
                n == self.matches.len(),
                self.matches@ == s0,
                forall|j: int| i <= j < n ==> (#[trigger] s0[j]).0 != match_num,
            decreases i,
        {
            i = i - 1;
        }
        if i > 0 {
            let idx = i - 1;
            let pair = self.matches[idx];
            let mut tab = pair.1;
            let p = tab.get_assignment();
            self.matches[idx] = (pair.0, tab);
            proof {
                lemma_assoc_map_last::<u32, Match>(s0, idx as int);
                lemma_assoc_map_update_last::<u32, Match>(s0, idx as int, pair.0, tab);
            }
            p
        } else {
            let mut tab = Match::new();
            let p = tab.get_assignment();
            self.matches.push((match_num, tab));
            proof {
                lemma_assoc_map_absent::<u32, Match>(s0, match_num);
                lemma_assoc_map_push::<u32, Match>(s0, match_num, tab);
            }
            p
        }
    }
}

/// The mathematical content of the manager: its configuration, the two
/// registry families, and the schedule cache.
pub struct DataManagerView {
    pub event_list: Seq<Seq<char>>,
    pub enable_auth: bool,
    pub enable_event_check: bool,
    pub global: Map<Seq<char>, RegistryView>,
    pub team: Map<(u32, Seq<char>), RegistryView>,
    pub schedule: Map<Seq<char>, CacheEntryView>,
}

/// The service's in-memory state: the directory of known events, the
/// configuration flags, one assignment registry per event, one per
/// team-and-event pair, and the schedule cache.  Lives for the process
/// lifetime; nothing here is persisted.
#[derive(Debug, Clone)]
pub struct DataManager {
    event_list: Vec<String>,
    enable_auth: bool,
    enable_event_check: bool,
    global_match_assignment: Vec<(String, MatchScoutAssignments)>,
    team_match_assignments: Vec<((u32, String), MatchScoutAssignments)>,
    schedule_cache: ScheduleCache,
}

impl View for DataManager {
    type V = DataManagerView;

    closed spec fn view(&self) -> DataManagerView {
        DataManagerView {
            event_list: self.event_list.deep_view(),
            enable_auth: self.enable_auth,
            enable_event_check: self.enable_event_check,
            global: assoc_map(self.global_match_assignment@),
            team: assoc_map(self.team_match_assignments@),
            schedule: self.schedule_cache@,
        }
    }
}

impl DataManager {
    /// A fresh manager over the given event directory and flags: no
    /// registries, no cached schedules.
    pub fn new(event_list: Vec<String>, enable_auth: bool, enable_event_check: bool) -> (dm:
        DataManager)
        ensures
            dm@.event_list == event_list.deep_view(),
            dm@.enable_auth == enable_auth,
            dm@.enable_event_check == enable_event_check,
            dm@.global == Map::<Seq<char>, RegistryView>::empty(),
            dm@.team == Map::<(u32, Seq<char>), RegistryView>::empty(),
            dm@.schedule == Map::<Seq<char>, CacheEntryView>::empty(),
    {
        let dm = DataManager {
            event_list,
            enable_auth,
            enable_event_check,
            global_match_assignment: Vec::new(),
            team_match_assignments: Vec::new(),
            schedule_cache: ScheduleCache::new(),
        };
        proof {
            assert(dm@.global =~= Map::<Seq<char>, RegistryView>::empty());
            assert(dm@.team =~= Map::<(u32, Seq<char>), RegistryView>::empty());
        }
        dm
    }

    /// Guards writes against reports filed under a mistyped event: the
    /// event must stand in the directory, unless the check is disabled.
    pub fn check_event_key(&self, key: &String) -> (r: Result<(), AssignmentError>)
        ensures
            r is Ok <==> (!self@.enable_event_check || (exists|i: int|
                0 <= i < self@.event_list.len() && self@.event_list[i] == key@)),
            r matches Err(e) ==> e == AssignmentError::UnknownEvent,
    {
        let n = self.event_list.len();
        let mut i: usize = 0;
        let mut found: bool = false;
        while i < n && !found
            invariant
                i <= n,
                n == self@.event_list.len(),
                self.event_list.deep_view() == self@.event_list,
                found ==> (exists|j: int|
                    0 <= j < self@.event_list.len() && self@.event_list[j] == key@),
                !found ==> (forall|j: int| 0 <= j < i ==> self@.event_list[j] != key@),
            decreases n - i,
        {
            if self.event_list[i] == *key {
                proof {
                    assert(self@.event_list[i as int] == self.event_list@[i as int]@);
                    assert(self@.event_list[i as int] == key@);
                }
                found = true;
            }
            i = i + 1;
        }
        if found || !self.enable_event_check {
            Ok(())
        } else {
            Err(AssignmentError::UnknownEvent)
        }
    }

    /// The authorization decision on one request, as configured: with
    /// authorization disabled every request passes; otherwise the
    /// presented key must match the stored credential and the stored
    /// level must not rank below the required one.
    pub fn check_auth(&self, stored: &Auth, presented_key: &String, required: AuthLevel) -> (ok:
        bool)
        ensures
            ok == (!self@.enable_auth || (presented_key@ == stored.key@ && !spec_level_below(
                stored.auth,
                required,
            ))),
    {
        if !self.enable_auth {
            true
        } else {
            auth_satisfies(stored, presented_key, required)
        }
    }

    /// Whether answering for the event requires one upstream fetch first.
    pub fn schedule_needs_fetch(&self, event: &String, now: u64) -> (b: bool)
        ensures
            b == ScheduleCache::spec_needs_fetch(self@.schedule, event@, now),
    {
        self.schedule_cache.needs_fetch(event, now)
    }

    /// Hands the outcome of one upstream fetch to the schedule cache; the
    /// registries and configuration are untouched.
    pub fn apply_schedule_fetch(&mut self, event: &String, outcome: FetchOutcome, now: u64)
        ensures
            outcome matches FetchOutcome::Success(m) ==> final(self)@ == (DataManagerView {
                schedule: old(self)@.schedule.insert(
                    event@,
                    CacheEntryView { snapshot: m@, fetched_at: now },
                ),
                ..old(self)@
            }),
            outcome is Failure ==> final(self)@ == old(self)@,
    {
        self.schedule_cache.apply_fetch(event, outcome, now);
    }

    /// The match currently live for the event, answered from the cache.
    pub fn get_current_match(&self, event: &String, now: u64) -> (r: Result<
        MatchNumber,
        AssignmentError,
    >)
        ensures
            r == ScheduleCache::spec_current_match(self@.schedule, event@, now),
    {
        self.schedule_cache.current_match(event, now)
    }

    /// The position of the team-scoped registry for the pair, searched so
    /// that the entry found is the one the registry map answers with.
    fn find_team_registry(&self, team_number: u32, event: &String) -> (r: Option<usize>)
        ensures
            r matches Some(i) ==> i < self.team_match_assignments@.len()
                && self.team_match_assignments@[i as int].0.deep_view() == (team_number, event@)
                && (forall|j: int|
                i < j < self.team_match_assignments@.len() ==> (
                #[trigger] self.team_match_assignments@[j]).0.deep_view() != (team_number, event@)),
            r is None ==> forall|j: int|
                0 <= j < self.team_match_assignments@.len() ==> (
                #[trigger] self.team_match_assignments@[j]).0.deep_view() != (team_number, event@),
    {
        let n = self.team_match_assignments.len();
        let mut i: usize = n;
        while i > 0 && !(self.team_match_assignments[i - 1].0.0 == team_number
            && self.team_match_assignments[i - 1].0.1 == *event)
            invariant
                i <= n,
                n == self.team_match_assignments@.len(),
                forall|j: int|
                    i <= j < n ==> (#[trigger] self.team_match_assignments@[j]).0.deep_view() != (
                    team_number,
                    event@,
                    ),
            decreases i,
        {
            i = i - 1;
        }
        if i > 0 {
            Some(i - 1)
        } else {
            None
        }
    }

    /// The position of the event-scoped registry, searched so that the
    /// entry found is the one the registry map answers with.
    fn find_global_registry(&self, event: &String) -> (r: Option<usize>)
        ensures
            r matches Some(i) ==> i < self.global_match_assignment@.len()
                && self.global_match_assignment@[i as int].0@ == event@ && (forall|j: int|
                i < j < self.global_match_assignment@.len() ==> (
                #[trigger] self.global_match_assignment@[j]).0@ != event@),
            r is None ==> forall|j: int|
                0 <= j < self.global_match_assignment@.len() ==> (
                #[trigger] self.global_match_assignment@[j]).0@ != event@,
    {
        let n = self.global_match_assignment.len();
        let mut i: usize = n;
        while i > 0 && !(self.global_match_assignment[i - 1].0 == *event)
            invariant
                i <= n,
                n == self.global_match_assignment@.len(),
                forall|j: int|
                    i <= j < n ==> (#[trigger] self.global_match_assignment@[j]).0@ != event@,
            decreases i,
        {
            i = i - 1;
        }
        if i > 0 {
            Some(i - 1)
        } else {
            None
        }
    }

    /// One full assignment request scoped to a team: resolve the current
    /// match from the cached schedule, then allocate a station in the
    /// team's own registry for the event, creating the registry on first
    /// use.  Fails exactly when the cache cannot name a current match;
    /// a full slot table is never a failure.
    pub fn get_team_scouting_assignment(&mut self, event: &String, team_number: u32, now: u64) -> (r:
        Result<ScoutingAssignment, AssignmentError>)
        ensures
            ({
                let cur = ScheduleCache::spec_current_match(old(self)@.schedule, event@, now);
                match r {
                    Err(e) => Err::<MatchNumber, AssignmentError>(e) == cur && final(self)@ == old(
                        self,
                    )@,
                    Ok(a) => {
                        let key = (team_number, event@);
                        let r0 = if old(self)@.team.contains_key(key) {
                            old(self)@.team[key]
                        } else {
                            RegistryView::empty()
                        };
                        let t0 = r0.table_or_fresh(a.match_number.number);
                        &&& cur == Ok::<MatchNumber, AssignmentError>(a.match_number)
                        &&& a.event@ == event@
                        &&& a.team_number == team_number
                        &&& (t0.spec_first_open() matches Some(q) ==> a.slot == q)
                        &&& final(self)@ == (DataManagerView {
                            team: old(self)@.team.insert(
                                key,
                                r0.after_allocate(a.match_number.number),
                            ),
                            ..old(self)@
                        })
                    },
                }
            }),
    {
        let mn = match self.schedule_cache.current_match(event, now) {
            Err(e) => {
                return Err(e);
            },
            Ok(mn) => mn,
        };
        let ghost s0 = self.team_match_assignments@;
        let slot = match self.find_team_registry(team_number, event) {
            Some(idx) => {
                let e = &mut self.team_match_assignments[idx];
                let slot = e.1.get_assignment(mn.number);
                proof {
                    lemma_assoc_map_last::<(u32, String), MatchScoutAssignments>(s0, idx as int);
                    lemma_assoc_map_update_last::<(u32, String), MatchScoutAssignments>(
                        s0,
                        idx as int,
                        s0[idx as int].0,
                        self.team_match_assignments@[idx as int].1,
                    );
                }
                slot
            },
            None => {
                let mut reg = MatchScoutAssignments::new();
                let slot = reg.get_assignment(mn.number);
                proof {
                    lemma_assoc_map_absent::<(u32, String), MatchScoutAssignments>(
                        s0,
                        (team_number, event@),
                    );
                }
                let key = (team_number, event.clone());
                proof {
                    lemma_assoc_map_push::<(u32, String), MatchScoutAssignments>(s0, key, reg);
                }
                self.team_match_assignments.push((key, reg));
                slot
            },
        };
        Ok(
            ScoutingAssignment {
                event: event.clone(),
                match_number: mn,
                slot,
                team_number,
            },
        )
    }

    /// One full assignment request against the event's shared registry:
    /// resolve the current match from the cached schedule, then allocate
    /// a station in the event's registry, creating it on first use.
    pub fn get_global_scouting_assignment(&mut self, event: &String, now: u64) -> (r: Result<
        (Position, MatchNumber),
        AssignmentError,
    >)
        ensures
            ({
                let cur = ScheduleCache::spec_current_match(old(self)@.schedule, event@, now);
                match r {
                    Err(e) => Err::<MatchNumber, AssignmentError>(e) == cur && final(self)@ == old(
                        self,
                    )@,
                    Ok((slot, mn)) => {
                        let r0 = if old(self)@.global.contains_key(event@) {
                            old(self)@.global[event@]
                        } else {
                            RegistryView::empty()
                        };
                        let t0 = r0.table_or_fresh(mn.number);
                        &&& cur == Ok::<MatchNumber, AssignmentError>(mn)
                        &&& (t0.spec_first_open() matches Some(q) ==> slot == q)
                        &&& final(self)@ == (DataManagerView {
                            global: old(self)@.global.insert(
                                event@,
                                r0.after_allocate(mn.number),
                            ),
                            ..old(self)@
                        })
                    },
                }
            }),
    {
        let mn = match self.schedule_cache.current_match(event, now) {
            Err(e) => {
                return Err(e);
            },
            Ok(mn) => mn,
        };
        let ghost s0 = self.global_match_assignment@;
        let slot = match self.find_global_registry(event) {
            Some(idx) => {
                let e = &mut self.global_match_assignment[idx];
                let slot = e.1.get_assignment(mn.number);
                proof {
                    lemma_assoc_map_last::<String, MatchScoutAssignments>(s0, idx as int);
                    lemma_assoc_map_update_last::<String, MatchScoutAssignments>(
                        s0,
                        idx as int,
                        s0[idx as int].0,
                        self.global_match_assignment@[idx as int].1,
                    );
                }
                slot
            },
            None => {
                let mut reg = MatchScoutAssignments::new();
                let slot = reg.get_assignment(mn.number);
                proof {
                    lemma_assoc_map_absent::<String, MatchScoutAssignments>(s0, event@);
                }
                let key = event.clone();
                proof {
                    lemma_assoc_map_push::<String, MatchScoutAssignments>(s0, key, reg);
                }
                self.global_match_assignment.push((key, reg));
                slot
            },
        };
        Ok((slot, mn))
    }
}

} // verus!
