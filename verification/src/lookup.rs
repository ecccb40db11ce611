//! The lookup of one player, as a state machine: the caller performs each
//! action it asks for (read the memory cache, read the database, fetch the
//! profile, fetch the statistics) and hands back what came of it, until the
//! machine finishes with a result and says where to keep it.

use vstd::prelude::*;
use vstd::string::*;

use crate::cache::{fresh, is_fresh, DATABASE_TTL_SECS, MEMORY_TTL_SECS};
use crate::checks::{
    check_game, check_time, games_total, lemma_top_ratings, time_check, top_best_rating, top_last_rating, ModeRecord,
    ProfileData, ProfileView,
};
use crate::player::{player_status, verdict, BadGood, GoodBad, PlayerResult, ResultRow};

verus! {

/// Where a lookup stands.
pub enum LookupStage {
    /// Waiting for what the memory cache holds for the player.
    Memory,
    /// Waiting for what the database holds for the player.
    Database,
    /// Waiting for the player's profile.
    Profile,
    /// Waiting for the player's statistics; the age check is done.
    Stats { time_status: GoodBad, age_days: u64, league: String },
    /// The result has been given.
    Finished,
}

pub enum StageView {
    Memory,
    Database,
    Profile,
    Stats { time_status: GoodBad, age_days: u64, league: Seq<char> },
    Finished,
}

impl View for LookupStage {
    type V = StageView;

    open spec fn view(&self) -> StageView {
        match self {
            LookupStage::Memory => StageView::Memory,
            LookupStage::Database => StageView::Database,
            LookupStage::Profile => StageView::Profile,
            LookupStage::Stats { time_status, age_days, league } => StageView::Stats {
                time_status: *time_status,
                age_days: *age_days,
                league: league@,
            },
            LookupStage::Finished => StageView::Finished,
        }
    }
}

/// The lookup of one player, started at `now`, with the minimum age in days
/// (`time`) and the minimum number of games (`game`) to check against.
pub struct PlayerLookup {
    pub name: String,
    pub now: u64,
    pub time: u64,
    pub game: u64,
    pub stage: LookupStage,
}

pub struct LookupView {
    pub name: Seq<char>,
    pub now: u64,
    pub time: u64,
    pub game: u64,
    pub stage: StageView,
}

impl View for PlayerLookup {
    type V = LookupView;

    open spec fn view(&self) -> LookupView {
        LookupView {
            name: self.name@,
            now: self.now,
            time: self.time,
            game: self.game,
            stage: self.stage@,
        }
    }
}

/// What came of the action a lookup asked for.
pub enum LookupEvent {
    /// What the memory cache holds for the player, with its storage time.
    MemoryEntry(Option<(PlayerResult, u64)>),
    /// What the database holds for the player, with its storage time.
    StoredEntry(Option<(PlayerResult, u64)>),
    /// The profile, or why it could not be had, and the time it was read.
    Profile { outcome: Result<ProfileData, String>, now: u64 },
    /// The statistics of each game mode, or why they could not be had.
    Stats(Result<Vec<ModeRecord>, String>),
}

pub enum EventView {
    MemoryEntry(Option<(ResultRow, u64)>),
    StoredEntry(Option<(ResultRow, u64)>),
    Profile { outcome: Result<ProfileView, Seq<char>>, now: u64 },
    Stats(Result<Seq<ModeRecord>, Seq<char>>),
}

pub open spec fn entry_view(e: Option<(PlayerResult, u64)>) -> Option<(ResultRow, u64)> {
    match e {
        Some((r, t)) => Some((r@, t)),
        None => None,
    }
}

impl View for LookupEvent {
    type V = EventView;

    open spec fn view(&self) -> EventView {
        match self {
            LookupEvent::MemoryEntry(e) => EventView::MemoryEntry(entry_view(*e)),
            LookupEvent::StoredEntry(e) => EventView::StoredEntry(entry_view(*e)),
            LookupEvent::Profile { outcome, now } => EventView::Profile {
                outcome: match outcome {
                    Ok(p) => Ok(p@),
                    Err(e) => Err(e@),
                },
                now: *now,
            },
            LookupEvent::Stats(outcome) => EventView::Stats(
                match outcome {
                    Ok(m) => Ok(m@),
                    Err(e) => Err(e@),
                },
            ),
        }
    }
}

/// What a lookup asks its caller to do next.
pub enum LookupAction {
    /// Look the player up in the memory cache.
    ReadMemory,
    /// Look the player up in the database.
    ReadDatabase,
    /// Fetch the profile at this address.
    FetchProfile(String),
    /// Fetch the statistics at this address.
    FetchStats(String),
    /// The lookup is over: `result` is the answer; keep it in the memory
    /// cache with time `remember_at` and in the database with time
    /// `persist_at`, where these are given.
    Finish { result: PlayerResult, remember_at: Option<u64>, persist_at: Option<u64> },
}

pub enum ActionView {
    ReadMemory,
    ReadDatabase,
    FetchProfile(Seq<char>),
    FetchStats(Seq<char>),
    Finish { result: ResultRow, remember_at: Option<u64>, persist_at: Option<u64> },
}

impl View for LookupAction {
    type V = ActionView;

    open spec fn view(&self) -> ActionView {
        match self {
            LookupAction::ReadMemory => ActionView::ReadMemory,
            LookupAction::ReadDatabase => ActionView::ReadDatabase,
            LookupAction::FetchProfile(u) => ActionView::FetchProfile(u@),
            LookupAction::FetchStats(u) => ActionView::FetchStats(u@),
            LookupAction::Finish { result, remember_at, persist_at } => ActionView::Finish {
                result: result@,
                remember_at: *remember_at,
                persist_at: *persist_at,
            },
        }
    }
}

/// The address of a player's public profile.
pub open spec fn profile_url(name: Seq<char>) -> Seq<char> {
    "https://api.chess.com/pub/player/"@ + name
}

/// The address of a player's public statistics.
pub open spec fn stats_url(name: Seq<char>) -> Seq<char> {
    "https://api.chess.com/pub/player/"@ + name + "/stats"@
}

/// The result given when the profile could not be read or checked.
pub open spec fn time_error_row(name: Seq<char>) -> ResultRow {
    ResultRow {
        name,
        status: BadGood::ErrorTime,
        age_days: 0,
        games: 0,
        last_rating: 0,
        best_rating: 0,
        league: "Error"@,
    }
}

/// The result given when the statistics could not be read.
pub open spec fn game_error_row(name: Seq<char>, age_days: u64) -> ResultRow {
    ResultRow {
        name,
        status: BadGood::ErrorGame,
        age_days,
        games: 0,
        last_rating: 0,
        best_rating: 0,
        league: "Error"@,
    }
}

/// The result of both checks.
pub open spec fn checked_row(
    name: Seq<char>,
    time_status: GoodBad,
    age_days: u64,
    league: Seq<char>,
    modes: Seq<ModeRecord>,
    game: u64,
) -> ResultRow {
    let total = games_total(modes);
    ResultRow {
        name,
        status: verdict(
            time_status,
            if total > game {
                GoodBad::Good
            } else {
                GoodBad::Bad
            },
        ),
        age_days,
        games: total as u64,
        last_rating: top_last_rating(modes) as u64,
        best_rating: top_best_rating(modes) as u64,
        league,
    }
}

/// The events a lookup can take in its present stage: the one answering
/// the action it asked for, with storage and join times not after the time
/// they are compared with, and a number of games that fits in a `u64`.
pub open spec fn accepts(s: LookupView, e: EventView) -> bool {
    match (s.stage, e) {
        (StageView::Memory, EventView::MemoryEntry(entry)) => entry matches Some((_, t)) ==> t
            <= s.now,
        (StageView::Database, EventView::StoredEntry(entry)) => entry matches Some((_, t)) ==> t
            <= s.now,
        (StageView::Profile, EventView::Profile { outcome, now }) => outcome matches Ok(p) ==> (
        p.joined matches Some(j) ==> j <= now),
        (StageView::Stats { .. }, EventView::Stats(outcome)) => outcome matches Ok(m)
            ==> games_total(m) <= u64::MAX,
        _ => false,
    }
}

pub open spec fn with_stage(s: LookupView, stage: StageView) -> LookupView {
    LookupView { stage, ..s }
}

pub open spec fn finish(s: LookupView, result: ResultRow, remember_at: Option<u64>, persist_at: Option<u64>) -> (LookupView, ActionView) {
    (with_stage(s, StageView::Finished), ActionView::Finish { result, remember_at, persist_at })
}

/// One step of a lookup: the next state and action for an accepted event.
pub open spec fn lookup_step(s: LookupView, e: EventView) -> (LookupView, ActionView) {
    match e {
        EventView::MemoryEntry(entry) => match entry {
            Some((r, t)) if is_fresh(s.now, t, MEMORY_TTL_SECS) => finish(s, r, None, None),
            _ => (with_stage(s, StageView::Database), ActionView::ReadDatabase),
        },
        EventView::StoredEntry(entry) => match entry {
            Some((r, t)) if is_fresh(s.now, t, DATABASE_TTL_SECS) => finish(s, r, Some(t), None),
            _ => (with_stage(s, StageView::Profile), ActionView::FetchProfile(profile_url(s.name))),
        },
        EventView::Profile { outcome, now } => match outcome {
            Err(_) => finish(s, time_error_row(s.name), None, None),
            Ok(p) => match time_check(p, now, s.time) {
                Err(_) => finish(s, time_error_row(s.name), None, None),
                Ok((time_status, age_days, league)) => (
                    with_stage(s, StageView::Stats { time_status, age_days, league }),
                    ActionView::FetchStats(stats_url(s.name)),
                ),
            },
        },
        EventView::Stats(outcome) => match s.stage {
            StageView::Stats { time_status, age_days, league } => match outcome {
                Err(_) => finish(s, game_error_row(s.name, age_days), None, None),
                Ok(modes) => finish(
                    s,
                    checked_row(s.name, time_status, age_days, league, modes, s.game),
                    Some(s.now),
                    Some(s.now),
                ),
            },
            _ => vstd::pervasive::arbitrary(),
        },
    }
}

fn profile_address(name: &String) -> (r: String)
    ensures
        r@ == profile_url(name@),
{
    String::from_str("https://api.chess.com/pub/player/").concat(name.as_str())
}

fn stats_address(name: &String) -> (r: String)
    ensures
        r@ == stats_url(name@),
{
    profile_address(name).concat("/stats")
}

fn error_result(name: &String, status: BadGood, age_days: u64) -> (r: PlayerResult)
    ensures
        r@ == (ResultRow {
            name: name@,
            status,
            age_days,
            games: 0,
            last_rating: 0,
            best_rating: 0,
            league: "Error"@,
        }),
{
    PlayerResult {
        name: name.clone(),
        status,
        games: 0,
        age_days,
        last_rating: 0,
        best_rating: 0,
        league: String::from_str("Error"),
    }
}

impl PlayerLookup {
    /// Starts the lookup of `name` at `now`; it first asks for the memory
    /// cache.
    pub fn new(name: String, now: u64, time: u64, game: u64) -> (r: (PlayerLookup, LookupAction))
        ensures
            r.0@ == (LookupView { name: name@, now, time, game, stage: StageView::Memory }),
            r.1@ == ActionView::ReadMemory,
    {
        (PlayerLookup { name, now, time, game, stage: LookupStage::Memory }, LookupAction::ReadMemory)
    }

    fn finish_with(
        &mut self,
        result: PlayerResult,
        remember_at: Option<u64>,
        persist_at: Option<u64>,
    ) -> (a: LookupAction)
        ensures
            final(self)@ == with_stage(old(self)@, StageView::Finished),
            a@ == (ActionView::Finish { result: result@, remember_at, persist_at }),
    {
        self.stage = LookupStage::Finished;
        LookupAction::Finish { result, remember_at, persist_at }
    }

    /// Takes what came of the last action and gives the next one.
    pub fn step(&mut self, event: LookupEvent) -> (a: LookupAction)
        requires
            accepts(old(self)@, event@),
        ensures
            (final(self)@, a@) == lookup_step(old(self)@, event@),
    {
        match event {
            LookupEvent::MemoryEntry(entry) => match entry {
                Some((r, t)) => {
                    if fresh(self.now, t, MEMORY_TTL_SECS) {
                        self.finish_with(r, None, None)
                    } else {
                        self.stage = LookupStage::Database;
                        LookupAction::ReadDatabase
                    }
                },
                None => {
                    self.stage = LookupStage::Database;
                    LookupAction::ReadDatabase
                },
            },
            LookupEvent::StoredEntry(entry) => match entry {
                Some((r, t)) => {
                    if fresh(self.now, t, DATABASE_TTL_SECS) {
                        self.finish_with(r, Some(t), None)
                    } else {
                        self.stage = LookupStage::Profile;
                        LookupAction::FetchProfile(profile_address(&self.name))
                    }
                },
                None => {
                    self.stage = LookupStage::Profile;
                    LookupAction::FetchProfile(profile_address(&self.name))
                },
            },
            LookupEvent::Profile { outcome, now } => match outcome {
                Err(_) => {
                    let r = error_result(&self.name, BadGood::ErrorTime, 0);
                    self.finish_with(r, None, None)
                },
                Ok(p) => match check_time(&p, now, self.time) {
                    Err(_) => {
                        let r = error_result(&self.name, BadGood::ErrorTime, 0);
                        self.finish_with(r, None, None)
                    },
                    Ok((time_status, age_days, league)) => {
                        self.stage = LookupStage::Stats { time_status, age_days, league };
                        LookupAction::FetchStats(stats_address(&self.name))
                    },
                },
            },
            LookupEvent::Stats(outcome) => {
                let mut stage = LookupStage::Finished;
                std::mem::swap(&mut stage, &mut self.stage);
                match stage {
                    LookupStage::Stats { time_status, age_days, league } => match outcome {
                        Err(_) => {
                            let r = error_result(&self.name, BadGood::ErrorGame, age_days);
                            self.finish_with(r, None, None)
                        },
                        Ok(modes) => {
                            let (game_status, games, last_rating, best_rating) = check_game(
                                &modes,
                                self.game,
                            );
                            let r = PlayerResult {
                                name: self.name.clone(),
                                status: player_status(time_status, game_status),
                                games,
                                age_days,
                                last_rating,
                                best_rating,
                                league,
                            };
                            let now = self.now;
                            self.finish_with(r, Some(now), Some(now))
                        },
                    },
                    _ => vstd::pervasive::unreached(),
                }
            },
        }
    }
}


/// How far a lookup has gone.
pub open spec fn stage_index(st: StageView) -> int {
    match st {
        StageView::Memory => 0,
        StageView::Database => 1,
        StageView::Profile => 2,
        StageView::Stats { .. } => 3,
        StageView::Finished => 4,
    }
}

/// `a` asks for the event that stage `st` accepts, or finishes the lookup
/// exactly when `st` is the final stage.
pub open spec fn asks_for(st: StageView, a: ActionView) -> bool {
    match (st, a) {
        (StageView::Memory, ActionView::ReadMemory) => true,
        (StageView::Database, ActionView::ReadDatabase) => true,
        (StageView::Profile, ActionView::FetchProfile(_)) => true,
        (StageView::Stats { .. }, ActionView::FetchStats(_)) => true,
        (StageView::Finished, ActionView::Finish { .. }) => true,
        _ => false,
    }
}

/// Every step moves a lookup forward, keeps what it was started with, and
/// asks for exactly what its new stage takes; so a lookup finishes after at
/// most four steps.
pub proof fn lemma_lookup_progresses(s: LookupView, e: EventView)
    requires
        accepts(s, e),
    ensures
        stage_index(lookup_step(s, e).0.stage) > stage_index(s.stage),
        asks_for(lookup_step(s, e).0.stage, lookup_step(s, e).1),
        lookup_step(s, e).0.name == s.name,
        lookup_step(s, e).0.now == s.now,
        lookup_step(s, e).0.time == s.time,
        lookup_step(s, e).0.game == s.game,
{
}

/// A result found in the memory cache and stored less than half an hour ago
/// is given back unchanged, with nothing fetched and nothing stored.
pub proof fn lemma_fresh_memory_entry_served(s: LookupView, r: ResultRow, t: u64)
    requires
        s.stage == StageView::Memory,
        t <= s.now,
        s.now - t < MEMORY_TTL_SECS,
    ensures
        lookup_step(s, EventView::MemoryEntry(Some((r, t)))).1 == (ActionView::Finish {
            result: r,
            remember_at: None,
            persist_at: None,
        }),
{
}

/// A result found in the database and stored less than an hour ago is given
/// back unchanged and kept in the memory cache with its original time.
pub proof fn lemma_fresh_stored_entry_served(s: LookupView, r: ResultRow, t: u64)
    requires
        s.stage == StageView::Database,
        t <= s.now,
        s.now - t < DATABASE_TTL_SECS,
    ensures
        lookup_step(s, EventView::StoredEntry(Some((r, t)))).1 == (ActionView::Finish {
            result: r,
            remember_at: Some(t),
            persist_at: None,
        }),
{
}

/// Only a result that both checks produced is written to the database, and
/// it is then also kept in memory, both under the time the lookup started.
pub proof fn lemma_persisted_results_are_checked(s: LookupView, e: EventView)
    requires
        accepts(s, e),
    ensures
        lookup_step(s, e).1 matches ActionView::Finish { result, remember_at, persist_at } ==> (
        persist_at is Some ==> {
            &&& persist_at == Some(s.now)
            &&& remember_at == Some(s.now)
            &&& result.status != BadGood::ErrorTime
            &&& result.status != BadGood::ErrorGame
            &&& result.name == s.name
        }),
{
}

/// A lookup that fails to read the profile or the statistics gives an error
/// result for the player and keeps it nowhere.
pub proof fn lemma_failures_are_not_kept(s: LookupView, e: EventView)
    requires
        accepts(s, e),
        e is Profile || e is Stats,
    ensures
        lookup_step(s, e).1 matches ActionView::Finish { result, remember_at, persist_at } ==> (
        (result.status == BadGood::ErrorTime || result.status == BadGood::ErrorGame) ==> (
        remember_at is None && persist_at is None && result.name == s.name)),
{
}

/// What a lookup keeps in the memory cache is served unchanged by a later
/// lookup of the same player that starts less than half an hour after the
/// time it was kept under.
pub proof fn lemma_remembered_result_served(
    m: Map<Seq<char>, (ResultRow, u64)>,
    name: Seq<char>,
    r: ResultRow,
    kept_at: u64,
    later: LookupView,
)
    requires
        later.name == name,
        later.stage == StageView::Memory,
        kept_at <= later.now,
        later.now - kept_at < MEMORY_TTL_SECS,
    ensures
        accepts(later, EventView::MemoryEntry(Some(m.insert(name, (r, kept_at))[name]))),
        lookup_step(later, EventView::MemoryEntry(Some(m.insert(name, (r, kept_at))[name]))).1
            == (ActionView::Finish { result: r, remember_at: None, persist_at: None }),
{
}

/// An entry of the memory cache stored at `t` is served exactly when it
/// was stored less than 1800 seconds (half an hour) before the lookup
/// started; otherwise, as when there is no entry, the database is read.
pub proof fn lemma_memory_entry_decision(s: LookupView, entry: Option<(ResultRow, u64)>)
    requires
        s.stage == StageView::Memory,
        entry matches Some((_, t)) ==> t <= s.now,
    ensures
        ({
            let (next, action) = lookup_step(s, EventView::MemoryEntry(entry));
            match entry {
                Some((r, t)) => if s.now - t < 1800 {
                    action == (ActionView::Finish { result: r, remember_at: None, persist_at: None })
                        && next.stage == StageView::Finished
                } else {
                    action == ActionView::ReadDatabase && next.stage == StageView::Database
                },
                None => action == ActionView::ReadDatabase && next.stage == StageView::Database,
            }
        }),
{
}

/// An entry of the database stored at `t` is served, and kept in memory
/// under `t`, exactly when it was stored less than 3600 seconds (an hour)
/// before the lookup started; otherwise, as when there is no entry, the
/// player's profile is fetched.
pub proof fn lemma_stored_entry_decision(s: LookupView, entry: Option<(ResultRow, u64)>)
    requires
        s.stage == StageView::Database,
        entry matches Some((_, t)) ==> t <= s.now,
    ensures
        ({
            let (next, action) = lookup_step(s, EventView::StoredEntry(entry));
            match entry {
                Some((r, t)) => if s.now - t < 3600 {
                    action == (ActionView::Finish {
                        result: r,
                        remember_at: Some(t),
                        persist_at: None,
                    }) && next.stage == StageView::Finished
                } else {
                    action == ActionView::FetchProfile(
                        "https://api.chess.com/pub/player/"@ + s.name,
                    ) && next.stage == StageView::Profile
                },
                None => action == ActionView::FetchProfile(
                    "https://api.chess.com/pub/player/"@ + s.name,
                ) && next.stage == StageView::Profile,
            }
        }),
{
}

/// A profile that cannot be read, or that has no join date, gives the
/// result "error on the age check" for the player: zero age, games and
/// ratings, league `Error`; a statistics body that cannot be read gives
/// "error on the games check" with the age already found. Neither is kept.
pub proof fn lemma_failure_results(s: LookupView, outcome: Result<ProfileView, Seq<char>>, n: u64, e: Seq<char>)
    ensures
        s.stage == StageView::Profile && (outcome is Err || outcome->Ok_0.joined is None) ==>
            lookup_step(s, EventView::Profile { outcome, now: n }).1 == (ActionView::Finish {
                result: ResultRow {
                    name: s.name,
                    status: BadGood::ErrorTime,
                    age_days: 0,
                    games: 0,
                    last_rating: 0,
                    best_rating: 0,
                    league: "Error"@,
                },
                remember_at: None,
                persist_at: None,
            }),
        s.stage is Stats ==> lookup_step(s, EventView::Stats(Err(e))).1 == (ActionView::Finish {
            result: ResultRow {
                name: s.name,
                status: BadGood::ErrorGame,
                age_days: s.stage->age_days,
                games: 0,
                last_rating: 0,
                best_rating: 0,
                league: "Error"@,
            },
            remember_at: None,
            persist_at: None,
        }),
{
}

/// The profile step runs the age check against the lookup's own minimum
/// age: for a profile with a join date `j` read at `n`, the lookup goes on
/// to the statistics with the age `(n - j) / 86400` in whole days, an age
/// verdict that is good exactly when that age exceeds the lookup's `time`,
/// and the league as given (`Unranked` for JSON `null`).
pub proof fn lemma_profile_step_checks_age(s: LookupView, p: ProfileView, n: u64)
    requires
        s.stage == StageView::Profile,
        p.joined is Some,
        p.joined.unwrap() <= n,
    ensures
        ({
            let (next, action) = lookup_step(s, EventView::Profile { outcome: Ok(p), now: n });
            &&& next.stage matches StageView::Stats { time_status, age_days, league }
            &&& next.stage->age_days == (n - p.joined.unwrap()) / 86400
            &&& (next.stage->time_status == GoodBad::Good <==> next.stage->age_days > s.time)
            &&& (p.league == "null"@ ==> next.stage->league == "Unranked"@)
            &&& (p.league != "null"@ ==> next.stage->league == p.league)
            &&& action == ActionView::FetchStats(
                "https://api.chess.com/pub/player/"@ + s.name + "/stats"@,
            )
        }),
{
}

/// The statistics step checks the games played against the lookup's own
/// minimum `game`. The finished result passes the games check (`Good` or
/// `BadTime`) exactly when more than `game` games were played, passes the
/// age check (`Good` or `BadGames`) exactly when the age was found good,
/// and carries the games played, the age, the league and the top ratings.
pub proof fn lemma_stats_step_checks_games(s: LookupView, modes: Seq<ModeRecord>)
    requires
        s.stage is Stats,
        games_total(modes) <= u64::MAX,
    ensures
        ({
            let action = lookup_step(s, EventView::Stats(Ok(modes))).1;
            &&& action matches ActionView::Finish { result, remember_at, persist_at }
            &&& ((action->result.status == BadGood::Good || action->result.status
                == BadGood::BadTime) <==> games_total(modes) > s.game)
            &&& ((action->result.status == BadGood::Good || action->result.status
                == BadGood::BadGames) <==> s.stage->time_status == GoodBad::Good)
            &&& action->result.games == games_total(modes)
            &&& action->result.age_days == s.stage->age_days
            &&& action->result.league == s.stage->league
            &&& action->result.name == s.name
            &&& action->result.last_rating == top_last_rating(modes)
            &&& action->result.best_rating == top_best_rating(modes)
        }),
{
    lemma_top_ratings(modes);
}

} // verus!
