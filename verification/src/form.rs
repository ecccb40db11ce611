//! The state of the form: what the user typed, the results shown and whether
//! a check is running; starting a check and taking in its results.

use vstd::prelude::*;
use vstd::string::*;

use crate::player::PlayerResult;
use crate::text::{parse_u64, parse_u64_or_zero, parse_usernames, player_names, trim, trimmed};

verus! {

/// The form and what it shows.
pub struct AppState {
    /// Player names, separated by commas.
    pub usernames: String,
    /// Minimum account age in days, as typed.
    pub time_days: String,
    /// Minimum number of games, as typed.
    pub min_games: String,
    /// The results of the last check.
    pub results: Vec<PlayerResult>,
    /// A check is running.
    pub loading: bool,
}

/// A check to run: the players and the two thresholds.
pub struct CheckRequest {
    pub players: Vec<String>,
    pub time: u64,
    pub games: u64,
}

/// A typed number: its value, or zero where it is not one.
pub open spec fn number_or_zero(s: Seq<char>) -> u64 {
    match parse_u64(s) {
        Some(v) => v,
        None => 0,
    }
}

impl AppState {
    /// The form as it first appears: no players, 90 days, 300 games.
    pub fn new() -> (r: AppState)
        ensures
            r.usernames@ == Seq::<char>::empty(),
            r.time_days@ == "90"@,
            r.min_games@ == "300"@,
            r.results@.len() == 0,
            !r.loading,
    {
        AppState {
            usernames: String::new(),
            time_days: String::from_str("90"),
            min_games: String::from_str("300"),
            results: Vec::new(),
            loading: false,
        }
    }

    /// Starts a check of the players typed in the form. Nothing happens when
    /// the usernames field holds only white space; otherwise the results
    /// are cleared, the form shows that a check is running, and the check to
    /// run is returned.
    pub fn start_check(&mut self) -> (r: Option<CheckRequest>)
        ensures
            final(self).usernames@ == old(self).usernames@,
            final(self).time_days@ == old(self).time_days@,
            final(self).min_games@ == old(self).min_games@,
            trimmed(old(self).usernames@).len() == 0 ==> {
                &&& r is None
                &&& final(self).results@ == old(self).results@
                &&& final(self).loading == old(self).loading
            },
            trimmed(old(self).usernames@).len() != 0 ==> {
                &&& final(self).loading
                &&& final(self).results@.len() == 0
                &&& r matches Some(req) && {
                    &&& req.players@.len() == player_names(old(self).usernames@).len()
                    &&& forall|k: int|
                        0 <= k < req.players@.len() ==> #[trigger] req.players@[k]@
                            == player_names(old(self).usernames@)[k]
                    &&& req.time == number_or_zero(old(self).time_days@)
                    &&& req.games == number_or_zero(old(self).min_games@)
                }
            },
    {
        if trim(self.usernames.as_str()).is_empty() {
            return None;
        }
        self.loading = true;
        self.results = Vec::new();
        let players = parse_usernames(self.usernames.as_str());
        let time = parse_u64_or_zero(self.time_days.as_str());
        let games = parse_u64_or_zero(self.min_games.as_str());
        Some(CheckRequest { players, time, games })
    }

    /// Takes in the results of the check that was running.
    pub fn receive_results(&mut self, data: Vec<PlayerResult>)
        ensures
            final(self).results@ == data@,
            !final(self).loading,
            final(self).usernames@ == old(self).usernames@,
            final(self).time_days@ == old(self).time_days@,
            final(self).min_games@ == old(self).min_games@,
    {
        self.results = data;
        self.loading = false;
    }
}

} // verus!
