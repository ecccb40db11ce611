//! The verdict on a player and how it is shown: the two partial checks,
//! their combination, the ranking of verdicts and the text of a result row.

use vstd::prelude::*;
use vstd::string::*;

use crate::text::{decimal, to_decimal};

verus! {

/// Outcome of one partial check (account age or number of games).
#[derive(Clone, Copy, Debug, PartialEq, Eq, Structural)]
pub enum GoodBad {
    Good,
    Bad,
}

/// The verdict on a player.
#[derive(Clone, Copy, Debug, PartialEq, Eq, Structural)]
pub enum BadGood {
    Good,
    Bad,
    BadGames,
    BadTime,
    ErrorTime,
    ErrorGame,
}

/// One row of the results: a player and what the checks found.
#[derive(Clone, Debug)]
pub struct PlayerResult {
    pub name: String,
    pub status: BadGood,
    pub age_days: u64,
    pub games: u64,
    pub last_rating: u64,
    pub best_rating: u64,
    pub league: String,
}

/// A result row as a mathematical value.
pub struct ResultRow {
    pub name: Seq<char>,
    pub status: BadGood,
    pub age_days: u64,
    pub games: u64,
    pub last_rating: u64,
    pub best_rating: u64,
    pub league: Seq<char>,
}

impl View for PlayerResult {
    type V = ResultRow;

    open spec fn view(&self) -> ResultRow {
        ResultRow {
            name: self.name@,
            status: self.status,
            age_days: self.age_days,
            games: self.games,
            last_rating: self.last_rating,
            best_rating: self.best_rating,
            league: self.league@,
        }
    }
}

impl PlayerResult {
    /// A copy of this result.
    pub fn duplicate(&self) -> (r: PlayerResult)
        ensures
            r@ == self@,
    {
        PlayerResult {
            name: self.name.clone(),
            status: self.status,
            age_days: self.age_days,
            games: self.games,
            last_rating: self.last_rating,
            best_rating: self.best_rating,
            league: self.league.clone(),
        }
    }
}

/// The verdict for an age check `x` and a games check `y`.
pub open spec fn verdict(x: GoodBad, y: GoodBad) -> BadGood {
    match (x, y) {
        (GoodBad::Good, GoodBad::Good) => BadGood::Good,
        (GoodBad::Bad, GoodBad::Bad) => BadGood::Bad,
        (GoodBad::Bad, GoodBad::Good) => BadGood::BadTime,
        (GoodBad::Good, GoodBad::Bad) => BadGood::BadGames,
    }
}

/// The verdict for an age check `x` and a games check `y`: `Good` when
/// both pass, `Bad` when both fail, and `BadTime` or `BadGames` when only
/// the age or only the games check fails.
pub fn player_status(x: GoodBad, y: GoodBad) -> (r: BadGood)
    ensures
        r == verdict(x, y),
        r == BadGood::Good <==> (x == GoodBad::Good && y == GoodBad::Good),
        r == BadGood::Bad <==> (x == GoodBad::Bad && y == GoodBad::Bad),
        r == BadGood::BadTime <==> (x == GoodBad::Bad && y == GoodBad::Good),
        r == BadGood::BadGames <==> (x == GoodBad::Good && y == GoodBad::Bad),
{
    match (x, y) {
        (GoodBad::Good, GoodBad::Good) => BadGood::Good,
        (GoodBad::Bad, GoodBad::Bad) => BadGood::Bad,
        (GoodBad::Bad, GoodBad::Good) => BadGood::BadTime,
        (GoodBad::Good, GoodBad::Bad) => BadGood::BadGames,
    }
}

/// A verdict is good exactly when both checks pass, bad exactly when both
/// fail, too new exactly when only the age check fails, and too few games
/// exactly when only the games check fails; it is never an error.
pub proof fn lemma_verdict(x: GoodBad, y: GoodBad)
    ensures
        verdict(x, y) == BadGood::Good <==> (x == GoodBad::Good && y == GoodBad::Good),
        verdict(x, y) == BadGood::Bad <==> (x == GoodBad::Bad && y == GoodBad::Bad),
        verdict(x, y) == BadGood::BadTime <==> (x == GoodBad::Bad && y == GoodBad::Good),
        verdict(x, y) == BadGood::BadGames <==> (x == GoodBad::Good && y == GoodBad::Bad),
        verdict(x, y) != BadGood::ErrorTime && verdict(x, y) != BadGood::ErrorGame,
{
}

/// The ranks list good first, then too new, too few games, bad, failed age
/// check and failed games check, each verdict with a rank of its own.
pub proof fn lemma_rank_order()
    ensures
        rank_of(BadGood::Good) < rank_of(BadGood::BadTime),
        rank_of(BadGood::BadTime) < rank_of(BadGood::BadGames),
        rank_of(BadGood::BadGames) < rank_of(BadGood::Bad),
        rank_of(BadGood::Bad) < rank_of(BadGood::ErrorTime),
        rank_of(BadGood::ErrorTime) < rank_of(BadGood::ErrorGame),
        rank_of(BadGood::Good) == 0,
        rank_of(BadGood::ErrorGame) == 5,
{
}

/// The place of a verdict in the results list, best first.
pub open spec fn rank_of(status: BadGood) -> u8 {
    match status {
        BadGood::Good => 0,
        BadGood::BadTime => 1,
        BadGood::BadGames => 2,
        BadGood::Bad => 3,
        BadGood::ErrorTime => 4,
        BadGood::ErrorGame => 5,
    }
}

/// The rank by which results are listed: good, too new, too few games, bad,
/// then the two kinds of error.
pub fn rank_status(status: &BadGood) -> (r: u8)
    ensures
        r == rank_of(*status),
        *status == BadGood::Good ==> r == 0,
        *status == BadGood::BadTime ==> r == 1,
        *status == BadGood::BadGames ==> r == 2,
        *status == BadGood::Bad ==> r == 3,
        *status == BadGood::ErrorTime ==> r == 4,
        *status == BadGood::ErrorGame ==> r == 5,
{
    match status {
        BadGood::Good => 0,
        BadGood::BadTime => 1,
        BadGood::BadGames => 2,
        BadGood::Bad => 3,
        BadGood::ErrorTime => 4,
        BadGood::ErrorGame => 5,
    }
}

/// How a number is shown in a result row: zero stands for a missing value.
pub open spec fn shown(val: u64) -> Seq<char> {
    if val == 0 {
        "N/A"@
    } else {
        decimal(val as nat)
    }
}

/// Shows `val` in decimal, or `N/A` when it is zero.
pub fn display(val: u64) -> (r: String)
    ensures
        r@ == shown(val),
        val == 0 ==> r@ == "N/A"@,
        val != 0 ==> r@ == decimal(val as nat),
{
    if val == 0 {
        String::from_str("N/A")
    } else {
        to_decimal(val)
    }
}


/// Colour in which a verdict is shown.
#[derive(Clone, Copy, Debug, PartialEq, Eq, Structural)]
pub enum StatusColor {
    Green,
    Red,
    Yellow,
    LightYellow,
}

/// The badge text of a verdict.
pub open spec fn badge_text(status: BadGood) -> Seq<char> {
    match status {
        BadGood::Good => "GOOD ✔"@,
        BadGood::Bad => "BAD ✖"@,
        BadGood::BadGames => "LOW GAMES ⚠"@,
        BadGood::BadTime => "TOO NEW ⚠"@,
        BadGood::ErrorTime => "ERROR TIME"@,
        BadGood::ErrorGame => "ERROR GAME"@,
    }
}

/// The badge colour of a verdict.
pub open spec fn badge_color(status: BadGood) -> StatusColor {
    match status {
        BadGood::Good => StatusColor::Green,
        BadGood::Bad => StatusColor::Red,
        BadGood::BadGames => StatusColor::Yellow,
        BadGood::BadTime => StatusColor::LightYellow,
        BadGood::ErrorTime => StatusColor::Red,
        BadGood::ErrorGame => StatusColor::Red,
    }
}

/// The badge shown at the right of a result row.
pub fn status_badge(status: BadGood) -> (r: (String, StatusColor))
    ensures
        r.0@ == badge_text(status),
        r.1 == badge_color(status),
        status == BadGood::Good ==> r.0@ == "GOOD ✔"@ && r.1 == StatusColor::Green,
        status == BadGood::Bad ==> r.0@ == "BAD ✖"@ && r.1 == StatusColor::Red,
        status == BadGood::BadGames ==> r.0@ == "LOW GAMES ⚠"@ && r.1 == StatusColor::Yellow,
        status == BadGood::BadTime ==> r.0@ == "TOO NEW ⚠"@ && r.1 == StatusColor::LightYellow,
        status == BadGood::ErrorTime ==> r.0@ == "ERROR TIME"@ && r.1 == StatusColor::Red,
        status == BadGood::ErrorGame ==> r.0@ == "ERROR GAME"@ && r.1 == StatusColor::Red,
{
    match status {
        BadGood::Good => (String::from_str("GOOD ✔"), StatusColor::Green),
        BadGood::Bad => (String::from_str("BAD ✖"), StatusColor::Red),
        BadGood::BadGames => (String::from_str("LOW GAMES ⚠"), StatusColor::Yellow),
        BadGood::BadTime => (String::from_str("TOO NEW ⚠"), StatusColor::LightYellow),
        BadGood::ErrorTime => (String::from_str("ERROR TIME"), StatusColor::Red),
        BadGood::ErrorGame => (String::from_str("ERROR GAME"), StatusColor::Red),
    }
}

fn framed(before: &str, middle: &str, after: &str) -> (r: String)
    ensures
        r@ == before@ + middle@ + after@,
{
    let s = String::from_str(before);
    let s = s.concat(middle);
    s.concat(after)
}

/// The labels of a result row, left to right.
pub open spec fn row_labels(r: ResultRow) -> Seq<Seq<char>> {
    seq![
        "Name: ["@ + r.name + "]"@,
        "Games: ["@ + shown(r.games) + "]"@,
        "Age: ["@ + shown(r.age_days) + " days]"@,
        "Last_elo: ["@ + shown(r.last_rating) + "]"@,
        "Best_elo: ["@ + shown(r.best_rating) + "]"@,
        "League: ["@ + r.league + "]"@,
    ]
}

/// The text of a result row: name, games, age, last and best rating, league.
pub fn result_labels(r: &PlayerResult) -> (labels: Vec<String>)
    ensures
        labels@.len() == 6,
        forall|k: int| 0 <= k < 6 ==> #[trigger] labels@[k]@ == row_labels(r@)[k],
        labels@[0]@ == "Name: ["@ + r.name@ + "]"@,
        labels@[1]@ == "Games: ["@ + shown(r.games) + "]"@,
        labels@[2]@ == "Age: ["@ + shown(r.age_days) + " days]"@,
        labels@[3]@ == "Last_elo: ["@ + shown(r.last_rating) + "]"@,
        labels@[4]@ == "Best_elo: ["@ + shown(r.best_rating) + "]"@,
        labels@[5]@ == "League: ["@ + r.league@ + "]"@,
{
    let mut labels: Vec<String> = Vec::new();
    labels.push(framed("Name: [", r.name.as_str(), "]"));
    let games = display(r.games);
    labels.push(framed("Games: [", games.as_str(), "]"));
    let age = display(r.age_days);
    labels.push(framed("Age: [", age.as_str(), " days]"));
    let last = display(r.last_rating);
    labels.push(framed("Last_elo: [", last.as_str(), "]"));
    let best = display(r.best_rating);
    labels.push(framed("Best_elo: [", best.as_str(), "]"));
    labels.push(framed("League: [", r.league.as_str(), "]"));
    labels
}

} // verus!
