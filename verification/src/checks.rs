//! The two checks run on a player's public chess.com data: account age and
//! number of games played, with the ratings read on the way.

use vstd::prelude::*;
use vstd::string::*;

use crate::player::GoodBad;

verus! {

/// Seconds in a day; ages are counted in whole days.
pub const SECONDS_PER_DAY: u64 = 86400;

/// What the age check reads of a player's profile.
pub struct ProfileData {
    /// The `joined` field as an unsigned integer (seconds since the epoch),
    /// if the profile has one.
    pub joined: Option<u64>,
    /// The `league` field written back as JSON text (`null` when absent).
    pub league: String,
}

pub struct ProfileView {
    pub joined: Option<u64>,
    pub league: Seq<char>,
}

impl View for ProfileData {
    type V = ProfileView;

    open spec fn view(&self) -> ProfileView {
        ProfileView { joined: self.joined, league: self.league@ }
    }
}

/// What the games check reads of one game mode in a player's statistics;
/// a field is `None` where the statistics hold no unsigned integer there.
#[derive(Clone, Copy, Debug, PartialEq, Eq, Structural)]
pub struct ModeRecord {
    pub win: Option<u64>,
    pub loss: Option<u64>,
    pub draw: Option<u64>,
    pub last_rating: Option<u64>,
    pub best_rating: Option<u64>,
}

/// The game modes whose statistics are read, in the order they are read.
pub open spec fn stat_mode_names() -> Seq<Seq<char>> {
    seq!["chess_daily"@, "chess_rapid"@, "chess_bullet"@, "chess_blitz"@]
}

/// The keys of the game modes in a player's statistics.
pub fn stat_modes() -> (r: Vec<String>)
    ensures
        r@.len() == 4,
        forall|k: int| 0 <= k < 4 ==> #[trigger] r@[k]@ == stat_mode_names()[k],
        r@[0]@ == "chess_daily"@,
        r@[1]@ == "chess_rapid"@,
        r@[2]@ == "chess_bullet"@,
        r@[3]@ == "chess_blitz"@,
{
    let mut r: Vec<String> = Vec::new();
    r.push(String::from_str("chess_daily"));
    r.push(String::from_str("chess_rapid"));
    r.push(String::from_str("chess_bullet"));
    r.push(String::from_str("chess_blitz"));
    r
}

/// The league as shown: `Unranked` where the profile has none.
pub open spec fn league_label(league: Seq<char>) -> Seq<char> {
    if league == "null"@ {
        "Unranked"@
    } else {
        league
    }
}

/// Whole days from `joined` to `now`.
pub open spec fn age_in_days(now: u64, joined: u64) -> u64 {
    ((now - joined) / (SECONDS_PER_DAY as int)) as u64
}

/// The outcome of the age check on `profile` at time `now` against a
/// minimum age of `time` days.
pub open spec fn time_check(profile: ProfileView, now: u64, time: u64) -> Result<
    (GoodBad, u64, Seq<char>),
    Seq<char>,
> {
    match profile.joined {
        None => Err("No joined field"@),
        Some(joined) => {
            let age = age_in_days(now, joined);
            Ok(
                (
                    if age > time {
                        GoodBad::Good
                    } else {
                        GoodBad::Bad
                    },
                    age,
                    league_label(profile.league),
                ),
            )
        },
    }
}

/// Age check: the account must be older than `time` whole days at `now`.
/// Returns the verdict, the age in days and the league label; fails when the
/// profile has no join date.
pub fn check_time(profile: &ProfileData, now: u64, time: u64) -> (r: Result<
    (GoodBad, u64, String),
    String,
>)
    requires
        profile.joined matches Some(joined) ==> joined <= now,
    ensures
        match (r, time_check(profile@, now, time)) {
            (Ok((s, a, l)), Ok((ts, ta, tl))) => s == ts && a == ta && l@ == tl,
            (Err(e), Err(te)) => e@ == te,
            _ => false,
        },
        profile.joined is None ==> r == Err::<(GoodBad, u64, String), String>(r->Err_0) && r->Err_0@
            == "No joined field"@,
        profile.joined matches Some(joined) ==> (r matches Ok((s, a, l)) && {
            &&& a == (now - joined) / 86400
            &&& (s == GoodBad::Good <==> a > time)
            &&& (profile.league@ == "null"@ ==> l@ == "Unranked"@)
            &&& (profile.league@ != "null"@ ==> l@ == profile.league@)
        }),
{
    proof {
        lemma_age_check(profile@, now, time);
    }
    match profile.joined {
        None => Err(String::from_str("No joined field")),
        Some(joined) => {
            let age_days = (now - joined) / SECONDS_PER_DAY;
            let status = if age_days > time {
                GoodBad::Good
            } else {
                GoodBad::Bad
            };
            let null = String::from_str("null");
            let league = if profile.league == null {
                String::from_str("Unranked")
            } else {
                profile.league.clone()
            };
            Ok((status, age_days, league))
        },
    }
}

pub open spec fn or_zero(v: Option<u64>) -> nat {
    match v {
        Some(x) => x as nat,
        None => 0,
    }
}

/// Games (won, lost and drawn) over all modes of `modes`.
pub open spec fn games_total(modes: Seq<ModeRecord>) -> nat
    decreases modes.len(),
{
    if modes.len() == 0 {
        0
    } else {
        let m = modes.last();
        games_total(modes.drop_last()) + or_zero(m.win) + or_zero(m.loss) + or_zero(m.draw)
    }
}

/// The highest current rating over `modes` (zero if none).
pub open spec fn top_last_rating(modes: Seq<ModeRecord>) -> nat
    decreases modes.len(),
{
    if modes.len() == 0 {
        0
    } else {
        let r = or_zero(modes.last().last_rating);
        let rest = top_last_rating(modes.drop_last());
        if r > rest {
            r
        } else {
            rest
        }
    }
}

/// The highest best-ever rating over `modes` (zero if none).
pub open spec fn top_best_rating(modes: Seq<ModeRecord>) -> nat
    decreases modes.len(),
{
    if modes.len() == 0 {
        0
    } else {
        let r = or_zero(modes.last().best_rating);
        let rest = top_best_rating(modes.drop_last());
        if r > rest {
            r
        } else {
            rest
        }
    }
}

proof fn lemma_games_total_prefix(modes: Seq<ModeRecord>, i: int)
    requires
        0 <= i <= modes.len(),
    ensures
        games_total(modes.subrange(0, i)) <= games_total(modes),
    decreases modes.len() - i,
{
    if i < modes.len() {
        lemma_games_total_prefix(modes, i + 1);
        assert(modes.subrange(0, i + 1).drop_last() =~= modes.subrange(0, i));
    } else {
        assert(modes.subrange(0, i) =~= modes);
    }
}

/// The age check on a profile with a join date: the age is the number of
/// whole days from the join date to `now`, the verdict is good exactly when
/// that age exceeds `time`, and the league is shown as given except that
/// JSON `null` reads `Unranked`; without a join date the check fails.
pub proof fn lemma_age_check(profile: ProfileView, now: u64, time: u64)
    requires
        profile.joined matches Some(j) ==> j <= now,
    ensures
        profile.joined is None ==> time_check(profile, now, time) == Err::<
            (GoodBad, u64, Seq<char>),
            Seq<char>,
        >("No joined field"@),
        profile.joined matches Some(j) ==> (time_check(profile, now, time) matches Ok((s, a, l))
            && {
            &&& a == (now - j) / 86400
            &&& (s == GoodBad::Good <==> a > time)
            &&& (profile.league == "null"@ ==> l == "Unranked"@)
            &&& (profile.league != "null"@ ==> l == profile.league)
        }),
{
}

/// The games over a list of modes add up: the total of two lists one after
/// the other is the sum of their totals, and one mode counts its wins,
/// losses and draws.
pub proof fn lemma_games_total_adds(a: Seq<ModeRecord>, b: Seq<ModeRecord>)
    ensures
        games_total(a + b) == games_total(a) + games_total(b),
        games_total(Seq::<ModeRecord>::empty()) == 0,
        b.len() == 1 ==> games_total(b) == or_zero(b[0].win) + or_zero(b[0].loss) + or_zero(
            b[0].draw,
        ),
    decreases b.len(),
{
    if b.len() == 0 {
        assert(a + b =~= a);
    } else {
        assert((a + b).drop_last() =~= a + b.drop_last());
        lemma_games_total_adds(a, b.drop_last());
        if b.len() == 1 {
            assert(b.drop_last() =~= Seq::<ModeRecord>::empty());
        }
    }
}

/// The top current and best-ever ratings are the largest over all modes
/// (a missing rating counting as zero): each mode's rating is at most the
/// top, and the top is zero or the rating of some mode.
pub proof fn lemma_top_ratings(modes: Seq<ModeRecord>)
    ensures
        forall|k: int| 0 <= k < modes.len() ==> top_last_rating(modes) >= or_zero(
            #[trigger] modes[k].last_rating,
        ),
        forall|k: int| 0 <= k < modes.len() ==> top_best_rating(modes) >= or_zero(
            #[trigger] modes[k].best_rating,
        ),
        top_last_rating(modes) == 0 || exists|k: int|
            0 <= k < modes.len() && #[trigger] modes[k].last_rating is Some && or_zero(modes[k].last_rating) == top_last_rating(modes),
        top_best_rating(modes) == 0 || exists|k: int|
            0 <= k < modes.len() && #[trigger] modes[k].best_rating is Some && or_zero(modes[k].best_rating) == top_best_rating(modes),
    decreases modes.len(),
{
    if modes.len() > 0 {
        let rest = modes.drop_last();
        lemma_top_ratings(rest);
        let n = modes.len() - 1;
        assert forall|k: int| 0 <= k < modes.len() implies top_last_rating(modes) >= or_zero(
            #[trigger] modes[k].last_rating,
        ) by {
            if k < n {
                assert(modes[k] == rest[k]);
            }
        }
        assert forall|k: int| 0 <= k < modes.len() implies top_best_rating(modes) >= or_zero(
            #[trigger] modes[k].best_rating,
        ) by {
            if k < n {
                assert(modes[k] == rest[k]);
            }
        }
        if top_last_rating(modes) != 0 {
            if top_last_rating(modes) == top_last_rating(rest) && top_last_rating(rest) != 0 {
                let k = choose|k: int|
                    0 <= k < rest.len() && #[trigger] rest[k].last_rating is Some && or_zero(rest[k].last_rating) == top_last_rating(rest);
                assert(modes[k] == rest[k]);
            } else {
                assert(modes[n].last_rating is Some && or_zero(modes[n].last_rating) == top_last_rating(modes));
            }
        }
        if top_best_rating(modes) != 0 {
            if top_best_rating(modes) == top_best_rating(rest) && top_best_rating(rest) != 0 {
                let k = choose|k: int|
                    0 <= k < rest.len() && #[trigger] rest[k].best_rating is Some && or_zero(rest[k].best_rating) == top_best_rating(rest);
                assert(modes[k] == rest[k]);
            } else {
                assert(modes[n].best_rating is Some && or_zero(modes[n].best_rating) == top_best_rating(modes));
            }
        }
    }
}

/// Games check: the player must have played more than `game` games over all
/// modes. Returns the verdict, the number of games, the highest current
/// rating and the highest best-ever rating.
pub fn check_game(modes: &Vec<ModeRecord>, game: u64) -> (r: (GoodBad, u64, u64, u64))
    requires
        games_total(modes@) <= u64::MAX,
    ensures
        r.1 == games_total(modes@),
        r.0 == (if games_total(modes@) > game {
            GoodBad::Good
        } else {
            GoodBad::Bad
        }),
        r.2 == top_last_rating(modes@),
        r.3 == top_best_rating(modes@),
        r.0 == GoodBad::Good <==> r.1 > game,
        forall|k: int| 0 <= k < modes@.len() ==> r.2 >= or_zero(#[trigger] modes@[k].last_rating),
        forall|k: int| 0 <= k < modes@.len() ==> r.3 >= or_zero(#[trigger] modes@[k].best_rating),
        r.2 == 0 || exists|k: int|
            0 <= k < modes@.len() && #[trigger] modes@[k].last_rating == Some(r.2),
        r.3 == 0 || exists|k: int|
            0 <= k < modes@.len() && #[trigger] modes@[k].best_rating == Some(r.3),
{
    proof {
        lemma_top_ratings(modes@);
    }
    let mut total: u64 = 0;
    let mut current_best: u64 = 0;
    let mut best_best: u64 = 0;
    let mut i: usize = 0;
    while i < modes.len()
        invariant
            i <= modes@.len(),
            games_total(modes@) <= u64::MAX,
            total == games_total(modes@.subrange(0, i as int)),
            current_best == top_last_rating(modes@.subrange(0, i as int)),
            best_best == top_best_rating(modes@.subrange(0, i as int)),
        decreases modes@.len() - i,
    {
        let m = modes[i];
        let ghost next = modes@.subrange(0, i + 1);
        proof {
            assert(next.drop_last() =~= modes@.subrange(0, i as int));
            assert(next.last() == m);
            lemma_games_total_prefix(modes@, i + 1);
        }
        let win = match m.win {
            Some(v) => v,
            None => 0,
        };
        let loss = match m.loss {
            Some(v) => v,
            None => 0,
        };
        let draw = match m.draw {
            Some(v) => v,
            None => 0,
        };
        total = total + win;
        total = total + loss;
        total = total + draw;
        let last = match m.last_rating {
            Some(v) => v,
            None => 0,
        };
        if last > current_best {
            current_best = last;
        }
        let best = match m.best_rating {
            Some(v) => v,
            None => 0,
        };
        if best > best_best {
            best_best = best;
        }
        i = i + 1;
    }
    assert(modes@.subrange(0, modes@.len() as int) =~= modes@);
    let status = if total > game {
        GoodBad::Good
    } else {
        GoodBad::Bad
    };
    (status, total, current_best, best_best)
}

} // verus!
