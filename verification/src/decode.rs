//! Reading the chess.com responses: the JSON body of a player's profile and
//! of a player's statistics, turned into what the two checks read.

use vstd::prelude::*;
use vstd::string::*;

use crate::checks::{stat_mode_names, stat_modes, ModeRecord, ProfileData, ProfileView};

verus! {

/// What parsing `body` as JSON and following the object keys of `path`
/// gives as an unsigned integer: `None` when `body` is not JSON, `Some(None)`
/// when the value found there (`null` where a key is missing) is not one.
pub uninterp spec fn json_u64_at(body: Seq<u8>, path: Seq<Seq<char>>) -> Option<Option<u64>>;

/// What parsing `body` as JSON and following the object keys of `path`
/// gives, written back as JSON text (`null` where a key is missing); `None`
/// when `body` is not JSON.
pub uninterp spec fn json_text_at(body: Seq<u8>, path: Seq<Seq<char>>) -> Option<Seq<char>>;

/// The keys of a path as character sequences.
pub open spec fn keys(path: Seq<String>) -> Seq<Seq<char>> {
    path.map_values(|k: String| k@)
}

/// `serde_json::from_slice` into a `serde_json::Value`, then indexing by
/// each key of `path` (`Value::index`, which gives `null` for a missing key
/// or a non-object) and `Value::as_u64`. The contract claims only that the
/// result is `json_u64_at` of the bytes and the keys; the JSON grammar and
/// number model are not written out.
#[verifier::external_body]
pub(crate) fn json_u64(body: &[u8], path: &Vec<String>) -> (r: Option<Option<u64>>)
    ensures
        r == json_u64_at(body@, keys(path@)),
{
    let value: serde_json::Value = serde_json::from_slice(body).ok()?;
    let mut cur = &value;
    for key in path.iter() {
        cur = &cur[key.as_str()];
    }
    Some(cur.as_u64())
}

/// `serde_json::from_slice` into a `serde_json::Value`, then indexing by
/// each key of `path` and writing the value found back as JSON text
/// (`Value::to_string`). The contract claims only that the result is
/// `json_text_at` of the bytes and the keys.
#[verifier::external_body]
pub(crate) fn json_text(body: &[u8], path: &Vec<String>) -> (r: Option<String>)
    ensures
        match r {
            Some(s) => json_text_at(body@, keys(path@)) == Some(s@),
            None => json_text_at(body@, keys(path@)) is None,
        },
{
    let value: serde_json::Value = serde_json::from_slice(body).ok()?;
    let mut cur = &value;
    for key in path.iter() {
        cur = &cur[key.as_str()];
    }
    Some(cur.to_string())
}

/// The error for a body that is not JSON: `Parse failed: ` and the text
/// reqwest gives a failed decode of a response body ("error decoding
/// response body").
pub open spec fn decode_error() -> Seq<char> {
    "Parse failed: error decoding response body"@
}

fn decode_error_text() -> (r: String)
    ensures
        r@ == decode_error(),
{
    String::from_str("Parse failed: error decoding response body")
}

fn path1(a: &str) -> (p: Vec<String>)
    ensures
        keys(p@) == seq![a@],
{
    let mut p: Vec<String> = Vec::new();
    p.push(String::from_str(a));
    assert(keys(p@) =~= seq![a@]);
    p
}

fn path3(a: &String, b: &str, c: &str) -> (p: Vec<String>)
    ensures
        keys(p@) == seq![a@, b@, c@],
{
    let mut p: Vec<String> = Vec::new();
    p.push(a.clone());
    p.push(String::from_str(b));
    p.push(String::from_str(c));
    assert(keys(p@) =~= seq![a@, b@, c@]);
    p
}

/// The profile that a response body holds: its `joined` field as an
/// unsigned integer and its `league` field as JSON text.
pub open spec fn profile_of(body: Seq<u8>) -> Result<ProfileView, Seq<char>> {
    match (json_u64_at(body, seq!["joined"@]), json_text_at(body, seq!["league"@])) {
        (Some(joined), Some(league)) => Ok(ProfileView { joined, league }),
        _ => Err(decode_error()),
    }
}

/// Reads a profile response body; fails with `decode_error()` when it is
/// not JSON.
pub fn profile_from_body(body: &[u8]) -> (r: Result<ProfileData, String>)
    ensures
        match r {
            Ok(p) => profile_of(body@) == Ok::<ProfileView, Seq<char>>(p@),
            Err(e) => profile_of(body@) == Err::<ProfileView, Seq<char>>(e@),
        },
        r matches Ok(p) ==> Some(p.joined) == json_u64_at(body@, seq!["joined"@]) && Some(p.league@)
            == json_text_at(body@, seq!["league"@]),
        r is Err ==> (json_u64_at(body@, seq!["joined"@]) is None || json_text_at(
            body@,
            seq!["league"@],
        ) is None) && r->Err_0@ == "Parse failed: error decoding response body"@,
{
    let joined = json_u64(body, &path1("joined"));
    let league = json_text(body, &path1("league"));
    match (joined, league) {
        (Some(joined), Some(league)) => Ok(ProfileData { joined, league }),
        _ => Err(decode_error_text()),
    }
}

/// The record of one game mode in a statistics body: `record.win`,
/// `record.loss`, `record.draw`, `last.rating` and `best.rating` under the
/// mode's key; `None` when the body is not JSON.
pub open spec fn mode_record_of(body: Seq<u8>, mode: Seq<char>) -> Option<ModeRecord> {
    match (
        json_u64_at(body, seq![mode, "record"@, "win"@]),
        json_u64_at(body, seq![mode, "record"@, "loss"@]),
        json_u64_at(body, seq![mode, "record"@, "draw"@]),
        json_u64_at(body, seq![mode, "last"@, "rating"@]),
        json_u64_at(body, seq![mode, "best"@, "rating"@]),
    ) {
        (Some(win), Some(loss), Some(draw), Some(last_rating), Some(best_rating)) => Some(
            ModeRecord { win, loss, draw, last_rating, best_rating },
        ),
        _ => None,
    }
}

/// The records of the game modes that a statistics body holds, in the
/// order of `stat_mode_names`.
pub open spec fn stats_of(body: Seq<u8>) -> Result<Seq<ModeRecord>, Seq<char>> {
    if forall|k: int| 0 <= k < 4 ==> #[trigger] mode_record_of(body, stat_mode_names()[k]) is Some {
        Ok(Seq::new(4, |k: int| mode_record_of(body, stat_mode_names()[k]).unwrap()))
    } else {
        Err(decode_error())
    }
}

/// Reads the record of game mode `mode` from a statistics body.
pub fn mode_record_from_body(body: &[u8], mode: &String) -> (r: Option<ModeRecord>)
    ensures
        r == mode_record_of(body@, mode@),
        r matches Some(m) ==> {
            &&& Some(m.win) == json_u64_at(body@, seq![mode@, "record"@, "win"@])
            &&& Some(m.loss) == json_u64_at(body@, seq![mode@, "record"@, "loss"@])
            &&& Some(m.draw) == json_u64_at(body@, seq![mode@, "record"@, "draw"@])
            &&& Some(m.last_rating) == json_u64_at(body@, seq![mode@, "last"@, "rating"@])
            &&& Some(m.best_rating) == json_u64_at(body@, seq![mode@, "best"@, "rating"@])
        },
        r is None ==> json_u64_at(body@, seq![mode@, "record"@, "win"@]) is None
            || json_u64_at(body@, seq![mode@, "record"@, "loss"@]) is None
            || json_u64_at(body@, seq![mode@, "record"@, "draw"@]) is None
            || json_u64_at(body@, seq![mode@, "last"@, "rating"@]) is None
            || json_u64_at(body@, seq![mode@, "best"@, "rating"@]) is None,
{
    let win = json_u64(body, &path3(mode, "record", "win"));
    let loss = json_u64(body, &path3(mode, "record", "loss"));
    let draw = json_u64(body, &path3(mode, "record", "draw"));
    let last_rating = json_u64(body, &path3(mode, "last", "rating"));
    let best_rating = json_u64(body, &path3(mode, "best", "rating"));
    match (win, loss, draw, last_rating, best_rating) {
        (Some(win), Some(loss), Some(draw), Some(last_rating), Some(best_rating)) => Some(
            ModeRecord { win, loss, draw, last_rating, best_rating },
        ),
        _ => None,
    }
}

/// Reads a statistics response body: one record per game mode, in the
/// order of `stat_modes`; fails with `decode_error()` when it is not JSON.
pub fn stats_from_body(body: &[u8]) -> (r: Result<Vec<ModeRecord>, String>)
    ensures
        match r {
            Ok(m) => stats_of(body@) == Ok::<Seq<ModeRecord>, Seq<char>>(m@),
            Err(e) => stats_of(body@) == Err::<Seq<ModeRecord>, Seq<char>>(e@),
        },
        r matches Ok(m) ==> m@.len() == 4 && forall|k: int|
            0 <= k < 4 ==> {
                &&& Some(#[trigger] m@[k].win) == json_u64_at(
                    body@,
                    seq![stat_mode_names()[k], "record"@, "win"@],
                )
                &&& Some(m@[k].loss) == json_u64_at(
                    body@,
                    seq![stat_mode_names()[k], "record"@, "loss"@],
                )
                &&& Some(m@[k].draw) == json_u64_at(
                    body@,
                    seq![stat_mode_names()[k], "record"@, "draw"@],
                )
                &&& Some(m@[k].last_rating) == json_u64_at(
                    body@,
                    seq![stat_mode_names()[k], "last"@, "rating"@],
                )
                &&& Some(m@[k].best_rating) == json_u64_at(
                    body@,
                    seq![stat_mode_names()[k], "best"@, "rating"@],
                )
            },
        r is Err ==> r->Err_0@ == "Parse failed: error decoding response body"@,
{
    let modes = stat_modes();
    let mut records: Vec<ModeRecord> = Vec::new();
    let mut i: usize = 0;
    while i < modes.len()
        invariant
            i <= 4,
            modes@.len() == 4,
            forall|k: int| 0 <= k < 4 ==> #[trigger] modes@[k]@ == stat_mode_names()[k],
            records@.len() == i,
            forall|k: int|
                0 <= k < i ==> mode_record_of(body@, stat_mode_names()[k]) == Some(
                    #[trigger] records@[k],
                ),
        decreases 4 - i,
    {
        match mode_record_from_body(body, &modes[i]) {
            Some(m) => records.push(m),
            None => {
                assert(mode_record_of(body@, stat_mode_names()[i as int]) is None);
                return Err(decode_error_text());
            },
        }
        i = i + 1;
    }
    assert forall|k: int| 0 <= k < 4 implies #[trigger] mode_record_of(
        body@,
        stat_mode_names()[k],
    ) is Some by {
        assert(mode_record_of(body@, stat_mode_names()[k]) == Some(records@[k]));
    }
    assert(records@ =~= Seq::new(
        4,
        |k: int| mode_record_of(body@, stat_mode_names()[k]).unwrap(),
    ));
    Ok(records)
}

/// `b1` and `b2` agree on the fields read for game mode `mode`.
pub open spec fn same_fields_read(b1: Seq<u8>, b2: Seq<u8>, mode: Seq<char>) -> bool {
    &&& json_u64_at(b1, seq![mode, "record"@, "win"@]) == json_u64_at(b2, seq![mode, "record"@, "win"@])
    &&& json_u64_at(b1, seq![mode, "record"@, "loss"@]) == json_u64_at(b2, seq![mode, "record"@, "loss"@])
    &&& json_u64_at(b1, seq![mode, "record"@, "draw"@]) == json_u64_at(b2, seq![mode, "record"@, "draw"@])
    &&& json_u64_at(b1, seq![mode, "last"@, "rating"@]) == json_u64_at(b2, seq![mode, "last"@, "rating"@])
    &&& json_u64_at(b1, seq![mode, "best"@, "rating"@]) == json_u64_at(b2, seq![mode, "best"@, "rating"@])
}

/// Two statistics bodies that agree on the fields read (`record.win`,
/// `record.loss`, `record.draw`, `last.rating` and `best.rating` of each
/// game mode) are read alike, whatever else they hold; so the games check,
/// a function of the records, gives the same outcome on both.
pub proof fn lemma_stats_depend_on_fields_read(b1: Seq<u8>, b2: Seq<u8>)
    requires
        forall|k: int| 0 <= k < 4 ==> #[trigger] same_fields_read(b1, b2, stat_mode_names()[k]),
    ensures
        stats_of(b1) == stats_of(b2),
{
    assert forall|k: int| 0 <= k < 4 implies #[trigger] mode_record_of(b1, stat_mode_names()[k])
        == mode_record_of(b2, stat_mode_names()[k]) by {
        assert(same_fields_read(b1, b2, stat_mode_names()[k]));
    }
    let c1 = forall|k: int| 0 <= k < 4 ==> #[trigger] mode_record_of(b1, stat_mode_names()[k]) is Some;
    let c2 = forall|k: int| 0 <= k < 4 ==> #[trigger] mode_record_of(b2, stat_mode_names()[k]) is Some;
    assert(c1 == c2) by {
        if c1 {
            assert forall|k: int| 0 <= k < 4 implies #[trigger] mode_record_of(b2, stat_mode_names()[k]) is Some by {
                assert(mode_record_of(b1, stat_mode_names()[k]) is Some);
            }
        }
        if c2 {
            assert forall|k: int| 0 <= k < 4 implies #[trigger] mode_record_of(b1, stat_mode_names()[k]) is Some by {
                assert(mode_record_of(b2, stat_mode_names()[k]) is Some);
            }
        }
    }
    if c1 {
        assert(Seq::new(4, |k: int| mode_record_of(b1, stat_mode_names()[k]).unwrap()) =~= Seq::new(
            4,
            |k: int| mode_record_of(b2, stat_mode_names()[k]).unwrap(),
        ));
    }
}

} // verus!
