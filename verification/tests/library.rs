use chess_player_filter::cache::{db_cutoff, fresh, ResultCache, DATABASE_TTL_SECS, MEMORY_TTL_SECS};
use chess_player_filter::checks::{check_game, check_time, stat_modes, ModeRecord, ProfileData};
use chess_player_filter::decode::{mode_record_from_body, profile_from_body, stats_from_body};
use chess_player_filter::form::AppState;
use chess_player_filter::lookup::{LookupAction, LookupEvent, LookupStage, PlayerLookup};
use chess_player_filter::ordering::order_results;
use chess_player_filter::player::{
    display, player_status, rank_status, result_labels, status_badge, BadGood, GoodBad,
    PlayerResult, StatusColor,
};
use chess_player_filter::text::{
    parse_u64_or_zero, parse_usernames, split_commas, to_decimal, trim, white_space,
};

fn result(name: &str, status: BadGood, best: u64) -> PlayerResult {
    PlayerResult {
        name: name.to_string(),
        status,
        age_days: 100,
        games: 500,
        last_rating: 1200,
        best_rating: best,
        league: "\"Wood\"".to_string(),
    }
}

fn mode(win: u64, loss: u64, draw: u64, last: u64, best: u64) -> ModeRecord {
    ModeRecord {
        win: Some(win),
        loss: Some(loss),
        draw: Some(draw),
        last_rating: Some(last),
        best_rating: Some(best),
    }
}

#[test]
fn player_status_combines_both_checks() {
    assert_eq!(player_status(GoodBad::Good, GoodBad::Good), BadGood::Good);
    assert_eq!(player_status(GoodBad::Bad, GoodBad::Bad), BadGood::Bad);
    assert_eq!(player_status(GoodBad::Bad, GoodBad::Good), BadGood::BadTime);
    assert_eq!(player_status(GoodBad::Good, GoodBad::Bad), BadGood::BadGames);
}

#[test]
fn rank_status_orders_verdicts() {
    assert_eq!(rank_status(&BadGood::Good), 0);
    assert_eq!(rank_status(&BadGood::BadTime), 1);
    assert_eq!(rank_status(&BadGood::BadGames), 2);
    assert_eq!(rank_status(&BadGood::Bad), 3);
    assert_eq!(rank_status(&BadGood::ErrorTime), 4);
    assert_eq!(rank_status(&BadGood::ErrorGame), 5);
}

#[test]
fn display_shows_zero_as_missing() {
    assert_eq!(display(0), "N/A");
    assert_eq!(display(7), "7");
    assert_eq!(display(1500), "1500");
    assert_eq!(display(u64::MAX), "18446744073709551615");
    assert_eq!(to_decimal(0), "0");
    assert_eq!(to_decimal(10), "10");
}

#[test]
fn badges_have_text_and_colour() {
    assert_eq!(status_badge(BadGood::Good), ("GOOD ✔".to_string(), StatusColor::Green));
    assert_eq!(status_badge(BadGood::Bad), ("BAD ✖".to_string(), StatusColor::Red));
    assert_eq!(status_badge(BadGood::BadGames), ("LOW GAMES ⚠".to_string(), StatusColor::Yellow));
    assert_eq!(status_badge(BadGood::BadTime), ("TOO NEW ⚠".to_string(), StatusColor::LightYellow));
    assert_eq!(status_badge(BadGood::ErrorTime), ("ERROR TIME".to_string(), StatusColor::Red));
    assert_eq!(status_badge(BadGood::ErrorGame), ("ERROR GAME".to_string(), StatusColor::Red));
}

#[test]
fn result_row_labels() {
    let mut r = result("hikaru", BadGood::Good, 3300);
    r.games = 0;
    let labels = result_labels(&r);
    assert_eq!(
        labels,
        vec![
            "Name: [hikaru]".to_string(),
            "Games: [N/A]".to_string(),
            "Age: [100 days]".to_string(),
            "Last_elo: [1200]".to_string(),
            "Best_elo: [3300]".to_string(),
            "League: [\"Wood\"]".to_string(),
        ]
    );
}

#[test]
fn trim_removes_unicode_white_space() {
    assert_eq!(trim("  magnus \t"), "magnus");
    assert_eq!(trim("\u{3000}a b\u{a0}"), "a b");
    assert_eq!(trim("   "), "");
    assert_eq!(trim(""), "");
    assert!(white_space('\u{2028}'));
    assert!(!white_space('x'));
    assert!(!white_space('\u{200b}'));
}

#[test]
fn split_keeps_empty_pieces() {
    assert_eq!(split_commas("a,,b"), vec!["a", "", "b"]);
    assert_eq!(split_commas("a,"), vec!["a", ""]);
    assert_eq!(split_commas(""), vec![""]);
    assert_eq!(split_commas("x"), vec!["x"]);
}

#[test]
fn usernames_are_trimmed_and_lowercased() {
    assert_eq!(parse_usernames("MagnusCarlsen, Hikaru"), vec!["magnuscarlsen", "hikaru"]);
    assert_eq!(parse_usernames(" , ÄBC "), vec!["", "äbc"]);
}

#[test]
fn numbers_parse_like_u64_from_str() {
    assert_eq!(parse_u64_or_zero("90"), 90);
    assert_eq!(parse_u64_or_zero("+5"), 5);
    assert_eq!(parse_u64_or_zero("007"), 7);
    assert_eq!(parse_u64_or_zero(" 90"), 0);
    assert_eq!(parse_u64_or_zero("9 0"), 0);
    assert_eq!(parse_u64_or_zero("abc"), 0);
    assert_eq!(parse_u64_or_zero(""), 0);
    assert_eq!(parse_u64_or_zero("+"), 0);
    assert_eq!(parse_u64_or_zero("-1"), 0);
    assert_eq!(parse_u64_or_zero("18446744073709551615"), u64::MAX);
    assert_eq!(parse_u64_or_zero("18446744073709551616"), 0);
    assert_eq!(parse_u64_or_zero("99999999999999999999x"), 0);
    for n in [0u64, 1, 9, 10, 42, 86400, u64::MAX] {
        assert_eq!(parse_u64_or_zero(&to_decimal(n)), n);
    }
}

#[test]
fn age_check() {
    let now = 1_700_000_000;
    let p = ProfileData { joined: Some(now - 91 * 86400 - 5), league: "null".to_string() };
    assert_eq!(check_time(&p, now, 90), Ok((GoodBad::Good, 91, "Unranked".to_string())));
    let p = ProfileData { joined: Some(now - 90 * 86400), league: "\"Crystal\"".to_string() };
    assert_eq!(check_time(&p, now, 90), Ok((GoodBad::Bad, 90, "\"Crystal\"".to_string())));
    let p = ProfileData { joined: None, league: "null".to_string() };
    assert_eq!(check_time(&p, now, 90), Err("No joined field".to_string()));
}

#[test]
fn games_check() {
    let modes = vec![
        mode(10, 5, 1, 1500, 1600),
        ModeRecord { win: None, loss: Some(4), draw: None, last_rating: None, best_rating: Some(2100) },
        mode(100, 90, 10, 1800, 1900),
        mode(0, 0, 0, 0, 0),
    ];
    assert_eq!(check_game(&modes, 300), (GoodBad::Bad, 220, 1800, 2100));
    assert_eq!(check_game(&modes, 219), (GoodBad::Good, 220, 1800, 2100));
    assert_eq!(check_game(&modes, 220), (GoodBad::Bad, 220, 1800, 2100));
    assert_eq!(check_game(&vec![], 0), (GoodBad::Bad, 0, 0, 0));
    let names = stat_modes();
    assert_eq!(names, vec!["chess_daily", "chess_rapid", "chess_bullet", "chess_blitz"]);
}

#[test]
fn cache_serves_last_write() {
    let mut cache = ResultCache::new();
    let a = "alice".to_string();
    let b = "bob".to_string();
    assert!(cache.get(&a).is_none());
    cache.insert(a.clone(), result("alice", BadGood::Good, 1000), 10);
    cache.insert(b.clone(), result("bob", BadGood::Bad, 900), 20);
    cache.insert(a.clone(), result("alice", BadGood::BadTime, 1100), 30);
    let (r, t) = cache.get(&a).unwrap();
    assert_eq!((r.status, r.best_rating, t), (BadGood::BadTime, 1100, 30));
    let (r, t) = cache.get(&b).unwrap();
    assert_eq!((r.status, t), (BadGood::Bad, 20));
}

#[test]
fn freshness_windows() {
    assert!(fresh(2000, 201, MEMORY_TTL_SECS));
    assert!(!fresh(2000, 200, MEMORY_TTL_SECS));
    assert!(fresh(5000, 1401, DATABASE_TTL_SECS));
    assert!(!fresh(5000, 1400, DATABASE_TTL_SECS));
    assert_eq!(db_cutoff(10_000), 6400);
    assert_eq!(db_cutoff(3600), 0);
}

fn finish(a: LookupAction) -> (PlayerResult, Option<u64>, Option<u64>) {
    match a {
        LookupAction::Finish { result, remember_at, persist_at } => (result, remember_at, persist_at),
        _ => panic!("lookup did not finish"),
    }
}

#[test]
fn lookup_memory_hit() {
    let (mut l, a) = PlayerLookup::new("alice".to_string(), 5000, 90, 300);
    assert!(matches!(a, LookupAction::ReadMemory));
    let a = l.step(LookupEvent::MemoryEntry(Some((result("alice", BadGood::Good, 1), 4000))));
    let (r, remember, persist) = finish(a);
    assert_eq!((r.name.as_str(), r.status, remember, persist), ("alice", BadGood::Good, None, None));
    assert!(matches!(l.stage, LookupStage::Finished));
}

#[test]
fn lookup_database_hit_after_stale_memory() {
    let (mut l, _) = PlayerLookup::new("alice".to_string(), 5000, 90, 300);
    let a = l.step(LookupEvent::MemoryEntry(Some((result("alice", BadGood::Good, 1), 3200))));
    assert!(matches!(a, LookupAction::ReadDatabase));
    let a = l.step(LookupEvent::StoredEntry(Some((result("alice", BadGood::Bad, 2), 1500))));
    let (r, remember, persist) = finish(a);
    assert_eq!((r.status, remember, persist), (BadGood::Bad, Some(1500), None));
}

#[test]
fn lookup_profile_failures() {
    let (mut l, _) = PlayerLookup::new("bob".to_string(), 5000, 90, 300);
    l.step(LookupEvent::MemoryEntry(None));
    let a = l.step(LookupEvent::StoredEntry(Some((result("bob", BadGood::Bad, 2), 1400))));
    match a {
        LookupAction::FetchProfile(url) => assert_eq!(url, "https://api.chess.com/pub/player/bob"),
        _ => panic!("expected a profile fetch"),
    }
    let a = l.step(LookupEvent::Profile { outcome: Err("Fetch failed".to_string()), now: 5001 });
    let (r, remember, persist) = finish(a);
    assert_eq!(r.status, BadGood::ErrorTime);
    assert_eq!((r.name.as_str(), r.league.as_str(), r.age_days, r.games), ("bob", "Error", 0, 0));
    assert_eq!((remember, persist), (None, None));

    let (mut l, _) = PlayerLookup::new("bob".to_string(), 5000, 90, 300);
    l.step(LookupEvent::MemoryEntry(None));
    l.step(LookupEvent::StoredEntry(None));
    let p = ProfileData { joined: None, league: "null".to_string() };
    let (r, _, _) = finish(l.step(LookupEvent::Profile { outcome: Ok(p), now: 5001 }));
    assert_eq!(r.status, BadGood::ErrorTime);
}

#[test]
fn lookup_full_check() {
    let now = 1_700_000_000;
    let (mut l, _) = PlayerLookup::new("carol".to_string(), now, 90, 300);
    l.step(LookupEvent::MemoryEntry(None));
    l.step(LookupEvent::StoredEntry(None));
    let p = ProfileData { joined: Some(now - 10 * 86400), league: "\"Wood\"".to_string() };
    let a = l.step(LookupEvent::Profile { outcome: Ok(p), now: now + 1 });
    match a {
        LookupAction::FetchStats(url) => {
            assert_eq!(url, "https://api.chess.com/pub/player/carol/stats")
        }
        _ => panic!("expected a statistics fetch"),
    }
    let modes = vec![mode(200, 100, 50, 1400, 1500)];
    let (r, remember, persist) = finish(l.step(LookupEvent::Stats(Ok(modes))));
    assert_eq!(r.status, BadGood::BadTime);
    assert_eq!((r.age_days, r.games, r.last_rating, r.best_rating), (10, 350, 1400, 1500));
    assert_eq!(r.league, "\"Wood\"");
    assert_eq!((remember, persist), (Some(now), Some(now)));
}

#[test]
fn lookup_stats_failure_keeps_age() {
    let now = 1_700_000_000;
    let (mut l, _) = PlayerLookup::new("dave".to_string(), now, 90, 300);
    l.step(LookupEvent::MemoryEntry(None));
    l.step(LookupEvent::StoredEntry(None));
    let p = ProfileData { joined: Some(now - 200 * 86400), league: "null".to_string() };
    l.step(LookupEvent::Profile { outcome: Ok(p), now });
    let (r, remember, persist) = finish(l.step(LookupEvent::Stats(Err("Parse failed".to_string()))));
    assert_eq!((r.status, r.age_days, r.league.as_str()), (BadGood::ErrorGame, 200, "Error"));
    assert_eq!((remember, persist), (None, None));
}

#[test]
fn results_are_listed_by_rank_then_best_rating() {
    let input = vec![
        result("e1", BadGood::ErrorGame, 0),
        result("b1", BadGood::Bad, 1500),
        result("g1", BadGood::Good, 1200),
        result("t1", BadGood::BadTime, 2000),
        result("g2", BadGood::Good, 1800),
        result("g3", BadGood::Good, 1200),
        result("x1", BadGood::ErrorTime, 0),
        result("m1", BadGood::BadGames, 900),
    ];
    let out = order_results(input);
    let names: Vec<&str> = out.iter().map(|r| r.name.as_str()).collect();
    assert_eq!(names, vec!["g2", "g1", "g3", "t1", "m1", "b1", "x1", "e1"]);
    assert!(order_results(vec![]).is_empty());
}

#[test]
fn form_starts_and_finishes_a_check() {
    let mut s = AppState::new();
    assert_eq!((s.usernames.as_str(), s.time_days.as_str(), s.min_games.as_str()), ("", "90", "300"));
    assert!(!s.loading && s.results.is_empty());
    s.usernames = "  \t ".to_string();
    assert!(s.start_check().is_none());
    assert!(!s.loading);
    s.usernames = "Alice,Bob ".to_string();
    s.min_games = "x".to_string();
    s.results = vec![result("old", BadGood::Good, 1)];
    let req = s.start_check().unwrap();
    assert_eq!(req.players, vec!["alice", "bob"]);
    assert_eq!((req.time, req.games), (90, 0));
    assert!(s.loading && s.results.is_empty());
    s.receive_results(vec![result("alice", BadGood::Good, 1)]);
    assert!(!s.loading);
    assert_eq!(s.results.len(), 1);
}

#[test]
fn profile_body_is_read() {
    let p = profile_from_body(br#"{"joined": 1600000000, "league": "Wood", "x": 1}"#).unwrap();
    assert_eq!((p.joined, p.league.as_str()), (Some(1600000000), "\"Wood\""));
    let p = profile_from_body(br#"{"username": "a"}"#).unwrap();
    assert_eq!((p.joined, p.league.as_str()), (None, "null"));
    let p = profile_from_body(br#"{"joined": "yesterday", "league": null}"#).unwrap();
    assert_eq!((p.joined, p.league.as_str()), (None, "null"));
    let p = profile_from_body(br#"{"joined": -5, "league": {"name": "Gold"}}"#).unwrap();
    assert_eq!((p.joined, p.league.as_str()), (None, "{\"name\":\"Gold\"}"));
    assert_eq!(
        profile_from_body(b"<html>").err(),
        Some("Parse failed: error decoding response body".to_string())
    );
    assert!(profile_from_body(b"").is_err());
}

#[test]
fn stats_body_is_read() {
    let body = br#"{
        "chess_rapid": {
            "last": {"rating": 1400, "date": 1},
            "best": {"rating": 1550, "date": 2},
            "record": {"win": 10, "loss": 20, "draw": 3}
        },
        "chess_blitz": {
            "last": {"rating": 1300},
            "record": {"win": 5, "loss": 6}
        },
        "fide": 0
    }"#;
    let modes = stats_from_body(body).unwrap();
    assert_eq!(modes.len(), 4);
    let none = ModeRecord { win: None, loss: None, draw: None, last_rating: None, best_rating: None };
    assert_eq!(modes[0], none);
    assert_eq!(
        modes[1],
        ModeRecord {
            win: Some(10),
            loss: Some(20),
            draw: Some(3),
            last_rating: Some(1400),
            best_rating: Some(1550),
        }
    );
    assert_eq!(modes[2], none);
    assert_eq!(
        modes[3],
        ModeRecord { win: Some(5), loss: Some(6), draw: None, last_rating: Some(1300), best_rating: None }
    );
    assert_eq!(check_game(&modes, 40), (GoodBad::Good, 44, 1400, 1550));
    assert_eq!(check_game(&modes, 44), (GoodBad::Bad, 44, 1400, 1550));
    assert_eq!(
        mode_record_from_body(body, &"chess_rapid".to_string()).unwrap().best_rating,
        Some(1550)
    );
    assert_eq!(
        stats_from_body(b"not json").err(),
        Some("Parse failed: error decoding response body".to_string())
    );
    assert!(mode_record_from_body(b"[", &"chess_rapid".to_string()).is_none());
}

#[test]
fn stats_ignore_fields_not_read() {
    let a = br#"{"chess_daily": {"record": {"win": 1, "loss": 2, "draw": 3, "time_per_move": 9}}, "fide": 1800}"#;
    let b = br#"{"tactics": {"highest": {"rating": 2000}}, "chess_daily": {"record": {"draw": 3, "loss": 2, "win": 1}}}"#;
    let ma = stats_from_body(a).unwrap();
    let mb = stats_from_body(b).unwrap();
    assert_eq!(ma, mb);
    assert_eq!(check_game(&ma, 5), check_game(&mb, 5));
    assert_eq!(check_game(&ma, 5), (GoodBad::Good, 6, 0, 0));
    let empty = stats_from_body(b"{}").unwrap();
    assert_eq!(check_game(&empty, 300), (GoodBad::Bad, 0, 0, 0));
}
