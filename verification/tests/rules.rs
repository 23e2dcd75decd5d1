use hero::combat::{add_points, find_strikes, retain_marked, survivors, ScoreOverflow};
use hero::decimal::{encode_decimal, parse_decimal};
use hero::game::{menu_action, recorded_best, should_spawn, Game, GameMode, MenuAction};

#[test]
fn decimal_spelling_of_scores() {
    assert_eq!(encode_decimal(0), b"0".to_vec());
    assert_eq!(encode_decimal(7), b"7".to_vec());
    assert_eq!(encode_decimal(10), b"10".to_vec());
    assert_eq!(encode_decimal(1234), b"1234".to_vec());
    assert_eq!(encode_decimal(usize::MAX), usize::MAX.to_string().into_bytes());
}

#[test]
fn decimal_reading_matches_std_parse() {
    let cases: Vec<&str> = vec![
        "0", "42", "+42", "007", "", "+", "-", "-1", "-0", " 1", "1 ", "12a", "1_000", "++1",
        "18446744073709551615", "18446744073709551616", "99999999999999999999999",
    ];
    for c in cases {
        assert_eq!(parse_decimal(c.as_bytes()), c.parse::<usize>().ok(), "text {:?}", c);
    }
}

#[test]
fn written_best_score_reads_back() {
    for n in [0usize, 1, 9, 10, 99, 100, 65535, 1_000_000_007, usize::MAX] {
        assert_eq!(parse_decimal(&encode_decimal(n)), Some(n));
        assert_eq!(recorded_best(Some(&encode_decimal(n))), n);
    }
}

#[test]
fn best_score_without_record_is_zero() {
    assert_eq!(recorded_best(None), 0);
    assert_eq!(recorded_best(Some(b"15")), 15);
    assert_eq!(recorded_best(Some(b"+15")), 15);
    // records that hold no number are the ones the program stops on
    assert_eq!(parse_decimal(b"fifteen"), None);
    assert_eq!(parse_decimal(b"15\n"), None);
    assert_eq!(parse_decimal(b""), None);
    assert_eq!(parse_decimal(b"-3"), None);
}

#[test]
fn spawn_needs_a_roll_of_ninety() {
    assert!(!should_spawn(0));
    assert!(!should_spawn(89));
    assert!(should_spawn(90));
    assert!(should_spawn(98));
}

#[test]
fn menu_clicks() {
    assert_eq!(menu_action(false, false), MenuAction::Stay);
    assert_eq!(menu_action(true, false), MenuAction::Start);
    assert_eq!(menu_action(false, true), MenuAction::Quit);
    assert_eq!(menu_action(true, true), MenuAction::Quit);
}

#[test]
fn session_opens_on_the_menu() {
    let g = Game::new(31);
    assert_eq!(g.mode(), GameMode::MainMenu);
    assert_eq!(g.score(), 0);
    assert_eq!(g.best_score(), 31);
    assert_eq!(g.best_score_record(), b"31".to_vec());
}

#[test]
fn play_starts_a_fresh_run() {
    let mut g = Game::new(50);
    assert_eq!(g.menu_frame(false, false), MenuAction::Stay);
    assert_eq!(g.mode(), GameMode::MainMenu);
    assert_eq!(g.menu_frame(true, false), MenuAction::Start);
    assert_eq!(g.mode(), GameMode::Playing);
    assert_eq!(g.score(), 0);
    assert_eq!(g.best_score(), 50);
}

#[test]
fn quit_from_the_menu() {
    let mut g = Game::new(0);
    assert_eq!(g.menu_frame(false, true), MenuAction::Quit);
    assert_eq!(g.mode(), GameMode::MainMenu);
}

fn playing_with_score(best: usize, score_gain: usize) -> Game {
    let mut g = Game::new(best);
    g.reset();
    if score_gain > 0 {
        let r = g.end_play_frame(&vec![vec![true]], &vec![score_gain], &vec![false], &vec![true], &vec![true]);
        assert!(r.is_ok());
    }
    g
}

#[test]
fn reset_clears_the_score_and_keeps_the_best() {
    let mut g = playing_with_score(0, 70);
    assert_eq!(g.score(), 70);
    assert_eq!(g.best_score(), 70);
    g.game_over_frame(true);
    g.reset();
    assert_eq!(g.score(), 0);
    assert_eq!(g.best_score(), 70);
    assert_eq!(g.mode(), GameMode::Playing);
}

#[test]
fn pause_and_resume() {
    let mut g = playing_with_score(0, 0);
    let start = g.begin_play_frame(false, true);
    assert!(!start.fire);
    assert_eq!(g.mode(), GameMode::Paused);
    g.paused_frame(false, false);
    assert_eq!(g.mode(), GameMode::Paused);
    g.paused_frame(true, false);
    assert_eq!(g.mode(), GameMode::Playing);
    g.begin_play_frame(true, true);
    g.paused_frame(true, true);
    assert_eq!(g.mode(), GameMode::MainMenu);
}

#[test]
fn game_over_waits_for_escape() {
    let mut g = playing_with_score(0, 0);
    let r = g.end_play_frame(&vec![], &vec![3, 4], &vec![false, true], &vec![], &vec![true, true]);
    assert!(r.is_ok());
    assert_eq!(g.mode(), GameMode::GameOver);
    g.game_over_frame(false);
    assert_eq!(g.mode(), GameMode::GameOver);
    g.game_over_frame(true);
    assert_eq!(g.mode(), GameMode::MainMenu);
}

#[test]
fn contact_with_the_ship_ends_even_a_paused_frame() {
    let mut g = playing_with_score(0, 0);
    g.begin_play_frame(false, true);
    assert_eq!(g.mode(), GameMode::Paused);
    g.end_play_frame(&vec![], &vec![1], &vec![true], &vec![], &vec![true]).unwrap();
    assert_eq!(g.mode(), GameMode::GameOver);
}

#[test]
fn rolls_stay_in_range_and_decide_spawns() {
    let mut g = playing_with_score(0, 0);
    let mut spawned = 0;
    let mut distinct = std::collections::BTreeSet::new();
    for _ in 0..2000 {
        let s = g.begin_play_frame(true, false);
        assert!(s.fire);
        assert!(0 <= s.roll && s.roll < 99);
        assert_eq!(s.spawn, s.roll >= 90);
        assert_eq!(g.mode(), GameMode::Playing);
        distinct.insert(s.roll);
        if s.spawn {
            spawned += 1;
        }
    }
    assert!(distinct.len() > 50);
    assert!(spawned > 50 && spawned < 400);
}

#[test]
fn strikes_score_and_explode_in_pair_order() {
    let mut g = playing_with_score(100, 0);
    // bullet 0 touches enemies 1 and 2; bullet 1 touches enemy 2; bullet 2 nothing
    let contacts = vec![
        vec![false, true, true],
        vec![false, false, true],
        vec![false, false, false],
    ];
    let values = vec![5, 20, 30];
    let rep = g.end_play_frame(
        &contacts,
        &values,
        &vec![false, false, false],
        &vec![true, true, false],
        &vec![true, true, false],
    ).unwrap();
    assert_eq!(rep.bullets_hit, vec![true, true, false]);
    assert_eq!(rep.enemies_hit, vec![false, true, true]);
    assert_eq!(rep.explosions, vec![1, 2, 2]);
    assert_eq!(rep.bullets_kept, vec![false, false, false]);
    assert_eq!(rep.enemies_kept, vec![true, false, false]);
    assert_eq!(g.score(), 80);
    assert_eq!(g.best_score(), 100);
    assert!(rep.record.is_none());
    assert_eq!(g.mode(), GameMode::Playing);
}

#[test]
fn beating_the_best_score_records_it() {
    let mut g = playing_with_score(10, 0);
    let rep = g.end_play_frame(&vec![vec![true]], &vec![7], &vec![false], &vec![true], &vec![true]).unwrap();
    assert!(rep.record.is_none());
    assert_eq!(g.best_score(), 10);
    let rep = g.end_play_frame(&vec![vec![true]], &vec![3], &vec![false], &vec![true], &vec![true]).unwrap();
    assert!(rep.record.is_none());
    assert_eq!(g.best_score(), 10);
    let rep = g.end_play_frame(&vec![vec![true]], &vec![1], &vec![false], &vec![true], &vec![true]).unwrap();
    assert_eq!(rep.record, Some(b"11".to_vec()));
    assert_eq!(g.best_score(), 11);
    assert_eq!(recorded_best(Some(&rep.record.unwrap())), g.best_score());
}

#[test]
fn score_overflow_changes_nothing() {
    let mut g = playing_with_score(0, usize::MAX - 5);
    let r = g.end_play_frame(&vec![vec![true, true]], &vec![3, 3], &vec![true, true], &vec![true], &vec![true, true]);
    assert!(matches!(r, Err(ScoreOverflow)));
    assert_eq!(g.score(), usize::MAX - 5);
    assert_eq!(g.best_score(), usize::MAX - 5);
    assert_eq!(g.mode(), GameMode::Playing);
    let r = g.end_play_frame(&vec![vec![true, true]], &vec![3, 2], &vec![false, false], &vec![true], &vec![true, true]);
    assert!(r.is_ok());
    assert_eq!(g.score(), usize::MAX);
}

#[test]
fn find_strikes_on_an_empty_frame() {
    let s = find_strikes(&vec![], 0);
    assert!(s.bullets_hit.is_empty());
    assert!(s.enemies_hit.is_empty());
    assert!(s.explosions.is_empty());
    let s = find_strikes(&vec![vec![], vec![]], 0);
    assert_eq!(s.bullets_hit, vec![false, false]);
}

#[test]
fn points_add_enemy_values_per_strike() {
    assert_eq!(add_points(1, &vec![0, 2, 2], &vec![10, 20, 30]), Ok(71));
    assert_eq!(add_points(1, &vec![], &vec![10]), Ok(1));
    assert_eq!(add_points(usize::MAX, &vec![0], &vec![1]), Err(ScoreOverflow));
    assert_eq!(add_points(usize::MAX, &vec![0], &vec![0]), Ok(usize::MAX));
}

#[test]
fn bodies_survive_only_unstruck_and_in_view() {
    let keep = survivors(&vec![true, true, false, false], &vec![true, false, true, false]);
    assert_eq!(keep, vec![false, false, true, false]);
}

#[test]
fn retain_keeps_marked_items_in_order() {
    let mut items = vec!["a", "b", "c", "d", "e"];
    retain_marked(&mut items, &vec![false, true, true, false, true]);
    assert_eq!(items, vec!["b", "c", "e"]);
    let mut none: Vec<u32> = vec![1, 2];
    retain_marked(&mut none, &vec![false, false]);
    assert!(none.is_empty());
    let mut all: Vec<u32> = vec![1, 2];
    retain_marked(&mut all, &vec![true, true]);
    assert_eq!(all, vec![1, 2]);
}

#[test]
fn struck_bodies_leave_the_world() {
    // two bullets, one enemy; the first bullet sits on the enemy
    let mut g = playing_with_score(0, 0);
    let rep = g
        .end_play_frame(&vec![vec![true], vec![false]], &vec![40], &vec![false], &vec![true, true], &vec![true])
        .unwrap();
    assert_eq!(g.score(), 40);
    assert_eq!(g.best_score(), 40);
    assert_eq!(rep.record, Some(b"40".to_vec()));
    assert_eq!(rep.explosions, vec![0]);
    assert_eq!(rep.bullets_kept, vec![false, true]);
    assert_eq!(rep.enemies_kept, vec![false]);
    assert_eq!(g.mode(), GameMode::Playing);
    let mut bullets = vec!["b0", "b1"];
    retain_marked(&mut bullets, &rep.bullets_kept);
    assert_eq!(bullets, vec!["b1"]);
}
