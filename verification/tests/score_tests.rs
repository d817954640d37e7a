use color_escape::game::{Draws, Game, GameState};
use color_escape::player::{Controls, HP_REGEN_INTERVAL};
use color_escape::score::{decode_score, digits_value, encode_score};
use color_escape::ball::Ball;
use color_escape::color::Color;
use color_escape::geometry::Vector2;

fn text(micros: u64) -> String {
    String::from_utf8(encode_score(micros)).unwrap()
}

fn read(s: &str) -> Option<u64> {
    decode_score(s.as_bytes())
}

#[test]
fn score_is_written_as_decimal_seconds() {
    assert_eq!(text(42_500_000), "42.5");
    assert_eq!(text(30_000_000), "30");
    assert_eq!(text(0), "0");
    assert_eq!(text(1), "0.000001");
    assert_eq!(text(10), "0.00001");
    assert_eq!(text(999_999), "0.999999");
    assert_eq!(text(1_000_000), "1");
    assert_eq!(text(1_000_001), "1.000001");
    assert_eq!(text(1_200_000), "1.2");
    assert_eq!(text(1_020_000), "1.02");
    assert_eq!(text(12_345_678), "12.345678");
    assert_eq!(text(100_100_000), "100.1");
    assert_eq!(text(33_334), "0.033334");
    assert_eq!(text(u64::MAX), "18446744073709.551615");
}

#[test]
fn score_is_read_from_decimal_seconds() {
    assert_eq!(read("42.5"), Some(42_500_000));
    assert_eq!(read("30"), Some(30_000_000));
    assert_eq!(read("0"), Some(0));
    assert_eq!(read("0.000001"), Some(1));
    assert_eq!(read("12.345678"), Some(12_345_678));
    assert_eq!(read("18446744073709.551615"), Some(u64::MAX));
}

#[test]
fn reading_tolerates_extra_zeros() {
    assert_eq!(read("042.50"), Some(42_500_000));
    assert_eq!(read("000"), Some(0));
    assert_eq!(read("7.000000"), Some(7_000_000));
    assert_eq!(read("0000000000000000000000000000001.5"), Some(1_500_000));
}

#[test]
fn digits_beyond_the_sixth_are_cut() {
    assert_eq!(read("1.2345678"), Some(1_234_567));
    assert_eq!(read("1.0000000"), Some(1_000_000));
    assert_eq!(read("1.2345679999999"), Some(1_234_567));
    assert_eq!(read("0.016666668"), Some(16_666));
    assert_eq!(read("42.516666412353516"), Some(42_516_666));
    assert_eq!(read("0.0000009"), Some(0));
    assert_eq!(read("0.00000000000000000000000000000000000001"), Some(0));
    assert_eq!(read("18446744073709.5516159"), Some(u64::MAX));
    assert_eq!(read("18446744073709.5516160"), None);
    assert_eq!(read("7.123456"), Some(7_123_456));
    assert_eq!(read("7.12345"), Some(7_123_450));
}

#[test]
fn reading_rejects_what_is_not_a_score() {
    for bad in [
        "", ".", ".5", "5.", "4.2.5", "-1", "+1", "1e3", "abc", "42.5\n", " 42.5", "42,5",
        "inf", "NaN", "12a", "1.2x", "1..2", "0x10", "1 ", "1.2345678x", "1.234567.8",
        "1.2345678 ", "1.23456789e1",
    ] {
        assert_eq!(read(bad), None, "{:?} was read as a score", bad);
    }
}

#[test]
fn reading_rejects_scores_that_do_not_fit() {
    assert_eq!(read("18446744073709.551616"), None);
    assert_eq!(read("18446744073710"), None);
    assert_eq!(read("99999999999999999999999999"), None);
    assert_eq!(read("18446744073709551615.5"), None);
    assert_eq!(read("18446744073709"), Some(18_446_744_073_709_000_000));
}

#[test]
fn stored_scores_read_back() {
    let mut samples: Vec<u64> = vec![0, 1, 9, 10, 99, 100, 999_999, 1_000_000, 42_500_000, u64::MAX, u64::MAX - 1];
    let mut x: u64 = 1;
    for _ in 0..2000 {
        x = x.wrapping_mul(6364136223846793005).wrapping_add(1442695040888963407);
        samples.push(x);
        samples.push(x % 1_000_000_000);
        samples.push((x % 1000) * 1_000);
    }
    for micros in samples {
        let stored = encode_score(micros);
        assert_eq!(decode_score(&stored), Some(micros));
        assert!(stored.iter().all(|b| b.is_ascii_digit() || *b == b'.'));
        assert!(stored.last() != Some(&b'.'));
        if stored.contains(&b'.') {
            assert!(stored.last() != Some(&b'0'));
        }
    }
}

#[test]
fn digits_are_read_as_a_number() {
    assert_eq!(digits_value(&Vec::new()), Some(0));
    assert_eq!(digits_value(&b"0".to_vec()), Some(0));
    assert_eq!(digits_value(&b"007".to_vec()), Some(7));
    assert_eq!(digits_value(&b"1234567890".to_vec()), Some(1_234_567_890));
    assert_eq!(digits_value(&b"18446744073709551615".to_vec()), Some(u64::MAX));
    assert_eq!(digits_value(&b"18446744073709551616".to_vec()), None);
    assert_eq!(digits_value(&b"184467440737095516150".to_vec()), None);
}

#[test]
fn game_loads_a_stored_high_score() {
    let mut game = Game::with_balls(0, Vec::new());
    game.load_high_score(b"30");
    assert_eq!(game.high_score, 30_000_000);
    game.load_high_score(b"not a score");
    assert_eq!(game.high_score, 30_000_000);
    game.load_high_score(b"");
    assert_eq!(game.high_score, 30_000_000);
    game.load_high_score(b"12.25");
    assert_eq!(game.high_score, 12_250_000);
    assert_eq!(game.state, GameState::Menu);

    let mut fresh = Game::with_balls(0, Vec::new());
    fresh.load_high_score(b"garbage");
    assert_eq!(fresh.high_score, 0);
}

#[test]
fn new_record_is_persisted_and_read_back() {
    // A round that lasts 42.5 seconds against a loaded record of 30.
    let mut game = Game::with_balls(0, Vec::new());
    game.load_high_score(b"30.0");
    assert_eq!(game.high_score, 30_000_000);
    let on_player = Ball::new(
        Vector2::new(415_000_000_000, 315_000_000_000),
        Vector2::new(0, 0),
        5_000_000_000,
        Color::rgb(0, 0, 0),
    );
    game.prepare_new_game_with(vec![on_player]);
    game.player.time_since_last_hit = HP_REGEN_INTERVAL;
    game.player.hp = 1;
    game.player.survival_time = 42_000_000;
    let cues = game.advance(500_000, Controls::none(), Draws::none());
    assert!(cues.game_over);
    assert!(cues.save_high_score);
    let stored = game.save_high_score();
    assert_eq!(stored, b"42.5".to_vec());

    let mut next_session = Game::with_balls(0, Vec::new());
    next_session.load_high_score(&stored);
    assert_eq!(next_session.high_score, 42_500_000);
}
