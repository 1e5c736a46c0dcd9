use ciphermind::code::{is_color_symbol, rejected_symbol, unknown_symbol};
use ciphermind::{
    hint_for, is_quit_command, is_yes, praise_for, score, Feedback, Game, GameState, GuessError, Hint, Praise, CODE_LENGTH,
    MAX_ATTEMPTS,
};

fn game_on(secret: Vec<char>) -> Game {
    Game::with_secret(secret, MAX_ATTEMPTS)
}

#[test]
fn test_feedback_all_exact() {
    let game = game_on(vec!['R', 'G', 'B', 'Y']);
    let feedback = game.get_feedback(&['R', 'G', 'B', 'Y']);
    assert_eq!(feedback.exact_matches, 4);
    assert_eq!(feedback.color_matches, 0);
}

#[test]
fn test_feedback_no_matches() {
    let game = game_on(vec!['R', 'G', 'B', 'Y']);
    let feedback = game.get_feedback(&['M', 'M', 'C', 'C']);
    assert_eq!(feedback.exact_matches, 0);
    assert_eq!(feedback.color_matches, 0);
}

#[test]
fn test_feedback_color_matches() {
    let game = game_on(vec!['R', 'G', 'B', 'Y']);
    let feedback = game.get_feedback(&['Y', 'B', 'G', 'R']);
    assert_eq!(feedback.exact_matches, 0);
    assert_eq!(feedback.color_matches, 4);
}

#[test]
fn test_feedback_mixed() {
    let game = game_on(vec!['R', 'G', 'B', 'Y']);
    let feedback = game.get_feedback(&['R', 'B', 'Y', 'M']);
    assert_eq!(feedback.exact_matches, 1);
    assert_eq!(feedback.color_matches, 2);
}

#[test]
fn test_validate_guess_valid() {
    let game = Game::new();
    assert!(game.validate_guess("RGYB").is_ok());
    assert!(game.validate_guess("rgyb").is_ok());
}

#[test]
fn test_validate_guess_invalid_length() {
    let game = Game::new();
    assert!(game.validate_guess("RGB").is_err());
    assert!(game.validate_guess("RGBYY").is_err());
}

#[test]
fn test_validate_guess_invalid_color() {
    let game = Game::new();
    assert!(game.validate_guess("RGBX").is_err());
}

#[test]
fn validate_lower_case_gives_canonical_code() {
    let game = Game::new();
    assert_eq!(game.validate_guess("rgyb"), Ok(vec!['R', 'G', 'Y', 'B']));
    assert_eq!(game.validate_guess("RgYb"), Ok(vec!['R', 'G', 'Y', 'B']));
}

#[test]
fn validate_short_input_is_length_mismatch() {
    let game = Game::new();
    assert_eq!(game.validate_guess("RGB"), Err(GuessError::LengthMismatch));
    assert_eq!(game.validate_guess(""), Err(GuessError::LengthMismatch));
    assert_eq!(game.validate_guess("RGBYY"), Err(GuessError::LengthMismatch));
}

#[test]
fn validate_reports_first_unknown_symbol() {
    let game = Game::new();
    assert_eq!(game.validate_guess("RGBX"), Err(GuessError::UnknownSymbol('X')));
    assert_eq!(game.validate_guess("rxzb"), Err(GuessError::UnknownSymbol('X')));
    assert_eq!(game.validate_guess("RXZB"), Err(GuessError::UnknownSymbol('X')));
}

#[test]
fn validate_counts_characters_not_bytes() {
    let game = Game::new();
    assert_eq!(game.validate_guess("RGé"), Err(GuessError::LengthMismatch));
    assert_eq!(game.validate_guess("RGéB"), Err(GuessError::UnknownSymbol('É')));
}

#[test]
fn validate_round_trip_of_codes() {
    let game = Game::new();
    let codes = vec![
        vec!['R', 'G', 'B', 'Y'],
        vec!['M', 'M', 'C', 'C'],
        vec!['C', 'Y', 'M', 'R'],
        vec!['G', 'G', 'G', 'G'],
    ];
    for code in codes {
        let text: String = code.iter().collect();
        assert_eq!(game.validate_guess(&text), Ok(code));
    }
}

#[test]
fn score_is_symmetric() {
    let pairs = vec![
        (vec!['R', 'G', 'B', 'Y'], vec!['R', 'B', 'Y', 'M']),
        (vec!['R', 'R', 'G', 'G'], vec!['G', 'R', 'R', 'C']),
        (vec!['M', 'C', 'M', 'C'], vec!['C', 'C', 'M', 'M']),
    ];
    for (a, b) in pairs {
        assert_eq!(score(&a, &b), score(&b, &a));
    }
}

#[test]
fn score_never_exceeds_length() {
    let secret = vec!['R', 'R', 'G', 'G'];
    for guess in [
        vec!['G', 'G', 'R', 'R'],
        vec!['R', 'R', 'G', 'G'],
        vec!['R', 'G', 'R', 'G'],
        vec!['R', 'R', 'R', 'R'],
    ] {
        let f = score(&secret, &guess);
        assert!(f.exact_matches + f.color_matches <= CODE_LENGTH);
    }
}

#[test]
fn score_of_code_with_itself() {
    for code in [vec!['R', 'G', 'B', 'Y'], vec!['C', 'C', 'C', 'C']] {
        assert_eq!(
            score(&code, &code),
            Feedback { exact_matches: 4, color_matches: 0 }
        );
    }
}

#[test]
fn score_uses_each_secret_symbol_once() {
    let f = score(&['R', 'R', 'R', 'R'], &['R', 'G', 'G', 'G']);
    assert_eq!(f, Feedback { exact_matches: 1, color_matches: 0 });
    let f = score(&['R', 'G', 'G', 'B'], &['G', 'R', 'R', 'R']);
    assert_eq!(f, Feedback { exact_matches: 0, color_matches: 2 });
    let f = score(&['R', 'R', 'G', 'G'], &['G', 'G', 'R', 'R']);
    assert_eq!(f, Feedback { exact_matches: 0, color_matches: 4 });
    let f = score(&['R', 'G', 'R', 'G'], &['R', 'R', 'G', 'G']);
    assert_eq!(f, Feedback { exact_matches: 2, color_matches: 2 });
}

#[test]
fn score_of_empty_codes() {
    assert_eq!(score(&[], &[]), Feedback { exact_matches: 0, color_matches: 0 });
}

#[test]
fn exact_guess_wins_at_once() {
    let mut game = game_on(vec!['R', 'G', 'B', 'Y']);
    let f = game.play_round(vec!['R', 'G', 'B', 'Y']);
    assert_eq!(f, Feedback { exact_matches: 4, color_matches: 0 });
    assert_eq!(game.state(), GameState::Won);
    assert_eq!(game.attempts(), 1);
}

#[test]
fn miss_on_first_attempt_keeps_playing() {
    let mut game = game_on(vec!['R', 'G', 'B', 'Y']);
    let f = game.play_round(vec!['M', 'M', 'C', 'C']);
    assert_eq!(f, Feedback { exact_matches: 0, color_matches: 0 });
    assert_eq!(game.state(), GameState::InProgress);
    assert_eq!(game.history().len(), 1);
    assert_eq!(game.history()[0].guess, vec!['M', 'M', 'C', 'C']);
    assert_eq!(game.history()[0].feedback, f);
}

#[test]
fn win_on_last_attempt_is_a_win() {
    let mut game = Game::with_secret(vec!['R', 'G', 'B', 'Y'], 2);
    game.play_round(vec!['Y', 'B', 'G', 'R']);
    assert_eq!(game.state(), GameState::InProgress);
    game.play_round(vec!['R', 'G', 'B', 'Y']);
    assert_eq!(game.state(), GameState::Won);
}

#[test]
fn all_attempts_without_win_lose() {
    let mut game = game_on(vec!['R', 'G', 'B', 'Y']);
    for i in 0..MAX_ATTEMPTS {
        assert_eq!(game.state(), GameState::InProgress);
        let f = game.play_round(vec!['R', 'B', 'Y', 'M']);
        assert_eq!(f, Feedback { exact_matches: 1, color_matches: 2 });
        assert_eq!(game.attempts(), i + 1);
    }
    assert_eq!(game.state(), GameState::Lost);
    assert_eq!(game.history().len(), MAX_ATTEMPTS);
}

#[test]
fn abandon_reveals_secret() {
    let mut game = game_on(vec!['C', 'M', 'Y', 'B']);
    game.play_round(vec!['R', 'R', 'R', 'R']);
    assert_eq!(game.abandon(), vec!['C', 'M', 'Y', 'B']);
    assert_eq!(game.state(), GameState::Abandoned);
    assert_eq!(game.attempts(), 1);
}

#[test]
fn new_game_has_a_valid_secret() {
    let game = Game::new();
    let secret = game.reveal_code();
    assert_eq!(secret.len(), CODE_LENGTH);
    assert!(secret.iter().all(|c| "RGBYMC".contains(*c)));
    assert_eq!(game.attempts(), 0);
    assert_eq!(game.max_attempts(), MAX_ATTEMPTS);
    assert_eq!(game.state(), GameState::InProgress);
    assert!(game.history().is_empty());
}

#[test]
fn running_out_in_the_last_two_attempts() {
    let mut game = game_on(vec!['R', 'G', 'B', 'Y']);
    for _ in 0..7 {
        game.play_round(vec!['M', 'M', 'M', 'M']);
    }
    assert!(!game.running_out());
    game.play_round(vec!['M', 'M', 'M', 'M']);
    assert!(game.running_out());
}

#[test]
fn hint_tiers() {
    let f = |e, c| Feedback { exact_matches: e, color_matches: c };
    assert_eq!(hint_for(f(0, 0)), Hint::NoMatch);
    assert_eq!(hint_for(f(0, 3)), Hint::RightColors);
    assert_eq!(hint_for(f(1, 2)), Hint::OneExact);
    assert_eq!(hint_for(f(2, 0)), Hint::TwoExact);
    assert_eq!(hint_for(f(3, 0)), Hint::ThreeExact);
    assert_eq!(hint_for(f(4, 0)), Hint::KeepAnalyzing);
}

#[test]
fn praise_tiers() {
    assert_eq!(praise_for(1), Praise::HoleInOne);
    assert_eq!(praise_for(3), Praise::Master);
    assert_eq!(praise_for(4), Praise::Excellent);
    assert_eq!(praise_for(6), Praise::Excellent);
    assert_eq!(praise_for(7), Praise::WellDone);
}

#[test]
fn quit_command_ignores_case() {
    assert!(is_quit_command("quit"));
    assert!(is_quit_command("QuIt"));
    assert!(!is_quit_command("quits"));
    assert!(!is_quit_command("qu"));
    assert!(!is_quit_command("RGBY"));
}

#[test]
fn yes_answers() {
    assert!(is_yes("y"));
    assert!(is_yes("Y"));
    assert!(is_yes("yes"));
    assert!(is_yes("YeS"));
    assert!(!is_yes("n"));
    assert!(!is_yes("ye"));
    assert!(!is_yes(""));
}

#[test]
fn submit_plays_a_valid_guess() {
    let mut game = game_on(vec!['R', 'G', 'B', 'Y']);
    assert_eq!(
        game.submit("rbym"),
        Ok(Feedback { exact_matches: 1, color_matches: 2 })
    );
    assert_eq!(game.attempts(), 1);
    assert_eq!(game.history()[0].guess, vec!['R', 'B', 'Y', 'M']);
    assert_eq!(game.submit("RGBY"), Ok(Feedback { exact_matches: 4, color_matches: 0 }));
    assert_eq!(game.state(), GameState::Won);
}

#[test]
fn submit_rejection_costs_no_attempt() {
    let mut game = game_on(vec!['R', 'G', 'B', 'Y']);
    assert_eq!(game.submit("RGB"), Err(GuessError::LengthMismatch));
    assert_eq!(game.submit("RGBW"), Err(GuessError::UnknownSymbol('W')));
    assert_eq!(game.attempts(), 0);
    assert!(game.history().is_empty());
    assert_eq!(game.state(), GameState::InProgress);
}

#[test]
fn rejected_symbol_reads_upper_cased() {
    assert_eq!(rejected_symbol('x'), 'X');
    assert_eq!(rejected_symbol('X'), 'X');
    assert_eq!(rejected_symbol('7'), '7');
    assert_eq!(rejected_symbol('ß'), 'S');
    assert_eq!(rejected_symbol('\u{1E99}'), '\u{30A}');
}

#[test]
fn unknown_symbol_skips_palette_symbols() {
    assert_eq!(unknown_symbol(&vec!['X']), 'X');
    assert_eq!(unknown_symbol(&vec!['Y', '\u{30A}']), '\u{30A}');
    assert_eq!(unknown_symbol(&vec!['S', 'S']), 'S');
    assert_eq!(unknown_symbol(&vec!['R', 'G']), 'G');
}

#[test]
fn color_symbols_are_upper_case_palette_letters() {
    for c in ['R', 'G', 'B', 'Y', 'M', 'C'] {
        assert!(is_color_symbol(c));
    }
    assert!(!is_color_symbol('r'));
    assert!(!is_color_symbol('X'));
}

#[test]
fn new_game_secret_is_a_code() {
    for _ in 0..20 {
        let secret = Game::new().reveal_code();
        assert_eq!(secret.len(), CODE_LENGTH);
        assert!(secret.iter().all(|c| is_color_symbol(*c)));
    }
}
