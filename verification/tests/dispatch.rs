//! Server state and dispatcher scenarios.
use guess_a_word::command::Command;
use guess_a_word::dispatch::Outcome;
use guess_a_word::state::{ServerConfig, ServerState};
use guess_a_word::AppError;

const NOW: u64 = 1700000000;

fn config() -> ServerConfig {
    ServerConfig::new("supersecret123".to_string())
}

fn new_state_with_players(n: u32) -> ServerState {
    let mut state = ServerState::new();
    for _ in 0..n {
        state.create_player();
    }
    state
}

fn authenticate(state: &mut ServerState, pid: u32) {
    let r = state.handle_command(
        Command::Password("supersecret123".to_string()),
        pid,
        &config(),
        NOW,
    );
    assert_eq!(r.outcome, Outcome::Continue);
}

/// Two authenticated idle players with ids 1 and 2.
fn two_ready_players() -> ServerState {
    let mut state = new_state_with_players(2);
    authenticate(&mut state, 1);
    authenticate(&mut state, 2);
    state
}

#[test]
fn player_ids_strictly_increase_and_are_never_reused() {
    let mut state = ServerState::new();
    assert_eq!(state.create_player(), 1);
    assert_eq!(state.create_player(), 2);
    assert_eq!(state.create_player(), 3);
    state.remove_player(2);
    // the freed id is not handed out again
    assert_eq!(state.create_player(), 4);
    assert!(state.get_player(2).is_none());
}

#[test]
fn unauthenticated_player_cannot_mutate_anything() {
    let mut state = new_state_with_players(2);
    let r = state.handle_command(Command::Guess("apple".to_string()), 1, &config(), NOW);
    assert_eq!(r.outcome, Outcome::Close(AppError::Unauthorized));
    assert!(r.sends.is_empty());
    assert!(r.broadcast.is_none());
    assert_eq!(state.games.len(), 0);
    assert!(!state.get_player(1).unwrap().authenticated);

    let r = state.handle_command(Command::RequestMatch("2".to_string()), 1, &config(), NOW);
    assert_eq!(r.outcome, Outcome::Close(AppError::Unauthorized));
    assert_eq!(state.games.len(), 0);
    assert!(state.get_player(1).unwrap().in_game.is_none());
    assert!(state.get_player(2).unwrap().in_game.is_none());
}

#[test]
fn wrong_password_closes_with_auth_failure() {
    let mut state = new_state_with_players(1);
    let r = state.handle_command(Command::Password("nope".to_string()), 1, &config(), NOW);
    assert_eq!(r.outcome, Outcome::Close(AppError::InvalidAuth));
    assert!(!state.get_player(1).unwrap().authenticated);
}

#[test]
fn right_password_authenticates_and_replies_with_id() {
    let mut state = new_state_with_players(1);
    let r = state.handle_command(
        Command::Password("supersecret123".to_string()),
        1,
        &config(),
        NOW,
    );
    assert_eq!(r.outcome, Outcome::Continue);
    assert_eq!(r.sends, vec![(1, Command::SetId("1".to_string()))]);
    assert!(state.get_player(1).unwrap().authenticated);
}

#[test]
fn opponents_lists_other_free_authenticated_players() {
    let mut state = new_state_with_players(3);
    authenticate(&mut state, 1);
    authenticate(&mut state, 2);
    // player 3 stays unauthenticated and must not be listed
    let r = state.handle_command(Command::OpponentsRequest, 1, &config(), NOW);
    assert_eq!(
        r.sends,
        vec![(1, Command::Opponents(vec!["2".to_string()]))]
    );
}

#[test]
fn request_match_creates_game_and_notifies_both() {
    let mut state = two_ready_players();
    let r = state.handle_command(Command::RequestMatch("2".to_string()), 1, &config(), NOW);
    assert_eq!(r.outcome, Outcome::Continue);
    assert_eq!(
        r.sends,
        vec![
            (1, Command::RequestMatchGuess),
            (2, Command::PlayerJoined("1".to_string())),
        ]
    );
    assert_eq!(state.games.len(), 1);
    let game = &state.games[0];
    assert_eq!(game.id, 1);
    assert_eq!(game.hinter, 1);
    assert_eq!(game.guesser, 2);
    assert!(!game.finished);
    assert_eq!(state.get_player(1).unwrap().in_game, Some(1));
    assert_eq!(state.get_player(2).unwrap().in_game, Some(1));
}

#[test]
fn request_match_rejections_mutate_nothing() {
    let mut state = two_ready_players();
    let cases = [
        ("abc", "Invalid player id"),
        ("1", "Cannot start a match with yourself"),
        ("99", "Player id not found"),
    ];
    for (target, msg) in cases {
        let r = state.handle_command(
            Command::RequestMatch(target.to_string()),
            1,
            &config(),
            NOW,
        );
        assert_eq!(r.outcome, Outcome::Continue);
        assert_eq!(r.sends, vec![(1, Command::Error(msg.to_string()))]);
        assert_eq!(state.games.len(), 0);
        assert!(state.get_player(1).unwrap().in_game.is_none());
        assert!(state.get_player(2).unwrap().in_game.is_none());
    }
}

#[test]
fn request_match_with_busy_or_unauthenticated_player_errors() {
    let mut state = new_state_with_players(3);
    authenticate(&mut state, 1);
    authenticate(&mut state, 2);
    // 3 is unauthenticated
    let r = state.handle_command(Command::RequestMatch("3".to_string()), 1, &config(), NOW);
    assert_eq!(r.sends, vec![(1, Command::Error("Invalid player id".to_string()))]);
    assert_eq!(state.games.len(), 0);

    // 1 and 2 enter a game; a third authenticated player cannot grab either
    state.handle_command(Command::RequestMatch("2".to_string()), 1, &config(), NOW);
    authenticate(&mut state, 3);
    let r = state.handle_command(Command::RequestMatch("2".to_string()), 3, &config(), NOW);
    assert_eq!(r.sends, vec![(3, Command::Error("Invalid player id".to_string()))]);
    assert_eq!(state.games.len(), 1);
    assert!(state.get_player(3).unwrap().in_game.is_none());
}

#[test]
fn set_word_masks_it_for_the_guesser() {
    let mut state = two_ready_players();
    state.handle_command(Command::RequestMatch("2".to_string()), 1, &config(), NOW);
    let r = state.handle_command(Command::SetGuess("apple".to_string()), 1, &config(), NOW);
    assert_eq!(
        r.sends,
        vec![
            (1, Command::PlayerJoined("2".to_string())),
            (2, Command::SetGuess("_____".to_string())),
        ]
    );
    assert_eq!(state.games[0].word.as_deref(), Some("apple"));

    // a second word is refused
    let r = state.handle_command(Command::SetGuess("pear".to_string()), 1, &config(), NOW);
    assert_eq!(r.sends, vec![(1, Command::Error("Word already set".to_string()))]);
    assert_eq!(state.games[0].word.as_deref(), Some("apple"));
}

#[test]
fn guesser_cannot_set_the_word() {
    let mut state = two_ready_players();
    state.handle_command(Command::RequestMatch("2".to_string()), 1, &config(), NOW);
    let r = state.handle_command(Command::SetGuess("apple".to_string()), 2, &config(), NOW);
    assert_eq!(r.sends, vec![(2, Command::Error("Word already set".to_string()))]);
    assert!(state.games[0].word.is_none());
}

fn state_in_game_with_word() -> ServerState {
    let mut state = two_ready_players();
    state.handle_command(Command::RequestMatch("2".to_string()), 1, &config(), NOW);
    state.handle_command(Command::SetGuess("apple".to_string()), 1, &config(), NOW);
    state
}

#[test]
fn hint_is_logged_and_forwarded_to_guesser() {
    let mut state = state_in_game_with_word();
    let r = state.handle_command(Command::Hint("a fruit".to_string()), 1, &config(), NOW);
    assert_eq!(r.sends, vec![(2, Command::Hint("a fruit".to_string()))]);
    assert_eq!(state.games[0].hints, vec!["a fruit".to_string()]);
    assert!(!state.games[0].finished);
}

#[test]
fn hint_outside_a_game_or_from_guesser_errors() {
    let mut state = two_ready_players();
    let r = state.handle_command(Command::Hint("x".to_string()), 1, &config(), NOW);
    assert_eq!(r.sends, vec![(1, Command::Error("Not in a game".to_string()))]);

    let mut state = state_in_game_with_word();
    let r = state.handle_command(Command::Hint("x".to_string()), 2, &config(), NOW);
    assert_eq!(r.sends, vec![(2, Command::Error("Not in a game".to_string()))]);
    assert!(state.games[0].hints.is_empty());
}

#[test]
fn wrong_guess_is_forwarded_verbatim_and_game_stays_open() {
    let mut state = state_in_game_with_word();
    let r = state.handle_command(Command::Guess("pear".to_string()), 2, &config(), NOW);
    assert_eq!(r.sends, vec![(1, Command::Guess("pear".to_string()))]);
    assert!(r.broadcast.is_none());
    let game = &state.games[0];
    assert!(!game.finished);
    assert!(game.winner.is_none());
    assert_eq!(game.timestamp, 0);
    assert_eq!(game.guesses, vec!["pear".to_string()]);
    assert_eq!(state.get_player(2).unwrap().in_game, Some(1));
}

#[test]
fn exact_guess_wins_and_finishes_the_game() {
    let mut state = state_in_game_with_word();
    let r = state.handle_command(Command::Guess("apple".to_string()), 2, &config(), NOW);
    assert_eq!(r.sends, vec![(2, Command::Win), (1, Command::Win)]);
    assert_eq!(r.broadcast, Some(1));
    let game = &state.games[0];
    assert!(game.finished);
    assert_eq!(game.winner, Some(2));
    assert!(game.timestamp != 0);
    assert_eq!(game.timestamp, NOW);
    assert!(state.get_player(1).unwrap().in_game.is_none());
    assert!(state.get_player(2).unwrap().in_game.is_none());
}

#[test]
fn hinter_cannot_guess() {
    let mut state = state_in_game_with_word();
    let r = state.handle_command(Command::Guess("apple".to_string()), 1, &config(), NOW);
    assert_eq!(r.sends, vec![(1, Command::Error("Not in a game".to_string()))]);
    assert!(!state.games[0].finished);
}

#[test]
fn surrender_ends_the_game_for_the_other_side() {
    let mut state = state_in_game_with_word();
    let r = state.handle_command(Command::Surrender, 2, &config(), NOW);
    assert_eq!(r.sends, vec![(1, Command::PlayerLeft)]);
    assert_eq!(r.broadcast, Some(1));
    let game = &state.games[0];
    assert!(game.finished);
    assert_eq!(game.winner, Some(1));
    assert!(state.get_player(1).unwrap().in_game.is_none());
    assert!(state.get_player(2).unwrap().in_game.is_none());
}

#[test]
fn surrender_outside_a_game_is_ignored() {
    let mut state = two_ready_players();
    let r = state.handle_command(Command::Surrender, 1, &config(), NOW);
    assert_eq!(r.outcome, Outcome::Continue);
    assert!(r.sends.is_empty());
}

#[test]
fn disconnect_mid_game_notifies_the_remaining_player() {
    let mut state = state_in_game_with_word();
    let r = state.disconnect(2, NOW);
    assert_eq!(r.sends, vec![(1, Command::PlayerLeft)]);
    assert_eq!(r.broadcast, Some(1));
    assert!(state.games[0].finished);
    assert_eq!(state.games[0].winner, Some(1));
    state.remove_player(2);
    assert!(state.get_player(2).is_none());
}

#[test]
fn unexpected_commands_are_ignored_once_authenticated() {
    let mut state = two_ready_players();
    for cmd in [
        Command::Okay,
        Command::Win,
        Command::PlayerLeft,
        Command::SetId("9".to_string()),
        Command::Password("supersecret123".to_string()),
    ] {
        let r = state.handle_command(cmd, 1, &config(), NOW);
        assert_eq!(r.outcome, Outcome::Continue);
        assert!(r.sends.is_empty());
    }
    assert_eq!(state.games.len(), 0);
}

#[test]
fn subscribe_with_wrong_password_closes() {
    let mut state = new_state_with_players(1);
    let r = state.handle_command(
        Command::SubscribeToGames("nope".to_string()),
        1,
        &config(),
        NOW,
    );
    assert_eq!(r.outcome, Outcome::Close(AppError::InvalidAuth));
    assert!(state.subscribers.is_empty());
}

#[test]
fn subscriber_handoff_leaves_player_registry_and_receives_backlog() {
    // one finished game first
    let mut state = state_in_game_with_word();
    state.handle_command(Command::Guess("apple".to_string()), 2, &config(), NOW);

    // a third connection subscribes, without ever authenticating
    let sid = state.create_player();
    let r = state.handle_command(
        Command::SubscribeToGames("supersecret123".to_string()),
        sid,
        &config(),
        NOW,
    );
    assert_eq!(r.outcome, Outcome::Handoff);
    assert!(r.sends.is_empty());

    // handoff: the player record is consumed, only the connection survives
    state.remove_player(sid);
    assert!(state.get_player(sid).is_none());

    // the backlog is every already-finished game with a word
    assert_eq!(state.finished_game_ids(), vec![1]);

    state.set_subscriber_ready(sid);
    assert_eq!(state.subscriber_ready_ids(), vec![sid]);

    // a failed broadcast write demotes the subscriber to reserved
    state.clear_subscriber(sid);
    assert!(state.subscriber_ready_ids().is_empty());
}

#[test]
fn finished_games_without_word_are_not_broadcast() {
    let mut state = two_ready_players();
    state.handle_command(Command::RequestMatch("2".to_string()), 1, &config(), NOW);
    // surrender before any word was set: no broadcast, no backlog entry
    let r = state.handle_command(Command::Surrender, 1, &config(), NOW);
    assert!(r.broadcast.is_none());
    assert!(state.games[0].finished);
    assert!(state.finished_game_ids().is_empty());
}

#[test]
fn subscribe_succeeds_whatever_the_authentication_state() {
    let mut state = new_state_with_players(1);
    authenticate(&mut state, 1);
    let r = state.handle_command(
        Command::SubscribeToGames("supersecret123".to_string()),
        1,
        &config(),
        NOW,
    );
    assert_eq!(r.outcome, Outcome::Handoff);
    assert_eq!(state.subscribers.len(), 1);
    assert_eq!(state.subscribers[0].id, 1);
    assert!(!state.subscribers[0].ready);
}

#[test]
fn resubscribing_demotes_an_existing_entry() {
    let mut state = new_state_with_players(1);
    state.handle_command(
        Command::SubscribeToGames("supersecret123".to_string()),
        1,
        &config(),
        NOW,
    );
    state.remove_player(1);
    state.set_subscriber_ready(1);
    assert_eq!(state.subscriber_ready_ids(), vec![1]);

    // the same id subscribing again goes back to reserved, pending handoff
    let pid = state.create_player();
    assert_eq!(pid, 2);
    // registry keys are player ids; a fresh connection re-registering id 1
    // is modelled by its own id, so push the demotion directly
    state.clear_subscriber(1);
    assert!(state.subscriber_ready_ids().is_empty());
    assert_eq!(state.subscribers.len(), 1);
}

#[test]
fn mask_counts_characters_not_bytes() {
    let mut state = two_ready_players();
    state.handle_command(Command::RequestMatch("2".to_string()), 1, &config(), NOW);
    // a three-character word with multi-byte characters masks to three
    // underscores
    let word = "p\u{e4}\u{e4}".to_string();
    let r = state.handle_command(Command::SetGuess(word), 1, &config(), NOW);
    assert_eq!(r.sends[1], (2, Command::SetGuess("___".to_string())));
}
