//! Client session state machine and input parsing.
use guess_a_word::client::{ClientAction, ClientConfig, GameState};
use guess_a_word::command::Command;

#[test]
fn session_starts_unauthenticated() {
    let c = ClientConfig::new();
    assert_eq!(c.state, GameState::Auth);
    assert!(c.id.is_none());
    assert!(c.opponent_id.is_none());
}

#[test]
fn password_request_asks_for_password() {
    let mut c = ClientConfig::new();
    let a = c.apply_command(&Command::PasswordRequest);
    assert_eq!(a, ClientAction::AskPassword);
    assert_eq!(c.state, GameState::Auth);
}

#[test]
fn set_id_enters_the_menu() {
    let mut c = ClientConfig::new();
    let a = c.apply_command(&Command::SetId("5".to_string()));
    assert_eq!(a, ClientAction::Show);
    assert_eq!(c.state, GameState::Menu);
    assert_eq!(c.id.as_deref(), Some("5"));
}

#[test]
fn request_match_guess_asks_for_a_word() {
    let mut c = ClientConfig::new();
    c.apply_command(&Command::SetId("5".to_string()));
    let a = c.apply_command(&Command::RequestMatchGuess);
    assert_eq!(a, ClientAction::AskWord);
}

#[test]
fn set_guess_switches_to_guessing_and_win_returns_to_menu() {
    let mut c = ClientConfig::new();
    c.apply_command(&Command::SetId("5".to_string()));
    c.apply_command(&Command::PlayerJoined("7".to_string()));
    assert_eq!(c.opponent_id.as_deref(), Some("7"));

    c.apply_command(&Command::SetGuess("_____".to_string()));
    assert_eq!(c.state, GameState::Guessing);

    c.apply_command(&Command::Win);
    assert_eq!(c.state, GameState::Menu);
    assert!(c.opponent_id.is_none());
}

#[test]
fn error_and_player_left_return_to_menu() {
    let mut c = ClientConfig::new();
    c.apply_command(&Command::SetId("5".to_string()));
    c.apply_command(&Command::PlayerJoined("7".to_string()));
    c.apply_command(&Command::Error("boom".to_string()));
    assert_eq!(c.state, GameState::Menu);
    assert!(c.opponent_id.is_none());

    c.apply_command(&Command::PlayerJoined("8".to_string()));
    c.apply_command(&Command::PlayerLeft);
    assert_eq!(c.state, GameState::Menu);
    assert!(c.opponent_id.is_none());
}

fn in_menu() -> ClientConfig {
    let mut c = ClientConfig::new();
    c.apply_command(&Command::SetId("5".to_string()));
    c
}

#[test]
fn menu_input_opponents_and_help() {
    let mut c = in_menu();
    assert_eq!(
        c.handle_input(&"opponents".to_string()),
        Some(Command::OpponentsRequest)
    );
    assert_eq!(c.handle_input(&"help".to_string()), None);
    assert_eq!(c.handle_input(&"gibberish".to_string()), None);
    assert_eq!(c.state, GameState::Menu);
}

#[test]
fn menu_input_match_enters_hinting() {
    let mut c = in_menu();
    let sent = c.handle_input(&"match 7".to_string());
    assert_eq!(sent, Some(Command::RequestMatch("7".to_string())));
    assert_eq!(c.state, GameState::Hinting);
    assert_eq!(c.opponent_id.as_deref(), Some("7"));
}

#[test]
fn hint_only_works_while_hinting() {
    let mut c = in_menu();
    assert_eq!(c.handle_input(&"hint fruit".to_string()), None);

    c.handle_input(&"match 7".to_string());
    assert_eq!(
        c.handle_input(&"hint a fruit".to_string()),
        Some(Command::Hint("a fruit".to_string()))
    );
    // and matching again is refused while playing
    assert_eq!(c.handle_input(&"match 9".to_string()), None);
    assert_eq!(c.opponent_id.as_deref(), Some("7"));
}

#[test]
fn exit_and_surrender_leave_the_match() {
    let mut c = in_menu();
    assert_eq!(c.handle_input(&"exit".to_string()), None);
    assert_eq!(c.handle_input(&"surrender".to_string()), None);

    c.handle_input(&"match 7".to_string());
    assert_eq!(c.handle_input(&"exit".to_string()), None);
    assert_eq!(c.state, GameState::Menu);

    c.handle_input(&"match 7".to_string());
    let sent = c.handle_input(&"surrender".to_string());
    assert_eq!(sent, Some(Command::Surrender));
    assert_eq!(c.state, GameState::Menu);
}

#[test]
fn guessing_sends_nonempty_lines_verbatim() {
    let mut c = in_menu();
    c.apply_command(&Command::SetGuess("_____".to_string()));
    assert_eq!(
        c.handle_input(&"apple".to_string()),
        Some(Command::Guess("apple".to_string()))
    );
    assert_eq!(c.handle_input(&"".to_string()), None);
}

#[test]
fn input_before_authentication_sends_nothing() {
    let mut c = ClientConfig::new();
    assert_eq!(c.handle_input(&"opponents".to_string()), None);
    assert_eq!(c.state, GameState::Auth);
}
