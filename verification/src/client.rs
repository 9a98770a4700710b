//! The client-side session: a small state machine over authentication,
//! menu, hinting and guessing, deciding how a received command changes the
//! local state and which command, if any, a line of user input turns into.
//! Prompting and rendering stay with the surrounding I/O layer.
use vstd::prelude::*;
use vstd::string::StrSliceExecFns;

use crate::command::Command;
use crate::command::CommandV;
use crate::text::starts_with_str;
use crate::text::str_eq;

verus! {

/// Where the session stands: waiting to authenticate, in the menu, hinting
/// in a match, or guessing in a match.
#[derive(Clone, Copy, Debug, PartialEq, Eq, Structural)]
pub enum GameState {
    Guessing,
    Hinting,
    Menu,
    Auth,
}

impl Default for GameState {
    /// A session starts unauthenticated.
    fn default() -> (r: GameState)
        ensures
            r == GameState::Auth,
    {
        GameState::Auth
    }
}

/// The client's local state: the session phase, its own id once assigned,
/// and the current opponent's id, if any.
pub struct ClientConfig {
    pub state: GameState,
    pub id: Option<String>,
    pub opponent_id: Option<String>,
}

/// What the I/O layer must do after applying a received command: just
/// render it, prompt for the password and send it, or prompt for a secret
/// word and send it.
#[derive(Clone, Copy, Debug, PartialEq, Eq, Structural)]
pub enum ClientAction {
    Show,
    AskPassword,
    AskWord,
}

/// How one received command changes the local state and what it asks of
/// the I/O layer.
pub open spec fn spec_apply_command(
    pre: ClientConfig,
    post: ClientConfig,
    cmd: CommandV,
    a: ClientAction,
) -> bool {
    match cmd {
        CommandV::SetId(idv) => {
            &&& post.state == GameState::Menu
            &&& post.id matches Some(s) && s@ == idv
            &&& post.opponent_id == pre.opponent_id
            &&& a == ClientAction::Show
        },
        CommandV::PasswordRequest => post == pre && a == ClientAction::AskPassword,
        CommandV::PlayerJoined(idv) => {
            &&& post.state == pre.state
            &&& post.id == pre.id
            &&& post.opponent_id matches Some(s) && s@ == idv
            &&& a == ClientAction::Show
        },
        CommandV::SetGuess(_) => {
            &&& post.state == GameState::Guessing
            &&& post.id == pre.id
            &&& post.opponent_id == pre.opponent_id
            &&& a == ClientAction::Show
        },
        CommandV::Win => {
            &&& post.state == GameState::Menu
            &&& post.id == pre.id
            &&& post.opponent_id is None
            &&& a == ClientAction::Show
        },
        CommandV::Error(_) => {
            &&& post.state == GameState::Menu
            &&& post.id == pre.id
            &&& post.opponent_id is None
            &&& a == ClientAction::Show
        },
        CommandV::PlayerLeft => {
            &&& post.state == GameState::Menu
            &&& post.id == pre.id
            &&& post.opponent_id is None
            &&& a == ClientAction::Show
        },
        CommandV::RequestMatchGuess => post == pre && a == ClientAction::AskWord,
        _ => post == pre && a == ClientAction::Show,
    }
}

/// Which command one line of user input turns into, given the session
/// phase, and how the local state moves. `None` means nothing is sent
/// (help text, a rejected input, or a local state change only).
pub open spec fn spec_handle_input(
    pre: ClientConfig,
    post: ClientConfig,
    line: Seq<char>,
    r: Option<Command>,
) -> bool {
    if pre.state == GameState::Guessing {
        if line.len() > 0 {
            &&& r matches Some(c) && c@ == CommandV::Guess(line)
            &&& post == pre
        } else {
            r is None && post == pre
        }
    } else if pre.state == GameState::Auth {
        r is None && post == pre
    } else {
        let in_menu = pre.state == GameState::Menu;
        if line == "opponents"@ {
            r matches Some(c) && c@ == CommandV::OpponentsRequest && post == pre
        } else if line == "help"@ {
            r is None && post == pre
        } else if line.len() >= "match "@.len() && line.take("match "@.len() as int)
            == "match "@ {
            let rest = line.skip("match "@.len() as int);
            if in_menu {
                &&& r matches Some(c) && c@ == CommandV::RequestMatch(rest)
                &&& post.state == GameState::Hinting
                &&& post.id == pre.id
                &&& post.opponent_id matches Some(s) && s@ == rest
            } else {
                r is None && post == pre
            }
        } else if line.len() >= "hint "@.len() && line.take("hint "@.len() as int) == "hint "@ {
            if in_menu {
                r is None && post == pre
            } else {
                r matches Some(c) && c@ == CommandV::Hint(line.skip("hint "@.len() as int))
                    && post == pre
            }
        } else if line == "exit"@ {
            if in_menu {
                r is None && post == pre
            } else {
                &&& r is None
                &&& post.state == GameState::Menu
                &&& post.id == pre.id
                &&& post.opponent_id == pre.opponent_id
            }
        } else if line == "surrender"@ {
            if in_menu {
                r is None && post == pre
            } else {
                &&& r matches Some(c) && c@ == CommandV::Surrender
                &&& post.state == GameState::Menu
                &&& post.id == pre.id
                &&& post.opponent_id == pre.opponent_id
            }
        } else {
            r is None && post == pre
        }
    }
}

impl ClientConfig {
    /// A fresh session: unauthenticated, no id, no opponent.
    pub fn new() -> (c: ClientConfig)
        ensures
            c.state == GameState::Auth,
            c.id is None,
            c.opponent_id is None,
    {
        ClientConfig { state: GameState::Auth, id: None, opponent_id: None }
    }

    /// Applies one command received from the server to the local state and
    /// says what the I/O layer must do with it.
    pub fn apply_command(&mut self, cmd: &Command) -> (a: ClientAction)
        ensures
            spec_apply_command(*old(self), *final(self), cmd@, a),
    {
        match cmd {
            Command::SetId(id) => {
                self.id = Some(id.clone());
                self.state = GameState::Menu;
                ClientAction::Show
            },
            Command::PasswordRequest => ClientAction::AskPassword,
            Command::PlayerJoined(id) => {
                self.opponent_id = Some(id.clone());
                ClientAction::Show
            },
            Command::SetGuess(_) => {
                self.state = GameState::Guessing;
                ClientAction::Show
            },
            Command::Win => {
                self.opponent_id = None;
                self.state = GameState::Menu;
                ClientAction::Show
            },
            Command::Error(_) => {
                self.opponent_id = None;
                self.state = GameState::Menu;
                ClientAction::Show
            },
            Command::PlayerLeft => {
                self.opponent_id = None;
                self.state = GameState::Menu;
                ClientAction::Show
            },
            Command::RequestMatchGuess => ClientAction::AskWord,
            _ => ClientAction::Show,
        }
    }

    /// Turns one line of user input into the command to send, if any,
    /// moving the local state as the menu rules say.
    pub fn handle_input(&mut self, line: &String) -> (r: Option<Command>)
        ensures
            spec_handle_input(*old(self), *final(self), line@, r),
    {
        match self.state {
            GameState::Guessing => {
                if line.as_str().unicode_len() > 0 {
                    Some(Command::Guess(line.clone()))
                } else {
                    None
                }
            },
            GameState::Auth => None,
            _ => {
                let in_menu = matches!(self.state, GameState::Menu);
                if str_eq(line.as_str(), "opponents") {
                    Some(Command::OpponentsRequest)
                } else if str_eq(line.as_str(), "help") {
                    None
                } else if starts_with_str(line.as_str(), "match ") {
                    if in_menu {
                        let plen = "match ".unicode_len();
                        let llen = line.as_str().unicode_len();
                        let rest = line.as_str().substring_char(plen, llen).to_owned();
                        proof {
                            assert(rest@ =~= line@.skip("match "@.len() as int));
                        }
                        self.opponent_id = Some(rest.clone());
                        self.state = GameState::Hinting;
                        Some(Command::RequestMatch(rest))
                    } else {
                        None
                    }
                } else if starts_with_str(line.as_str(), "hint ") {
                    if in_menu {
                        None
                    } else {
                        let plen = "hint ".unicode_len();
                        let llen = line.as_str().unicode_len();
                        let rest = line.as_str().substring_char(plen, llen).to_owned();
                        proof {
                            assert(rest@ =~= line@.skip("hint "@.len() as int));
                        }
                        Some(Command::Hint(rest))
                    }
                } else if str_eq(line.as_str(), "exit") {
                    if in_menu {
                        None
                    } else {
                        self.state = GameState::Menu;
                        None
                    }
                } else if str_eq(line.as_str(), "surrender") {
                    if in_menu {
                        None
                    } else {
                        self.state = GameState::Menu;
                        Some(Command::Surrender)
                    }
                } else {
                    None
                }
            },
        }
    }
}

} // verus!
