//! The command dispatcher: interprets one incoming command in the context
//! of one player and the server state, enforcing "authenticate before
//! play", matchmaking and the gameplay rules. It mutates the state and
//! returns the commands to write, one outcome for the connection, and the
//! id of a game to broadcast, if one just finished.
use vstd::prelude::*;

use crate::AppError;
use crate::command::Command;
use crate::command::CommandV;
use crate::state::Player;
use crate::state::ServerConfig;
use crate::state::ServerState;
use crate::state::Subscriber;
use crate::text::blank_mask;
use crate::text::parse_u32;
use crate::text::spec_mask;
use crate::text::spec_parse_u32;
use crate::text::spec_u32_string;
use crate::text::u32_to_string;
use vstd::string::StrSliceExecFns;

verus! {

/// What becomes of the connection after one command: keep serving it,
/// close it with the given failure, or hand it off to the subscriber
/// registry (its command loop ends, the connection becomes write-only).
#[derive(Clone, Copy, Debug, PartialEq, Eq, Structural)]
pub enum Outcome {
    Continue,
    Close(AppError),
    Handoff,
}

/// Everything one dispatch step asks of the surrounding I/O layer: the
/// commands to send, each to the connection of the named player, in order;
/// the connection outcome; and the game to broadcast to subscribers.
pub struct DispatchResult {
    pub sends: Vec<(u32, Command)>,
    pub outcome: Outcome,
    pub broadcast: Option<u32>,
}

/// The two states have equal registries and counters.
pub open spec fn unchanged(pre: ServerState, post: ServerState) -> bool {
    &&& post.players@ == pre.players@
    &&& post.games@ == pre.games@
    &&& post.subscribers@ == pre.subscribers@
    &&& post.next_player_id == pre.next_player_id
    &&& post.next_game_id == pre.next_game_id
}

/// The registries other than the games are untouched.
pub open spec fn only_games_changed(pre: ServerState, post: ServerState) -> bool {
    &&& post.players@ == pre.players@
    &&& post.subscribers@ == pre.subscribers@
    &&& post.next_player_id == pre.next_player_id
    &&& post.next_game_id == pre.next_game_id
    &&& post.games@.len() == pre.games@.len()
}

/// The command was ignored: nothing changed, nothing sent, the connection
/// stays open.
pub open spec fn spec_ignored(pre: ServerState, post: ServerState, r: DispatchResult) -> bool {
    &&& unchanged(pre, post)
    &&& r.sends@.len() == 0
    &&& r.outcome == Outcome::Continue
    &&& r.broadcast is None
}

/// The state is unchanged and the player is sent exactly one error reply;
/// the connection stays open.
pub open spec fn reply_error(
    pre: ServerState,
    post: ServerState,
    pid: u32,
    msg: Seq<char>,
    r: DispatchResult,
) -> bool {
    &&& unchanged(pre, post)
    &&& r.sends@.len() == 1
    &&& r.sends@[0].0 == pid
    &&& r.sends@[0].1@ == CommandV::Error(msg)
    &&& r.outcome == Outcome::Continue
    &&& r.broadcast is None
}

/// The state is unchanged, nothing is sent, and the connection is closed
/// with the given failure.
pub open spec fn close_with(
    pre: ServerState,
    post: ServerState,
    e: AppError,
    r: DispatchResult,
) -> bool {
    &&& unchanged(pre, post)
    &&& r.sends@.len() == 0
    &&& r.outcome == Outcome::Close(e)
    &&& r.broadcast is None
}

/// The ids (rendered in decimal) of the players other than `self_id` that
/// are authenticated and not in a game, in registry order.
pub open spec fn spec_opponents(players: Seq<Player>, self_id: u32) -> Seq<Seq<char>>
    decreases players.len(),
{
    if players.len() == 0 {
        Seq::empty()
    } else {
        spec_opponents(players.drop_last(), self_id) + (if players.last().id != self_id
            && players.last().authenticated && players.last().in_game is None {
            seq![spec_u32_string(players.last().id as int)]
        } else {
            Seq::empty()
        })
    }
}

/// Subscribe-with-password, independent of authentication state: the right
/// password reserves a subscriber slot for the player and ends the command
/// loop (handoff); a wrong one closes the connection with an
/// authentication failure. Nothing else moves either way.
pub open spec fn spec_subscribe(
    pre: ServerState,
    post: ServerState,
    pid: u32,
    pw: Seq<char>,
    password: Seq<char>,
    r: DispatchResult,
) -> bool {
    if pw == password {
        &&& post.players@ == pre.players@
        &&& post.games@ == pre.games@
        &&& post.next_player_id == pre.next_player_id
        &&& post.next_game_id == pre.next_game_id
        &&& post.has_subscriber(pid)
        &&& (!pre.has_subscriber(pid) ==> post.subscribers@ == pre.subscribers@.push(
            Subscriber { id: pid, ready: false },
        ))
        &&& (pre.has_subscriber(pid) ==> post.subscribers@.len() == pre.subscribers@.len()
            && forall|k: int|
            0 <= k < post.subscribers@.len() ==> #[trigger] post.subscribers@[k] == (
            if pre.subscribers@[k].id == pid {
                Subscriber { id: pid, ready: false }
            } else {
                pre.subscribers@[k]
            }))
        &&& r.sends@.len() == 0
        &&& r.outcome == Outcome::Handoff
        &&& r.broadcast is None
    } else {
        close_with(pre, post, AppError::InvalidAuth, r)
    }
}

/// The password command from an unauthenticated player: the right password
/// marks it authenticated and replies with its id; a wrong one closes the
/// connection with an authentication failure.
pub open spec fn spec_password(
    pre: ServerState,
    post: ServerState,
    pid: u32,
    pass: Seq<char>,
    password: Seq<char>,
    r: DispatchResult,
) -> bool {
    if pass == password {
        &&& post.players@.len() == pre.players@.len()
        &&& forall|k: int|
            0 <= k < post.players@.len() ==> #[trigger] post.players@[k] == (
            if pre.players@[k].id == pid {
                Player { id: pid, in_game: pre.players@[k].in_game, authenticated: true }
            } else {
                pre.players@[k]
            })
        &&& post.games@ == pre.games@
        &&& post.subscribers@ == pre.subscribers@
        &&& post.next_player_id == pre.next_player_id
        &&& post.next_game_id == pre.next_game_id
        &&& r.sends@.len() == 1
        &&& r.sends@[0].0 == pid
        &&& r.sends@[0].1@ == CommandV::SetId(spec_u32_string(pid as int))
        &&& r.outcome == Outcome::Continue
        &&& r.broadcast is None
    } else {
        close_with(pre, post, AppError::InvalidAuth, r)
    }
}

/// The opponents request: the state is unchanged and the player is sent
/// the list of available opponents.
pub open spec fn spec_opponents_request(
    pre: ServerState,
    post: ServerState,
    pid: u32,
    r: DispatchResult,
) -> bool {
    &&& unchanged(pre, post)
    &&& r.sends@.len() == 1
    &&& r.sends@[0].0 == pid
    &&& r.sends@[0].1@ == CommandV::Opponents(spec_opponents(pre.players@, pid))
    &&& r.outcome == Outcome::Continue
    &&& r.broadcast is None
}

/// A match request: rejected, with no state change, when the target id
/// does not parse, is the requester itself, is not registered, is already
/// in a game, or is not authenticated. Otherwise a game is created with
/// the requester as hinter and the target as guesser, both seats' `in_game`
/// are set to the new game id, the requester is told to produce a word and
/// the target is told the requester joined.
pub open spec fn spec_request_match(
    pre: ServerState,
    post: ServerState,
    pid: u32,
    target: Seq<char>,
    r: DispatchResult,
) -> bool {
    match spec_parse_u32(target) {
        None => reply_error(pre, post, pid, "Invalid player id"@, r),
        Some(tid) => {
            if tid == pid {
                reply_error(pre, post, pid, "Cannot start a match with yourself"@, r)
            } else if !pre.has_player(tid) {
                reply_error(pre, post, pid, "Player id not found"@, r)
            } else if pre.player(pid).in_game is Some || pre.player(tid).in_game is Some
                || !pre.player(tid).authenticated {
                reply_error(pre, post, pid, "Invalid player id"@, r)
            } else {
                let gid = pre.next_game_id;
                &&& post.next_game_id == gid + 1
                &&& post.next_player_id == pre.next_player_id
                &&& post.subscribers@ == pre.subscribers@
                &&& post.games@.len() == pre.games@.len() + 1
                &&& forall|k: int|
                    0 <= k < pre.games@.len() ==> #[trigger] post.games@[k] == pre.games@[k]
                &&& post.games@.last().id == gid
                &&& post.games@.last().hinter == pid
                &&& post.games@.last().guesser == tid
                &&& post.games@.last().word is None
                &&& post.games@.last().guesses@.len() == 0
                &&& post.games@.last().hints@.len() == 0
                &&& post.games@.last().winner is None
                &&& !post.games@.last().finished
                &&& post.games@.last().timestamp == 0
                &&& post.players@.len() == pre.players@.len()
                &&& forall|k: int|
                    0 <= k < post.players@.len() ==> #[trigger] post.players@[k] == (
                    if pre.players@[k].id == pid || pre.players@[k].id == tid {
                        Player {
                            id: pre.players@[k].id,
                            in_game: Some(gid),
                            authenticated: pre.players@[k].authenticated,
                        }
                    } else {
                        pre.players@[k]
                    })
                &&& r.sends@.len() == 2
                &&& r.sends@[0].0 == pid
                &&& r.sends@[0].1@ == CommandV::RequestMatchGuess
                &&& r.sends@[1].0 == tid
                &&& r.sends@[1].1@ == CommandV::PlayerJoined(spec_u32_string(pid as int))
                &&& r.outcome == Outcome::Continue
                &&& r.broadcast is None
            }
        },
    }
}

/// The hinter supplying the secret word. Valid only when the sender is in
/// a game as hinter and the word is unset; then the word is stored, the
/// hinter is told the guesser's id, and the guesser receives a blank mask
/// of one underscore per character of the word.
pub open spec fn spec_set_guess(
    pre: ServerState,
    post: ServerState,
    pid: u32,
    word: Seq<char>,
    r: DispatchResult,
) -> bool {
    match pre.player(pid).in_game {
        None => reply_error(pre, post, pid, "Not in a game"@, r),
        Some(gid) => {
            let game = pre.game(gid);
            if !pre.has_player(game.guesser) {
                reply_error(pre, post, pid, "Player in game not found"@, r)
            } else if game.word is Some || game.hinter != pid {
                reply_error(pre, post, pid, "Word already set"@, r)
            } else {
                &&& only_games_changed(pre, post)
                &&& forall|k: int|
                    0 <= k < post.games@.len() && k != gid - 1 ==> #[trigger] post.games@[k]
                        == pre.games@[k]
                &&& post.game(gid).id == game.id
                &&& post.game(gid).hinter == game.hinter
                &&& post.game(gid).guesser == game.guesser
                &&& post.game(gid).word matches Some(w) && w@ == word
                &&& post.game(gid).guesses@ == game.guesses@
                &&& post.game(gid).hints@ == game.hints@
                &&& post.game(gid).winner is None
                &&& !post.game(gid).finished
                &&& post.game(gid).timestamp == 0
                &&& r.sends@.len() == 2
                &&& r.sends@[0].0 == pid
                &&& r.sends@[0].1@ == CommandV::PlayerJoined(
                    spec_u32_string(game.guesser as int),
                )
                &&& r.sends@[1].0 == game.guesser
                &&& r.sends@[1].1@ == CommandV::SetGuess(spec_mask(word.len() as int))
                &&& r.outcome == Outcome::Continue
                &&& r.broadcast is None
            }
        },
    }
}

/// A hint from the hinter, valid only once the word is set: it is appended
/// to the game's hint log and forwarded verbatim to the guesser.
pub open spec fn spec_hint(
    pre: ServerState,
    post: ServerState,
    pid: u32,
    hint: Seq<char>,
    r: DispatchResult,
) -> bool {
    match pre.player(pid).in_game {
        None => reply_error(pre, post, pid, "Not in a game"@, r),
        Some(gid) => {
            let game = pre.game(gid);
            if !pre.has_player(game.guesser) {
                reply_error(pre, post, pid, "Player in game not found"@, r)
            } else if game.word is None || game.hinter != pid {
                reply_error(pre, post, pid, "Not in a game"@, r)
            } else {
                &&& only_games_changed(pre, post)
                &&& forall|k: int|
                    0 <= k < post.games@.len() && k != gid - 1 ==> #[trigger] post.games@[k]
                        == pre.games@[k]
                &&& post.game(gid).id == game.id
                &&& post.game(gid).hinter == game.hinter
                &&& post.game(gid).guesser == game.guesser
                &&& post.game(gid).word == game.word
                &&& post.game(gid).guesses@ == game.guesses@
                &&& post.game(gid).hints.deep_view() == game.hints.deep_view().push(hint)
                &&& post.game(gid).winner is None
                &&& !post.game(gid).finished
                &&& post.game(gid).timestamp == 0
                &&& r.sends@.len() == 1
                &&& r.sends@[0].0 == game.guesser
                &&& r.sends@[0].1@ == CommandV::Hint(hint)
                &&& r.outcome == Outcome::Continue
                &&& r.broadcast is None
            }
        },
    }
}

/// A guess from the guesser, valid only once the word is set: it is
/// appended to the guess log. An exact match finishes the game — winner is
/// the guesser, both seats leave the game, both receive Win, and the game
/// is broadcast. Anything else is forwarded verbatim to the hinter and the
/// game remains unfinished.
pub open spec fn spec_guess(
    pre: ServerState,
    post: ServerState,
    pid: u32,
    guess: Seq<char>,
    now: u64,
    r: DispatchResult,
) -> bool {
    match pre.player(pid).in_game {
        None => reply_error(pre, post, pid, "Not in a game"@, r),
        Some(gid) => {
            let game = pre.game(gid);
            if !pre.has_player(game.hinter) {
                reply_error(pre, post, pid, "Player in game not found"@, r)
            } else if game.word is None || game.guesser != pid {
                reply_error(pre, post, pid, "Not in a game"@, r)
            } else {
                &&& post.games@.len() == pre.games@.len()
                &&& forall|k: int|
                    0 <= k < post.games@.len() && k != gid - 1 ==> #[trigger] post.games@[k]
                        == pre.games@[k]
                &&& post.game(gid).id == game.id
                &&& post.game(gid).hinter == game.hinter
                &&& post.game(gid).guesser == game.guesser
                &&& post.game(gid).word == game.word
                &&& post.game(gid).guesses.deep_view() == game.guesses.deep_view().push(guess)
                &&& post.game(gid).hints@ == game.hints@
                &&& post.subscribers@ == pre.subscribers@
                &&& post.next_player_id == pre.next_player_id
                &&& post.next_game_id == pre.next_game_id
                &&& if game.word->0@ == guess {
                    &&& post.game(gid).finished
                    &&& post.game(gid).timestamp == now
                    &&& post.game(gid).winner == Some(pid)
                    &&& post.players@.len() == pre.players@.len()
                    &&& forall|k: int|
                        0 <= k < post.players@.len() ==> #[trigger] post.players@[k] == (
                        if pre.players@[k].id == game.hinter || pre.players@[k].id == game.guesser {
                            Player {
                                id: pre.players@[k].id,
                                in_game: None,
                                authenticated: pre.players@[k].authenticated,
                            }
                        } else {
                            pre.players@[k]
                        })
                    &&& r.sends@.len() == 2
                    &&& r.sends@[0].0 == pid
                    &&& r.sends@[0].1@ == CommandV::Win
                    &&& r.sends@[1].0 == game.hinter
                    &&& r.sends@[1].1@ == CommandV::Win
                    &&& r.outcome == Outcome::Continue
                    &&& r.broadcast == Some(gid)
                } else {
                    &&& !post.game(gid).finished
                    &&& post.game(gid).winner is None
                    &&& post.game(gid).timestamp == 0
                    &&& post.players@ == pre.players@
                    &&& r.sends@.len() == 1
                    &&& r.sends@[0].0 == game.hinter
                    &&& r.sends@[0].1@ == CommandV::Guess(guess)
                    &&& r.outcome == Outcome::Continue
                    &&& r.broadcast is None
                }
            }
        },
    }
}

/// Leaving a game, by surrender or by connection loss: the game finishes
/// with the remaining side as winner, both seats leave the game, the
/// remaining player (if still registered) is notified, and the game is
/// broadcast if its word was ever set. Outside a game nothing happens.
pub open spec fn spec_leave_game(
    pre: ServerState,
    post: ServerState,
    pid: u32,
    now: u64,
    r: DispatchResult,
) -> bool {
    match pre.player(pid).in_game {
        None => spec_ignored(pre, post, r),
        Some(gid) => {
            let game = pre.game(gid);
            let other = if game.hinter == pid {
                game.guesser
            } else {
                game.hinter
            };
            &&& post.games@.len() == pre.games@.len()
            &&& forall|k: int|
                0 <= k < post.games@.len() && k != gid - 1 ==> #[trigger] post.games@[k]
                    == pre.games@[k]
            &&& post.game(gid).id == game.id
            &&& post.game(gid).hinter == game.hinter
            &&& post.game(gid).guesser == game.guesser
            &&& post.game(gid).word == game.word
            &&& post.game(gid).guesses@ == game.guesses@
            &&& post.game(gid).hints@ == game.hints@
            &&& post.game(gid).finished
            &&& post.game(gid).timestamp == now
            &&& post.game(gid).winner == Some(other)
            &&& post.players@.len() == pre.players@.len()
            &&& forall|k: int|
                0 <= k < post.players@.len() ==> #[trigger] post.players@[k] == (
                if pre.players@[k].id == game.hinter || pre.players@[k].id == game.guesser {
                    Player {
                        id: pre.players@[k].id,
                        in_game: None,
                        authenticated: pre.players@[k].authenticated,
                    }
                } else {
                    pre.players@[k]
                })
            &&& post.subscribers@ == pre.subscribers@
            &&& post.next_player_id == pre.next_player_id
            &&& post.next_game_id == pre.next_game_id
            &&& if pre.has_player(other) {
                r.sends@.len() == 1 && r.sends@[0].0 == other && r.sends@[0].1@
                    == CommandV::PlayerLeft
            } else {
                r.sends@.len() == 0
            }
            &&& r.outcome == Outcome::Continue
            &&& r.broadcast == (if game.word is Some {
                Some(gid)
            } else {
                None::<u32>
            })
        },
    }
}

/// One dispatch step, as a relation between the state before, the state
/// after, and the result: the behavior table of the server.
///
/// Subscribe-with-password is handled first, whatever the authentication
/// state. An unauthenticated player may otherwise only present the
/// password; anything else closes its connection with an authorization
/// failure and mutates nothing. An authenticated player's gameplay
/// commands follow the per-command rules; every other command is ignored.
pub open spec fn spec_dispatch(
    pre: ServerState,
    post: ServerState,
    pid: u32,
    cmd: CommandV,
    password: Seq<char>,
    now: u64,
    r: DispatchResult,
) -> bool {
    match cmd {
        CommandV::SubscribeToGames(pw) => spec_subscribe(pre, post, pid, pw, password, r),
        _ => {
            if !pre.player(pid).authenticated {
                match cmd {
                    CommandV::Password(pass) => spec_password(pre, post, pid, pass, password, r),
                    _ => close_with(pre, post, AppError::Unauthorized, r),
                }
            } else {
                match cmd {
                    CommandV::OpponentsRequest => spec_opponents_request(pre, post, pid, r),
                    CommandV::RequestMatch(target) => spec_request_match(
                        pre,
                        post,
                        pid,
                        target,
                        r,
                    ),
                    CommandV::SetGuess(word) => spec_set_guess(pre, post, pid, word, r),
                    CommandV::Hint(hint) => spec_hint(pre, post, pid, hint, r),
                    CommandV::Guess(guess) => spec_guess(pre, post, pid, guess, now, r),
                    CommandV::Surrender => spec_leave_game(pre, post, pid, now, r),
                    _ => spec_ignored(pre, post, r),
                }
            }
        },
    }
}

fn error_result(pid: u32, msg: &str) -> (r: DispatchResult)
    ensures
        r.sends@.len() == 1,
        r.sends@[0].0 == pid,
        r.sends@[0].1@ == CommandV::Error(msg@),
        r.outcome == Outcome::Continue,
        r.broadcast is None,
{
    let mut sends: Vec<(u32, Command)> = Vec::new();
    sends.push((pid, Command::Error(msg.to_owned())));
    DispatchResult { sends, outcome: Outcome::Continue, broadcast: None }
}

fn ignored_result() -> (r: DispatchResult)
    ensures
        r.sends@.len() == 0,
        r.outcome == Outcome::Continue,
        r.broadcast is None,
{
    DispatchResult { sends: Vec::new(), outcome: Outcome::Continue, broadcast: None }
}

fn close_result(e: AppError) -> (r: DispatchResult)
    ensures
        r.sends@.len() == 0,
        r.outcome == Outcome::Close(e),
        r.broadcast is None,
{
    DispatchResult { sends: Vec::new(), outcome: Outcome::Close(e), broadcast: None }
}

impl ServerState {
    /// Interprets one command sent by player `pid`, against the shared
    /// password in `config`, with `now` as the clock reading for any game
    /// that finishes. The whole behavior table is `spec_dispatch`; among
    /// its consequences: an unauthenticated connection can trigger no
    /// state mutation, and a failed match request mutates no registry.
    pub fn handle_command(
        &mut self,
        cmd: Command,
        pid: u32,
        config: &ServerConfig,
        now: u64,
    ) -> (r: DispatchResult)
        requires
            old(self).wf(),
            old(self).has_player(pid),
            now >= 1,
            cmd@ is RequestMatch ==> old(self).next_game_id < u32::MAX,
        ensures
            final(self).wf(),
            spec_dispatch(*old(self), *final(self), pid, cmd@, config.password@, now, r),
    {
        match cmd {
            Command::SubscribeToGames(pw) => {
                if pw == config.password {
                    self.add_subscriber(pid);
                    DispatchResult {
                        sends: Vec::new(),
                        outcome: Outcome::Handoff,
                        broadcast: None,
                    }
                } else {
                    close_result(AppError::InvalidAuth)
                }
            },
            cmd => {
                let i = self.find_player_unchecked(pid);
                let me = self.players[i];
                if !me.authenticated {
                    match cmd {
                        Command::Password(pass) => {
                            if pass == config.password {
                                self.players[i] = Player {
                                    id: me.id,
                                    in_game: me.in_game,
                                    authenticated: true,
                                };
                                let mut sends: Vec<(u32, Command)> = Vec::new();
                                sends.push((pid, Command::SetId(u32_to_string(pid))));
                                proof {
                                    assert forall|k: int|
                                        0 <= k < self.players@.len() implies #[trigger] self.players@[k]
                                        == (if old(self).players@[k].id == pid {
                                        Player {
                                            id: pid,
                                            in_game: old(self).players@[k].in_game,
                                            authenticated: true,
                                        }
                                    } else {
                                        old(self).players@[k]
                                    }) by {
                                        if k != i as int && old(self).players@[k].id == pid {
                                            old(self).lemma_player_at(k, pid);
                                        }
                                    }
                                    assert(self.wf());
                                }
                                DispatchResult { sends, outcome: Outcome::Continue, broadcast: None }
                            } else {
                                close_result(AppError::InvalidAuth)
                            }
                        },
                        _ => close_result(AppError::Unauthorized),
                    }
                } else {
                    match cmd {
                        Command::OpponentsRequest => self.do_opponents(pid),
                        Command::RequestMatch(target) => self.do_request_match(pid, target),
                        Command::SetGuess(word) => self.do_set_guess(pid, word),
                        Command::Hint(hint) => self.do_hint(pid, hint),
                        Command::Guess(guess) => self.do_guess(pid, guess, now),
                        Command::Surrender => self.do_leave_game(pid, now),
                        _ => ignored_result(),
                    }
                }
            },
        }
    }

    /// Ends player `pid`'s participation after its connection is lost:
    /// exactly the surrender transition. The caller then removes the
    /// player from the registry.
    pub fn disconnect(&mut self, pid: u32, now: u64) -> (r: DispatchResult)
        requires
            old(self).wf(),
            old(self).has_player(pid),
            now >= 1,
        ensures
            final(self).wf(),
            spec_leave_game(*old(self), *final(self), pid, now, r),
    {
        self.do_leave_game(pid, now)
    }

    fn do_opponents(&self, pid: u32) -> (r: DispatchResult)
        requires
            self.wf(),
        ensures
            spec_opponents_request(*self, *self, pid, r),
    {
        let mut list: Vec<String> = Vec::new();
        let mut i: usize = 0;
        proof {
            assert(list.deep_view() =~= Seq::<Seq<char>>::empty());
        }
        while i < self.players.len()
            invariant
                i <= self.players@.len(),
                list.deep_view() == spec_opponents(self.players@.take(i as int), pid),
            decreases self.players@.len() - i,
        {
            proof {
                assert(self.players@.take(i as int + 1).drop_last() =~= self.players@.take(
                    i as int,
                ));
            }
            let p = self.players[i];
            if p.id != pid && p.authenticated && p.in_game.is_none() {
                let ghost before = list.deep_view();
                list.push(u32_to_string(p.id));
                proof {
                    assert(list.deep_view() =~= before.push(spec_u32_string(p.id as int)));
                    assert(list.deep_view() =~= spec_opponents(
                        self.players@.take(i as int + 1),
                        pid,
                    ));
                }
            }
            i = i + 1;
        }
        proof {
            assert(self.players@.take(self.players@.len() as int) =~= self.players@);
        }
        let mut sends: Vec<(u32, Command)> = Vec::new();
        sends.push((pid, Command::Opponents(list)));
        DispatchResult { sends, outcome: Outcome::Continue, broadcast: None }
    }

    fn do_request_match(&mut self, pid: u32, target: String) -> (r: DispatchResult)
        requires
            old(self).wf(),
            old(self).has_player(pid),
            old(self).next_game_id < u32::MAX,
        ensures
            final(self).wf(),
            spec_request_match(*old(self), *final(self), pid, target@, r),
    {
        let tid = match parse_u32(target.as_str()) {
            None => {
                return error_result(pid, "Invalid player id");
            },
            Some(t) => t,
        };
        if tid == pid {
            return error_result(pid, "Cannot start a match with yourself");
        }
        let other = match self.get_player(tid) {
            None => {
                return error_result(pid, "Player id not found");
            },
            Some(p) => p,
        };
        let i = self.find_player_unchecked(pid);
        let me = self.players[i];
        if me.in_game.is_some() || other.in_game.is_some() || !other.authenticated {
            return error_result(pid, "Invalid player id");
        }
        let gid = self.create_game(pid, tid);
        let mut sends: Vec<(u32, Command)> = Vec::new();
        sends.push((pid, Command::RequestMatchGuess));
        sends.push((tid, Command::PlayerJoined(u32_to_string(pid))));
        DispatchResult { sends, outcome: Outcome::Continue, broadcast: None }
    }

    fn do_set_guess(&mut self, pid: u32, word: String) -> (r: DispatchResult)
        requires
            old(self).wf(),
            old(self).has_player(pid),
        ensures
            final(self).wf(),
            spec_set_guess(*old(self), *final(self), pid, word@, r),
    {
        let i = self.find_player_unchecked(pid);
        let gid = match self.players[i].in_game {
            None => {
                return error_result(pid, "Not in a game");
            },
            Some(g) => g,
        };
        let gi = (gid - 1) as usize;
        let guesser_id = self.games[gi].guesser;
        if self.find_player(guesser_id).is_none() {
            return error_result(pid, "Player in game not found");
        }
        if self.games[gi].word.is_some() || self.games[gi].hinter != pid {
            return error_result(pid, "Word already set");
        }
        let mask = blank_mask(word.as_str().unicode_len());
        let mut sends: Vec<(u32, Command)> = Vec::new();
        sends.push((pid, Command::PlayerJoined(u32_to_string(guesser_id))));
        sends.push((guesser_id, Command::SetGuess(mask)));
        let ghost pre = *self;
        self.games[gi].word = Some(word);
        proof {
            assert(forall|k: int|
                0 <= k < self.games@.len() && k != gi as int ==> #[trigger] self.games@[k]
                    == pre.games@[k]);
            assert(self.wf());
        }
        DispatchResult { sends, outcome: Outcome::Continue, broadcast: None }
    }

    fn do_hint(&mut self, pid: u32, hint: String) -> (r: DispatchResult)
        requires
            old(self).wf(),
            old(self).has_player(pid),
        ensures
            final(self).wf(),
            spec_hint(*old(self), *final(self), pid, hint@, r),
    {
        let i = self.find_player_unchecked(pid);
        let gid = match self.players[i].in_game {
            None => {
                return error_result(pid, "Not in a game");
            },
            Some(g) => g,
        };
        let gi = (gid - 1) as usize;
        let guesser_id = self.games[gi].guesser;
        if self.find_player(guesser_id).is_none() {
            return error_result(pid, "Player in game not found");
        }
        if self.games[gi].word.is_none() || self.games[gi].hinter != pid {
            return error_result(pid, "Not in a game");
        }
        let mut sends: Vec<(u32, Command)> = Vec::new();
        sends.push((guesser_id, Command::Hint(hint.clone())));
        let ghost pre = *self;
        let ghost oldhints = self.games@[gi as int].hints.deep_view();
        self.games[gi].hints.push(hint);
        proof {
            assert(forall|k: int|
                0 <= k < self.games@.len() && k != gi as int ==> #[trigger] self.games@[k]
                    == pre.games@[k]);
            assert(self.games@[gi as int].hints.deep_view() =~= oldhints.push(hint@));
            assert(self.wf());
        }
        DispatchResult { sends, outcome: Outcome::Continue, broadcast: None }
    }

    fn do_guess(&mut self, pid: u32, guess: String, now: u64) -> (r: DispatchResult)
        requires
            old(self).wf(),
            old(self).has_player(pid),
            now >= 1,
        ensures
            final(self).wf(),
            spec_guess(*old(self), *final(self), pid, guess@, now, r),
    {
        let i = self.find_player_unchecked(pid);
        let gid = match self.players[i].in_game {
            None => {
                return error_result(pid, "Not in a game");
            },
            Some(g) => g,
        };
        let gi = (gid - 1) as usize;
        let hinter_id = self.games[gi].hinter;
        let hi = match self.find_player(hinter_id) {
            None => {
                return error_result(pid, "Player in game not found");
            },
            Some(h) => h,
        };
        let matched = match &self.games[gi].word {
            None => {
                return error_result(pid, "Not in a game");
            },
            Some(w) => *w == guess,
        };
        if self.games[gi].guesser != pid {
            return error_result(pid, "Not in a game");
        }
        let ghost pre = *self;
        let ghost oldguesses = self.games@[gi as int].guesses.deep_view();
        if matched {
            self.games[gi].guesses.push(guess);
            self.games[gi].finished = true;
            self.games[gi].timestamp = now;
            self.games[gi].winner = Some(pid);
            self.players[i].in_game = None;
            let p = self.players[hi];
            self.players[hi] = Player { id: p.id, in_game: None, authenticated: p.authenticated };
            let mut sends: Vec<(u32, Command)> = Vec::new();
            sends.push((pid, Command::Win));
            sends.push((hinter_id, Command::Win));
            proof {
                assert(forall|k: int|
                    0 <= k < self.games@.len() && k != gi as int ==> #[trigger] self.games@[k]
                        == pre.games@[k]);
                assert(self.games@[gi as int].guesses.deep_view() =~= oldguesses.push(guess@));
                assert forall|k: int|
                    0 <= k < self.players@.len() implies #[trigger] self.players@[k] == (
                    if pre.players@[k].id == pre.games@[gi as int].hinter || pre.players@[k].id
                        == pre.games@[gi as int].guesser {
                        Player {
                            id: pre.players@[k].id,
                            in_game: None,
                            authenticated: pre.players@[k].authenticated,
                        }
                    } else {
                        pre.players@[k]
                    }) by {
                    if k != i as int && pre.players@[k].id == pre.games@[gi as int].guesser {
                        pre.lemma_player_at(k, pre.games@[gi as int].guesser);
                    }
                    if k != hi as int && pre.players@[k].id == pre.games@[gi as int].hinter {
                        pre.lemma_player_at(k, pre.games@[gi as int].hinter);
                    }
                }
                assert(self.wf());
            }
            DispatchResult { sends, outcome: Outcome::Continue, broadcast: Some(gid) }
        } else {
            self.games[gi].guesses.push(guess.clone());
            let mut sends: Vec<(u32, Command)> = Vec::new();
            sends.push((hinter_id, Command::Guess(guess)));
            proof {
                assert(forall|k: int|
                    0 <= k < self.games@.len() && k != gi as int ==> #[trigger] self.games@[k]
                        == pre.games@[k]);
                assert(self.games@[gi as int].guesses.deep_view() =~= oldguesses.push(guess@));
                assert(self.wf());
            }
            DispatchResult { sends, outcome: Outcome::Continue, broadcast: None }
        }
    }

    fn do_leave_game(&mut self, pid: u32, now: u64) -> (r: DispatchResult)
        requires
            old(self).wf(),
            old(self).has_player(pid),
            now >= 1,
        ensures
            final(self).wf(),
            spec_leave_game(*old(self), *final(self), pid, now, r),
    {
        let i = self.find_player_unchecked(pid);
        let gid = match self.players[i].in_game {
            None => {
                return ignored_result();
            },
            Some(g) => g,
        };
        let gi = (gid - 1) as usize;
        let other = if self.games[gi].hinter == pid {
            self.games[gi].guesser
        } else {
            self.games[gi].hinter
        };
        let oi_opt = self.find_player(other);
        let ghost pre = *self;
        self.games[gi].finished = true;
        self.games[gi].timestamp = now;
        self.games[gi].winner = Some(other);
        self.players[i].in_game = None;
        let word_set = self.games[gi].word.is_some();
        let mut sends: Vec<(u32, Command)> = Vec::new();
        match oi_opt {
            None => {},
            Some(oi) => {
                let p = self.players[oi];
                self.players[oi] = Player {
                    id: p.id,
                    in_game: None,
                    authenticated: p.authenticated,
                };
                sends.push((other, Command::PlayerLeft));
            },
        }
        proof {
            assert(forall|k: int|
                0 <= k < self.games@.len() && k != gi as int ==> #[trigger] self.games@[k]
                    == pre.games@[k]);
            assert forall|k: int|
                0 <= k < self.players@.len() implies #[trigger] self.players@[k] == (
                if pre.players@[k].id == pre.games@[gi as int].hinter || pre.players@[k].id
                    == pre.games@[gi as int].guesser {
                    Player {
                        id: pre.players@[k].id,
                        in_game: None,
                        authenticated: pre.players@[k].authenticated,
                    }
                } else {
                    pre.players@[k]
                }) by {
                if pre.players@[k].id == pid {
                    pre.lemma_player_at(k, pid);
                }
                if pre.players@[k].id == other {
                    pre.lemma_player_at(k, other);
                }
            }
            assert(self.wf());
        }
        DispatchResult {
            sends,
            outcome: Outcome::Continue,
            broadcast: if word_set {
                Some(gid)
            } else {
                None
            },
        }
    }
}

} // verus!
