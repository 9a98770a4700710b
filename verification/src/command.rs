//! The protocol's message type: a closed set of tagged variants, each
//! carrying no payload, one string, or one string list, together with its
//! byte encoding and the proof that decoding inverts encoding.
use vstd::prelude::*;
use vstd::utf8::encode_utf8;

use crate::wire::read_str;
use crate::wire::read_str_list;
use crate::wire::read_u8;
use crate::wire::spec_read_str;
use crate::wire::spec_read_str_list;
use crate::wire::spec_u16_be;
use crate::wire::spec_write_str;
use crate::wire::spec_write_str_list;
use crate::wire::spec_write_strs;
use crate::wire::write_str;
use crate::wire::write_str_list;
use crate::wire::lemma_read_str_round;
use crate::wire::lemma_read_u16_round;
use crate::wire::lemma_read_strs_round;

verus! {

/// One protocol message. The wire form is a 1-byte tag followed by the
/// payload, if any (see `spec_encode`).
#[derive(Clone, Debug, PartialEq)]
pub enum Command {
    Okay,
    Error(String),
    PasswordRequest,
    Password(String),
    SetId(String),
    OpponentsRequest,
    Opponents(Vec<String>),
    RequestMatch(String),
    PlayerJoined(String),
    Guess(String),
    Hint(String),
    Surrender,
    Win,
    RequestMatchGuess,
    SetGuess(String),
    PlayerLeft,
    SubscribeToGames(String),
    Unknown(String),
}

/// The mathematical value of a `Command`: the same variants over character
/// sequences.
pub enum CommandV {
    Okay,
    Error(Seq<char>),
    PasswordRequest,
    Password(Seq<char>),
    SetId(Seq<char>),
    OpponentsRequest,
    Opponents(Seq<Seq<char>>),
    RequestMatch(Seq<char>),
    PlayerJoined(Seq<char>),
    Guess(Seq<char>),
    Hint(Seq<char>),
    Surrender,
    Win,
    RequestMatchGuess,
    SetGuess(Seq<char>),
    PlayerLeft,
    SubscribeToGames(Seq<char>),
    Unknown(Seq<char>),
}

impl View for Command {
    type V = CommandV;

    open spec fn view(&self) -> CommandV {
        match self {
            Command::Okay => CommandV::Okay,
            Command::Error(s) => CommandV::Error(s@),
            Command::PasswordRequest => CommandV::PasswordRequest,
            Command::Password(s) => CommandV::Password(s@),
            Command::SetId(s) => CommandV::SetId(s@),
            Command::OpponentsRequest => CommandV::OpponentsRequest,
            Command::Opponents(l) => CommandV::Opponents(l.deep_view()),
            Command::RequestMatch(s) => CommandV::RequestMatch(s@),
            Command::PlayerJoined(s) => CommandV::PlayerJoined(s@),
            Command::Guess(s) => CommandV::Guess(s@),
            Command::Hint(s) => CommandV::Hint(s@),
            Command::Surrender => CommandV::Surrender,
            Command::Win => CommandV::Win,
            Command::RequestMatchGuess => CommandV::RequestMatchGuess,
            Command::SetGuess(s) => CommandV::SetGuess(s@),
            Command::PlayerLeft => CommandV::PlayerLeft,
            Command::SubscribeToGames(s) => CommandV::SubscribeToGames(s@),
            Command::Unknown(s) => CommandV::Unknown(s@),
        }
    }
}

/// The byte encoding of a message: its tag, then its payload.
pub open spec fn spec_encode(c: CommandV) -> Seq<u8> {
    match c {
        CommandV::Okay => seq![0u8],
        CommandV::Error(s) => seq![1u8] + spec_write_str(s),
        CommandV::PasswordRequest => seq![2u8],
        CommandV::Password(s) => seq![3u8] + spec_write_str(s),
        CommandV::SetId(s) => seq![4u8] + spec_write_str(s),
        CommandV::OpponentsRequest => seq![5u8],
        CommandV::Opponents(l) => seq![6u8] + spec_write_str_list(l),
        CommandV::RequestMatch(s) => seq![7u8] + spec_write_str(s),
        CommandV::PlayerJoined(s) => seq![8u8] + spec_write_str(s),
        CommandV::Guess(s) => seq![9u8] + spec_write_str(s),
        CommandV::Hint(s) => seq![10u8] + spec_write_str(s),
        CommandV::Surrender => seq![11u8],
        CommandV::Win => seq![12u8],
        CommandV::RequestMatchGuess => seq![13u8],
        CommandV::SetGuess(s) => seq![14u8] + spec_write_str(s),
        CommandV::PlayerLeft => seq![15u8],
        CommandV::SubscribeToGames(s) => seq![254u8] + spec_write_str(s),
        CommandV::Unknown(s) => seq![255u8] + spec_write_str(s),
    }
}

/// The message encoded at the start of `bytes`, if any. Bytes after the
/// message are ignored; an unrecognized tag fails the whole decode.
pub open spec fn spec_decode(bytes: Seq<u8>) -> Option<CommandV> {
    if bytes.len() == 0 {
        None
    } else {
        let tag = bytes[0];
        if tag == 0 {
            Some(CommandV::Okay)
        } else if tag == 1 {
            spec_decode_str(bytes, |s: Seq<char>| CommandV::Error(s))
        } else if tag == 2 {
            Some(CommandV::PasswordRequest)
        } else if tag == 3 {
            spec_decode_str(bytes, |s: Seq<char>| CommandV::Password(s))
        } else if tag == 4 {
            spec_decode_str(bytes, |s: Seq<char>| CommandV::SetId(s))
        } else if tag == 5 {
            Some(CommandV::OpponentsRequest)
        } else if tag == 6 {
            match spec_read_str_list(bytes, 1) {
                None => None,
                Some((l, _)) => Some(CommandV::Opponents(l)),
            }
        } else if tag == 7 {
            spec_decode_str(bytes, |s: Seq<char>| CommandV::RequestMatch(s))
        } else if tag == 8 {
            spec_decode_str(bytes, |s: Seq<char>| CommandV::PlayerJoined(s))
        } else if tag == 9 {
            spec_decode_str(bytes, |s: Seq<char>| CommandV::Guess(s))
        } else if tag == 10 {
            spec_decode_str(bytes, |s: Seq<char>| CommandV::Hint(s))
        } else if tag == 11 {
            Some(CommandV::Surrender)
        } else if tag == 12 {
            Some(CommandV::Win)
        } else if tag == 13 {
            Some(CommandV::RequestMatchGuess)
        } else if tag == 14 {
            spec_decode_str(bytes, |s: Seq<char>| CommandV::SetGuess(s))
        } else if tag == 15 {
            Some(CommandV::PlayerLeft)
        } else if tag == 254 {
            spec_decode_str(bytes, |s: Seq<char>| CommandV::SubscribeToGames(s))
        } else if tag == 255 {
            spec_decode_str(bytes, |s: Seq<char>| CommandV::Unknown(s))
        } else {
            None
        }
    }
}

/// Reads the string payload after the tag and wraps it in a variant.
pub open spec fn spec_decode_str(bytes: Seq<u8>, make: spec_fn(Seq<char>) -> CommandV) -> Option<
    CommandV,
> {
    match spec_read_str(bytes, 1) {
        None => None,
        Some((s, _)) => Some(make(s)),
    }
}

impl Command {
    /// Appends the encoding of this message; returns the number of bytes
    /// written.
    pub fn write(&self, buffer: &mut Vec<u8>) -> (written: usize)
        ensures
            final(buffer)@ == old(buffer)@ + spec_encode(self@),
            written == spec_encode(self@).len(),
    {
        let start = buffer.len();
        match self {
            Command::Okay => {
                buffer.push(0);
            },
            Command::Error(s) => {
                buffer.push(1);
                write_str(s.as_str(), buffer);
            },
            Command::PasswordRequest => {
                buffer.push(2);
            },
            Command::Password(s) => {
                buffer.push(3);
                write_str(s.as_str(), buffer);
            },
            Command::SetId(s) => {
                buffer.push(4);
                write_str(s.as_str(), buffer);
            },
            Command::OpponentsRequest => {
                buffer.push(5);
            },
            Command::Opponents(l) => {
                buffer.push(6);
                write_str_list(l, buffer);
            },
            Command::RequestMatch(s) => {
                buffer.push(7);
                write_str(s.as_str(), buffer);
            },
            Command::PlayerJoined(s) => {
                buffer.push(8);
                write_str(s.as_str(), buffer);
            },
            Command::Guess(s) => {
                buffer.push(9);
                write_str(s.as_str(), buffer);
            },
            Command::Hint(s) => {
                buffer.push(10);
                write_str(s.as_str(), buffer);
            },
            Command::Surrender => {
                buffer.push(11);
            },
            Command::Win => {
                buffer.push(12);
            },
            Command::RequestMatchGuess => {
                buffer.push(13);
            },
            Command::SetGuess(s) => {
                buffer.push(14);
                write_str(s.as_str(), buffer);
            },
            Command::PlayerLeft => {
                buffer.push(15);
            },
            Command::SubscribeToGames(s) => {
                buffer.push(254);
                write_str(s.as_str(), buffer);
            },
            Command::Unknown(s) => {
                buffer.push(255);
                write_str(s.as_str(), buffer);
            },
        }
        proof {
            assert(buffer@ =~= old(buffer)@ + spec_encode(self@));
        }
        buffer.len() - start
    }

    /// Decodes the message at the start of `bytes`; `None` on an empty
    /// buffer or an unrecognized tag. Trailing bytes are ignored.
    pub fn read(bytes: &Vec<u8>) -> (r: Option<Command>)
        ensures
            match r {
                Some(c) => spec_decode(bytes@) == Some(c@),
                None => spec_decode(bytes@) is None,
            },
    {
        let tag = match read_u8(bytes, 0) {
            None => {
                return None;
            },
            Some((tag, _)) => tag,
        };
        match tag {
            0 => Some(Command::Okay),
            1 => match read_str(bytes, 1) {
                None => None,
                Some((s, _)) => Some(Command::Error(s)),
            },
            2 => Some(Command::PasswordRequest),
            3 => match read_str(bytes, 1) {
                None => None,
                Some((s, _)) => Some(Command::Password(s)),
            },
            4 => match read_str(bytes, 1) {
                None => None,
                Some((s, _)) => Some(Command::SetId(s)),
            },
            5 => Some(Command::OpponentsRequest),
            6 => match read_str_list(bytes, 1) {
                None => None,
                Some((l, _)) => Some(Command::Opponents(l)),
            },
            7 => match read_str(bytes, 1) {
                None => None,
                Some((s, _)) => Some(Command::RequestMatch(s)),
            },
            8 => match read_str(bytes, 1) {
                None => None,
                Some((s, _)) => Some(Command::PlayerJoined(s)),
            },
            9 => match read_str(bytes, 1) {
                None => None,
                Some((s, _)) => Some(Command::Guess(s)),
            },
            10 => match read_str(bytes, 1) {
                None => None,
                Some((s, _)) => Some(Command::Hint(s)),
            },
            11 => Some(Command::Surrender),
            12 => Some(Command::Win),
            13 => Some(Command::RequestMatchGuess),
            14 => match read_str(bytes, 1) {
                None => None,
                Some((s, _)) => Some(Command::SetGuess(s)),
            },
            15 => Some(Command::PlayerLeft),
            254 => match read_str(bytes, 1) {
                None => None,
                Some((s, _)) => Some(Command::SubscribeToGames(s)),
            },
            255 => match read_str(bytes, 1) {
                None => None,
                Some((s, _)) => Some(Command::Unknown(s)),
            },
            _ => None,
        }
    }
}

/// A message whose payloads fit the 16-bit length and count prefixes, so
/// that its encoding declares them without truncation.
pub open spec fn wf_command(c: CommandV) -> bool {
    match c {
        CommandV::Okay => true,
        CommandV::Error(s) => encode_utf8(s).len() <= 0xFFFF,
        CommandV::PasswordRequest => true,
        CommandV::Password(s) => encode_utf8(s).len() <= 0xFFFF,
        CommandV::SetId(s) => encode_utf8(s).len() <= 0xFFFF,
        CommandV::OpponentsRequest => true,
        CommandV::Opponents(l) => l.len() <= 0xFFFF && forall|i: int|
            0 <= i < l.len() ==> encode_utf8(#[trigger] l[i]).len() <= 0xFFFF,
        CommandV::RequestMatch(s) => encode_utf8(s).len() <= 0xFFFF,
        CommandV::PlayerJoined(s) => encode_utf8(s).len() <= 0xFFFF,
        CommandV::Guess(s) => encode_utf8(s).len() <= 0xFFFF,
        CommandV::Hint(s) => encode_utf8(s).len() <= 0xFFFF,
        CommandV::Surrender => true,
        CommandV::Win => true,
        CommandV::RequestMatchGuess => true,
        CommandV::SetGuess(s) => encode_utf8(s).len() <= 0xFFFF,
        CommandV::PlayerLeft => true,
        CommandV::SubscribeToGames(s) => encode_utf8(s).len() <= 0xFFFF,
        CommandV::Unknown(s) => encode_utf8(s).len() <= 0xFFFF,
    }
}

proof fn lemma_decode_tagged_str(tag: u8, s: Seq<char>)
    requires
        encode_utf8(s).len() <= 0xFFFF,
    ensures
        spec_read_str(seq![tag] + spec_write_str(s), 1) == Some(
            (s, 1 as int + spec_write_str(s).len()),
        ),
{
    lemma_read_str_round(seq![tag], s, Seq::<u8>::empty());
    assert(seq![tag] + spec_write_str(s) + Seq::<u8>::empty() =~= seq![tag] + spec_write_str(s));
}

/// Round trip: decoding the encoding of any well-formed message yields that
/// message again.
pub proof fn lemma_encode_decode(c: CommandV)
    requires
        wf_command(c),
    ensures
        spec_decode(spec_encode(c)) == Some(c),
{
    let bytes = spec_encode(c);
    match c {
        CommandV::Okay => {},
        CommandV::Error(s) => {
            lemma_decode_tagged_str(1, s);
        },
        CommandV::PasswordRequest => {},
        CommandV::Password(s) => {
            lemma_decode_tagged_str(3, s);
        },
        CommandV::SetId(s) => {
            lemma_decode_tagged_str(4, s);
        },
        CommandV::OpponentsRequest => {},
        CommandV::Opponents(l) => {
            let count = l.len() as u16;
            assert(bytes =~= seq![6u8] + spec_u16_be(count) + spec_write_strs(l));
            lemma_read_u16_round(seq![6u8], count, spec_write_strs(l));
            assert(bytes =~= (seq![6u8] + spec_u16_be(count)) + spec_write_strs(l)
                + Seq::<u8>::empty());
            lemma_read_strs_round(seq![6u8] + spec_u16_be(count), l, Seq::<u8>::empty());
        },
        CommandV::RequestMatch(s) => {
            lemma_decode_tagged_str(7, s);
        },
        CommandV::PlayerJoined(s) => {
            lemma_decode_tagged_str(8, s);
        },
        CommandV::Guess(s) => {
            lemma_decode_tagged_str(9, s);
        },
        CommandV::Hint(s) => {
            lemma_decode_tagged_str(10, s);
        },
        CommandV::Surrender => {},
        CommandV::Win => {},
        CommandV::RequestMatchGuess => {},
        CommandV::SetGuess(s) => {
            lemma_decode_tagged_str(14, s);
        },
        CommandV::PlayerLeft => {},
        CommandV::SubscribeToGames(s) => {
            lemma_decode_tagged_str(254, s);
        },
        CommandV::Unknown(s) => {
            lemma_decode_tagged_str(255, s);
        },
    }
}

} // verus!
