//! Wire primitives, message codec and framing.
use guess_a_word::command::Command;
use guess_a_word::packet::{parse_frame_header, Packet, MAX_FRAME_LEN};
use guess_a_word::wire::{read_str, read_str_list, read_u16, write_str, write_str_list, write_u16};
use guess_a_word::AppError;

#[test]
fn test_nums() {
    let mut buffer = Vec::new();

    let n = 42u16;
    write_u16(n, &mut buffer);

    let (parsed, _) = read_u16(&buffer, 0).unwrap();

    assert_eq!(n, parsed);
    assert_eq!(buffer.len(), 2);
}

#[test]
fn test_string() {
    let mut buffer = Vec::new();

    let text = "hello";
    write_str(text, &mut buffer);

    let (parsed, _) = read_str(&buffer, 0).unwrap();

    assert_eq!(text, parsed);
    assert_eq!(buffer.len(), text.len() + 2);
}

#[test]
fn test_array() {
    let mut buffer = Vec::new();

    let array = vec!["foo".to_string(), "bar".to_string(), "baz".to_string()];
    write_str_list(&array, &mut buffer);

    let (parsed, _) = read_str_list(&buffer, 0).unwrap();

    let calc_len = array.iter().map(|s| s.len() + 2).sum::<usize>() + 2;

    assert_eq!(array, parsed);
    assert_eq!(buffer.len(), calc_len);
}

fn round_trip(cmd: Command) {
    let mut buffer = Vec::new();
    let n = cmd.write(&mut buffer);
    assert_eq!(n, buffer.len());
    let decoded = Command::read(&buffer).expect("decode failed");
    assert_eq!(decoded, cmd);
}

#[test]
fn round_trip_all_variants() {
    round_trip(Command::Okay);
    round_trip(Command::Error("oops".to_string()));
    round_trip(Command::PasswordRequest);
    round_trip(Command::Password("secret".to_string()));
    round_trip(Command::SetId("17".to_string()));
    round_trip(Command::OpponentsRequest);
    round_trip(Command::Opponents(vec!["1".to_string(), "2".to_string()]));
    round_trip(Command::RequestMatch("3".to_string()));
    round_trip(Command::PlayerJoined("4".to_string()));
    round_trip(Command::Guess("apple".to_string()));
    round_trip(Command::Hint("a fruit".to_string()));
    round_trip(Command::Surrender);
    round_trip(Command::Win);
    round_trip(Command::RequestMatchGuess);
    round_trip(Command::SetGuess("apple".to_string()));
    round_trip(Command::PlayerLeft);
    round_trip(Command::SubscribeToGames("secret".to_string()));
    round_trip(Command::Unknown("???".to_string()));
}

#[test]
fn round_trip_empty_and_unicode_strings() {
    round_trip(Command::Guess(String::new()));
    round_trip(Command::Guess("p\u{e4}\u{e4}skyl\u{e4}".to_string()));
    round_trip(Command::Opponents(Vec::new()));
}

#[test]
fn decode_rejects_unknown_tag() {
    assert!(Command::read(&vec![42u8]).is_none());
    assert!(Command::read(&vec![16u8, 0, 0]).is_none());
}

#[test]
fn decode_rejects_empty_buffer() {
    assert!(Command::read(&Vec::new()).is_none());
}

#[test]
fn decode_ignores_trailing_bytes() {
    let mut buffer = Vec::new();
    Command::Win.write(&mut buffer);
    buffer.push(99);
    assert_eq!(Command::read(&buffer), Some(Command::Win));
}

#[test]
fn short_string_payload_is_truncated_not_failed() {
    // declared length 5, only one byte present: the reader takes what is
    // there rather than failing
    let buffer = vec![9u8, 0, 5, b'a'];
    assert_eq!(Command::read(&buffer), Some(Command::Guess("a".to_string())));
}

#[test]
fn packet_frames_with_length_prefix() {
    let mut buffer = Vec::new();
    let packet = Packet::new(Command::Guess("hi".to_string()));
    let n = packet.write(&mut buffer);
    assert_eq!(n, buffer.len());
    // header declares the body length
    let declared = (buffer[0] as usize) * 256 + buffer[1] as usize;
    assert_eq!(declared, buffer.len() - 2);
    // the body decodes back to the payload
    let body = buffer[2..].to_vec();
    assert_eq!(Command::read(&body), Some(Command::Guess("hi".to_string())));
}

#[test]
fn oversize_frame_is_rejected_from_header_alone() {
    // 4097 declared: rejected before any body byte is read
    assert_eq!(parse_frame_header(16, 1), Err(AppError::TooLarge));
    assert_eq!(parse_frame_header(255, 255), Err(AppError::TooLarge));
    // 4096 is the largest accepted declaration
    assert_eq!(parse_frame_header(16, 0), Ok(MAX_FRAME_LEN));
    assert_eq!(parse_frame_header(0, 7), Ok(7));
}

#[test]
fn u16_is_big_endian() {
    let mut buffer = Vec::new();
    write_u16(0x1234, &mut buffer);
    assert_eq!(buffer, vec![0x12, 0x34]);
}

#[test]
fn encoded_string_layout() {
    let mut buffer = Vec::new();
    write_str("hi", &mut buffer);
    assert_eq!(buffer, vec![0, 2, b'h', b'i']);
}

#[test]
fn command_tag_bytes() {
    let mut buffer = Vec::new();
    Command::Win.write(&mut buffer);
    assert_eq!(buffer, vec![12]);

    let mut buffer = Vec::new();
    Command::SubscribeToGames("x".to_string()).write(&mut buffer);
    assert_eq!(buffer, vec![254, 0, 1, b'x']);

    let mut buffer = Vec::new();
    Command::Opponents(vec!["7".to_string()]).write(&mut buffer);
    assert_eq!(buffer, vec![6, 0, 1, 0, 1, b'7']);
}
