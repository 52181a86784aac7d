use morse_flasher::morse::{encode, encode_message, MorseCode};
use morse_flasher::queue::Queue;

use MorseCode::{Dash, Dot, EndOfChar, Space};

const TABLE: [(u8, &str); 26] = [
    (b'a', ".-"),
    (b'b', "-..."),
    (b'c', "-.-."),
    (b'd', "-.."),
    (b'e', "."),
    (b'f', "..-."),
    (b'g', "--."),
    (b'h', "...."),
    (b'i', ".."),
    (b'j', ".---"),
    (b'k', "-.-"),
    (b'l', ".-.."),
    (b'm', "--"),
    (b'n', "-."),
    (b'o', "---"),
    (b'p', ".--."),
    (b'q', "--.-"),
    (b'r', ".-."),
    (b's', "..."),
    (b't', "-"),
    (b'u', "..-"),
    (b'v', "...-"),
    (b'w', ".--"),
    (b'x', "-..-"),
    (b'y', "-.--"),
    (b'z', "--.."),
];

fn expected(pattern: &str) -> Vec<MorseCode> {
    let mut v: Vec<MorseCode> = pattern
        .chars()
        .map(|c| if c == '.' { Dot } else { Dash })
        .collect();
    v.push(EndOfChar);
    v
}

#[test]
fn every_letter_matches_the_table_in_both_cases() {
    for (letter, pattern) in TABLE {
        assert_eq!(encode(letter), expected(pattern), "letter {}", letter as char);
        assert_eq!(
            encode(letter.to_ascii_uppercase()),
            expected(pattern),
            "letter {}",
            letter.to_ascii_uppercase() as char
        );
    }
}

#[test]
fn space_is_one_space_symbol() {
    assert_eq!(encode(b' '), vec![Space]);
}

#[test]
fn other_bytes_encode_to_nothing() {
    for b in 0..=255u8 {
        if !b.is_ascii_alphabetic() && b != b' ' {
            assert!(encode(b).is_empty(), "byte {}", b);
        }
    }
}

#[test]
fn sos_end_to_end() {
    let codes = encode_message(b"SOS");
    assert_eq!(
        codes,
        vec![Dot, Dot, Dot, EndOfChar, Dash, Dash, Dash, EndOfChar, Dot, Dot, Dot, EndOfChar]
    );
    assert_eq!(codes.len(), 12);
}

#[test]
fn single_e_encodes_to_two_symbols() {
    assert_eq!(encode_message(b"E"), vec![Dot, EndOfChar]);
}

#[test]
fn single_space_encodes_to_one_symbol() {
    assert_eq!(encode_message(b" "), vec![Space]);
}

#[test]
fn message_is_the_concatenation_of_its_bytes() {
    let msg = b"Hi, yo!";
    let mut joined = Vec::new();
    for b in msg {
        joined.extend(encode(*b));
    }
    assert_eq!(encode_message(msg), joined);
    assert_eq!(
        joined,
        vec![Dot, Dot, Dot, Dot, EndOfChar, Dot, Dot, EndOfChar, Space, Dash, Dot, Dash, Dash,
            EndOfChar, Dash, Dash, Dash, EndOfChar]
    );
}

#[test]
fn each_letter_run_ends_with_one_end_of_char() {
    let msg = b"Hello world";
    let codes = encode_message(msg);
    let mut pos = 0;
    for b in msg {
        let run = encode(*b);
        assert_eq!(&codes[pos..pos + run.len()], &run[..]);
        if b.is_ascii_alphabetic() {
            assert_eq!(run.last(), Some(&EndOfChar));
            assert_eq!(run.iter().filter(|c| **c == EndOfChar).count(), 1);
        }
        pos += run.len();
    }
    assert_eq!(pos, codes.len());
}

#[test]
fn queue_char_and_queue_string_append_encodings() {
    let mut q: Vec<MorseCode> = vec![Space];
    q.queue_char(b'n');
    assert_eq!(q, vec![Space, Dash, Dot, EndOfChar]);
    q.queue_char(b'#');
    assert_eq!(q, vec![Space, Dash, Dot, EndOfChar]);
    q.queue_string(b"T e");
    assert_eq!(q, vec![Space, Dash, Dot, EndOfChar, Dash, EndOfChar, Space, Dot, EndOfChar]);
}

#[test]
fn two_whole_messages_do_not_interleave() {
    let mut q: Vec<MorseCode> = Vec::new();
    q.queue_string(b"SOS");
    q.queue_string(b"Hello world");
    let mut expected = encode_message(b"SOS");
    expected.extend(encode_message(b"Hello world"));
    assert_eq!(q, expected);
    assert_eq!(q, encode_message(b"SOSHello world"));
}
