use kenny_control::control::KennyControl;
use kenny_control::decoder::{
    completes_char, field_is_number, find_mark, is_decodable, next_event, only_numbers,
    starts_with_numbers, Mark,
};
use kenny_control::keys::KeyEvent;

#[test]
fn marks() {
    assert!(Mark::Separator.is_mark(b';'));
    assert!(!Mark::Separator.is_mark(b':'));
    assert!(Mark::Final.is_mark(64));
    assert!(Mark::Final.is_mark(126));
    assert!(!Mark::Final.is_mark(63));
    assert!(!Mark::Final.is_mark(127));
    assert!(Mark::ReportEnd.is_mark(b'M'));
    assert!(Mark::ReportEnd.is_mark(b'm'));
    assert!(!Mark::ReportEnd.is_mark(b'n'));
}

#[test]
fn the_next_mark_is_found() {
    assert_eq!(find_mark(b"12;34;5", 0, Mark::Separator), 2);
    assert_eq!(find_mark(b"12;34;5", 2, Mark::Separator), 2);
    assert_eq!(find_mark(b"12;34;5", 3, Mark::Separator), 5);
    assert_eq!(find_mark(b"12;34;5", 6, Mark::Separator), 7);
    assert_eq!(find_mark(b"12;34;5", 7, Mark::Separator), 7);
    assert_eq!(find_mark(b"[3;2~x", 1, Mark::Final), 4);
    assert_eq!(find_mark(b"[<0;2;3m", 2, Mark::ReportEnd), 7);
    assert_eq!(find_mark(b"", 0, Mark::Final), 0);
}

#[test]
fn numbers_are_digits_within_the_limit() {
    assert!(field_is_number(b"0", 0, 1, 255));
    assert!(field_is_number(b"255", 0, 3, 255));
    assert!(!field_is_number(b"256", 0, 3, 255));
    assert!(field_is_number(b"65535", 0, 5, 65535));
    assert!(!field_is_number(b"65536", 0, 5, 65535));
    assert!(field_is_number(b"0000000000000000000007", 0, 22, 255));
    assert!(!field_is_number(b"99999999999999999999", 0, 20, 65535));
    assert!(!field_is_number(b"", 0, 0, 255));
    assert!(!field_is_number(b"12", 1, 1, 255));
    assert!(!field_is_number(b"+5", 0, 2, 255));
    assert!(!field_is_number(b"-5", 0, 2, 255));
    assert!(!field_is_number(b"1a", 0, 2, 255));
    assert!(!field_is_number(b" 1", 0, 2, 255));
    assert!(field_is_number(b"x12y", 1, 3, 12));
    assert!(!field_is_number(b"x12y", 1, 3, 11));
}

#[test]
fn leading_fields() {
    assert!(starts_with_numbers(b"0;2;3", 3, 65535));
    assert!(starts_with_numbers(b"0;2;3;", 3, 65535));
    assert!(starts_with_numbers(b"0;2;3;x", 3, 65535));
    assert!(!starts_with_numbers(b"0;2", 3, 65535));
    assert!(!starts_with_numbers(b"0;2;", 3, 65535));
    assert!(!starts_with_numbers(b"0;;3", 3, 65535));
    assert!(!starts_with_numbers(b"", 1, 65535));
    assert!(starts_with_numbers(b"", 0, 65535));
    assert!(starts_with_numbers(b"garbage", 0, 65535));
    assert!(!starts_with_numbers(b"0;2;70000", 3, 65535));
}

#[test]
fn whole_field_lists() {
    assert!(only_numbers(b"3", 255));
    assert!(only_numbers(b"3;2", 255));
    assert!(!only_numbers(b"3;", 255));
    assert!(!only_numbers(b";3", 255));
    assert!(!only_numbers(b"", 255));
    assert!(!only_numbers(b"3;256", 255));
    assert!(only_numbers(b"3;256", 65535));
    assert!(!only_numbers(b"3;2x", 255));
}

#[test]
fn characters_are_settled_or_not() {
    assert!(completes_char(b'a', b""));
    assert!(completes_char(0x7F, b""));
    assert!(!completes_char(0x80, b""));
    assert!(!completes_char(0xC3, b""));
    assert!(completes_char(0xC3, &[0xA9]));
    assert!(!completes_char(0xC3, &[0x41]));
    assert!(!completes_char(0xC3, &[0x41, 0x41]));
    assert!(completes_char(0xC3, &[0x41, 0x41, 0x41]));
    assert!(!completes_char(0xE2, &[0x82]));
    assert!(completes_char(0xE2, &[0x82, 0xAC]));
    assert!(!completes_char(0xF0, &[0x9F, 0x98]));
    assert!(completes_char(0xF0, &[0x9F, 0x98, 0x80]));
    assert!(completes_char(0xFF, &[0xFF, 0xFF, 0xFF]));
}

#[test]
fn decodable_starts() {
    let yes: [&[u8]; 17] = [
        b"w",
        b"\n",
        b"\x1B",
        b"\x1B[",
        b"\x1B[A",
        b"\x1B[Z",
        b"\x1B[;3~",
        b"\x1BO",
        b"\x1BOP",
        b"\x1Bx",
        b"\x1B[3~",
        b"\x1B[3;2~",
        b"\x1B[1;5C",
        b"\x1B[M !!",
        b"\x1B[M\x7F!!",
        b"\x1B[<0;2;3M",
        b"\x1B[32;1;1M",
    ];
    for input in yes {
        assert!(is_decodable(input[0], &input[1..]), "{:?}", input);
    }
    let no: [&[u8]; 16] = [
        b"\xC3",
        b"\x1B\xC3",
        b"\x1B[M",
        b"\x1B[M !",
        b"\x1B[M\x80!!",
        b"\x1B[M\x9F!!",
        b"\x1B[<",
        b"\x1B[<0;2;3",
        b"\x1B[<0;2M",
        b"\x1B[<0;2;M",
        b"\x1B[<0;2;3;\xFFM",
        b"\x1B[3",
        b"\x1B[3;",
        b"\x1B[3;;2~",
        b"\x1B[256~",
        b"\x1B[32;1M",
    ];
    for input in no {
        assert!(!is_decodable(input[0], &input[1..]), "{:?}", input);
    }
    assert!(is_decodable(0x1B, b"[M\xA0!!"));
    assert!(is_decodable(0x1B, b"[<0;2;3;\xC3\xA9M"));
}

#[test]
fn single_events() {
    assert_eq!(next_event(b"w"), Some((KeyEvent::Char('w'), 1)));
    assert_eq!(next_event(b"wasd"), Some((KeyEvent::Char('w'), 1)));
    assert_eq!(next_event(b" "), Some((KeyEvent::Char(' '), 1)));
    assert_eq!(next_event(b"~"), Some((KeyEvent::Char('~'), 1)));
    assert_eq!(next_event(b"\n"), Some((KeyEvent::Char('\n'), 1)));
    assert_eq!(next_event(b"\r"), Some((KeyEvent::Char('\n'), 1)));
    assert_eq!(next_event(b"\t"), Some((KeyEvent::Char('\t'), 1)));
    assert_eq!(next_event(b"\x7F"), Some((KeyEvent::OtherKey, 1)));
    assert_eq!(next_event(b"\x00"), Some((KeyEvent::OtherKey, 1)));
    assert_eq!(next_event(b"\x03w"), Some((KeyEvent::OtherKey, 1)));
    assert_eq!(next_event(b"\x1B[Aw"), Some((KeyEvent::OtherKey, 3)));
    assert_eq!(next_event(b"\x1BOPw"), Some((KeyEvent::OtherKey, 3)));
    assert_eq!(next_event(b"\x1Bxw"), Some((KeyEvent::OtherKey, 2)));
    assert_eq!(next_event(b"\x1B[3~w"), Some((KeyEvent::OtherKey, 4)));
    assert_eq!(next_event(b"\x1B[15~w"), Some((KeyEvent::OtherKey, 5)));
    assert_eq!(next_event(b"\x1B[3;2~w"), Some((KeyEvent::NotKey, 6)));
    assert_eq!(next_event(b"\x1B[1;5Cw"), Some((KeyEvent::NotKey, 6)));
    assert_eq!(next_event(b"\x1B[M !!w"), Some((KeyEvent::NotKey, 6)));
    assert_eq!(next_event(b"\x1B[<0;2;3Mw"), Some((KeyEvent::NotKey, 9)));
    assert_eq!(next_event(b"\x1B[32;1;1Mw"), Some((KeyEvent::NotKey, 9)));
    assert_eq!(next_event("\u{e9}w".as_bytes()), Some((KeyEvent::Char('\u{e9}'), 2)));
    assert_eq!(next_event("\u{20ac}".as_bytes()), Some((KeyEvent::Char('\u{20ac}'), 3)));
    assert_eq!(next_event("\u{1F600}".as_bytes()), Some((KeyEvent::Char('\u{1F600}'), 4)));
}

#[test]
fn starts_that_are_no_event() {
    assert_eq!(next_event(b"\x1B"), None);
    assert_eq!(next_event(b"\x1B["), None);
    assert_eq!(next_event(b"\x1B[Z"), None);
    assert_eq!(next_event(b"\x1BOx"), None);
    assert_eq!(next_event(b"\x1B[5"), None);
    assert_eq!(next_event(b"\x1B[300~"), None);
    assert_eq!(next_event(b"\x1B[<9;2;3M"), None);
    assert_eq!(next_event(b"\xC3"), None);
    assert_eq!(next_event(b"\xC3A"), None);
    assert_eq!(next_event(b"\xFFAAA"), None);
}

fn mapped(item: u8, rest: &[u8]) -> (Option<KeyEvent>, usize) {
    let mut bytes = rest.iter().map(|byte| Ok(*byte));
    let event = match termion::event::parse_event(Ok(item), &mut bytes) {
        Ok(termion::event::Event::Key(termion::event::Key::Char(c))) => Some(KeyEvent::Char(c)),
        Ok(termion::event::Event::Key(_)) => Some(KeyEvent::OtherKey),
        Ok(_) => Some(KeyEvent::NotKey),
        Err(_) => None,
    };
    (event, 1 + rest.len() - bytes.count())
}

fn check(input: &[u8]) {
    if input.is_empty() {
        return;
    }
    let found = next_event(input);
    if is_decodable(input[0], &input[1..]) {
        let (event, used) = mapped(input[0], &input[1..]);
        match event {
            Some(event) => assert_eq!(found, Some((event, used)), "{:?}", input),
            None => assert_eq!(found, None, "{:?}", input),
        }
    } else {
        assert_eq!(found, None, "{:?}", input);
    }
    let mut control = KennyControl::new(String::new(), 0);
    let report = control.handle_events(input);
    assert!(report.sent.len() <= input.len());
}

fn sweep(prefix: &[u8], alphabet: &[u8], length: usize) {
    let mut input = prefix.to_vec();
    let mut digits = vec![0usize; length];
    for used in 0..=length {
        for d in digits.iter_mut() {
            *d = 0;
        }
        loop {
            input.truncate(prefix.len());
            for d in &digits[..used] {
                input.push(alphabet[*d]);
            }
            check(&input);
            let mut at = 0;
            while at < used && digits[at] + 1 == alphabet.len() {
                digits[at] = 0;
                at += 1;
            }
            if at == used {
                break;
            }
            digits[at] += 1;
        }
    }
}

#[test]
fn every_short_input_decodes_as_termion_has_it() {
    let alphabet = [
        0x1B, b'[', b'<', b'M', b'm', b'~', b';', b'0', b'3', b'9', b'O', b'P', b'w', b'+', 0x80,
        0x9F, 0xA9, 0xC3, 0xE2, 0xFF,
    ];
    sweep(b"", &alphabet, 4);
}

#[test]
fn every_short_control_sequence_decodes_as_termion_has_it() {
    let alphabet = [b'<', b'M', b'm', b'~', b';', b'0', b'2', b'5', b'6', b'A', 0x80, 0xC3];
    sweep(b"\x1B[", &alphabet, 5);
}

#[test]
fn every_short_mouse_report_decodes_as_termion_has_it() {
    let alphabet = [b'M', b'm', b';', b'0', b'6', b'9', b'+', 0xA9, 0xC3];
    sweep(b"\x1B[<", &alphabet, 6);
    sweep(b"\x1B[<0;1;", &alphabet, 5);
}

#[test]
fn every_short_numbered_sequence_decodes_as_termion_has_it() {
    let alphabet = [b'M', b'~', b';', b'0', b'2', b'5', b'6', b'9', b'R'];
    sweep(b"\x1B[3", &alphabet, 6);
    sweep(b"\x1B[32;1", &alphabet, 5);
}

fn scramble(state: &mut u64) -> usize {
    *state ^= *state << 13;
    *state ^= *state >> 7;
    *state ^= *state << 17;
    (*state >> 11) as usize
}

fn random_input(state: &mut u64, alphabet: &[u8], longest: usize) -> Vec<u8> {
    let length = scramble(state) % (longest + 1);
    let mut input = Vec::with_capacity(length);
    for _ in 0..length {
        input.push(alphabet[scramble(state) % alphabet.len()]);
    }
    input
}

const MIXED: [u8; 24] = [
    0x1B, 0x1B, b'[', b'[', b'<', b'M', b'm', b'~', b';', b';', b'0', b'1', b'3', b'6', b'9',
    b'O', b'P', b'w', b'a', b'+', 0x80, 0xA9, 0xC3, 0xF0,
];

#[test]
fn long_inputs_decode_as_termion_has_it() {
    let mut state: u64 = 0x2545F4914F6CDD1D;
    for _ in 0..20000 {
        let input = random_input(&mut state, &MIXED, 24);
        for start in 0..input.len() {
            check(&input[start..]);
        }
    }
}

#[test]
fn a_batch_is_its_events_pressed_one_by_one() {
    let keys = [
        0x1B, b'[', b'A', b'3', b'~', b';', b'w', b'w', b'a', b's', b'd', b'd', b'q', b'\n', 0xC3,
        0xA9, b'~',
    ];
    let mut state: u64 = 0x9E3779B97F4A7C15;
    for _ in 0..20000 {
        let input = random_input(&mut state, &keys, 12);

        let mut stepwise = KennyControl::new(String::new(), 0);
        stepwise.present();
        let mut sent = Vec::new();
        let mut malformed = false;
        let mut at = 0;
        while at < input.len() && stepwise.is_running() {
            match next_event(&input[at..]) {
                Some((event, used)) => {
                    sent.extend(stepwise.press(event));
                    at += used;
                }
                None => {
                    malformed = true;
                    break;
                }
            }
        }

        let mut batchwise = KennyControl::new(String::new(), 0);
        batchwise.present();
        let report = batchwise.handle_events(&input);
        assert_eq!(report.sent, sent, "{:?}", input);
        assert_eq!(report.malformed, malformed, "{:?}", input);
        assert_eq!(batchwise.direction(), stepwise.direction(), "{:?}", input);
        assert_eq!(batchwise.is_running(), stepwise.is_running(), "{:?}", input);
        assert_eq!(batchwise.is_dirty(), stepwise.is_dirty(), "{:?}", input);
        assert_eq!(batchwise.is_dirty(), !report.sent.is_empty(), "{:?}", input);
    }
}
