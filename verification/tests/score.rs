use invaders::score::{
    blank, blank_pair, blank_triple, encode_score, parse_score, push_decimal, ScoreLedger,
};

#[test]
fn parse_reads_plain_digits() {
    assert_eq!(parse_score(b"42"), Some(42));
    assert_eq!(parse_score(b"0"), Some(0));
    assert_eq!(parse_score(b"4294967295"), Some(u32::MAX));
}

#[test]
fn parse_ignores_blanks_at_both_ends() {
    assert_eq!(parse_score(b"42\n"), Some(42));
    assert_eq!(parse_score(b"42\r\n"), Some(42));
    assert_eq!(parse_score(b"  42 \t"), Some(42));
    assert_eq!(parse_score(b"\x0b\x0c42"), Some(42));
}

#[test]
fn parse_takes_a_plus_sign_and_leading_zeros() {
    assert_eq!(parse_score(b"+42"), Some(42));
    assert_eq!(parse_score(b"0042"), Some(42));
    assert_eq!(parse_score(b"00000000000000000042"), Some(42));
    assert_eq!(parse_score(b" +0 "), Some(0));
}

#[test]
fn parse_refuses_what_is_no_number() {
    assert_eq!(parse_score(b""), None);
    assert_eq!(parse_score(b"   "), None);
    assert_eq!(parse_score(b"+"), None);
    assert_eq!(parse_score(b"-1"), None);
    assert_eq!(parse_score(b"++1"), None);
    assert_eq!(parse_score(b"4 2"), None);
    assert_eq!(parse_score(b"42abc"), None);
    assert_eq!(parse_score(b"abc"), None);
    assert_eq!(parse_score(b"4.2"), None);
    assert_eq!(parse_score(b"1_000"), None);
    assert_eq!(parse_score(b"+ 1"), None);
    assert_eq!(parse_score(&[0xff, 0xfe]), None);
}

#[test]
fn parse_refuses_what_does_not_fit() {
    assert_eq!(parse_score(b"4294967296"), None);
    assert_eq!(parse_score(b"99999999999999999999999999"), None);
    assert_eq!(parse_score(b"42949672950"), None);
}

#[test]
fn parse_refuses_digits_that_overflow_before_a_bad_byte() {
    assert_eq!(parse_score(b"99999999999x"), None);
}

#[test]
fn blank_knows_the_six_blanks() {
    for b in 0u8..=255 {
        let expected = matches!(b, 0x09 | 0x0a | 0x0b | 0x0c | 0x0d | 0x20);
        assert_eq!(blank(b), expected);
    }
}

#[test]
fn encode_writes_digits_only() {
    assert_eq!(encode_score(0), b"0".to_vec());
    assert_eq!(encode_score(7), b"7".to_vec());
    assert_eq!(encode_score(42), b"42".to_vec());
    assert_eq!(encode_score(1000), b"1000".to_vec());
    assert_eq!(encode_score(u32::MAX), b"4294967295".to_vec());
}

#[test]
fn push_decimal_appends() {
    let mut out = b"score=".to_vec();
    push_decimal(305, &mut out);
    assert_eq!(out, b"score=305".to_vec());
}

#[test]
fn encoded_scores_read_back() {
    for n in [0u32, 1, 9, 10, 11, 42, 99, 100, 12_345, 4_294_967_294, u32::MAX] {
        assert_eq!(parse_score(&encode_score(n)), Some(n));
    }
}

#[test]
fn load_of_an_absent_store_is_zero() {
    assert_eq!(ScoreLedger::load(None), 0);
}

#[test]
fn load_of_a_corrupted_store_is_zero() {
    assert_eq!(ScoreLedger::load(Some(b"garbage")), 0);
    assert_eq!(ScoreLedger::load(Some(b"")), 0);
    assert_eq!(ScoreLedger::load(Some(b"-5")), 0);
    assert_eq!(ScoreLedger::load(Some(b"4294967296")), 0);
}

#[test]
fn load_reads_the_stored_score() {
    assert_eq!(ScoreLedger::load(Some(b"42")), 42);
    assert_eq!(ScoreLedger::load(Some(b"42\n")), 42);
}

#[test]
fn a_written_high_score_is_loaded_again() {
    let mut ledger = ScoreLedger::new(0);
    ledger.apply_hit(42);
    let written = ledger.on_loss();
    assert_eq!(written, Some(b"42".to_vec()));
    let text = written.unwrap();
    let fresh = ScoreLedger::new(ScoreLedger::load(Some(&text)));
    assert_eq!(fresh, ScoreLedger { score: 0, high_score: 42 });
}

#[test]
fn new_ledger_starts_at_zero() {
    assert_eq!(ScoreLedger::new(17), ScoreLedger { score: 0, high_score: 17 });
}

#[test]
fn apply_hit_adds_and_raises_the_high_score() {
    let mut ledger = ScoreLedger::new(40);
    ledger.apply_hit(32);
    assert_eq!(ledger, ScoreLedger { score: 32, high_score: 40 });
    ledger.apply_hit(8);
    assert_eq!(ledger, ScoreLedger { score: 40, high_score: 40 });
    ledger.apply_hit(1);
    assert_eq!(ledger, ScoreLedger { score: 41, high_score: 41 });
    ledger.apply_hit(0);
    assert_eq!(ledger, ScoreLedger { score: 41, high_score: 41 });
}

#[test]
fn apply_hit_stops_at_the_largest_score() {
    let mut ledger = ScoreLedger::new(0);
    ledger.apply_hit(u32::MAX - 1);
    ledger.apply_hit(5);
    assert_eq!(ledger, ScoreLedger { score: u32::MAX, high_score: u32::MAX });
    ledger.apply_hit(5);
    assert_eq!(ledger, ScoreLedger { score: u32::MAX, high_score: u32::MAX });
}

#[test]
fn apply_hits_counts_each_hit_in_order() {
    let mut ledger = ScoreLedger::new(50);
    ledger.apply_hits(&vec![16, 32, 64]);
    assert_eq!(ledger, ScoreLedger { score: 112, high_score: 112 });
    ledger.apply_hits(&vec![]);
    assert_eq!(ledger, ScoreLedger { score: 112, high_score: 112 });
}

#[test]
fn reset_life_keeps_the_high_score() {
    let mut ledger = ScoreLedger::new(5);
    ledger.apply_hit(9);
    ledger.reset_life();
    assert_eq!(ledger, ScoreLedger { score: 0, high_score: 9 });
}

#[test]
fn on_loss_writes_only_a_score_that_is_the_high_score() {
    let mut ledger = ScoreLedger::new(100);
    ledger.apply_hit(99);
    assert_eq!(ledger.on_loss(), None);
    ledger.apply_hit(1);
    assert_eq!(ledger.on_loss(), Some(b"100".to_vec()));
    ledger.apply_hit(23);
    assert_eq!(ledger.on_loss(), Some(b"123".to_vec()));
}

#[test]
fn on_loss_with_nothing_scored_and_nothing_stored_writes_zero() {
    assert_eq!(ScoreLedger::new(0).on_loss(), Some(b"0".to_vec()));
}

#[test]
fn on_loss_leaves_the_ledger_as_it_is() {
    let ledger = ScoreLedger { score: 7, high_score: 7 };
    let _ = ledger.on_loss();
    assert_eq!(ledger, ScoreLedger { score: 7, high_score: 7 });
}

#[test]
fn high_score_never_decreases() {
    let mut ledger = ScoreLedger::new(30);
    let mut best = ledger.high_score;
    let hits = [5u32, 10, 20, 0, 64, 16, 3, 200, 1];
    for (i, points) in hits.iter().enumerate() {
        let score_before = ledger.score;
        ledger.apply_hit(*points);
        assert!(ledger.score >= score_before);
        assert!(ledger.high_score >= best);
        assert!(ledger.score <= ledger.high_score);
        best = ledger.high_score;
        if i % 3 == 2 {
            ledger.reset_life();
            assert_eq!(ledger.score, 0);
            assert_eq!(ledger.high_score, best);
        }
    }
    assert_eq!(best, 204);
}

/// Every white space character, as the bytes that stand for it.
const BLANK_CHARACTERS: [&[u8]; 25] = [
    b"\x09",
    b"\x0a",
    b"\x0b",
    b"\x0c",
    b"\x0d",
    b"\x20",
    b"\xc2\x85",
    b"\xc2\xa0",
    b"\xe1\x9a\x80",
    b"\xe2\x80\x80",
    b"\xe2\x80\x81",
    b"\xe2\x80\x82",
    b"\xe2\x80\x83",
    b"\xe2\x80\x84",
    b"\xe2\x80\x85",
    b"\xe2\x80\x86",
    b"\xe2\x80\x87",
    b"\xe2\x80\x88",
    b"\xe2\x80\x89",
    b"\xe2\x80\x8a",
    b"\xe2\x80\xa8",
    b"\xe2\x80\xa9",
    b"\xe2\x80\xaf",
    b"\xe2\x81\x9f",
    b"\xe3\x80\x80",
];

/// What the standard library makes of the same bytes: text, trimmed, read as
/// a number.
fn read_as_text(bytes: &[u8]) -> Option<u32> {
    match std::str::from_utf8(bytes) {
        Ok(text) => text.trim().parse::<u32>().ok(),
        Err(_) => None,
    }
}

fn joined(parts: &[&[u8]]) -> Vec<u8> {
    let mut all: Vec<u8> = vec![];
    for part in parts {
        all.extend_from_slice(part);
    }
    all
}

#[test]
fn parse_ignores_a_no_break_space_behind_the_digits() {
    assert_eq!(parse_score(b"42\xc2\xa0"), Some(42));
    assert_eq!(ScoreLedger::load(Some(b"42\xc2\xa0")), 42);
}

#[test]
fn parse_ignores_every_blank_character_at_either_end() {
    for blank in BLANK_CHARACTERS {
        assert_eq!(parse_score(&joined(&[b"42", blank])), Some(42));
        assert_eq!(parse_score(&joined(&[blank, b"42"])), Some(42));
        assert_eq!(parse_score(&joined(&[blank, b"+42", blank, blank])), Some(42));
        assert_eq!(parse_score(&joined(&[b"\n", blank, b" 42", blank, b"\r\n"])), Some(42));
    }
}

#[test]
fn parse_refuses_a_blank_character_between_the_digits() {
    for blank in BLANK_CHARACTERS {
        assert_eq!(parse_score(&joined(&[b"4", blank, b"2"])), None);
        assert_eq!(parse_score(&joined(&[b"+", blank, b"42"])), None);
        assert_eq!(parse_score(blank), None);
        assert_eq!(parse_score(&joined(&[blank, blank])), None);
    }
}

#[test]
fn parse_refuses_bytes_that_are_no_blank_character() {
    // The zero width space and the byte order mark are no white space.
    assert_eq!(parse_score(b"42\xe2\x80\x8b"), None);
    assert_eq!(parse_score(b"\xef\xbb\xbf42"), None);
    // Parts of a blank character are none.
    assert_eq!(parse_score(b"42\xc2"), None);
    assert_eq!(parse_score(b"42\xa0"), None);
    assert_eq!(parse_score(b"42\xe2\x80"), None);
    assert_eq!(parse_score(b"\x80\x8042"), None);
    assert_eq!(parse_score(b"\xa042"), None);
    // Other characters of two and three bytes.
    assert_eq!(parse_score(b"42\xc2\xa1"), None);
    assert_eq!(parse_score(b"42\xe2\x80\xaa"), None);
    assert_eq!(parse_score(b"42\xe3\x80\x81"), None);
}

#[test]
fn parse_agrees_with_the_standard_library() {
    let cores: [&[u8]; 12] = [
        b"42",
        b"+42",
        b"0",
        b"007",
        b"4294967295",
        b"4294967296",
        b"",
        b"+",
        b"-1",
        b"4 2",
        b"4\xc2\xa02",
        b"x",
    ];
    let edges: [&[u8]; 12] = [
        b"",
        b" ",
        b"\n",
        b"\x0b",
        b"\xc2\x85",
        b"\xc2\xa0",
        b"\xe1\x9a\x80",
        b"\xe2\x80\x8a",
        b"\xe2\x80\x8b",
        b"\xe2\x81\x9f",
        b"\xe3\x80\x80",
        b"\xc2",
    ];
    for core in cores {
        for before in edges {
            for after in edges {
                let text = joined(&[before, core, after]);
                assert_eq!(parse_score(&text), read_as_text(&text));
                let twice = joined(&[before, before, core, after, after]);
                assert_eq!(parse_score(&twice), read_as_text(&twice));
            }
        }
    }
}

#[test]
fn blank_pair_knows_the_white_space_of_two_bytes() {
    for a in 0u8..=255 {
        for b in 0u8..=255 {
            let expected = match std::str::from_utf8(&[a, b]) {
                Ok(text) => text.chars().count() == 1 && text.chars().all(char::is_whitespace),
                Err(_) => false,
            };
            assert_eq!(blank_pair(a, b), expected);
        }
    }
}

#[test]
fn blank_triple_knows_the_white_space_of_three_bytes() {
    for a in 0u8..=255 {
        for b in 0u8..=255 {
            for c in 0u8..=255 {
                let expected = (0xe0..=0xef).contains(&a)
                    && match std::str::from_utf8(&[a, b, c]) {
                        Ok(text) => {
                            text.chars().count() == 1 && text.chars().all(char::is_whitespace)
                        }
                        Err(_) => false,
                    };
                assert_eq!(blank_triple(a, b, c), expected);
            }
        }
    }
}

#[test]
fn blank_knows_the_white_space_of_one_byte() {
    for b in 0u8..=255 {
        let expected = b < 0x80 && char::from(b).is_whitespace();
        assert_eq!(blank(b), expected);
    }
}
