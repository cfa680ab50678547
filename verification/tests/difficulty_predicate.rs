use wasm_miner::difficulty::{
    char_at, check_difficulty, difficulty_chunk, is_admitted_digit, starts_with, Difficulty,
};

fn predicate_difficulty(value: f64) -> Difficulty {
    let fraction = value % 1.0;
    let boundary = if fraction > 0.0 {
        Some((16.0 * (1.0 - fraction)).ceil() as u8)
    } else {
        None
    };
    Difficulty::new(value as usize, (value * 10.0) as u16, boundary).unwrap()
}

fn hash_with_prefix(prefix: &str) -> String {
    format!("{}{}", prefix, "9".repeat(64 - prefix.len()))
}

#[test]
fn difficulty_parts() {
    let d = Difficulty::new(4, 45, Some(8)).unwrap();
    assert_eq!(d.prefix_len(), 4);
    assert_eq!(d.scaled(), 45);
    assert_eq!(d.boundary(), Some(8));
    let whole = Difficulty::new(6, 60, None).unwrap();
    assert_eq!(whole.prefix_len(), 6);
    assert_eq!(whole.scaled(), 60);
    assert_eq!(whole.boundary(), None);
    assert_eq!(predicate_difficulty(4.5), d);
    assert_eq!(predicate_difficulty(6.0), whole);
}

#[test]
fn boundary_admits_between_1_and_16_digits() {
    assert!(Difficulty::new(1, 10, Some(0)).is_none());
    assert!(Difficulty::new(1, 10, Some(1)).is_some());
    assert!(Difficulty::new(1, 10, Some(16)).is_some());
    assert!(Difficulty::new(1, 10, Some(17)).is_none());
    assert!(Difficulty::new(1, 10, Some(255)).is_none());
    assert!(Difficulty::new(usize::MAX, u16::MAX, None).is_some());
}

#[test]
fn whole_difficulty_asks_for_the_prefix_only() {
    let d = predicate_difficulty(4.0);
    for fifth in "0123456789abcdef".chars() {
        let hash = hash_with_prefix(&format!("e26f{}", fifth));
        assert!(check_difficulty(&hash, "e26f", d));
    }
    assert!(!check_difficulty(&hash_with_prefix("e26e0"), "e26f", d));
    assert!(!check_difficulty(&hash_with_prefix("026f0"), "e26f", d));
    assert!(!check_difficulty(&hash_with_prefix("e260f"), "e26f", d));
}

#[test]
fn half_difficulty_admits_the_lower_eight_digits() {
    let d = predicate_difficulty(4.5);
    assert_eq!(d.boundary(), Some(8));
    for fifth in "01234567".chars() {
        let hash = hash_with_prefix(&format!("e26f{}", fifth));
        assert!(check_difficulty(&hash, "e26f", d));
    }
    for fifth in "89abcdef".chars() {
        let hash = hash_with_prefix(&format!("e26f{}", fifth));
        assert!(!check_difficulty(&hash, "e26f", d));
    }
    // The prefix is still required.
    assert!(!check_difficulty(&hash_with_prefix("e26e0"), "e26f", d));
}

#[test]
fn fraction_narrows_the_admitted_digits() {
    // ceil(16 * (1 - 0.9)) = 2, ceil(16 * (1 - 0.1)) = 15
    let tight = predicate_difficulty(1.9);
    assert_eq!(tight.boundary(), Some(2));
    assert!(check_difficulty(&hash_with_prefix("f0"), "f", tight));
    assert!(check_difficulty(&hash_with_prefix("f1"), "f", tight));
    assert!(!check_difficulty(&hash_with_prefix("f2"), "f", tight));
    let loose = predicate_difficulty(1.1);
    assert_eq!(loose.boundary(), Some(15));
    assert!(check_difficulty(&hash_with_prefix("fe"), "f", loose));
    assert!(!check_difficulty(&hash_with_prefix("ff"), "f", loose));
}

#[test]
fn zero_difficulty_admits_every_hash() {
    let d = predicate_difficulty(0.0);
    assert!(check_difficulty(&hash_with_prefix("ab"), "", d));
    assert!(check_difficulty("", "", d));
}

#[test]
fn boundary_behind_the_end_of_the_hash_fails() {
    let d = Difficulty::new(64, 645, Some(8)).unwrap();
    let hash = "0".repeat(64);
    assert!(!check_difficulty(&hash, &hash, d));
    let whole = Difficulty::new(64, 640, None).unwrap();
    assert!(check_difficulty(&hash, &hash, whole));
    let last = Difficulty::new(63, 635, Some(8)).unwrap();
    assert!(check_difficulty(&hash, &hash[..63], last));
}

#[test]
fn boundary_inside_the_chunk_is_still_tested() {
    // The position named by the whole part is tested even where the chunk covers it.
    let d = Difficulty::new(1, 15, Some(8)).unwrap();
    assert!(check_difficulty(&hash_with_prefix("a7"), "a7", d));
    assert!(!check_difficulty(&hash_with_prefix("a8"), "a8", d));
}

#[test]
fn uppercase_digits_are_not_admitted() {
    let d = Difficulty::new(1, 11, Some(16)).unwrap();
    assert!(check_difficulty("0a", "0", d));
    assert!(!check_difficulty("0A", "0", d));
    assert!(!check_difficulty("0g", "0", d));
}

#[test]
fn admitted_digits() {
    assert!(is_admitted_digit('0', 1));
    assert!(!is_admitted_digit('1', 1));
    assert!(is_admitted_digit('7', 8));
    assert!(!is_admitted_digit('8', 8));
    assert!(is_admitted_digit('9', 10));
    assert!(!is_admitted_digit('a', 10));
    assert!(is_admitted_digit('a', 11));
    assert!(is_admitted_digit('f', 16));
    assert!(!is_admitted_digit('f', 15));
    assert!(!is_admitted_digit('0', 0));
    assert!(!is_admitted_digit('g', 16));
    assert!(!is_admitted_digit('g', 255));
    assert!(!is_admitted_digit('F', 16));
    assert!(!is_admitted_digit('/', 16));
    assert!(!is_admitted_digit(':', 16));
    assert!(!is_admitted_digit('`', 16));
}

#[test]
fn chunk_is_the_tail_of_the_previous_hash() {
    let previous = "000000000019d6689c085ae165831e934ff763ae46a2a6c172b3f1b60a8ce26f";
    assert_eq!(difficulty_chunk(previous, predicate_difficulty(0.0)), "");
    assert_eq!(difficulty_chunk(previous, predicate_difficulty(1.0)), "f");
    assert_eq!(difficulty_chunk(previous, predicate_difficulty(4.5)), "e26f");
    assert_eq!(difficulty_chunk(previous, predicate_difficulty(64.0)), previous);
}

#[test]
fn chunk_longer_than_the_hash_is_the_whole_hash() {
    let previous = "000000000019d6689c085ae165831e934ff763ae46a2a6c172b3f1b60a8ce26f";
    assert_eq!(difficulty_chunk(previous, predicate_difficulty(65.0)), previous);
    assert_eq!(difficulty_chunk(previous, predicate_difficulty(1000.0)), previous);
    assert_eq!(difficulty_chunk("abc", predicate_difficulty(4.0)), "abc");
    assert_eq!(difficulty_chunk("", predicate_difficulty(4.0)), "");
}

#[test]
fn text_prefix() {
    assert!(starts_with("abcdef", ""));
    assert!(starts_with("abcdef", "abc"));
    assert!(starts_with("abcdef", "abcdef"));
    assert!(!starts_with("abcdef", "abcdefg"));
    assert!(!starts_with("abcdef", "abd"));
    assert!(!starts_with("", "a"));
    assert!(starts_with("", ""));
}

#[test]
fn character_at_a_position() {
    assert_eq!(char_at("abc", 0), Some('a'));
    assert_eq!(char_at("abc", 2), Some('c'));
    assert_eq!(char_at("abc", 3), None);
    assert_eq!(char_at("", 0), None);
    assert_eq!(char_at("abc", usize::MAX), None);
    assert_eq!(char_at("a\u{e9}b", 2), Some('b'));
}
