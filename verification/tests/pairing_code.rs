use std::collections::HashSet;

use rand::SeedableRng;

use phonemic::pairing_code::{
    generate_pairing_code, parse_pairing_code, verify_pairing_code, PairingCode,
    PAIRING_CODE_ALPHABET, PAIRING_CODE_LEN,
};

const CONFUSABLES: &[u8] = b"0O1IL";

fn sample_pairing_code() -> PairingCode {
    PairingCode::from_validated_bytes(*b"ABCDJKMN")
}

#[test]
fn generated_code_has_fixed_length() {
    let code = generate_pairing_code();
    assert_eq!(code.as_str().len(), PAIRING_CODE_LEN);
    assert_eq!(code.into_string().len(), PAIRING_CODE_LEN);
}

#[test]
fn every_char_is_in_alphabet() {
    for _ in 0..256 {
        let code = generate_pairing_code();
        for &b in code.as_str().as_bytes() {
            assert!(PAIRING_CODE_ALPHABET.contains(&b), "byte {:?} outside the alphabet", b as char);
        }
    }
}

#[test]
fn never_contains_confusable_chars() {
    for _ in 0..256 {
        let code = generate_pairing_code();
        for &b in code.as_str().as_bytes() {
            assert!(!CONFUSABLES.contains(&b), "confusable {:?} in a code", b as char);
        }
    }
}

#[test]
fn alphabet_contract_is_stable() {
    assert_eq!(PAIRING_CODE_ALPHABET.len(), 31);
    for confusable in b"0O1IL" {
        assert!(!PAIRING_CODE_ALPHABET.contains(confusable));
    }
    let mut sorted: Vec<u8> = PAIRING_CODE_ALPHABET.to_vec();
    sorted.sort_unstable();
    sorted.dedup();
    assert_eq!(sorted.len(), PAIRING_CODE_ALPHABET.len());
}

#[test]
fn sample_is_mostly_unique() {
    const SAMPLES: usize = 1_000;
    const MAX_DUPLICATES: usize = 5;
    let mut seen = HashSet::with_capacity(SAMPLES);
    let mut duplicates = 0usize;
    for _ in 0..SAMPLES {
        let code = generate_pairing_code().into_string();
        if !seen.insert(code) {
            duplicates += 1;
        }
    }
    assert!(duplicates <= MAX_DUPLICATES);
}

#[test]
fn accepts_exact_match() {
    let code = sample_pairing_code();
    assert!(verify_pairing_code(&code, code.as_str()));
}

#[test]
fn rejects_single_byte_diff() {
    let code = sample_pairing_code();
    let original = code.as_str().as_bytes();
    for idx in 0..PAIRING_CODE_LEN {
        let mut bytes = original.to_vec();
        let replacement = PAIRING_CODE_ALPHABET
            .iter()
            .copied()
            .find(|b| *b != bytes[idx])
            .expect("the alphabet has two distinct bytes");
        bytes[idx] = replacement;
        let candidate = core::str::from_utf8(&bytes).expect("ASCII");
        assert!(!verify_pairing_code(&code, candidate), "changed at {idx}: {candidate}");
    }
}

#[test]
fn rejects_wrong_length_candidates() {
    let code = sample_pairing_code();
    let cases = ["", "A", "ABCDJKM", "ABCDJKMNX", "ABCDJKMNABCDJKMN"];
    for candidate in cases {
        assert_eq!(candidate.len() != PAIRING_CODE_LEN, true);
        assert!(!verify_pairing_code(&code, candidate));
    }
}

#[test]
fn rejects_non_alphabet_same_length_candidate() {
    let code = sample_pairing_code();
    let candidate = "0OIL01OL";
    assert_eq!(candidate.len(), PAIRING_CODE_LEN);
    assert!(!verify_pairing_code(&code, candidate));
}

#[test]
fn rejects_lowercase_candidate() {
    let code = sample_pairing_code();
    let candidate = code.as_str().to_ascii_lowercase();
    assert_eq!(candidate.len(), PAIRING_CODE_LEN);
    assert!(!verify_pairing_code(&code, &candidate));
}

#[test]
fn parse_pairing_code_round_trips_valid_input() {
    let code = sample_pairing_code();
    let parsed = parse_pairing_code(code.as_str()).expect("a valid code parses");
    assert_eq!(parsed.as_str(), code.as_str());
    assert!(verify_pairing_code(&code, parsed.as_str()));
}

#[test]
fn parse_pairing_code_rejects_lowercase() {
    let code = sample_pairing_code();
    let lower = code.as_str().to_ascii_lowercase();
    assert!(parse_pairing_code(&lower).is_none());
}

#[test]
fn parse_pairing_code_rejects_wrong_length() {
    for candidate in ["", "ABC", "ABCDJKM", "ABCDJKMNX", "ABCDJKMNABCDJKMN"] {
        assert!(parse_pairing_code(candidate).is_none());
    }
}

#[test]
fn parse_pairing_code_rejects_illegal_chars() {
    let candidate = "0OIL01OL";
    assert_eq!(candidate.len(), PAIRING_CODE_LEN);
    assert!(parse_pairing_code(candidate).is_none());
}

#[test]
fn collision_rate_is_bounded() {
    const SAMPLES: usize = 1_000;
    const MAX_DUPLICATES: usize = 5;
    let mut seen: HashSet<String> = HashSet::with_capacity(SAMPLES);
    let mut duplicates = 0usize;
    for _ in 0..SAMPLES {
        let code = generate_pairing_code().into_string();
        assert_eq!(code.len(), PAIRING_CODE_LEN);
        for &b in code.as_bytes() {
            assert!(PAIRING_CODE_ALPHABET.contains(&b));
            assert!(!CONFUSABLES.contains(&b));
        }
        if !seen.insert(code) {
            duplicates += 1;
        }
    }
    assert!(duplicates <= MAX_DUPLICATES);
}

#[test]
fn alphabet_contract_sanity() {
    assert_eq!(PAIRING_CODE_ALPHABET.len(), 31);
    for confusable in CONFUSABLES {
        assert!(!PAIRING_CODE_ALPHABET.contains(confusable));
    }
    assert!(PAIRING_CODE_LEN >= 6);
}

#[test]
fn verify_is_plain_byte_equality_for_a_fixed_code() {
    let code = PairingCode::from_validated_bytes(*b"ZZZZ2345");
    assert!(verify_pairing_code(&code, "ZZZZ2345"));
    assert!(!verify_pairing_code(&code, "ZZZZ2346"));
    assert!(!verify_pairing_code(&code, "ZZZZ234"));
}

#[test]
fn seeded_generator_gives_the_same_code() {
    let mut a = rand::rngs::StdRng::seed_from_u64(7);
    let mut b = rand::rngs::StdRng::seed_from_u64(7);
    let ca = phonemic::pairing_code::generate_pairing_code_with_rng(&mut a);
    let cb = phonemic::pairing_code::generate_pairing_code_with_rng(&mut b);
    assert_eq!(ca.as_str(), cb.as_str());
    assert!(phonemic::pairing_code::parse_pairing_code(ca.as_str()).is_some());
}

#[test]
fn pairing_code_is_well_formed_for_any_seed() {
    for seed in 0..64u64 {
        let mut rng = rand::rngs::StdRng::seed_from_u64(seed);
        let c = phonemic::pairing_code::generate_pairing_code_with_rng(&mut rng);
        let s = c.as_str();
        assert_eq!(s.len(), PAIRING_CODE_LEN);
        assert!(s.bytes().all(|b| PAIRING_CODE_ALPHABET.contains(&b)));
        assert!(!s.bytes().any(|b| CONFUSABLES.contains(&b)));
        assert_eq!(c.clone().into_string(), c.as_str());
    }
}
