use std::collections::HashSet;

use phonemic::port_select::select_port;

fn occ(items: &[u16]) -> HashSet<u16> {
    items.iter().copied().collect()
}

#[test]
fn returns_preferred_when_free() {
    assert_eq!(select_port(18080, &occ(&[])), Some(18080));
    assert_eq!(select_port(18080, &occ(&[1024, 65535])), Some(18080));
}

#[test]
fn advances_upward_when_preferred_taken() {
    assert_eq!(select_port(18080, &occ(&[18080])), Some(18081));
    assert_eq!(select_port(18080, &occ(&[18080, 18081, 18082])), Some(18083));
}

#[test]
fn falls_back_downward_when_upper_range_exhausted() {
    let mut occupied: HashSet<u16> = (18080u16..=65_535).collect();
    assert_eq!(select_port(18080, &occupied), Some(18079));
    occupied.insert(18079);
    assert_eq!(select_port(18080, &occupied), Some(18078));
}

#[test]
fn returns_none_when_all_user_ports_occupied() {
    let occupied: HashSet<u16> = (1024u16..=65_535).collect();
    assert_eq!(select_port(18080, &occupied), None);
    assert_eq!(select_port(1024, &occupied), None);
    assert_eq!(select_port(65_535, &occupied), None);
}

#[test]
fn preferred_below_1024_starts_upward_at_1024() {
    assert_eq!(select_port(0, &occ(&[])), Some(1024));
    assert_eq!(select_port(0, &occ(&[1024])), Some(1025));
    assert_eq!(select_port(80, &occ(&[80, 1024])), Some(1025));
}

#[test]
fn preferred_below_1024_never_falls_back_to_reserved_ports() {
    let occupied: HashSet<u16> = (1024u16..=65_535).collect();
    assert_eq!(select_port(0, &occupied), None);
    assert_eq!(select_port(500, &occupied), None);
}

#[test]
fn preferred_at_max_falls_back_when_taken() {
    assert_eq!(select_port(65_535, &occ(&[])), Some(65_535));
    assert_eq!(select_port(65_535, &occ(&[65_535])), Some(65_534));
}

#[test]
fn preferred_at_1024_skips_downward_search() {
    let mut occupied: HashSet<u16> = (1024u16..=65_535).collect();
    assert_eq!(select_port(1024, &occupied), None);
    occupied.clear();
    occupied.insert(1024);
    assert_eq!(select_port(1024, &occupied), Some(1025));
}

#[test]
fn none_when_full_range_occupied() {
    let full: HashSet<u16> = (1024u16..=65_535).collect();
    assert_eq!(select_port(0, &full), None);
    assert_eq!(select_port(80, &full), None);
    assert_eq!(select_port(1024, &full), None);
    assert_eq!(select_port(18_080, &full), None);
    assert_eq!(select_port(65_535, &full), None);
}

#[test]
fn clamps_preferred_below_1024_to_1024() {
    let empty: HashSet<u16> = HashSet::new();
    assert_eq!(select_port(0, &empty), Some(1024));
}

/// Walks a fixed grid of inputs and checks the selection invariant:
/// the result is a free user port, the first free one at or above the
/// clamped preference, or else the nearest free one below it.
#[test]
fn selection_invariant_on_a_grid_of_inputs() {
    let mut occupied: HashSet<u16> = HashSet::new();
    for p in (20_000u16..=65_535).step_by(3) {
        occupied.insert(p);
    }
    for p in 40_000u16..=65_535 {
        occupied.insert(p);
    }
    for preferred in [0u16, 900, 1024, 5000, 20_000, 20_001, 39_999, 40_000, 50_000, 65_535] {
        let lower = preferred.max(1024);
        match select_port(preferred, &occupied) {
            Some(p) => {
                assert!(p >= 1024);
                assert!(!occupied.contains(&p));
                if p >= lower {
                    for q in lower..p {
                        assert!(occupied.contains(&q));
                    }
                } else {
                    for q in lower..=65_535u16 {
                        assert!(occupied.contains(&q));
                    }
                    for q in (p + 1)..lower {
                        assert!(occupied.contains(&q));
                    }
                }
            }
            None => {
                for q in 1024u16..=65_535 {
                    assert!(occupied.contains(&q));
                }
            }
        }
    }
}
