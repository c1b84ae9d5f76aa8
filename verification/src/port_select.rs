//! Choice of the listening port, without opening any socket.

use vstd::prelude::*;
use std::collections::HashSet;

verus! {

broadcast use vstd::std_specs::hash::group_hash_axioms;

/// Lowest port the server may use; everything below is reserved.
pub const MIN_USER_PORT: u16 = 1024;

/// Where the upward search starts: the preferred port, raised to 1024.
pub open spec fn upward_start(preferred: u16) -> int {
    if preferred < 1024 { 1024 } else { preferred as int }
}

/// Every port in `lo..hi` (as integers) is occupied.
pub open spec fn all_taken(occupied: Set<u16>, lo: int, hi: int) -> bool {
    forall|q: u16| lo <= q < hi ==> #[trigger] occupied.contains(q)
}

/// The port `select_port` must answer, if any:
/// the first free port from `max(preferred, 1024)` up to 65535; failing that,
/// the free port in `1024..preferred` closest to `preferred`.
pub open spec fn port_choice(preferred: u16, occupied: Set<u16>, r: Option<u16>) -> bool {
    match r {
        Some(p) => {
            &&& 1024 <= p
            &&& !occupied.contains(p)
            &&& {
                ||| upward_start(preferred) <= p && all_taken(occupied, upward_start(preferred), p as int)
                ||| {
                    &&& p < preferred
                    &&& all_taken(occupied, upward_start(preferred), 65536)
                    &&& all_taken(occupied, p + 1, preferred as int)
                }
            }
        },
        None => all_taken(occupied, 1024, 65536),
    }
}

/// Picks a free port in `1024..=65535`: upward from `max(preferred, 1024)`
/// first, then downward from `preferred - 1`. `None` only when every port
/// from 1024 up is occupied.
pub fn select_port(preferred: u16, occupied: &HashSet<u16>) -> (r: Option<u16>)
    ensures
        port_choice(preferred, occupied@, r),
{
    let upward: u16 = if preferred < 1024 { 1024 } else { preferred };
    let mut p: u32 = upward as u32;
    while p <= 65535
        invariant
            upward as int == upward_start(preferred),
            upward <= p <= 65536,
            all_taken(occupied@, upward as int, p as int),
        decreases 65536 - p,
    {
        let port = p as u16;
        if !occupied.contains(&port) {
            return Some(port);
        }
        p = p + 1;
    }
    if preferred > 1024 {
        let mut q: u16 = preferred;
        while q > 1024
            invariant
                1024 <= q <= preferred,
                preferred > 1024,
                all_taken(occupied@, upward_start(preferred), 65536),
                all_taken(occupied@, q as int, preferred as int),
            decreases q,
        {
            let port = q - 1;
            if !occupied.contains(&port) {
                return Some(port);
            }
            q = q - 1;
        }
    }
    None
}


/// The choice is a function of the preference and the occupied set: two
/// answers that both meet it are the same.
pub proof fn lemma_port_choice_unique(preferred: u16, occupied: Set<u16>, a: Option<u16>, b: Option<u16>)
    requires
        port_choice(preferred, occupied, a),
        port_choice(preferred, occupied, b),
    ensures
        a == b,
{
    match (a, b) {
        (Some(x), Some(y)) => {
            if x != y {
                if x < y {
                    assert(occupied.contains(x)) by {
                        if !(upward_start(preferred) <= y && all_taken(occupied, upward_start(preferred), y as int)) {
                            assert(all_taken(occupied, y + 1, preferred as int));
                            if upward_start(preferred) <= x {
                                assert(all_taken(occupied, upward_start(preferred), 65536));
                            }
                        }
                    }
                } else {
                    assert(occupied.contains(y)) by {
                        if !(upward_start(preferred) <= x && all_taken(occupied, upward_start(preferred), x as int)) {
                            assert(all_taken(occupied, x + 1, preferred as int));
                            if upward_start(preferred) <= y {
                                assert(all_taken(occupied, upward_start(preferred), 65536));
                            }
                        }
                    }
                }
            }
        },
        (Some(x), None) => {
            assert(occupied.contains(x));
        },
        (None, Some(y)) => {
            assert(occupied.contains(y));
        },
        (None, None) => {},
    }
}

} // verus!
