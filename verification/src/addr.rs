use vstd::prelude::*;

verus! {

// The simulation's stand-in for CIDR matching: two IP address strings are on
// the same subnet when their fixed-width prefixes agree. The prefix is the
// first `SUBNET_PREFIX_LEN` characters, which for dotted-quad addresses of the
// form `192.168.x.y` covers the third segment, so the boundary behaves like a
// /24 network. An address too short to have a prefix has none; two such
// addresses compare as equal prefixes.

pub const SUBNET_PREFIX_LEN: usize = 9;

/// The fixed-width subnet prefix of an address, if the address is long enough
/// to have one.
pub open spec fn spec_subnet_prefix(ip: Seq<char>) -> Option<Seq<char>> {
    if ip.len() >= SUBNET_PREFIX_LEN {
        Some(ip.take(SUBNET_PREFIX_LEN as int))
    } else {
        None
    }
}

/// Two addresses lie on the same subnet when their prefixes agree.
pub open spec fn spec_same_subnet(a: Seq<char>, b: Seq<char>) -> bool {
    spec_subnet_prefix(a) == spec_subnet_prefix(b)
}

/// Decides the same-subnet test on address strings.
pub fn same_subnet(a: &str, b: &str) -> (r: bool)
    ensures
        r == spec_same_subnet(a@, b@),
{
    let la = a.unicode_len();
    let lb = b.unicode_len();
    if la < SUBNET_PREFIX_LEN && lb < SUBNET_PREFIX_LEN {
        true
    } else if la >= SUBNET_PREFIX_LEN && lb >= SUBNET_PREFIX_LEN {
        let mut i: usize = 0;
        while i < SUBNET_PREFIX_LEN
            invariant
                la == a@.len(),
                lb == b@.len(),
                la >= SUBNET_PREFIX_LEN,
                lb >= SUBNET_PREFIX_LEN,
                0 <= i <= SUBNET_PREFIX_LEN,
                forall|j: int| 0 <= j < i ==> a@[j] == b@[j],
            decreases SUBNET_PREFIX_LEN - i,
        {
            if a.get_char(i) != b.get_char(i) {
                assert(a@.take(SUBNET_PREFIX_LEN as int)[i as int] != b@.take(
                    SUBNET_PREFIX_LEN as int,
                )[i as int]);
                return false;
            }
            i = i + 1;
        }
        assert(a@.take(SUBNET_PREFIX_LEN as int) =~= b@.take(SUBNET_PREFIX_LEN as int));
        true
    } else {
        false
    }
}

} // verus!
