use crate::text::{decimal, hex, push_decimal, push_hex};
use vstd::prelude::*;

verus! {

/// Which address family a host name should resolve to.
#[derive(Debug, Copy, Clone, PartialEq, Eq, Structural)]
pub enum IPVersion {
    V4,
    V6,
    Any,
}

/// An IP address: IPv4 as a 32-bit and IPv6 as a 128-bit big-endian number.
#[derive(Debug, Copy, Clone, PartialEq, Eq, Structural)]
pub enum IpAddress {
    V4(u32),
    V6(u128),
}

/// Why a target did not resolve to an address.
#[derive(Debug, Copy, Clone, PartialEq, Eq, Structural)]
pub enum ResolveError {
    /// The resolver returned no address at all.
    NoAddress,
    /// No address of the wanted family was among those returned.
    NoMatchingFamily,
}

/// What is being probed: an address, or a host name resolved when probing,
/// with the family its address should have.
#[derive(Debug, Clone)]
pub enum Target {
    IP(IpAddress),
    Hostname { domain: String, version: IPVersion },
}

/// `ip` belongs to the family that `version` asks for.
pub open spec fn family_matches(ip: IpAddress, version: IPVersion) -> bool {
    match version {
        IPVersion::Any => true,
        IPVersion::V4 => ip is V4,
        IPVersion::V6 => ip is V6,
    }
}

/// The first of `candidates` that belongs to `version`'s family.
pub open spec fn select_spec(candidates: Seq<IpAddress>, version: IPVersion) -> Result<
    IpAddress,
    ResolveError,
> {
    if version == IPVersion::Any && candidates.len() == 0 {
        Err(ResolveError::NoAddress)
    } else if exists|i: int| 0 <= i < candidates.len() && family_matches(candidates[i], version) {
        let i = choose|i: int|
            0 <= i < candidates.len() && family_matches(candidates[i], version) && forall|k: int|
                0 <= k < i ==> !family_matches(#[trigger] candidates[k], version);
        Ok(candidates[i])
    } else {
        Err(ResolveError::NoMatchingFamily)
    }
}

/// Picks, among the addresses a host name resolved to, the first of the
/// wanted family: any family takes the first address.
pub fn select_address(candidates: &Vec<IpAddress>, version: IPVersion) -> (r: Result<
    IpAddress,
    ResolveError,
>)
    ensures
        r == select_spec(candidates@, version),
{
    if version == IPVersion::Any && candidates.len() == 0 {
        return Err(ResolveError::NoAddress);
    }
    let mut i: usize = 0;
    while i < candidates.len()
        invariant
            i <= candidates@.len(),
            forall|k: int| 0 <= k < i ==> !family_matches(#[trigger] candidates@[k], version),
        decreases candidates@.len() - i,
    {
        let ip = candidates[i];
        let ok = match version {
            IPVersion::Any => true,
            IPVersion::V4 => match ip {
                IpAddress::V4(_) => true,
                _ => false,
            },
            IPVersion::V6 => match ip {
                IpAddress::V6(_) => true,
                _ => false,
            },
        };
        if ok {
            proof {
                let c = candidates@;
                let j = choose|j: int|
                    0 <= j < c.len() && family_matches(c[j], version) && forall|k: int|
                        0 <= k < j ==> !family_matches(#[trigger] c[k], version);
                assert(0 <= i < c.len() && family_matches(c[i as int], version) && forall|k: int|
                    0 <= k < i ==> !family_matches(#[trigger] c[k], version));
                if j < i {
                    assert(!family_matches(c[j], version));
                } else if j > i {
                    assert(!family_matches(c[i as int], version));
                }
            }
            return Ok(ip);
        }
        i += 1;
    }
    Err(ResolveError::NoMatchingFamily)
}

/// `ip` written out: IPv4 in dotted decimal, IPv6 as eight colon-separated
/// groups in lower-case hexadecimal.
pub open spec fn ip_text(ip: IpAddress) -> Seq<char> {
    match ip {
        IpAddress::V4(x) => decimal((x / 0x100_0000) as nat) + seq!['.'] + decimal(
            ((x / 0x1_0000) % 256) as nat,
        ) + seq!['.'] + decimal(((x / 256) % 256) as nat) + seq!['.'] + decimal(
            (x % 256) as nat,
        ),
        IpAddress::V6(x) => v6_groups(x, 8),
    }
}

/// The first `n` groups of an IPv6 address, each in hexadecimal, separated by
/// colons.
pub open spec fn v6_groups(x: u128, n: nat) -> Seq<char>
    decreases n,
{
    if n <= 1 {
        hex(v6_group(x, 0))
    } else {
        v6_groups(x, (n - 1) as nat) + seq![':'] + hex(v6_group(x, n - 1))
    }
}

/// Group `i` (from the left) of an IPv6 address.
pub open spec fn v6_group(x: u128, i: int) -> nat {
    ((x as nat / pow65536(7 - i)) % 65536) as nat
}

pub open spec fn pow65536(n: int) -> nat
    decreases n,
{
    if n <= 0 {
        1
    } else {
        65536 * pow65536(n - 1)
    }
}

impl IpAddress {
    /// The address written out as `ip_text` says.
    pub fn to_text(&self) -> (r: String)
        ensures
            r@ == ip_text(*self),
    {
        proof {
            reveal_strlit(".");
            reveal_strlit(":");
        }
        let mut out = String::new();
        match *self {
            IpAddress::V4(x) => {
                push_decimal(&mut out, (x / 0x100_0000) as u64);
                out.append(".");
                push_decimal(&mut out, ((x / 0x1_0000) % 256) as u64);
                out.append(".");
                push_decimal(&mut out, ((x / 256) % 256) as u64);
                out.append(".");
                push_decimal(&mut out, (x % 256) as u64);
                assert(out@ =~= ip_text(*self));
            },
            IpAddress::V6(x) => {
                let mut shift: u128 = 0x1_0000_0000_0000_0000_0000_0000_0000;
                let mut i: usize = 0;
                proof {
                    reveal_with_fuel(pow65536, 8);
                }
                while i < 8
                    invariant
                        i <= 8,
                        shift as nat == pow65536(7 - i),
                        i > 0 ==> out@ == v6_groups(x, i as nat),
                        i == 0 ==> out@.len() == 0,
                    decreases 8 - i,
                {
                    proof {
                        reveal_with_fuel(pow65536, 8);
                        reveal_strlit(":");
                    }
                    if i > 0 {
                        out.append(":");
                    }
                    push_hex(&mut out, ((x / shift) % 65536) as u64);
                    proof {
                        if i == 0 {
                            assert(out@ =~= v6_groups(x, 1));
                        } else {
                            assert(out@ =~= v6_groups(x, (i + 1) as nat));
                        }
                    }
                    if i < 7 {
                        shift = shift / 65536;
                    }
                    i += 1;
                }
            },
        }
        out
    }
}

impl Target {
    /// Whether probes should use IPv6: an IPv6 address, or a host name that
    /// must resolve to one.
    pub fn is_ipv6(&self) -> (r: bool)
        ensures
            r == match self {
                Target::IP(ip) => ip is V6,
                Target::Hostname { version, .. } => *version == IPVersion::V6,
            },
    {
        match self {
            Target::IP(IpAddress::V6(_)) => true,
            Target::IP(_) => false,
            Target::Hostname { version, .. } => *version == IPVersion::V6,
        }
    }

    /// The target for `value` with any family: the address when `value` is an
    /// address literal (`literal` holds what it parses to), else the host
    /// name.
    pub fn new_any(value: String, literal: Option<IpAddress>) -> (r: Target)
        ensures
            r == target_of(value, literal, IPVersion::Any),
    {
        Self::of_family(value, literal, IPVersion::Any)
    }

    /// As `new_any`, for IPv4: only an IPv4 literal becomes an address.
    pub fn new_ipv4(value: String, literal: Option<IpAddress>) -> (r: Target)
        ensures
            r == target_of(value, literal, IPVersion::V4),
    {
        Self::of_family(value, literal, IPVersion::V4)
    }

    /// As `new_any`, for IPv6: only an IPv6 literal becomes an address.
    pub fn new_ipv6(value: String, literal: Option<IpAddress>) -> (r: Target)
        ensures
            r == target_of(value, literal, IPVersion::V6),
    {
        Self::of_family(value, literal, IPVersion::V6)
    }

    fn of_family(value: String, literal: Option<IpAddress>, version: IPVersion) -> (r: Target)
        ensures
            r == target_of(value, literal, version),
    {
        match literal {
            Some(ip) => {
                let fits = match version {
                    IPVersion::Any => true,
                    IPVersion::V4 => match ip {
                        IpAddress::V4(_) => true,
                        _ => false,
                    },
                    IPVersion::V6 => match ip {
                        IpAddress::V6(_) => true,
                        _ => false,
                    },
                };
                if fits {
                    Target::IP(ip)
                } else {
                    Target::Hostname { domain: value, version }
                }
            },
            None => Target::Hostname { domain: value, version },
        }
    }

    /// Where to send probes: an address target is its address; a host name
    /// takes, among `candidates` (what the resolver returned for it), the
    /// first of its family. A host name that must be IPv6 never takes an IPv4
    /// address.
    pub fn resolve_with(&self, candidates: &Vec<IpAddress>) -> (r: Result<IpAddress, ResolveError>)
        ensures
            r == match self {
                Target::IP(ip) => Ok(*ip),
                Target::Hostname { version, .. } => select_spec(candidates@, *version),
            },
            self matches Target::Hostname { version, .. } && version == IPVersion::V6 && (forall|
                i: int,
            |
                0 <= i < candidates@.len() ==> candidates@[i] is V4) ==> r == Err::<
                IpAddress,
                ResolveError,
            >(ResolveError::NoMatchingFamily),
    {
        match self {
            Target::IP(ip) => Ok(*ip),
            Target::Hostname { version, .. } => select_address(candidates, *version),
        }
    }

    /// The target as text: the address written out, or the host name.
    pub fn to_text(&self) -> (r: String)
        ensures
            r@ == match self {
                Target::IP(ip) => ip_text(*ip),
                Target::Hostname { domain, .. } => domain@,
            },
    {
        match self {
            Target::IP(ip) => ip.to_text(),
            Target::Hostname { domain, .. } => domain.clone(),
        }
    }
}

/// The target that `value` names for `version`: its address when it is a
/// literal of the wanted family, else a host name.
pub open spec fn target_of(value: String, literal: Option<IpAddress>, version: IPVersion) -> Target {
    match literal {
        Some(ip) => if family_matches(ip, version) {
            Target::IP(ip)
        } else {
            Target::Hostname { domain: value, version }
        },
        None => Target::Hostname { domain: value, version },
    }
}

} // verus!
