use vstd::prelude::*;

verus! {

/// `i` is the position of the first `c` in `s`.
pub open spec fn is_first(s: Seq<char>, c: char, i: int) -> bool {
    &&& 0 <= i < s.len()
    &&& s[i] == c
    &&& forall|k: int| 0 <= k < i ==> s[k] != c
}

/// The host that a cloud-region shorthand `provider:region` stands for:
/// `aws:R` is `ec2.R.amazonaws.com`, `gcp:` is `cloud.google.com` and `gcp:R`
/// is `storage.R.rep.googleapis.com`. Anything else is no shorthand.
pub open spec fn cloud_region_host(q: Seq<char>) -> Option<Seq<char>> {
    if exists|i: int| is_first(q, ':', i) {
        let i = choose|i: int| is_first(q, ':', i);
        let provider = q.subrange(0, i);
        let region = q.subrange(i + 1, q.len() as int);
        if provider == seq!['a', 'w', 's'] {
            Some(seq!['e', 'c', '2', '.'] + region + ".amazonaws.com"@)
        } else if provider == seq!['g', 'c', 'p'] && region.len() == 0 {
            Some("cloud.google.com"@)
        } else if provider == seq!['g', 'c', 'p'] {
            Some("storage."@ + region + ".rep.googleapis.com"@)
        } else {
            None
        }
    } else {
        None
    }
}

/// Position of the first `c` in `s`, if any.
pub fn find_char(s: &str, c: char) -> (r: Option<usize>)
    ensures
        match r {
            Some(i) => is_first(s@, c, i as int),
            None => forall|k: int| 0 <= k < s@.len() ==> s@[k] != c,
        },
{
    let n = s.unicode_len();
    let mut i: usize = 0;
    while i < n
        invariant
            n == s@.len(),
            i <= n,
            forall|k: int| 0 <= k < i ==> s@[k] != c,
        decreases n - i,
    {
        if s.get_char(i) == c {
            return Some(i);
        }
        i += 1;
    }
    None
}

/// Whether `s` spells the three characters `a`, `b`, `c`.
fn is_word3(s: &str, a: char, b: char, c: char) -> (r: bool)
    ensures
        r == (s@ == seq![a, b, c]),
{
    if s.unicode_len() != 3 {
        return false;
    }
    let r = s.get_char(0) == a && s.get_char(1) == b && s.get_char(2) == c;
    assert(r ==> s@ =~= seq![a, b, c]);
    r
}

/// Expands a cloud-region shorthand such as `aws:eu-west-1` into the host
/// name it stands for; `None` when `query` is no such shorthand.
pub fn try_host_from_cloud_region(query: &str) -> (r: Option<String>)
    ensures
        match r {
            Some(h) => cloud_region_host(query@) == Some(h@),
            None => cloud_region_host(query@) is None,
        },
{
    proof {
        reveal_strlit(".amazonaws.com");
        reveal_strlit("cloud.google.com");
        reveal_strlit("storage.");
        reveal_strlit(".rep.googleapis.com");
        reveal_strlit("ec2.");
    }
    let i = match find_char(query, ':') {
        Some(i) => i,
        None => return None,
    };
    proof {
        assert forall|j: int| is_first(query@, ':', j) implies j == i by {
            if j < i {
                assert(query@[j] != ':');
            } else if j > i {
                assert(query@[i as int] != ':');
            }
        }
    }
    let n = query.unicode_len();
    let provider = query.substring_char(0, i);
    let region = query.substring_char(i + 1, n);
    if is_word3(provider, 'a', 'w', 's') {
        let mut host = String::from_str("ec2.");
        host.append(region);
        host.append(".amazonaws.com");
        Some(host)
    } else if is_word3(provider, 'g', 'c', 'p') {
        if region.unicode_len() == 0 {
            Some(String::from_str("cloud.google.com"))
        } else {
            let mut host = String::from_str("storage.");
            host.append(region);
            host.append(".rep.googleapis.com");
            Some(host)
        }
    } else {
        None
    }
}

} // verus!
