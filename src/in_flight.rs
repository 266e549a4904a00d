use vstd::prelude::*;

verus! {

/// How many probes the table keeps waiting for a reply.
pub const IN_FLIGHT_TO_RETAIN: usize = 10;

/// A probe waiting for its reply: its token and when it was sent.
pub type Entry = (Seq<u8>, u64);

/// Index of the first entry with the earliest send time; zero when `s` is
/// empty.
pub open spec fn oldest_index(s: Seq<Entry>) -> int
    decreases s.len(),
{
    if s.len() <= 1 {
        0
    } else {
        let j = oldest_index(s.drop_last());
        if s.last().1 < s[j].1 {
            s.len() - 1
        } else {
            j
        }
    }
}

/// No token occurs twice in `s`.
pub open spec fn unique_tokens(s: Seq<Entry>) -> bool {
    forall|i: int, j: int| 0 <= i < j < s.len() ==> s[i].0 != s[j].0
}

/// `token` occurs in `s`.
pub open spec fn holds_token(s: Seq<Entry>, token: Seq<u8>) -> bool {
    exists|j: int| 0 <= j < s.len() && s[j].0 == token
}

/// The index of `token` in `s`, where `s` holds it.
pub open spec fn token_index(s: Seq<Entry>, token: Seq<u8>) -> int {
    choose|j: int| 0 <= j < s.len() && s[j].0 == token
}

/// The table after recording that `token` was sent at `at`: a token already
/// present gets the new time in place, a new one goes to the end, and when the
/// table then holds more than the bound its oldest entry is evicted.
pub open spec fn after_insert(s: Seq<Entry>, token: Seq<u8>, at: u64) -> Seq<Entry> {
    let t = if holds_token(s, token) {
        s.update(token_index(s, token), (token, at))
    } else {
        s.push((token, at))
    };
    if t.len() > IN_FLIGHT_TO_RETAIN {
        t.remove(oldest_index(t))
    } else {
        t
    }
}

/// The table after recording each `tokens[i]` as sent at `times[i]`, in order.
pub open spec fn after_inserts(s: Seq<Entry>, tokens: Seq<Seq<u8>>, times: Seq<u64>) -> Seq<
    Entry,
>
    recommends
        tokens.len() == times.len(),
    decreases tokens.len(),
{
    if tokens.len() == 0 {
        s
    } else {
        after_insert(
            after_inserts(s, tokens.drop_last(), times.drop_last()),
            tokens.last(),
            times.last(),
        )
    }
}

/// The table after the reply to `token` arrived: its entry leaves.
pub open spec fn after_remove(s: Seq<Entry>, token: Seq<u8>) -> Seq<Entry> {
    if holds_token(s, token) {
        s.remove(token_index(s, token))
    } else {
        s
    }
}

/// The probes that wait for a reply, keyed by the random token that their
/// payload carries, with the time each was sent, in the order they were first
/// recorded. Holds at most `IN_FLIGHT_TO_RETAIN` entries. The entries sit in
/// a short vector rather than a hash map: the bound is small, eviction scans
/// every entry anyway, and the order of the vector decides which of two
/// equally old probes leaves, so the contracts can say exactly which does.
pub struct InFlightTable {
    entries: Vec<(Vec<u8>, u64)>,
}

pub open spec fn entry_view(e: (Vec<u8>, u64)) -> Entry {
    (e.0@, e.1)
}

impl View for InFlightTable {
    type V = Seq<Entry>;

    closed spec fn view(&self) -> Seq<Entry> {
        self.entries@.map_values(|e: (Vec<u8>, u64)| entry_view(e))
    }
}

/// Whether two byte strings are equal.
pub fn bytes_equal(a: &[u8], b: &[u8]) -> (r: bool)
    ensures
        r == (a@ == b@),
{
    if a.len() != b.len() {
        return false;
    }
    let mut i: usize = 0;
    while i < a.len()
        invariant
            a@.len() == b@.len(),
            i <= a@.len(),
            forall|k: int| 0 <= k < i ==> a@[k] == b@[k],
        decreases a@.len() - i,
    {
        if a[i] != b[i] {
            return false;
        }
        i += 1;
    }
    assert(a@ =~= b@);
    true
}

proof fn lemma_token_index_unique(s: Seq<Entry>, token: Seq<u8>, j: int)
    requires
        unique_tokens(s),
        0 <= j < s.len(),
        s[j].0 == token,
    ensures
        holds_token(s, token),
        token_index(s, token) == j,
{
    let k = token_index(s, token);
    if k != j {
        if k < j {
            assert(s[k].0 != s[j].0);
        } else {
            assert(s[j].0 != s[k].0);
        }
    }
}

proof fn lemma_oldest_index_in_range(s: Seq<Entry>)
    requires
        s.len() > 0,
    ensures
        0 <= oldest_index(s) < s.len(),
    decreases s.len(),
{
    if s.len() > 1 {
        lemma_oldest_index_in_range(s.drop_last());
    }
}

proof fn lemma_remove_keeps_unique(s: Seq<Entry>, j: int)
    requires
        unique_tokens(s),
        0 <= j < s.len(),
    ensures
        unique_tokens(s.remove(j)),
{
    let t = s.remove(j);
    assert forall|a: int, b: int| 0 <= a < b < t.len() implies t[a].0 != t[b].0 by {
        let a2 = if a < j { a } else { a + 1 };
        let b2 = if b < j { b } else { b + 1 };
        assert(t[a] == s[a2]);
        assert(t[b] == s[b2]);
    }
}

impl InFlightTable {
    pub closed spec fn wf(&self) -> bool {
        &&& unique_tokens(self@)
        &&& self@.len() <= IN_FLIGHT_TO_RETAIN
    }

    /// An empty table.
    pub fn new() -> (r: Self)
        ensures
            r.wf(),
            r@ == Seq::<Entry>::empty(),
    {
        let r = InFlightTable { entries: Vec::new() };
        assert(r@ =~= Seq::<Entry>::empty());
        r
    }

    /// Number of probes waiting for a reply.
    pub fn len(&self) -> (r: usize)
        ensures
            r == self@.len(),
    {
        self.entries.len()
    }

    /// Position of `token` in the table, if it is there.
    fn position(&self, token: &[u8]) -> (r: Option<usize>)
        requires
            self.wf(),
        ensures
            match r {
                Some(j) => j < self@.len() && holds_token(self@, token@) && token_index(
                    self@,
                    token@,
                ) == j,
                None => !holds_token(self@, token@),
            },
    {
        let mut j: usize = 0;
        while j < self.entries.len()
            invariant
                self.wf(),
                j <= self@.len(),
                self@.len() == self.entries@.len(),
                forall|k: int| 0 <= k < j ==> self@[k].0 != token@,
            decreases self.entries@.len() - j,
        {
            assert(self@[j as int] == entry_view(self.entries@[j as int]));
            if bytes_equal(self.entries[j].0.as_slice(), token) {
                proof {
                    lemma_token_index_unique(self@, token@, j as int);
                }
                return Some(j);
            }
            j += 1;
        }
        None
    }

    /// Index of the first entry with the earliest send time.
    fn oldest(&self) -> (r: usize)
        requires
            self.entries@.len() > 0,
        ensures
            r == oldest_index(self@),
            r < self@.len(),
    {
        let mut best: usize = 0;
        let mut j: usize = 1;
        while j < self.entries.len()
            invariant
                1 <= j <= self@.len(),
                self@.len() == self.entries@.len(),
                best == oldest_index(self@.subrange(0, j as int)),
                best < j,
            decreases self.entries@.len() - j,
        {
            let ghost prefix = self@.subrange(0, j as int + 1);
            assert(prefix.drop_last() =~= self@.subrange(0, j as int));
            assert(self@[j as int] == entry_view(self.entries@[j as int]));
            assert(self@[best as int] == entry_view(self.entries@[best as int]));
            if self.entries[j].1 < self.entries[best].1 {
                best = j;
            }
            j += 1;
        }
        assert(self@.subrange(0, j as int) =~= self@);
        best
    }

    /// Records that the probe carrying `token` was sent at `at`, evicting the
    /// oldest probe when the table would exceed its bound.
    pub fn insert(&mut self, token: Vec<u8>, at: u64)
        requires
            old(self).wf(),
        ensures
            final(self).wf(),
            final(self)@ == after_insert(old(self)@, token@, at),
    {
        let ghost before = self@;
        let ghost tv = token@;
        match self.position(token.as_slice()) {
            Some(j) => {
                let ghost e = self.entries@[j as int];
                self.entries.set(j, (token, at));
                assert(self@ =~= before.update(j as int, (tv, at)));
                assert forall|a: int, b: int| 0 <= a < b < self@.len() implies self@[a].0
                    != self@[b].0 by {
                    if a != j && b != j {
                        assert(before[a].0 != before[b].0);
                    } else if a == j {
                        assert(before[a].0 != before[b].0);
                    } else {
                        assert(before[a].0 != before[b].0);
                    }
                }
            },
            None => {
                self.entries.push((token, at));
                assert(self@ =~= before.push((tv, at)));
                assert forall|a: int, b: int| 0 <= a < b < self@.len() implies self@[a].0
                    != self@[b].0 by {
                    if b == before.len() {
                        assert(before[a].0 != tv);
                    } else {
                        assert(before[a].0 != before[b].0);
                    }
                }
            },
        }
        if self.entries.len() > IN_FLIGHT_TO_RETAIN {
            let ghost full = self@;
            let k = self.oldest();
            proof {
                lemma_remove_keeps_unique(full, k as int);
            }
            self.entries.remove(k);
            assert(self@ =~= full.remove(k as int));
        }
    }

    /// Takes the entry of `token` out of the table and returns when that probe
    /// was sent; `None`, and the table unchanged, when no probe carries it.
    pub fn remove(&mut self, token: &[u8]) -> (r: Option<u64>)
        requires
            old(self).wf(),
        ensures
            final(self).wf(),
            final(self)@ == after_remove(old(self)@, token@),
            match r {
                Some(at) => holds_token(old(self)@, token@) && old(self)@[token_index(
                    old(self)@,
                    token@,
                )].1 == at,
                None => !holds_token(old(self)@, token@),
            },
    {
        let ghost before = self@;
        match self.position(token) {
            Some(j) => {
                assert(before[j as int] == entry_view(self.entries@[j as int]));
                let (_, at) = self.entries.remove(j);
                proof {
                    lemma_remove_keeps_unique(before, j as int);
                }
                assert(self@ =~= before.remove(j as int));
                Some(at)
            },
            None => None,
        }
    }
}

/// Send times that rise strictly along `s`.
pub open spec fn rising_times(s: Seq<Entry>) -> bool {
    forall|i: int, j: int| 0 <= i < j < s.len() ==> s[i].1 < s[j].1
}

proof fn lemma_oldest_of_rising(s: Seq<Entry>)
    requires
        rising_times(s),
    ensures
        oldest_index(s) == 0,
    decreases s.len(),
{
    if s.len() > 1 {
        lemma_oldest_of_rising(s.drop_last());
    }
}

/// Inserting distinct tokens with strictly rising send times into an empty
/// table leaves it holding no more than the bound, and exactly the most
/// recently inserted tokens with their times, in insertion order.
pub proof fn lemma_in_flight_keeps_newest(tokens: Seq<Seq<u8>>, times: Seq<u64>)
    requires
        tokens.len() == times.len(),
        forall|i: int, j: int| 0 <= i < j < tokens.len() ==> tokens[i] != tokens[j],
        forall|i: int, j: int| 0 <= i < j < times.len() ==> times[i] < times[j],
    ensures
        ({
            let s = after_inserts(Seq::empty(), tokens, times);
            let n = tokens.len() as int;
            let kept = if n < IN_FLIGHT_TO_RETAIN {
                n
            } else {
                IN_FLIGHT_TO_RETAIN as int
            };
            &&& s.len() == kept
            &&& s.len() <= IN_FLIGHT_TO_RETAIN
            &&& forall|k: int| 0 <= k < kept ==> #[trigger] s[k] == (tokens[n - kept + k], times[n - kept + k])
        }),
    decreases tokens.len(),
{
    let n = tokens.len() as int;
    if n > 0 {
        let pt = tokens.drop_last();
        let pm = times.drop_last();
        lemma_in_flight_keeps_newest(pt, pm);
        let prev = after_inserts(Seq::empty(), pt, pm);
        let m = n - 1;
        let kept_prev = if m < IN_FLIGHT_TO_RETAIN {
            m
        } else {
            IN_FLIGHT_TO_RETAIN as int
        };
        assert forall|k: int| 0 <= k < kept_prev implies #[trigger] prev[k] == (
            tokens[m - kept_prev + k],
            times[m - kept_prev + k],
        ) by {
            assert(prev[k] == (pt[m - kept_prev + k], pm[m - kept_prev + k]));
        }
        assert(!holds_token(prev, tokens.last())) by {
            if holds_token(prev, tokens.last()) {
                let j = choose|j: int| 0 <= j < prev.len() && prev[j].0 == tokens.last();
                assert(tokens[m - kept_prev + j] != tokens[n - 1]);
            }
        }
        let t = prev.push((tokens.last(), times.last()));
        if t.len() > IN_FLIGHT_TO_RETAIN {
            assert(rising_times(t)) by {
                assert forall|i: int, j: int| 0 <= i < j < t.len() implies t[i].1 < t[j].1 by {
                    if j < prev.len() {
                        assert(prev[i].1 == times[m - kept_prev + i]);
                        assert(prev[j].1 == times[m - kept_prev + j]);
                    } else {
                        assert(prev[i].1 == times[m - kept_prev + i]);
                    }
                }
            }
            lemma_oldest_of_rising(t);
        }
    }
}

} // verus!
