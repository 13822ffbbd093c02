//! Local records keyed by Track content, steering policy and discipline.
//!
//! Times are IEEE binary32 seconds carried as bit patterns. A record is
//! only ever a positive finite time, and among positive finite binary32
//! values the order of the bit patterns, read as unsigned integers, is the
//! order of the times; so "faster" is decided exactly on the bits.

use vstd::prelude::*;

use crate::binary32::{bits_lt, bits_positive_finite, float_lt, is_positive_finite};
use crate::controls::SteeringResponse;
use crate::text::{hex16, hex_digits, hex_digits_are_injective, pow16};
use crate::track::str_eq;

verus! {

/// FNV-1a 64-bit offset basis.
pub const FNV_OFFSET: u64 = 0xcbf29ce484222325;

/// FNV-1a 64-bit prime.
pub const FNV_PRIME: u64 = 0x100000001b3;

/// One FNV-1a step: xor in the byte, multiply by the prime modulo 2^64.
pub open spec fn fnv1a_step(hash: u64, b: u8) -> u64 {
    (((hash ^ (b as u64)) as nat * FNV_PRIME as nat) % 0x1_0000_0000_0000_0000nat) as u64
}

/// FNV-1a 64 of a byte string.
pub open spec fn fnv1a_spec(bytes: Seq<u8>) -> u64
    decreases bytes.len(),
{
    if bytes.len() == 0 {
        FNV_OFFSET
    } else {
        fnv1a_step(fnv1a_spec(bytes.drop_last()), bytes.last())
    }
}

/// Deterministic FNV-1a 64 over `bytes`, the Track identity's hash.
pub fn fnv1a(bytes: &[u8]) -> (hash: u64)
    ensures
        hash == fnv1a_spec(bytes@),
{
    let mut hash: u64 = FNV_OFFSET;
    let mut i: usize = 0;
    while i < bytes.len()
        invariant
            i <= bytes@.len(),
            hash == fnv1a_spec(bytes@.take(i as int)),
        decreases bytes@.len() - i,
    {
        proof {
            assert(bytes@.take(i + 1).drop_last() =~= bytes@.take(i as int));
        }
        hash = (hash ^ bytes[i] as u64).wrapping_mul(FNV_PRIME);
        i = i + 1;
    }
    assert(bytes@.take(bytes@.len() as int) =~= bytes@);
    hash
}

/// The Corner Practice challenge's identifier inside practice keys.
pub const PRACTICE_CHALLENGE_ID: &'static str = "hillside-braking-transition-v1";

/// `race:<identity>:handling1:manual-flying-gate2:<steering>`.
pub open spec fn race_key_text(identity: u64, steering: SteeringResponse) -> Seq<char> {
    "race:"@ + hex_digits(identity as nat, 16) + ":handling1:manual-flying-gate2:"@
        + steering.spec_key_name()
}

/// `practice:<challenge>:<identity>:handling1:manual-section1:<steering>`.
pub open spec fn practice_key_text(identity: u64, steering: SteeringResponse) -> Seq<char> {
    "practice:"@ + PRACTICE_CHALLENGE_ID@ + ":"@ + hex_digits(identity as nat, 16)
        + ":handling1:manual-section1:"@ + steering.spec_key_name()
}

/// The record key of a race flying lap on a Track of the given identity.
pub fn race_key(identity: u64, steering: SteeringResponse) -> (key: String)
    ensures
        key@ == race_key_text(identity, steering),
{
    let mut key = String::from_str("race:");
    key.append(hex16(identity).as_str());
    key.append(":handling1:manual-flying-gate2:");
    key.append(steering.key_name());
    key
}

/// The record key of a Corner Practice section on a Track of the given
/// identity.
pub fn record_key(identity: u64, steering: SteeringResponse) -> (key: String)
    ensures
        key@ == practice_key_text(identity, steering),
{
    let mut key = String::from_str("practice:");
    key.append(PRACTICE_CHALLENGE_ID);
    key.append(":");
    key.append(hex16(identity).as_str());
    key.append(":handling1:manual-section1:");
    key.append(steering.key_name());
    key
}

/// No key occurs twice among the entries.
pub open spec fn keys_unique(s: Seq<(String, u32)>) -> bool {
    forall|i: int, j: int| 0 <= i < j < s.len() ==> (#[trigger] s[i]).0@ != (#[trigger] s[j]).0@
}

/// The entries as a map from key text to time bits.
pub open spec fn book_map(s: Seq<(String, u32)>) -> Map<Seq<char>, u32>
    decreases s.len(),
{
    if s.len() == 0 {
        Map::empty()
    } else {
        book_map(s.drop_last()).insert(s.last().0@, s.last().1)
    }
}

proof fn lemma_lookup(s: Seq<(String, u32)>, i: int)
    requires
        keys_unique(s),
        0 <= i < s.len(),
    ensures
        book_map(s).contains_key(s[i].0@),
        book_map(s)[s[i].0@] == s[i].1,
    decreases s.len(),
{
    if i < s.len() - 1 {
        assert(s.drop_last()[i] == s[i]);
        lemma_lookup(s.drop_last(), i);
        assert(s[i].0@ != s[s.len() - 1].0@);
    }
}

proof fn lemma_absent(s: Seq<(String, u32)>, k: Seq<char>)
    requires
        forall|i: int| 0 <= i < s.len() ==> (#[trigger] s[i]).0@ != k,
    ensures
        !book_map(s).contains_key(k),
    decreases s.len(),
{
    if s.len() > 0 {
        assert forall|i: int| 0 <= i < s.drop_last().len() implies (
        #[trigger] s.drop_last()[i]).0@ != k by {
            assert(s.drop_last()[i] == s[i]);
        }
        lemma_absent(s.drop_last(), k);
        assert(s[s.len() - 1].0@ != k);
    }
}

proof fn lemma_update(s: Seq<(String, u32)>, i: int, v: u32)
    requires
        keys_unique(s),
        0 <= i < s.len(),
    ensures
        book_map(s.update(i, (s[i].0, v))) == book_map(s).insert(s[i].0@, v),
    decreases s.len(),
{
    let t = s.update(i, (s[i].0, v));
    if i == s.len() - 1 {
        assert(t.drop_last() =~= s.drop_last());
        assert(book_map(t) =~= book_map(s).insert(s[i].0@, v));
    } else {
        assert(t.drop_last() =~= s.drop_last().update(i, (s[i].0, v)));
        assert(s.drop_last()[i] == s[i]);
        assert(keys_unique(s.drop_last()));
        lemma_update(s.drop_last(), i, v);
        assert(s[i].0@ != s[s.len() - 1].0@);
        assert(book_map(t) =~= book_map(s).insert(s[i].0@, v));
    }
}

proof fn lemma_same_views(s: Seq<(String, u32)>, t: Seq<(String, u32)>)
    requires
        s.len() == t.len(),
        forall|i: int| 0 <= i < s.len() ==> (#[trigger] s[i]).0@ == t[i].0@ && s[i].1 == t[i].1,
    ensures
        book_map(s) == book_map(t),
    decreases s.len(),
{
    if s.len() > 0 {
        assert forall|i: int| 0 <= i < s.drop_last().len() implies (
        #[trigger] s.drop_last()[i]).0@ == t.drop_last()[i].0@ && s.drop_last()[i].1
            == t.drop_last()[i].1 by {
            assert(s.drop_last()[i] == s[i] && t.drop_last()[i] == t[i]);
        }
        lemma_same_views(s.drop_last(), t.drop_last());
        assert(s.last().0@ == t.last().0@ && s.last().1 == t.last().1);
    }
}

/// The best stored time under a key: only a positive finite time counts.
pub open spec fn best_in(book: Map<Seq<char>, u32>, key: Seq<char>) -> Option<u32> {
    if book.contains_key(key) && is_positive_finite(book[key]) {
        Some(book[key])
    } else {
        None
    }
}

/// A time is accepted as a record when the lap is eligible, the time is
/// positive and finite, and no stored record under the key is as fast.
pub open spec fn improves(book: Map<Seq<char>, u32>, key: Seq<char>, seconds: u32, eligible: bool) -> bool {
    &&& eligible
    &&& is_positive_finite(seconds)
    &&& match best_in(book, key) {
        Some(best) => seconds < best,
        None => true,
    }
}

/// Best times by record key.
pub struct RecordBook {
    entries: Vec<(String, u32)>,
}

impl View for RecordBook {
    type V = Map<Seq<char>, u32>;

    closed spec fn view(&self) -> Map<Seq<char>, u32> {
        book_map(self.entries@)
    }
}

impl Default for RecordBook {
    fn default() -> (book: RecordBook)
        ensures
            book.well_formed(),
            book@ == Map::<Seq<char>, u32>::empty(),
    {
        RecordBook::new()
    }
}

impl RecordBook {
    pub closed spec fn well_formed(&self) -> bool {
        keys_unique(self.entries@)
    }

    /// An empty book.
    pub fn new() -> (book: RecordBook)
        ensures
            book.well_formed(),
            book@ == Map::<Seq<char>, u32>::empty(),
    {
        RecordBook { entries: Vec::new() }
    }

    /// The index of the entry under `key`, if there is one.
    fn find(&self, key: &str) -> (r: Option<usize>)
        requires
            self.well_formed(),
        ensures
            r matches Some(i) ==> i < self.entries@.len() && self.entries@[i as int].0@ == key@,
            r is None ==> !self@.contains_key(key@),
            r is None ==> forall|j: int|
                0 <= j < self.entries@.len() ==> (#[trigger] self.entries@[j]).0@ != key@,
    {
        let mut i: usize = 0;
        while i < self.entries.len()
            invariant
                i <= self.entries@.len(),
                forall|j: int| 0 <= j < i ==> (#[trigger] self.entries@[j]).0@ != key@,
            decreases self.entries@.len() - i,
        {
            if str_eq(self.entries[i].0.as_str(), key) {
                return Some(i);
            }
            i = i + 1;
        }
        proof {
            lemma_absent(self.entries@, key@);
        }
        None
    }

    /// The best time stored under `key`, if it is a positive finite time.
    pub fn best(&self, key: &str) -> (r: Option<u32>)
        requires
            self.well_formed(),
        ensures
            r == best_in(self@, key@),
    {
        match self.find(key) {
            Some(i) => {
                proof {
                    lemma_lookup(self.entries@, i as int);
                }
                let v = self.entries[i].1;
                if bits_positive_finite(v) {
                    Some(v)
                } else {
                    None
                }
            },
            None => None,
        }
    }

    /// Stores `value` under `key` as read back from storage, replacing
    /// whatever was there.
    pub fn restore(&mut self, key: String, value: u32)
        requires
            old(self).well_formed(),
        ensures
            final(self).well_formed(),
            final(self)@ == old(self)@.insert(key@, value),
    {
        match self.find(key.as_str()) {
            Some(i) => {
                let ghost before = self.entries@;
                let ghost k = key@;
                self.entries.set(i, (key, value));
                proof {
                    let u = before.update(i as int, (before[i as int].0, value));
                    assert forall|j: int| 0 <= j < self.entries@.len() implies (
                    #[trigger] self.entries@[j]).0@ == u[j].0@ && self.entries@[j].1 == u[j].1 by {
                        if j == i {
                            assert(self.entries@[j].0@ == k);
                        }
                    }
                    lemma_update(before, i as int, value);
                    lemma_same_views(self.entries@, u);
                    assert forall|a: int, b: int| 0 <= a < b < self.entries@.len() implies (
                    #[trigger] self.entries@[a]).0@ != (#[trigger] self.entries@[b]).0@ by {
                        assert(before[a].0@ != before[b].0@);
                    }
                }
            },
            None => {
                let ghost before = self.entries@;
                self.entries.push((key, value));
                proof {
                    assert(self.entries@.drop_last() =~= before);
                    assert forall|a: int, b: int| 0 <= a < b < self.entries@.len() implies (
                    #[trigger] self.entries@[a]).0@ != (#[trigger] self.entries@[b]).0@ by {
                        if b < before.len() {
                            assert(before[a].0@ != before[b].0@);
                        } else {
                            assert(before[a].0@ != key@);
                        }
                    }
                }
            },
        }
    }

    /// Offers a lap time for `key`: it becomes the record, and `true` is
    /// returned, exactly when it improves on the book; otherwise the book
    /// is unchanged.
    pub fn consider(&mut self, key: &str, seconds: u32, eligible: bool) -> (accepted: bool)
        requires
            old(self).well_formed(),
        ensures
            final(self).well_formed(),
            accepted == improves(old(self)@, key@, seconds, eligible),
            accepted ==> final(self)@ == old(self)@.insert(key@, seconds),
            !accepted ==> final(self)@ == old(self)@,
    {
        if !eligible || !bits_positive_finite(seconds) {
            return false;
        }
        match self.best(key) {
            Some(best) => {
                if best <= seconds {
                    return false;
                }
            },
            None => {},
        }
        self.restore(String::from_str(key), seconds);
        true
    }

    /// The entries, for storage: every key once, with its time bits.
    pub fn entries(&self) -> (r: Vec<(String, u32)>)
        requires
            self.well_formed(),
        ensures
            keys_unique(r@),
            book_map(r@) == self@,
    {
        let mut r: Vec<(String, u32)> = Vec::new();
        let mut i: usize = 0;
        while i < self.entries.len()
            invariant
                i <= self.entries@.len(),
                keys_unique(self.entries@),
                r@.len() == i,
                forall|j: int|
                    0 <= j < i ==> (#[trigger] r@[j]).0@ == self.entries@[j].0@ && r@[j].1
                        == self.entries@[j].1,
            decreases self.entries@.len() - i,
        {
            let k = self.entries[i].0.clone();
            r.push((k, self.entries[i].1));
            i = i + 1;
        }
        proof {
            lemma_same_views(r@, self.entries@);
        }
        r
    }
}

/// An ineligible lap (assisted, recovered, or from the grid) can neither
/// create nor replace a record, however fast it is.
pub proof fn ineligible_laps_never_record(book: Map<Seq<char>, u32>, key: Seq<char>, seconds: u32)
    ensures
        !improves(book, key, seconds, false),
{
}

/// Accepting a time makes it the record under its key, strictly faster
/// than the one it replaces; records under every other key stay as they
/// were, so identities and configurations never share a record.
pub proof fn records_only_improve(
    book: Map<Seq<char>, u32>,
    key: Seq<char>,
    seconds: u32,
    eligible: bool,
    other: Seq<char>,
)
    requires
        improves(book, key, seconds, eligible),
        other != key,
    ensures
        best_in(book.insert(key, seconds), key) == Some(seconds),
        best_in(book, key) matches Some(previous) ==> seconds < previous,
        best_in(book.insert(key, seconds), other) == best_in(book, other),
{
}

proof fn lemma_hex16_len(n: u64)
    ensures
        hex_digits(n as nat, 16).len() == 16,
{
    assert(hex_digits(n as nat, 16).len() == 16) by {
        reveal_with_fuel(hex_digits, 17);
    }
}

proof fn lemma_pow16_bound()
    ensures
        pow16(16) == 0x1_0000_0000_0000_0000nat,
{
    reveal_with_fuel(pow16, 17);
}

proof fn lemma_key_name_len(s: SteeringResponse)
    ensures
        s.spec_key_name().len() == (if s == SteeringResponse::Raw { 3int } else { 6int }),
{
    reveal_strlit("Raw");
    reveal_strlit("Smooth");
}

proof fn lemma_race_key_parts(a: u64, s: SteeringResponse)
    ensures
        race_key_text(a, s).len() == 52 + s.spec_key_name().len(),
        race_key_text(a, s).subrange(5, 21) == hex_digits(a as nat, 16),
        race_key_text(a, s)[0] == 'r',
{
    reveal_strlit("race:");
    reveal_strlit(":handling1:manual-flying-gate2:");
    lemma_hex16_len(a);
    assert(race_key_text(a, s).subrange(5, 21) =~= hex_digits(a as nat, 16));
}

proof fn lemma_practice_key_parts(a: u64, s: SteeringResponse)
    ensures
        practice_key_text(a, s).len() == 83 + s.spec_key_name().len(),
        practice_key_text(a, s).subrange(40, 56) == hex_digits(a as nat, 16),
        practice_key_text(a, s)[0] == 'p',
{
    reveal_strlit("practice:");
    reveal_strlit("hillside-braking-transition-v1");
    reveal_strlit(":");
    reveal_strlit(":handling1:manual-section1:");
    lemma_hex16_len(a);
    assert(practice_key_text(a, s).subrange(40, 56) =~= hex_digits(a as nat, 16));
}

/// Record keys never collide: two race keys, or two practice keys, are
/// equal only for the same Track identity and steering policy; and no race
/// key is a practice key. Records of different Tracks or configurations
/// are therefore always kept apart.
pub proof fn record_keys_are_distinct(a: u64, b: u64, sa: SteeringResponse, sb: SteeringResponse)
    ensures
        race_key_text(a, sa) == race_key_text(b, sb) ==> a == b && sa == sb,
        practice_key_text(a, sa) == practice_key_text(b, sb) ==> a == b && sa == sb,
        race_key_text(a, sa) != practice_key_text(b, sb),
{
    lemma_race_key_parts(a, sa);
    lemma_race_key_parts(b, sb);
    lemma_practice_key_parts(a, sa);
    lemma_practice_key_parts(b, sb);
    lemma_key_name_len(sa);
    lemma_key_name_len(sb);
    lemma_pow16_bound();
    if race_key_text(a, sa) == race_key_text(b, sb) {
        hex_digits_are_injective(a as nat, b as nat, 16);
    }
    if practice_key_text(a, sa) == practice_key_text(b, sb) {
        hex_digits_are_injective(a as nat, b as nat, 16);
    }
}


/// The legacy best-lap file keeps one time: a candidate replaces it when
/// none is stored or when it is faster (IEEE `<` on the encoded seconds).
pub open spec fn replaces_legacy(candidate: u32, best: Option<u32>) -> bool {
    match best {
        None => true,
        Some(b) => float_lt(candidate, b),
    }
}

/// Whether `candidate` replaces the stored legacy best lap `best` (seconds
/// as binary32 patterns).
pub fn replaces_legacy_best(candidate: u32, best: Option<u32>) -> (r: bool)
    ensures
        r == replaces_legacy(candidate, best),
{
    match best {
        None => true,
        Some(b) => bits_lt(candidate, b),
    }
}

} // verus!
