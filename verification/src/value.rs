//! The polymorphic value kernel: every stat value is one of a closed set of
//! kinds — the ten integer widths, a non-negative duration, or a tagged table
//! of counters for user-defined stats. A value's kind is part of the value,
//! and addition and subtraction are no-ops across kinds.

use vstd::prelude::*;

use crate::assoc::{
    assoc_find, assoc_map, index_of_key, keys_unique, lemma_assoc_push, lemma_assoc_update,
    lemma_key_at, lemma_no_key,
};

verus! {

pub const NANOS_PER_SEC: u32 = 1_000_000_000;

/// The largest duration that a `DurationValue` can hold, in nanoseconds.
pub open spec fn duration_max_nanos() -> int {
    u64::MAX * 1_000_000_000 + 999_999_999
}

/// The mathematical model of a stat value.
#[verifier::ext_equal]
pub enum ValueView {
    U8(u8),
    U16(u16),
    U32(u32),
    U64(u64),
    U128(u128),
    I8(i8),
    I16(i16),
    I32(i32),
    I64(i64),
    I128(i128),
    /// A span of time as a count of nanoseconds.
    Duration(int),
    /// A user-defined stat: a tag naming the user's kind and a table of
    /// named counters.
    Custom { tag: Seq<char>, entries: Map<Seq<char>, u64> },
}

/// The runtime kind of a stat value. Two table values share a kind only when
/// their tags agree.
pub enum KindView {
    U8,
    U16,
    U32,
    U64,
    U128,
    I8,
    I16,
    I32,
    I64,
    I128,
    Duration,
    Custom(Seq<char>),
}

pub open spec fn kind_of(v: ValueView) -> KindView {
    match v {
        ValueView::U8(_) => KindView::U8,
        ValueView::U16(_) => KindView::U16,
        ValueView::U32(_) => KindView::U32,
        ValueView::U64(_) => KindView::U64,
        ValueView::U128(_) => KindView::U128,
        ValueView::I8(_) => KindView::I8,
        ValueView::I16(_) => KindView::I16,
        ValueView::I32(_) => KindView::I32,
        ValueView::I64(_) => KindView::I64,
        ValueView::I128(_) => KindView::I128,
        ValueView::Duration(_) => KindView::Duration,
        ValueView::Custom { tag, .. } => KindView::Custom(tag),
    }
}

/// The additive identity of each kind.
pub open spec fn zero_of(k: KindView) -> ValueView {
    match k {
        KindView::U8 => ValueView::U8(0),
        KindView::U16 => ValueView::U16(0),
        KindView::U32 => ValueView::U32(0),
        KindView::U64 => ValueView::U64(0),
        KindView::U128 => ValueView::U128(0),
        KindView::I8 => ValueView::I8(0),
        KindView::I16 => ValueView::I16(0),
        KindView::I32 => ValueView::I32(0),
        KindView::I64 => ValueView::I64(0),
        KindView::I128 => ValueView::I128(0),
        KindView::Duration => ValueView::Duration(0),
        KindView::Custom(tag) => ValueView::Custom { tag, entries: Map::empty() },
    }
}

/// A duration stays in range; other kinds carry no constraint beyond their type.
pub open spec fn view_wf(v: ValueView) -> bool {
    match v {
        ValueView::Duration(n) => 0 <= n <= duration_max_nanos(),
        _ => true,
    }
}

pub open spec fn clamp_i8(x: int) -> i8 {
    if x > i8::MAX {
        i8::MAX
    } else if x < i8::MIN {
        i8::MIN
    } else {
        x as i8
    }
}

pub open spec fn clamp_i16(x: int) -> i16 {
    if x > i16::MAX {
        i16::MAX
    } else if x < i16::MIN {
        i16::MIN
    } else {
        x as i16
    }
}

pub open spec fn clamp_i32(x: int) -> i32 {
    if x > i32::MAX {
        i32::MAX
    } else if x < i32::MIN {
        i32::MIN
    } else {
        x as i32
    }
}

pub open spec fn clamp_i64(x: int) -> i64 {
    if x > i64::MAX {
        i64::MAX
    } else if x < i64::MIN {
        i64::MIN
    } else {
        x as i64
    }
}

pub open spec fn clamp_i128(x: int) -> i128 {
    if x > i128::MAX {
        i128::MAX
    } else if x < i128::MIN {
        i128::MIN
    } else {
        x as i128
    }
}

pub open spec fn dur_sat_add(a: int, b: int) -> int {
    if a + b > duration_max_nanos() {
        duration_max_nanos()
    } else {
        a + b
    }
}

pub open spec fn dur_sat_sub(a: int, b: int) -> int {
    if a - b < 0 {
        0
    } else {
        a - b
    }
}

pub open spec fn entry_or_zero(m: Map<Seq<char>, u64>, k: Seq<char>) -> u64 {
    if m.contains_key(k) {
        m[k]
    } else {
        0
    }
}

/// Merging tables by key-wise saturating addition: every key of `m2` is
/// added onto `m1`'s entry for it (zero when absent), other keys keep
/// their `m1` value.
pub open spec fn merge_add_maps(
    m1: Map<Seq<char>, u64>,
    m2: Map<Seq<char>, u64>,
) -> Map<Seq<char>, u64> {
    Map::new(
        |k: Seq<char>| m1.contains_key(k) || m2.contains_key(k),
        |k: Seq<char>|
            if m2.contains_key(k) {
                entry_or_zero(m1, k).saturating_add(m2[k])
            } else {
                m1[k]
            },
    )
}

/// Key-wise saturating subtraction, symmetric to `merge_add_maps`.
pub open spec fn merge_sub_maps(
    m1: Map<Seq<char>, u64>,
    m2: Map<Seq<char>, u64>,
) -> Map<Seq<char>, u64> {
    Map::new(
        |k: Seq<char>| m1.contains_key(k) || m2.contains_key(k),
        |k: Seq<char>|
            if m2.contains_key(k) {
                entry_or_zero(m1, k).saturating_sub(m2[k])
            } else {
                m1[k]
            },
    )
}

/// Kind-aware addition: matching kinds add with saturation (key-wise merge
/// for tables), a mismatched right operand leaves the left one unchanged.
pub open spec fn add_views(a: ValueView, b: ValueView) -> ValueView {
    match (a, b) {
        (ValueView::U8(x), ValueView::U8(y)) => ValueView::U8(x.saturating_add(y)),
        (ValueView::U16(x), ValueView::U16(y)) => ValueView::U16(x.saturating_add(y)),
        (ValueView::U32(x), ValueView::U32(y)) => ValueView::U32(x.saturating_add(y)),
        (ValueView::U64(x), ValueView::U64(y)) => ValueView::U64(x.saturating_add(y)),
        (ValueView::U128(x), ValueView::U128(y)) => ValueView::U128(x.saturating_add(y)),
        (ValueView::I8(x), ValueView::I8(y)) => ValueView::I8(clamp_i8(x + y)),
        (ValueView::I16(x), ValueView::I16(y)) => ValueView::I16(clamp_i16(x + y)),
        (ValueView::I32(x), ValueView::I32(y)) => ValueView::I32(clamp_i32(x + y)),
        (ValueView::I64(x), ValueView::I64(y)) => ValueView::I64(clamp_i64(x + y)),
        (ValueView::I128(x), ValueView::I128(y)) => ValueView::I128(clamp_i128(x + y)),
        (ValueView::Duration(x), ValueView::Duration(y)) => ValueView::Duration(dur_sat_add(x, y)),
        (
            ValueView::Custom { tag: t1, entries: e1 },
            ValueView::Custom { tag: t2, entries: e2 },
        ) => if t1 == t2 {
            ValueView::Custom { tag: t1, entries: merge_add_maps(e1, e2) }
        } else {
            a
        },
        _ => a,
    }
}

/// Kind-aware subtraction, symmetric to `add_views`; unsigned kinds and
/// durations saturate at zero.
pub open spec fn sub_views(a: ValueView, b: ValueView) -> ValueView {
    match (a, b) {
        (ValueView::U8(x), ValueView::U8(y)) => ValueView::U8(x.saturating_sub(y)),
        (ValueView::U16(x), ValueView::U16(y)) => ValueView::U16(x.saturating_sub(y)),
        (ValueView::U32(x), ValueView::U32(y)) => ValueView::U32(x.saturating_sub(y)),
        (ValueView::U64(x), ValueView::U64(y)) => ValueView::U64(x.saturating_sub(y)),
        (ValueView::U128(x), ValueView::U128(y)) => ValueView::U128(x.saturating_sub(y)),
        (ValueView::I8(x), ValueView::I8(y)) => ValueView::I8(clamp_i8(x - y)),
        (ValueView::I16(x), ValueView::I16(y)) => ValueView::I16(clamp_i16(x - y)),
        (ValueView::I32(x), ValueView::I32(y)) => ValueView::I32(clamp_i32(x - y)),
        (ValueView::I64(x), ValueView::I64(y)) => ValueView::I64(clamp_i64(x - y)),
        (ValueView::I128(x), ValueView::I128(y)) => ValueView::I128(clamp_i128(x - y)),
        (ValueView::Duration(x), ValueView::Duration(y)) => ValueView::Duration(dur_sat_sub(x, y)),
        (
            ValueView::Custom { tag: t1, entries: e1 },
            ValueView::Custom { tag: t2, entries: e2 },
        ) => if t1 == t2 {
            ValueView::Custom { tag: t1, entries: merge_sub_maps(e1, e2) }
        } else {
            a
        },
        _ => a,
    }
}

/// A non-negative span of time with nanosecond precision, kept normalized:
/// the nanosecond part stays below one second.
#[derive(Clone, Copy, Debug, PartialEq, Eq, Structural)]
pub struct DurationValue {
    secs: u64,
    nanos: u32,
}

impl DurationValue {
    pub closed spec fn wf(&self) -> bool {
        self.nanos < NANOS_PER_SEC
    }

    /// The whole span as a count of nanoseconds.
    pub closed spec fn as_nanos_spec(&self) -> int {
        self.secs * 1_000_000_000 + self.nanos
    }

    proof fn lemma_wf_range(&self)
        requires
            self.wf(),
        ensures
            0 <= self.as_nanos_spec() <= duration_max_nanos(),
    {
    }

    /// Builds a span from seconds and nanoseconds, carrying surplus
    /// nanoseconds into seconds and saturating at the largest span.
    pub fn new(secs: u64, nanos: u32) -> (r: DurationValue)
        ensures
            r.wf(),
            r.as_nanos_spec() == (if secs * 1_000_000_000 + nanos > duration_max_nanos() {
                duration_max_nanos()
            } else {
                secs * 1_000_000_000 + nanos
            }),
    {
        let extra = (nanos / NANOS_PER_SEC) as u64;
        let rem = nanos % NANOS_PER_SEC;
        assert(nanos == extra * 1_000_000_000 + rem);
        match secs.checked_add(extra) {
            Some(s) => DurationValue { secs: s, nanos: rem },
            None => {
                assert(secs + extra > u64::MAX);
                assert(secs * 1_000_000_000 + nanos > duration_max_nanos());
                DurationValue { secs: u64::MAX, nanos: NANOS_PER_SEC - 1 }
            },
        }
    }

    /// The zero-length span.
    pub fn zero() -> (r: DurationValue)
        ensures
            r.wf(),
            r.as_nanos_spec() == 0,
    {
        DurationValue { secs: 0, nanos: 0 }
    }

    /// Saturating addition of two spans.
    pub fn added(self, other: DurationValue) -> (r: DurationValue)
        requires
            self.wf(),
            other.wf(),
        ensures
            r.wf(),
            r.as_nanos_spec() == dur_sat_add(self.as_nanos_spec(), other.as_nanos_spec()),
    {
        let mut n = self.nanos + other.nanos;
        let mut carry: u64 = 0;
        if n >= NANOS_PER_SEC {
            n = n - NANOS_PER_SEC;
            carry = 1;
        }
        match self.secs.checked_add(other.secs) {
            Some(s) => match s.checked_add(carry) {
                Some(s2) => DurationValue { secs: s2, nanos: n },
                None => DurationValue { secs: u64::MAX, nanos: NANOS_PER_SEC - 1 },
            },
            None => DurationValue { secs: u64::MAX, nanos: NANOS_PER_SEC - 1 },
        }
    }

    /// Subtraction of two spans, saturating at zero.
    pub fn subbed(self, other: DurationValue) -> (r: DurationValue)
        requires
            self.wf(),
            other.wf(),
        ensures
            r.wf(),
            r.as_nanos_spec() == dur_sat_sub(self.as_nanos_spec(), other.as_nanos_spec()),
    {
        if other.secs > self.secs || (other.secs == self.secs && other.nanos > self.nanos) {
            DurationValue { secs: 0, nanos: 0 }
        } else if other.nanos <= self.nanos {
            DurationValue { secs: self.secs - other.secs, nanos: self.nanos - other.nanos }
        } else {
            DurationValue {
                secs: self.secs - other.secs - 1,
                nanos: self.nanos + NANOS_PER_SEC - other.nanos,
            }
        }
    }
}

/// The mapping that a list of key/count pairs stands for when read first to
/// last, a later pair overriding an earlier one with the same key.
pub open spec fn pairs_map(s: Seq<(String, u64)>) -> Map<Seq<char>, u64>
    decreases s.len(),
{
    if s.len() == 0 {
        Map::empty()
    } else {
        pairs_map(s.drop_last()).insert(s.last().0@, s.last().1)
    }
}

/// A user-defined stat value: a tag naming the user's kind, and a table of
/// named `u64` counters. Two such values are of the same kind exactly when
/// their tags agree.
pub struct CustomStat {
    tag: String,
    entries: Vec<(String, u64)>,
}

impl CustomStat {
    pub closed spec fn wf(&self) -> bool {
        keys_unique(self.entries@)
    }

    pub closed spec fn spec_tag(&self) -> Seq<char> {
        self.tag@
    }

    pub closed spec fn entries_map(&self) -> Map<Seq<char>, u64> {
        assoc_map(self.entries@)
    }

    /// Builds a table stat from a tag and a list of key/count pairs; a later
    /// pair overrides an earlier one with the same key.
    pub fn new(tag: &str, contents: Vec<(String, u64)>) -> (r: CustomStat)
        ensures
            r.wf(),
            r.spec_tag() == tag@,
            r.entries_map() == pairs_map(contents@),
    {
        let mut entries: Vec<(String, u64)> = Vec::new();
        let mut i: usize = 0;
        while i < contents.len()
            invariant
                i <= contents@.len(),
                keys_unique(entries@),
                assoc_map(entries@) == pairs_map(contents@.take(i as int)),
            decreases contents@.len() - i,
        {
            let ghost prev = entries@;
            let p = &contents[i];
            match assoc_find(&entries, &p.0) {
                Some(j) => {
                    let pair = (p.0.clone(), p.1);
                    let ghost gp = pair;
                    entries[j] = pair;
                    proof {
                        lemma_assoc_update(prev, j as int, gp);
                    }
                },
                None => {
                    let pair = (p.0.clone(), p.1);
                    let ghost gp = pair;
                    entries.push(pair);
                    proof {
                        lemma_assoc_push(prev, gp);
                    }
                },
            }
            proof {
                assert(contents@.take(i + 1).drop_last() =~= contents@.take(i as int));
                assert(contents@.take(i + 1).last() == contents@[i as int]);
                assert(assoc_map(entries@) =~= pairs_map(contents@.take(i + 1)));
            }
            i = i + 1;
        }
        proof {
            assert(contents@.take(contents@.len() as int) =~= contents@);
        }
        CustomStat { tag: tag.to_string(), entries }
    }

    /// The tag naming this value's kind.
    pub fn tag_str(&self) -> (r: &str)
        ensures
            r@ == self.spec_tag(),
    {
        self.tag.as_str()
    }

    /// Whether the two values are of the same kind.
    pub fn tag_matches(&self, other: &CustomStat) -> (r: bool)
        ensures
            r == (self.spec_tag() == other.spec_tag()),
    {
        self.tag == other.tag
    }

    /// Looks a counter up by its key.
    pub fn get(&self, key: &str) -> (r: Option<u64>)
        requires
            self.wf(),
        ensures
            match r {
                Some(x) => self.entries_map().contains_key(key@) && self.entries_map()[key@]
                    == x,
                None => !self.entries_map().contains_key(key@),
            },
    {
        let k = key.to_string();
        match assoc_find(&self.entries, &k) {
            Some(i) => {
                proof {
                    lemma_key_at(self.entries@, i as int);
                }
                Some(self.entries[i].1)
            },
            None => {
                proof {
                    lemma_no_key(self.entries@, k@);
                }
                None
            },
        }
    }

    /// Adds every counter of `other` onto this table, saturating key-wise.
    pub fn merge_add(&mut self, other: &CustomStat)
        requires
            old(self).wf(),
            other.wf(),
        ensures
            final(self).wf(),
            final(self).spec_tag() == old(self).spec_tag(),
            final(self).entries_map() == merge_add_maps(
                old(self).entries_map(),
                other.entries_map(),
            ),
    {
        let ghost m0 = old(self).entries_map();
        let mut i: usize = 0;
        while i < other.entries.len()
            invariant
                i <= other.entries@.len(),
                other.wf(),
                keys_unique(self.entries@),
                self.tag == old(self).tag,
                assoc_map(self.entries@) == merge_add_maps(
                    m0,
                    assoc_map(other.entries@.take(i as int)),
                ),
                m0 == old(self).entries_map(),
            decreases other.entries@.len() - i,
        {
            let ghost prev = self.entries@;
            let ghost pfx = assoc_map(other.entries@.take(i as int));
            let p = &other.entries[i];
            proof {
                assert(other.entries@.take(i + 1).drop_last() =~= other.entries@.take(i as int));
                assert forall|j: int| 0 <= j < i implies #[trigger] other.entries@.take(
                    i as int,
                )[j].0@ != p.0@ by {
                    assert(other.entries@[j].0@ != other.entries@[i as int].0@);
                }
                lemma_assoc_push(other.entries@.take(i as int), *p);
                assert(other.entries@.take(i as int).push(*p) =~= other.entries@.take(i + 1));
                assert(assoc_map(other.entries@.take(i + 1)) =~= pfx.insert(p.0@, p.1));
            }
            match assoc_find(&self.entries, &p.0) {
                Some(j) => {
                    proof {
                        lemma_key_at(prev, j as int);
                        assert(!pfx.contains_key(p.0@));
                        assert(assoc_map(prev)[p.0@] == entry_or_zero(m0, p.0@));
                    }
                    let cur = self.entries[j].1;
                    let nv = cur.saturating_add(p.1);
                    let pair = (p.0.clone(), nv);
                    let ghost gp = pair;
                    self.entries[j] = pair;
                    proof {
                        lemma_assoc_update(prev, j as int, gp);
                    }
                },
                None => {
                    proof {
                        lemma_no_key(prev, p.0@);
                        assert(!pfx.contains_key(p.0@));
                        assert(!m0.contains_key(p.0@));
                    }
                    let pair = (p.0.clone(), p.1);
                    let ghost gp = pair;
                    self.entries.push(pair);
                    proof {
                        lemma_assoc_push(prev, gp);
                        assert(p.1 == entry_or_zero(m0, p.0@).saturating_add(p.1));
                    }
                },
            }
            proof {
                assert(assoc_map(self.entries@) =~= merge_add_maps(
                    m0,
                    assoc_map(other.entries@.take(i + 1)),
                ));
            }
            i = i + 1;
        }
        proof {
            assert(other.entries@.take(other.entries@.len() as int) =~= other.entries@);
        }
    }

    /// Subtracts every counter of `other` from this table, saturating
    /// key-wise at zero; keys absent here come in with a zero counter.
    pub fn merge_sub(&mut self, other: &CustomStat)
        requires
            old(self).wf(),
            other.wf(),
        ensures
            final(self).wf(),
            final(self).spec_tag() == old(self).spec_tag(),
            final(self).entries_map() == merge_sub_maps(
                old(self).entries_map(),
                other.entries_map(),
            ),
    {
        let ghost m0 = old(self).entries_map();
        let mut i: usize = 0;
        while i < other.entries.len()
            invariant
                i <= other.entries@.len(),
                other.wf(),
                keys_unique(self.entries@),
                self.tag == old(self).tag,
                assoc_map(self.entries@) == merge_sub_maps(
                    m0,
                    assoc_map(other.entries@.take(i as int)),
                ),
                m0 == old(self).entries_map(),
            decreases other.entries@.len() - i,
        {
            let ghost prev = self.entries@;
            let ghost pfx = assoc_map(other.entries@.take(i as int));
            let p = &other.entries[i];
            proof {
                assert(other.entries@.take(i + 1).drop_last() =~= other.entries@.take(i as int));
                assert forall|j: int| 0 <= j < i implies #[trigger] other.entries@.take(
                    i as int,
                )[j].0@ != p.0@ by {
                    assert(other.entries@[j].0@ != other.entries@[i as int].0@);
                }
                lemma_assoc_push(other.entries@.take(i as int), *p);
                assert(other.entries@.take(i as int).push(*p) =~= other.entries@.take(i + 1));
                assert(assoc_map(other.entries@.take(i + 1)) =~= pfx.insert(p.0@, p.1));
            }
            match assoc_find(&self.entries, &p.0) {
                Some(j) => {
                    proof {
                        lemma_key_at(prev, j as int);
                        assert(!pfx.contains_key(p.0@));
                        assert(assoc_map(prev)[p.0@] == entry_or_zero(m0, p.0@));
                    }
                    let cur = self.entries[j].1;
                    let nv = cur.saturating_sub(p.1);
                    let pair = (p.0.clone(), nv);
                    let ghost gp = pair;
                    self.entries[j] = pair;
                    proof {
                        lemma_assoc_update(prev, j as int, gp);
                    }
                },
                None => {
                    proof {
                        lemma_no_key(prev, p.0@);
                        assert(!pfx.contains_key(p.0@));
                        assert(!m0.contains_key(p.0@));
                    }
                    let nv = 0u64.saturating_sub(p.1);
                    let pair = (p.0.clone(), nv);
                    let ghost gp = pair;
                    self.entries.push(pair);
                    proof {
                        lemma_assoc_push(prev, gp);
                        assert(nv == entry_or_zero(m0, p.0@).saturating_sub(p.1));
                    }
                },
            }
            proof {
                assert(assoc_map(self.entries@) =~= merge_sub_maps(
                    m0,
                    assoc_map(other.entries@.take(i + 1)),
                ));
            }
            i = i + 1;
        }
        proof {
            assert(other.entries@.take(other.entries@.len() as int) =~= other.entries@);
        }
    }

    /// Whether every counter of this table occurs in `other` with the same
    /// value.
    fn contained_in(&self, other: &CustomStat) -> (r: bool)
        requires
            self.wf(),
            other.wf(),
        ensures
            r == (forall|k: Seq<char>|
                #[trigger] self.entries_map().contains_key(k) ==> other.entries_map().contains_key(
                    k,
                ) && other.entries_map()[k] == self.entries_map()[k]),
    {
        let mut i: usize = 0;
        while i < self.entries.len()
            invariant
                i <= self.entries@.len(),
                self.wf(),
                other.wf(),
                forall|j: int|
                    0 <= j < i ==> other.entries_map().contains_key(
                        #[trigger] self.entries@[j].0@,
                    ) && other.entries_map()[self.entries@[j].0@] == self.entries@[j].1,
            decreases self.entries@.len() - i,
        {
            proof {
                lemma_key_at(self.entries@, i as int);
            }
            let p = &self.entries[i];
            let ghost gk = p.0@;
            match other.get(p.0.as_str()) {
                Some(x) => {
                    if x != p.1 {
                        proof {
                            assert(self.entries_map().contains_key(gk));
                            assert(other.entries_map()[gk] != self.entries_map()[gk]);
                        }
                        return false;
                    }
                },
                None => {
                    proof {
                        assert(self.entries_map().contains_key(gk));
                        assert(!other.entries_map().contains_key(gk));
                    }
                    return false;
                },
            }
            i = i + 1;
        }
        proof {
            assert forall|k: Seq<char>| #[trigger] self.entries_map().contains_key(k) implies (
            other.entries_map().contains_key(k) && other.entries_map()[k]
                == self.entries_map()[k]) by {
                let j = index_of_key(self.entries@, k);
                assert(0 <= j < self.entries@.len() && self.entries@[j].0@ == k);
                lemma_key_at(self.entries@, j);
            }
        }
        true
    }

    /// Whether the two values are equal: same tag, same table.
    pub fn same_as(&self, other: &CustomStat) -> (r: bool)
        requires
            self.wf(),
            other.wf(),
        ensures
            r == (self.spec_tag() == other.spec_tag() && self.entries_map()
                == other.entries_map()),
    {
        if !(self.tag == other.tag) {
            return false;
        }
        let fwd = self.contained_in(other);
        let bwd = other.contained_in(self);
        if fwd && bwd {
            proof {
                assert(self.entries_map() =~= other.entries_map());
            }
            true
        } else {
            false
        }
    }

    /// An empty table with this table's tag: the additive identity of this
    /// value's kind.
    pub fn zeroed(&self) -> (r: CustomStat)
        ensures
            r.wf(),
            r.spec_tag() == self.spec_tag(),
            r.entries_map() == Map::<Seq<char>, u64>::empty(),
    {
        let r = CustomStat { tag: self.tag.clone(), entries: Vec::new() };
        proof {
            assert(r.entries_map() =~= Map::<Seq<char>, u64>::empty());
        }
        r
    }
}

impl Clone for CustomStat {
    /// A deep copy with the same tag and the same table.
    fn clone(&self) -> (r: Self)
        ensures
            r.wf() == self.wf(),
            r.spec_tag() == self.spec_tag(),
            r.entries_map() == self.entries_map(),
    {
        let mut entries: Vec<(String, u64)> = Vec::new();
        let mut i: usize = 0;
        while i < self.entries.len()
            invariant
                i <= self.entries@.len(),
                entries@.len() == i,
                forall|j: int| 0 <= j < i ==> entries@[j] == self.entries@[j],
            decreases self.entries@.len() - i,
        {
            let p = &self.entries[i];
            entries.push((p.0.clone(), p.1));
            i = i + 1;
        }
        proof {
            assert(entries@ =~= self.entries@);
        }
        CustomStat { tag: self.tag.clone(), entries }
    }
}

/// A stat value of any kind in the catalog. Its view is the `ValueView` it
/// stands for; its kind travels with the value.
pub enum StatData {
    U8(u8),
    U16(u16),
    U32(u32),
    U64(u64),
    U128(u128),
    I8(i8),
    I16(i16),
    I32(i32),
    I64(i64),
    I128(i128),
    Duration(DurationValue),
    Custom(CustomStat),
}

impl View for StatData {
    type V = ValueView;

    open spec fn view(&self) -> ValueView {
        match self {
            StatData::U8(x) => ValueView::U8(*x),
            StatData::U16(x) => ValueView::U16(*x),
            StatData::U32(x) => ValueView::U32(*x),
            StatData::U64(x) => ValueView::U64(*x),
            StatData::U128(x) => ValueView::U128(*x),
            StatData::I8(x) => ValueView::I8(*x),
            StatData::I16(x) => ValueView::I16(*x),
            StatData::I32(x) => ValueView::I32(*x),
            StatData::I64(x) => ValueView::I64(*x),
            StatData::I128(x) => ValueView::I128(*x),
            StatData::Duration(d) => ValueView::Duration(d.as_nanos_spec()),
            StatData::Custom(c) => ValueView::Custom {
                tag: c.spec_tag(),
                entries: c.entries_map(),
            },
        }
    }
}

impl StatData {
    pub open spec fn wf(&self) -> bool {
        match self {
            StatData::Duration(d) => d.wf(),
            StatData::Custom(c) => c.wf(),
            _ => true,
        }
    }

    /// A well-formed value's view is well-formed.
    pub proof fn lemma_view_wf(&self)
        requires
            self.wf(),
        ensures
            view_wf(self@),
    {
        if let StatData::Duration(d) = self {
            d.lemma_wf_range();
        }
    }

    /// A fresh value of the same kind as `self` holding that kind's
    /// additive identity.
    pub fn zero(&self) -> (r: StatData)
        requires
            self.wf(),
        ensures
            r.wf(),
            r@ == zero_of(kind_of(self@)),
    {
        match self {
            StatData::U8(_) => StatData::U8(0),
            StatData::U16(_) => StatData::U16(0),
            StatData::U32(_) => StatData::U32(0),
            StatData::U64(_) => StatData::U64(0),
            StatData::U128(_) => StatData::U128(0),
            StatData::I8(_) => StatData::I8(0),
            StatData::I16(_) => StatData::I16(0),
            StatData::I32(_) => StatData::I32(0),
            StatData::I64(_) => StatData::I64(0),
            StatData::I128(_) => StatData::I128(0),
            StatData::Duration(_) => StatData::Duration(DurationValue::zero()),
            StatData::Custom(c) => {
                let z = c.zeroed();
                proof {
                    assert(ValueView::Custom { tag: z.spec_tag(), entries: z.entries_map() }
                        =~= zero_of(kind_of(self@)));
                }
                StatData::Custom(z)
            },
        }
    }

    /// In-place kind-aware addition: a mismatched `other` leaves `self`
    /// unchanged, matching kinds add with saturation.
    pub fn add(&mut self, other: StatData)
        requires
            old(self).wf(),
            other.wf(),
        ensures
            final(self).wf(),
            final(self)@ == add_views(old(self)@, other@),
    {
        let next: Option<StatData> = match (&*self, &other) {
            (StatData::U8(x), StatData::U8(y)) => Some(StatData::U8(x.saturating_add(*y))),
            (StatData::U16(x), StatData::U16(y)) => Some(StatData::U16(x.saturating_add(*y))),
            (StatData::U32(x), StatData::U32(y)) => Some(StatData::U32(x.saturating_add(*y))),
            (StatData::U64(x), StatData::U64(y)) => Some(StatData::U64(x.saturating_add(*y))),
            (StatData::U128(x), StatData::U128(y)) => Some(StatData::U128(x.saturating_add(*y))),
            (StatData::I8(x), StatData::I8(y)) => Some(StatData::I8(sat_add_i8(*x, *y))),
            (StatData::I16(x), StatData::I16(y)) => Some(StatData::I16(sat_add_i16(*x, *y))),
            (StatData::I32(x), StatData::I32(y)) => Some(StatData::I32(sat_add_i32(*x, *y))),
            (StatData::I64(x), StatData::I64(y)) => Some(StatData::I64(sat_add_i64(*x, *y))),
            (StatData::I128(x), StatData::I128(y)) => Some(StatData::I128(sat_add_i128(*x, *y))),
            (StatData::Duration(d), StatData::Duration(o)) => Some(
                StatData::Duration(d.added(*o)),
            ),
            (StatData::Custom(c), StatData::Custom(o)) => {
                if c.tag_matches(o) {
                    let mut merged = c.clone();
                    merged.merge_add(o);
                    Some(StatData::Custom(merged))
                } else {
                    None
                }
            },
            _ => None,
        };
        if let Some(v) = next {
            proof {
                assert(v@ =~= add_views(self@, other@));
            }
            *self = v;
        } else {
            proof {
                assert(self@ =~= add_views(self@, other@));
            }
        }
    }

    /// In-place kind-aware subtraction, symmetric to `add`.
    pub fn sub(&mut self, other: StatData)
        requires
            old(self).wf(),
            other.wf(),
        ensures
            final(self).wf(),
            final(self)@ == sub_views(old(self)@, other@),
    {
        let next: Option<StatData> = match (&*self, &other) {
            (StatData::U8(x), StatData::U8(y)) => Some(StatData::U8(x.saturating_sub(*y))),
            (StatData::U16(x), StatData::U16(y)) => Some(StatData::U16(x.saturating_sub(*y))),
            (StatData::U32(x), StatData::U32(y)) => Some(StatData::U32(x.saturating_sub(*y))),
            (StatData::U64(x), StatData::U64(y)) => Some(StatData::U64(x.saturating_sub(*y))),
            (StatData::U128(x), StatData::U128(y)) => Some(StatData::U128(x.saturating_sub(*y))),
            (StatData::I8(x), StatData::I8(y)) => Some(StatData::I8(sat_sub_i8(*x, *y))),
            (StatData::I16(x), StatData::I16(y)) => Some(StatData::I16(sat_sub_i16(*x, *y))),
            (StatData::I32(x), StatData::I32(y)) => Some(StatData::I32(sat_sub_i32(*x, *y))),
            (StatData::I64(x), StatData::I64(y)) => Some(StatData::I64(sat_sub_i64(*x, *y))),
            (StatData::I128(x), StatData::I128(y)) => Some(StatData::I128(sat_sub_i128(*x, *y))),
            (StatData::Duration(d), StatData::Duration(o)) => Some(
                StatData::Duration(d.subbed(*o)),
            ),
            (StatData::Custom(c), StatData::Custom(o)) => {
                if c.tag_matches(o) {
                    let mut merged = c.clone();
                    merged.merge_sub(o);
                    Some(StatData::Custom(merged))
                } else {
                    None
                }
            },
            _ => None,
        };
        if let Some(v) = next {
            proof {
                assert(v@ =~= sub_views(self@, other@));
            }
            *self = v;
        } else {
            proof {
                assert(self@ =~= sub_views(self@, other@));
            }
        }
    }
}

impl Clone for StatData {
    /// A deep copy: same kind, same value.
    fn clone(&self) -> (r: Self)
        ensures
            r@ == self@,
            r.wf() == self.wf(),
    {
        match self {
            StatData::U8(x) => StatData::U8(*x),
            StatData::U16(x) => StatData::U16(*x),
            StatData::U32(x) => StatData::U32(*x),
            StatData::U64(x) => StatData::U64(*x),
            StatData::U128(x) => StatData::U128(*x),
            StatData::I8(x) => StatData::I8(*x),
            StatData::I16(x) => StatData::I16(*x),
            StatData::I32(x) => StatData::I32(*x),
            StatData::I64(x) => StatData::I64(*x),
            StatData::I128(x) => StatData::I128(*x),
            StatData::Duration(d) => StatData::Duration(*d),
            StatData::Custom(c) => StatData::Custom(c.clone()),
        }
    }
}

fn sat_add_i8(a: i8, b: i8) -> (r: i8)
    ensures
        r == clamp_i8(a + b),
{
    match a.checked_add(b) {
        Some(x) => x,
        None => if b > 0 {
            i8::MAX
        } else {
            i8::MIN
        },
    }
}

fn sat_add_i16(a: i16, b: i16) -> (r: i16)
    ensures
        r == clamp_i16(a + b),
{
    match a.checked_add(b) {
        Some(x) => x,
        None => if b > 0 {
            i16::MAX
        } else {
            i16::MIN
        },
    }
}

fn sat_add_i32(a: i32, b: i32) -> (r: i32)
    ensures
        r == clamp_i32(a + b),
{
    match a.checked_add(b) {
        Some(x) => x,
        None => if b > 0 {
            i32::MAX
        } else {
            i32::MIN
        },
    }
}

fn sat_add_i64(a: i64, b: i64) -> (r: i64)
    ensures
        r == clamp_i64(a + b),
{
    match a.checked_add(b) {
        Some(x) => x,
        None => if b > 0 {
            i64::MAX
        } else {
            i64::MIN
        },
    }
}

fn sat_add_i128(a: i128, b: i128) -> (r: i128)
    ensures
        r == clamp_i128(a + b),
{
    match a.checked_add(b) {
        Some(x) => x,
        None => if b > 0 {
            i128::MAX
        } else {
            i128::MIN
        },
    }
}

fn sat_sub_i8(a: i8, b: i8) -> (r: i8)
    ensures
        r == clamp_i8(a - b),
{
    match a.checked_sub(b) {
        Some(x) => x,
        None => if b > 0 {
            i8::MIN
        } else {
            i8::MAX
        },
    }
}

fn sat_sub_i16(a: i16, b: i16) -> (r: i16)
    ensures
        r == clamp_i16(a - b),
{
    match a.checked_sub(b) {
        Some(x) => x,
        None => if b > 0 {
            i16::MIN
        } else {
            i16::MAX
        },
    }
}

fn sat_sub_i32(a: i32, b: i32) -> (r: i32)
    ensures
        r == clamp_i32(a - b),
{
    match a.checked_sub(b) {
        Some(x) => x,
        None => if b > 0 {
            i32::MIN
        } else {
            i32::MAX
        },
    }
}

fn sat_sub_i64(a: i64, b: i64) -> (r: i64)
    ensures
        r == clamp_i64(a - b),
{
    match a.checked_sub(b) {
        Some(x) => x,
        None => if b > 0 {
            i64::MIN
        } else {
            i64::MAX
        },
    }
}

fn sat_sub_i128(a: i128, b: i128) -> (r: i128)
    ensures
        r == clamp_i128(a - b),
{
    match a.checked_sub(b) {
        Some(x) => x,
        None => if b > 0 {
            i128::MIN
        } else {
            i128::MAX
        },
    }
}

} // verus!
