use vstd::prelude::*;

verus! {

/// A parametric distance `t` along a ray, held as the 32-bit pattern of
/// its sign and magnitude, and ordered by an integer key.
///
/// A pattern with a clear sign bit has its own value as key. A pattern with
/// the sign bit set and the magnitude `m` has the key `-m`. So a distance
/// ahead of the ray's origin has a positive key, which grows with the
/// distance; a distance behind the origin has a negative key, which falls as
/// the distance grows; and the two patterns of zero share the key 0.
/// Patterns that stand for no number lie beyond the two infinities.
#[derive(Clone, Copy, Debug, PartialEq, Eq)]
pub struct Distance {
    bits: u32,
}

/// The key of the distance with the bit pattern `bits`.
pub open spec fn key_of_bits(bits: u32) -> int {
    if bits < 0x8000_0000 {
        bits as int
    } else {
        0x8000_0000 - bits
    }
}

impl Distance {
    /// The bit pattern of the distance.
    pub closed spec fn bits(self) -> u32 {
        self.bits
    }

    /// The integer key: `a` is nearer than `b` exactly if `a.key() < b.key()`.
    pub open spec fn key(self) -> int {
        key_of_bits(self.bits())
    }

    /// The distance with the bit pattern `bits`.
    pub fn from_bits(bits: u32) -> (d: Distance)
        ensures
            d.bits() == bits,
    {
        Distance { bits }
    }

    /// The bit pattern of the distance.
    pub fn to_bits(&self) -> (bits: u32)
        ensures
            bits == self.bits(),
    {
        self.bits
    }

    /// The key, computed.
    fn key_value(&self) -> (key: i64)
        ensures
            key == self.key(),
    {
        if self.bits < 0x8000_0000 {
            self.bits as i64
        } else {
            0x8000_0000i64 - (self.bits as i64)
        }
    }

    /// The distance lies behind the ray's origin.
    pub fn is_negative(&self) -> (negative: bool)
        ensures
            negative == (self.key() < 0),
    {
        self.bits > 0x8000_0000
    }

    /// `self` is strictly nearer along the ray than `other`.
    pub fn is_before(&self, other: &Distance) -> (before: bool)
        ensures
            before == (self.key() < other.key()),
    {
        self.key_value() < other.key_value()
    }

    /// Among patterns with a clear sign bit the keys order as the patterns
    /// do; among those with the sign bit set they order the other way
    /// round; and none of the second kind lies above one of the first.
    pub proof fn key_order(a: u32, b: u32)
        ensures
            a < 0x8000_0000 && b < 0x8000_0000 ==> (key_of_bits(a) < key_of_bits(b) <==> a < b),
            a >= 0x8000_0000 && b >= 0x8000_0000 ==> (key_of_bits(a) < key_of_bits(b) <==> a > b),
            a >= 0x8000_0000 && b < 0x8000_0000 ==> key_of_bits(a) <= key_of_bits(b),
            -0x8000_0000 < key_of_bits(a) < 0x8000_0000,
    {
    }

    /// Two patterns share a key only if they are the same pattern or the
    /// two patterns of zero.
    pub proof fn key_names_the_pattern(a: u32, b: u32)
        requires
            key_of_bits(a) == key_of_bits(b),
        ensures
            a == b || (key_of_bits(a) == 0 && (a == 0 || a == 0x8000_0000) && (b == 0 || b
                == 0x8000_0000)),
    {
    }
}

/// One crossing of a ray with an object: the distance `t` along the ray,
/// and `object`, which names what was hit.
#[derive(Clone, Copy, Debug, PartialEq)]
pub struct IntersectionRecord<O> {
    pub t: Distance,
    pub object: O,
}

/// `records[i]` is the visible hit among the first `k` records: the first
/// of those that lie nearest among the ones not behind the ray's origin.
pub open spec fn is_nearest_of_first<O>(
    records: Seq<IntersectionRecord<O>>,
    k: int,
    i: int,
) -> bool {
    &&& 0 <= i < k <= records.len()
    &&& records[i].t.key() >= 0
    &&& forall|j: int|
        0 <= j < k && (#[trigger] records[j]).t.key() >= 0 ==> records[i].t.key()
            <= records[j].t.key()
    &&& forall|j: int|
        0 <= j < i && (#[trigger] records[j]).t.key() >= 0 ==> records[i].t.key()
            < records[j].t.key()
}

/// `records[i]` is the visible hit: the first of the records that lie
/// nearest among those not behind the ray's origin.
pub open spec fn is_nearest_hit<O>(records: Seq<IntersectionRecord<O>>, i: int) -> bool {
    is_nearest_of_first(records, records.len() as int, i)
}

/// Every one of the first `k` records lies behind the ray's origin.
pub open spec fn first_behind<O>(records: Seq<IntersectionRecord<O>>, k: int) -> bool {
    forall|j: int| 0 <= j < k ==> (#[trigger] records[j]).t.key() < 0
}

/// Every record lies behind the ray's origin.
pub open spec fn all_behind<O>(records: Seq<IntersectionRecord<O>>) -> bool {
    first_behind(records, records.len() as int)
}

/// A list of records has at most one visible hit.
pub proof fn nearest_hit_is_unique<O>(records: Seq<IntersectionRecord<O>>, i: int, j: int)
    requires
        is_nearest_hit(records, i),
        is_nearest_hit(records, j),
    ensures
        i == j,
{
    if i < j {
        assert(records[i].t.key() >= 0);
    } else if j < i {
        assert(records[j].t.key() >= 0);
    }
}

/// Where a list of records has a visible hit, not all of them lie behind
/// the ray's origin.
pub proof fn nearest_hit_excludes_all_behind<O>(records: Seq<IntersectionRecord<O>>, i: int)
    requires
        is_nearest_hit(records, i),
    ensures
        !all_behind(records),
{
    assert(records[i].t.key() >= 0);
}

/// Place of the visible hit among `records`, if there is one.
pub fn hit_index<O>(records: &[IntersectionRecord<O>]) -> (found: Option<usize>)
    ensures
        found matches Some(i) ==> is_nearest_hit(records@, i as int),
        found is None <==> all_behind(records@),
{
    let mut best: Option<usize> = None;
    let mut k: usize = 0;
    while k < records.len()
        invariant
            k <= records@.len(),
            best matches Some(i) ==> is_nearest_of_first(records@, k as int, i as int),
            best is None ==> first_behind(records@, k as int),
        decreases records@.len() - k,
    {
        if !records[k].t.is_negative() {
            match best {
                None => {
                    best = Some(k);
                },
                Some(i) => {
                    if records[k].t.is_before(&records[i].t) {
                        best = Some(k);
                    }
                },
            }
        }
        k = k + 1;
    }
    proof {
        if let Some(i) = best {
            nearest_hit_excludes_all_behind(records@, i as int);
        }
    }
    best
}

/// The visible hit among `intersections`: records behind the ray's origin
/// are left out, and of the others the nearest is taken.
pub fn hit<'a, O>(intersections: &'a [IntersectionRecord<O>]) -> (found: Option<
    &'a IntersectionRecord<O>,
>)
    ensures
        found matches Some(record) ==> exists|i: int|
            is_nearest_hit(intersections@, i) && *record == #[trigger] intersections@[i],
        found is None <==> all_behind(intersections@),
{
    match hit_index(intersections) {
        Some(i) => Some(&intersections[i]),
        None => None,
    }
}

/// The first `k` records stand in order of distance, nearest first.
pub open spec fn first_sorted<O>(records: Seq<IntersectionRecord<O>>, k: int) -> bool {
    forall|i: int, j: int|
        0 <= i < j < k ==> (#[trigger] records[i]).t.key() <= (#[trigger] records[j]).t.key()
}

/// The records stand in order of distance, nearest first.
pub open spec fn sorted_by_distance<O>(records: Seq<IntersectionRecord<O>>) -> bool {
    first_sorted(records, records.len() as int)
}

/// Holds of the records whose distance has the key `key`.
pub open spec fn at_distance<O>(key: int) -> spec_fn(IntersectionRecord<O>) -> bool {
    |record: IntersectionRecord<O>| record.t.key() == key
}

/// `after` holds the records of `before`, and those of equal distance in
/// the order in which `before` has them.
pub open spec fn keeps_records<O>(
    before: Seq<IntersectionRecord<O>>,
    after: Seq<IntersectionRecord<O>>,
) -> bool {
    &&& after.to_multiset() == before.to_multiset()
    &&& forall|key: int| #[trigger]
        after.filter(at_distance(key)) == before.filter(at_distance(key))
}

/// Where no record of a list is at a given distance, none is left of the
/// list when only those at that distance are kept.
proof fn lemma_none_at_distance<O>(records: Seq<IntersectionRecord<O>>, key: int)
    requires
        forall|k: int| 0 <= k < records.len() ==> (#[trigger] records[k]).t.key() != key,
    ensures
        records.filter(at_distance(key)) == Seq::<IntersectionRecord<O>>::empty(),
    decreases records.len(),
{
    reveal(Seq::filter);
    if records.len() > 0 {
        lemma_none_at_distance(records.drop_last(), key);
        assert(!at_distance::<O>(key)(records.last()));
    }
}

/// Moving a record to the front of a run of farther records keeps the
/// records, and those of equal distance in their order.
proof fn lemma_move_keeps_records<O>(records: Seq<IntersectionRecord<O>>, i: int, j: int)
    requires
        0 <= j <= i < records.len(),
        forall|k: int| j <= k < i ==> records[i].t.key() < (#[trigger] records[k]).t.key(),
    ensures
        keeps_records(records, records.remove(i).insert(j, records[i])),
{
    let moved = records.remove(i).insert(j, records[i]);
    vstd::seq_lib::to_multiset_remove(records, i);
    vstd::seq_lib::to_multiset_insert(records.remove(i), j, records[i]);
    records.to_multiset_ensures();
    assert(moved.to_multiset() =~= records.to_multiset()) by {
        broadcast use vstd::multiset::group_multiset_axioms;

        assert(records.to_multiset().count(records[i]) > 0);
    }
    let head = records.subrange(0, j);
    let run = records.subrange(j, i);
    let one = seq![records[i]];
    let tail = records.subrange(i + 1, records.len() as int);
    assert(records =~= head + run + one + tail);
    assert(moved =~= head + one + run + tail);
    assert forall|key: int| #[trigger]
        moved.filter(at_distance(key)) == records.filter(at_distance(key)) by {
        let pred = at_distance::<O>(key);
        Seq::filter_distributes_over_add(head + run + one, tail, pred);
        Seq::filter_distributes_over_add(head + run, one, pred);
        Seq::filter_distributes_over_add(head, run, pred);
        Seq::filter_distributes_over_add(head + one + run, tail, pred);
        Seq::filter_distributes_over_add(head + one, run, pred);
        Seq::filter_distributes_over_add(head, one, pred);
        if records[i].t.key() == key {
            lemma_none_at_distance(run, key);
        } else {
            lemma_none_at_distance(one, key);
        }
        assert(moved.filter(pred) =~= records.filter(pred));
    }
}

/// The first record of a list at a given distance is the first that is
/// left when only the records at that distance are kept.
proof fn lemma_first_at_distance<O>(records: Seq<IntersectionRecord<O>>, key: int, i: int)
    requires
        0 <= i < records.len(),
        records[i].t.key() == key,
        forall|j: int| 0 <= j < i ==> (#[trigger] records[j]).t.key() != key,
    ensures
        records.filter(at_distance(key)).len() > 0,
        records.filter(at_distance(key))[0] == records[i],
    decreases records.len(),
{
    reveal(Seq::filter);
    let rest = records.drop_last();
    if i == records.len() - 1 {
        lemma_none_at_distance(rest, key);
        assert(at_distance::<O>(key)(records.last()));
    } else {
        lemma_first_at_distance(rest, key, i);
    }
}

/// Putting the records in another order, with those of equal distance kept
/// in their order, does not change which hit is seen.
pub proof fn reordering_keeps_the_hit<O>(
    before: Seq<IntersectionRecord<O>>,
    after: Seq<IntersectionRecord<O>>,
    i: int,
    j: int,
)
    requires
        keeps_records(before, after),
        is_nearest_hit(before, i),
        is_nearest_hit(after, j),
    ensures
        after[j] == before[i],
{
    let key = before[i].t.key();
    before.to_multiset_ensures();
    after.to_multiset_ensures();
    assert(after[j].t.key() == key) by {
        assert(after.to_multiset().count(before[i]) > 0);
        assert(after.contains(before[i]));
        let there = choose|k: int| 0 <= k < after.len() && after[k] == before[i];
        assert(after[there].t.key() >= 0);
        assert(before.to_multiset().count(after[j]) > 0);
        assert(before.contains(after[j]));
        let here = choose|k: int| 0 <= k < before.len() && before[k] == after[j];
        assert(before[here].t.key() >= 0);
    }
    assert forall|k: int| 0 <= k < i implies (#[trigger] before[k]).t.key() != key by {
        if before[k].t.key() == key {
            assert(before[k].t.key() >= 0);
        }
    }
    assert forall|k: int| 0 <= k < j implies (#[trigger] after[k]).t.key() != key by {
        if after[k].t.key() == key {
            assert(after[k].t.key() >= 0);
        }
    }
    lemma_first_at_distance(before, key, i);
    lemma_first_at_distance(after, key, j);
    assert(after.filter(at_distance(key)) == before.filter(at_distance(key)));
}

/// Among records in order of distance, the visible hit is the first that
/// does not lie behind the ray's origin.
pub proof fn sorted_nearest_hit_is_first_ahead<O>(records: Seq<IntersectionRecord<O>>, i: int)
    requires
        sorted_by_distance(records),
        0 <= i < records.len(),
        records[i].t.key() >= 0,
        i > 0 ==> records[i - 1].t.key() < 0,
    ensures
        is_nearest_hit(records, i),
{
    assert forall|j: int| 0 <= j < i implies (#[trigger] records[j]).t.key() < 0 by {
        if j < i - 1 {
            assert(records[j].t.key() <= records[i - 1].t.key());
        }
    }
}

/// Gathers the crossings of one ray and picks the hit that is seen.
pub struct IntersectionSubsystem;

impl IntersectionSubsystem {
    /// The visible hit among `records`, as `hit` gives it.
    pub fn nearest_hit<'a, O>(records: &'a [IntersectionRecord<O>]) -> (found: Option<
        &'a IntersectionRecord<O>,
    >)
        ensures
            found matches Some(record) ==> exists|i: int|
                is_nearest_hit(records@, i) && *record == #[trigger] records@[i],
            found is None <==> all_behind(records@),
    {
        hit(records)
    }

    /// Puts the records in order of distance, nearest first; records of
    /// equal distance keep their order.
    pub fn sort_hits<O>(records: &mut Vec<IntersectionRecord<O>>)
        ensures
            sorted_by_distance(final(records)@),
            keeps_records(old(records)@, final(records)@),
            final(records)@.len() == old(records)@.len(),
    {
        let ghost start = records@;
        let mut i: usize = 1;
        while i < records.len()
            invariant
                1 <= i,
                records@.len() == start.len(),
                keeps_records(start, records@),
                records@.len() >= 1 ==> i <= records@.len(),
                first_sorted(records@, if i <= records@.len() { i as int } else { 0 }),
            decreases records@.len() - i,
        {
            let ghost before = records@;
            let mut j: usize = i;
            while j > 0 && records[i].t.is_before(&records[j - 1].t)
                invariant
                    j <= i < records@.len(),
                    records@ == before,
                    forall|k: int|
                        j <= k < i ==> before[i as int].t.key() < (#[trigger] before[k]).t.key(),
                decreases j,
            {
                j = j - 1;
            }
            let record = records.remove(i);
            records.insert(j, record);
            proof {
                lemma_move_keeps_records(before, i as int, j as int);
                assert forall|a: int, b: int| 0 <= a < b < i + 1 implies (
                #[trigger] records@[a]).t.key() <= (#[trigger] records@[b]).t.key() by {
                    let from_a = if a < j {
                        a
                    } else if a == j {
                        i as int
                    } else {
                        a - 1
                    };
                    let from_b = if b < j {
                        b
                    } else if b == j {
                        i as int
                    } else {
                        b - 1
                    };
                    assert(records@[a] == before[from_a]);
                    assert(records@[b] == before[from_b]);
                }
            }
            i = i + 1;
        }
    }
}

} // verus!
