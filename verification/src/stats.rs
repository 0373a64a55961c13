//! Byte and item totals, and the addition that combines them.

use vstd::prelude::*;

verus! {

/// The mathematical value of a total: unbounded byte and item counts.
pub struct Tally {
    pub bytes: int,
    pub items: int,
}

impl Tally {
    /// The total of nothing.
    pub open spec fn zero() -> Tally {
        Tally { bytes: 0, items: 0 }
    }

    /// Field-wise addition.
    pub open spec fn merge(self, other: Tally) -> Tally {
        Tally { bytes: self.bytes + other.bytes, items: self.items + other.items }
    }

    /// Whether both counts can be held by a `Stats`.
    pub open spec fn fits(self) -> bool {
        0 <= self.bytes <= u64::MAX && i32::MIN <= self.items <= i32::MAX
    }

    /// The total of a sequence of totals, summed front to back.
    pub open spec fn total(parts: Seq<Tally>) -> Tally
        decreases parts.len(),
    {
        if parts.len() == 0 {
            Tally::zero()
        } else {
            Tally::total(parts.drop_last()).merge(parts.last())
        }
    }
}

/// An accumulated count of files and of their bytes.
#[derive(Clone, Copy, Debug, PartialEq, Eq, Structural)]
pub struct Stats {
    pub size: u64,
    pub count: i32,
}

impl View for Stats {
    type V = Tally;

    open spec fn view(&self) -> Tally {
        Tally { bytes: self.size as int, items: self.count as int }
    }
}

/// The values of a sequence of `Stats`.
pub open spec fn tallies(parts: Seq<Stats>) -> Seq<Tally> {
    parts.map_values(|s: Stats| s@)
}

impl Default for Stats {
    fn default() -> (r: Stats)
        ensures
            r@ == Tally::zero(),
    {
        Stats { size: 0, count: 0 }
    }
}

impl Stats {
    /// The total of a single file of `size` bytes.
    pub fn from_file(size: u64) -> (r: Stats)
        ensures
            r@ == (Tally { bytes: size as int, items: 1 }),
    {
        Stats { size, count: 1 }
    }

    /// Whether `other` can be added to `self` without leaving the range of
    /// either field.
    pub fn can_merge(&self, other: &Stats) -> (r: bool)
        ensures
            r == self@.merge(other@).fits(),
    {
        self.size.checked_add(other.size).is_some() && self.count.checked_add(
            other.count,
        ).is_some()
    }

    /// Whether one more file of `size` bytes can be counted.
    pub fn can_add_file(&self, size: u64) -> (r: bool)
        ensures
            r == self@.merge(Tally { bytes: size as int, items: 1 }).fits(),
    {
        self.size.checked_add(size).is_some() && self.count < i32::MAX
    }

    /// Counts one more file of `size` bytes.
    pub fn add_file(&mut self, size: u64)
        requires
            old(self)@.merge(Tally { bytes: size as int, items: 1 }).fits(),
        ensures
            final(self)@ == old(self)@.merge(Tally { bytes: size as int, items: 1 }),
    {
        self.count = self.count + 1;
        self.size = self.size + size;
    }

    /// Adds `rhs` to `self`, field by field.
    pub fn add_assign(&mut self, rhs: Stats)
        requires
            old(self)@.merge(rhs@).fits(),
        ensures
            final(self)@ == old(self)@.merge(rhs@),
    {
        self.count = self.count + rhs.count;
        self.size = self.size + rhs.size;
    }

    /// The sum of `parts`, or `None` where that sum is out of range.
    pub fn sum(parts: &Vec<Stats>) -> (r: Option<Stats>)
        ensures
            r is Some <==> Tally::total(tallies(parts@)).fits(),
            r is Some ==> r->Some_0@ == Tally::total(tallies(parts@)),
    {
        let mut size: u128 = 0;
        let mut count: i128 = 0;
        let mut i: usize = 0;
        while i < parts.len()
            invariant
                i <= parts.len(),
                size as int == Tally::total(tallies(parts@.take(i as int))).bytes,
                count as int == Tally::total(tallies(parts@.take(i as int))).items,
                size <= i * 0xFFFF_FFFF_FFFF_FFFF,
                -(i * 0x8000_0000) <= count <= i * 0x8000_0000,
            decreases parts.len() - i,
        {
            proof {
                let next = parts@.take(i + 1);
                assert(next.drop_last() =~= parts@.take(i as int));
                assert(tallies(next).drop_last() =~= tallies(parts@.take(i as int)));
                assert(tallies(next).last() == parts@[i as int]@);
            }
            size = size + parts[i].size as u128;
            count = count + parts[i].count as i128;
            i = i + 1;
        }
        proof {
            assert(parts@.take(i as int) =~= parts@);
        }
        if size <= u64::MAX as u128 && i32::MIN as i128 <= count && count <= i32::MAX as i128 {
            Some(Stats { size: size as u64, count: count as i32 })
        } else {
            None
        }
    }
}

/// Adding the empty total, on either side, changes nothing; and the empty
/// total can always be added.
pub proof fn lemma_merge_identity(a: Stats)
    ensures
        a@.merge(Tally::zero()) == a@,
        Tally::zero().merge(a@) == a@,
        a@.merge(Tally::zero()).fits(),
{
}

/// Addition of totals does not depend on how the operands are grouped.
pub proof fn lemma_merge_associative(a: Stats, b: Stats, c: Stats)
    ensures
        a@.merge(b@).merge(c@) == a@.merge(b@.merge(c@)),
{
}

/// Addition of totals does not depend on the order of the operands, alone
/// or in front of a third.
pub proof fn lemma_merge_commutative(a: Stats, b: Stats, c: Stats)
    ensures
        a@.merge(b@) == b@.merge(a@),
        a@.merge(b@).merge(c@) == b@.merge(a@).merge(c@),
{
}

/// Two `Stats` with the same value are the same.
pub proof fn lemma_view_injective(a: Stats, b: Stats)
    ensures
        a@ == b@ <==> a == b,
{
}

/// The total of two sequences laid end to end is the sum of their totals.
pub proof fn lemma_total_concat(a: Seq<Tally>, b: Seq<Tally>)
    ensures
        Tally::total(a + b) == Tally::total(a).merge(Tally::total(b)),
    decreases b.len(),
{
    if b.len() == 0 {
        assert(a + b =~= a);
    } else {
        assert((a + b).drop_last() =~= a + b.drop_last());
        lemma_total_concat(a, b.drop_last());
    }
}

/// Adding `x` to one part adds `x` to the total.
pub proof fn lemma_total_update(parts: Seq<Tally>, k: int, x: Tally)
    requires
        0 <= k < parts.len(),
    ensures
        Tally::total(parts.update(k, parts[k].merge(x))) == Tally::total(parts).merge(x),
    decreases parts.len(),
{
    let changed = parts.update(k, parts[k].merge(x));
    if k == parts.len() - 1 {
        assert(changed.drop_last() =~= parts.drop_last());
    } else {
        assert(changed.drop_last() =~= parts.drop_last().update(k, parts[k].merge(x)));
        lemma_total_update(parts.drop_last(), k, x);
    }
}

/// The total of empty parts is empty.
pub proof fn lemma_total_zeros(parts: Seq<Tally>)
    requires
        forall|i: int| 0 <= i < parts.len() ==> parts[i] == Tally::zero(),
    ensures
        Tally::total(parts) == Tally::zero(),
    decreases parts.len(),
{
    if parts.len() > 0 {
        lemma_total_zeros(parts.drop_last());
    }
}

/// Taking one part out takes its value out of the total.
pub proof fn lemma_total_remove(parts: Seq<Tally>, k: int)
    requires
        0 <= k < parts.len(),
    ensures
        Tally::total(parts) == Tally::total(parts.remove(k)).merge(parts[k]),
    decreases parts.len(),
{
    if k == parts.len() - 1 {
        assert(parts.remove(k) =~= parts.drop_last());
    } else {
        assert(parts.remove(k).drop_last() =~= parts.drop_last().remove(k));
        lemma_total_remove(parts.drop_last(), k);
    }
}

/// The total does not depend on the order of the parts: two sequences that
/// hold the same parts, each as often in one as in the other, have the same
/// total.
pub proof fn lemma_total_any_order(a: Seq<Tally>, b: Seq<Tally>)
    requires
        a.to_multiset() == b.to_multiset(),
    ensures
        Tally::total(a) == Tally::total(b),
    decreases a.len(),
{
    a.to_multiset_ensures();
    b.to_multiset_ensures();
    if a.len() > 0 {
        let x = a.last();
        assert(a[a.len() - 1] == x);
        assert(a.contains(x));
        assert(a.to_multiset().count(x) > 0);
        assert(b.to_multiset().count(x) > 0);
        assert(b.contains(x));
        let k = choose|k: int| 0 <= k < b.len() && b[k] == x;
        assert(a.remove(a.len() - 1).to_multiset() =~= a.to_multiset().remove(x));
        assert(b.remove(k).to_multiset() =~= b.to_multiset().remove(x));
        assert(a.remove(a.len() - 1) =~= a.drop_last());
        assert(a.drop_last().to_multiset() =~= b.remove(k).to_multiset());
        lemma_total_any_order(a.drop_last(), b.remove(k));
        lemma_total_remove(b, k);
    }
}

} // verus!
