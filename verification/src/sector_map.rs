use vstd::prelude::*;

verus! {

/// The number of deadlines in a proving period.
pub const WPOST_PERIOD_DEADLINES: u64 = 48;

/// Why a sector map refuses something.
#[derive(Clone, Copy, Debug, PartialEq, Eq, Structural)]
pub enum SectorMapError {
    /// The deadline index is not below the number of deadlines.
    InvalidDeadline,
    /// A bitfield does not list its sectors in strictly increasing order.
    InvalidBitField,
    /// The map holds more partitions than allowed.
    TooManyPartitions,
    /// The map holds more sectors than allowed.
    TooManySectors,
    /// A count does not fit in 64 bits.
    Overflow,
}

/// Each number is greater than all before it.
pub open spec fn increasing(s: Seq<u64>) -> bool {
    forall|i: int, j: int| 0 <= i < j < s.len() ==> s[i] < s[j]
}

/// A set of sector numbers, viewed as its members in increasing order.
#[derive(Debug)]
pub struct BitField {
    bits: Vec<u64>,
}

impl View for BitField {
    type V = Seq<u64>;

    closed spec fn view(&self) -> Seq<u64> {
        self.bits@
    }
}

impl BitField {
    /// The members are held in strictly increasing order.
    pub open spec fn wf(&self) -> bool {
        increasing(self@)
    }

    /// The empty set.
    pub fn new() -> (r: BitField)
        ensures
            r.wf(),
            r@.len() == 0,
    {
        BitField { bits: Vec::new() }
    }

    /// Adds one number to the set.
    pub fn set(&mut self, bit: u64)
        requires
            old(self).wf(),
        ensures
            final(self).wf(),
            forall|x: u64| final(self)@.contains(x) <==> (old(self)@.contains(x) || x == bit),
    {
        let n: usize = self.bits.len();
        let mut out: Vec<u64> = Vec::new();
        let mut i: usize = 0;
        while i < n && self.bits[i] < bit
            invariant
                0 <= i <= n,
                n == self.bits.len(),
                out@ == self.bits@.take(i as int),
                forall|j: int| 0 <= j < i ==> self.bits@[j] < bit,
            decreases n - i,
        {
            out.push(self.bits[i]);
            proof {
                assert(out@ =~= self.bits@.take(i + 1));
            }
            i += 1;
        }
        if i < n && self.bits[i] == bit {
            proof {
                assert(self.bits@[i as int] == bit);
            }
            return ;
        }
        let ghost p: int = i as int;
        let ghost before: Seq<u64> = self.bits@;
        out.push(bit);
        while i < n
            invariant
                0 <= p <= i <= n,
                n == self.bits.len(),
                n == before.len(),
                self.bits@ == before,
                out@ == before.take(p).push(bit) + before.subrange(p, i as int),
            decreases n - i,
        {
            out.push(self.bits[i]);
            proof {
                assert(out@ =~= before.take(p).push(bit) + before.subrange(p, i + 1));
            }
            i += 1;
        }
        self.bits = out;
        proof {
            let after: Seq<u64> = self.bits@;
            assert(after.len() == before.len() + 1);
            assert(forall|j: int| 0 <= j < p ==> after[j] == before[j]);
            assert(after[p] == bit);
            assert(forall|j: int| p < j < after.len() ==> after[j] == before[j - 1]);
            assert(forall|j: int| p <= j < before.len() ==> before[j] > bit) by {
                if p < before.len() {
                    assert(before[p] > bit);
                }
            }
            assert forall|x: u64| after.contains(x) <==> (before.contains(x) || x == bit) by {
                if before.contains(x) {
                    let k = choose|k: int| 0 <= k < before.len() && before[k] == x;
                    if k < p {
                        assert(after[k] == x);
                    } else {
                        assert(after[k + 1] == x);
                    }
                }
                if x == bit {
                    assert(after[p] == x);
                }
                if after.contains(x) {
                    let k = choose|k: int| 0 <= k < after.len() && after[k] == x;
                    if k < p {
                        assert(before[k] == x);
                    } else if k > p {
                        assert(before[k - 1] == x);
                    }
                }
            }
        }
    }

    /// The set of the given numbers, in whatever order they come and
    /// however often.
    pub fn from_values(values: &[u64]) -> (r: BitField)
        ensures
            r.wf(),
            forall|x: u64| r@.contains(x) <==> values@.contains(x),
    {
        let mut r = BitField::new();
        let mut i: usize = 0;
        while i < values.len()
            invariant
                0 <= i <= values.len(),
                r.wf(),
                forall|x: u64| r@.contains(x) <==> values@.take(i as int).contains(x),
            decreases values.len() - i,
        {
            r.set(values[i]);
            proof {
                assert forall|x: u64| r@.contains(x) <==> values@.take(i + 1).contains(x) by {
                    lemma_take_contains(values@, i as int, x);
                }
            }
            i += 1;
        }
        proof {
            assert(values@.take(values@.len() as int) =~= values@);
        }
        r
    }

    /// The set of the numbers that are in either set.
    pub fn union(&self, other: &BitField) -> (r: BitField)
        requires
            self.wf(),
            other.wf(),
        ensures
            r.wf(),
            forall|x: u64| r@.contains(x) <==> (self@.contains(x) || other@.contains(x)),
    {
        let mut r = BitField::from_values(self.bits.as_slice());
        let mut i: usize = 0;
        while i < other.bits.len()
            invariant
                0 <= i <= other.bits.len(),
                r.wf(),
                forall|x: u64|
                    r@.contains(x) <==> (self@.contains(x) || other@.take(i as int).contains(x)),
            decreases other.bits.len() - i,
        {
            r.set(other.bits[i]);
            proof {
                assert forall|x: u64|
                    r@.contains(x) <==> (self@.contains(x) || other@.take(i + 1).contains(
                        x,
                    )) by {
                    lemma_take_contains(other@, i as int, x);
                }
            }
            i += 1;
        }
        proof {
            assert(other@.take(other@.len() as int) =~= other@);
        }
        r
    }

    /// The number of members.
    pub fn len(&self) -> (r: usize)
        ensures
            r == self@.len(),
    {
        self.bits.len()
    }

    /// The members, in increasing order.
    pub fn to_vec(&self) -> (r: Vec<u64>)
        ensures
            r@ == self@,
    {
        copy_numbers(self.bits.as_slice())
    }
}

/// One more element of a sequence is in reach: it, or one of those before.
pub proof fn lemma_take_contains(s: Seq<u64>, i: int, x: u64)
    requires
        0 <= i < s.len(),
    ensures
        s.take(i + 1).contains(x) <==> (s.take(i).contains(x) || x == s[i]),
{
    let short = s.take(i);
    let long = s.take(i + 1);
    if short.contains(x) {
        let k = choose|k: int| 0 <= k < short.len() && short[k] == x;
        assert(long[k] == x);
    }
    if x == s[i] {
        assert(long[i] == x);
    }
    if long.contains(x) {
        let k = choose|k: int| 0 <= k < long.len() && long[k] == x;
        if k < i {
            assert(short[k] == x);
        }
    }
}

/// The same numbers, anew.
pub fn copy_numbers(values: &[u64]) -> (r: Vec<u64>)
    ensures
        r@ == values@,
{
    let mut out: Vec<u64> = Vec::new();
    let mut i: usize = 0;
    while i < values.len()
        invariant
            0 <= i <= values.len(),
            out@ == values@.take(i as int),
        decreases values.len() - i,
    {
        out.push(values[i]);
        proof {
            assert(out@ =~= values@.take(i + 1));
        }
        i += 1;
    }
    proof {
        assert(values@.take(values@.len() as int) =~= values@);
    }
    out
}

/// Sector numbers as they were received: a set that was checked, or a list
/// that still has to be.
#[derive(Debug)]
pub enum UnvalidatedBitField {
    Validated(BitField),
    Unvalidated(Vec<u64>),
}

impl View for UnvalidatedBitField {
    type V = Seq<u64>;

    open spec fn view(&self) -> Seq<u64> {
        match self {
            UnvalidatedBitField::Validated(field) => field@,
            UnvalidatedBitField::Unvalidated(numbers) => numbers@,
        }
    }
}

impl UnvalidatedBitField {
    /// A set that was checked is in order.
    pub open spec fn wf(&self) -> bool {
        match self {
            UnvalidatedBitField::Validated(field) => field.wf(),
            UnvalidatedBitField::Unvalidated(_) => true,
        }
    }

    /// The set that the numbers stand for, where they are strictly
    /// increasing; else `InvalidBitField`.
    pub fn validate(&self) -> (r: Result<BitField, SectorMapError>)
        requires
            self.wf(),
        ensures
            increasing(self@) ==> r is Ok && r->Ok_0@ == self@ && r->Ok_0.wf(),
            !increasing(self@) ==> r == Err::<BitField, SectorMapError>(
                SectorMapError::InvalidBitField,
            ),
    {
        match self {
            UnvalidatedBitField::Validated(field) => Ok(BitField { bits: field.to_vec() }),
            UnvalidatedBitField::Unvalidated(numbers) => {
                let mut i: usize = 1;
                while i < numbers.len()
                    invariant
                        1 <= i,
                        self@ == numbers@,
                        forall|j: int|
                            0 <= j < i - 1 && j + 1 < numbers.len() ==> numbers@[j]
                                < #[trigger] numbers@[j + 1],
                    decreases numbers.len() - i,
                {
                    if numbers[i - 1] >= numbers[i] {
                        proof {
                            let listed = self@;
                            assert(listed == numbers@);
                            if increasing(listed) {
                                assert(listed[i - 1] < listed[i as int]);
                            }
                        }
                        return Err(SectorMapError::InvalidBitField);
                    }
                    i += 1;
                }
                proof {
                    lemma_steps_increase(numbers@);
                }
                Ok(BitField { bits: copy_numbers(numbers.as_slice()) })
            },
        }
    }
}

/// Numbers of which each is greater than the one before are increasing.
pub proof fn lemma_steps_increase(s: Seq<u64>)
    requires
        forall|j: int| 0 <= j < s.len() - 1 ==> s[j] < #[trigger] s[j + 1],
    ensures
        increasing(s),
    decreases s.len(),
{
    if s.len() > 1 {
        let head = s.drop_last();
        assert forall|j: int| 0 <= j < head.len() - 1 implies head[j] < #[trigger] head[j + 1] by {
            assert(head[j] == s[j] && head[j + 1] == s[j + 1]);
        }
        lemma_steps_increase(head);
        assert forall|i: int, j: int| 0 <= i < j < s.len() implies s[i] < s[j] by {
            if j == s.len() - 1 {
                assert(s[j - 1] < s[(j - 1) + 1]);
                if i < j - 1 {
                    assert(head[i] < head[j - 1]);
                }
            } else {
                assert(head[i] < head[j]);
            }
        }
    }
}

/// What a partition map is: its partitions in the order in which they
/// were first recorded, each with its sector numbers.
pub type PartitionView = Seq<(u64, Seq<u64>)>;

/// What a deadline map is: its deadlines in the order in which they were
/// first recorded, each with its partitions.
pub type DeadlineView = Seq<(u64, PartitionView)>;

/// Whether a key is recorded.
pub open spec fn has_key<V>(s: Seq<(u64, V)>, k: u64) -> bool {
    exists|i: int| 0 <= i < s.len() && (#[trigger] s[i]).0 == k
}

/// No key is recorded twice.
pub open spec fn distinct_keys<V>(s: Seq<(u64, V)>) -> bool {
    forall|i: int, j: int| 0 <= i < j < s.len() ==> (#[trigger] s[i]).0 != (#[trigger] s[j]).0
}

/// The number of sectors of a partition map: the first partition whose
/// numbers are not in order, or with which the sum no longer fits, fails it.
pub open spec fn count_sectors(s: PartitionView) -> Result<int, SectorMapError>
    decreases s.len(),
{
    if s.len() == 0 {
        Ok(0)
    } else {
        match count_sectors(s.drop_last()) {
            Err(e) => Err(e),
            Ok(n) => if !increasing(s.last().1) {
                Err(SectorMapError::InvalidBitField)
            } else if n + s.last().1.len() > u64::MAX {
                Err(SectorMapError::Overflow)
            } else {
                Ok(n + s.last().1.len())
            },
        }
    }
}

/// The numbers of partitions and of sectors of a deadline map: the first
/// deadline that cannot be counted, or with which a sum no longer fits,
/// fails it.
pub open spec fn count_all(s: DeadlineView) -> Result<(int, int), SectorMapError>
    decreases s.len(),
{
    if s.len() == 0 {
        Ok((0, 0))
    } else {
        match count_all(s.drop_last()) {
            Err(e) => Err(e),
            Ok(t) => match count_sectors(s.last().1) {
                Err(e) => Err(e),
                Ok(n) => if t.0 + s.last().1.len() > u64::MAX || t.1 + n > u64::MAX {
                    Err(SectorMapError::Overflow)
                } else {
                    Ok((t.0 + s.last().1.len(), t.1 + n))
                },
            },
        }
    }
}

/// A failure found in the first partitions is the failure of the whole map.
pub proof fn lemma_sector_count_fails_for_good(s: PartitionView, k: int)
    requires
        0 <= k <= s.len(),
        count_sectors(s.take(k)) is Err,
    ensures
        count_sectors(s) == count_sectors(s.take(k)),
    decreases s.len() - k,
{
    if k < s.len() {
        assert(s.take(k + 1).drop_last() =~= s.take(k));
        lemma_sector_count_fails_for_good(s, k + 1);
    } else {
        assert(s.take(k) =~= s);
    }
}

/// A failure found in the first deadlines is the failure of the whole map.
pub proof fn lemma_count_fails_for_good(s: DeadlineView, k: int)
    requires
        0 <= k <= s.len(),
        count_all(s.take(k)) is Err,
    ensures
        count_all(s) == count_all(s.take(k)),
    decreases s.len() - k,
{
    if k < s.len() {
        assert(s.take(k + 1).drop_last() =~= s.take(k));
        lemma_count_fails_for_good(s, k + 1);
    } else {
        assert(s.take(k) =~= s);
    }
}

/// Recording sectors at a partition relates the map before, the result and
/// the map after. A partition that is new is recorded as it comes. One
/// that is there gets the union of its sectors and the new ones, where
/// both are in order; else the map stays as it is and the call fails.
pub open spec fn add_rel(
    pre: PartitionView,
    idx: u64,
    sectors: Seq<u64>,
    r: Result<(), SectorMapError>,
    post: PartitionView,
) -> bool {
    &&& !has_key(pre, idx) ==> r is Ok && post == pre.push((idx, sectors))
    &&& forall|i: int|
        0 <= i < pre.len() && (#[trigger] pre[i]).0 == idx ==> if increasing(pre[i].1)
            && increasing(sectors) {
            &&& r is Ok
            &&& post.len() == pre.len()
            &&& post[i].0 == idx
            &&& increasing(post[i].1)
            &&& forall|x: u64|
                post[i].1.contains(x) <==> (pre[i].1.contains(x) || sectors.contains(x))
            &&& forall|j: int| 0 <= j < pre.len() && j != i ==> post[j] == pre[j]
        } else {
            r == Err::<(), SectorMapError>(SectorMapError::InvalidBitField) && post == pre
        }
}

/// Recording sectors at a deadline and partition relates the map before,
/// the result and the map after. A deadline index that is too large is
/// refused. A deadline that is new is recorded with the one partition. One
/// that is there has the sectors recorded in its partition map.
pub open spec fn deadline_add_rel(
    pre: DeadlineView,
    deadline_idx: u64,
    partition_idx: u64,
    sectors: Seq<u64>,
    r: Result<(), SectorMapError>,
    post: DeadlineView,
) -> bool {
    if deadline_idx >= WPOST_PERIOD_DEADLINES {
        r == Err::<(), SectorMapError>(SectorMapError::InvalidDeadline) && post == pre
    } else {
        &&& !has_key(pre, deadline_idx) ==> r is Ok && post == pre.push(
            (deadline_idx, seq![(partition_idx, sectors)]),
        )
        &&& forall|i: int|
            0 <= i < pre.len() && (#[trigger] pre[i]).0 == deadline_idx ==> {
                &&& post.len() == pre.len()
                &&& post[i].0 == deadline_idx
                &&& add_rel(pre[i].1, partition_idx, sectors, r, post[i].1)
                &&& forall|j: int| 0 <= j < pre.len() && j != i ==> post[j] == pre[j]
            }
    }
}

/// How a check against two maxima ends.
pub open spec fn check_spec(s: DeadlineView, max_partitions: u64, max_sectors: u64) -> Result<
    (),
    SectorMapError,
> {
    match count_all(s) {
        Err(e) => Err(e),
        Ok(t) => if t.0 > max_partitions {
            Err(SectorMapError::TooManyPartitions)
        } else if t.1 > max_sectors {
            Err(SectorMapError::TooManySectors)
        } else {
            Ok(())
        },
    }
}

/// Whether a partition is recorded with just these sectors.
pub open spec fn listed(map: PartitionView, entry: (u64, Vec<u64>)) -> bool {
    exists|i: int| 0 <= i < map.len() && (#[trigger] map[i]) == (entry.0, entry.1@)
}

/// Whether a deadline is recorded, and the listing walks its partitions.
pub open spec fn deadline_listed(map: DeadlineView, entry: (u64, Vec<(u64, Vec<u64>)>)) -> bool {
    exists|i: int|
        0 <= i < map.len() && (#[trigger] map[i]).0 == entry.0 && lists(entry.1@, map[i].1)
}

/// Whether a listing walks a partition map in increasing order: its
/// partitions increase, each of them is recorded with just those sectors,
/// and no recorded partition is left out.
pub open spec fn lists(listing: Seq<(u64, Vec<u64>)>, map: PartitionView) -> bool {
    &&& forall|a: int, b: int| 0 <= a < b < listing.len() ==> listing[a].0 < listing[b].0
    &&& forall|j: int| 0 <= j < listing.len() ==> listed(map, #[trigger] listing[j])
    &&& forall|k: u64|
        has_key(map, k) ==> exists|j: int| 0 <= j < listing.len() && (#[trigger] listing[j]).0 == k
}

/// One partition with its sectors.
#[derive(Debug)]
pub struct PartitionEntry {
    pub idx: u64,
    pub sectors: UnvalidatedBitField,
}

/// Maps partitions to sector bitfields.
#[derive(Debug)]
pub struct PartitionSectorMap {
    entries: Vec<PartitionEntry>,
}

impl View for PartitionSectorMap {
    type V = PartitionView;

    closed spec fn view(&self) -> PartitionView {
        Seq::new(self.entries@.len(), |i: int| (self.entries@[i].idx, self.entries@[i].sectors@))
    }
}

impl PartitionSectorMap {
    /// No partition is recorded twice, and what was checked is in order.
    pub closed spec fn wf(&self) -> bool {
        &&& distinct_keys(self@)
        &&& forall|i: int| 0 <= i < self.entries@.len() ==> (#[trigger] self.entries@[i]).sectors.wf()
    }

    /// A map without partitions.
    pub fn new() -> (r: PartitionSectorMap)
        ensures
            r.wf(),
            r@ == Seq::<(u64, Seq<u64>)>::empty(),
    {
        let r = PartitionSectorMap { entries: Vec::new() };
        proof {
            assert(r@ =~= Seq::<(u64, Seq<u64>)>::empty());
        }
        r
    }

    fn find(&self, idx: u64) -> (r: Option<usize>)
        ensures
            match r {
                Some(i) => i < self@.len() && self@[i as int].0 == idx,
                None => !has_key(self@, idx),
            },
    {
        let mut i: usize = 0;
        while i < self.entries.len()
            invariant
                0 <= i <= self.entries.len(),
                self@.len() == self.entries.len(),
                forall|j: int| 0 <= j < i ==> (#[trigger] self@[j]).0 != idx,
            decreases self.entries.len() - i,
        {
            if self.entries[i].idx == idx {
                return Some(i);
            }
            i += 1;
        }
        None
    }

    /// Records the given sectors at the given partition.
    pub fn add_values(&mut self, partition_idx: u64, sector_numbers: Vec<u64>) -> (r: Result<
        (),
        SectorMapError,
    >)
        requires
            old(self).wf(),
        ensures
            final(self).wf(),
            exists|sectors: Seq<u64>|
                increasing(sectors) && (forall|x: u64|
                    sectors.contains(x) <==> sector_numbers@.contains(x)) && #[trigger] add_rel(
                    old(self)@,
                    partition_idx,
                    sectors,
                    r,
                    final(self)@,
                ),
    {
        let field = BitField::from_values(sector_numbers.as_slice());
        let ghost sectors = field@;
        let r = self.add(partition_idx, UnvalidatedBitField::Validated(field));
        proof {
            assert(add_rel(old(self)@, partition_idx, sectors, r, self@));
        }
        r
    }

    /// Records the given sector bitfield at the given partition index,
    /// merging it with what is recorded there.
    pub fn add(&mut self, partition_idx: u64, sector_numbers: UnvalidatedBitField) -> (r: Result<
        (),
        SectorMapError,
    >)
        requires
            old(self).wf(),
            sector_numbers.wf(),
        ensures
            final(self).wf(),
            add_rel(old(self)@, partition_idx, sector_numbers@, r, final(self)@),
    {
        match self.find(partition_idx) {
            Some(i) => {
                let old_field = match self.entries[i].sectors.validate() {
                    Ok(field) => field,
                    Err(e) => {
                        return Err(e);
                    },
                };
                let new_field = match sector_numbers.validate() {
                    Ok(field) => field,
                    Err(e) => {
                        return Err(e);
                    },
                };
                let merged = old_field.union(&new_field);
                let ghost merged_view = merged@;
                self.entries.set(
                    i,
                    PartitionEntry {
                        idx: partition_idx,
                        sectors: UnvalidatedBitField::Validated(merged),
                    },
                );
                proof {
                    let pre = old(self)@;
                    let post = self@;
                    assert(post.len() == pre.len());
                    assert(post[i as int] == (partition_idx, merged_view));
                    assert forall|j: int| 0 <= j < pre.len() && j != i implies post[j]
                        == pre[j] by {}
                    assert(forall|j: int| 0 <= j < pre.len() ==> (#[trigger] post[j]).0 == pre[j].0);
                }
                Ok(())
            },
            None => {
                self.entries.push(PartitionEntry { idx: partition_idx, sectors: sector_numbers });
                proof {
                    let pre = old(self)@;
                    let post = self@;
                    assert(post =~= pre.push((partition_idx, sector_numbers@)));
                    assert forall|i: int, j: int| 0 <= i < j < post.len() implies (#[trigger] post[i]).0
                        != (#[trigger] post[j]).0 by {
                        if j == pre.len() {
                            assert(pre[i].0 != partition_idx);
                        } else {
                            assert(pre[i].0 != pre[j].0);
                        }
                    }
                }
                Ok(())
            },
        }
    }

    /// Counts the partitions and the sectors, without touching the map.
    pub fn tally(&self) -> (r: Result<(u64, u64), SectorMapError>)
        requires
            self.wf(),
        ensures
            match count_sectors(self@) {
                Err(e) => r == Err::<(u64, u64), SectorMapError>(e),
                Ok(n) => r is Ok && r->Ok_0.0 == self@.len() && r->Ok_0.1 == n,
            },
    {
        let mut sectors: u64 = 0;
        let mut i: usize = 0;
        proof {
            assert(self@.take(0) =~= Seq::<(u64, Seq<u64>)>::empty());
        }
        while i < self.entries.len()
            invariant
                0 <= i <= self.entries.len(),
                self@.len() == self.entries.len(),
                self.wf(),
                count_sectors(self@.take(i as int)) == Ok::<int, SectorMapError>(sectors as int),
            decreases self.entries.len() - i,
        {
            proof {
                assert(self@.take(i + 1).drop_last() =~= self@.take(i as int));
                assert(self@.take(i + 1).last() == self@[i as int]);
            }
            let field = match self.entries[i].sectors.validate() {
                Ok(field) => field,
                Err(e) => {
                    proof {
                        lemma_sector_count_fails_for_good(self@, i + 1);
                    }
                    return Err(e);
                },
            };
            let n: usize = field.len();
            if n as u64 > u64::MAX - sectors {
                proof {
                    lemma_sector_count_fails_for_good(self@, i + 1);
                }
                return Err(SectorMapError::Overflow);
            }
            sectors = sectors + n as u64;
            i += 1;
        }
        proof {
            assert(self@.take(self@.len() as int) =~= self@);
        }
        Ok((self.entries.len() as u64, sectors))
    }

    /// Counts the number of partitions and sectors within the map.
    pub fn count(&mut self) -> (r: Result<(u64, u64), SectorMapError>)
        requires
            old(self).wf(),
        ensures
            final(self).wf(),
            final(self)@ == old(self)@,
            match count_sectors(old(self)@) {
                Err(e) => r == Err::<(u64, u64), SectorMapError>(e),
                Ok(n) => r is Ok && r->Ok_0.0 == old(self)@.len() && r->Ok_0.1 == n,
            },
    {
        self.tally()
    }

    /// The partitions of the map, in increasing order.
    pub fn partitions(&self) -> (r: Vec<u64>)
        ensures
            increasing(r@),
            forall|k: u64| r@.contains(k) <==> has_key(self@, k),
    {
        let mut keys: Vec<u64> = Vec::new();
        let mut i: usize = 0;
        while i < self.entries.len()
            invariant
                0 <= i <= self.entries.len(),
                self@.len() == self.entries.len(),
                keys@.len() == i,
                forall|j: int| 0 <= j < i ==> keys@[j] == (#[trigger] self@[j]).0,
            decreases self.entries.len() - i,
        {
            keys.push(self.entries[i].idx);
            i += 1;
        }
        let sorted = BitField::from_values(keys.as_slice());
        let r = sorted.to_vec();
        proof {
            assert forall|k: u64| r@.contains(k) <==> has_key(self@, k) by {
                if keys@.contains(k) {
                    let j = choose|j: int| 0 <= j < keys@.len() && keys@[j] == k;
                    assert(self@[j].0 == k);
                }
                if has_key(self@, k) {
                    let j = choose|j: int| 0 <= j < self@.len() && (#[trigger] self@[j]).0 == k;
                    assert(keys@[j] == k);
                }
            }
        }
        r
    }

    /// The sector numbers recorded at a partition, as they were recorded
    /// or merged.
    pub fn sectors_at(&self, partition_idx: u64) -> (r: Option<Vec<u64>>)
        ensures
            r is Some <==> has_key(self@, partition_idx),
            r is Some ==> exists|i: int|
                0 <= i < self@.len() && (#[trigger] self@[i]) == (partition_idx, r->0@),
    {
        match self.find(partition_idx) {
            Some(i) => {
                let numbers = match &self.entries[i].sectors {
                    UnvalidatedBitField::Validated(field) => field.to_vec(),
                    UnvalidatedBitField::Unvalidated(numbers) => copy_numbers(numbers.as_slice()),
                };
                proof {
                    assert(self@[i as int] == (partition_idx, numbers@));
                }
                Some(numbers)
            },
            None => None,
        }
    }

    /// Walks the partitions in the map, in order of increasing index.
    pub fn iter(&self) -> (r: Vec<(u64, Vec<u64>)>)
        ensures
            lists(r@, self@),
    {
        let keys = self.partitions();
        let mut out: Vec<(u64, Vec<u64>)> = Vec::new();
        let mut j: usize = 0;
        while j < keys.len()
            invariant
                0 <= j <= keys.len(),
                out@.len() == j,
                increasing(keys@),
                forall|k: u64| keys@.contains(k) <==> has_key(self@, k),
                forall|a: int| 0 <= a < j ==> (#[trigger] out@[a]).0 == keys@[a],
                forall|a: int| 0 <= a < j ==> listed(self@, #[trigger] out@[a]),
            decreases keys.len() - j,
        {
            let key: u64 = keys[j];
            proof {
                assert(keys@.contains(key));
            }
            match self.sectors_at(key) {
                Some(numbers) => {
                    let ghost earlier = out@;
                    out.push((key, numbers));
                    proof {
                        assert(forall|a: int| 0 <= a < j ==> out@[a] == earlier[a]);
                    }
                },
                None => {
                    proof {
                        assert(false);
                    }
                },
            }
            j += 1;
        }
        proof {
            assert forall|k: u64| has_key(self@, k) implies exists|a: int|
                0 <= a < out@.len() && (#[trigger] out@[a]).0 == k by {
                let a = choose|a: int| 0 <= a < keys@.len() && keys@[a] == k;
                assert(out@[a].0 == k);
            }
        }
        out
    }

    /// The number of partitions.
    pub fn len(&self) -> (r: usize)
        ensures
            r == self@.len(),
    {
        self.entries.len()
    }

    /// Whether the map has no partition.
    pub fn is_empty(&self) -> (r: bool)
        ensures
            r == (self@.len() == 0),
    {
        self.entries.len() == 0
    }
}

/// One deadline with its partitions.
#[derive(Debug)]
pub struct DeadlineEntry {
    pub idx: u64,
    pub partitions: PartitionSectorMap,
}

/// Maps deadlines to partition maps.
#[derive(Debug)]
pub struct DeadlineSectorMap {
    entries: Vec<DeadlineEntry>,
}

impl View for DeadlineSectorMap {
    type V = DeadlineView;

    closed spec fn view(&self) -> DeadlineView {
        Seq::new(
            self.entries@.len(),
            |i: int| (self.entries@[i].idx, self.entries@[i].partitions@),
        )
    }
}

impl DeadlineSectorMap {
    /// No deadline is recorded twice, and each partition map is in order.
    pub closed spec fn wf(&self) -> bool {
        &&& distinct_keys(self@)
        &&& forall|i: int|
            0 <= i < self.entries@.len() ==> (#[trigger] self.entries@[i]).partitions.wf()
    }

    /// A map without deadlines.
    pub fn new() -> (r: DeadlineSectorMap)
        ensures
            r.wf(),
            r@ == Seq::<(u64, PartitionView)>::empty(),
    {
        let r = DeadlineSectorMap { entries: Vec::new() };
        proof {
            assert(r@ =~= Seq::<(u64, PartitionView)>::empty());
        }
        r
    }

    fn find(&self, idx: u64) -> (r: Option<usize>)
        ensures
            match r {
                Some(i) => i < self@.len() && self@[i as int].0 == idx,
                None => !has_key(self@, idx),
            },
    {
        let mut i: usize = 0;
        while i < self.entries.len()
            invariant
                0 <= i <= self.entries.len(),
                self@.len() == self.entries.len(),
                forall|j: int| 0 <= j < i ==> (#[trigger] self@[j]).0 != idx,
            decreases self.entries.len() - i,
        {
            if self.entries[i].idx == idx {
                return Some(i);
            }
            i += 1;
        }
        None
    }

    /// Checks all bitfields and counts the partitions and sectors of the
    /// map, and fails where a count exceeds its maximum.
    pub fn check(&mut self, max_partitions: u64, max_sectors: u64) -> (r: Result<
        (),
        SectorMapError,
    >)
        requires
            old(self).wf(),
        ensures
            final(self).wf(),
            final(self)@ == old(self)@,
            r == check_spec(old(self)@, max_partitions, max_sectors),
    {
        let (partition_count, sector_count) = match self.count() {
            Ok(counts) => counts,
            Err(e) => {
                return Err(e);
            },
        };
        if partition_count > max_partitions {
            return Err(SectorMapError::TooManyPartitions);
        }
        if sector_count > max_sectors {
            return Err(SectorMapError::TooManySectors);
        }
        Ok(())
    }

    /// Counts the number of partitions and sectors within the map.
    pub fn count(&mut self) -> (r: Result<(u64, u64), SectorMapError>)
        requires
            old(self).wf(),
        ensures
            final(self).wf(),
            final(self)@ == old(self)@,
            match count_all(old(self)@) {
                Err(e) => r == Err::<(u64, u64), SectorMapError>(e),
                Ok(t) => r is Ok && r->Ok_0.0 == t.0 && r->Ok_0.1 == t.1,
            },
    {
        let mut partitions: u64 = 0;
        let mut sectors: u64 = 0;
        let mut i: usize = 0;
        proof {
            assert(self@.take(0) =~= Seq::<(u64, PartitionView)>::empty());
        }
        while i < self.entries.len()
            invariant
                0 <= i <= self.entries.len(),
                self@.len() == self.entries.len(),
                self.wf(),
                count_all(self@.take(i as int)) == Ok::<(int, int), SectorMapError>(
                    (partitions as int, sectors as int),
                ),
            decreases self.entries.len() - i,
        {
            proof {
                assert(self@.take(i + 1).drop_last() =~= self@.take(i as int));
                assert(self@.take(i + 1).last() == self@[i as int]);
            }
            let (partition_count, sector_count) = match self.entries[i].partitions.tally() {
                Ok(counts) => counts,
                Err(e) => {
                    proof {
                        lemma_count_fails_for_good(self@, i + 1);
                    }
                    return Err(e);
                },
            };
            if partition_count > u64::MAX - partitions || sector_count > u64::MAX - sectors {
                proof {
                    lemma_count_fails_for_good(self@, i + 1);
                }
                return Err(SectorMapError::Overflow);
            }
            partitions = partitions + partition_count;
            sectors = sectors + sector_count;
            i += 1;
        }
        proof {
            assert(self@.take(self@.len() as int) =~= self@);
        }
        Ok((partitions, sectors))
    }

    /// Records the given sector bitfield at the given deadline and
    /// partition index.
    pub fn add(
        &mut self,
        deadline_idx: u64,
        partition_idx: u64,
        sector_numbers: UnvalidatedBitField,
    ) -> (r: Result<(), SectorMapError>)
        requires
            old(self).wf(),
            sector_numbers.wf(),
        ensures
            final(self).wf(),
            deadline_add_rel(
                old(self)@,
                deadline_idx,
                partition_idx,
                sector_numbers@,
                r,
                final(self)@,
            ),
    {
        if deadline_idx >= WPOST_PERIOD_DEADLINES {
            return Err(SectorMapError::InvalidDeadline);
        }
        match self.find(deadline_idx) {
            Some(i) => {
                let mut entry = self.entries.remove(i);
                let ghost before = entry.partitions@;
                let r = entry.partitions.add(partition_idx, sector_numbers);
                let ghost after = entry.partitions@;
                self.entries.insert(i, entry);
                proof {
                    let pre = old(self)@;
                    let post = self@;
                    assert(self.entries@ =~= old(self).entries@.update(i as int, entry));
                    assert(post.len() == pre.len());
                    assert(post[i as int] == (deadline_idx, after));
                    assert(pre[i as int] == (deadline_idx, before));
                    assert forall|j: int| 0 <= j < pre.len() && j != i implies post[j]
                        == pre[j] by {}
                    assert(forall|j: int| 0 <= j < pre.len() ==> (#[trigger] post[j]).0 == pre[j].0);
                }
                r
            },
            None => {
                let mut partitions = PartitionSectorMap::new();
                let r = partitions.add(partition_idx, sector_numbers);
                proof {
                    assert(!has_key(Seq::<(u64, Seq<u64>)>::empty(), partition_idx));
                    assert(partitions@ =~= seq![(partition_idx, sector_numbers@)]);
                }
                self.entries.push(DeadlineEntry { idx: deadline_idx, partitions });
                proof {
                    let pre = old(self)@;
                    let post = self@;
                    assert(post =~= pre.push(
                        (deadline_idx, seq![(partition_idx, sector_numbers@)]),
                    ));
                    assert forall|i: int, j: int| 0 <= i < j < post.len() implies (#[trigger] post[i]).0
                        != (#[trigger] post[j]).0 by {
                        if j == pre.len() {
                            assert(pre[i].0 != deadline_idx);
                        } else {
                            assert(pre[i].0 != pre[j].0);
                        }
                    }
                }
                r
            },
        }
    }

    /// Records the given sectors at the given deadline and partition
    /// index.
    pub fn add_values(&mut self, deadline_idx: u64, partition_idx: u64, sector_numbers: &[u64]) -> (r:
        Result<(), SectorMapError>)
        requires
            old(self).wf(),
        ensures
            final(self).wf(),
            exists|sectors: Seq<u64>|
                increasing(sectors) && (forall|x: u64|
                    sectors.contains(x) <==> sector_numbers@.contains(x))
                    && #[trigger] deadline_add_rel(
                    old(self)@,
                    deadline_idx,
                    partition_idx,
                    sectors,
                    r,
                    final(self)@,
                ),
    {
        let field = BitField::from_values(sector_numbers);
        let ghost sectors = field@;
        let r = self.add(deadline_idx, partition_idx, UnvalidatedBitField::Validated(field));
        proof {
            assert(deadline_add_rel(old(self)@, deadline_idx, partition_idx, sectors, r, self@));
        }
        r
    }

    /// The deadlines of the map, in increasing order.
    pub fn deadlines(&self) -> (r: Vec<u64>)
        ensures
            increasing(r@),
            forall|k: u64| r@.contains(k) <==> has_key(self@, k),
    {
        let mut keys: Vec<u64> = Vec::new();
        let mut i: usize = 0;
        while i < self.entries.len()
            invariant
                0 <= i <= self.entries.len(),
                self@.len() == self.entries.len(),
                keys@.len() == i,
                forall|j: int| 0 <= j < i ==> keys@[j] == (#[trigger] self@[j]).0,
            decreases self.entries.len() - i,
        {
            keys.push(self.entries[i].idx);
            i += 1;
        }
        let sorted = BitField::from_values(keys.as_slice());
        let r = sorted.to_vec();
        proof {
            assert forall|k: u64| r@.contains(k) <==> has_key(self@, k) by {
                if keys@.contains(k) {
                    let j = choose|j: int| 0 <= j < keys@.len() && keys@[j] == k;
                    assert(self@[j].0 == k);
                }
                if has_key(self@, k) {
                    let j = choose|j: int| 0 <= j < self@.len() && (#[trigger] self@[j]).0 == k;
                    assert(keys@[j] == k);
                }
            }
        }
        r
    }

    /// The partitions recorded at a deadline, in increasing order; none
    /// where the deadline is not recorded.
    pub fn partitions_at(&self, deadline_idx: u64) -> (r: Option<Vec<u64>>)
        ensures
            r is Some <==> has_key(self@, deadline_idx),
            r is Some ==> increasing(r->0@) && exists|i: int|
                0 <= i < self@.len() && (#[trigger] self@[i]).0 == deadline_idx && forall|k: u64|
                    r->0@.contains(k) <==> has_key(self@[i].1, k),
    {
        match self.find(deadline_idx) {
            Some(i) => {
                let keys = self.entries[i].partitions.partitions();
                proof {
                    assert(self@[i as int].0 == deadline_idx);
                    assert(self@[i as int].1 == self.entries@[i as int].partitions@);
                }
                Some(keys)
            },
            None => None,
        }
    }

    /// The partitions recorded at a deadline with their sectors, in order
    /// of increasing index; none where the deadline is not recorded.
    pub fn listing_at(&self, deadline_idx: u64) -> (r: Option<Vec<(u64, Vec<u64>)>>)
        ensures
            r is Some <==> has_key(self@, deadline_idx),
            r is Some ==> exists|i: int|
                0 <= i < self@.len() && (#[trigger] self@[i]).0 == deadline_idx && lists(
                    r->0@,
                    self@[i].1,
                ),
    {
        match self.find(deadline_idx) {
            Some(i) => {
                let listing = self.entries[i].partitions.iter();
                proof {
                    assert(self@[i as int].0 == deadline_idx);
                    assert(self@[i as int].1 == self.entries@[i as int].partitions@);
                }
                Some(listing)
            },
            None => None,
        }
    }

    /// Walks the deadlines in deadline order, each with its partitions in
    /// order of increasing index.
    pub fn iter(&self) -> (r: Vec<(u64, Vec<(u64, Vec<u64>)>)>)
        ensures
            forall|a: int, b: int| 0 <= a < b < r@.len() ==> r@[a].0 < r@[b].0,
            forall|j: int| 0 <= j < r@.len() ==> deadline_listed(self@, #[trigger] r@[j]),
            forall|k: u64|
                has_key(self@, k) ==> exists|j: int| 0 <= j < r@.len() && (#[trigger] r@[j]).0 == k,
    {
        let keys = self.deadlines();
        let mut out: Vec<(u64, Vec<(u64, Vec<u64>)>)> = Vec::new();
        let mut j: usize = 0;
        while j < keys.len()
            invariant
                0 <= j <= keys.len(),
                out@.len() == j,
                increasing(keys@),
                forall|k: u64| keys@.contains(k) <==> has_key(self@, k),
                forall|a: int| 0 <= a < j ==> (#[trigger] out@[a]).0 == keys@[a],
                forall|a: int| 0 <= a < j ==> deadline_listed(self@, #[trigger] out@[a]),
            decreases keys.len() - j,
        {
            let key: u64 = keys[j];
            proof {
                assert(keys@.contains(key));
            }
            match self.listing_at(key) {
                Some(listing) => {
                    let ghost earlier = out@;
                    out.push((key, listing));
                    proof {
                        assert(forall|a: int| 0 <= a < j ==> out@[a] == earlier[a]);
                    }
                },
                None => {
                    proof {
                        assert(false);
                    }
                },
            }
            j += 1;
        }
        proof {
            assert forall|k: u64| has_key(self@, k) implies exists|a: int|
                0 <= a < out@.len() && (#[trigger] out@[a]).0 == k by {
                let a = choose|a: int| 0 <= a < keys@.len() && keys@[a] == k;
                assert(out@[a].0 == k);
            }
        }
        out
    }

    /// The sector numbers recorded at a deadline and partition.
    pub fn sectors_at(&self, deadline_idx: u64, partition_idx: u64) -> (r: Option<Vec<u64>>)
        requires
            self.wf(),
        ensures
            r is Some <==> exists|i: int|
                0 <= i < self@.len() && (#[trigger] self@[i]).0 == deadline_idx && has_key(
                    self@[i].1,
                    partition_idx,
                ),
            r is Some ==> exists|i: int, j: int|
                0 <= i < self@.len() && (#[trigger] self@[i]).0 == deadline_idx && 0 <= j
                    < self@[i].1.len() && (#[trigger] self@[i].1[j]) == (partition_idx, r->0@),
    {
        match self.find(deadline_idx) {
            Some(i) => {
                let r = self.entries[i].partitions.sectors_at(partition_idx);
                proof {
                    let inner = self@[i as int].1;
                    assert(inner == self.entries@[i as int].partitions@);
                    if r is Some {
                        let j = choose|j: int|
                            0 <= j < inner.len() && (#[trigger] inner[j]) == (
                                partition_idx,
                                r->0@,
                            );
                        assert(self@[i as int].1[j] == (partition_idx, r->0@));
                    }
                    assert forall|k: int|
                        0 <= k < self@.len() && (#[trigger] self@[k]).0 == deadline_idx implies k
                        == i by {
                        if k < i {
                            assert(self@[k].0 != self@[i as int].0);
                        } else if k > i {
                            assert(self@[i as int].0 != self@[k].0);
                        }
                    }
                }
                r
            },
            None => None,
        }
    }
}

} // verus!
