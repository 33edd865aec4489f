use vstd::prelude::*;

verus! {

/// Entries `(item, data index)` whose data indices never decrease.
pub open spec fn is_ordered_by_index<T>(s: Seq<(T, u64)>) -> bool {
    forall|i: int, j: int| 0 <= i <= j < s.len() ==> s[i].1 <= s[j].1
}

/// Whether the last entry reaches `byte`, so that some entry covers it.
pub open spec fn reaches<T>(s: Seq<(T, u64)>, byte: u64) -> bool {
    s.len() > 0 && s.last().1 >= byte
}

/// The number of entries whose data index lies below `byte`.
pub open spec fn count_below<T>(s: Seq<(T, u64)>, byte: u64) -> nat
    decreases s.len(),
{
    if s.len() == 0 {
        0
    } else {
        count_below(s.drop_last(), byte) + if s.last().1 < byte {
            1nat
        } else {
            0nat
        }
    }
}

/// Where the entries below `byte` end and the others begin, `count_below` is that place.
pub proof fn lemma_count_below_boundary<T>(s: Seq<(T, u64)>, byte: u64, p: int)
    requires
        0 <= p <= s.len(),
        forall|j: int| 0 <= j < p ==> #[trigger] s[j].1 < byte,
        forall|j: int| p <= j < s.len() ==> #[trigger] s[j].1 >= byte,
    ensures
        count_below(s, byte) == p,
    decreases s.len(),
{
    if s.len() > 0 {
        let t = s.drop_last();
        if p == s.len() {
            assert forall|j: int| 0 <= j < p - 1 implies #[trigger] t[j].1 < byte by {
                assert(t[j] == s[j]);
            }
            lemma_count_below_boundary(t, byte, p - 1);
        } else {
            assert forall|j: int| 0 <= j < p implies #[trigger] t[j].1 < byte by {
                assert(t[j] == s[j]);
            }
            assert forall|j: int| p <= j < t.len() implies #[trigger] t[j].1 >= byte by {
                assert(t[j] == s[j]);
            }
            lemma_count_below_boundary(t, byte, p);
        }
    }
}

/// The entry at `count_below(s, byte)` is the first one whose data index reaches `byte`.
pub proof fn lemma_first_reaching<T>(s: Seq<(T, u64)>, byte: u64, i: int)
    requires
        is_ordered_by_index(s),
        0 <= i < s.len(),
        s[i].1 >= byte,
        i == 0 || s[i - 1].1 < byte,
    ensures
        count_below(s, byte) == i,
{
    assert forall|j: int| 0 <= j < i implies #[trigger] s[j].1 < byte by {
        assert(s[j].1 <= s[i - 1].1);
    }
    assert forall|j: int| i <= j < s.len() implies #[trigger] s[j].1 >= byte by {
        assert(s[i].1 <= s[j].1);
    }
    lemma_count_below_boundary(s, byte, i);
}

/// On an ordered list that reaches `byte`, `count_below` names an entry: the
/// first one whose data index reaches `byte`.
pub proof fn lemma_count_below_reaching<T>(s: Seq<(T, u64)>, byte: u64)
    requires
        is_ordered_by_index(s),
        reaches(s, byte),
    ensures
        count_below(s, byte) < s.len(),
        s[count_below(s, byte) as int].1 >= byte,
        forall|j: int| 0 <= j < count_below(s, byte) ==> #[trigger] s[j].1 < byte,
    decreases s.len(),
{
    let t = s.drop_last();
    if t.len() > 0 && t.last().1 >= byte {
        lemma_count_below_reaching(t, byte);
        assert(t[count_below(t, byte) as int] == s[count_below(t, byte) as int]);
        assert(s[count_below(t, byte) as int].1 <= s.last().1);
        assert forall|j: int| 0 <= j < count_below(t, byte) implies #[trigger] s[j].1 < byte by {
            assert(t[j] == s[j]);
        }
    } else {
        assert forall|j: int| 0 <= j < t.len() implies #[trigger] s[j].1 < byte by {
            assert(s[j].1 <= s[t.len() - 1].1);
        }
        lemma_count_below_boundary(s, byte, t.len() as int);
    }
}

/// Finds the entry whose data range holds `recall_byte`: the first entry whose
/// data index is at least `recall_byte`.
pub fn binary_search<T: Copy>(recall_byte: u64, ordered_list: &[(T, u64)]) -> (r: (T, u64))
    requires
        is_ordered_by_index(ordered_list@),
        reaches(ordered_list@, recall_byte),
    ensures
        count_below(ordered_list@, recall_byte) < ordered_list@.len(),
        r == ordered_list@[count_below(ordered_list@, recall_byte) as int],
{
    let ghost s = ordered_list@;
    let mut lo: usize = 0;
    let mut hi: usize = ordered_list.len() - 1;
    while lo < hi
        invariant
            s == ordered_list@,
            is_ordered_by_index(s),
            lo <= hi < s.len(),
            s[hi as int].1 >= recall_byte,
            forall|j: int| 0 <= j < lo ==> #[trigger] s[j].1 < recall_byte,
        decreases hi - lo,
    {
        let mid: usize = lo + (hi - lo) / 2;
        if ordered_list[mid].1 < recall_byte {
            assert forall|j: int| 0 <= j < mid + 1 implies #[trigger] s[j].1 < recall_byte by {
                assert(s[j].1 <= s[mid as int].1);
            }
            lo = mid + 1;
        } else {
            hi = mid;
        }
    }
    proof {
        assert forall|j: int| lo <= j < s.len() implies #[trigger] s[j].1 >= recall_byte by {
            assert(s[lo as int].1 <= s[j].1);
        }
        lemma_count_below_boundary(s, recall_byte, lo as int);
    }
    ordered_list[lo]
}


/// The block number and the size of the whole weave up to and including that block.
pub struct BlockWeave {
    /// Block number.
    pub number: u64,
    /// Size of the entire weave including the data of block `number`.
    pub weave_size: u64,
}

/// The blocks of the history that store data, as `(block number, weave size)`
/// in chain order; a block without data has no entry.
pub struct GlobalBlockIndex(pub Vec<(u64, u64)>);

impl View for GlobalBlockIndex {
    type V = Seq<(u64, u64)>;

    open spec fn view(&self) -> Seq<(u64, u64)> {
        self.0@
    }
}

impl GlobalBlockIndex {
    /// The number of the block whose data holds `recall_byte`: the first block
    /// whose weave size reaches it.
    pub fn find_callenge_block(&self, recall_byte: u64) -> (n: u64)
        requires
            is_ordered_by_index(self@),
            reaches(self@, recall_byte),
        ensures
            count_below(self@, recall_byte) < self@.len(),
            n == self@[count_below(self@, recall_byte) as int].0,
    {
        binary_search(recall_byte, self.0.as_slice()).0
    }
}

/// The extrinsic whose data holds `recall_byte`, with the weave index at which its data ends.
pub fn find_recall_tx(recall_byte: u64, sized_extrinsics: &[(usize, u64)]) -> (r: (usize, u64))
    requires
        is_ordered_by_index(sized_extrinsics@),
        reaches(sized_extrinsics@, recall_byte),
    ensures
        count_below(sized_extrinsics@, recall_byte) < sized_extrinsics@.len(),
        r == sized_extrinsics@[count_below(sized_extrinsics@, recall_byte) as int],
{
    binary_search(recall_byte, sized_extrinsics)
}

/// The number of the block whose data holds `recall_byte`.
pub fn find_callenge_block(recall_byte: u64, global_block_index: GlobalBlockIndex) -> (n: u64)
    requires
        is_ordered_by_index(global_block_index@),
        reaches(global_block_index@, recall_byte),
    ensures
        count_below(global_block_index@, recall_byte) < global_block_index@.len(),
        n == global_block_index@[count_below(global_block_index@, recall_byte) as int].0,
{
    global_block_index.find_callenge_block(recall_byte)
}

/// The sum of the sizes.
pub open spec fn total(sizes: Seq<u64>) -> int
    decreases sizes.len(),
{
    if sizes.len() == 0 {
        0
    } else {
        total(sizes.drop_last()) + sizes.last()
    }
}

/// For each extrinsic with data, in order, its position in the block and the
/// weave index at which its data ends: `weave_base` plus the sizes of the data
/// up to and including it.
pub open spec fn sized_extrinsics_spec(weave_base: u64, sizes: Seq<u64>) -> Seq<(usize, u64)>
    decreases sizes.len(),
{
    if sizes.len() == 0 {
        Seq::empty()
    } else {
        let prev = sized_extrinsics_spec(weave_base, sizes.drop_last());
        if sizes.last() > 0 {
            prev.push(((sizes.len() - 1) as usize, (weave_base + total(sizes)) as u64))
        } else {
            prev
        }
    }
}

/// The total of a prefix never exceeds the total of a longer prefix.
pub proof fn lemma_total_prefix(s: Seq<u64>, i: int, j: int)
    requires
        0 <= i <= j <= s.len(),
    ensures
        total(s.take(i)) <= total(s.take(j)),
    decreases j - i,
{
    if i < j {
        assert(s.take(j).drop_last() =~= s.take(j - 1));
        lemma_total_prefix(s, i, j - 1);
    }
}

/// The entries of `sized_extrinsics_spec` are ordered, name extrinsics of the
/// block, and end within `weave_base + total(sizes)`.
pub proof fn lemma_sized_extrinsics_shape(weave_base: u64, sizes: Seq<u64>)
    requires
        weave_base + total(sizes) <= u64::MAX,
    ensures
        is_ordered_by_index(sized_extrinsics_spec(weave_base, sizes)),
        forall|m: int|
            0 <= m < sized_extrinsics_spec(weave_base, sizes).len() ==> {
                let e = #[trigger] sized_extrinsics_spec(weave_base, sizes)[m];
                &&& e.0 < sizes.len()
                &&& weave_base < e.1 <= weave_base + total(sizes)
            },
        sized_extrinsics_spec(weave_base, sizes).len() > 0 ==> sized_extrinsics_spec(
            weave_base,
            sizes,
        ).last().1 == weave_base + total(sizes),
    decreases sizes.len(),
{
    if sizes.len() > 0 {
        let t = sizes.drop_last();
        lemma_total_nonneg(t);
        lemma_sized_extrinsics_shape(weave_base, t);
    }
}

/// Each collected entry names an extrinsic that carries data and ends at
/// `weave_base` plus the sizes up to and including that extrinsic; the data of
/// the first entry starts right at `weave_base`, and that of each later entry
/// right after the end of the entry before it. No entry at all means no data.
pub proof fn lemma_sized_extrinsics_entries(weave_base: u64, sizes: Seq<u64>)
    requires
        weave_base + total(sizes) <= u64::MAX,
        sizes.len() <= usize::MAX,
    ensures
        forall|m: int|
            0 <= m < sized_extrinsics_spec(weave_base, sizes).len() ==> {
                let e = #[trigger] sized_extrinsics_spec(weave_base, sizes)[m];
                &&& e.0 < sizes.len()
                &&& sizes[e.0 as int] > 0
                &&& e.1 == weave_base + total(sizes.take(e.0 + 1))
                &&& m == 0 ==> total(sizes.take(e.0 as int)) == 0
                &&& m > 0 ==> sized_extrinsics_spec(weave_base, sizes)[m - 1].1 == weave_base
                    + total(sizes.take(e.0 as int))
            },
        sized_extrinsics_spec(weave_base, sizes).len() == 0 ==> total(sizes) == 0,
    decreases sizes.len(),
{
    if sizes.len() > 0 {
        let t = sizes.drop_last();
        let out = sized_extrinsics_spec(weave_base, sizes);
        let prev = sized_extrinsics_spec(weave_base, t);
        lemma_total_nonneg(t);
        lemma_sized_extrinsics_entries(weave_base, t);
        lemma_sized_extrinsics_shape(weave_base, t);
        assert(sizes.take(sizes.len() as int) =~= sizes);
        assert(sizes.take(t.len() as int) =~= t);
        if sizes.last() > 0 {
            assert(out == prev.push(((sizes.len() - 1) as usize, (weave_base + total(sizes)) as u64)));
        } else {
            assert(out == prev);
        }
        assert forall|m: int| 0 <= m < out.len() implies {
            let e = #[trigger] out[m];
            &&& e.0 < sizes.len()
            &&& sizes[e.0 as int] > 0
            &&& e.1 == weave_base + total(sizes.take(e.0 + 1))
            &&& m == 0 ==> total(sizes.take(e.0 as int)) == 0
            &&& m > 0 ==> out[m - 1].1 == weave_base + total(sizes.take(e.0 as int))
        } by {
            if m > 0 {
                assert(out[m - 1] == prev[m - 1]);
            }
            if m < prev.len() {
                let e = prev[m];
                assert(out[m] == e);
                lemma_take_drop_last(sizes, e.0 + 1);
                lemma_take_drop_last(sizes, e.0 as int);
            }
        }
    }
}

/// A prefix that leaves out the last size is a prefix of the sizes without it.
proof fn lemma_take_drop_last(sizes: Seq<u64>, x: int)
    requires
        0 <= x < sizes.len(),
    ensures
        sizes.take(x) == sizes.drop_last().take(x),
{
    assert(sizes.take(x) =~= sizes.drop_last().take(x));
}

/// A total is never negative.
pub proof fn lemma_total_nonneg(s: Seq<u64>)
    ensures
        total(s) >= 0,
    decreases s.len(),
{
    if s.len() > 0 {
        lemma_total_nonneg(s.drop_last());
    }
}

/// Whether the data of all extrinsics fits in the weave after `weave_base`
/// without passing the largest data index.
pub fn fits_in_weave(weave_base: u64, data_sizes: &[u64]) -> (r: bool)
    ensures
        r == (weave_base + total(data_sizes@) <= u64::MAX),
{
    let ghost s = data_sizes@;
    let mut acc: u64 = 0;
    let mut index: usize = 0;
    assert(s.take(0) =~= Seq::<u64>::empty());
    assert(s.take(s.len() as int) =~= s);
    while index < data_sizes.len()
        invariant
            s == data_sizes@,
            index <= s.len(),
            acc == total(s.take(index as int)),
            weave_base + acc <= u64::MAX,
            s.take(s.len() as int) == s,
        decreases s.len() - index,
    {
        let tx_size: u64 = data_sizes[index];
        proof {
            assert(s.take(index + 1).drop_last() =~= s.take(index as int));
            lemma_total_prefix(s, index + 1, s.len() as int);
        }
        if tx_size > u64::MAX - weave_base - acc {
            return false;
        }
        acc = acc + tx_size;
        index = index + 1;
    }
    true
}

/// Collects, for each extrinsic that carries data, its position and the weave
/// index at which its data ends, counting from `weave_base`.
pub fn sized_extrinsics(weave_base: u64, data_sizes: &[u64]) -> (r: Vec<(usize, u64)>)
    requires
        weave_base + total(data_sizes@) <= u64::MAX,
    ensures
        r@ == sized_extrinsics_spec(weave_base, data_sizes@),
{
    let ghost s = data_sizes@;
    let mut out: Vec<(usize, u64)> = Vec::new();
    let mut acc: u64 = 0;
    let mut index: usize = 0;
    assert(s.take(0) =~= Seq::<u64>::empty());
    while index < data_sizes.len()
        invariant
            s == data_sizes@,
            weave_base + total(s) <= u64::MAX,
            index <= s.len(),
            acc == total(s.take(index as int)),
            out@ == sized_extrinsics_spec(weave_base, s.take(index as int)),
        decreases s.len() - index,
    {
        let tx_size: u64 = data_sizes[index];
        proof {
            assert(s.take(index + 1).drop_last() =~= s.take(index as int));
            lemma_total_prefix(s, index + 1, s.len() as int);
            assert(s.take(s.len() as int) =~= s);
        }
        if tx_size > 0 {
            out.push((index, weave_base + acc + tx_size));
            acc = acc + tx_size;
        }
        index = index + 1;
    }
    assert(s.take(s.len() as int) =~= s);
    out
}


/// The recall transaction holds the recall byte: when the data of extrinsic
/// `k` spans the weave indices after `weave_base + total(sizes[..k])` up to
/// `weave_base + total(sizes[..k + 1])`, and `byte` lies in that span, then the
/// collected entries are a valid search list that reaches `byte`, and the entry
/// that the search picks for `byte` is extrinsic `k`.
pub proof fn lemma_recall_tx_holds_byte(weave_base: u64, sizes: Seq<u64>, byte: u64, k: int)
    requires
        weave_base + total(sizes) <= u64::MAX,
        0 <= k < sizes.len(),
        weave_base + total(sizes.take(k)) < byte <= weave_base + total(sizes.take(k + 1)),
    ensures
        is_ordered_by_index(sized_extrinsics_spec(weave_base, sizes)),
        reaches(sized_extrinsics_spec(weave_base, sizes), byte),
        count_below(sized_extrinsics_spec(weave_base, sizes), byte) < sized_extrinsics_spec(
            weave_base,
            sizes,
        ).len(),
        sized_extrinsics_spec(weave_base, sizes)[count_below(
            sized_extrinsics_spec(weave_base, sizes),
            byte,
        ) as int] == (k as usize, (weave_base + total(sizes.take(k + 1))) as u64),
    decreases sizes.len(),
{
    let out = sized_extrinsics_spec(weave_base, sizes);
    let t = sizes.drop_last();
    let prev = sized_extrinsics_spec(weave_base, t);
    lemma_total_nonneg(t);
    lemma_sized_extrinsics_shape(weave_base, sizes);
    lemma_sized_extrinsics_shape(weave_base, t);
    assert(sizes.take(k + 1).drop_last() =~= sizes.take(k));
    if k == sizes.len() - 1 {
        assert(sizes.take(k + 1) =~= sizes);
        assert(t =~= sizes.take(k));
        assert(out == prev.push(((sizes.len() - 1) as usize, (weave_base + total(sizes)) as u64)));
        assert(out.drop_last() =~= prev);
        assert forall|j: int| 0 <= j < prev.len() implies #[trigger] prev[j].1 < byte by {}
        lemma_count_below_boundary(prev, byte, prev.len() as int);
        assert(count_below(out, byte) == prev.len());
    } else {
        assert(t.take(k) =~= sizes.take(k));
        assert(t.take(k + 1) =~= sizes.take(k + 1));
        lemma_total_prefix(t, k + 1, t.len() as int);
        assert(t.take(t.len() as int) =~= t);
        lemma_recall_tx_holds_byte(weave_base, t, byte, k);
        if sizes.last() > 0 {
            assert(out == prev.push(((sizes.len() - 1) as usize, (weave_base + total(sizes)) as u64)));
            assert(out.drop_last() =~= prev);
            assert(out[out.len() - 1].1 >= byte);
            assert(count_below(out, byte) == count_below(prev, byte));
            assert(out[count_below(prev, byte) as int] == prev[count_below(prev, byte) as int]);
        }
    }
}

} // verus!
