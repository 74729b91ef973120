//! Cutting work into the pieces that one request may carry: block ranges into
//! query windows, pool lists into quote batches.

use vstd::prelude::*;
use crate::primitives::Address;

verus! {

/// Most blocks that one log query may span.
pub const QUERY_WINDOW: u64 = 2000;

/// Most pools that one batched quote call may name.
pub const QUOTE_BATCH: usize = 200;

/// A run of blocks, both ends included.
#[derive(Clone, Copy, Debug, PartialEq, Eq, Structural)]
pub struct BlockRange {
    pub from_block: u64,
    pub to_block: u64,
}

impl BlockRange {
    /// Whether `block` lies in the range.
    pub open spec fn contains(self, block: u64) -> bool {
        self.from_block <= block <= self.to_block
    }

    /// How many blocks the range holds, for `from_block <= to_block`.
    pub open spec fn blocks(self) -> int {
        self.to_block - self.from_block + 1
    }
}

/// Whether `windows` cuts the blocks `from ..= to` into consecutive windows of
/// `size` blocks, the last one holding what is left.
pub open spec fn is_window_partition(windows: Seq<BlockRange>, from: u64, to: u64, size: u64) -> bool {
    &&& windows.len() > 0
    &&& windows.first().from_block == from
    &&& windows.last().to_block == to
    &&& forall|i: int|
        0 <= i < windows.len() ==> 1 <= (#[trigger] windows[i]).blocks() <= size
    &&& forall|i: int| 0 <= i < windows.len() - 1 ==> (#[trigger] windows[i]).blocks() == size
    &&& forall|i: int|
        0 <= i < windows.len() - 1 ==> (#[trigger] windows[i]).to_block + 1 == windows[i + 1].from_block
}

/// The windows of a partition stand in ascending order, apart from each other.
pub proof fn lemma_windows_ascend(windows: Seq<BlockRange>, from: u64, to: u64, size: u64, i: int, j: int)
    requires
        is_window_partition(windows, from, to, size),
        0 <= i < j < windows.len(),
    ensures
        windows[i].to_block < windows[j].from_block,
    decreases j - i,
{
    if i + 1 < j {
        lemma_windows_ascend(windows, from, to, size, i, j - 1);
        assert(windows[j - 1].blocks() >= 1);
        assert(windows[j - 1].to_block + 1 == windows[j - 1 + 1].from_block);
    } else {
        assert(windows[i].to_block + 1 == windows[i + 1].from_block);
    }
}

/// Every block of `from ..= to` lies in a window at or after `k`, provided it
/// does not lie before that window.
proof fn lemma_window_found(windows: Seq<BlockRange>, from: u64, to: u64, size: u64, block: u64, k: int)
    requires
        is_window_partition(windows, from, to, size),
        0 <= k < windows.len(),
        windows[k].from_block <= block <= to,
    ensures
        exists|i: int| 0 <= i < windows.len() && (#[trigger] windows[i]).contains(block),
    decreases windows.len() - k,
{
    if block <= windows[k].to_block {
        assert(windows[k].contains(block));
    } else {
        assert(k < windows.len() - 1);
        assert(windows[k].to_block + 1 == windows[k + 1].from_block);
        lemma_window_found(windows, from, to, size, block, k + 1);
    }
}

/// The windows of a partition cover the range exactly: a block lies in some
/// window if and only if it lies in `from ..= to`, and then in one window only.
pub proof fn lemma_windows_cover(windows: Seq<BlockRange>, from: u64, to: u64, size: u64, block: u64)
    requires
        is_window_partition(windows, from, to, size),
    ensures
        (exists|i: int| 0 <= i < windows.len() && (#[trigger] windows[i]).contains(block)) <==> (from
            <= block <= to),
        forall|i: int, j: int|
            0 <= i < windows.len() && 0 <= j < windows.len() && (#[trigger] windows[i]).contains(block)
                && (#[trigger] windows[j]).contains(block) ==> i == j,
{
    if from <= block <= to {
        lemma_window_found(windows, from, to, size, block, 0);
    }
    assert forall|i: int|
        0 <= i < windows.len() && (#[trigger] windows[i]).contains(block) implies from <= block <= to by {
        if 0 < i {
            lemma_windows_ascend(windows, from, to, size, 0, i);
        }
        if i < windows.len() - 1 {
            lemma_windows_ascend(windows, from, to, size, i, windows.len() - 1);
        }
    }
    assert forall|i: int, j: int|
        0 <= i < windows.len() && 0 <= j < windows.len() && (#[trigger] windows[i]).contains(block) && (
        #[trigger] windows[j]).contains(block) implies i == j by {
        if i < j {
            lemma_windows_ascend(windows, from, to, size, i, j);
        }
        if j < i {
            lemma_windows_ascend(windows, from, to, size, j, i);
        }
    }
}

/// Cuts the blocks `from ..= to` into consecutive windows of `size` blocks;
/// the last window holds what is left. An empty range gives no window.
pub fn block_windows(from: u64, to: u64, size: u64) -> (windows: Vec<BlockRange>)
    requires
        size > 0,
    ensures
        from <= to ==> is_window_partition(windows@, from, to, size),
        from > to ==> windows@.len() == 0,
{
    let mut windows: Vec<BlockRange> = Vec::new();
    if from > to {
        return windows;
    }
    let mut lo: u64 = from;
    loop
        invariant_except_break
            from <= lo <= to,
            size > 0,
            windows@.len() == 0 ==> lo == from,
            windows@.len() > 0 ==> windows@.first().from_block == from && windows@.last().to_block + 1
                == lo,
            forall|i: int| 0 <= i < windows@.len() ==> (#[trigger] windows@[i]).blocks() == size,
            forall|i: int|
                0 <= i < windows@.len() - 1 ==> (#[trigger] windows@[i]).to_block + 1 == windows@[i
                    + 1].from_block,
        ensures
            is_window_partition(windows@, from, to, size),
        decreases to - lo,
    {
        let ghost before = windows@;
        if to - lo < size {
            windows.push(BlockRange { from_block: lo, to_block: to });
            assert forall|i: int| 0 <= i < windows@.len() - 1 implies (#[trigger] windows@[i]).blocks()
                == size by {
                assert(windows@[i] == before[i]);
            }
            assert forall|i: int| 0 <= i < windows@.len() - 1 implies (#[trigger] windows@[i]).to_block
                + 1 == windows@[i + 1].from_block by {
                assert(windows@[i] == before[i]);
                if i + 1 < before.len() {
                    assert(windows@[i + 1] == before[i + 1]);
                }
            }
            assert forall|i: int| 0 <= i < windows@.len() implies 1 <= (#[trigger] windows@[i]).blocks()
                <= size by {
                if i < before.len() {
                    assert(windows@[i] == before[i]);
                }
            }
            break;
        }
        let hi: u64 = lo + (size - 1);
        windows.push(BlockRange { from_block: lo, to_block: hi });
        assert forall|i: int| 0 <= i < windows@.len() implies (#[trigger] windows@[i]).blocks() == size by {
            if i < before.len() {
                assert(windows@[i] == before[i]);
            }
        }
        assert forall|i: int| 0 <= i < windows@.len() - 1 implies (#[trigger] windows@[i]).to_block + 1
            == windows@[i + 1].from_block by {
            assert(windows@[i] == before[i]);
            if i + 1 < before.len() {
                assert(windows@[i + 1] == before[i + 1]);
            }
        }
        lo = hi + 1;
    }
    windows
}

/// How far a scan of `from ..= to` has come when it reaches `block`, in
/// percent of the distance from `from` to `to`, rounded down. A scan of a
/// single block starts, and stays, at 0.
pub open spec fn spec_progress_percent(from: u64, to: u64, block: u64) -> int {
    if from == to {
        0
    } else {
        100 * (block - from) / ((to - from) as int)
    }
}

/// How far a scan of `from ..= to` has come when it reaches `block`.
pub fn progress_percent(from: u64, to: u64, block: u64) -> (percent: u64)
    requires
        from <= block <= to,
    ensures
        percent == spec_progress_percent(from, to, block),
        percent <= 100,
{
    if from == to {
        0
    } else {
        let done: u128 = (block - from) as u128;
        let all: u128 = (to - from) as u128;
        let percent: u128 = 100 * done / all;
        assert(100 * done / (all as int) <= 100) by (nonlinear_arith)
            requires
                0 <= done <= all,
                all > 0,
        ;
        percent as u64
    }
}

/// The pools of `batches`, one batch after the other.
pub open spec fn joined(batches: Seq<Vec<Address>>) -> Seq<Address>
    decreases batches.len(),
{
    if batches.len() == 0 {
        Seq::empty()
    } else {
        joined(batches.drop_last()) + batches.last()@
    }
}

/// Whether `batches` cuts `pools` into consecutive batches of `size` pools,
/// the last one holding what is left.
pub open spec fn is_batching(batches: Seq<Vec<Address>>, pools: Seq<Address>, size: usize) -> bool {
    &&& joined(batches) == pools
    &&& forall|i: int| 0 <= i < batches.len() ==> 1 <= (#[trigger] batches[i])@.len() <= size
    &&& forall|i: int| 0 <= i < batches.len() - 1 ==> (#[trigger] batches[i])@.len() == size
}

/// Cuts `pools` into consecutive batches of `size` pools; the last batch
/// holds what is left. No pool gives no batch.
pub fn quote_batches(pools: &Vec<Address>, size: usize) -> (batches: Vec<Vec<Address>>)
    requires
        size > 0,
    ensures
        is_batching(batches@, pools@, size),
{
    let mut batches: Vec<Vec<Address>> = Vec::new();
    let mut current: Vec<Address> = Vec::new();
    let mut i: usize = 0;
    assert(pools@.take(0) =~= Seq::<Address>::empty());
    while i < pools.len()
        invariant
            i <= pools.len(),
            size > 0,
            current@.len() < size,
            joined(batches@) + current@ == pools@.take(i as int),
            forall|k: int| 0 <= k < batches@.len() ==> (#[trigger] batches@[k])@.len() == size,
        decreases pools.len() - i,
    {
        let ghost before = batches@;
        let ghost open_batch = current@;
        current.push(pools[i]);
        assert(joined(before) + open_batch.push(pools@[i as int]) =~= pools@.take(i + 1)) by {
            assert(pools@.take(i + 1) =~= pools@.take(i as int).push(pools@[i as int]));
        }
        if current.len() == size {
            batches.push(current);
            current = Vec::new();
            assert(batches@.drop_last() =~= before);
            assert(joined(batches@) + current@ =~= pools@.take(i + 1));
            assert forall|k: int| 0 <= k < batches@.len() implies (#[trigger] batches@[k])@.len()
                == size by {
                if k < before.len() {
                    assert(batches@[k] == before[k]);
                }
            }
        }
        i += 1;
    }
    assert(pools@.take(pools.len() as int) =~= pools@);
    if current.len() > 0 {
        let ghost before = batches@;
        let ghost open_batch = current@;
        batches.push(current);
        assert(batches@.drop_last() =~= before);
        assert forall|k: int| 0 <= k < batches@.len() implies 1 <= (#[trigger] batches@[k])@.len()
            <= size by {
            if k < before.len() {
                assert(batches@[k] == before[k]);
            }
        }
        assert forall|k: int| 0 <= k < batches@.len() - 1 implies (#[trigger] batches@[k])@.len()
            == size by {
            assert(batches@[k] == before[k]);
        }
    } else {
        assert(joined(batches@) + current@ =~= joined(batches@));
    }
    batches
}

} // verus!
