//! Extracting the split game archive: the parts read as one stream (where a
//! position falls among them), how the entries are shared out among the
//! worker threads, and how much free space the extraction needs.

use vstd::prelude::*;

verus! {

/// Upper bound on extraction worker threads.
pub const MAX_EXTRACT_WORKERS: usize = 8;

/// A seek request on the chained parts, as `std::io::SeekFrom`.
#[derive(Debug, Clone, Copy)]
pub enum SeekPos {
    Start(u64),
    End(i64),
    Current(i64),
}

/// `base` moved by `delta`, saturating at both ends of `u64`.
pub open spec fn moved(base: u64, delta: i64) -> u64 {
    let t = base + delta;
    if t < 0 {
        0
    } else if t > u64::MAX {
        u64::MAX
    } else {
        t as u64
    }
}

fn move_by(base: u64, delta: i64) -> (r: u64)
    ensures
        r == moved(base, delta),
{
    if delta >= 0 {
        base.saturating_add(delta as u64)
    } else {
        let mag: u64 = ((-(delta + 1)) as u64) + 1;
        base.saturating_sub(mag)
    }
}

/// The part a stream position falls in and the offset inside it: the first
/// part whose end is at or past the position (a position on a boundary
/// stays at the end of the earlier part); past the last part, the part
/// count and offset 0.
pub open spec fn locate(sizes: Seq<u64>, rem: int, idx: int) -> (int, int)
    decreases sizes.len() - idx,
{
    if idx < 0 || idx >= sizes.len() {
        (sizes.len() as int, 0)
    } else if rem <= sizes[idx] {
        (idx, rem)
    } else {
        locate(sizes, rem - sizes[idx], idx + 1)
    }
}

/// The total size of parts `a` up to (not including) `b`.
pub open spec fn span(sizes: Seq<u64>, a: int, b: int) -> int
    decreases b - a,
{
    if a < 0 || a >= b || a >= sizes.len() {
        0
    } else {
        sizes[a] + span(sizes, a + 1, b)
    }
}

proof fn lemma_span_nonneg(sizes: Seq<u64>, a: int, b: int)
    ensures
        span(sizes, a, b) >= 0,
    decreases b - a,
{
    if !(a < 0 || a >= b || a >= sizes.len()) {
        lemma_span_nonneg(sizes, a + 1, b);
    }
}

proof fn lemma_locate_from(sizes: Seq<u64>, rem: int, idx: int)
    requires
        0 <= rem,
        0 <= idx <= sizes.len(),
    ensures
        ({
            let (i, off) = locate(sizes, rem, idx);
            &&& rem <= span(sizes, idx, sizes.len() as int) && idx < sizes.len() ==> (idx <= i < sizes.len() && 0
                <= off <= sizes[i] && span(sizes, idx, i) + off == rem)
            &&& rem > span(sizes, idx, sizes.len() as int) ==> i == sizes.len() && off == 0
        }),
    decreases sizes.len() - idx,
{
    let n = sizes.len() as int;
    if idx < n {
        assert(span(sizes, idx, n) == sizes[idx] + span(sizes, idx + 1, n));
        lemma_span_nonneg(sizes, idx + 1, n);
        if rem > sizes[idx] {
            lemma_locate_from(sizes, rem - sizes[idx], idx + 1);
            let (i, off) = locate(sizes, rem - sizes[idx], idx + 1);
            if rem <= span(sizes, idx, n) {
                if idx + 1 == n {
                    assert(span(sizes, n, n) == 0);
                }
                assert(idx + 1 < n);
                assert(span(sizes, idx, i) == sizes[idx] + span(sizes, idx + 1, i));
            }
        } else {
            assert(span(sizes, idx, idx) == 0);
        }
    }
}

/// A seek lands on the byte the position names in the parts read one after
/// another: a position up to the total size falls in a part, at the offset
/// that the sizes of the parts before it make up to the position; a
/// position past the end falls past the last part.
pub proof fn lemma_locate_lands(sizes: Seq<u64>, pos: int)
    requires
        0 <= pos,
    ensures
        ({
            let (i, off) = locate(sizes, pos, 0);
            &&& pos <= span(sizes, 0, sizes.len() as int) && sizes.len() > 0 ==> (0 <= i < sizes.len() && 0 <= off
                <= sizes[i] && span(sizes, 0, i) + off == pos)
            &&& pos > span(sizes, 0, sizes.len() as int) ==> i == sizes.len() && off == 0
        }),
{
    lemma_locate_from(sizes, pos, 0);
}

/// Where a seek lands: the new stream position, the part and the offset
/// inside it. `total_size` is the parts' total size, `current_pos` the
/// position before the seek.
pub fn seek_target(sizes: &[u64], total_size: u64, current_pos: u64, pos: SeekPos) -> (r: (u64, usize, u64))
    ensures
        r.0 == match pos {
            SeekPos::Start(n) => n,
            SeekPos::End(n) => moved(total_size, n),
            SeekPos::Current(n) => moved(current_pos, n),
        },
        (r.1 as int, r.2 as int) == locate(sizes@, r.0 as int, 0),
{
    let new_pos = match pos {
        SeekPos::Start(n) => n,
        SeekPos::End(n) => move_by(total_size, n),
        SeekPos::Current(n) => move_by(current_pos, n),
    };
    let mut remaining: u64 = new_pos;
    let mut idx: usize = 0;
    while idx < sizes.len()
        invariant
            idx <= sizes@.len(),
            new_pos == match pos {
                SeekPos::Start(n) => n,
                SeekPos::End(n) => moved(total_size, n),
                SeekPos::Current(n) => moved(current_pos, n),
            },
            locate(sizes@, new_pos as int, 0) == locate(sizes@, remaining as int, idx as int),
        decreases sizes.len() - idx,
    {
        if remaining <= sizes[idx] {
            return (new_pos, idx, remaining);
        }
        remaining = remaining - sizes[idx];
        idx = idx + 1;
    }
    (new_pos, sizes.len(), 0)
}

/// The worker threads: as many as the machine runs in parallel, at most
/// `MAX_EXTRACT_WORKERS`, and no more than there are entries (at least one).
pub fn worker_count(parallelism: usize, entry_count: usize) -> (r: usize)
    ensures
        r == vstd::math::min(vstd::math::min(parallelism as int, MAX_EXTRACT_WORKERS as int), if entry_count > 1 { entry_count as int } else { 1 }),
{
    let a = if parallelism < MAX_EXTRACT_WORKERS { parallelism } else { MAX_EXTRACT_WORKERS };
    let b = if entry_count > 1 { entry_count } else { 1 };
    if a < b {
        a
    } else {
        b
    }
}

/// The entries one worker extracts: every `worker_count`-th, starting at its
/// own index, so large and small entries spread evenly.
pub fn worker_entries(worker_id: usize, worker_count: usize, entry_count: usize) -> (r: Vec<usize>)
    requires
        worker_count > 0,
    ensures
        forall|i: int| 0 <= i < r@.len() ==> #[trigger] r@[i] < entry_count && r@[i] % worker_count == worker_id % worker_count
            && r@[i] >= worker_id,
        forall|e: usize| worker_id <= e < entry_count && e % worker_count == worker_id % worker_count ==> r@.contains(e),
        forall|i: int, j: int| 0 <= i < j < r@.len() ==> r@[i] < r@[j],
{
    let mut r: Vec<usize> = Vec::new();
    let mut i: usize = worker_id;
    while i < entry_count
        invariant
            worker_count > 0,
            worker_id <= i,
            i % worker_count == worker_id % worker_count,
            forall|k: int| 0 <= k < r@.len() ==> #[trigger] r@[k] < i && r@[k] < entry_count && r@[k]
                % worker_count == worker_id % worker_count && r@[k] >= worker_id,
            forall|e: usize| worker_id <= e < i && e < entry_count && e % worker_count == worker_id % worker_count ==> r@.contains(e),
            forall|a: int, b: int| 0 <= a < b < r@.len() ==> r@[a] < r@[b],
        decreases entry_count - i,
    {
        let ghost r0 = r@;
        r.push(i);
        assert(r@[r@.len() - 1] == i);
        assert forall|e: usize| worker_id <= e < i + 1 && e < entry_count && e % worker_count == worker_id % worker_count implies r@.contains(e) by {
            if e < i {
                assert(r0.contains(e));
                let k = choose|k: int| 0 <= k < r0.len() && r0[k] == e;
                assert(r@[k] == e);
            } else {
                assert(r@[r@.len() - 1] == e);
            }
        }
        if entry_count - i <= worker_count {
            assert forall|e: usize| worker_id <= e < entry_count && e % worker_count == worker_id % worker_count implies r@.contains(e) by {
                if e > i {
                    vstd::arithmetic::div_mod::lemma_mod_equivalence(e as int, i as int, worker_count as int);
                    vstd::arithmetic::div_mod::lemma_small_mod((e - i) as nat, worker_count as nat);
                }
            }
            return r;
        }
        assert((i + worker_count) % (worker_count as int) == (i as int) % (worker_count as int)) by (nonlinear_arith)
            requires
                worker_count > 0,
        ;
        assert forall|e: usize| worker_id <= e < i + worker_count && e < entry_count && e % worker_count == worker_id % worker_count implies r@.contains(e) by {
            if e > i {
                vstd::arithmetic::div_mod::lemma_mod_equivalence(e as int, i as int, worker_count as int);
                vstd::arithmetic::div_mod::lemma_small_mod((e - i) as nat, worker_count as nat);
            } else if e < i + 1 {
            }
        }
        i = i + worker_count;
    }
    r
}

/// Worker `w` of `wc` extracts entry `e`, as `worker_entries` assigns them.
pub open spec fn assigned(e: nat, w: nat, wc: nat) -> bool {
    e >= w && e % wc == w % wc
}

/// Every entry is extracted by exactly one worker: the one whose index is
/// the entry's index modulo the worker count.
pub proof fn lemma_workers_partition_entries(e: nat, wc: nat)
    requires
        wc > 0,
    ensures
        e % wc < wc,
        assigned(e, e % wc, wc),
        forall|w: nat| w < wc && #[trigger] assigned(e, w, wc) ==> w == e % wc,
{
    assert(e >= e % wc && (e % wc) % wc == e % wc) by (nonlinear_arith)
        requires
            wc > 0,
    ;
    assert forall|w: nat| w < wc && #[trigger] assigned(e, w, wc) implies w == e % wc by {
        assert(w % wc == w) by (nonlinear_arith)
            requires
                w < wc,
        ;
    }
}

/// The free space an extraction needs: the entries' total size (the
/// archive's size when the entries report none), less what already-extracted
/// files take, since they are overwritten in place.
pub fn space_needed(entries_total: u64, existing: u64, archive_size: u64) -> (r: u64)
    ensures
        ({
            let total = if entries_total == 0 { archive_size } else { entries_total };
            r == if existing >= total { 0 } else { (total - existing) as u64 }
        }),
{
    let total = if entries_total == 0 { archive_size } else { entries_total };
    total.saturating_sub(existing)
}

} // verus!
