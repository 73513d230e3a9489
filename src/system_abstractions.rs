use std::collections::HashMap;
use vstd::prelude::*;

use crate::event_list::{pushed, Event, EventList, EventView, Metadata};

verus! {

broadcast use vstd::std_specs::hash::group_hash_axioms;

/// Job states, as carried in event payloads.
pub const ARRIVED: i32 = 1;
pub const ENTERED: i32 = 2;
pub const MEMORY_READY: i32 = 3;
pub const RUNNING: i32 = 4;
pub const CPU_FREED: i32 = 5;
pub const MEMORY_FREED: i32 = 6;

/// `x` brought into the range of `i32`.
pub open spec fn clamp_i32(x: int) -> i32 {
    if x > i32::MAX {
        i32::MAX
    } else if x < i32::MIN {
        i32::MIN
    } else {
        x as i32
    }
}

/// `x` held at the bounds of `i32`.
pub fn clamp_to_i32(x: i64) -> (r: i32)
    ensures
        r == clamp_i32(x as int),
{
    if x > i32::MAX as i64 {
        i32::MAX
    } else if x < i32::MIN as i64 {
        i32::MIN
    } else {
        x as i32
    }
}

/// `a + b`, held at the bounds of `i32` instead of overflowing.
pub fn saturating_add_i32(a: i32, b: i32) -> (r: i32)
    ensures
        r == clamp_i32(a + b),
{
    clamp_to_i32(a as i64 + b as i64)
}

/// A job as it travels through event payloads and resource queues.
#[derive(Clone, Copy, Debug, PartialEq, Eq, Structural)]
pub struct Job {
    pub id: i32,
    pub state: i32,
    pub memory_size: i32,
    pub cpu_time: i32,
}


/// Remaining CPU quantum of each job that has been dispatched and has not
/// completed.
pub struct JobTable {
    table: HashMap<i32, i32>,
}

impl View for JobTable {
    type V = Map<i32, i32>;

    closed spec fn view(&self) -> Map<i32, i32> {
        self.table@
    }
}

/// The table after a preemption of `job_id` by `time_slice`.
pub open spec fn paused(t: Map<i32, i32>, job_id: i32, time_slice: i32) -> Map<i32, i32> {
    if t.contains_key(job_id) {
        t.insert(job_id, clamp_i32(t[job_id] - time_slice))
    } else {
        t
    }
}

/// Remaining quantum of `job_id`, or -1 when it is not registered.
pub open spec fn remaining_of(t: Map<i32, i32>, job_id: i32) -> i32 {
    if t.contains_key(job_id) {
        t[job_id]
    } else {
        -1i32
    }
}

impl JobTable {
    pub fn new() -> (r: Self)
        ensures
            r@ == Map::<i32, i32>::empty(),
    {
        JobTable { table: HashMap::new() }
    }

    /// Registers `job_id` with its full CPU demand.
    pub fn add_job(&mut self, job_id: i32, execution_time: i32)
        ensures
            final(self)@ == old(self)@.insert(job_id, execution_time),
    {
        self.table.insert(job_id, execution_time);
    }

    /// Takes one time slice off the remaining quantum of `job_id`, if it is
    /// registered.
    pub fn pause_job(&mut self, job_id: i32, time_slice: i32)
        ensures
            final(self)@ == paused(old(self)@, job_id, time_slice),
    {
        match self.table.get(&job_id) {
            Some(remaining) => {
                let updated = clamp_to_i32(*remaining as i64 - time_slice as i64);
                self.table.insert(job_id, updated);
            },
            None => {},
        }
    }

    pub fn get_time_remaining(&self, job_id: i32) -> (r: i32)
        ensures
            r == remaining_of(self@, job_id),
    {
        match self.table.get(&job_id) {
            Some(remaining) => *remaining,
            None => -1,
        }
    }

    pub fn contains_job(&self, job_id: i32) -> (r: bool)
        ensures
            r == self@.contains_key(job_id),
    {
        self.table.contains_key(&job_id)
    }

    /// Forgets `job_id` once it has completed.
    pub fn remove_job(&mut self, job_id: i32)
        ensures
            final(self)@ == old(self)@.remove(job_id),
    {
        self.table.remove(&job_id);
    }

    /// How many jobs are registered.
    pub fn len(&self) -> (r: usize)
        ensures
            r == self@.len(),
    {
        self.table.len()
    }
}

/// A contiguous region of memory, owned by a job while it is allocated.
#[derive(Clone, Copy, Debug, PartialEq, Eq, Structural)]
pub struct Segment {
    pub id: i32,
    pub start_address: i32,
    pub size: i32,
    pub owner: Option<Job>,
}

/// First address past the segment.
pub open spec fn seg_end(s: Segment) -> int {
    s.start_address + s.size
}

/// Where the gap before the `k`-th segment begins (gap `len` is the one
/// after the last segment).
pub open spec fn gap_start(segs: Seq<Segment>, k: int) -> int {
    if k == 0 {
        0
    } else {
        seg_end(segs[k - 1])
    }
}

/// Where the `k`-th gap ends.
pub open spec fn gap_end(segs: Seq<Segment>, total: int, k: int) -> int {
    if k < segs.len() {
        segs[k].start_address as int
    } else {
        total
    }
}

pub open spec fn gap_size(segs: Seq<Segment>, total: int, k: int) -> int {
    gap_end(segs, total, k) - gap_start(segs, k)
}

/// The `k`-th gap can hold `size` units.
pub open spec fn fits_at(segs: Seq<Segment>, total: int, size: int, k: int) -> bool {
    0 <= k <= segs.len() && gap_size(segs, total, k) >= size
}

/// First-fit from gap `k` on: the first gap at or after `k` that holds `size`.
pub open spec fn fit_from(segs: Seq<Segment>, total: int, size: int, k: int) -> Option<int>
    decreases segs.len() + 1 - k,
{
    if k < 0 || k > segs.len() {
        None
    } else if gap_size(segs, total, k) >= size {
        Some(k)
    } else {
        fit_from(segs, total, size, k + 1)
    }
}

/// The gap that first-fit picks for `size` units, if any.
pub open spec fn first_fit(segs: Seq<Segment>, total: int, size: int) -> Option<int> {
    fit_from(segs, total, size, 0)
}

/// The segments are ordered by address, disjoint, and lie in `[0, total)`.
pub open spec fn segments_wf(segs: Seq<Segment>, total: int) -> bool {
    &&& 0 <= total <= i32::MAX
    &&& forall|k: int| 0 <= k <= segs.len() ==> #[trigger] gap_size(segs, total, k) >= 0
    &&& forall|i: int|
        0 <= i < segs.len() ==> 0 <= (#[trigger] segs[i]).start_address && 0 <= segs[i].size
            && seg_end(segs[i]) <= total
}

/// Sum of the sizes of the segments.
pub open spec fn sum_sizes(segs: Seq<Segment>) -> int
    decreases segs.len(),
{
    if segs.len() == 0 {
        0
    } else {
        sum_sizes(segs.drop_last()) + segs.last().size
    }
}

pub open spec fn owned_by(s: Segment, job_id: i32) -> bool {
    s.owner matches Some(o) && o.id == job_id
}

/// The segments left once those of `job_id` are removed.
pub open spec fn without_owner(segs: Seq<Segment>, job_id: i32) -> Seq<Segment>
    decreases segs.len(),
{
    if segs.len() == 0 {
        segs
    } else if owned_by(segs.last(), job_id) {
        without_owner(segs.drop_last(), job_id)
    } else {
        without_owner(segs.drop_last(), job_id).push(segs.last())
    }
}

/// The id given to the segment after one with `id`; the counter stops at
/// the largest `i32`.
pub open spec fn next_id_after(id: i32) -> i32 {
    if id < i32::MAX {
        (id + 1) as i32
    } else {
        id
    }
}

/// The mathematical value of a `Memory`.
pub struct MemoryView {
    pub total: i32,
    pub next_id: i32,
    pub segments: Seq<Segment>,
}

/// Every recorded segment has an owner: free space is never stored.
pub open spec fn all_owned(segs: Seq<Segment>) -> bool {
    forall|i: int| 0 <= i < segs.len() ==> (#[trigger] segs[i]).owner is Some
}

/// Releasing segments leaves only owned ones.
pub proof fn lemma_without_owner_all_owned(segs: Seq<Segment>, job_id: i32)
    requires
        all_owned(segs),
    ensures
        all_owned(without_owner(segs, job_id)),
    decreases segs.len(),
{
    if segs.len() > 0 {
        let p = segs.drop_last();
        assert forall|i: int| 0 <= i < p.len() implies (#[trigger] p[i]).owner is Some by {
            assert(p[i] == segs[i]);
        }
        lemma_without_owner_all_owned(p, job_id);
        assert(segs[segs.len() - 1].owner is Some);
    }
}

impl MemoryView {
    pub open spec fn wf(self) -> bool {
        segments_wf(self.segments, self.total as int) && all_owned(self.segments)
    }

    /// The gap that an allocation of `size` units takes, if any.
    pub open spec fn placement(self, size: int) -> Option<int> {
        if size < 0 {
            None
        } else {
            first_fit(self.segments, self.total as int, size)
        }
    }

    /// The segment that an allocation into gap `k` records.
    pub open spec fn new_segment(self, job: Job, size: i32, k: int) -> Segment {
        Segment {
            id: self.next_id,
            start_address: gap_start(self.segments, k) as i32,
            size,
            owner: Some(job),
        }
    }

    /// The memory after a successful allocation into gap `k`.
    pub open spec fn allocated(self, job: Job, size: i32, k: int) -> MemoryView {
        MemoryView {
            total: self.total,
            next_id: next_id_after(self.next_id),
            segments: self.segments.insert(k, self.new_segment(job, size, k)),
        }
    }

    /// The memory after an allocation attempt, whether it succeeds or not.
    pub open spec fn after_alloc(self, job: Job, size: i32) -> MemoryView {
        match self.placement(size as int) {
            Some(k) => self.allocated(job, size, k),
            None => self,
        }
    }

    /// The memory after every segment of `job_id` is released.
    pub open spec fn after_dealloc(self, job_id: i32) -> MemoryView {
        MemoryView { segments: without_owner(self.segments, job_id), ..self }
    }

    /// Free space: capacity less what the segments hold.
    pub open spec fn available(self) -> int {
        self.total - sum_sizes(self.segments)
    }
}

/// First-fit finds a gap exactly when some gap is large enough, and then the
/// first such gap.
pub proof fn lemma_fit_from(segs: Seq<Segment>, total: int, size: int, k: int)
    requires
        0 <= k <= segs.len() + 1,
    ensures
        match fit_from(segs, total, size, k) {
            Some(f) => k <= f <= segs.len() && fits_at(segs, total, size, f) && forall|j: int|
                k <= j < f ==> !#[trigger] fits_at(segs, total, size, j),
            None => forall|j: int| k <= j <= segs.len() ==> !#[trigger] fits_at(segs, total, size, j),
        },
    decreases segs.len() + 1 - k,
{
    if k <= segs.len() && gap_size(segs, total, k) < size {
        lemma_fit_from(segs, total, size, k + 1);
    }
}

/// An allocation of `size >= 0` units fails exactly when no single gap
/// between the segments (or after the last one) is at least `size` large,
/// whatever the free space adds up to; when it succeeds it takes the first
/// gap in address order that is large enough.
pub proof fn lemma_alloc_fails_iff_no_gap(m: MemoryView, size: int)
    requires
        size >= 0,
    ensures
        m.placement(size) is None <==> forall|k: int|
            0 <= k <= m.segments.len() ==> gap_size(m.segments, m.total as int, k) < size,
        m.placement(size) matches Some(f) ==> fits_at(m.segments, m.total as int, size, f)
            && forall|j: int| 0 <= j < f ==> !#[trigger] fits_at(m.segments, m.total as int, size, j),
{
    lemma_fit_from(m.segments, m.total as int, size, 0);
    if m.placement(size) is None {
        assert forall|k: int| 0 <= k <= m.segments.len() implies gap_size(
            m.segments,
            m.total as int,
            k,
        ) < size by {
            assert(!fits_at(m.segments, m.total as int, size, k));
        }
    }
}

/// The segments of well-formed memory never hold more than its capacity.
pub proof fn lemma_sum_sizes_bounded(segs: Seq<Segment>, total: int)
    requires
        segments_wf(segs, total),
    ensures
        0 <= sum_sizes(segs) <= gap_start(segs, segs.len() as int),
        gap_start(segs, segs.len() as int) <= total,
    decreases segs.len(),
{
    if segs.len() > 0 {
        let p = segs.drop_last();
        let n = segs.len() as int;
        assert(gap_size(segs, total, n) >= 0);
        assert(gap_size(segs, total, n - 1) >= 0);
        assert forall|k: int| 0 <= k <= p.len() implies #[trigger] gap_size(p, segs[n - 1].start_address as int, k) >= 0 by {
            assert(gap_size(segs, total, k) >= 0);
            if k > 0 {
                assert(p[k - 1] == segs[k - 1]);
            }
        }
        assert forall|i: int| 0 <= i < p.len() implies 0 <= (#[trigger] p[i]).start_address && 0 <= p[i].size
            && seg_end(p[i]) <= segs[n - 1].start_address by {
            assert(segs[i] == p[i]);
            lemma_gap_chain(segs, total, i, n - 1);
        }
        lemma_sum_sizes_bounded(p, segs[n - 1].start_address as int);
    }
}

/// In well-formed memory a segment ends before a later one starts.
pub proof fn lemma_gap_chain(segs: Seq<Segment>, total: int, i: int, j: int)
    requires
        segments_wf(segs, total),
        0 <= i < j < segs.len(),
    ensures
        seg_end(segs[i]) <= segs[j].start_address,
    decreases j - i,
{
    assert(gap_size(segs, total, j) >= 0);
    if i + 1 < j {
        lemma_gap_chain(segs, total, i, j - 1);
        assert(segs[j - 1].size >= 0);
    }
}

/// Variable-partition memory: a capacity and the allocated segments, kept in
/// ascending address order.
#[derive(Clone, Debug)]
pub struct Memory {
    total_memory: i32,
    next_segment_id: i32,
    segments: Vec<Segment>,
}

impl View for Memory {
    type V = MemoryView;

    closed spec fn view(&self) -> MemoryView {
        MemoryView {
            total: self.total_memory,
            next_id: self.next_segment_id,
            segments: self.segments@,
        }
    }
}

impl Segment {
    pub fn end_address(&self) -> (r: i32)
        requires
            seg_end(*self) <= i32::MAX,
            seg_end(*self) >= i32::MIN,
        ensures
            r == seg_end(*self),
    {
        self.start_address + self.size
    }
}

impl Memory {
    /// Empty memory of capacity `number`.
    pub fn new(number: i32) -> (r: Self)
        requires
            number >= 0,
        ensures
            r@ == (MemoryView { total: number, next_id: 1, segments: Seq::empty() }),
            r@.wf(),
    {
        Memory { total_memory: number, next_segment_id: 1, segments: Vec::new() }
    }

    /// First-fit search: the index of the first gap that holds `size` units
    /// and where that gap starts.
    fn allocate_segment(&self, size: i32) -> (r: Option<(usize, i32)>)
        requires
            self@.wf(),
            size >= 0,
        ensures
            match r {
                Some((k, start)) => first_fit(self@.segments, self@.total as int, size as int)
                    == Some(k as int) && start == gap_start(self@.segments, k as int),
                None => first_fit(self@.segments, self@.total as int, size as int) is None,
            },
    {
        let ghost segs = self@.segments;
        let ghost total = self@.total as int;
        let mut start_address: i32 = 0;
        let mut i: usize = 0;
        while i < self.segments.len()
            invariant
                self@.wf(),
                segs == self@.segments,
                total == self@.total as int,
                0 <= i <= segs.len(),
                start_address == gap_start(segs, i as int),
                first_fit(segs, total, size as int) == fit_from(segs, total, size as int, i as int),
            decreases segs.len() - i,
        {
            assert(gap_size(segs, total, i as int) >= 0);
            let gap = self.segments[i].start_address - start_address;
            if gap >= size {
                return Some((i, start_address));
            }
            assert(segs[i as int] == self.segments@[i as int]);
            start_address = self.segments[i].end_address();
            i = i + 1;
        }
        assert(gap_size(segs, total, i as int) == self.total_memory - start_address);
        assert(fit_from(segs, total, size as int, i as int + 1) is None);
        if self.total_memory - start_address >= size {
            Some((i, start_address))
        } else {
            None
        }
    }

    /// Allocates `size` units to `job` in the first gap large enough, and
    /// records the new segment under the next id. Fails when `size` is
    /// negative or no gap is large enough.
    pub fn allocate(&mut self, job: Job, size: i32) -> (r: Result<Segment, &'static str>)
        requires
            old(self)@.wf(),
        ensures
            final(self)@.wf(),
            final(self)@ == old(self)@.after_alloc(job, size),
            match r {
                Ok(seg) => old(self)@.placement(size as int) matches Some(k) && seg
                    == old(self)@.new_segment(job, size, k),
                Err(_) => old(self)@.placement(size as int) is None,
            },
    {
        if size < 0 {
            return Err("memory allocation failed: negative size");
        }
        match self.allocate_segment(size) {
            Some((k, start)) => {
                let ghost old_m = self@;
                proof {
                    lemma_fit_from(old_m.segments, old_m.total as int, size as int, 0);
                }
                let seg = Segment {
                    id: self.next_segment_id,
                    start_address: start,
                    size,
                    owner: Some(job),
                };
                self.segments.insert(k, seg);
                if self.next_segment_id < i32::MAX {
                    self.next_segment_id = self.next_segment_id + 1;
                }
                proof {
                    let segs = old_m.segments;
                    let total = old_m.total as int;
                    let n = self.segments@;
                    assert(n == segs.insert(k as int, seg));
                    assert(self@ == old_m.allocated(job, size, k as int));
                    assert(gap_size(segs, total, k as int) >= size);
                    assert forall|j: int| 0 <= j <= n.len() implies #[trigger] gap_size(n, total, j) >= 0 by {
                        if j < k {
                            assert(gap_size(segs, total, j) >= 0);
                            if j > 0 {
                                assert(n[j - 1] == segs[j - 1]);
                            }
                            assert(n[j] == segs[j]);
                        } else if j == k {
                            if j > 0 {
                                assert(n[j - 1] == segs[j - 1]);
                            }
                        } else if j == k + 1 {
                            if j < n.len() {
                                assert(n[j] == segs[j - 1]);
                            }
                        } else {
                            assert(gap_size(segs, total, j - 1) >= 0);
                            assert(n[j - 1] == segs[j - 2]);
                            if j < n.len() {
                                assert(n[j] == segs[j - 1]);
                            }
                        }
                    }
                    assert forall|i: int| 0 <= i < n.len() implies (#[trigger] n[i]).owner is Some by {
                        if i < k {
                            assert(n[i] == segs[i]);
                        } else if i > k {
                            assert(n[i] == segs[i - 1]);
                        }
                    }
                    assert forall|i: int| 0 <= i < n.len() implies 0 <= (#[trigger] n[i]).start_address
                        && 0 <= n[i].size && seg_end(n[i]) <= total by {
                        if i < k {
                            assert(n[i] == segs[i]);
                        } else if i == k {
                            if k > 0 {
                                assert(0 <= segs[k - 1].start_address);
                            }
                            if k < segs.len() {
                                assert(segs[k as int].start_address <= total);
                            }
                        } else {
                            assert(n[i] == segs[i - 1]);
                        }
                    }
                }
                Ok(seg)
            },
            None => Err("memory allocation failed: no free region is large enough"),
        }
    }

    /// Releases every segment owned by `job`.
    pub fn dealloc(&mut self, job: Job)
        requires
            old(self)@.wf(),
        ensures
            final(self)@.wf(),
            final(self)@ == old(self)@.after_dealloc(job.id),
    {
        let ghost old_m = self@;
        let mut kept: Vec<Segment> = Vec::new();
        let mut i: usize = 0;
        while i < self.segments.len()
            invariant
                self@ == old_m,
                0 <= i <= old_m.segments.len(),
                kept@ == without_owner(old_m.segments.subrange(0, i as int), job.id),
            decreases old_m.segments.len() - i,
        {
            let s = self.segments[i];
            proof {
                assert(old_m.segments.subrange(0, i as int + 1).drop_last() =~= old_m.segments.subrange(0, i as int));
            }
            let owned = match s.owner {
                Some(o) => o.id == job.id,
                None => false,
            };
            if !owned {
                kept.push(s);
            }
            i = i + 1;
        }
        proof {
            assert(old_m.segments.subrange(0, old_m.segments.len() as int) =~= old_m.segments);
        }
        self.segments = kept;
        proof {
            lemma_without_owner_wf(old_m.segments, old_m.total as int, job.id);
            lemma_without_owner_all_owned(old_m.segments, job.id);
        }
    }

    /// The allocated segments, in ascending address order.
    pub fn segments(&self) -> (r: &Vec<Segment>)
        ensures
            r@ == self@.segments,
    {
        &self.segments
    }

    pub fn total_memory(&self) -> (r: i32)
        ensures
            r == self@.total,
    {
        self.total_memory
    }

    /// Capacity less the sizes of the allocated segments; never negative.
    pub fn available_memory(&self) -> (r: i32)
        requires
            self@.wf(),
        ensures
            r == self@.available(),
            r >= 0,
    {
        let ghost segs = self@.segments;
        proof {
            lemma_sum_sizes_bounded(segs, self@.total as int);
        }
        let mut used: i32 = 0;
        let mut i: usize = 0;
        while i < self.segments.len()
            invariant
                self@.wf(),
                segs == self@.segments,
                0 <= i <= segs.len(),
                used == sum_sizes(segs.subrange(0, i as int)),
                0 <= sum_sizes(segs) <= self@.total,
            decreases segs.len() - i,
        {
            proof {
                assert(segs.subrange(0, i as int + 1).drop_last() =~= segs.subrange(0, i as int));
                lemma_sum_sizes_prefix(segs, self@.total as int, i as int + 1);
            }
            used = used + self.segments[i].size;
            i = i + 1;
        }
        proof {
            assert(segs.subrange(0, segs.len() as int) =~= segs);
        }
        self.total_memory - used
    }
}

/// A prefix of the segments holds no more than all of them.
pub proof fn lemma_sum_sizes_prefix(segs: Seq<Segment>, total: int, i: int)
    requires
        segments_wf(segs, total),
        0 <= i <= segs.len(),
    ensures
        0 <= sum_sizes(segs.subrange(0, i)) <= sum_sizes(segs),
    decreases segs.len(),
{
    if i < segs.len() {
        let p = segs.drop_last();
        assert(segs.subrange(0, i) =~= p.subrange(0, i));
        lemma_drop_last_wf(segs, total);
        lemma_sum_sizes_prefix(p, segs.last().start_address as int, i);
        assert(segs.last().size >= 0);
    } else {
        assert(segs.subrange(0, i) =~= segs);
        lemma_sum_sizes_bounded(segs, total);
    }
}

/// Dropping the last segment keeps the rest well formed, bounded by where
/// that segment starts.
pub proof fn lemma_drop_last_wf(segs: Seq<Segment>, total: int)
    requires
        segments_wf(segs, total),
        segs.len() > 0,
    ensures
        segments_wf(segs.drop_last(), segs.last().start_address as int),
{
    let p = segs.drop_last();
    let n = segs.len() as int;
    let t = segs.last().start_address as int;
    assert forall|k: int| 0 <= k <= p.len() implies #[trigger] gap_size(p, t, k) >= 0 by {
        assert(gap_size(segs, total, k) >= 0);
        if k > 0 {
            assert(p[k - 1] == segs[k - 1]);
        }
        if k < p.len() {
            assert(p[k] == segs[k]);
        } else {
            assert(segs[n - 1].size >= 0);
        }
    }
    assert forall|i: int| 0 <= i < p.len() implies 0 <= (#[trigger] p[i]).start_address && 0 <= p[i].size
        && seg_end(p[i]) <= t by {
        assert(segs[i] == p[i]);
        lemma_gap_chain(segs, total, i, n - 1);
        assert(segs[n - 1].size >= 0);
    }
}

/// Releasing segments keeps memory well formed.
pub proof fn lemma_without_owner_wf(segs: Seq<Segment>, total: int, job_id: i32)
    requires
        segments_wf(segs, total),
    ensures
        segments_wf(without_owner(segs, job_id), total),
    decreases segs.len(),
{
    if segs.len() > 0 {
        let p = segs.drop_last();
        let l = segs.last();
        let a = l.start_address as int;
        lemma_drop_last_wf(segs, total);
        lemma_without_owner_wf(p, a, job_id);
        let q = without_owner(p, job_id);
        assert(0 <= l.start_address && 0 <= l.size && seg_end(l) <= total);
        if owned_by(l, job_id) {
            lemma_wf_raise_total(q, a, total);
        } else {
            let r = q.push(l);
            assert forall|k: int| 0 <= k <= r.len() implies #[trigger] gap_size(r, total, k) >= 0 by {
                if k <= q.len() {
                    assert(gap_size(q, a, k) >= 0);
                }
                if k > 0 && k <= q.len() {
                    assert(r[k - 1] == q[k - 1]);
                }
                if k < q.len() {
                    assert(r[k] == q[k]);
                }
            }
            assert forall|i: int| 0 <= i < r.len() implies 0 <= (#[trigger] r[i]).start_address
                && 0 <= r[i].size && seg_end(r[i]) <= total by {
                if i < q.len() {
                    assert(r[i] == q[i]);
                }
            }
        }
    }
}

/// Well-formed memory stays well formed under a larger capacity.
pub proof fn lemma_wf_raise_total(segs: Seq<Segment>, t1: int, t2: int)
    requires
        segments_wf(segs, t1),
        t1 <= t2 <= i32::MAX,
    ensures
        segments_wf(segs, t2),
{
    assert forall|k: int| 0 <= k <= segs.len() implies #[trigger] gap_size(segs, t2, k) >= 0 by {
        assert(gap_size(segs, t1, k) >= 0);
    }
}

/// Jobs waiting to enter the system; last in, first out.
pub struct SystemEntryQueue {
    jobs: Vec<Job>,
}

impl View for SystemEntryQueue {
    type V = Seq<Job>;

    closed spec fn view(&self) -> Seq<Job> {
        self.jobs@
    }
}

impl SystemEntryQueue {
    pub fn new() -> (r: Self)
        ensures
            r@ == Seq::<Job>::empty(),
    {
        SystemEntryQueue { jobs: Vec::new() }
    }

    pub fn add_job(&mut self, job: Job)
        ensures
            final(self)@ == old(self)@.push(job),
    {
        self.jobs.push(job);
    }

    /// Takes the most recently added job.
    pub fn remove_job(&mut self) -> (r: Option<Job>)
        ensures
            old(self)@.len() == 0 ==> r is None && final(self)@ == old(self)@,
            old(self)@.len() > 0 ==> r == Some(old(self)@.last()) && final(self)@
                == old(self)@.drop_last(),
    {
        self.jobs.pop()
    }

    pub fn is_empty(&self) -> (r: bool)
        ensures
            r == (self@.len() == 0),
    {
        self.jobs.len() == 0
    }

    /// The queued jobs, oldest first.
    pub fn jobs(&self) -> (r: &Vec<Job>)
        ensures
            r@ == self@,
    {
        &self.jobs
    }
}

/// Jobs waiting for memory; last in, first out.
pub struct MemoryAllocQueue {
    jobs: Vec<Job>,
}

impl View for MemoryAllocQueue {
    type V = Seq<Job>;

    closed spec fn view(&self) -> Seq<Job> {
        self.jobs@
    }
}

impl MemoryAllocQueue {
    pub fn new() -> (r: Self)
        ensures
            r@ == Seq::<Job>::empty(),
    {
        MemoryAllocQueue { jobs: Vec::new() }
    }

    pub fn add_job(&mut self, job: Job)
        ensures
            final(self)@ == old(self)@.push(job),
    {
        self.jobs.push(job);
    }

    /// Takes the most recently added job.
    pub fn remove_job(&mut self) -> (r: Option<Job>)
        ensures
            old(self)@.len() == 0 ==> r is None && final(self)@ == old(self)@,
            old(self)@.len() > 0 ==> r == Some(old(self)@.last()) && final(self)@
                == old(self)@.drop_last(),
    {
        self.jobs.pop()
    }

    pub fn is_empty(&self) -> (r: bool)
        ensures
            r == (self@.len() == 0),
    {
        self.jobs.len() == 0
    }

    /// The queued jobs, oldest first.
    pub fn jobs(&self) -> (r: &Vec<Job>)
        ensures
            r@ == self@,
    {
        &self.jobs
    }
}

/// Jobs waiting for the processor; last in, first out.
pub struct CPUAllocQueue {
    jobs: Vec<Job>,
}

impl View for CPUAllocQueue {
    type V = Seq<Job>;

    closed spec fn view(&self) -> Seq<Job> {
        self.jobs@
    }
}

impl CPUAllocQueue {
    pub fn new() -> (r: Self)
        ensures
            r@ == Seq::<Job>::empty(),
    {
        CPUAllocQueue { jobs: Vec::new() }
    }

    pub fn add_job(&mut self, job: Job)
        ensures
            final(self)@ == old(self)@.push(job),
    {
        self.jobs.push(job);
    }

    /// Takes the most recently added job.
    pub fn remove_job(&mut self) -> (r: Option<Job>)
        ensures
            old(self)@.len() == 0 ==> r is None && final(self)@ == old(self)@,
            old(self)@.len() > 0 ==> r == Some(old(self)@.last()) && final(self)@
                == old(self)@.drop_last(),
    {
        self.jobs.pop()
    }

    pub fn is_empty(&self) -> (r: bool)
        ensures
            r == (self@.len() == 0),
    {
        self.jobs.len() == 0
    }

    /// The queued jobs, oldest first.
    pub fn jobs(&self) -> (r: &Vec<Job>)
        ensures
            r@ == self@,
    {
        &self.jobs
    }
}

/// Jobs holding the processor; last in, first out.
pub struct ExecQueue {
    jobs: Vec<Job>,
}

impl View for ExecQueue {
    type V = Seq<Job>;

    closed spec fn view(&self) -> Seq<Job> {
        self.jobs@
    }
}

impl ExecQueue {
    pub fn new() -> (r: Self)
        ensures
            r@ == Seq::<Job>::empty(),
    {
        ExecQueue { jobs: Vec::new() }
    }

    pub fn add_job(&mut self, job: Job)
        ensures
            final(self)@ == old(self)@.push(job),
    {
        self.jobs.push(job);
    }

    /// Takes the most recently added job.
    pub fn remove_job(&mut self) -> (r: Option<Job>)
        ensures
            old(self)@.len() == 0 ==> r is None && final(self)@ == old(self)@,
            old(self)@.len() > 0 ==> r == Some(old(self)@.last()) && final(self)@
                == old(self)@.drop_last(),
    {
        self.jobs.pop()
    }

    pub fn is_empty(&self) -> (r: bool)
        ensures
            r == (self@.len() == 0),
    {
        self.jobs.len() == 0
    }

    /// The queued jobs, oldest first.
    pub fn jobs(&self) -> (r: &Vec<Job>)
        ensures
            r@ == self@,
    {
        &self.jobs
    }
}

/// The mathematical value of the simulation state.
pub struct ControlView {
    pub events: Seq<EventView>,
    pub entry: Seq<Job>,
    pub memory_wait: Seq<Job>,
    pub cpu_wait: Seq<Job>,
    pub running: Seq<Job>,
    pub memory: MemoryView,
    pub table: Map<i32, i32>,
    pub now: i32,
}

impl ControlView {
    pub open spec fn wf(self) -> bool {
        self.memory.wf()
    }

    /// The state after an event is added to the queue.
    pub open spec fn enqueue(self, time: i32, name: Seq<char>, metadata: Metadata) -> ControlView {
        ControlView {
            events: pushed(self.events, EventView { time: time as int, name, metadata }),
            ..self
        }
    }
}

/// The whole simulation state, owned in one place: every change goes through
/// the methods of `ControlModule`.
pub struct SharedState {
    event_list: EventList,
    system_entry_queue: SystemEntryQueue,
    memory_alloc_queue: MemoryAllocQueue,
    cpu_alloc_queue: CPUAllocQueue,
    exec_queue: ExecQueue,
    memory: Memory,
    pub current_timestep: i32,
    job_table: JobTable,
}

impl View for SharedState {
    type V = ControlView;

    closed spec fn view(&self) -> ControlView {
        ControlView {
            events: self.event_list@,
            entry: self.system_entry_queue@,
            memory_wait: self.memory_alloc_queue@,
            cpu_wait: self.cpu_alloc_queue@,
            running: self.exec_queue@,
            memory: self.memory@,
            table: self.job_table@,
            now: self.current_timestep,
        }
    }
}

impl SharedState {
    pub fn new(
        event_list: EventList,
        system_entry_queue: SystemEntryQueue,
        memory_alloc_queue: MemoryAllocQueue,
        cpu_alloc_queue: CPUAllocQueue,
        exec_queue: ExecQueue,
        memory: Memory,
        current_timestep: i32,
        job_table: JobTable,
    ) -> (r: Self)
        ensures
            r@ == (ControlView {
                events: event_list@,
                entry: system_entry_queue@,
                memory_wait: memory_alloc_queue@,
                cpu_wait: cpu_alloc_queue@,
                running: exec_queue@,
                memory: memory@,
                table: job_table@,
                now: current_timestep,
            }),
    {
        SharedState {
            event_list,
            system_entry_queue,
            memory_alloc_queue,
            cpu_alloc_queue,
            exec_queue,
            memory,
            current_timestep,
            job_table,
        }
    }

    pub fn get_event_list(&self) -> (r: &EventList)
        ensures
            r@ == self@.events,
    {
        &self.event_list
    }

    pub fn get_system_entry_queue(&self) -> (r: &SystemEntryQueue)
        ensures
            r@ == self@.entry,
    {
        &self.system_entry_queue
    }

    pub fn get_memory_alloc_queue(&self) -> (r: &MemoryAllocQueue)
        ensures
            r@ == self@.memory_wait,
    {
        &self.memory_alloc_queue
    }

    pub fn get_cpu_alloc_queue(&self) -> (r: &CPUAllocQueue)
        ensures
            r@ == self@.cpu_wait,
    {
        &self.cpu_alloc_queue
    }

    pub fn get_exec_queue(&self) -> (r: &ExecQueue)
        ensures
            r@ == self@.running,
    {
        &self.exec_queue
    }

    pub fn get_memory(&self) -> (r: &Memory)
        ensures
            r@ == self@.memory,
    {
        &self.memory
    }

    pub fn get_job_table(&self) -> (r: &JobTable)
        ensures
            r@ == self@.table,
    {
        &self.job_table
    }
}

/// The façade through which handlers read the clock and change the event
/// queue, the resource queues, memory and the scheduling table.
pub struct ControlModule {
    pub shared_state: SharedState,
}

impl View for ControlModule {
    type V = ControlView;

    open spec fn view(&self) -> ControlView {
        self.shared_state@
    }
}

#[allow(non_snake_case)]
impl ControlModule {
    pub fn new(shared_state: SharedState) -> (r: Self)
        ensures
            r@ == shared_state@,
    {
        ControlModule { shared_state }
    }

    /// Adds an event in time order.
    pub fn add_event(&mut self, time: i32, name: String, metadata: Metadata)
        ensures
            final(self)@ == old(self)@.enqueue(time, name@, metadata),
    {
        self.shared_state.event_list.push(time, name, metadata);
    }

    /// Removes the earliest event.
    pub fn pop_event(&mut self) -> (r: Option<Event>)
        ensures
            old(self)@.events.len() == 0 ==> r is None && final(self)@ == old(self)@,
            old(self)@.events.len() > 0 ==> r is Some && r->0@ == old(self)@.events[0] && final(self)@
                == (ControlView { events: old(self)@.events.drop_first(), ..old(self)@ }),
    {
        self.shared_state.event_list.pop()
    }

    /// Puts an event back at the head of the queue.
    pub fn push_back_event(&mut self, event: Event)
        ensures
            final(self)@ == (ControlView { events: seq![event@] + old(self)@.events, ..old(self)@ }),
    {
        self.shared_state.event_list.push_back(event);
    }

    /// Queues a job to enter the system.
    pub fn add_SEQ(&mut self, job: Job)
        ensures
            final(self)@ == (ControlView { entry: old(self)@.entry.push(job), ..old(self)@ }),
    {
        self.shared_state.system_entry_queue.add_job(job);
    }

    /// Takes the job most recently queued to enter the system.
    pub fn remove_SEQ(&mut self) -> (r: Option<Job>)
        ensures
            old(self)@.entry.len() == 0 ==> r is None && final(self)@ == old(self)@,
            old(self)@.entry.len() > 0 ==> r == Some(old(self)@.entry.last()) && final(self)@
                == (ControlView { entry: old(self)@.entry.drop_last(), ..old(self)@ }),
    {
        self.shared_state.system_entry_queue.remove_job()
    }

    /// Queues a job to wait for memory.
    pub fn add_MAQ(&mut self, job: Job)
        ensures
            final(self)@ == (ControlView { memory_wait: old(self)@.memory_wait.push(job), ..old(self)@ }),
    {
        self.shared_state.memory_alloc_queue.add_job(job);
    }

    /// Takes the job most recently queued for memory.
    pub fn remove_MAQ(&mut self) -> (r: Option<Job>)
        ensures
            old(self)@.memory_wait.len() == 0 ==> r is None && final(self)@ == old(self)@,
            old(self)@.memory_wait.len() > 0 ==> r == Some(old(self)@.memory_wait.last()) && final(self)@
                == (ControlView { memory_wait: old(self)@.memory_wait.drop_last(), ..old(self)@ }),
    {
        self.shared_state.memory_alloc_queue.remove_job()
    }

    /// Queues a job to wait for the processor.
    pub fn add_CAQ(&mut self, job: Job)
        ensures
            final(self)@ == (ControlView { cpu_wait: old(self)@.cpu_wait.push(job), ..old(self)@ }),
    {
        self.shared_state.cpu_alloc_queue.add_job(job);
    }

    /// Takes the job most recently queued for the processor.
    pub fn remove_CAQ(&mut self) -> (r: Option<Job>)
        ensures
            old(self)@.cpu_wait.len() == 0 ==> r is None && final(self)@ == old(self)@,
            old(self)@.cpu_wait.len() > 0 ==> r == Some(old(self)@.cpu_wait.last()) && final(self)@
                == (ControlView { cpu_wait: old(self)@.cpu_wait.drop_last(), ..old(self)@ }),
    {
        self.shared_state.cpu_alloc_queue.remove_job()
    }

    /// Puts a job on the execution queue.
    pub fn add_EQ(&mut self, job: Job)
        ensures
            final(self)@ == (ControlView { running: old(self)@.running.push(job), ..old(self)@ }),
    {
        self.shared_state.exec_queue.add_job(job);
    }

    /// Takes the job most recently put on the execution queue.
    pub fn remove_EQ(&mut self) -> (r: Option<Job>)
        ensures
            old(self)@.running.len() == 0 ==> r is None && final(self)@ == old(self)@,
            old(self)@.running.len() > 0 ==> r == Some(old(self)@.running.last()) && final(self)@
                == (ControlView { running: old(self)@.running.drop_last(), ..old(self)@ }),
    {
        self.shared_state.exec_queue.remove_job()
    }

    pub fn eq_is_empty(&self) -> (r: bool)
        ensures
            r == (self@.running.len() == 0),
    {
        self.shared_state.exec_queue.is_empty()
    }

    pub fn seq_is_empty(&self) -> (r: bool)
        ensures
            r == (self@.entry.len() == 0),
    {
        self.shared_state.system_entry_queue.is_empty()
    }

    pub fn maq_is_empty(&self) -> (r: bool)
        ensures
            r == (self@.memory_wait.len() == 0),
    {
        self.shared_state.memory_alloc_queue.is_empty()
    }

    pub fn caq_is_empty(&self) -> (r: bool)
        ensures
            r == (self@.cpu_wait.len() == 0),
    {
        self.shared_state.cpu_alloc_queue.is_empty()
    }

    /// Allocates `num` units of memory to `job`, first fit.
    pub fn alloc_memory(&mut self, job: Job, num: i32) -> (r: Result<Segment, &'static str>)
        requires
            old(self)@.wf(),
        ensures
            final(self)@.wf(),
            final(self)@ == (ControlView { memory: old(self)@.memory.after_alloc(job, num), ..old(self)@ }),
            match r {
                Ok(seg) => old(self)@.memory.placement(num as int) matches Some(k) && seg
                    == old(self)@.memory.new_segment(job, num, k),
                Err(_) => old(self)@.memory.placement(num as int) is None,
            },
    {
        self.shared_state.memory.allocate(job, num)
    }

    /// Releases the memory of `job`.
    pub fn dealloc_memory(&mut self, job: Job)
        requires
            old(self)@.wf(),
        ensures
            final(self)@.wf(),
            final(self)@ == (ControlView { memory: old(self)@.memory.after_dealloc(job.id), ..old(self)@ }),
    {
        self.shared_state.memory.dealloc(job);
    }

    pub fn available_memory(&self) -> (r: i32)
        requires
            self@.wf(),
        ensures
            r == self@.memory.available(),
            r >= 0,
    {
        self.shared_state.memory.available_memory()
    }

    pub fn get_current_timestep(&self) -> (r: i32)
        ensures
            r == self@.now,
    {
        self.shared_state.current_timestep
    }

    pub fn update_current_timestep(&mut self, current_timestep: i32)
        ensures
            final(self)@ == (ControlView { now: current_timestep, ..old(self)@ }),
    {
        self.shared_state.current_timestep = current_timestep;
    }

    /// Registers `id` in the scheduling table with its whole CPU demand.
    pub fn add_to_job_table(&mut self, id: i32, cpu_time: i32)
        ensures
            final(self)@ == (ControlView { table: old(self)@.table.insert(id, cpu_time), ..old(self)@ }),
    {
        self.shared_state.job_table.add_job(id, cpu_time);
    }

    /// Takes one time slice off the remaining quantum of `id`.
    pub fn update_job_table(&mut self, id: i32, time_slice: i32)
        ensures
            final(self)@ == (ControlView { table: paused(old(self)@.table, id, time_slice), ..old(self)@ }),
    {
        self.shared_state.job_table.pause_job(id, time_slice);
    }

    pub fn get_time_remaining(&self, id: i32) -> (r: i32)
        ensures
            r == remaining_of(self@.table, id),
    {
        self.shared_state.job_table.get_time_remaining(id)
    }

    pub fn job_exists_in_table(&self, id: i32) -> (r: bool)
        ensures
            r == self@.table.contains_key(id),
    {
        self.shared_state.job_table.contains_job(id)
    }

    /// Forgets `id` once it has completed.
    pub fn delete_job_table(&mut self, id: i32)
        ensures
            final(self)@ == (ControlView { table: old(self)@.table.remove(id), ..old(self)@ }),
    {
        self.shared_state.job_table.remove_job(id);
    }

    /// Whether `max_jobs` or more jobs hold entries in the scheduling table.
    pub fn table_is_full(&self, max_jobs: usize) -> (r: bool)
        ensures
            r == (self@.table.len() >= max_jobs),
    {
        self.shared_state.job_table.len() >= max_jobs
    }
}

} // verus!
