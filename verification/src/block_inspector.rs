//! The blocks of a translation job: which are done, under way, failed or still
//! to come.

use crate::jobs::{
    BackgroundJobLogSnapshot, BackgroundJobSnapshot, BackgroundJobStatus, JobLogEntry,
    JobLogErrorKind, JobLogEvent, StatusTone,
};
use crate::json::{numbers_under, read_numbers};
use vstd::prelude::*;
use vstd::string::*;

verus! {

/// The blocks on one page.
pub const BLOCKS_PER_PAGE: usize = 50;

/// The failed blocks that a summary names.
pub const LISTED_FAILURES: usize = 12;

/// The key under which a cursor names the blocks that are under way.
pub const INFLIGHT_KEY: &'static str = "inflight";

/// How far one block has come.
#[derive(Clone, Copy, Debug, PartialEq, Eq, Structural)]
pub enum BlockState {
    Done,
    Processing,
    Failed,
    Pending,
}

impl BlockState {
    /// What the state is called.
    pub open spec fn name(self) -> Seq<char> {
        match self {
            BlockState::Done => "已处理"@,
            BlockState::Processing => "处理中"@,
            BlockState::Failed => "失败"@,
            BlockState::Pending => "待处理"@,
        }
    }

    /// What the state is called.
    pub fn label(self) -> (r: &'static str)
        ensures
            r@ == self.name(),
    {
        match self {
            BlockState::Done => "已处理",
            BlockState::Processing => "处理中",
            BlockState::Failed => "失败",
            BlockState::Pending => "待处理",
        }
    }

    /// How the state is shown.
    pub fn tone(self) -> (r: StatusTone)
        ensures
            r == (match self {
                BlockState::Done => StatusTone::Good,
                BlockState::Processing => StatusTone::Active,
                BlockState::Failed => StatusTone::Bad,
                BlockState::Pending => StatusTone::Quiet,
            }),
    {
        match self {
            BlockState::Done => StatusTone::Good,
            BlockState::Processing => StatusTone::Active,
            BlockState::Failed => StatusTone::Bad,
            BlockState::Pending => StatusTone::Quiet,
        }
    }

    /// The identifier of the state.
    pub fn id(self) -> (r: &'static str)
        ensures
            r@ == (match self {
                BlockState::Done => "done"@,
                BlockState::Processing => "processing"@,
                BlockState::Failed => "failed"@,
                BlockState::Pending => "pending"@,
            }),
    {
        match self {
            BlockState::Done => "done",
            BlockState::Processing => "processing",
            BlockState::Failed => "failed",
            BlockState::Pending => "pending",
        }
    }
}

// ---------------------------------------------------------------------------
// Rising numbers
// ---------------------------------------------------------------------------

/// Whether numbers rise.
pub open spec fn rises(s: Seq<usize>) -> bool {
    forall|i: int, j: int| 0 <= i < j < s.len() ==> s[i] < s[j]
}

/// How many numbers from `low` up to `high` pass a test.
pub open spec fn count_between(test: spec_fn(int) -> bool, low: int, high: int) -> nat
    decreases high - low,
{
    if high <= low {
        0
    } else {
        count_between(test, low, high - 1) + (if test(high - 1) {
            1nat
        } else {
            0nat
        })
    }
}

/// Whether rising numbers hold a number.
pub open spec fn holds(s: Seq<usize>, n: int) -> bool {
    exists|i: int| 0 <= i < s.len() && #[trigger] s[i] == n
}

/// The numbers that rising numbers hold.
pub open spec fn held_by(s: Seq<usize>) -> spec_fn(int) -> bool {
    |n: int| holds(s, n)
}

proof fn lemma_count_split(test: spec_fn(int) -> bool, low: int, mid: int, high: int)
    requires
        low <= mid <= high,
    ensures
        count_between(test, low, high) == count_between(test, low, mid) + count_between(
            test,
            mid,
            high,
        ),
    decreases high - mid,
{
    if mid < high {
        lemma_count_split(test, low, mid, high - 1);
    }
}

proof fn lemma_count_bound(test: spec_fn(int) -> bool, low: int, high: int)
    requires
        low <= high,
    ensures
        count_between(test, low, high) <= high - low,
    decreases high - low,
{
    if low < high {
        lemma_count_bound(test, low, high - 1);
    }
}

/// Tests that agree count alike.
pub(crate) proof fn lemma_count_same(
    one: spec_fn(int) -> bool,
    other: spec_fn(int) -> bool,
    low: int,
    high: int,
)
    requires
        forall|n: int| low <= n < high ==> #[trigger] one(n) == other(n),
    ensures
        count_between(one, low, high) == count_between(other, low, high),
    decreases high - low,
{
    if low < high {
        lemma_count_same(one, other, low, high - 1);
    }
}

/// The rising numbers below a limit are as many as the numbers that are held.
pub(crate) proof fn lemma_count_held(s: Seq<usize>, k: int, low: int, high: int)
    requires
        rises(s),
        0 <= k <= s.len(),
        low <= high,
        forall|i: int| 0 <= i < k ==> low <= #[trigger] s[i] < high,
        forall|i: int| k <= i < s.len() ==> high <= #[trigger] s[i],
    ensures
        count_between(held_by(s), low, high) == k,
    decreases high - low,
{
    if low < high {
        let top = high - 1;
        if k > 0 && s[k - 1] == top {
            assert(holds(s, top));
            assert forall|i: int| 0 <= i < k - 1 implies low <= #[trigger] s[i] < top by {
                assert(s[i] < s[k - 1]);
            }
            assert forall|i: int| k - 1 <= i < s.len() implies top <= #[trigger] s[i] by {
                if i >= k {
                    assert(high <= s[i]);
                }
            }
            lemma_count_held(s, k - 1, low, top);
        } else {
            assert(!holds(s, top)) by {
                if holds(s, top) {
                    let i = choose|i: int| 0 <= i < s.len() && #[trigger] s[i] == top;
                    if i >= k {
                        assert(high <= s[i]);
                    } else if i < k - 1 {
                        assert(s[i] < s[k - 1]);
                        assert(s[k - 1] < high);
                    }
                }
            }
            assert forall|i: int| 0 <= i < k implies low <= #[trigger] s[i] < top by {
                assert(s[i] < high);
                if s[i] == top {
                    assert(holds(s, top));
                }
            }
            assert forall|i: int| k <= i < s.len() implies top <= #[trigger] s[i] by {
                assert(high <= s[i]);
            }
            lemma_count_held(s, k, low, top);
        }
    } else {
        if k > 0 {
            assert(low <= s[0] < high);
        }
    }
}

/// Puts a number into its place among rising ones, unless it is there.
fn insert_rising(s: &mut Vec<usize>, n: usize)
    requires
        rises(old(s)@),
    ensures
        rises(final(s)@),
        forall|m: int| #[trigger] holds(final(s)@, m) <==> holds(old(s)@, m) || m == n,
{
    let mut at: usize = 0;
    while at < s.len() && s[at] < n
        invariant
            at <= s@.len(),
            s@ == old(s)@,
            forall|i: int| 0 <= i < at ==> #[trigger] s@[i] < n,
        decreases s@.len() - at,
    {
        at = at + 1;
    }
    if at < s.len() && s[at] == n {
        assert(holds(s@, n as int));
        return ;
    }
    let ghost before = s@;
    proof {
        assert forall|i: int| at <= i < before.len() implies n < #[trigger] before[i] by {
            if i > at {
                assert(before[at as int] < before[i]);
            }
        }
    }
    s.insert(at, n);
    proof {
        let after = s@;
        assert(after == before.insert(at as int, n));
        assert forall|m: int| #[trigger] holds(after, m) <==> holds(before, m) || m == n by {
            if holds(after, m) {
                let i = choose|i: int| 0 <= i < after.len() && #[trigger] after[i] == m;
                if i < at {
                    assert(before[i] == m);
                } else if i > at {
                    assert(before[i - 1] == m);
                }
            }
            if holds(before, m) {
                let i = choose|i: int| 0 <= i < before.len() && #[trigger] before[i] == m;
                if i < at {
                    assert(after[i] == m);
                } else {
                    assert(after[i + 1] == m);
                }
            }
            if m == n {
                assert(after[at as int] == m);
            }
        }
        assert forall|i: int, j: int| 0 <= i < j < after.len() implies after[i] < after[j] by {
            if j < at {
                assert(before[i] < before[j]);
            } else if j == at {
                assert(before[i] < n);
            } else if i < at {
                assert(before[i] < before[j - 1]);
            } else if i == at {
                assert(n < before[j - 1]);
            } else {
                assert(before[i - 1] < before[j - 1]);
            }
        }
    }
}

/// Whether rising numbers hold a number.
fn is_held(s: &Vec<usize>, n: usize) -> (r: bool)
    ensures
        r == holds(s@, n as int),
{
    let mut i: usize = 0;
    while i < s.len()
        invariant
            i <= s@.len(),
            forall|k: int| 0 <= k < i ==> #[trigger] s@[k] != n,
        decreases s@.len() - i,
    {
        if s[i] == n {
            return true;
        }
        i = i + 1;
    }
    false
}

/// How many of the rising numbers are below a limit.
fn count_below(s: &Vec<usize>, limit: usize) -> (r: usize)
    requires
        rises(s@),
    ensures
        r <= s@.len(),
        r == count_between(held_by(s@), 0, limit as int),
        forall|i: int| 0 <= i < r ==> #[trigger] s@[i] < limit,
        forall|i: int| r <= i < s@.len() ==> limit <= #[trigger] s@[i],
{
    let mut k: usize = 0;
    while k < s.len() && s[k] < limit
        invariant
            k <= s@.len(),
            forall|i: int| 0 <= i < k ==> #[trigger] s@[i] < limit,
        decreases s@.len() - k,
    {
        k = k + 1;
    }
    proof {
        assert forall|i: int| k <= i < s@.len() implies limit <= #[trigger] s@[i] by {
            if i > k {
                assert(s@[k as int] < s@[i]);
            }
        }
        lemma_count_held(s@, k as int, 0, limit as int);
    }
    k
}

// ---------------------------------------------------------------------------
// Failures
// ---------------------------------------------------------------------------

/// Whether a line of the log says that a block was left untranslated. A block
/// that was only stopped is none.
pub open spec fn is_block_failure(entry: JobLogEntry) -> bool {
    (entry.event is ProtocolSkipped || entry.event is StepFailed) && entry.ordinal is Some && !(
    entry.error_kind is Some && entry.error_kind->0.cancelled)
}

/// What the newest run says of the failure of a block: nothing where it did not
/// fail, and the reason as far as it is known. Lines before the start of that run
/// do not count.
pub open spec fn latest_failure(entries: Seq<JobLogEntry>, ordinal: int) -> Option<
    Option<JobLogErrorKind>,
>
    decreases entries.len(),
{
    if entries.len() == 0 || entries.last().event is RunStarted {
        None
    } else if is_block_failure(entries.last()) && entries.last().ordinal->0 == ordinal {
        Some(entries.last().error_kind)
    } else {
        latest_failure(entries.drop_last(), ordinal)
    }
}

/// The blocks that the newest run of a job left untranslated.
#[derive(Debug, PartialEq, Eq)]
pub struct BlockFailures {
    /// The failed blocks, in rising order.
    pub ordinals: Vec<usize>,
    /// The reason for each of them, as far as it is known.
    pub kinds: Vec<Option<JobLogErrorKind>>,
    /// Whether older lines of the log are gone, so that failures may be missing.
    pub truncated: bool,
}

impl BlockFailures {
    /// The blocks rise, and there is one reason for each.
    pub open spec fn wf(self) -> bool {
        rises(self.ordinals@) && self.ordinals@.len() == self.kinds@.len()
    }

    /// What is known of the failure of a block.
    pub open spec fn failure(self, ordinal: int) -> Option<Option<JobLogErrorKind>> {
        if holds(self.ordinals@, ordinal) {
            Some(
                self.kinds@[choose|i: int|
                    0 <= i < self.ordinals@.len() && #[trigger] self.ordinals@[i] == ordinal],
            )
        } else {
            None
        }
    }

    /// Whether these are the failures that a log tells of.
    pub open spec fn tells(self, logs: Option<BackgroundJobLogSnapshot>) -> bool {
        match logs {
            Some(logs) => self.truncated == logs.truncated && forall|ordinal: int| #[trigger]
                self.failure(ordinal) == latest_failure(logs.entries@, ordinal),
            None => self.ordinals@.len() == 0 && !self.truncated,
        }
    }
}

proof fn lemma_failure_at(failures: BlockFailures, i: int)
    requires
        failures.wf(),
        0 <= i < failures.ordinals@.len(),
    ensures
        failures.failure(failures.ordinals@[i] as int) == Some(failures.kinds@[i]),
{
    let ordinal = failures.ordinals@[i] as int;
    assert(holds(failures.ordinals@, ordinal));
    let other = choose|k: int|
        0 <= k < failures.ordinals@.len() && #[trigger] failures.ordinals@[k] == ordinal;
    if other < i {
        assert(failures.ordinals@[other] < failures.ordinals@[i]);
    } else if i < other {
        assert(failures.ordinals@[i] < failures.ordinals@[other]);
    }
}

fn copy_kind(kind: &Option<JobLogErrorKind>) -> (r: Option<JobLogErrorKind>)
    ensures
        r == *kind,
{
    match kind {
        Some(kind) => Some(kind.clone()),
        None => None,
    }
}

impl BlockFailures {
    /// No failures.
    pub fn none() -> (r: Self)
        ensures
            r.wf(),
            r.ordinals@.len() == 0,
            !r.truncated,
    {
        BlockFailures { ordinals: Vec::new(), kinds: Vec::new(), truncated: false }
    }

    /// Adds the failure of a block, unless one of that block is known.
    fn add_older(&mut self, ordinal: usize, kind: &Option<JobLogErrorKind>)
        requires
            old(self).wf(),
        ensures
            final(self).wf(),
            final(self).truncated == old(self).truncated,
            forall|n: int| #[trigger]
                final(self).failure(n) == (if n == ordinal && old(self).failure(n) is None {
                    Some(*kind)
                } else {
                    old(self).failure(n)
                }),
    {
        let mut at: usize = 0;
        while at < self.ordinals.len() && self.ordinals[at] < ordinal
            invariant
                at <= self.ordinals@.len(),
                *self == *old(self),
                forall|i: int| 0 <= i < at ==> #[trigger] self.ordinals@[i] < ordinal,
            decreases self.ordinals@.len() - at,
        {
            at = at + 1;
        }
        if at < self.ordinals.len() && self.ordinals[at] == ordinal {
            proof {
                lemma_failure_at(*self, at as int);
            }
            return ;
        }
        proof {
            assert forall|i: int| at <= i < self.ordinals@.len() implies ordinal
                < #[trigger] self.ordinals@[i] by {
                if i > at {
                    assert(self.ordinals@[at as int] < self.ordinals@[i]);
                }
            }
        }
        self.ordinals.insert(at, ordinal);
        self.kinds.insert(at, copy_kind(kind));
        proof {
            let before = *old(self);
            let after = *self;
            assert(after.ordinals@ == before.ordinals@.insert(at as int, ordinal));
            assert(after.kinds@ == before.kinds@.insert(at as int, *kind));
            assert forall|i: int, j: int| 0 <= i < j < after.ordinals@.len() implies after.ordinals@[i]
                < after.ordinals@[j] by {
                if j < at {
                    assert(before.ordinals@[i] < before.ordinals@[j]);
                } else if j == at {
                    assert(before.ordinals@[i] < ordinal);
                } else if i < at {
                    assert(before.ordinals@[i] < before.ordinals@[j - 1]);
                } else if i == at {
                    assert(ordinal < before.ordinals@[j - 1]);
                } else {
                    assert(before.ordinals@[i - 1] < before.ordinals@[j - 1]);
                }
            }
            assert forall|n: int| #[trigger]
                after.failure(n) == (if n == ordinal && before.failure(n) is None {
                    Some(*kind)
                } else {
                    before.failure(n)
                }) by {
                if n == ordinal {
                    assert(after.ordinals@[at as int] == n);
                    lemma_failure_at(after, at as int);
                    if holds(before.ordinals@, n) {
                        let i = choose|i: int|
                            0 <= i < before.ordinals@.len() && #[trigger] before.ordinals@[i] == n;
                        if i < at {
                            assert(before.ordinals@[i] < ordinal);
                        } else {
                            assert(ordinal < before.ordinals@[i]);
                        }
                    }
                } else if holds(before.ordinals@, n) {
                    let i = choose|i: int|
                        0 <= i < before.ordinals@.len() && #[trigger] before.ordinals@[i] == n;
                    lemma_failure_at(before, i);
                    if i < at {
                        assert(after.ordinals@[i] == n);
                        lemma_failure_at(after, i);
                    } else {
                        assert(after.ordinals@[i + 1] == n);
                        lemma_failure_at(after, i + 1);
                    }
                } else {
                    if holds(after.ordinals@, n) {
                        let i = choose|i: int|
                            0 <= i < after.ordinals@.len() && #[trigger] after.ordinals@[i] == n;
                        if i < at {
                            assert(before.ordinals@[i] == n);
                        } else if i > at {
                            assert(before.ordinals@[i - 1] == n);
                        }
                    }
                }
            }
        }
    }

    /// The failures of the newest run that a log tells of.
    pub fn from_logs(logs: Option<&BackgroundJobLogSnapshot>) -> (r: Self)
        ensures
            r.wf(),
            r.tells(
                match logs {
                    Some(logs) => Some(*logs),
                    None => None,
                },
            ),
    {
        let snapshot = match logs {
            Some(snapshot) => snapshot,
            None => {
                return BlockFailures::none();
            },
        };
        let mut out = BlockFailures::none();
        out.truncated = snapshot.truncated;
        let entries = &snapshot.entries;
        let ghost all = entries@;
        let mut end: usize = entries.len();
        assert(all.subrange(0, all.len() as int) =~= all);
        while end > 0
            invariant
                end <= entries@.len(),
                all == entries@,
                logs == Some(snapshot),
                all == snapshot.entries@,
                out.wf(),
                out.truncated == snapshot.truncated,
                forall|n: int|
                    latest_failure(all, n) == (if (#[trigger] out.failure(n)) is Some {
                        out.failure(n)
                    } else {
                        latest_failure(all.subrange(0, end as int), n)
                    }),
            decreases end,
        {
            let entry = &entries[end - 1];
            let ghost here = all.subrange(0, end as int);
            proof {
                assert(here.drop_last() =~= all.subrange(0, end - 1));
                assert(here.last() == *entry);
            }
            if entry.event == JobLogEvent::RunStarted {
                assert forall|n: int| #[trigger] out.failure(n) == latest_failure(all, n) by {
                    assert(latest_failure(here, n) is None);
                }
                return out;
            }
            let cancelled: bool = match &entry.error_kind {
                Some(kind) => kind.cancelled,
                None => false,
            };
            if (entry.event == JobLogEvent::ProtocolSkipped || entry.event
                == JobLogEvent::StepFailed) && !cancelled {
                if let Some(ordinal) = entry.ordinal {
                    out.add_older(ordinal, &entry.error_kind);
                }
            }
            end = end - 1;
        }
        assert(all.subrange(0, 0) =~= Seq::<JobLogEntry>::empty());
        out
    }

    /// Whether a block failed.
    pub fn contains(&self, ordinal: usize) -> (r: bool)
        ensures
            r == holds(self.ordinals@, ordinal as int),
            r == (self.failure(ordinal as int) is Some),
    {
        is_held(&self.ordinals, ordinal)
    }

    /// Why a block failed, as far as it is known.
    pub fn reason(&self, ordinal: usize) -> (r: Option<&str>)
        requires
            self.wf(),
        ensures
            self.reason_text(ordinal as int) == (match r {
                Some(label) => Some(label@),
                None => None,
            }),
    {
        let mut i: usize = 0;
        while i < self.ordinals.len()
            invariant
                i <= self.ordinals@.len(),
                self.wf(),
                forall|k: int| 0 <= k < i ==> #[trigger] self.ordinals@[k] != ordinal,
            decreases self.ordinals@.len() - i,
        {
            if self.ordinals[i] == ordinal {
                proof {
                    lemma_failure_at(*self, i as int);
                }
                return match &self.kinds[i] {
                    Some(kind) => Some(kind.label.as_str()),
                    None => None,
                };
            }
            i = i + 1;
        }
        None
    }

    /// Why a block failed, as far as it is known.
    pub open spec fn reason_text(self, ordinal: int) -> Option<Seq<char>> {
        match self.failure(ordinal) {
            Some(Some(kind)) => Some(kind.label@),
            _ => None,
        }
    }

    /// How many of the first `total` blocks failed.
    pub fn failed(&self, total: usize) -> (r: usize)
        requires
            self.wf(),
        ensures
            r == count_between(held_by(self.ordinals@), 0, total as int),
            r <= self.ordinals@.len(),
            forall|i: int| 0 <= i < r ==> #[trigger] self.ordinals@[i] < total,
            forall|i: int| r <= i < self.ordinals@.len() ==> total <= #[trigger] self.ordinals@[i],
    {
        count_below(&self.ordinals, total)
    }

    /// How many of the blocks before the cursor failed.
    pub fn before_cursor(&self, cursor: usize) -> (r: usize)
        requires
            self.wf(),
        ensures
            r == count_between(held_by(self.ordinals@), 0, cursor as int),
    {
        count_below(&self.ordinals, cursor)
    }
}

// ---------------------------------------------------------------------------
// Progress
// ---------------------------------------------------------------------------

/// Whether numbers are those of a list from `cursor` up to `total`, in rising
/// order and each once.
pub open spec fn is_window(
    window: Seq<usize>,
    numbers: Seq<Option<u64>>,
    cursor: int,
    total: int,
) -> bool {
    rises(window) && forall|n: int| #[trigger]
        holds(window, n) <==> cursor <= n < total && names(numbers, n)
}

/// Whether a list holds a number.
pub open spec fn names(numbers: Seq<Option<u64>>, n: int) -> bool {
    exists|i: int| 0 <= i < numbers.len() && #[trigger] numbers[i] == Some(n as u64) && 0 <= n
        <= u64::MAX
}

/// The blocks that a job has under way, as its cursor names them; none where it
/// does not run, has no cursor, or has one that names none.
pub open spec fn named_blocks(job: BackgroundJobSnapshot) -> Seq<Option<u64>> {
    if job.status is Running && job.cursor_json is Some {
        match numbers_under(job.cursor_json->0@, INFLIGHT_KEY@) {
            Some(numbers) => numbers,
            None => Seq::empty(),
        }
    } else {
        Seq::empty()
    }
}

/// The numbers of a list from `cursor` up to `total`, in rising order and each
/// once.
pub fn window_of(numbers: &Vec<Option<u64>>, cursor: usize, total: usize) -> (r: Vec<usize>)
    ensures
        is_window(r@, numbers@, cursor as int, total as int),
{
    let mut out: Vec<usize> = Vec::new();
    let mut i: usize = 0;
    while i < numbers.len()
        invariant
            i <= numbers@.len(),
            rises(out@),
            forall|n: int| #[trigger]
                holds(out@, n) <==> cursor <= n < total && names(
                    numbers@.subrange(0, i as int),
                    n,
                ),
        decreases numbers@.len() - i,
    {
        let ghost before = numbers@.subrange(0, i as int);
        let ghost after = numbers@.subrange(0, i + 1);
        let ghost had = out@;
        if let Some(number) = numbers[i] {
            if number >= cursor as u64 && number < total as u64 {
                insert_rising(&mut out, number as usize);
            }
        }
        proof {
            assert forall|n: int| #[trigger] holds(out@, n) <==> cursor <= n < total && names(
                after,
                n,
            ) by {
                if names(before, n) {
                    let k = choose|k: int|
                        0 <= k < before.len() && #[trigger] before[k] == Some(n as u64);
                    assert(after[k] == Some(n as u64));
                }
                if names(after, n) && !names(before, n) {
                    let k = choose|k: int|
                        0 <= k < after.len() && #[trigger] after[k] == Some(n as u64);
                    if k < i {
                        assert(before[k] == Some(n as u64));
                    }
                }
                if numbers@[i as int] == Some(n as u64) && 0 <= n <= u64::MAX {
                    assert(after[i as int] == Some(n as u64));
                    assert(names(after, n));
                }
                assert(holds(had, n) <==> cursor <= n < total && names(before, n));
            }
        }
        i = i + 1;
    }
    assert(numbers@.subrange(0, numbers@.len() as int) =~= numbers@);
    out
}

/// The blocks that a job has under way, from its cursor up to the last block.
pub fn in_flight_blocks(job: &BackgroundJobSnapshot, cursor: usize, total: usize) -> (r: Vec<usize>)
    ensures
        is_window(r@, named_blocks(*job), cursor as int, total as int),
{
    let none: Vec<Option<u64>> = Vec::new();
    if job.status != BackgroundJobStatus::Running {
        return window_of(&none, cursor, total);
    }
    match &job.cursor_json {
        None => window_of(&none, cursor, total),
        Some(cursor_json) => match read_numbers(cursor_json.as_str(), INFLIGHT_KEY) {
            None => window_of(&none, cursor, total),
            Some(numbers) => window_of(&numbers, cursor, total),
        },
    }
}

/// How many blocks of a job are in which state.
#[derive(Debug, PartialEq, Eq)]
pub struct TranslationProgress {
    pub total: usize,
    /// The first block that the job has not finished.
    pub cursor: usize,
    pub done: usize,
    /// The blocks under way, in rising order.
    pub processing: Vec<usize>,
    pub failed: usize,
    pub pending: usize,
}

/// The blocks of one job: how many are in which state, and which failed.
#[derive(Debug, PartialEq, Eq)]
pub struct BlockInspector {
    pub progress: TranslationProgress,
    pub failures: BlockFailures,
}

/// The state of a block.
pub open spec fn block_state(
    cursor: int,
    processing: Seq<usize>,
    failed: Seq<usize>,
    index: int,
) -> BlockState {
    if holds(failed, index) {
        BlockState::Failed
    } else if index < cursor {
        BlockState::Done
    } else if holds(processing, index) {
        BlockState::Processing
    } else {
        BlockState::Pending
    }
}

impl BlockInspector {
    /// The state of a block.
    pub open spec fn state_of(self, index: int) -> BlockState {
        block_state(
            self.progress.cursor as int,
            self.progress.processing@,
            self.failures.ordinals@,
            index,
        )
    }

    /// Whether these are the blocks of a job with this many, as its cursor and
    /// its log tell.
    pub open spec fn is_of(
        self,
        job: BackgroundJobSnapshot,
        total: usize,
        logs: Option<BackgroundJobLogSnapshot>,
    ) -> bool {
        &&& self.wf()
        &&& self.progress.total == total
        &&& self.progress.cursor == (if job.progress.completed < total {
            job.progress.completed
        } else {
            total
        })
        &&& self.failures.tells(logs)
        &&& forall|n: int| #[trigger]
            holds(self.progress.processing@, n) <==> self.progress.cursor <= n < total && names(
                named_blocks(job),
                n,
            ) && !holds(self.failures.ordinals@, n)
    }

    /// How many blocks are in a state.
    pub open spec fn number_in(self, state: BlockState) -> nat {
        count_between(
            |index: int| self.state_of(index) == state,
            0,
            self.progress.total as int,
        )
    }

    /// The numbers agree with the states of the blocks.
    pub open spec fn wf(self) -> bool {
        &&& self.failures.wf()
        &&& rises(self.progress.processing@)
        &&& self.progress.cursor <= self.progress.total
        &&& forall|n: int| #[trigger]
            holds(self.progress.processing@, n) ==> self.progress.cursor <= n
                < self.progress.total && !holds(self.failures.ordinals@, n)
        &&& self.progress.done == self.number_in(BlockState::Done)
        &&& self.progress.processing@.len() == self.number_in(BlockState::Processing)
        &&& self.progress.failed == self.number_in(BlockState::Failed)
        &&& self.progress.pending == self.number_in(BlockState::Pending)
    }
}

/// Every block is in one state, so the numbers add up.
proof fn lemma_states_add_up(
    cursor: int,
    processing: Seq<usize>,
    failed: Seq<usize>,
    low: int,
    high: int,
)
    requires
        low <= high,
    ensures
        ({
            let state = |s: BlockState| |n: int| block_state(cursor, processing, failed, n) == s;
            count_between(state(BlockState::Done), low, high) + count_between(
                state(BlockState::Processing),
                low,
                high,
            ) + count_between(state(BlockState::Failed), low, high) + count_between(
                state(BlockState::Pending),
                low,
                high,
            ) == high - low
        }),
    decreases high - low,
{
    if low < high {
        lemma_states_add_up(cursor, processing, failed, low, high - 1);
    }
}

/// The numbers of blocks in each state, from the rising lists.
proof fn lemma_state_numbers(
    cursor: int,
    total: int,
    processing: Seq<usize>,
    failed: Seq<usize>,
    failed_total: int,
    failed_before: int,
)
    requires
        0 <= cursor <= total,
        rises(processing),
        forall|n: int| #[trigger]
            holds(processing, n) ==> cursor <= n < total && !holds(failed, n),
        failed_total == count_between(held_by(failed), 0, total),
        failed_before == count_between(held_by(failed), 0, cursor),
    ensures
        ({
            let state = |s: BlockState| |n: int| block_state(cursor, processing, failed, n) == s;
            &&& count_between(state(BlockState::Failed), 0, total) == failed_total
            &&& count_between(state(BlockState::Processing), 0, total) == processing.len()
            &&& count_between(state(BlockState::Done), 0, total) == cursor - failed_before
            &&& count_between(state(BlockState::Pending), 0, total) == total - cursor
                - processing.len() - (failed_total - failed_before)
            &&& failed_before <= failed_total
            &&& failed_before <= cursor
        }),
{
    let state = |s: BlockState| |n: int| block_state(cursor, processing, failed, n) == s;
    lemma_count_same(state(BlockState::Failed), held_by(failed), 0, total);
    lemma_count_split(held_by(failed), 0, cursor, total);
    lemma_count_bound(held_by(failed), 0, cursor);
    // Under way.
    lemma_count_same(state(BlockState::Processing), held_by(processing), 0, total);
    assert forall|i: int| 0 <= i < processing.len() implies 0 <= #[trigger] processing[i]
        < total by {
        assert(holds(processing, processing[i] as int));
    }
    lemma_count_held(processing, processing.len() as int, 0, total);
    // Done: all blocks before the cursor that did not fail.
    lemma_count_split(state(BlockState::Done), 0, cursor, total);
    lemma_count_none(state(BlockState::Done), cursor, total);
    lemma_count_complement(state(BlockState::Done), held_by(failed), 0, cursor);
    lemma_states_add_up(cursor, processing, failed, 0, total);
}

proof fn lemma_count_none(test: spec_fn(int) -> bool, low: int, high: int)
    requires
        forall|n: int| low <= n < high ==> !#[trigger] test(n),
    ensures
        count_between(test, low, high) == 0,
    decreases high - low,
{
    if low < high {
        lemma_count_none(test, low, high - 1);
    }
}

proof fn lemma_count_complement(
    test: spec_fn(int) -> bool,
    other: spec_fn(int) -> bool,
    low: int,
    high: int,
)
    requires
        low <= high,
        forall|n: int| low <= n < high ==> #[trigger] test(n) == !other(n),
    ensures
        count_between(test, low, high) + count_between(other, low, high) == high - low,
    decreases high - low,
{
    if low < high {
        lemma_count_complement(test, other, low, high - 1);
    }
}

impl TranslationProgress {
    /// The numbers of a job with this many blocks.
    pub fn new(job: &BackgroundJobSnapshot, total: usize, failures: &BlockFailures) -> (r: Self)
        requires
            failures.wf(),
        ensures
            r.total == total,
            r.cursor == (if job.progress.completed < total {
                job.progress.completed
            } else {
                total
            }),
            rises(r.processing@),
            forall|n: int| #[trigger]
                holds(r.processing@, n) <==> r.cursor <= n < total && names(
                    named_blocks(*job),
                    n,
                ) && !holds(failures.ordinals@, n),
            ({
                let state = |s: BlockState|
                    |n: int|
                        block_state(r.cursor as int, r.processing@, failures.ordinals@, n) == s;
                &&& r.done == count_between(state(BlockState::Done), 0, total as int)
                &&& r.processing@.len() == count_between(
                    state(BlockState::Processing),
                    0,
                    total as int,
                )
                &&& r.failed == count_between(state(BlockState::Failed), 0, total as int)
                &&& r.pending == count_between(state(BlockState::Pending), 0, total as int)
            }),
    {
        let cursor: usize = if job.progress.completed < total {
            job.progress.completed
        } else {
            total
        };
        let failed: usize = failures.failed(total);
        let failed_before: usize = failures.before_cursor(cursor);
        let window = in_flight_blocks(job, cursor, total);
        let mut processing: Vec<usize> = Vec::new();
        let mut i: usize = 0;
        while i < window.len()
            invariant
                i <= window@.len(),
                rises(window@),
                rises(processing@),
                forall|k: int| 0 <= k < processing@.len() ==> i > 0 && #[trigger] processing@[k]
                    <= window@[i - 1],
                forall|n: int| #[trigger]
                    holds(processing@, n) <==> holds(window@.subrange(0, i as int), n) && !holds(
                        failures.ordinals@,
                        n,
                    ),
            decreases window@.len() - i,
        {
            let ghost before = processing@;
            let ghost seen = window@.subrange(0, i as int);
            let ghost now = window@.subrange(0, i + 1);
            let ordinal: usize = window[i];
            let failed_block: bool = failures.contains(ordinal);
            if !failed_block {
                processing.push(ordinal);
            }
            proof {
                assert forall|k: int| 0 <= k < processing@.len() implies #[trigger] processing@[k]
                    <= window@[i as int] by {
                    if k < before.len() {
                        assert(before[k] <= window@[i - 1]);
                        assert(window@[i - 1] < window@[i as int]);
                    }
                }
                assert forall|a: int, b: int| 0 <= a < b < processing@.len() implies processing@[a]
                    < processing@[b] by {
                    if b < before.len() {
                        assert(before[a] < before[b]);
                    } else {
                        assert(before[a] <= window@[i - 1]);
                        assert(window@[i - 1] < window@[i as int]);
                    }
                }
                assert forall|n: int| #[trigger] holds(processing@, n) <==> holds(now, n) && !holds(
                    failures.ordinals@,
                    n,
                ) by {
                    assert(holds(before, n) <==> holds(seen, n) && !holds(failures.ordinals@, n));
                    if holds(seen, n) {
                        let k = choose|k: int| 0 <= k < seen.len() && #[trigger] seen[k] == n;
                        assert(now[k] == n);
                    }
                    if holds(now, n) && n != ordinal {
                        let k = choose|k: int| 0 <= k < now.len() && #[trigger] now[k] == n;
                        assert(seen[k] == n);
                    }
                    assert(now[i as int] == ordinal);
                    assert(holds(now, ordinal as int));
                    if holds(before, n) {
                        let k = choose|k: int| 0 <= k < before.len() && #[trigger] before[k] == n;
                        assert(processing@[k] == n);
                    }
                    if holds(processing@, n) && !holds(before, n) {
                        let k = choose|k: int|
                            0 <= k < processing@.len() && #[trigger] processing@[k] == n;
                        if k < before.len() {
                            assert(before[k] == n);
                        }
                    }
                    if !failed_block {
                        assert(processing@[before.len() as int] == ordinal);
                    }
                }
            }
            i = i + 1;
        }
        assert(window@.subrange(0, window@.len() as int) =~= window@);
        proof {
            lemma_state_numbers(
                cursor as int,
                total as int,
                processing@,
                failures.ordinals@,
                failed as int,
                failed_before as int,
            );
        }
        let failed_after: usize = failed - failed_before;
        let pending: usize = total - cursor - processing.len() - failed_after;
        TranslationProgress {
            total,
            cursor,
            done: cursor - failed_before,
            processing,
            failed,
            pending,
        }
    }

    /// Whether a block is under way.
    pub fn is_processing(&self, index: usize) -> (r: bool)
        ensures
            r == holds(self.processing@, index as int),
    {
        is_held(&self.processing, index)
    }

    /// How many blocks are in a state.
    pub open spec fn counted(self, state: BlockState) -> nat {
        match state {
            BlockState::Done => self.done as nat,
            BlockState::Processing => self.processing@.len(),
            BlockState::Failed => self.failed as nat,
            BlockState::Pending => self.pending as nat,
        }
    }

    /// How many blocks are in a state.
    pub fn count(&self, state: BlockState) -> (r: usize)
        ensures
            r == self.counted(state),
    {
        match state {
            BlockState::Done => self.done,
            BlockState::Processing => self.processing.len(),
            BlockState::Failed => self.failed,
            BlockState::Pending => self.pending,
        }
    }

    /// How many blocks pass a filter.
    pub open spec fn filtered_count(self, filter: Option<BlockState>) -> nat {
        match filter {
            Some(state) => self.counted(state),
            None => self.total as nat,
        }
    }

    /// How many blocks pass a filter.
    pub fn filtered(&self, filter: Option<BlockState>) -> (r: usize)
        ensures
            r == self.filtered_count(filter),
    {
        match filter {
            Some(state) => self.count(state),
            None => self.total,
        }
    }
}

impl BlockInspector {
    /// The blocks of a job with this many, as its cursor and its log tell.
    pub fn new(
        job: &BackgroundJobSnapshot,
        total: usize,
        logs: Option<&BackgroundJobLogSnapshot>,
    ) -> (r: Self)
        ensures
            r.is_of(
                *job,
                total,
                match logs {
                    Some(logs) => Some(*logs),
                    None => None,
                },
            ),
    {
        let failures = BlockFailures::from_logs(logs);
        let progress = TranslationProgress::new(job, total, &failures);
        let r = BlockInspector { progress, failures };
        proof {
            lemma_number_in(r, BlockState::Done);
            lemma_number_in(r, BlockState::Processing);
            lemma_number_in(r, BlockState::Failed);
            lemma_number_in(r, BlockState::Pending);
        }
        r
    }

    /// The state of a block.
    pub fn state(&self, index: usize) -> (r: BlockState)
        ensures
            r == self.state_of(index as int),
    {
        if self.failures.contains(index) {
            BlockState::Failed
        } else if index < self.progress.cursor {
            BlockState::Done
        } else if self.progress.is_processing(index) {
            BlockState::Processing
        } else {
            BlockState::Pending
        }
    }

    /// Why a block failed, as far as it is known.
    pub fn reason(&self, index: usize) -> (r: Option<&str>)
        requires
            self.failures.wf(),
        ensures
            self.failures.reason_text(index as int) == (match r {
                Some(label) => Some(label@),
                None => None,
            }),
    {
        self.failures.reason(index)
    }
}

proof fn lemma_number_in(inspector: BlockInspector, s: BlockState)
    ensures
        inspector.number_in(s) == ({
            let state = |s: BlockState|
                |n: int|
                    block_state(
                        inspector.progress.cursor as int,
                        inspector.progress.processing@,
                        inspector.failures.ordinals@,
                        n,
                    ) == s;
            count_between(state(s), 0, inspector.progress.total as int)
        }),
{
    let state = |s: BlockState|
        |n: int|
            block_state(
                inspector.progress.cursor as int,
                inspector.progress.processing@,
                inspector.failures.ordinals@,
                n,
            ) == s;
    lemma_count_same(
        state(s),
        |index: int| inspector.state_of(index) == s,
        0,
        inspector.progress.total as int,
    );
}

/// The numbers of blocks in each state add up to the number of all blocks.
pub proof fn the_numbers_add_up(inspector: BlockInspector)
    requires
        inspector.wf(),
    ensures
        inspector.progress.done + inspector.progress.processing@.len() + inspector.progress.failed
            + inspector.progress.pending == inspector.progress.total,
        forall|state: BlockState| #[trigger]
            inspector.progress.counted(state) == inspector.number_in(state),
{
    lemma_number_in(inspector, BlockState::Done);
    lemma_number_in(inspector, BlockState::Processing);
    lemma_number_in(inspector, BlockState::Failed);
    lemma_number_in(inspector, BlockState::Pending);
    lemma_states_add_up(
        inspector.progress.cursor as int,
        inspector.progress.processing@,
        inspector.failures.ordinals@,
        0,
        inspector.progress.total as int,
    );
}

/// Lines of the log before the start of the newest run do not count.
pub proof fn earlier_runs_do_not_count(
    earlier: Seq<JobLogEntry>,
    start: JobLogEntry,
    newest: Seq<JobLogEntry>,
    ordinal: int,
)
    requires
        start.event is RunStarted,
        forall|i: int| 0 <= i < newest.len() ==> !((#[trigger] newest[i]).event is RunStarted),
    ensures
        latest_failure(earlier.push(start) + newest, ordinal) == latest_failure(newest, ordinal),
    decreases newest.len(),
{
    let all = earlier.push(start) + newest;
    if newest.len() == 0 {
        assert(all.last() == start);
    } else {
        let rest = newest.drop_last();
        assert(all.drop_last() =~= earlier.push(start) + rest);
        assert(all.last() == newest.last());
        assert forall|i: int| 0 <= i < rest.len() implies !((
        #[trigger] rest[i]).event is RunStarted) by {
            assert(rest[i] == newest[i]);
        }
        assert(!(newest[newest.len() - 1].event is RunStarted));
        earlier_runs_do_not_count(earlier, start, rest, ordinal);
    }
}

} // verus!
