//! The list of the blocks of a translation job, page by page.

use crate::block_inspector::{
    count_between, held_by, holds, rises, BlockFailures, BlockInspector, BlockState,
    TranslationProgress, BLOCKS_PER_PAGE, LISTED_FAILURES,
};
use crate::jobs::{BackgroundJobSnapshot, BackgroundJobStatus, JobLogErrorKind};
use crate::text::{blank, decimal, is_blank, join, joined, option_text, push_decimal, texts};
use vstd::prelude::*;
use vstd::string::*;

verus! {

/// One block of a book.
#[derive(Debug, PartialEq, Eq)]
pub struct TranslationBlockInfo {
    pub ordinal: usize,
    pub unit_title: String,
    pub unit_ordinal: usize,
    pub source_preview: String,
}

/// All blocks of a book.
#[derive(Debug, PartialEq, Eq)]
pub struct TranslationBlockList {
    pub total: usize,
    pub target_language: String,
    /// The name of the target language, if it has one.
    pub target_label: Option<String>,
    pub blocks: Vec<TranslationBlockInfo>,
}

impl TranslationBlockList {
    /// What the target language is called.
    pub open spec fn language(self) -> Seq<char> {
        match self.target_label {
            Some(label) => label@,
            None => self.target_language@,
        }
    }

    /// What the target language is called.
    pub fn language_label(&self) -> (r: &str)
        ensures
            r@ == self.language(),
    {
        match &self.target_label {
            Some(label) => label.as_str(),
            None => self.target_language.as_str(),
        }
    }
}

// ---------------------------------------------------------------------------
// Pages
// ---------------------------------------------------------------------------

/// Whether a block passes a filter.
pub open spec fn passes(inspector: BlockInspector, filter: Option<BlockState>, index: int) -> bool {
    filter is Some ==> inspector.state_of(index) == filter->0
}

/// The blocks before a limit that pass a filter, in rising order.
pub open spec fn matching(inspector: BlockInspector, filter: Option<BlockState>, limit: int) -> Seq<
    usize,
>
    decreases limit,
{
    if limit <= 0 {
        Seq::empty()
    } else {
        let before = matching(inspector, filter, limit - 1);
        if passes(inspector, filter, limit - 1) {
            before.push((limit - 1) as usize)
        } else {
            before
        }
    }
}

/// The items on one page.
pub open spec fn page_of<A>(items: Seq<A>, page: int, size: int) -> Seq<A> {
    let start = if page * size < items.len() {
        page * size
    } else {
        items.len() as int
    };
    let end = if page * size + size < items.len() {
        page * size + size
    } else {
        items.len() as int
    };
    items.subrange(start, end)
}

/// How many pages there are for a number of items: at least one.
pub open spec fn page_count(items: int, size: int) -> int {
    if items <= size {
        1
    } else {
        (items + size - 1) / size
    }
}

/// How many pages there are for a number of items: at least one.
pub fn pages_for(items: usize, size: usize) -> (r: usize)
    requires
        size > 0,
    ensures
        r == page_count(items as int, size as int),
        r >= 1,
{
    if items <= size {
        return 1;
    }
    let r: usize = (items - 1) / size + 1;
    proof {
        let i = items as int;
        let s = size as int;
        vstd::arithmetic::div_mod::lemma_fundamental_div_mod(i - 1, s);
        vstd::arithmetic::div_mod::lemma_div_plus_one(i - 1, s);
        assert(s + (i - 1) == i + s - 1);
    }
    r
}

pub(crate) proof fn lemma_matching(inspector: BlockInspector, filter: Option<BlockState>, limit: int)
    requires
        0 <= limit <= usize::MAX,
    ensures
        rises(matching(inspector, filter, limit)),
        forall|i: int|
            0 <= i < matching(inspector, filter, limit).len() ==> #[trigger] matching(
                inspector,
                filter,
                limit,
            )[i] < limit && passes(inspector, filter, matching(inspector, filter, limit)[i] as int),
        forall|n: int| #[trigger]
            holds(matching(inspector, filter, limit), n) <==> 0 <= n < limit && passes(
                inspector,
                filter,
                n,
            ),
        matching(inspector, filter, limit).len() <= limit,
    decreases limit,
{
    if limit > 0 {
        lemma_matching(inspector, filter, limit - 1);
        let before = matching(inspector, filter, limit - 1);
        let all = matching(inspector, filter, limit);
        assert forall|i: int, j: int| 0 <= i < j < all.len() implies all[i] < all[j] by {
            if j < before.len() {
                assert(before[i] < before[j]);
            } else {
                assert(before[i] < limit - 1);
            }
        }
        assert forall|i: int| 0 <= i < all.len() implies #[trigger] all[i] < limit && passes(
            inspector,
            filter,
            all[i] as int,
        ) by {
            if i < before.len() {
                assert(all[i] == before[i]);
            }
        }
        assert forall|n: int| #[trigger] holds(all, n) <==> 0 <= n < limit && passes(
            inspector,
            filter,
            n,
        ) by {
            if holds(before, n) {
                let i = choose|i: int| 0 <= i < before.len() && #[trigger] before[i] == n;
                assert(all[i] == n);
            }
            if holds(all, n) {
                let i = choose|i: int| 0 <= i < all.len() && #[trigger] all[i] == n;
                assert(all[i] < limit);
            }
            if n == limit - 1 && passes(inspector, filter, n) {
                assert(all[before.len() as int] == n);
            }
            assert(holds(before, n) <==> 0 <= n < limit - 1 && passes(inspector, filter, n));
        }
    }
}

proof fn lemma_matching_is_prefix(
    inspector: BlockInspector,
    filter: Option<BlockState>,
    limit: int,
    total: int,
)
    requires
        0 <= limit <= total,
    ensures
        matching(inspector, filter, limit).len() <= matching(inspector, filter, total).len(),
        matching(inspector, filter, total).subrange(
            0,
            matching(inspector, filter, limit).len() as int,
        ) == matching(inspector, filter, limit),
    decreases total - limit,
{
    if limit < total {
        lemma_matching_is_prefix(inspector, filter, limit, total - 1);
        let all = matching(inspector, filter, total);
        let fewer = matching(inspector, filter, total - 1);
        let part = matching(inspector, filter, limit);
        assert(all.subrange(0, part.len() as int) =~= fewer.subrange(0, part.len() as int));
    } else {
        let part = matching(inspector, filter, limit);
        assert(part.subrange(0, part.len() as int) =~= part);
    }
}

/// The blocks on one page of the list. Blocks behind the page are not looked at.
pub fn block_page_indices(
    blocks: &TranslationBlockList,
    inspector: &BlockInspector,
    filter: Option<BlockState>,
    page: usize,
) -> (r: Vec<usize>)
    ensures
        r@ == page_of(
            matching(*inspector, filter, blocks.total as int),
            page as int,
            BLOCKS_PER_PAGE as int,
        ),
{
    let total: usize = blocks.total;
    let ghost all = matching(*inspector, filter, total as int);
    let mut indices: Vec<usize> = Vec::new();
    proof {
        lemma_matching(*inspector, filter, total as int);
    }
    if page > total / BLOCKS_PER_PAGE {
        proof {
            let p = page as int;
            assert(p * 50 >= total) by (nonlinear_arith)
                requires
                    p > total as int / 50,
                    total >= 0,
            ;
            assert(indices@ =~= page_of(all, p, BLOCKS_PER_PAGE as int));
        }
        return indices;
    }
    let ghost first = page * BLOCKS_PER_PAGE;
    assert(first <= total) by (nonlinear_arith)
        requires
            page <= total / BLOCKS_PER_PAGE,
            first == page * BLOCKS_PER_PAGE,
            BLOCKS_PER_PAGE == 50,
    ;
    let start: usize = page * BLOCKS_PER_PAGE;
    let mut matched: usize = 0;
    let mut index: usize = 0;
    while index < total
        invariant
            index <= total,
            total == blocks.total,
            start == page * BLOCKS_PER_PAGE,
            matched == matching(*inspector, filter, index as int).len(),
            matched <= index,
            matched < start + BLOCKS_PER_PAGE,
            indices@ == page_of(
                matching(*inspector, filter, index as int),
                page as int,
                BLOCKS_PER_PAGE as int,
            ),
            all == matching(*inspector, filter, total as int),
        decreases total - index,
    {
        let ghost before = matching(*inspector, filter, index as int);
        let wanted: bool = match filter {
            Some(state) => inspector.state(index) == state,
            None => true,
        };
        if wanted {
            if matched >= start {
                indices.push(index);
            }
            matched = matched + 1;
            proof {
                let after = matching(*inspector, filter, index + 1);
                assert(after == before.push(index));
                assert(indices@ =~= page_of(after, page as int, BLOCKS_PER_PAGE as int));
            }
            if matched >= start && matched - start >= BLOCKS_PER_PAGE {
                proof {
                    let after = matching(*inspector, filter, index + 1);
                    lemma_matching_is_prefix(*inspector, filter, index + 1, total as int);
                    assert(page_of(all, page as int, BLOCKS_PER_PAGE as int) =~= page_of(
                        all.subrange(0, after.len() as int),
                        page as int,
                        BLOCKS_PER_PAGE as int,
                    ));
                }
                return indices;
            }
        }
        index = index + 1;
    }
    indices
}

/// The page with the block at the cursor, or the last block before it, among the
/// blocks that pass a filter.
pub open spec fn anchor(inspector: BlockInspector, filter: Option<BlockState>, total: int) -> int {
    if total <= 0 {
        0
    } else {
        let cursor = inspector.progress.cursor as int;
        let target = if cursor < total - 1 {
            cursor
        } else {
            total - 1
        };
        matching(inspector, filter, target).len() as int / BLOCKS_PER_PAGE as int
    }
}

/// The page with the block at the cursor.
pub fn anchor_page(
    blocks: &TranslationBlockList,
    inspector: &BlockInspector,
    filter: Option<BlockState>,
) -> (r: usize)
    ensures
        r == anchor(*inspector, filter, blocks.total as int),
{
    if blocks.total == 0 {
        return 0;
    }
    let last: usize = blocks.total - 1;
    let target: usize = if inspector.progress.cursor < last {
        inspector.progress.cursor
    } else {
        last
    };
    let mut position: usize = 0;
    let mut index: usize = 0;
    while index < target
        invariant
            index <= target,
            position <= index,
            position == matching(*inspector, filter, index as int).len(),
        decreases target - index,
    {
        let wanted: bool = match filter {
            Some(state) => inspector.state(index) == state,
            None => true,
        };
        if wanted {
            position = position + 1;
        }
        index = index + 1;
    }
    position / BLOCKS_PER_PAGE
}

/// What the chapter of a block is called.
pub open spec fn chapter_text(block: TranslationBlockInfo) -> Seq<char> {
    if is_blank(block.unit_title@) {
        "第 "@ + decimal((block.unit_ordinal + 1) as nat) + " 章"@
    } else {
        block.unit_title@
    }
}

/// What the chapter of a block is called.
pub fn block_chapter_label(block: &TranslationBlockInfo) -> (r: String)
    ensures
        r@ == chapter_text(*block),
{
    if blank(block.unit_title.as_str()) {
        let mut out = "第 ".to_owned();
        push_decimal(&mut out, block.unit_ordinal as u128 + 1);
        out.push_str(" 章");
        out
    } else {
        block.unit_title.clone()
    }
}

// ---------------------------------------------------------------------------
// Failures in words
// ---------------------------------------------------------------------------

/// A block by its number.
pub open spec fn hash_number(ordinal: usize) -> Seq<char> {
    "#"@ + decimal(ordinal as nat)
}

/// Blocks by their numbers.
pub open spec fn hash_numbers(ordinals: Seq<usize>) -> Seq<Seq<char>> {
    ordinals.map_values(|ordinal: usize| hash_number(ordinal))
}

/// The failed blocks of the list.
pub open spec fn failed_blocks(inspector: BlockInspector) -> Seq<usize> {
    inspector.failures.ordinals@.subrange(
        0,
        count_between(
            held_by(inspector.failures.ordinals@),
            0,
            inspector.progress.total as int,
        ) as int,
    )
}

/// Which blocks the newest run left untranslated, the first of them by number;
/// nothing where there are none.
pub open spec fn untranslated_text(failed: Seq<usize>) -> Option<Seq<char>> {
    if failed.len() == 0 {
        None
    } else if failed.len() > LISTED_FAILURES {
        Some(
            "本次执行未翻译的文本块："@ + joined(
                hash_numbers(failed.subrange(0, LISTED_FAILURES as int)),
                "、"@,
            ) + " … 共 "@ + decimal(failed.len()) + " 个"@,
        )
    } else {
        Some("本次执行未翻译的文本块："@ + joined(hash_numbers(failed), "、"@))
    }
}

fn hash_label(ordinal: usize) -> (r: String)
    ensures
        r@ == hash_number(ordinal),
{
    let mut out = "#".to_owned();
    push_decimal(&mut out, ordinal as u128);
    out
}

/// Which blocks the newest run left untranslated.
pub fn untranslated_summary(inspector: &BlockInspector) -> (r: Option<String>)
    requires
        inspector.failures.wf(),
    ensures
        option_text(r) == untranslated_text(failed_blocks(*inspector)),
{
    let count: usize = inspector.failures.failed(inspector.progress.total);
    if count == 0 {
        return None;
    }
    let ordinals = &inspector.failures.ordinals;
    let ghost failed = ordinals@.subrange(0, count as int);
    let shown: usize = if count > LISTED_FAILURES {
        LISTED_FAILURES
    } else {
        count
    };
    let ghost expected = hash_numbers(failed.subrange(0, shown as int));
    let mut parts: Vec<String> = Vec::new();
    let mut i: usize = 0;
    while i < shown
        invariant
            i <= shown <= count <= ordinals@.len(),
            failed == ordinals@.subrange(0, count as int),
            expected == hash_numbers(failed.subrange(0, shown as int)),
            expected.len() == shown,
            texts(parts@) =~= expected.subrange(0, i as int),
        decreases shown - i,
    {
        let label = hash_label(ordinals[i]);
        let ghost had = parts@;
        parts.push(label);
        proof {
            assert(expected[i as int] == label@);
            assert(texts(parts@) =~= texts(had).push(label@));
            assert(expected.subrange(0, i + 1) =~= expected.subrange(0, i as int).push(label@));
        }
        i = i + 1;
    }
    assert(expected.subrange(0, expected.len() as int) =~= expected);
    assert(failed.subrange(0, failed.len() as int) =~= failed);
    let mut out = "本次执行未翻译的文本块：".to_owned();
    out.push_str(join(&parts, "、").as_str());
    if count > LISTED_FAILURES {
        out.push_str(" … 共 ");
        push_decimal(&mut out, count as u128);
        out.push_str(" 个");
    }
    Some(out)
}

/// What stands above the list of blocks where something went wrong.
#[derive(Debug, PartialEq, Eq)]
pub struct FailureBanner {
    pub lines: Vec<String>,
    /// Whether the job as a whole failed.
    pub failed_task: bool,
}

/// The first line of the banner.
pub open spec fn banner_head(job: BackgroundJobSnapshot, failed: nat) -> Seq<char> {
    if job.status is Failed {
        "任务失败："@ + (match job.error {
            Some(error) => error@,
            None => "未记录失败原因"@,
        })
    } else {
        "本次执行有 "@ + decimal(failed) + " 个文本块没有译文，已保留原文；可筛选“失败”查看。"@
    }
}

/// The lines of the banner; nothing where nothing went wrong.
pub open spec fn banner_lines(job: BackgroundJobSnapshot, inspector: BlockInspector) -> Option<
    Seq<Seq<char>>,
> {
    let failed = inspector.progress.failed as nat;
    if !(job.status is Failed) && failed == 0 {
        None
    } else {
        let head = seq![banner_head(job, failed)];
        let summary = untranslated_text(failed_blocks(inspector));
        let with_summary = match summary {
            Some(text) => head.push(text),
            None => head,
        };
        Some(
            if inspector.failures.truncated {
                with_summary.push("诊断记录已按保留上限清理，上面的清单可能不完整。"@)
            } else {
                with_summary
            },
        )
    }
}

/// What stands above the list of blocks where something went wrong.
pub fn failure_banner(job: &BackgroundJobSnapshot, inspector: &BlockInspector) -> (r: Option<
    FailureBanner,
>)
    requires
        inspector.failures.wf(),
    ensures
        match r {
            Some(banner) => banner_lines(*job, *inspector) == Some(texts(banner.lines@))
                && banner.failed_task == (job.status is Failed),
            None => banner_lines(*job, *inspector) is None,
        },
{
    let failed: usize = inspector.progress.failed;
    let failed_task: bool = job.status == BackgroundJobStatus::Failed;
    if !failed_task && failed == 0 {
        return None;
    }
    let mut lines: Vec<String> = Vec::new();
    let head = if failed_task {
        let mut text = "任务失败：".to_owned();
        match &job.error {
            Some(error) => text.push_str(error.as_str()),
            None => text.push_str("未记录失败原因"),
        }
        text
    } else {
        let mut text = "本次执行有 ".to_owned();
        push_decimal(&mut text, failed as u128);
        text.push_str(" 个文本块没有译文，已保留原文；可筛选“失败”查看。");
        text
    };
    lines.push(head);
    assert(texts(lines@) =~= seq![banner_head(*job, failed as nat)]);
    if let Some(summary) = untranslated_summary(inspector) {
        let ghost had = lines@;
        lines.push(summary);
        assert(texts(lines@) =~= texts(had).push(summary@));
    }
    if inspector.failures.truncated {
        let ghost had = lines@;
        let note = "诊断记录已按保留上限清理，上面的清单可能不完整。".to_owned();
        lines.push(note);
        assert(texts(lines@) =~= texts(had).push(note@));
    }
    Some(FailureBanner { lines, failed_task })
}

/// One failed block with its reason.
pub open spec fn failure_item(ordinal: usize, kind: Option<JobLogErrorKind>) -> Seq<char> {
    hash_number(ordinal) + " "@ + (match kind {
        Some(kind) => kind.label@,
        None => "未记录分类"@,
    })
}

/// All failed blocks with their reasons.
pub open spec fn failure_items(failures: BlockFailures) -> Seq<Seq<char>> {
    Seq::new(
        failures.ordinals@.len(),
        |i: int| failure_item(failures.ordinals@[i], failures.kinds@[i]),
    )
}

/// The numbers of blocks in each state, in words.
pub open spec fn counts_text(progress: TranslationProgress) -> Seq<char> {
    decimal(progress.done as nat) + " · 处理中 "@ + decimal(progress.processing@.len())
        + " · 失败 "@ + decimal(progress.failed as nat) + " · 待处理 "@ + decimal(
        progress.pending as nat,
    )
}

fn push_counts(out: &mut String, progress: &TranslationProgress)
    ensures
        final(out)@ == old(out)@ + counts_text(*progress),
{
    push_decimal(out, progress.done as u128);
    out.push_str(" · 处理中 ");
    push_decimal(out, progress.processing.len() as u128);
    out.push_str(" · 失败 ");
    push_decimal(out, progress.failed as u128);
    out.push_str(" · 待处理 ");
    push_decimal(out, progress.pending as u128);
    assert(out@ =~= old(out)@ + counts_text(*progress));
}

/// The blocks of a job as text.
pub open spec fn blocks_copy_text(
    job: BackgroundJobSnapshot,
    blocks: TranslationBlockList,
    inspector: BlockInspector,
) -> Seq<char> {
    let progress = inspector.progress;
    let head = seq![
        "任务 ID: "@ + job.id@,
        "图书 ID: "@ + job.book_id@,
        "目标语言: "@ + blocks.language(),
        "文本块: 共 "@ + decimal(progress.total as nat) + " · 已处理 "@ + counts_text(progress),
        "序号与任务游标一致，从 0 开始。"@,
    ];
    let with_failures = if progress.failed > 0 {
        let listed = head.push(
            "本次执行未翻译的文本块: "@ + joined(failure_items(inspector.failures), "、"@),
        );
        if inspector.failures.truncated {
            listed.push("诊断记录已按保留上限清理，上面的列表可能不完整。"@)
        } else {
            listed
        }
    } else {
        head
    };
    let with_error = match job.error {
        Some(error) => with_failures.push("失败原因: "@ + error@),
        None => with_failures,
    };
    joined(with_error, "\n"@)
}

fn failure_texts(failures: &BlockFailures) -> (r: Vec<String>)
    requires
        failures.wf(),
    ensures
        texts(r@) == failure_items(*failures),
{
    let ghost expected = failure_items(*failures);
    let mut out: Vec<String> = Vec::new();
    let mut i: usize = 0;
    while i < failures.ordinals.len()
        invariant
            i <= failures.ordinals@.len(),
            failures.wf(),
            expected == failure_items(*failures),
            texts(out@) =~= expected.subrange(0, i as int),
        decreases failures.ordinals@.len() - i,
    {
        let mut item = hash_label(failures.ordinals[i]);
        item.push_str(" ");
        match &failures.kinds[i] {
            Some(kind) => item.push_str(kind.label.as_str()),
            None => item.push_str("未记录分类"),
        }
        let ghost had = out@;
        out.push(item);
        proof {
            assert(expected[i as int] == item@);
            assert(texts(out@) =~= texts(had).push(item@));
            assert(expected.subrange(0, i + 1) =~= expected.subrange(0, i as int).push(item@));
        }
        i = i + 1;
    }
    assert(expected.subrange(0, expected.len() as int) =~= expected);
    out
}

fn prefixed(prefix: &str, text: &str) -> (r: String)
    ensures
        r@ == prefix@ + text@,
{
    let mut out = prefix.to_owned();
    out.push_str(text);
    out
}

/// The blocks of a job as text.
pub fn translation_blocks_copy(
    job: &BackgroundJobSnapshot,
    blocks: &TranslationBlockList,
    inspector: &BlockInspector,
) -> (r: String)
    requires
        inspector.failures.wf(),
    ensures
        r@ == blocks_copy_text(*job, *blocks, *inspector),
{
    let progress = &inspector.progress;
    let mut counts = "文本块: 共 ".to_owned();
    push_decimal(&mut counts, progress.total as u128);
    counts.push_str(" · 已处理 ");
    push_counts(&mut counts, progress);
    let mut lines: Vec<String> = Vec::new();
    lines.push(prefixed("任务 ID: ", job.id.as_str()));
    lines.push(prefixed("图书 ID: ", job.book_id.as_str()));
    lines.push(prefixed("目标语言: ", blocks.language_label()));
    lines.push(counts);
    lines.push("序号与任务游标一致，从 0 开始。".to_owned());
    assert(texts(lines@) =~= seq![
        "任务 ID: "@ + job.id@,
        "图书 ID: "@ + job.book_id@,
        "目标语言: "@ + blocks.language(),
        "文本块: 共 "@ + decimal(progress.total as nat) + " · 已处理 "@ + counts_text(*progress),
        "序号与任务游标一致，从 0 开始。"@,
    ]);
    if progress.failed > 0 {
        let items = join(&failure_texts(&inspector.failures), "、");
        let line = prefixed("本次执行未翻译的文本块: ", items.as_str());
        let ghost had = lines@;
        lines.push(line);
        assert(texts(lines@) =~= texts(had).push(line@));
        if inspector.failures.truncated {
            let ghost had = lines@;
            let note = "诊断记录已按保留上限清理，上面的列表可能不完整。".to_owned();
            lines.push(note);
            assert(texts(lines@) =~= texts(had).push(note@));
        }
    }
    if let Some(error) = &job.error {
        let line = prefixed("失败原因: ", error.as_str());
        let ghost had = lines@;
        lines.push(line);
        assert(texts(lines@) =~= texts(had).push(line@));
    }
    join(&lines, "\n")
}

// ---------------------------------------------------------------------------
// Laws
// ---------------------------------------------------------------------------

/// The list has as many blocks as its header says, whatever the filter.
pub proof fn the_list_is_as_long_as_its_header_says(
    inspector: BlockInspector,
    filter: Option<BlockState>,
)
    requires
        inspector.wf(),
    ensures
        matching(inspector, filter, inspector.progress.total as int).len()
            == inspector.progress.filtered_count(filter),
{
    let total = inspector.progress.total as int;
    lemma_matching_count(inspector, filter, total);
    match filter {
        Some(state) => {
            crate::block_inspector::the_numbers_add_up(inspector);
            lemma_same_count(inspector, state, total);
            assert(inspector.progress.counted(state) == inspector.number_in(state));
        },
        None => {
            lemma_all_pass(inspector, total);
        },
    }
}

proof fn lemma_matching_count(inspector: BlockInspector, filter: Option<BlockState>, limit: int)
    requires
        0 <= limit,
    ensures
        matching(inspector, filter, limit).len() == count_between(
            |index: int| passes(inspector, filter, index),
            0,
            limit,
        ),
    decreases limit,
{
    if limit > 0 {
        lemma_matching_count(inspector, filter, limit - 1);
    }
}

proof fn lemma_same_count(inspector: BlockInspector, state: BlockState, limit: int)
    ensures
        count_between(|index: int| passes(inspector, Some(state), index), 0, limit)
            == count_between(|index: int| inspector.state_of(index) == state, 0, limit),
    decreases limit,
{
    if limit > 0 {
        lemma_same_count(inspector, state, limit - 1);
    }
}

proof fn lemma_all_pass(inspector: BlockInspector, limit: int)
    requires
        0 <= limit,
    ensures
        count_between(|index: int| passes(inspector, None, index), 0, limit) == limit,
    decreases limit,
{
    if limit > 0 {
        lemma_all_pass(inspector, limit - 1);
    }
}

/// Every block that passes a filter is on one page, and a page holds no others.
pub proof fn every_block_is_on_one_page(
    inspector: BlockInspector,
    filter: Option<BlockState>,
    total: int,
    index: int,
)
    requires
        0 <= total <= usize::MAX,
        0 <= index < total,
        passes(inspector, filter, index),
    ensures
        ({
            let all = matching(inspector, filter, total);
            let page = matching(inspector, filter, index).len() as int / BLOCKS_PER_PAGE as int;
            &&& holds(page_of(all, page, BLOCKS_PER_PAGE as int), index)
            &&& page < page_count(all.len() as int, BLOCKS_PER_PAGE as int)
            &&& forall|other: int|
                other >= 0 && other != page ==> !holds(
                    #[trigger] page_of(all, other, BLOCKS_PER_PAGE as int),
                    index,
                )
        }),
{
    let all = matching(inspector, filter, total);
    let before = matching(inspector, filter, index);
    let position = before.len() as int;
    let size = BLOCKS_PER_PAGE as int;
    let page = position / size;
    lemma_matching(inspector, filter, total);
    lemma_matching(inspector, filter, index);
    lemma_matching_is_prefix(inspector, filter, index + 1, total);
    let upto = matching(inspector, filter, index + 1);
    assert(upto == before.push(index as usize));
    assert(all.subrange(0, upto.len() as int)[position] == all[position]);
    assert(all[position] == index);
    assert(page * size <= position < page * size + size);
    let shown = page_of(all, page, size);
    assert(shown[position - page * size] == index);
    assert forall|other: int| other >= 0 && other != page implies !holds(
        #[trigger] page_of(all, other, size),
        index,
    ) by {
        let items = page_of(all, other, size);
        if holds(items, index) {
            let k = choose|k: int| 0 <= k < items.len() && #[trigger] items[k] == index;
            let start = if other * size < all.len() {
                other * size
            } else {
                all.len() as int
            };
            assert(items[k] == all[start + k]);
            let at = start + k;
            if at < position {
                assert(all[at] < all[position]);
            } else if position < at {
                assert(all[position] < all[at]);
            }
            assert(at == position);
            assert(other * size <= position < other * size + size);
            if other < page {
                assert(other * size + size <= page * size) by (nonlinear_arith)
                    requires
                        other < page,
                        size == 50,
                ;
            } else {
                assert(page * size + size <= other * size) by (nonlinear_arith)
                    requires
                        page < other,
                        size == 50,
                ;
            }
        }
    }
    if all.len() > size {
        assert(page < (all.len() + size - 1) / size) by (nonlinear_arith)
            requires
                page * size <= position,
                position < all.len(),
                size == 50,
        ;
    }
}

/// The page that is jumped to holds the block at the cursor, where that passes
/// the filter.
pub proof fn the_anchor_page_holds_the_cursor(
    inspector: BlockInspector,
    filter: Option<BlockState>,
    total: int,
)
    requires
        0 < total <= usize::MAX,
        inspector.progress.cursor < total,
        passes(inspector, filter, inspector.progress.cursor as int),
    ensures
        holds(
            page_of(
                matching(inspector, filter, total),
                anchor(inspector, filter, total),
                BLOCKS_PER_PAGE as int,
            ),
            inspector.progress.cursor as int,
        ),
{
    every_block_is_on_one_page(inspector, filter, total, inspector.progress.cursor as int);
}

/// There are as many pages as the items need, and at least one.
pub proof fn there_are_as_many_pages_as_needed(items: int, size: int)
    requires
        items >= 0,
        size > 0,
    ensures
        page_count(items, size) >= 1,
        items <= page_count(items, size) * size,
        page_count(items, size) > 1 ==> (page_count(items, size) - 1) * size < items,
{
    if items > size {
        let n = items + size - 1;
        let pages = n / size;
        vstd::arithmetic::div_mod::lemma_fundamental_div_mod(n, size);
        assert(n == size * pages + n % size && 0 <= n % size < size);
        assert(pages * size == size * pages) by (nonlinear_arith);
        assert((pages - 1) * size == pages * size - size) by (nonlinear_arith);
        assert(pages >= 1) by (nonlinear_arith)
            requires
                pages * size > 0,
                size > 0,
        ;
    }
}

/// An item stands on the page that its place falls on, as far from the start of the
/// page as its place is behind the last full page.
pub proof fn every_item_is_on_its_page<A>(items: Seq<A>, size: int, at: int)
    requires
        size > 0,
        0 <= at < items.len(),
    ensures
        0 <= at / size < page_count(items.len() as int, size),
        0 <= at % size < page_of(items, at / size, size).len() <= size,
        page_of(items, at / size, size)[at % size] == items[at],
{
    let page = at / size;
    vstd::arithmetic::div_mod::lemma_fundamental_div_mod(at, size);
    assert(page * size == size * page) by (nonlinear_arith);
    assert(page >= 0) by (nonlinear_arith)
        requires
            at >= 0,
            size > 0,
            page == at / size,
    ;
    let pages = page_count(items.len() as int, size);
    there_are_as_many_pages_as_needed(items.len() as int, size);
    assert(page < pages) by (nonlinear_arith)
        requires
            page * size <= at,
            at < items.len(),
            items.len() <= pages * size,
            size > 0,
    ;
}

/// A page holds items from its own place on, in their order, and no more than fit.
pub proof fn a_page_holds_its_items_in_order<A>(items: Seq<A>, size: int, page: int, k: int)
    requires
        size > 0,
        page >= 0,
        0 <= k < page_of(items, page, size).len(),
    ensures
        page * size + k < items.len(),
        page_of(items, page, size)[k] == items[page * size + k],
        page_of(items, page, size).len() <= size,
        page < page_count(items.len() as int, size),
{
    let pages = page_count(items.len() as int, size);
    assert(page * size >= 0) by (nonlinear_arith)
        requires
            page >= 0,
            size > 0,
    ;
    there_are_as_many_pages_as_needed(items.len() as int, size);
    assert(page < pages) by (nonlinear_arith)
        requires
            page * size < items.len(),
            items.len() <= pages * size,
            size > 0,
    ;
}

} // verus!
