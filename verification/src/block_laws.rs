//! What the states of the blocks of a translation job rest on: the cursor of the
//! job, the blocks that it has under way, and the log of its newest run.

use crate::block_detail::{
    detail_tabs, detail_text, BlockDetailState, BlockDetailTab, TranslationBlockDetail,
};
use crate::block_inspector::{
    count_between, held_by, holds, latest_failure, rises, BlockFailures, BlockInspector, BlockState,
};
use crate::block_pages::{
    anchor, banner_lines, chapter_text, failed_blocks, failure_items, lemma_matching, matching,
    untranslated_text, TranslationBlockInfo,
    TranslationBlockList,
};
use crate::jobs::{
    BackgroundJobLogSnapshot, BackgroundJobSnapshot, BackgroundJobStatus, JobLogEntry, JobLogEvent,
};
use crate::json::{indented, indented_object, numbers_under};
use crate::text::{decimal, is_white_space, joined};
use vstd::prelude::*;

verus! {

/// Whether a line of the log says that a block failed: it was skipped or failed, and
/// not because it was called off.
pub open spec fn reports_failure(entry: JobLogEntry, ordinal: int) -> bool {
    &&& entry.event == JobLogEvent::ProtocolSkipped || entry.event == JobLogEvent::StepFailed
    &&& entry.ordinal is Some
    &&& entry.ordinal->0 == ordinal
    &&& entry.error_kind is Some ==> !entry.error_kind->0.cancelled
}

/// Whether a place in the log belongs to the newest run.
pub open spec fn is_of_newest_run(entries: Seq<JobLogEntry>, i: int) -> bool {
    &&& 0 <= i < entries.len()
    &&& forall|j: int|
        i <= j < entries.len() ==> (#[trigger] entries[j]).event != JobLogEvent::RunStarted
}

/// A block failed exactly where a line of the newest run says so, and the last such
/// line says why.
pub proof fn a_block_failed_where_the_newest_run_says_so(
    entries: Seq<JobLogEntry>,
    ordinal: int,
)
    ensures
        latest_failure(entries, ordinal) is Some <==> exists|i: int|
            is_of_newest_run(entries, i) && reports_failure(#[trigger] entries[i], ordinal),
        forall|i: int|
            #![trigger entries[i]]
            is_of_newest_run(entries, i) && reports_failure(entries[i], ordinal) && (forall|j: int|
                i < j < entries.len() ==> !reports_failure(#[trigger] entries[j], ordinal))
                ==> latest_failure(entries, ordinal) == Some(entries[i].error_kind),
    decreases entries.len(),
{
    if entries.len() > 0 {
        let rest = entries.drop_last();
        let last = entries.len() - 1;
        a_block_failed_where_the_newest_run_says_so(rest, ordinal);
        assert(entries.last() == entries[last]);
        if entries[last].event == JobLogEvent::RunStarted {
            assert forall|i: int| !is_of_newest_run(entries, i) by {
                if 0 <= i < entries.len() {
                    assert(entries[last].event == JobLogEvent::RunStarted);
                }
            }
        } else if reports_failure(entries[last], ordinal) {
            assert(is_of_newest_run(entries, last));
            assert forall|i: int|
                #![trigger entries[i]]
                is_of_newest_run(entries, i) && reports_failure(entries[i], ordinal) && (forall|
                    j: int,
                |
                    i < j < entries.len() ==> !reports_failure(#[trigger] entries[j], ordinal))
                implies latest_failure(entries, ordinal) == Some(entries[i].error_kind) by {
                if i < last {
                    assert(!reports_failure(entries[last], ordinal));
                }
            }
        } else {
            assert forall|i: int| 0 <= i < last implies is_of_newest_run(entries, i)
                == is_of_newest_run(rest, i) && #[trigger] rest[i] == entries[i] by {
                if is_of_newest_run(entries, i) {
                    assert forall|j: int| i <= j < rest.len() implies (#[trigger] rest[j]).event
                        != JobLogEvent::RunStarted by {
                        assert(rest[j] == entries[j]);
                    }
                }
                if is_of_newest_run(rest, i) {
                    assert forall|j: int| i <= j < entries.len() implies (
                    #[trigger] entries[j]).event != JobLogEvent::RunStarted by {
                        if j < last {
                            assert(rest[j] == entries[j]);
                        }
                    }
                }
            }
            if exists|i: int|
                is_of_newest_run(entries, i) && reports_failure(#[trigger] entries[i], ordinal) {
                let i = choose|i: int|
                    is_of_newest_run(entries, i) && reports_failure(
                        #[trigger] entries[i],
                        ordinal,
                    );
                assert(rest[i] == entries[i]);
                assert(is_of_newest_run(rest, i));
            }
            if latest_failure(rest, ordinal) is Some {
                let i = choose|i: int|
                    is_of_newest_run(rest, i) && reports_failure(#[trigger] rest[i], ordinal);
                assert(entries[i] == rest[i]);
                assert(is_of_newest_run(entries, i));
            }
            assert forall|i: int|
                #![trigger entries[i]]
                is_of_newest_run(entries, i) && reports_failure(entries[i], ordinal) && (forall|
                    j: int,
                |
                    i < j < entries.len() ==> !reports_failure(#[trigger] entries[j], ordinal))
                implies latest_failure(entries, ordinal) == Some(entries[i].error_kind) by {
                assert(rest[i] == entries[i]);
                assert(is_of_newest_run(rest, i));
                assert forall|j: int| i < j < rest.len() implies !reports_failure(
                    #[trigger] rest[j],
                    ordinal,
                ) by {
                    assert(rest[j] == entries[j]);
                }
            }
        }
    }
}

/// Whether the log of the newest run says that a block failed.
pub open spec fn has_failed(logs: Option<BackgroundJobLogSnapshot>, n: int) -> bool {
    logs is Some && exists|i: int|
        is_of_newest_run(logs->0.entries@, i) && reports_failure(
            #[trigger] logs->0.entries@[i],
            n,
        )
}

/// Whether a running job names a block among those that it has under way.
pub open spec fn is_under_way(job: BackgroundJobSnapshot, n: int) -> bool {
    &&& job.status == BackgroundJobStatus::Running
    &&& job.cursor_json is Some
    &&& numbers_under(job.cursor_json->0@, "inflight"@) is Some
    &&& exists|k: int|
        0 <= k < numbers_under(job.cursor_json->0@, "inflight"@)->0.len()
            && #[trigger] numbers_under(job.cursor_json->0@, "inflight"@)->0[k] == Some(n as u64)
}

/// A block is failed where the log of the newest run says so; otherwise done where
/// the job is past it, under way where a running job names it, and still to come
/// where neither holds.
pub proof fn a_block_is_in_the_state_that_its_job_tells(
    inspector: BlockInspector,
    job: BackgroundJobSnapshot,
    total: usize,
    logs: Option<BackgroundJobLogSnapshot>,
    n: int,
)
    requires
        inspector.is_of(job, total, logs),
        0 <= n < total,
        n <= u64::MAX,
    ensures
        inspector.state_of(n) == BlockState::Failed <==> has_failed(logs, n),
        inspector.state_of(n) == BlockState::Done <==> !has_failed(logs, n) && n
            < job.progress.completed,
        inspector.state_of(n) == BlockState::Processing <==> !has_failed(logs, n) && n
            >= job.progress.completed && is_under_way(job, n),
        inspector.state_of(n) == BlockState::Pending <==> !has_failed(logs, n) && n
            >= job.progress.completed && !is_under_way(job, n),
{
    if let Some(logs) = logs {
        a_block_failed_where_the_newest_run_says_so(logs.entries@, n);
        assert(inspector.failures.failure(n) == latest_failure(logs.entries@, n));
    }
    assert(holds(inspector.failures.ordinals@, n) <==> has_failed(logs, n));
    let named = crate::block_inspector::named_blocks(job);
    if crate::block_inspector::names(named, n) {
        let k = choose|k: int| 0 <= k < named.len() && #[trigger] named[k] == Some(n as u64);
        assert(numbers_under(job.cursor_json->0@, "inflight"@)->0[k] == Some(n as u64));
    }
    if is_under_way(job, n) {
        let k = choose|k: int|
            0 <= k < numbers_under(job.cursor_json->0@, "inflight"@)->0.len()
                && #[trigger] numbers_under(job.cursor_json->0@, "inflight"@)->0[k] == Some(
                n as u64,
            );
        assert(named[k] == Some(n as u64));
    }
}

proof fn lemma_count_is_cardinality(test: spec_fn(int) -> bool, low: int, high: int)
    requires
        low <= high,
    ensures
        vstd::set_lib::set_int_range(low, high).filter(test).len() == count_between(test, low, high),
        vstd::set_lib::set_int_range(low, high).filter(test).finite(),
    decreases high - low,
{
    vstd::set_lib::lemma_int_range(low, high);
    let all = vstd::set_lib::set_int_range(low, high);
    if low < high {
        lemma_count_is_cardinality(test, low, high - 1);
        let fewer = vstd::set_lib::set_int_range(low, high - 1);
        if test(high - 1) {
            assert(all.filter(test) =~= fewer.filter(test).insert(high - 1));
        } else {
            assert(all.filter(test) =~= fewer.filter(test));
        }
    } else {
        assert(all.filter(test) =~= Set::empty());
    }
}

/// The number that is shown for a state is that of the blocks in it.
pub proof fn a_number_counts_the_blocks_in_its_state(inspector: BlockInspector, state: BlockState)
    requires
        inspector.wf(),
    ensures
        vstd::set_lib::set_int_range(0, inspector.progress.total as int).filter(
            |n: int| inspector.state_of(n) == state,
        ).len() == (match state {
            BlockState::Done => inspector.progress.done as nat,
            BlockState::Processing => inspector.progress.processing@.len(),
            BlockState::Failed => inspector.progress.failed as nat,
            BlockState::Pending => inspector.progress.pending as nat,
        }),
        inspector.progress.filtered_count(Some(state)) == (match state {
            BlockState::Done => inspector.progress.done as nat,
            BlockState::Processing => inspector.progress.processing@.len(),
            BlockState::Failed => inspector.progress.failed as nat,
            BlockState::Pending => inspector.progress.pending as nat,
        }),
        inspector.progress.filtered_count(None) == inspector.progress.total,
{
    let test = |n: int| inspector.state_of(n) == state;
    lemma_count_is_cardinality(test, 0, inspector.progress.total as int);
    crate::block_inspector::the_numbers_add_up(inspector);
    assert(inspector.progress.counted(state) == inspector.number_in(state));
}

/// The list of blocks holds those in the state that is asked for, or all where none
/// is, each once and in rising order.
pub proof fn the_list_of_blocks_holds_what_is_asked_for(
    inspector: BlockInspector,
    filter: Option<BlockState>,
    total: int,
    n: int,
)
    requires
        0 <= total <= usize::MAX,
    ensures
        ({
            let list = matching(inspector, filter, total);
            &&& (exists|i: int| 0 <= i < list.len() && #[trigger] list[i] == n) <==> 0 <= n < total
                && (filter == Some(inspector.state_of(n)) || filter is None)
            &&& forall|i: int, j: int| 0 <= i < j < list.len() ==> list[i] < list[j]
        }),
{
    lemma_matching(inspector, filter, total);
    assert(holds(matching(inspector, filter, total), n) <==> 0 <= n < total
        && crate::block_pages::passes(inspector, filter, n));
}

/// The failed blocks that are listed are those of the book that failed, each once
/// and in rising order.
pub proof fn all_failed_blocks_are_listed(inspector: BlockInspector, n: int)
    requires
        inspector.wf(),
        n >= 0,
    ensures
        ({
            let failed = failed_blocks(inspector);
            &&& (exists|i: int| 0 <= i < failed.len() && #[trigger] failed[i] == n) <==> n
                < inspector.progress.total && inspector.state_of(n) == BlockState::Failed
            &&& failed.len() == inspector.progress.failed
            &&& forall|i: int, j: int| 0 <= i < j < failed.len() ==> failed[i] < failed[j]
        }),
{
    let ordinals = inspector.failures.ordinals@;
    let total = inspector.progress.total as int;
    let k = lemma_split_rising(ordinals, total);
    crate::block_inspector::lemma_count_held(ordinals, k, 0, total);
    let failed = failed_blocks(inspector);
    assert(failed.len() == k);
    if holds(ordinals, n) && n < total {
        let i = choose|i: int| 0 <= i < ordinals.len() && #[trigger] ordinals[i] == n;
        assert(i < k);
        assert(failed[i] == n);
    }
    if exists|i: int| 0 <= i < failed.len() && #[trigger] failed[i] == n {
        let i = choose|i: int| 0 <= i < failed.len() && #[trigger] failed[i] == n;
        assert(ordinals[i] == n);
    }
    let test = |m: int| inspector.state_of(m) == BlockState::Failed;
    crate::block_inspector::lemma_count_same(test, held_by(ordinals), 0, total);
}

proof fn lemma_split_rising(s: Seq<usize>, limit: int) -> (k: int)
    requires
        rises(s),
    ensures
        0 <= k <= s.len(),
        forall|i: int| 0 <= i < k ==> #[trigger] s[i] < limit,
        forall|i: int| k <= i < s.len() ==> limit <= #[trigger] s[i],
    decreases s.len(),
{
    if s.len() == 0 {
        0
    } else if s.last() < limit {
        assert forall|i: int| 0 <= i < s.len() implies #[trigger] s[i] < limit by {
            if i < s.len() - 1 {
                assert(s[i] < s[s.len() - 1]);
            }
        }
        s.len() as int
    } else {
        let rest = s.drop_last();
        assert(rises(rest));
        let k = lemma_split_rising(rest, limit);
        assert forall|i: int| 0 <= i < k implies #[trigger] s[i] < limit by {
            assert(rest[i] == s[i]);
        }
        assert forall|i: int| k <= i < s.len() implies limit <= #[trigger] s[i] by {
            if i < rest.len() {
                assert(rest[i] == s[i]);
            }
        }
        k
    }
}

/// The banner is shown exactly where the job failed or a block did; it begins with
/// why the job failed, where it did, and names failed blocks where there are any.
pub proof fn the_banner_says_what_went_wrong(
    job: BackgroundJobSnapshot,
    inspector: BlockInspector,
)
    requires
        inspector.wf(),
    ensures
        banner_lines(job, inspector) is Some <==> job.status == BackgroundJobStatus::Failed
            || inspector.progress.failed > 0,
        banner_lines(job, inspector) is Some ==> {
            let lines = banner_lines(job, inspector)->0;
            &&& lines.len() == 1 + (if inspector.progress.failed > 0 {
                1int
            } else {
                0
            }) + (if inspector.failures.truncated {
                1int
            } else {
                0
            })
            &&& job.status == BackgroundJobStatus::Failed && job.error is Some ==> lines[0]
                == "任务失败："@ + job.error->0@
            &&& job.status != BackgroundJobStatus::Failed ==> lines[0] == "本次执行有 "@ + decimal(
                inspector.progress.failed as nat,
            ) + " 个文本块没有译文，已保留原文；可筛选“失败”查看。"@
            &&& inspector.progress.failed > 0 ==> untranslated_text(failed_blocks(inspector))
                == Some(lines[1])
        },
{
    all_failed_blocks_are_listed(inspector, 0);
}

/// Up to twelve failed blocks are named by number; of more, the first twelve, with
/// how many there are.
pub proof fn failed_blocks_are_named(failed: Seq<usize>, named: Seq<Seq<char>>)
    requires
        named.len() == (if failed.len() <= 12 {
            failed.len()
        } else {
            12
        }),
        forall|i: int|
            0 <= i < named.len() ==> #[trigger] named[i] == "#"@ + decimal(failed[i] as nat),
    ensures
        untranslated_text(failed) is None <==> failed.len() == 0,
        0 < failed.len() <= 12 ==> untranslated_text(failed) == Some(
            "本次执行未翻译的文本块："@ + joined(named, "、"@),
        ),
        failed.len() > 12 ==> untranslated_text(failed) == Some(
            "本次执行未翻译的文本块："@ + joined(named, "、"@) + " … 共 "@ + decimal(failed.len())
                + " 个"@,
        ),
{
    if failed.len() <= 12 {
        assert(crate::block_pages::hash_numbers(failed) =~= named);
    } else {
        assert(crate::block_pages::hash_numbers(failed.subrange(0, 12)) =~= named);
    }
}

/// A block is found under the title of its chapter, or under the chapter's number,
/// counted from one, where the title is blank.
pub proof fn a_block_is_found_under_its_chapter(block: TranslationBlockInfo)
    ensures
        (exists|i: int|
            0 <= i < block.unit_title@.len() && !is_white_space(#[trigger] block.unit_title@[i]))
            ==> chapter_text(block) == block.unit_title@,
        (forall|i: int|
            0 <= i < block.unit_title@.len() ==> is_white_space(#[trigger] block.unit_title@[i]))
            ==> chapter_text(block) == "第 "@ + decimal((block.unit_ordinal + 1) as nat) + " 章"@,
{
    crate::text::a_blank_text_is_all_white_space(block.unit_title@);
}

/// The source and the prompt of a block are shown as they are; a request in JSON is
/// shown indented, and as it is where it cannot be. Only a failed block has a part
/// for an answer, which is shown in the same way.
pub proof fn a_part_of_a_block_shows_its_own_text(
    state: BlockDetailState,
    detail: TranslationBlockDetail,
)
    requires
        state.detail == Some(detail),
    ensures
        state.tab == BlockDetailTab::Source ==> detail_text(state) == Some(detail.source_text@),
        state.tab == BlockDetailTab::Prompt ==> detail_text(state) == Some(
            detail.request.system_prompt@,
        ),
        state.tab == BlockDetailTab::Body ==> detail_text(state) == (if indented(
            detail.request.body@,
        ) is Some {
            indented(detail.request.body@)
        } else {
            Some(detail.request.body@)
        }),
        state.tab == BlockDetailTab::Message ==> detail_text(state) == (if indented(
            detail.request.user_content@,
        ) is Some {
            indented(detail.request.user_content@)
        } else {
            Some(detail.request.user_content@)
        }),
        state.tab == BlockDetailTab::Response ==> detail_text(state) is Some
            == state.probe.result is Some,
        state.tab == BlockDetailTab::Response && state.probe.result is Some ==> detail_text(state)
            == (if indented_object(state.probe.result->0.response_text@) is Some {
            indented_object(state.probe.result->0.response_text@)
        } else {
            Some(state.probe.result->0.response_text@)
        }),
        detail_tabs(state.failed).contains(BlockDetailTab::Response) <==> state.failed,
        detail_tabs(state.failed).contains(BlockDetailTab::Overview),
        detail_tabs(state.failed).contains(BlockDetailTab::Source),
        detail_tabs(state.failed).contains(BlockDetailTab::Body),
        detail_tabs(state.failed).contains(BlockDetailTab::Prompt),
        detail_tabs(state.failed).contains(BlockDetailTab::Message),
        detail_tabs(state.failed).no_duplicates(),
{
    let tabs = detail_tabs(state.failed);
    assert(tabs[0] == BlockDetailTab::Overview);
    assert(tabs[1] == BlockDetailTab::Body);
    assert(tabs[2] == BlockDetailTab::Source);
    assert(tabs[3] == BlockDetailTab::Prompt);
    assert(tabs[4] == BlockDetailTab::Message);
    if state.failed {
        assert(tabs[5] == BlockDetailTab::Response);
    }
}

/// The page that is jumped to begins with or holds the first block behind those that pass
/// the filter before the cursor.
pub proof fn the_page_of_the_cursor_is_behind_what_passes_before_it(
    inspector: BlockInspector,
    filter: Option<BlockState>,
    total: int,
)
    ensures
        total <= 0 ==> anchor(inspector, filter, total) == 0,
        total > 0 ==> {
            let target = if inspector.progress.cursor < total {
                inspector.progress.cursor as int
            } else {
                total - 1
            };
            let before = matching(inspector, filter, target).len();
            let page = anchor(inspector, filter, total);
            page * 50 <= before < page * 50 + 50
        },
{
}

/// The list of failures names every failed block by its number, with the category of its
/// failure where one was recorded.
pub proof fn every_failed_block_is_listed_with_its_reason(failures: BlockFailures, i: int)
    requires
        0 <= i < failures.ordinals@.len(),
    ensures
        failure_items(failures).len() == failures.ordinals@.len(),
        failures.kinds@[i] is Some ==> failure_items(failures)[i] == "#"@ + decimal(
            failures.ordinals@[i] as nat,
        ) + " "@ + failures.kinds@[i]->0.label@,
        failures.kinds@[i] is None ==> failure_items(failures)[i] == "#"@ + decimal(
            failures.ordinals@[i] as nat,
        ) + " 未记录分类"@,
{
    reveal_strlit(" ");
    reveal_strlit("未记录分类");
    reveal_strlit(" 未记录分类");
    assert(" "@ + "未记录分类"@ =~= " 未记录分类"@);
    let number = "#"@ + decimal(failures.ordinals@[i] as nat);
    assert(number + " "@ + "未记录分类"@ =~= number + " 未记录分类"@);
}

/// The target language of a book is called by its name, or by its tag where it has none.
pub proof fn a_language_is_called_by_its_name(blocks: TranslationBlockList)
    ensures
        blocks.target_label is Some ==> blocks.language() == blocks.target_label->0@,
        blocks.target_label is None ==> blocks.language() == blocks.target_language@,
{
}

} // verus!
