//! What the windows show: every item that is to be shown, for what it is and in its
//! order.

use crate::block_inspector::{BlockInspector, BlockState, TranslationProgress};
use crate::block_pages::{
    a_page_holds_its_items_in_order, blocks_copy_text, page_count, page_of,
    there_are_as_many_pages_as_needed,
};
use crate::conversation::{AiMessageRole, ConversationView, MessageView};
use crate::display_markdown::displayed;
use crate::jobs::{
    actions_for, every_job_passes_one_filter, kind_name, log_copy_text, passes_kind,
    presented_status, progress_text, summary_text, BackgroundJobBook, BackgroundJobLogSnapshot,
    BackgroundJobSnapshot,
};
use crate::jobs_display::{
    copied_text, detail_tab_items, empty_message, header_text, kind_count, newest_first,
    page_text, present, selected_job, shown_filters, state_filters, title_of, DetailPanel, JobList,
    JobRow,
};
use crate::jobs_window::{DetailTab, JobsView};
use crate::message_html::message_html;
use crate::question_laws::is_chosen;
use crate::references::HintView;
use crate::scope_laws::says_something;
use crate::seqs::lemma_filter_agrees;
use crate::sessions::ThreadView;
use crate::settings_display::{
    language_label, language_text, missing_models, web_search_switches, LanguageOption,
};
use crate::settings_fields::{ModelRole, PendingOperation};
use crate::settings_window::SettingsWindowView;
use crate::sidebar::SidebarView;
use crate::sidebar_display::{
    basis_badge, drawn_text, hidden_books_label, listed_threads, needs_warning, shown_chips,
    source_label, source_tooltip, ReferenceRow, SessionRow, SidebarFrame,
};
use crate::sources::{AgentAnswerSourceStatus, SourceLinkView};
use crate::text::{decimal, trimmed};
use vstd::prelude::*;

verus! {

// ---------------------------------------------------------------------------
// Jobs
// ---------------------------------------------------------------------------

/// The test for jobs of a kind that passes a filter.
pub open spec fn of_kind(kind: Seq<char>) -> spec_fn(BackgroundJobSnapshot) -> bool {
    |job: BackgroundJobSnapshot| passes_kind(job.kind@, kind)
}

/// The number that is shown with a filter is that of the jobs that pass it. All jobs pass
/// the first one, and the numbers of the others add up to that of all.
pub proof fn every_job_is_counted_once(jobs: Seq<BackgroundJobSnapshot>, kind: Seq<char>)
    ensures
        kind_count(jobs, kind) == jobs.filter(of_kind(kind)).len(),
        kind_count(jobs, ""@) == jobs.len(),
        kind_count(jobs, "translation"@) + kind_count(jobs, "embedding"@) + kind_count(
            jobs,
            "vision"@,
        ) + kind_count(jobs, "visual_render"@) + kind_count(jobs, "other"@) == jobs.len(),
    decreases jobs.len(),
{
    reveal(Seq::filter);
    if jobs.len() > 0 {
        every_job_is_counted_once(jobs.drop_last(), kind);
        every_job_passes_one_filter(jobs.last().kind@);
    }
}

/// The filters that are shown are those for all jobs, for each kind, and for others where
/// there are any; each with its number, and the one that is set is marked.
pub proof fn every_kind_has_a_filter(window: JobsView)
    ensures
        ({
            let shown = shown_filters(window);
            let others = kind_count(window.jobs, "other"@);
            &&& shown.len() == (if others > 0 {
                6int
            } else {
                5
            })
            &&& shown[0] == (""@, "全部任务"@, window.jobs.len(), window.kind == ""@)
            &&& shown[1] == (
                "translation"@,
                "图书翻译"@,
                kind_count(window.jobs, "translation"@),
                window.kind == "translation"@,
            )
            &&& shown[2] == (
                "embedding"@,
                "向量索引"@,
                kind_count(window.jobs, "embedding"@),
                window.kind == "embedding"@,
            )
            &&& shown[3] == (
                "vision"@,
                "视觉理解"@,
                kind_count(window.jobs, "vision"@),
                window.kind == "vision"@,
            )
            &&& shown[4] == (
                "visual_render"@,
                "页面渲染"@,
                kind_count(window.jobs, "visual_render"@),
                window.kind == "visual_render"@,
            )
            &&& others > 0 ==> shown[5] == ("other"@, "其他任务"@, others, window.kind == "other"@)
        }),
{
    every_job_is_counted_once(window.jobs, ""@);
}

/// A job is shown under the title of the first book with its identifier, or as one of a
/// book that is gone.
pub proof fn a_job_is_shown_under_its_book(
    books: Seq<BackgroundJobBook>,
    id: Seq<char>,
    at: int,
)
    ensures
        (forall|k: int| 0 <= k < books.len() ==> (#[trigger] books[k]).id@ != id) ==> title_of(
            books,
            id,
        ) == "图书已移除"@,
        0 <= at < books.len() && books[at].id@ == id && (forall|k: int|
            0 <= k < at ==> (#[trigger] books[k]).id@ != id) ==> title_of(books, id)
            == books[at].title@,
    decreases books.len(),
{
    if books.len() > 0 && books[0].id@ != id {
        let rest = books.drop_first();
        a_job_is_shown_under_its_book(rest, id, at - 1);
        assert forall|k: int| 1 <= k < books.len() implies #[trigger] books[k] == rest[k - 1] by {}
    }
}

/// A page of the list shows a row for each of its jobs, in the order of the list: the rows
/// of page n begin behind the 12 n jobs before. Where no job passes the filters, the list
/// says why. Pages can be turned back from all but the first, and on to the last.
pub proof fn a_list_shows_the_jobs_of_its_page(list: JobList, window: JobsView, i: int)
    requires
        list.shows(window),
        window.page >= 0,
    ensures
        ({
            let jobs = window.filtered();
            &&& 0 <= i < list.rows@.len() ==> window.page * 12 + i < jobs.len()
                && list.rows@[i].id@ == jobs[window.page * 12 + i].id@
            &&& 0 <= i < 12 && window.page * 12 + i < jobs.len() ==> i < list.rows@.len()
            &&& list.rows@.len() <= 12
            &&& list.message is Some <==> jobs.len() == 0
            &&& list.previous_disabled <==> window.page == 0
            &&& list.next_disabled <==> (window.page + 1) * 12 >= jobs.len()
        }),
{
    let jobs = window.filtered();
    let n = jobs.len() as int;
    there_are_as_many_pages_as_needed(n, 12);
    let shown = page_of(jobs, window.page, 12);
    if 0 <= i < shown.len() {
        a_page_holds_its_items_in_order(jobs, 12, window.page, i);
        assert(list.rows@[i].shows(window, shown[i]));
    }
    if shown.len() > 0 {
        a_page_holds_its_items_in_order(jobs, 12, window.page, 0);
    }
    let pages = page_count(n, 12);
    assert(window.page + 1 >= pages <==> (window.page + 1) * 12 >= n) by {
        if window.page + 1 < pages {
            assert((window.page + 1) * 12 <= (pages - 1) * 12);
        }
    }
}

/// A row shows its own job: identifier, book, kind, status and progress, and whether the
/// job is looked at.
pub proof fn a_row_shows_its_own_job(row: JobRow, window: JobsView, job: BackgroundJobSnapshot)
    requires
        row.shows(window, job),
    ensures
        row.id@ == job.id@,
        row.title@ == title_of(window.books, job.book_id@),
        row.kind_line@ == kind_name(job.kind@) + " · "@ + job.id@,
        row.status@ == presented_status(job).0,
        row.tone == presented_status(job).1,
        row.progress@ == progress_text(job),
        row.selected <==> window.selected == Some(job.id@),
{
}

/// The header says for which books, how many they are, and how many jobs they have.
pub proof fn the_header_counts_books_and_jobs(window: JobsView)
    ensures
        header_text(window) == window.scope_label + " · "@ + decimal(window.books.len())
            + " 本图书 · "@ + decimal(window.jobs.len()) + " 个任务"@,
{
}

/// Why a list is empty: because it is being read, could not be read, has no books, has no
/// jobs, or has none that pass the filters.
pub proof fn an_empty_list_says_why(window: JobsView)
    ensures
        ({
            let message = empty_message(window);
            let reading = window.loading && !window.loaded;
            let failed = !reading && !window.loaded && window.refresh_error is Some;
            &&& reading ==> message == "正在读取任务…"@
            &&& failed ==> message == "读取失败，请刷新重试。"@
            &&& !reading && !failed && window.books.len() == 0 ==> message == "当前范围没有图书。"@
            &&& !reading && !failed && window.books.len() > 0 && window.jobs.len() == 0 ==> message
                == "当前范围还没有后台任务。"@
            &&& !reading && !failed && window.books.len() > 0 && window.jobs.len() > 0 ==> message
                == "没有符合搜索或筛选条件的任务。"@
        }),
{
}

/// The log is shown with the newest line first, every line of it.
pub proof fn the_log_is_shown_newest_first(logs: BackgroundJobLogSnapshot, i: int)
    requires
        0 <= i < logs.entries@.len(),
    ensures
        newest_first(logs).len() == logs.entries@.len(),
        newest_first(logs)[i] == logs.entries@[logs.entries@.len() - 1 - i].line@,
{
}

/// The detail of a job offers exactly what may be done with it, and its failed blocks for
/// another try where its blocks are in view; everything waits while a request is under
/// way.
pub proof fn a_detail_offers_what_may_be_done(
    panel: DetailPanel,
    window: JobsView,
    job: BackgroundJobSnapshot,
    inspector: Option<BlockInspector>,
)
    requires
        panel.shows(window, job, inspector),
    ensures
        panel.actions@ == actions_for(job),
        panel.actions_disabled <==> window.pending is Some,
        panel.retry_failed is Some ==> window.tab == DetailTab::Blocks && inspector is Some
            && (panel.retry_failed->0).0@ == crate::block_pages::matching(
            inspector->0,
            Some(BlockState::Failed),
            inspector->0.progress.total as int,
        ),
        window.tab == DetailTab::Summary ==> panel.copy_text is Some && !panel.copy_disabled,
        panel.copy_text is None ==> panel.copy_disabled,
{
}

/// A job has a part for its blocks exactly where it is a translation; the parts are those
/// for the summary, the log and the blocks, and the open one is marked.
pub proof fn only_a_translation_has_a_part_for_blocks(kind: Seq<char>, open: DetailTab)
    ensures
        ({
            let items = detail_tab_items(kind, open);
            &&& items.len() == (if kind == "translation"@ {
                3int
            } else {
                2
            })
            &&& items[0] == (DetailTab::Summary, "任务详情"@, open == DetailTab::Summary)
            &&& items[1] == (DetailTab::Logs, "运行日志"@, open == DetailTab::Logs)
            &&& kind == "translation"@ ==> items[2] == (
                DetailTab::Blocks,
                "文本块明细"@,
                open == DetailTab::Blocks,
            )
        }),
{
}

/// The job that is looked at is the first one with its identifier.
pub proof fn the_selected_job_has_the_identifier(window: JobsView, at: int)
    requires
        0 <= at < window.jobs.len(),
        forall|k: int| 0 <= k < at ==> (#[trigger] window.jobs[k]).id@ != window.jobs[at].id@,
    ensures
        window.selected is None ==> selected_job(window) is None,
        window.selected == Some(window.jobs[at].id@) ==> selected_job(window) == Some(
            window.jobs[at],
        ),
{
    crate::jobs_laws::lemma_job_with_id(window.jobs, window.jobs[at].id@, at);
}

/// Of the places of a page those are shown for which there is a block, in their order.
pub proof fn blocks_are_shown_where_there_are_any(
    indices: Seq<usize>,
    blocks: nat,
    keep: spec_fn(usize) -> bool,
)
    requires
        forall|i: usize| #[trigger] keep(i) <==> i < blocks,
    ensures
        present(indices, blocks) == indices.filter(keep),
    decreases indices.len(),
{
    reveal(Seq::filter);
    if indices.len() > 0 {
        blocks_are_shown_where_there_are_any(indices.drop_last(), blocks, keep);
    }
}

/// Each filter of the blocks says how many blocks it leaves, and the one that is set is
/// marked.
pub proof fn a_filter_of_blocks_says_how_many_it_leaves(
    progress: TranslationProgress,
    selected: Option<BlockState>,
)
    ensures
        ({
            let filters = state_filters(progress, selected);
            &&& filters.len() == 5
            &&& filters[0] == (
                None::<BlockState>,
                "全部 "@ + decimal(progress.total as nat),
                selected is None,
            )
            &&& forall|i: int|
                1 <= i < 5 ==> (#[trigger] filters[i]).0 is Some && filters[i].1
                    == filters[i].0->0.name() + " "@ + decimal(
                    progress.filtered_count(filters[i].0),
                ) && (filters[i].2 <==> selected == filters[i].0)
            &&& filters[1].0 == Some(BlockState::Done)
            &&& filters[2].0 == Some(BlockState::Processing)
            &&& filters[3].0 == Some(BlockState::Failed)
            &&& filters[4].0 == Some(BlockState::Pending)
        }),
{
    reveal_strlit("已处理 ");
    reveal_strlit("已处理");
    reveal_strlit("处理中 ");
    reveal_strlit("处理中");
    reveal_strlit("失败 ");
    reveal_strlit("失败");
    reveal_strlit("待处理 ");
    reveal_strlit("待处理");
    reveal_strlit(" ");
    assert("已处理 "@ =~= "已处理"@ + " "@);
    assert("处理中 "@ =~= "处理中"@ + " "@);
    assert("失败 "@ =~= "失败"@ + " "@);
    assert("待处理 "@ =~= "待处理"@ + " "@);
}

// ---------------------------------------------------------------------------
// The sidebar
// ---------------------------------------------------------------------------

/// An answer is drawn as inert Markdown, and any other message as plain text in HTML. An
/// answer that nothing backs comes with a warning, and one that is backed with a badge
/// that says by what; no other message has either.
pub proof fn an_answer_says_what_it_rests_on(message: MessageView)
    ensures
        ({
            let answer = message.role == AiMessageRole::Assistant;
            let status = message.source_status;
            &&& drawn_text(message.role, message.content) == (if answer {
                displayed(message.content)
            } else {
                message_html(message.content)
            })
            &&& needs_warning(message) <==> answer && status == Some(
                AgentAnswerSourceStatus::NoVerifiedSources,
            )
            &&& basis_badge(message) is Some <==> answer && status is Some && status->0
                != AgentAnswerSourceStatus::NoVerifiedSources
            &&& answer && status == Some(AgentAnswerSourceStatus::VerifiedKnowledgeBaseSources)
                ==> (basis_badge(message)->0).0 == "已基于当前图书内容回答"@
            &&& answer && status == Some(AgentAnswerSourceStatus::VerifiedWebSources)
                ==> (basis_badge(message)->0).0 == "已基于联网搜索结果回答"@
            &&& answer && status == Some(AgentAnswerSourceStatus::VerifiedMixedSources)
                ==> (basis_badge(message)->0).0 == "已结合图书与联网搜索回答"@
        }),
{
}

/// A link is shown under its label, or by its number counted from one where that is blank;
/// a stale one says so. Its tooltip is the quote, where it has one and is not stale.
pub proof fn a_link_is_shown_under_its_label(source: SourceLinkView, index: int)
    requires
        index >= 0,
    ensures
        !source.stale && says_something(source.label) ==> source_label(source, index)
            == source.label,
        !source.stale && !says_something(source.label) ==> source_label(source, index) == "来源 "@
            + decimal((index + 1) as nat),
        source.stale ==> source_label(source, index) == source_label(
            SourceLinkView { stale: false, ..source },
            index,
        ) + "（引用已失效）"@,
        !source.stale && source.quote is Some ==> source_tooltip(source) == source.quote->0,
        !source.stale && source.quote is None ==> source_tooltip(source) == "打开来源"@,
        source.stale ==> source_tooltip(source)
            == "该来源对应的文档或内容版本已变化，无法继续跳转。"@,
{
}

/// Up to four books of a scope have a chip; of more it is said how many they are.
pub proof fn every_book_has_a_chip_or_is_counted(books: int)
    requires
        books >= 0,
    ensures
        books <= 4 ==> shown_chips(books) == books && hidden_books_label(books) is None,
        books > 4 ==> shown_chips(books) == 4 && hidden_books_label(books) == Some(
            "另有 "@ + decimal((books - 4) as nat) + " 本图书"@,
        ),
{
}

/// The row of a reference says whether the next question has it, and can be used unless it
/// has not and 16 others are chosen.
pub proof fn a_row_says_whether_its_reference_is_chosen(
    row: ReferenceRow,
    conversation: ConversationView,
    hint: HintView,
)
    requires
        row.shows(conversation, hint),
    ensures
        row.label@ == hint.label,
        row.included <==> is_chosen(conversation, hint),
        row.button@ == (if is_chosen(conversation, hint) {
            "已引用"@
        } else {
            "引用"@
        }),
        row.disabled <==> conversation.reference_count() >= 16 && !is_chosen(conversation, hint),
{
}

/// The conversations that are listed are those all of whose books the scope holds, in
/// their order.
pub proof fn conversations_of_the_scope_are_listed(
    sidebar: SidebarView,
    keep: spec_fn(ThreadView) -> bool,
)
    requires
        forall|thread: ThreadView| #[trigger]
            keep(thread) <==> forall|b: int|
                0 <= b < thread.book_ids.len() ==> sidebar.conversation.scope.book_ids().contains(
                    #[trigger] thread.book_ids[b],
                ),
    ensures
        listed_threads(sidebar) == sidebar.sessions.threads.filter(keep),
{
    let allowed = sidebar.conversation.scope.book_ids();
    let authorized = crate::sessions::authorized_by(allowed);
    assert forall|i: int| 0 <= i < sidebar.sessions.threads.len() implies keep(
        #[trigger] sidebar.sessions.threads[i],
    ) == authorized(sidebar.sessions.threads[i]) by {
        let thread = sidebar.sessions.threads[i];
        assert(keep(thread) <==> crate::sessions::is_authorized(thread, allowed));
    }
    lemma_filter_agrees(sidebar.sessions.threads, keep, authorized);
}

/// The row of a conversation is its own, says whether it is open, and can be used while
/// nothing is under way; the open one cannot be switched to.
pub proof fn a_row_can_be_used_while_nothing_is_under_way(
    row: SessionRow,
    sidebar: SidebarView,
    thread: ThreadView,
)
    requires
        row.shows(sidebar, thread),
    ensures
        row.thread_id@ == thread.id,
        row.title@ == thread.title,
        row.active <==> sidebar.sessions.active == Some(thread.id),
        row.switch_disabled <==> row.active || !sidebar.is_ready(),
        row.delete_disabled <==> !sidebar.is_ready(),
{
}

/// The sidebar offers to send exactly where no answer is awaited, and to call the awaited
/// one off otherwise; it is folded where it was folded, and warns where the models are not
/// local.
pub proof fn the_sidebar_offers_to_send_or_to_cancel(
    frame: SidebarFrame,
    sidebar: SidebarView,
    question: Seq<char>,
)
    requires
        frame.shows(sidebar, question),
    ensures
        frame is Collapsed <==> sidebar.layout.collapsed,
        frame is Expanded ==> {
            &&& frame->sends <==> !sidebar.is_sending()
            &&& frame->send_disabled <==> !says_something(question) || sidebar.sessions.busy
                || sidebar.pending_scope_sync
            &&& frame->title@ == sidebar.sessions.active_title()
            &&& frame->nothing_said <==> sidebar.conversation.messages.len() == 0
            &&& frame->controls_disabled <==> !sidebar.is_ready()
            &&& frame->Expanded_warning <==> !(sidebar.status is Local)
        },
{
}

// ---------------------------------------------------------------------------
// The settings
// ---------------------------------------------------------------------------

/// A model is told as missing exactly where the connection does not list it, without the
/// white space around what was entered.
pub proof fn a_model_is_missing_where_it_is_not_listed(
    window: SettingsWindowView,
    models: Seq<Seq<char>>,
    role: ModelRole,
)
    ensures
        missing_models(window, models, None).len() == 0,
        models.contains(trimmed(window.form.model(role))) ==> missing_models(
            window,
            models,
            Some(role),
        ).len() == 0,
        !models.contains(trimmed(window.form.model(role))) ==> missing_models(
            window,
            models,
            Some(role),
        ) == seq![trimmed(window.form.model(role))],
{
}

/// A language is shown under the label of the first one with its tag, and as none where it
/// is not set or not known.
pub proof fn a_language_is_shown_under_its_label(
    languages: Seq<LanguageOption>,
    tag: Seq<char>,
    at: int,
)
    ensures
        language_text(languages, None) == "不翻译（仅原文）"@,
        0 <= at < languages.len() && languages[at].tag@ == tag && (forall|k: int|
            0 <= k < at ==> (#[trigger] languages[k]).tag@ != tag) ==> language_text(
            languages,
            Some(tag),
        ) == languages[at].label@,
        (forall|k: int| 0 <= k < languages.len() ==> (#[trigger] languages[k]).tag@ != tag)
            ==> language_text(languages, Some(tag)) == "不翻译（仅原文）"@,
{
    if 0 <= at < languages.len() && languages[at].tag@ == tag && (forall|k: int|
        0 <= k < at ==> (#[trigger] languages[k]).tag@ != tag) {
        lemma_language(languages, tag, 0, at);
    }
    if forall|k: int| 0 <= k < languages.len() ==> (#[trigger] languages[k]).tag@ != tag {
        lemma_language(languages, tag, 0, languages.len() as int);
    }
}

proof fn lemma_language(languages: Seq<LanguageOption>, tag: Seq<char>, from: int, at: int)
    requires
        0 <= from <= at <= languages.len(),
        at < languages.len() ==> languages[at].tag@ == tag,
        forall|k: int| from <= k < at ==> (#[trigger] languages[k]).tag@ != tag,
    ensures
        language_label(languages, tag, from) == (if at < languages.len() {
            Some(languages[at].label@)
        } else {
            None
        }),
    decreases at - from,
{
    if from < at {
        assert(languages[from].tag@ != tag);
        lemma_language(languages, tag, from + 1, at);
    }
}

/// What can be set for the search on the web: nothing while something is awaited; little
/// while the search is off; and plain connections only with the permission for remote
/// ones.
pub proof fn the_search_can_be_set_while_it_is_on(window: SettingsWindowView)
    ensures
        ({
            let switches = web_search_switches(window);
            let idle = window.operation == PendingOperation::Idle;
            let web = window.form.web;
            &&& switches.enabled == web.enabled
            &&& switches.busy == !idle
            &&& switches.remote_checked == web.remote_confirmed
            &&& switches.insecure_checked == web.allow_insecure_http
            &&& switches.delete_key_checked == web.delete_api_key
            &&& !switches.remote_disabled <==> idle && web.enabled
            &&& !switches.delete_key_disabled <==> idle && web.enabled
            &&& !switches.insecure_disabled <==> idle && web.enabled && web.remote_confirmed
            &&& !switches.key_disabled <==> idle && web.enabled && !web.delete_api_key
        }),
{
}

/// What is copied of a job is what is in view: its summary, its log, or its blocks, where
/// they were read.
pub proof fn what_is_copied_is_what_is_in_view(
    window: JobsView,
    job: BackgroundJobSnapshot,
    inspector: Option<BlockInspector>,
)
    ensures
        window.tab == DetailTab::Summary ==> copied_text(window, job, inspector) == Some(
            summary_text(job),
        ),
        window.tab == DetailTab::Logs && window.logs is Some ==> copied_text(window, job, inspector)
            == Some(log_copy_text(job, window.logs->0)),
        window.tab == DetailTab::Logs && window.logs is None ==> copied_text(
            window,
            job,
            inspector,
        ) is None,
        window.tab == DetailTab::Blocks && window.blocks is Some && inspector is Some
            ==> copied_text(window, job, inspector) == Some(
            blocks_copy_text(job, window.blocks->0, inspector->0),
        ),
        window.tab == DetailTab::Blocks && (window.blocks is None || inspector is None)
            ==> copied_text(window, job, inspector) is None,
{
}

/// A page of blocks names the first and the last block on it, how many pass the filter, and
/// which page it is, counted from one.
pub proof fn a_page_of_blocks_names_its_ends(
    indices: Seq<usize>,
    filtered: nat,
    page: int,
    pages: int,
)
    requires
        0 <= page < pages,
    ensures
        ({
            let place = decimal((page + 1) as nat) + "/"@ + decimal(pages as nat) + " 页"@;
            &&& indices.len() == 0 ==> page_text(indices, filtered, page, pages)
                == "筛选后 0 块 · 第 "@ + place
            &&& indices.len() > 0 ==> page_text(indices, filtered, page, pages) == "显示 #"@
                + decimal(indices[0] as nat) + "–#"@ + decimal(
                indices[indices.len() - 1] as nat,
            ) + "（筛选后 "@ + decimal(filtered) + " 块 · 第 "@ + place + "）"@
        }),
{
}

} // verus!
