//! What the sidebar shows.

use crate::conversation::{
    AiMessage, AiMessageRole, ConversationState, ConversationView, MessageView,
    MAX_SELECTED_REFERENCES,
};
use crate::display_markdown::{assistant_display_markdown, displayed};
use crate::message_html::{message_html, selectable_message_html};
use crate::references::{hint_views, reference_key, AiReferenceHint, HintView};
use crate::scope::{book_views, AiBookOption, AiSidebarScope};
use crate::seqs::{lemma_filter_ends, lemma_filter_step};
use crate::sessions::{authorized_by, thread_scope_is_authorized, thread_views, ThreadView};
use crate::sidebar::{AiSidebar, SidebarView};
use crate::sources::{AgentAnswerSourceStatus, AiSourceLink, SourceLinkView};
use crate::text::{
    blank, copy_option, decimal, is_blank, option_text, push_decimal, same_text, texts,
};
use vstd::prelude::*;
use vstd::string::*;

verus! {

/// The rows of references that are shown without scrolling.
pub const AI_REFERENCE_VISIBLE_ROWS: usize = 3;

/// The height of one such row, in pixels.
pub const AI_REFERENCE_ROW_HEIGHT: u32 = 28;

/// The books of a scope that are shown before the rest is only counted.
pub const SCOPE_CHIPS: usize = 4;

pub const NO_KNOWLEDGE_BASE_SOURCE_WARNING_TITLE: &'static str = "没有可验证的知识库来源";

pub const NO_KNOWLEDGE_BASE_SOURCE_WARNING_BODY: &'static str = "以下回答由大模型根据自身能力生成，不能视为基于所选图书的回答，请自行核实。";

/// The height of the list of references, in pixels. All references are in it,
/// whatever its height.
pub fn reference_list_max_height(reference_count: usize) -> (r: u32)
    ensures
        r == AI_REFERENCE_ROW_HEIGHT * (if reference_count < AI_REFERENCE_VISIBLE_ROWS {
            reference_count as int
        } else {
            AI_REFERENCE_VISIBLE_ROWS as int
        }),
{
    let rows: u32 = if reference_count < AI_REFERENCE_VISIBLE_ROWS {
        reference_count as u32
    } else {
        AI_REFERENCE_VISIBLE_ROWS as u32
    };
    AI_REFERENCE_ROW_HEIGHT * rows
}

// ---------------------------------------------------------------------------
// Messages
// ---------------------------------------------------------------------------

/// Whether a message is shown with a warning that nothing backs it.
pub open spec fn needs_warning(message: MessageView) -> bool {
    message.role == AiMessageRole::Assistant && message.source_status == Some(
        AgentAnswerSourceStatus::NoVerifiedSources,
    )
}

/// Whether a message is shown with a warning that nothing backs it.
pub fn should_show_no_knowledge_base_source_warning(message: &AiMessage) -> (r: bool)
    ensures
        r == needs_warning(message@),
{
    match message.source_status {
        Some(AgentAnswerSourceStatus::NoVerifiedSources) => message.role
            == AiMessageRole::Assistant,
        _ => false,
    }
}

/// Title and text of the badge that says what an answer rests on.
pub open spec fn basis_badge(message: MessageView) -> Option<(Seq<char>, Seq<char>)> {
    if message.role != AiMessageRole::Assistant {
        None
    } else {
        match message.source_status {
            Some(AgentAnswerSourceStatus::VerifiedKnowledgeBaseSources) => Some(
                ("已基于当前图书内容回答"@, "回答引用均来自本次选中的图书。"@),
            ),
            Some(AgentAnswerSourceStatus::VerifiedWebSources) => Some(
                (
                    "已基于联网搜索结果回答"@,
                    "当前图书中未检索到相关内容，回答引用来自联网搜索。"@,
                ),
            ),
            Some(AgentAnswerSourceStatus::VerifiedMixedSources) => Some(
                (
                    "已结合图书与联网搜索回答"@,
                    "回答同时引用图书内容和联网搜索结果。"@,
                ),
            ),
            _ => None,
        }
    }
}

/// Title and text of the badge that says what an answer rests on.
pub fn source_basis_badge(message: &AiMessage) -> (r: Option<(&'static str, &'static str)>)
    ensures
        basis_badge(message@) == (match r {
            Some((title, body)) => Some((title@, body@)),
            None => None,
        }),
{
    if message.role != AiMessageRole::Assistant {
        return None;
    }
    match message.source_status {
        Some(AgentAnswerSourceStatus::VerifiedKnowledgeBaseSources) => Some(
            ("已基于当前图书内容回答", "回答引用均来自本次选中的图书。"),
        ),
        Some(AgentAnswerSourceStatus::VerifiedWebSources) => Some(
            (
                "已基于联网搜索结果回答",
                "当前图书中未检索到相关内容，回答引用来自联网搜索。",
            ),
        ),
        Some(AgentAnswerSourceStatus::VerifiedMixedSources) => Some(
            ("已结合图书与联网搜索回答", "回答同时引用图书内容和联网搜索结果。"),
        ),
        _ => None,
    }
}

/// The text that is drawn for a message: Markdown for an answer, HTML for
/// everything else.
pub open spec fn drawn_text(role: AiMessageRole, content: Seq<char>) -> Seq<char> {
    if role == AiMessageRole::Assistant {
        displayed(content)
    } else {
        message_html(content)
    }
}

/// The text that is drawn for a message, kept until the message changes.
#[derive(Debug, PartialEq, Eq)]
pub struct CachedDisplay {
    pub role: AiMessageRole,
    pub original: String,
    pub display: String,
}

impl CachedDisplay {
    /// Whether the text belongs to the message it was made for.
    pub open spec fn wf(self) -> bool {
        self.display@ == drawn_text(self.role, self.original@)
    }
}

/// The text that is drawn for a message. What was drawn before is drawn again
/// unless the message has changed.
pub fn selectable_message_text(
    cache: &mut Option<CachedDisplay>,
    role: AiMessageRole,
    content: &str,
) -> (r: String)
    requires
        *old(cache) matches Some(cached) ==> cached.wf(),
    ensures
        r@ == drawn_text(role, content@),
        *final(cache) matches Some(cached) && cached.wf() && cached.role == role
            && cached.original@ == content@,
{
    if let Some(cached) = &*cache {
        if cached.role == role && same_text(cached.original.as_str(), content) {
            return cached.display.clone();
        }
    }
    let display = if role == AiMessageRole::Assistant {
        assistant_display_markdown(content)
    } else {
        selectable_message_html(content)
    };
    let shown = display.clone();
    *cache = Some(CachedDisplay { role, original: content.to_owned(), display });
    shown
}

/// A button that leads to a passage.
#[derive(Debug, PartialEq, Eq)]
pub struct SourceButton {
    pub label: String,
    pub tooltip: String,
}

/// The label of the link at a place of an answer.
pub open spec fn source_label(source: SourceLinkView, index: int) -> Seq<char> {
    let name = if is_blank(source.label) {
        "来源 "@ + decimal((index + 1) as nat)
    } else {
        source.label
    };
    if source.stale {
        name + "（引用已失效）"@
    } else {
        name
    }
}

/// The tooltip of a link.
pub open spec fn source_tooltip(source: SourceLinkView) -> Seq<char> {
    if source.stale {
        "该来源对应的文档或内容版本已变化，无法继续跳转。"@
    } else {
        match source.quote {
            Some(quote) => quote,
            None => "打开来源"@,
        }
    }
}

fn source_button(source: &AiSourceLink, index: usize) -> (r: SourceButton)
    ensures
        r.label@ == source_label(source@, index as int),
        r.tooltip@ == source_tooltip(source@),
{
    let mut label = if blank(source.label.as_str()) {
        let mut label = "来源 ".to_owned();
        push_decimal(&mut label, index as u128 + 1);
        label
    } else {
        source.label.clone()
    };
    if source.stale {
        label.push_str("（引用已失效）");
    }
    let tooltip = if source.stale {
        "该来源对应的文档或内容版本已变化，无法继续跳转。".to_owned()
    } else {
        match &source.quote {
            Some(quote) => quote.clone(),
            None => "打开来源".to_owned(),
        }
    };
    SourceButton { label, tooltip }
}

/// A message as it is shown, but for its text.
#[derive(Debug, PartialEq, Eq)]
pub struct MessageCard {
    pub role: AiMessageRole,
    pub warning: bool,
    pub badge: Option<(&'static str, &'static str)>,
    pub sources: Vec<SourceButton>,
    /// What the copy button copies.
    pub copy_text: String,
}

/// A message as it is shown, but for its text.
pub fn render_message(message: &AiMessage) -> (r: MessageCard)
    ensures
        r.role == message@.role,
        r.warning == needs_warning(message@),
        basis_badge(message@) == (match r.badge {
            Some((title, body)) => Some((title@, body@)),
            None => None,
        }),
        r.sources@.len() == message@.sources.len(),
        forall|i: int|
            0 <= i < r.sources@.len() ==> (#[trigger] r.sources@[i]).label@ == source_label(
                message@.sources[i],
                i,
            ) && r.sources@[i].tooltip@ == source_tooltip(message@.sources[i]),
        r.copy_text@ == message@.content,
{
    let mut sources: Vec<SourceButton> = Vec::new();
    let mut i: usize = 0;
    while i < message.sources.len()
        invariant
            i <= message.sources@.len(),
            sources@.len() == i,
            forall|k: int|
                0 <= k < i ==> (#[trigger] sources@[k]).label@ == source_label(
                    message@.sources[k],
                    k,
                ) && sources@[k].tooltip@ == source_tooltip(message@.sources[k]),
        decreases message.sources@.len() - i,
    {
        let button = source_button(&message.sources[i], i);
        assert(message@.sources[i as int] == message.sources@[i as int]@);
        sources.push(button);
        i = i + 1;
    }
    MessageCard {
        role: message.role,
        warning: should_show_no_knowledge_base_source_warning(message),
        badge: source_basis_badge(message),
        sources,
        copy_text: message.content.clone(),
    }
}

// ---------------------------------------------------------------------------
// Scope
// ---------------------------------------------------------------------------

/// A book of the scope, as a chip.
#[derive(Debug, PartialEq, Eq)]
pub struct ScopeChip {
    pub book: AiBookOption,
    pub removable: bool,
}

/// The books of the scope.
#[derive(Debug, PartialEq, Eq)]
pub struct ScopePanel {
    pub count_label: String,
    pub chips: Vec<ScopeChip>,
    pub hidden_label: Option<String>,
    /// What may be added; nothing where there is no button for it.
    pub books_to_add: Vec<AiBookOption>,
}

/// How many chips are shown for a number of books.
pub open spec fn shown_chips(books: int) -> int {
    if books < SCOPE_CHIPS {
        books
    } else {
        SCOPE_CHIPS as int
    }
}

/// What is said of the books for which there is no chip.
pub open spec fn hidden_books_label(books: int) -> Option<Seq<char>> {
    if books > SCOPE_CHIPS {
        Some("另有 "@ + decimal((books - SCOPE_CHIPS) as nat) + " 本图书"@)
    } else {
        None
    }
}

// ---------------------------------------------------------------------------
// References
// ---------------------------------------------------------------------------

/// A reference on offer.
#[derive(Debug, PartialEq, Eq)]
pub struct ReferenceRow {
    pub label: String,
    pub included: bool,
    pub button: &'static str,
    pub tooltip: String,
    pub disabled: bool,
}

/// The references on offer.
#[derive(Debug, PartialEq, Eq)]
pub struct ReferencePanel {
    pub rows: Vec<ReferenceRow>,
    pub count_label: String,
    pub max_height: u32,
}

/// Whether no more references may be chosen.
pub open spec fn is_full(conversation: ConversationView) -> bool {
    conversation.reference_count() >= MAX_SELECTED_REFERENCES
}

/// What a click on a reference does, in words.
pub open spec fn reference_tooltip(conversation: ConversationView, hint: HintView) -> Seq<char> {
    let included = conversation.includes(hint.key());
    let automatic = conversation.is_automatic(hint.key());
    if is_full(conversation) && !included {
        "最多选择 "@ + decimal(MAX_SELECTED_REFERENCES as nat) + " 个引用"@
    } else if automatic && included {
        "取消本次高亮引用"@
    } else if automatic {
        "重新加入本次高亮引用"@
    } else if included {
        "取消引用"@
    } else {
        "加入本次问题"@
    }
}

impl ReferenceRow {
    /// Whether the row is the one of a reference.
    pub open spec fn shows(self, conversation: ConversationView, hint: HintView) -> bool {
        let included = conversation.includes(hint.key());
        &&& self.label@ == hint.label
        &&& self.included == included
        &&& self.button@ == (if included {
            "已引用"@
        } else {
            "引用"@
        })
        &&& self.tooltip@ == reference_tooltip(conversation, hint)
        &&& self.disabled == (is_full(conversation) && !included)
    }
}

// ---------------------------------------------------------------------------
// Stored conversations
// ---------------------------------------------------------------------------

/// A stored conversation on the list.
#[derive(Debug, PartialEq, Eq)]
pub struct SessionRow {
    pub thread_id: String,
    pub title: String,
    pub active: bool,
    pub switch_disabled: bool,
    pub delete_disabled: bool,
    pub delete_tooltip: String,
}

impl SessionRow {
    /// Whether the row is the one of a stored conversation.
    pub open spec fn shows(self, sidebar: SidebarView, thread: ThreadView) -> bool {
        let active = sidebar.sessions.active == Some(thread.id);
        &&& self.thread_id@ == thread.id
        &&& self.title@ == thread.title
        &&& self.active == active
        &&& self.switch_disabled == (!sidebar.is_ready() || active)
        &&& self.delete_disabled == !sidebar.is_ready()
        &&& self.delete_tooltip@ == "删除会话“"@ + thread.title + "”"@
    }
}

/// What the list of stored conversations shows below errors.
#[derive(Debug, PartialEq, Eq)]
pub enum SessionPanelBody {
    /// Nothing: the list is closed.
    Closed,
    /// The question whether a conversation is to be deleted.
    ConfirmDelete { thread_id: String, title_line: String },
    /// The conversations, or that there are none.
    Rows { rows: Vec<SessionRow>, empty_text: Option<&'static str> },
}

/// The list of stored conversations.
#[derive(Debug, PartialEq, Eq)]
pub struct SessionPanel {
    pub busy: bool,
    pub error: Option<String>,
    pub body: SessionPanelBody,
}

/// The conversations that the list shows.
pub open spec fn listed_threads(sidebar: SidebarView) -> Seq<ThreadView> {
    sidebar.sessions.threads.filter(authorized_by(sidebar.conversation.scope.book_ids()))
}

impl SessionPanelBody {
    /// Whether this is what the list shows.
    pub open spec fn shows(self, sidebar: SidebarView) -> bool {
        match self {
            SessionPanelBody::Closed => !sidebar.sessions.open,
            SessionPanelBody::ConfirmDelete { thread_id, title_line } => {
                &&& sidebar.sessions.open
                &&& sidebar.sessions.pending_delete matches Some((id, title)) && thread_id@ == id
                    && title_line@ == "会话：“"@ + title + "”"@
            },
            SessionPanelBody::Rows { rows, empty_text } => {
                let threads = listed_threads(sidebar);
                &&& sidebar.sessions.open
                &&& sidebar.sessions.pending_delete is None
                &&& rows@.len() == threads.len()
                &&& forall|i: int|
                    0 <= i < rows@.len() ==> (#[trigger] rows@[i]).shows(sidebar, threads[i])
                &&& empty_text is Some <==> threads.len() == 0
                &&& empty_text matches Some(text) ==> text@
                    == "还没有历史会话。发送第一条消息后会保存在这里。"@
            },
        }
    }
}

// ---------------------------------------------------------------------------
// The whole
// ---------------------------------------------------------------------------

/// The frame of the sidebar.
#[derive(Debug, PartialEq, Eq)]
pub enum SidebarFrame {
    /// Folded away, with a sign for where the models run.
    Collapsed { warning: bool, status_text: &'static str },
    Expanded {
        title: String,
        picker_tooltip: String,
        /// For the list of conversations, new ones, and the question.
        controls_disabled: bool,
        hint: &'static str,
        /// Whether the button sends; otherwise it calls the answer off.
        sends: bool,
        send_disabled: bool,
        nothing_said: bool,
        warning: bool,
        status_label: String,
    },
}

impl SidebarFrame {
    /// Whether this is the frame of a sidebar, with a question entered.
    pub open spec fn shows(self, sidebar: SidebarView, question: Seq<char>) -> bool {
        let local = sidebar.status is Local;
        match self {
            SidebarFrame::Collapsed { warning, status_text } => {
                &&& sidebar.layout.collapsed
                &&& warning == !local
                &&& status_text@ == (if local {
                    "本"@
                } else {
                    "远"@
                })
            },
            SidebarFrame::Expanded {
                title,
                picker_tooltip,
                controls_disabled,
                hint,
                sends,
                send_disabled,
                nothing_said,
                warning,
                status_label,
            } => {
                let switching = sidebar.sessions.busy || sidebar.pending_scope_sync;
                &&& !sidebar.layout.collapsed
                &&& title@ == sidebar.sessions.active_title()
                &&& picker_tooltip@ == "切换会话 · "@ + sidebar.conversation.scope.label()
                &&& controls_disabled == !sidebar.is_ready()
                &&& hint@ == (if sidebar.is_sending() {
                    "正在生成，可随时取消"@
                } else if switching {
                    "正在切换会话"@
                } else {
                    "Ctrl+Enter 发送"@
                })
                &&& sends == !sidebar.is_sending()
                &&& send_disabled == (is_blank(question) || switching)
                &&& nothing_said == (sidebar.conversation.messages.len() == 0)
                &&& warning == !local
                &&& status_label@ == sidebar.status.label()
            },
        }
    }
}

impl AiSidebar {
    /// The books of the scope.
    pub fn render_scope(&self) -> (r: ScopePanel)
        ensures
            ({
                let scope = self@.conversation.scope;
                let books = scope.selected_books();
                &&& r.count_label@ == decimal(scope.book_ids().len()) + " 本"@
                &&& r.chips@.len() == shown_chips(books.len() as int)
                &&& forall|i: int|
                    0 <= i < r.chips@.len() ==> (#[trigger] r.chips@[i]).book@ == books[i]
                        && r.chips@[i].removable == (scope is Book && i > 0)
                &&& option_text(r.hidden_label) == hidden_books_label(books.len() as int)
                &&& book_views(r.books_to_add@) == scope.addable_books()
            }),
    {
        let ids = self.conversation.scope.book_ids();
        assert(texts(ids@).len() == ids@.len());
        let mut count_label = String::new();
        push_decimal(&mut count_label, ids.len() as u128);
        count_label.push_str(" 本");
        assert(count_label@ =~= decimal(ids@.len()) + " 本"@);
        let is_book_scope: bool = match &self.conversation.scope {
            AiSidebarScope::Book { current, available, additional_ids } => true,
            AiSidebarScope::Library { label, books } => false,
        };
        let selected = self.conversation.scope.selected_books();
        assert(book_views(selected@).len() == selected@.len());
        let mut chips: Vec<ScopeChip> = Vec::new();
        let mut i: usize = 0;
        while i < selected.len() && i < SCOPE_CHIPS
            invariant
                i <= selected@.len(),
                i <= SCOPE_CHIPS,
                chips@.len() == i,
                is_book_scope == (self@.conversation.scope is Book),
                forall|k: int|
                    0 <= k < i ==> (#[trigger] chips@[k]).book@ == book_views(selected@)[k]
                        && chips@[k].removable == (self@.conversation.scope is Book && k > 0),
            decreases selected@.len() - i,
        {
            let book = selected[i].clone();
            assert(book@ == book_views(selected@)[i as int]);
            chips.push(ScopeChip { book, removable: is_book_scope && i > 0 });
            i = i + 1;
        }
        let hidden_label = if selected.len() > SCOPE_CHIPS {
            let mut label = "另有 ".to_owned();
            push_decimal(&mut label, (selected.len() - SCOPE_CHIPS) as u128);
            label.push_str(" 本图书");
            Some(label)
        } else {
            None
        };
        ScopePanel {
            count_label,
            chips,
            hidden_label,
            books_to_add: self.conversation.scope.available_books_to_add(),
        }
    }

    /// The references on offer; nothing where there are none.
    pub fn render_references(&self) -> (r: Option<ReferencePanel>)
        ensures
            ({
                let conversation = self@.conversation;
                match r {
                    None => conversation.hints.len() == 0,
                    Some(panel) => {
                        &&& conversation.hints.len() > 0
                        &&& panel.rows@.len() == conversation.hints.len()
                        &&& forall|i: int|
                            0 <= i < panel.rows@.len() ==> (#[trigger] panel.rows@[i]).shows(
                                conversation,
                                conversation.hints[i],
                            )
                        &&& panel.count_label@ == "已选 "@ + decimal(conversation.reference_count())
                            + "/"@ + decimal(MAX_SELECTED_REFERENCES as nat)
                        &&& panel.max_height == AI_REFERENCE_ROW_HEIGHT * (if conversation.hints.len()
                            < AI_REFERENCE_VISIBLE_ROWS {
                            conversation.hints.len() as int
                        } else {
                            AI_REFERENCE_VISIBLE_ROWS as int
                        })
                    },
                }
            }),
    {
        let hints = &self.conversation.reference_hints;
        assert(hint_views(hints@).len() == hints@.len());
        if hints.len() == 0 {
            return None;
        }
        let count: u128 = self.conversation.selected_reference_count();
        let full: bool = count >= MAX_SELECTED_REFERENCES as u128;
        let mut rows: Vec<ReferenceRow> = Vec::new();
        let mut i: usize = 0;
        while i < hints.len()
            invariant
                i <= hints@.len(),
                hints@ == self.conversation.reference_hints@,
                rows@.len() == i,
                full == is_full(self@.conversation),
                forall|k: int|
                    0 <= k < i ==> (#[trigger] rows@[k]).shows(
                        self@.conversation,
                        self@.conversation.hints[k],
                    ),
            decreases hints@.len() - i,
        {
            let row = reference_row(&self.conversation, &hints[i], full);
            assert(self@.conversation.hints[i as int] == hints@[i as int]@);
            rows.push(row);
            i = i + 1;
        }
        let mut count_label = "已选 ".to_owned();
        push_decimal(&mut count_label, count);
        count_label.push_str("/");
        push_decimal(&mut count_label, MAX_SELECTED_REFERENCES as u128);
        Some(
            ReferencePanel { rows, count_label, max_height: reference_list_max_height(hints.len()) },
        )
    }

    /// The list of stored conversations; nothing where there is nothing to show.
    pub fn render_session_picker(&self) -> (r: Option<SessionPanel>)
        ensures
            match r {
                None => !self@.sessions.open && !self@.sessions.busy && self@.sessions.error is None,
                Some(panel) => {
                    &&& self@.sessions.open || self@.sessions.busy || self@.sessions.error is Some
                    &&& panel.busy == self@.sessions.busy
                    &&& option_text(panel.error) == self@.sessions.error
                    &&& panel.body.shows(self@)
                },
            },
    {
        if !self.sessions.open && !self.sessions.busy && self.sessions.error.is_none() {
            return None;
        }
        let body = if !self.sessions.open {
            SessionPanelBody::Closed
        } else {
            match &self.sessions.pending_delete {
                Some(pending) => {
                    let mut title_line = "会话：“".to_owned();
                    title_line.push_str(pending.title.as_str());
                    title_line.push_str("”");
                    SessionPanelBody::ConfirmDelete {
                        thread_id: pending.thread_id.clone(),
                        title_line,
                    }
                },
                None => {
                    let rows = self.session_rows();
                    let empty_text = if rows.len() == 0 {
                        Some("还没有历史会话。发送第一条消息后会保存在这里。")
                    } else {
                        None
                    };
                    SessionPanelBody::Rows { rows, empty_text }
                },
            }
        };
        Some(
            SessionPanel {
                busy: self.sessions.busy,
                error: copy_option(&self.sessions.error),
                body,
            },
        )
    }

    fn session_rows(&self) -> (r: Vec<SessionRow>)
        ensures
            r@.len() == listed_threads(self@).len(),
            forall|i: int|
                0 <= i < r@.len() ==> (#[trigger] r@[i]).shows(self@, listed_threads(self@)[i]),
    {
        let allowed = self.conversation.scope.book_ids();
        let locked: bool = self.sessions.busy || self.pending_scope_sync
            || self.conversation.is_sending();
        let threads = &self.sessions.threads;
        let ghost all = thread_views(threads@);
        let ghost keep = authorized_by(texts(allowed@));
        let mut rows: Vec<SessionRow> = Vec::new();
        proof {
            lemma_filter_ends(all, keep);
        }
        let mut i: usize = 0;
        while i < threads.len()
            invariant
                i <= threads@.len(),
                threads@ == self.sessions.threads@,
                all == thread_views(threads@),
                keep == authorized_by(texts(allowed@)),
                locked == !self@.is_ready(),
                rows@.len() == all.subrange(0, i as int).filter(keep).len(),
                forall|k: int|
                    0 <= k < rows@.len() ==> (#[trigger] rows@[k]).shows(
                        self@,
                        all.subrange(0, i as int).filter(keep)[k],
                    ),
            decreases threads@.len() - i,
        {
            proof {
                lemma_filter_step(all, keep, i as int);
                assert(all[i as int] == threads@[i as int]@);
            }
            if thread_scope_is_authorized(&threads[i], &allowed) {
                let active: bool = match &self.sessions.active_thread_id {
                    Some(id) => same_text(id.as_str(), threads[i].id.as_str()),
                    None => false,
                };
                let mut delete_tooltip = "删除会话“".to_owned();
                delete_tooltip.push_str(threads[i].title.as_str());
                delete_tooltip.push_str("”");
                let row = SessionRow {
                    thread_id: threads[i].id.clone(),
                    title: threads[i].title.clone(),
                    active,
                    switch_disabled: locked || active,
                    delete_disabled: locked,
                    delete_tooltip,
                };
                assert(row.shows(self@, all[i as int]));
                rows.push(row);
            }
            i = i + 1;
        }
        rows
    }

    /// The frame of the sidebar, with a question entered.
    pub fn render(&self, question: &str) -> (r: SidebarFrame)
        ensures
            r.shows(self@, question@),
    {
        let warning: bool = self.endpoint_status.is_warning();
        if self.layout.collapsed {
            return SidebarFrame::Collapsed {
                warning,
                status_text: if warning {
                    "远"
                } else {
                    "本"
                },
            };
        }
        let sending: bool = self.conversation.is_sending();
        let switching: bool = self.sessions.busy || self.pending_scope_sync;
        let mut picker_tooltip = "切换会话 · ".to_owned();
        picker_tooltip.push_str(self.conversation.scope.label().as_str());
        let hint = if sending {
            "正在生成，可随时取消"
        } else if switching {
            "正在切换会话"
        } else {
            "Ctrl+Enter 发送"
        };
        assert(self@.conversation.messages.len() == self.conversation.messages@.len());
        SidebarFrame::Expanded {
            title: self.sessions.active_title().to_owned(),
            picker_tooltip,
            controls_disabled: sending || switching,
            hint,
            sends: !sending,
            send_disabled: blank(question) || switching,
            nothing_said: self.conversation.messages.len() == 0,
            warning,
            status_label: self.endpoint_status.label(),
        }
    }
}

fn reference_row(conversation: &ConversationState, reference: &AiReferenceHint, full: bool) -> (r:
    ReferenceRow)
    requires
        full == is_full(conversation@),
    ensures
        r.shows(conversation@, reference@),
{
    let included: bool = conversation.reference_is_included(reference);
    let automatic: bool = match &conversation.automatic_reference {
        Some(automatic) => automatic.key.same(&reference_key(reference)),
        None => false,
    };
    let tooltip = if full && !included {
        let mut text = "最多选择 ".to_owned();
        push_decimal(&mut text, MAX_SELECTED_REFERENCES as u128);
        text.push_str(" 个引用");
        text
    } else if automatic && included {
        "取消本次高亮引用".to_owned()
    } else if automatic {
        "重新加入本次高亮引用".to_owned()
    } else if included {
        "取消引用".to_owned()
    } else {
        "加入本次问题".to_owned()
    };
    ReferenceRow {
        label: reference.label.clone(),
        included,
        button: if included {
            "已引用"
        } else {
            "引用"
        },
        tooltip,
        disabled: full && !included,
    }
}

/// A reference can be chosen or dropped exactly where its row is not disabled.
pub proof fn an_enabled_reference_can_be_chosen(
    conversation: ConversationView,
    at: int,
    row: ReferenceRow,
)
    requires
        0 <= at < conversation.hints.len(),
        row.shows(conversation, conversation.hints[at]),
    ensures
        row.disabled <==> !conversation.can_toggle(conversation.hints[at].key()),
{
    assert(crate::references::has_key(conversation.hints, conversation.hints[at].key()));
}

/// What the sidebar offers to do can be done: an enabled send button sends any
/// question within the limit.
pub proof fn an_enabled_send_button_sends(
    sidebar: SidebarView,
    question: Seq<char>,
    frame: SidebarFrame,
)
    requires
        frame.shows(sidebar, question),
        frame is Expanded,
        crate::text::byte_len(crate::text::trimmed(question))
            <= crate::conversation::MAX_QUESTION_BYTES,
    ensures
        frame->sends && !frame->send_disabled <==> sidebar.submitted(question) != sidebar,
{
    let after = sidebar.submitted(question);
    if frame->sends && !frame->send_disabled {
        assert(after.outbox.len() > sidebar.outbox.len());
    }
}

} // verus!
