//! The window that asks for the directory of the data before anything else opens.

use crate::settings_fields::{concat, followed};
use crate::text::{contains_text, copy_option, occurs_at, option_text};
use vstd::prelude::*;
use vstd::string::*;

verus! {

/// Why a directory is asked for.
#[derive(Debug, PartialEq, Eq)]
pub enum ReselectReason {
    FirstRun,
    Unusable(String),
    Unreadable(String),
    MoveFailed { from: String, error: String },
}

impl ReselectReason {
    pub open spec fn heading(self) -> Seq<char> {
        match self {
            ReselectReason::FirstRun => "选择数据目录"@,
            ReselectReason::MoveFailed { .. } => "数据目录搬迁未完成"@,
            _ => "数据目录需要重新确认"@,
        }
    }

    pub open spec fn explanation(self) -> Seq<char> {
        match self {
            ReselectReason::FirstRun =>
                "这是第一次启动墨页。下面是推荐位置，可以直接修改，或点「浏览…」选择其它位置。"@,
            ReselectReason::Unusable(error) =>
                "上次使用的数据目录现在无法使用，已把它填在下面，请修改后重试。\n\n原因："@ + error@,
            ReselectReason::Unreadable(error) =>
                "无法读取上次记录的目录设置，请确认下面的位置是否正确。\n\n原因："@ + error@,
            ReselectReason::MoveFailed { from, error } =>
                "更改数据目录后，原数据目录的内容要搬到新位置，但搬迁没有完成 —— 旧数据仍在原处。\n\n原数据目录："@
                    + from@ + "\n\n原因："@ + error@
                    + "\n\n确认下面同一个位置可以重试；换成一个空的目录也可以。"@,
        }
    }
}

/// The window. The host shows it anew after each operation.
#[derive(Debug, PartialEq, Eq)]
pub struct DataDirSetupWindow {
    pub input: String,
    pub config_path: String,
    pub reason: ReselectReason,
    /// Why it failed, if it did.
    pub error: Option<String>,
    /// Whether a directory was confirmed and is being put to use.
    pub launching: bool,
}

/// The window, as texts.
pub struct SetupView {
    pub input: Seq<char>,
    pub config_path: Seq<char>,
    pub reason: ReselectReason,
    pub error: Option<Seq<char>>,
    pub launching: bool,
}

impl View for DataDirSetupWindow {
    type V = SetupView;

    open spec fn view(&self) -> SetupView {
        SetupView {
            input: self.input@,
            config_path: self.config_path@,
            reason: self.reason,
            error: option_text(self.error),
            launching: self.launching,
        }
    }
}

impl SetupView {
    /// After something failed.
    pub open spec fn failed(self, message: Seq<char>) -> Self {
        SetupView { launching: false, error: Some(message), ..self }
    }

    /// After the directory was confirmed. `directory` is the path that the text
    /// stands for, if it stands for one.
    pub open spec fn confirming(self, directory: Option<Seq<char>>) -> Self {
        if self.launching {
            self
        } else {
            match directory {
                None => self.failed("请填写数据目录路径。"@),
                Some(_) => SetupView { launching: true, error: None, ..self },
            }
        }
    }

    /// After the directory was put to use, given why it could not be.
    pub open spec fn prepared(self, error: Option<Seq<char>>) -> Self {
        match error {
            None => self,
            Some(error) => self.failed("无法使用该目录："@ + error),
        }
    }

    /// After the user looked for a directory.
    pub open spec fn browsed(self, picked: Result<Option<Seq<char>>, Seq<char>>) -> Self {
        match picked {
            Ok(Some(directory)) => SetupView { error: None, input: directory, ..self },
            Ok(None) => self,
            Err(error) => SetupView { error: Some("无法打开目录选择器："@ + error), ..self },
        }
    }
}

/// What the window shows.
#[derive(Debug, PartialEq, Eq)]
pub struct SetupDisplay {
    pub heading: &'static str,
    pub explanation: String,
    pub error: Option<String>,
    pub confirm_label: &'static str,
    /// Whether the field and the buttons are out of use.
    pub disabled: bool,
}

impl DataDirSetupWindow {
    /// A window that suggests a directory.
    pub fn new(config_path: &str, reason: ReselectReason, suggestion: &str) -> (r: Self)
        ensures
            r@ == (SetupView {
                input: suggestion@,
                config_path: config_path@,
                reason,
                error: None,
                launching: false,
            }),
    {
        DataDirSetupWindow {
            input: suggestion.to_owned(),
            config_path: config_path.to_owned(),
            reason,
            error: None,
            launching: false,
        }
    }

    pub fn heading(&self) -> (r: &'static str)
        ensures
            r@ == self.reason.heading(),
    {
        match &self.reason {
            ReselectReason::FirstRun => "选择数据目录",
            ReselectReason::MoveFailed { .. } => "数据目录搬迁未完成",
            _ => "数据目录需要重新确认",
        }
    }

    pub fn explanation(&self) -> (r: String)
        ensures
            r@ == self.reason.explanation(),
    {
        match &self.reason {
            ReselectReason::FirstRun =>
                "这是第一次启动墨页。下面是推荐位置，可以直接修改，或点「浏览…」选择其它位置。".to_owned(),
            ReselectReason::Unusable(error) => followed(
                "上次使用的数据目录现在无法使用，已把它填在下面，请修改后重试。\n\n原因：",
                error.as_str(),
            ),
            ReselectReason::Unreadable(error) => followed(
                "无法读取上次记录的目录设置，请确认下面的位置是否正确。\n\n原因：",
                error.as_str(),
            ),
            ReselectReason::MoveFailed { from, error } => {
                let mut text = concat(
                    "更改数据目录后，原数据目录的内容要搬到新位置，但搬迁没有完成 —— 旧数据仍在原处。\n\n原数据目录：",
                    from.as_str(),
                    "\n\n原因：",
                );
                text.push_str(error.as_str());
                text.push_str("\n\n确认下面同一个位置可以重试；换成一个空的目录也可以。");
                text
            },
        }
    }

    /// Enters a text.
    pub fn edit(&mut self, text: &str)
        ensures
            final(self)@ == (SetupView { input: text@, ..old(self)@ }),
    {
        self.input = text.to_owned();
    }

    /// Confirms the directory. `directory` is the path that the text stands for, if
    /// it stands for one. The result is the directory to be put to use, with the
    /// place where it is recorded.
    pub fn confirm(&mut self, directory: &Option<String>) -> (r: Option<(String, String)>)
        ensures
            match (old(self).launching, *directory) {
                (false, Some(path)) => r is Some && (r->0).0@ == old(self).config_path@
                    && (r->0).1@ == path@,
                _ => r is None,
            },
            final(self)@ == old(self)@.confirming(option_text(*directory)),
    {
        if self.launching {
            return None;
        }
        match directory {
            None => {
                self.fail("请填写数据目录路径。".to_owned());
                None
            },
            Some(path) => {
                self.launching = true;
                self.error = None;
                Some((self.config_path.clone(), path.clone()))
            },
        }
    }

    /// Takes what became of the directory: an error, if any. The result says
    /// whether to go on with it.
    pub fn finish_confirm(&mut self, error: &Option<String>) -> (r: bool)
        ensures
            r == (*error is None),
            final(self)@ == old(self)@.prepared(option_text(*error)),
    {
        match error {
            None => true,
            Some(error) => {
                self.fail(followed("无法使用该目录：", error.as_str()));
                false
            },
        }
    }

    /// Whether the user may look for a directory now.
    pub fn browse(&self) -> (r: bool)
        ensures
            r == !self@.launching,
    {
        !self.launching
    }

    /// Takes what the user found: a directory, nothing, or why nothing could be
    /// looked for.
    pub fn finish_browse(&mut self, picked: &Result<Option<String>, String>)
        ensures
            final(self)@ == old(self)@.browsed(crate::data_directory::picked_view(*picked)),
    {
        match picked {
            Ok(Some(directory)) => {
                self.error = None;
                self.input = directory.clone();
            },
            Ok(None) => {},
            Err(error) => {
                self.error = Some(followed("无法打开目录选择器：", error.as_str()));
            },
        }
    }

    /// Tells why the application did not start.
    pub fn report_failure(&mut self, message: &str)
        ensures
            final(self)@ == old(self)@.failed(message@),
    {
        self.fail(message.to_owned());
    }

    fn fail(&mut self, message: String)
        ensures
            final(self)@ == old(self)@.failed(message@),
    {
        self.launching = false;
        self.error = Some(message);
    }

    pub fn is_launching(&self) -> (r: bool)
        ensures
            r == self@.launching,
    {
        self.launching
    }

    /// Whether closing the window gives up the start: not while a directory is
    /// being put to use, when the window stays.
    pub fn close_quits(&self) -> (r: bool)
        ensures
            r == !self@.launching,
    {
        !self.is_launching()
    }

    /// What the window shows.
    pub fn render(&self) -> (r: SetupDisplay)
        ensures
            r.heading@ == self.reason.heading(),
            r.explanation@ == self.reason.explanation(),
            option_text(r.error) == self@.error,
            r.confirm_label@ == (if self@.launching {
                "正在打开图书库…"@
            } else {
                "确认并启动"@
            }),
            r.disabled == self@.launching,
    {
        SetupDisplay {
            heading: self.heading(),
            explanation: self.explanation(),
            error: copy_option(&self.error),
            confirm_label: if self.launching {
                "正在打开图书库…"
            } else {
                "确认并启动"
            },
            disabled: self.launching,
        }
    }
}

/// After a directory turned out to be of no use, the user can try another, and
/// sees why.
pub proof fn a_failure_can_be_tried_again(
    window: SetupView,
    error: Seq<char>,
    directory: Seq<char>,
)
    ensures
        !window.prepared(Some(error)).launching,
        window.prepared(Some(error)).error == Some("无法使用该目录："@ + error),
        window.prepared(Some(error)).input == window.input,
        window.prepared(Some(error)).confirming(Some(directory)).launching,
        window.prepared(Some(error)).confirming(Some(directory)).error is None,
{
}

/// A directory is confirmed once: while it is being put to use, confirming does
/// nothing.
pub proof fn a_directory_is_confirmed_once(
    window: SetupView,
    directory: Seq<char>,
    again: Option<Seq<char>>,
)
    ensures
        window.confirming(Some(directory)).confirming(again) == window.confirming(Some(directory)),
{
}

/// A directory is confirmed exactly where one was entered and none is being opened; where
/// none was entered, the window says so. Nothing that was entered changes.
pub proof fn a_directory_is_confirmed_where_one_was_entered(
    window: SetupView,
    directory: Seq<char>,
)
    ensures
        window.launching ==> window.confirming(None) == window && window.confirming(
            Some(directory),
        ) == window,
        !window.launching ==> window.confirming(Some(directory)) == (SetupView {
            launching: true,
            error: None,
            ..window
        }),
        !window.launching ==> window.confirming(None) == (SetupView {
            error: Some("请填写数据目录路径。"@),
            ..window
        }),
        window.prepared(None) == window,
{
}

/// A directory that was picked is entered in the place of the one before, and an earlier
/// error is gone; a choice that was called off changes nothing, and a failed one says why.
pub proof fn a_picked_directory_is_entered(
    window: SetupView,
    directory: Seq<char>,
    error: Seq<char>,
)
    ensures
        window.browsed(Ok(Some(directory))) == (SetupView {
            input: directory,
            error: None,
            ..window
        }),
        window.browsed(Ok(None)) == window,
        window.browsed(Err(error)) == (SetupView {
            error: Some("无法打开目录选择器："@ + error),
            ..window
        }),
        window.failed(error) == (SetupView { launching: false, error: Some(error), ..window }),
{
}

/// Why a directory is asked for is told in full: what the heading says fits the reason,
/// and the explanation ends with or holds the error.
pub proof fn the_reason_for_asking_is_told(from: String, error: String)
    ensures
        (ReselectReason::FirstRun).heading() == "选择数据目录"@,
        (ReselectReason::Unusable(error)).heading() == "数据目录需要重新确认"@,
        (ReselectReason::Unreadable(error)).heading() == "数据目录需要重新确认"@,
        (ReselectReason::MoveFailed { from, error }).heading() == "数据目录搬迁未完成"@,
        (ReselectReason::Unusable(error)).explanation()
            == "上次使用的数据目录现在无法使用，已把它填在下面，请修改后重试。\n\n原因："@ + error@,
        (ReselectReason::Unreadable(error)).explanation()
            == "无法读取上次记录的目录设置，请确认下面的位置是否正确。\n\n原因："@ + error@,
        contains_text((ReselectReason::MoveFailed { from, error }).explanation(), from@),
        contains_text((ReselectReason::MoveFailed { from, error }).explanation(), error@),
{
    let head =
        "更改数据目录后，原数据目录的内容要搬到新位置，但搬迁没有完成 —— 旧数据仍在原处。\n\n原数据目录："@;
    let whole = (ReselectReason::MoveFailed { from, error }).explanation();
    let at = head.len() as int;
    let then = at + from@.len() + "\n\n原因："@.len();
    assert(whole.subrange(at, at + from@.len()) =~= from@);
    assert(occurs_at(whole, from@, at));
    assert(whole.subrange(then, then + error@.len()) =~= error@);
    assert(occurs_at(whole, error@, then));
}

} // verus!
