//! Changing the directory of the data from the settings window.

use crate::settings_fields::{
    change_view, concat, followed, notice, DataDirChange, DataDirChangeView, NoticeView,
};
use crate::settings_window::{AiSettingsWindow, SettingsWindowView};
use vstd::prelude::*;
use vstd::string::*;

verus! {

/// A change to be recorded, after which the application starts anew.
#[derive(Debug, PartialEq, Eq)]
pub struct CommitTask {
    pub change: DataDirChange,
    /// Whether a library in the new place is to go.
    pub overwrite: bool,
}

/// What the user chose: a directory, nothing, or why nothing could be chosen.
pub open spec fn picked_view(picked: Result<Option<String>, String>) -> Result<
    Option<Seq<char>>,
    Seq<char>,
> {
    match picked {
        Ok(Some(target)) => Ok(Some(target@)),
        Ok(None) => Ok(None),
        Err(error) => Err(error@),
    }
}

pub open spec fn path_view(path: Result<String, String>) -> Result<Seq<char>, Seq<char>> {
    match path {
        Ok(path) => Ok(path@),
        Err(error) => Err(error@),
    }
}

/// Whether a new place already holds a library, or why it cannot be used.
pub open spec fn prepared_view(outcome: Result<bool, String>) -> Result<bool, Seq<char>> {
    match outcome {
        Ok(holds) => Ok(holds),
        Err(error) => Err(error@),
    }
}

impl SettingsWindowView {
    /// After a directory was to be chosen. `config_path` is where the choice would
    /// be recorded, or why that is not known.
    pub open spec fn choosing_directory(self, config_path: Result<Seq<char>, Seq<char>>) -> Self {
        if self.choosing {
            self
        } else {
            match config_path {
                Err(error) => self.telling("无法定位目录设置文件："@ + error, true),
                Ok(_) => SettingsWindowView { choosing: true, overwrite: None, ..self },
            }
        }
    }

    /// After the user chose.
    pub open spec fn chosen(self, picked: Result<Option<Seq<char>>, Seq<char>>) -> Self {
        let done = SettingsWindowView { choosing: false, ..self };
        match picked {
            Ok(_) => done,
            Err(error) => done.telling("无法打开目录选择器："@ + error, true),
        }
    }

    /// After the new place was looked at.
    pub open spec fn prepared(
        self,
        change: DataDirChangeView,
        outcome: Result<bool, Seq<char>>,
    ) -> Self {
        match outcome {
            Ok(true) => SettingsWindowView { overwrite: Some(change), notice: None, ..self },
            Ok(false) => self.committing(change),
            Err(error) => self.telling("无法使用该目录："@ + error, true),
        }
    }

    /// While a change is being recorded.
    pub open spec fn committing(self, change: DataDirChangeView) -> Self {
        SettingsWindowView { choosing: true, overwrite: None, ..self }.telling(
            "正在把数据目录切换到 "@ + change.target
                + "，随后墨页会重新启动并把原目录的内容搬过去…"@,
            false,
        )
    }

    /// After a change was recorded, or could not be.
    pub open spec fn committed(self, error: Option<Seq<char>>) -> Self {
        let done = SettingsWindowView { choosing: false, ..self };
        match error {
            None => done,
            Some(error) => done.telling("无法使用该目录："@ + error, true),
        }
    }

    /// After the application was to start anew, given why it could not.
    pub open spec fn restarting(self, target: Seq<char>, error: Option<Seq<char>>) -> Self {
        match error {
            None => self,
            Some(error) => self.telling(
                "已把数据目录记为 "@ + target
                    + "。请手动关闭墨页再重新打开：新目录会在下次启动时启用，原目录的内容也在那时搬过去。\n\n自动重启失败："@
                    + error,
                true,
            ),
        }
    }
}

impl AiSettingsWindow {
    /// Lets the user choose a directory. `config_path` is where the choice would be
    /// recorded, or why that is not known. The result says whether to ask.
    pub fn change_data_directory(&mut self, config_path: &Result<String, String>) -> (r: bool)
        ensures
            r == (!old(self)@.choosing && *config_path is Ok),
            final(self)@ == old(self)@.choosing_directory(path_view(*config_path)),
    {
        if self.choosing_data_directory {
            return false;
        }
        match config_path {
            Err(error) => {
                self.notice = notice(followed("无法定位目录设置文件：", error.as_str()), true);
                false
            },
            Ok(_) => {
                self.choosing_data_directory = true;
                self.confirm_overwrite = None;
                true
            },
        }
    }

    /// Takes what the user chose. The result is the change whose place is to be
    /// looked at.
    pub fn finish_choosing(
        &mut self,
        picked: &Result<Option<String>, String>,
        config_path: &str,
        from: &str,
    ) -> (r: Option<DataDirChange>)
        ensures
            change_view(r) == match picked_view(*picked) {
                Ok(Some(target)) => Some(
                    DataDirChangeView { target, config_path: config_path@, from: from@ },
                ),
                _ => None,
            },
            final(self)@ == old(self)@.chosen(picked_view(*picked)),
    {
        self.choosing_data_directory = false;
        match picked {
            Ok(Some(target)) => Some(
                DataDirChange {
                    target: target.clone(),
                    config_path: config_path.to_owned(),
                    from: from.to_owned(),
                },
            ),
            Ok(None) => None,
            Err(error) => {
                self.notice = notice(followed("无法打开目录选择器：", error.as_str()), true);
                None
            },
        }
    }

    /// Takes what the new place turned out to be: whether it holds a library, or
    /// why it cannot be used. A place without a library is recorded at once; one
    /// with a library waits for the user.
    pub fn finish_preparing(&mut self, change: DataDirChange, outcome: &Result<bool, String>) -> (r:
        Option<CommitTask>)
        ensures
            r is Some == (prepared_view(*outcome) == Ok::<bool, Seq<char>>(false)),
            r is Some ==> r->0.change@ == change@ && !r->0.overwrite,
            final(self)@ == old(self)@.prepared(change@, prepared_view(*outcome)),
    {
        match outcome {
            Ok(true) => {
                self.confirm_overwrite = Some(change);
                self.notice = None;
                None
            },
            Ok(false) => Some(self.commit_data_directory_change(change, false)),
            Err(error) => {
                self.notice = notice(followed("无法使用该目录：", error.as_str()), true);
                None
            },
        }
    }

    /// Starts to record a change.
    pub fn commit_data_directory_change(&mut self, change: DataDirChange, overwrite: bool) -> (r:
        CommitTask)
        ensures
            r.change@ == change@,
            r.overwrite == overwrite,
            final(self)@ == old(self)@.committing(change@),
    {
        self.choosing_data_directory = true;
        self.confirm_overwrite = None;
        self.notice = notice(
            concat(
                "正在把数据目录切换到 ",
                change.target.as_str(),
                "，随后墨页会重新启动并把原目录的内容搬过去…",
            ),
            false,
        );
        CommitTask { change, overwrite }
    }

    /// The user lets the library in the new place go.
    pub fn accept_overwrite(&mut self) -> (r: Option<CommitTask>)
        ensures
            r is Some == old(self)@.overwrite is Some,
            match old(self)@.overwrite {
                Some(change) => r->0.change@ == change && r->0.overwrite && final(self)@ == old(
                    self,
                )@.committing(change),
                None => final(self)@ == old(self)@,
            },
    {
        match &self.confirm_overwrite {
            Some(change) => {
                let change = change.clone();
                Some(self.commit_data_directory_change(change, true))
            },
            None => None,
        }
    }

    /// The user keeps the library in the new place.
    pub fn refuse_overwrite(&mut self)
        ensures
            final(self)@ == (SettingsWindowView { overwrite: None, ..old(self)@ }),
    {
        self.confirm_overwrite = None;
    }

    /// Takes what became of a change: an error, if any. The result says whether the
    /// application is to start anew.
    pub fn finish_commit(&mut self, error: &Option<String>) -> (r: bool)
        ensures
            r == (*error is None),
            final(self)@ == old(self)@.committed(crate::text::option_text(*error)),
    {
        self.choosing_data_directory = false;
        match error {
            None => true,
            Some(error) => {
                self.notice = notice(followed("无法使用该目录：", error.as_str()), true);
                false
            },
        }
    }

    /// Takes what became of starting anew: an error, if any. The result says
    /// whether this application is to quit.
    pub fn finish_restart(&mut self, target: &str, error: &Option<String>) -> (r: bool)
        ensures
            r == (*error is None),
            final(self)@ == old(self)@.restarting(target@, crate::text::option_text(*error)),
    {
        match error {
            None => true,
            Some(error) => {
                let mut text = concat(
                    "已把数据目录记为 ",
                    target,
                    "。请手动关闭墨页再重新打开：新目录会在下次启动时启用，原目录的内容也在那时搬过去。\n\n自动重启失败：",
                );
                text.push_str(error.as_str());
                self.notice = notice(text, true);
                false
            },
        }
    }

    /// Tells that a directory could not be opened: why, or that there is no way to
    /// open one here.
    pub fn note_unopened_directory(&mut self, label: &str, error: &Option<String>)
        ensures
            final(self)@ == match *error {
                Some(error) => old(self)@.telling("无法打开"@ + label@ + "："@ + error@, true),
                None => old(self)@.telling(
                    "当前平台不支持在文件管理器中打开"@ + label@ + "。"@,
                    true,
                ),
            },
    {
        match error {
            Some(error) => {
                let mut text = concat("无法打开", label, "：");
                text.push_str(error.as_str());
                self.notice = notice(text, true);
            },
            None => {
                self.notice = notice(
                    concat("当前平台不支持在文件管理器中打开", label, "。"),
                    true,
                );
            },
        }
    }
}

// ---------------------------------------------------------------------------
// Laws
// ---------------------------------------------------------------------------

/// A place that holds a library is not recorded by being looked at: the question
/// whether to overwrite it is left open, and nothing is told as under way. A place
/// without one leaves no question.
pub proof fn a_library_is_not_overwritten_unasked(
    window: SettingsWindowView,
    change: DataDirChangeView,
)
    ensures
        window.prepared(change, Ok(true)).overwrite == Some(change),
        window.prepared(change, Ok(true)).choosing == window.choosing,
        window.prepared(change, Ok(true)).notice is None,
        window.prepared(change, Ok(false)).overwrite is None,
{
}

/// A choice that the user calls off changes nothing that was told.
pub proof fn a_choice_called_off_changes_nothing(
    window: SettingsWindowView,
    config_path: Seq<char>,
)
    requires
        !window.choosing,
        window.overwrite is None,
    ensures
        window.choosing_directory(Ok(config_path)).chosen(Ok(None)) == window,
{
}

/// While a directory is being chosen or recorded, no second choice is made.
pub proof fn one_choice_at_a_time(
    window: SettingsWindowView,
    config_path: Result<Seq<char>, Seq<char>>,
)
    requires
        window.choosing,
    ensures
        window.choosing_directory(config_path) == window,
{
}

/// What each step of a change of directory changes: choosing starts only where the place
/// of the setting is known, and drops an open question; a choice ends it; and what went
/// wrong is told. Nothing else of the window changes.
pub proof fn a_change_of_directory_goes_step_by_step(
    window: SettingsWindowView,
    config_path: Seq<char>,
    picked: Option<Seq<char>>,
    change: DataDirChangeView,
    error: Seq<char>,
    target: Seq<char>,
)
    ensures
        !window.choosing ==> window.choosing_directory(Ok(config_path)) == (SettingsWindowView {
            choosing: true,
            overwrite: None,
            ..window
        }),
        !window.choosing ==> window.choosing_directory(Err(error)) == (SettingsWindowView {
            notice: Some(NoticeView { text: "无法定位目录设置文件："@ + error, error: true }),
            ..window
        }),
        window.chosen(Ok(picked)) == (SettingsWindowView { choosing: false, ..window }),
        window.chosen(Err(error)) == (SettingsWindowView {
            choosing: false,
            notice: Some(NoticeView { text: "无法打开目录选择器："@ + error, error: true }),
            ..window
        }),
        window.prepared(change, Ok(true)) == (SettingsWindowView {
            overwrite: Some(change),
            notice: None,
            ..window
        }),
        window.prepared(change, Ok(false)) == window.committing(change),
        window.prepared(change, Err(error)) == (SettingsWindowView {
            notice: Some(NoticeView { text: "无法使用该目录："@ + error, error: true }),
            ..window
        }),
        window.committing(change) == (SettingsWindowView {
            choosing: true,
            overwrite: None,
            notice: Some(
                NoticeView {
                    text: "正在把数据目录切换到 "@ + change.target
                        + "，随后墨页会重新启动并把原目录的内容搬过去…"@,
                    error: false,
                },
            ),
            ..window
        }),
        window.committed(None) == (SettingsWindowView { choosing: false, ..window }),
        window.committed(Some(error)) == (SettingsWindowView {
            choosing: false,
            notice: Some(NoticeView { text: "无法使用该目录："@ + error, error: true }),
            ..window
        }),
        window.restarting(target, None) == window,
        window.restarting(target, Some(error)).choosing == window.choosing,
        window.restarting(target, Some(error)).overwrite == window.overwrite,
        window.restarting(target, Some(error)).notice is Some,
{
}

} // verus!
