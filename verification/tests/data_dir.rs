use book_studio_ui::data_dir_setup::{DataDirSetupWindow, ReselectReason};

fn open_setup(suggestion: &str) -> DataDirSetupWindow {
    DataDirSetupWindow::new("bootstrap.json", ReselectReason::FirstRun, suggestion)
}

/// The path that a text stands for.
fn normalized(text: &str) -> Option<String> {
    let text = text.trim();
    if text.is_empty() {
        None
    } else {
        Some(text.to_string())
    }
}

#[test]
fn the_input_starts_with_the_suggested_directory_and_confirm_saves_the_edit() {
    let mut window = open_setup("推荐位置");
    // 输入框里预填推荐路径，用户可以直接改。
    assert_eq!(window.input, "推荐位置");
    window.edit("用户改过的位置");
    assert_eq!(
        window.confirm(&normalized("用户改过的位置")),
        Some(("bootstrap.json".to_string(), "用户改过的位置".to_string()))
    );
    assert!(window.finish_confirm(&None));
    assert!(window.error.is_none(), "{:?}", window.error);
    assert!(window.launching, "确认后进入启动流程");
    assert!(window.confirm(&normalized("x")).is_none());
    assert!(!window.browse() && !window.close_quits());
    assert_eq!(window.render().confirm_label, "正在打开图书库…");
}

#[test]
fn an_unusable_directory_keeps_the_window_open_for_another_try() {
    let mut window = open_setup("推荐位置");
    window.edit("占位文件");
    assert!(window.confirm(&normalized("占位文件")).is_some());
    assert!(!window.finish_confirm(&Some("不是目录".to_string())), "不可用的目录不能进入启动流程");
    assert_eq!(window.error.as_deref(), Some("无法使用该目录：不是目录"));
    assert!(!window.launching, "失败后要能重新输入");
    assert!(window.confirm(&normalized("别处")).is_some());
}

#[test]
fn an_empty_input_is_rejected_without_saving() {
    let mut window = open_setup("推荐位置");
    window.edit("   ");
    assert!(window.confirm(&normalized("   ")).is_none());
    assert_eq!(window.error.as_deref(), Some("请填写数据目录路径。"));
}

#[test]
fn a_launch_failure_is_reported_in_the_same_window() {
    let mut window = open_setup("推荐位置");
    window.report_failure("无法打开图书库：库文件损坏");
    assert!(!window.launching);
    assert_eq!(window.error.as_deref(), Some("无法打开图书库：库文件损坏"));
    assert!(window.close_quits());
}

#[test]
fn a_directory_that_was_found_is_filled_in() {
    let mut window = open_setup("推荐位置");
    window.finish_browse(&Err("占用".to_string()));
    assert_eq!(window.error.as_deref(), Some("无法打开目录选择器：占用"));
    window.finish_browse(&Ok(None));
    assert_eq!(window.input, "推荐位置");
    assert!(window.error.is_some(), "calling it off keeps what was told");
    window.finish_browse(&Ok(Some("找到的位置".to_string())));
    assert_eq!(window.input, "找到的位置");
    assert!(window.error.is_none());
}

#[test]
fn every_reason_is_explained() {
    let shown = |reason: ReselectReason| {
        let display = DataDirSetupWindow::new("c", reason, "s").render();
        (display.heading, display.explanation)
    };
    assert_eq!(shown(ReselectReason::FirstRun).0, "选择数据目录");
    let (heading, text) = shown(ReselectReason::Unusable("只读".to_string()));
    assert_eq!(heading, "数据目录需要重新确认");
    assert!(text.ends_with("原因：只读"));
    assert!(shown(ReselectReason::Unreadable("损坏".to_string())).1.ends_with("原因：损坏"));
    let (heading, text) = shown(ReselectReason::MoveFailed {
        from: "D:\\旧".to_string(),
        error: "空间不足".to_string(),
    });
    assert_eq!(heading, "数据目录搬迁未完成");
    assert!(text.contains("原数据目录：D:\\旧\n\n原因：空间不足\n\n确认下面同一个位置可以重试"));
}
