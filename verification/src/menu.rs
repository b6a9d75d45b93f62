//! The tray menu: its labels in the two interface languages, and what its
//! items toggle.

use vstd::prelude::*;
use vstd::string::*;
use crate::text::str_eq;

verus! {

/// The characters of each label, in menu order.
pub open spec fn label_views(labels: Seq<&'static str>) -> Seq<Seq<char>> {
    labels.map_values(|l: &'static str| l@)
}

/// The English labels; the language item offers the other language.
pub open spec fn english_labels(language_label: Seq<char>) -> Seq<Seq<char>> {
    seq![
        "Show / Hide"@,
        "Refresh now"@,
        "Check for updates"@,
        "Unlock widget"@,
        "Pin / Unpin Codex"@,
        "Theme"@,
        language_label,
        "Start at login"@,
        "Quit"@,
    ]
}

/// The Chinese labels.
pub open spec fn chinese_labels() -> Seq<Seq<char>> {
    seq![
        "显示 / 隐藏"@,
        "立即刷新"@,
        "检查更新"@,
        "解锁悬浮窗"@,
        "固定 / 取消固定 Codex"@,
        "主题"@,
        "Switch to English"@,
        "开机启动"@,
        "退出"@,
    ]
}

fn english(language_label: &'static str) -> (r: Vec<&'static str>)
    ensures
        label_views(r@) == english_labels(language_label@),
{
    let r = vec![
        "Show / Hide",
        "Refresh now",
        "Check for updates",
        "Unlock widget",
        "Pin / Unpin Codex",
        "Theme",
        language_label,
        "Start at login",
        "Quit",
    ];
    assert(label_views(r@) =~= english_labels(language_label@));
    r
}

fn chinese() -> (r: Vec<&'static str>)
    ensures
        label_views(r@) == chinese_labels(),
{
    let r = vec![
        "显示 / 隐藏",
        "立即刷新",
        "检查更新",
        "解锁悬浮窗",
        "固定 / 取消固定 Codex",
        "主题",
        "Switch to English",
        "开机启动",
        "退出",
    ];
    assert(label_views(r@) =~= chinese_labels());
    r
}

/// The labels the menu is built with: English for the `en` interface, with
/// a language item naming both languages; Chinese otherwise.
pub fn initial_menu_labels(language: &str) -> (r: Vec<&'static str>)
    ensures
        label_views(r@) == if language@ == "en"@ {
            english_labels("Switch Language / 切换语言"@)
        } else {
            chinese_labels()
        },
{
    if str_eq(language, "en") {
        english("Switch Language / 切换语言")
    } else {
        chinese()
    }
}

/// The labels after the interface language changed: English, with the
/// language item offering Chinese, or Chinese.
pub fn menu_labels(english_interface: bool) -> (r: Vec<&'static str>)
    ensures
        label_views(r@) == if english_interface {
            english_labels("切换到中文"@)
        } else {
            chinese_labels()
        },
{
    if english_interface {
        english("切换到中文")
    } else {
        chinese()
    }
}

/// The interface language the language item switches to: Chinese from
/// English, English from anything else.
pub fn next_language(current: &str) -> (r: &'static str)
    ensures
        r@ == if current@ == "en"@ {
            "zh-CN"@
        } else {
            "en"@
        },
{
    if str_eq(current, "en") {
        "zh-CN"
    } else {
        "en"
    }
}

/// The pinned provider after the pin item: none when one was pinned, else
/// Codex.
pub fn toggled_pin(pinned: &Option<String>) -> (r: Option<String>)
    ensures
        match pinned {
            Some(_) => r is None,
            None => r is Some && r.unwrap()@ == "codex"@,
        },
{
    match pinned {
        Some(_) => None,
        None => Some(String::from_str("codex")),
    }
}

/// What the show item does to the widget window.
#[derive(Clone, Copy, Debug, PartialEq, Eq, Structural)]
pub enum ShowAction {
    /// Nothing: the widget is replaced by the status bar progress.
    Nothing,
    Hide,
    ShowAndFocus,
}

/// The show item hides a visible widget and shows and focuses a hidden
/// one, unless the status bar progress stands in for the widget.
pub fn show_action(status_bar_progress: bool, widget_visible: bool) -> (r: ShowAction)
    ensures
        r == if status_bar_progress {
            ShowAction::Nothing
        } else if widget_visible {
            ShowAction::Hide
        } else {
            ShowAction::ShowAndFocus
        },
{
    if status_bar_progress {
        ShowAction::Nothing
    } else if widget_visible {
        ShowAction::Hide
    } else {
        ShowAction::ShowAndFocus
    }
}

} // verus!
