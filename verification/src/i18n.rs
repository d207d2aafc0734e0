//! User-interface language and the text table.

use vstd::prelude::*;

use crate::text::chars_of;

verus! {

#[derive(Clone, Copy, Debug, Eq, PartialEq)]
pub enum Language {
    English,
    Chinese,
}

impl Language {
    /// The other language.
    pub fn toggle(self) -> (other: Self)
        ensures
            other == toggled(self),
    {
        match self {
            Language::English => Language::Chinese,
            Language::Chinese => Language::English,
        }
    }

    /// The label of the language switch.
    pub fn short_name(self) -> (name: &'static str)
        ensures
            name@ == (match self {
                Language::English => "EN"@,
                Language::Chinese => "中文"@,
            }),
    {
        match self {
            Language::English => "EN",
            Language::Chinese => "中文",
        }
    }
}

/// The language the switch changes to.
pub open spec fn toggled(language: Language) -> Language {
    match language {
        Language::English => Language::Chinese,
        Language::Chinese => Language::English,
    }
}

/// Switching twice gives back the language one started with.
pub proof fn lemma_toggle_involution(language: Language)
    ensures
        toggled(toggled(language)) == language,
        toggled(language) != language,
{
}

/// The user-interface text for `key` in `language`; unknown keys give the
/// empty text, and keys without a Chinese entry fall back to English.
pub open spec fn translation(language: Language, key: Seq<char>) -> Seq<char> {
    match language {
        Language::Chinese => chinese_text(key),
        Language::English => english_text(key),
    }
}
/// English user-interface texts.
pub open spec fn english_text(key: Seq<char>) -> Seq<char> {
    if key == "overview"@ {
        "Overview"@
    } else if key == "files"@ {
        "Files"@
    } else if key == "applications"@ {
        "Applications"@
    } else if key == "processes"@ {
        "Processes"@
    } else if key == "performance"@ {
        "Performance"@
    } else if key == "shell"@ {
        "Shell"@
    } else if key == "layout"@ {
        "Layout"@
    } else if key == "screenshot"@ {
        "Screenshot"@
    } else if key == "logcat"@ {
        "Logcat"@
    } else if key == "select_device"@ {
        "Select a device"@
    } else if key == "no_device"@ {
        "No connected devices"@
    } else if key == "refresh"@ {
        "Refresh"@
    } else if key == "device_manager"@ {
        "Device Manager"@
    } else if key == "diagnostics"@ {
        "ADB Diagnostics"@
    } else if key == "coming_soon"@ {
        "Planned for a later milestone"@
    } else if key == "explicit_selection"@ {
        "BridgeScope never selects a device automatically, preventing accidental operations."@
    } else if key == "loading"@ {
        "Loading device information…"@
    } else if key == "light"@ {
        "Light"@
    } else if key == "dark"@ {
        "Dark"@
    } else if key == "close"@ {
        "Close"@
    } else if key == "fake"@ {
        "Fake device"@
    } else if key == "connect_android"@ {
        "Connect an Android device"@
    } else if key == "ip_host"@ {
        "IP / host"@
    } else if key == "port"@ {
        "Port"@
    } else if key == "connect"@ {
        "Connect"@
    } else if key == "connecting"@ {
        "Connecting"@
    } else if key == "recent_network_devices"@ {
        "Recent network devices"@
    } else if key == "forget"@ {
        "Forget"@
    } else if key == "connected_devices"@ {
        "Connected devices"@
    } else if key == "model"@ {
        "Model"@
    } else if key == "serial"@ {
        "Serial"@
    } else if key == "state"@ {
        "State"@
    } else if key == "product"@ {
        "Product"@
    } else if key == "action"@ {
        "Action"@
    } else if key == "select"@ {
        "Select"@
    } else if key == "webview"@ {
        "WebView"@
    } else if key == "assistant"@ {
        "AI Assistant"@
    } else {
        Seq::empty()
    }
}
/// Chinese user-interface texts (English where no Chinese text exists).
pub open spec fn chinese_text(key: Seq<char>) -> Seq<char> {
    if key == "overview"@ {
        "概览"@
    } else if key == "files"@ {
        "文件"@
    } else if key == "applications"@ {
        "应用"@
    } else if key == "processes"@ {
        "进程"@
    } else if key == "performance"@ {
        "性能"@
    } else if key == "shell"@ {
        "终端"@
    } else if key == "layout"@ {
        "布局"@
    } else if key == "screenshot"@ {
        "截图"@
    } else if key == "logcat"@ {
        "日志"@
    } else if key == "select_device"@ {
        "选择设备"@
    } else if key == "no_device"@ {
        "未连接设备"@
    } else if key == "refresh"@ {
        "刷新"@
    } else if key == "device_manager"@ {
        "设备管理"@
    } else if key == "diagnostics"@ {
        "ADB 诊断"@
    } else if key == "coming_soon"@ {
        "后续里程碑开发"@
    } else if key == "explicit_selection"@ {
        "为避免误操作，BridgeScope 不会自动选择设备。"@
    } else if key == "loading"@ {
        "正在读取设备信息…"@
    } else if key == "light"@ {
        "浅色"@
    } else if key == "dark"@ {
        "深色"@
    } else if key == "close"@ {
        "关闭"@
    } else if key == "fake"@ {
        "模拟设备"@
    } else if key == "connect_android"@ {
        "连接 Android 设备"@
    } else if key == "ip_host"@ {
        "IP / 主机"@
    } else if key == "port"@ {
        "端口"@
    } else if key == "connect"@ {
        "连接"@
    } else if key == "connecting"@ {
        "正在连接"@
    } else if key == "recent_network_devices"@ {
        "最近连接的网络设备"@
    } else if key == "forget"@ {
        "移除"@
    } else if key == "connected_devices"@ {
        "已连接设备"@
    } else if key == "model"@ {
        "型号"@
    } else if key == "serial"@ {
        "序列号"@
    } else if key == "state"@ {
        "状态"@
    } else if key == "product"@ {
        "产品"@
    } else if key == "action"@ {
        "操作"@
    } else if key == "select"@ {
        "选择"@
    } else if key == "webview"@ {
        "WebView"@
    } else if key == "assistant"@ {
        "AI 助手"@
    } else {
        Seq::empty()
    }
}

fn key_is(key: &Vec<char>, literal: &str) -> (same: bool)
    ensures
        same == (key@ == literal@),
{
    let other = chars_of(literal);
    if key.len() != other.len() {
        return false;
    }
    let mut i: usize = 0;
    while i < key.len()
        invariant
            i <= key.len() == other.len(),
            other@ == literal@,
            forall|j: int| 0 <= j < i ==> key@[j] == other@[j],
        decreases key.len() - i,
    {
        if key[i] != other[i] {
            return false;
        }
        i = i + 1;
    }
    assert(key@ == other@);
    true
}

fn english_text_of(key: &Vec<char>) -> (text: &'static str)
    ensures
        text@ == english_text(key@),
{
    if key_is(key, "overview") {
        "Overview"
    } else if key_is(key, "files") {
        "Files"
    } else if key_is(key, "applications") {
        "Applications"
    } else if key_is(key, "processes") {
        "Processes"
    } else if key_is(key, "performance") {
        "Performance"
    } else if key_is(key, "shell") {
        "Shell"
    } else if key_is(key, "layout") {
        "Layout"
    } else if key_is(key, "screenshot") {
        "Screenshot"
    } else if key_is(key, "logcat") {
        "Logcat"
    } else if key_is(key, "select_device") {
        "Select a device"
    } else if key_is(key, "no_device") {
        "No connected devices"
    } else if key_is(key, "refresh") {
        "Refresh"
    } else if key_is(key, "device_manager") {
        "Device Manager"
    } else if key_is(key, "diagnostics") {
        "ADB Diagnostics"
    } else if key_is(key, "coming_soon") {
        "Planned for a later milestone"
    } else if key_is(key, "explicit_selection") {
        "BridgeScope never selects a device automatically, preventing accidental operations."
    } else if key_is(key, "loading") {
        "Loading device information…"
    } else if key_is(key, "light") {
        "Light"
    } else if key_is(key, "dark") {
        "Dark"
    } else if key_is(key, "close") {
        "Close"
    } else if key_is(key, "fake") {
        "Fake device"
    } else if key_is(key, "connect_android") {
        "Connect an Android device"
    } else if key_is(key, "ip_host") {
        "IP / host"
    } else if key_is(key, "port") {
        "Port"
    } else if key_is(key, "connect") {
        "Connect"
    } else if key_is(key, "connecting") {
        "Connecting"
    } else if key_is(key, "recent_network_devices") {
        "Recent network devices"
    } else if key_is(key, "forget") {
        "Forget"
    } else if key_is(key, "connected_devices") {
        "Connected devices"
    } else if key_is(key, "model") {
        "Model"
    } else if key_is(key, "serial") {
        "Serial"
    } else if key_is(key, "state") {
        "State"
    } else if key_is(key, "product") {
        "Product"
    } else if key_is(key, "action") {
        "Action"
    } else if key_is(key, "select") {
        "Select"
    } else if key_is(key, "webview") {
        "WebView"
    } else if key_is(key, "assistant") {
        "AI Assistant"
    } else {
        proof {
            reveal_strlit("");
        }
        ""
    }
}

fn chinese_text_of(key: &Vec<char>) -> (text: &'static str)
    ensures
        text@ == chinese_text(key@),
{
    if key_is(key, "overview") {
        "概览"
    } else if key_is(key, "files") {
        "文件"
    } else if key_is(key, "applications") {
        "应用"
    } else if key_is(key, "processes") {
        "进程"
    } else if key_is(key, "performance") {
        "性能"
    } else if key_is(key, "shell") {
        "终端"
    } else if key_is(key, "layout") {
        "布局"
    } else if key_is(key, "screenshot") {
        "截图"
    } else if key_is(key, "logcat") {
        "日志"
    } else if key_is(key, "select_device") {
        "选择设备"
    } else if key_is(key, "no_device") {
        "未连接设备"
    } else if key_is(key, "refresh") {
        "刷新"
    } else if key_is(key, "device_manager") {
        "设备管理"
    } else if key_is(key, "diagnostics") {
        "ADB 诊断"
    } else if key_is(key, "coming_soon") {
        "后续里程碑开发"
    } else if key_is(key, "explicit_selection") {
        "为避免误操作，BridgeScope 不会自动选择设备。"
    } else if key_is(key, "loading") {
        "正在读取设备信息…"
    } else if key_is(key, "light") {
        "浅色"
    } else if key_is(key, "dark") {
        "深色"
    } else if key_is(key, "close") {
        "关闭"
    } else if key_is(key, "fake") {
        "模拟设备"
    } else if key_is(key, "connect_android") {
        "连接 Android 设备"
    } else if key_is(key, "ip_host") {
        "IP / 主机"
    } else if key_is(key, "port") {
        "端口"
    } else if key_is(key, "connect") {
        "连接"
    } else if key_is(key, "connecting") {
        "正在连接"
    } else if key_is(key, "recent_network_devices") {
        "最近连接的网络设备"
    } else if key_is(key, "forget") {
        "移除"
    } else if key_is(key, "connected_devices") {
        "已连接设备"
    } else if key_is(key, "model") {
        "型号"
    } else if key_is(key, "serial") {
        "序列号"
    } else if key_is(key, "state") {
        "状态"
    } else if key_is(key, "product") {
        "产品"
    } else if key_is(key, "action") {
        "操作"
    } else if key_is(key, "select") {
        "选择"
    } else if key_is(key, "webview") {
        "WebView"
    } else if key_is(key, "assistant") {
        "AI 助手"
    } else {
        proof {
            reveal_strlit("");
        }
        ""
    }
}

/// The user-interface text for `key` in `language`.
pub fn text(language: Language, key: &str) -> (res: &'static str)
    ensures
        res@ == translation(language, key@),
{
    let key = chars_of(key);
    match language {
        Language::Chinese => chinese_text_of(&key),
        Language::English => english_text_of(&key),
    }
}

} // verus!
