//! The main window: its navigation panels and the resize seams of the
//! frameless window.

use vstd::prelude::*;

verus! {

/// The panels of the side bar, in display order.
#[derive(Clone, Copy, Debug, Eq, PartialEq, Structural)]
pub enum Panel {
    Overview,
    Files,
    Applications,
    Processes,
    Performance,
    Shell,
    Layout,
    Screenshot,
    Logcat,
    WebView,
    Avd,
}

impl Panel {
    /// Every panel, in side-bar order.
    pub fn all() -> (panels: [Panel; 11])
        ensures
            panels@ == seq![
                Panel::Overview,
                Panel::Files,
                Panel::Applications,
                Panel::Processes,
                Panel::Performance,
                Panel::Shell,
                Panel::Layout,
                Panel::Screenshot,
                Panel::Logcat,
                Panel::WebView,
                Panel::Avd,
            ],
    {
        let panels = [
            Panel::Overview,
            Panel::Files,
            Panel::Applications,
            Panel::Processes,
            Panel::Performance,
            Panel::Shell,
            Panel::Layout,
            Panel::Screenshot,
            Panel::Logcat,
            Panel::WebView,
            Panel::Avd,
        ];
        assert(panels@ =~= seq![
            Panel::Overview,
            Panel::Files,
            Panel::Applications,
            Panel::Processes,
            Panel::Performance,
            Panel::Shell,
            Panel::Layout,
            Panel::Screenshot,
            Panel::Logcat,
            Panel::WebView,
            Panel::Avd,
        ]);
        panels
    }

    /// The text-table key of the panel's title.
    pub fn key(self) -> (key: &'static str)
        ensures
            key@ == panel_key(self),
    {
        match self {
            Panel::Overview => "overview",
            Panel::Files => "files",
            Panel::Applications => "applications",
            Panel::Processes => "processes",
            Panel::Performance => "performance",
            Panel::Shell => "shell",
            Panel::Layout => "layout",
            Panel::Screenshot => "screenshot",
            Panel::Logcat => "logcat",
            Panel::WebView => "webview",
            Panel::Avd => "avd",
        }
    }
}

/// The text-table key of a panel's title.
pub open spec fn panel_key(panel: Panel) -> Seq<char> {
    match panel {
        Panel::Overview => "overview"@,
        Panel::Files => "files"@,
        Panel::Applications => "applications"@,
        Panel::Processes => "processes"@,
        Panel::Performance => "performance"@,
        Panel::Shell => "shell"@,
        Panel::Layout => "layout"@,
        Panel::Screenshot => "screenshot"@,
        Panel::Logcat => "logcat"@,
        Panel::WebView => "webview"@,
        Panel::Avd => "avd"@,
    }
}

/// Edge or corner a window resize drags.
#[derive(Clone, Copy, Debug, Eq, PartialEq)]
pub enum ResizeDirection {
    North,
    South,
    East,
    West,
    NorthEast,
    NorthWest,
    SouthEast,
    SouthWest,
}

/// The resize direction of a pointer inside the window that lies near the
/// given edges: corners win over edges, the left and top sides over the
/// right and bottom ones; no seam when it is near none.
pub fn seam_direction(
    near_left: bool,
    near_right: bool,
    near_top: bool,
    near_bottom: bool,
) -> (direction: Option<ResizeDirection>)
    ensures
        direction == (if near_left && near_top {
            Some(ResizeDirection::NorthWest)
        } else if near_left && near_bottom {
            Some(ResizeDirection::SouthWest)
        } else if near_right && near_top {
            Some(ResizeDirection::NorthEast)
        } else if near_right && near_bottom {
            Some(ResizeDirection::SouthEast)
        } else if near_left {
            Some(ResizeDirection::West)
        } else if near_right {
            Some(ResizeDirection::East)
        } else if near_top {
            Some(ResizeDirection::North)
        } else if near_bottom {
            Some(ResizeDirection::South)
        } else {
            None
        }),
{
    match (near_left, near_right, near_top, near_bottom) {
        (true, _, true, _) => Some(ResizeDirection::NorthWest),
        (true, _, _, true) => Some(ResizeDirection::SouthWest),
        (_, true, true, _) => Some(ResizeDirection::NorthEast),
        (_, true, _, true) => Some(ResizeDirection::SouthEast),
        (true, _, _, _) => Some(ResizeDirection::West),
        (_, true, _, _) => Some(ResizeDirection::East),
        (_, _, true, _) => Some(ResizeDirection::North),
        (_, _, _, true) => Some(ResizeDirection::South),
        _ => None,
    }
}

/// Font files tried, in order, for the CJK text of the interface.
pub open spec fn font_paths() -> Seq<Seq<char>> {
    seq![
        "C:/Windows/Fonts/msyh.ttc"@,
        "C:/Windows/Fonts/simhei.ttf"@,
        "/System/Library/Fonts/PingFang.ttc"@,
        "/usr/share/fonts/opentype/noto/NotoSansCJK-Regular.ttc"@,
        "/usr/share/fonts/truetype/noto/NotoSansCJK-Regular.ttc"@,
    ]
}

/// The font files to try for CJK text: Windows, macOS, then Linux paths.
pub fn font_candidates() -> (paths: Vec<&'static str>)
    ensures
        paths@.map_values(|p: &'static str| p@) == font_paths(),
{
    let paths = vec![
        "C:/Windows/Fonts/msyh.ttc",
        "C:/Windows/Fonts/simhei.ttf",
        "/System/Library/Fonts/PingFang.ttc",
        "/usr/share/fonts/opentype/noto/NotoSansCJK-Regular.ttc",
        "/usr/share/fonts/truetype/noto/NotoSansCJK-Regular.ttc",
    ];
    assert(paths@.map_values(|p: &'static str| p@) =~= font_paths());
    paths
}

} // verus!
