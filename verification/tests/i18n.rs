use bridgescope::i18n::{text, Language};
use bridgescope::window::{seam_direction, Panel, ResizeDirection};

#[test]
fn all_expected_panels_are_present() {
    assert_eq!(Panel::all().len(), 11);
    assert_eq!(Panel::all()[0], Panel::Overview);
    assert_eq!(Panel::all()[9], Panel::WebView);
    assert_eq!(Panel::all()[10], Panel::Avd);
}

#[test]
fn language_toggles_back_and_forth() {
    assert_eq!(Language::English.toggle(), Language::Chinese);
    assert_eq!(Language::English.toggle().toggle(), Language::English);
    assert_eq!(Language::English.short_name(), "EN");
    assert_eq!(Language::Chinese.short_name(), "中文");
}

#[test]
fn texts_fall_back_to_english_and_empty() {
    assert_eq!(text(Language::Chinese, "files"), "文件");
    assert_eq!(text(Language::English, "files"), "Files");
    assert_eq!(text(Language::Chinese, "webview"), "WebView");
    assert_eq!(text(Language::Chinese, "assistant"), "AI 助手");
    assert_eq!(text(Language::English, "assistant"), "AI Assistant");
    assert_eq!(text(Language::English, "no_such_key"), "");
    for panel in Panel::all() {
        if panel != Panel::Avd {
            assert!(!text(Language::English, panel.key()).is_empty());
        }
    }
}

#[test]
fn resize_seams_prefer_corners() {
    assert_eq!(seam_direction(false, false, false, false), None);
    assert_eq!(seam_direction(true, false, false, false), Some(ResizeDirection::West));
    assert_eq!(seam_direction(false, true, false, false), Some(ResizeDirection::East));
    assert_eq!(seam_direction(false, false, true, false), Some(ResizeDirection::North));
    assert_eq!(seam_direction(false, false, false, true), Some(ResizeDirection::South));
    assert_eq!(seam_direction(true, false, true, false), Some(ResizeDirection::NorthWest));
    assert_eq!(seam_direction(false, true, true, false), Some(ResizeDirection::NorthEast));
    assert_eq!(seam_direction(true, false, false, true), Some(ResizeDirection::SouthWest));
    assert_eq!(seam_direction(false, true, false, true), Some(ResizeDirection::SouthEast));
}
