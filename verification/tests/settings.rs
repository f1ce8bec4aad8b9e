use dban::hot_corner::CornerMode;
use dban::settings::{
    corner_mode, shortcut_failure, shortcut_plan, top_trigger_settings, volume_percent, ShortcutPlan,
    DEFAULT_DWELL_MS, DEFAULT_TRIGGER_WIDTH,
};

#[test]
fn trigger_settings_are_clamped() {
    assert_eq!(top_trigger_settings(360, 250), (360, 250));
    assert_eq!(top_trigger_settings(10, 5000), (160, 1000));
    assert_eq!(top_trigger_settings(9000, 0), (800, 100));
}

#[test]
fn shortcut_changes_only_when_needed() {
    assert_eq!(shortcut_plan(true, true), ShortcutPlan::Unchanged);
    assert_eq!(shortcut_plan(false, true), ShortcutPlan::Register);
    assert_eq!(shortcut_plan(true, false), ShortcutPlan::Unregister);
    assert_eq!(shortcut_failure(Some(ShortcutPlan::Register), "busy"), "Alt+D 注册失败（可能已被其他程序占用）：busy");
    assert_eq!(shortcut_failure(Some(ShortcutPlan::Unregister), "x"), "Alt+D 注销失败：x");
    assert_eq!(shortcut_failure(None, "bad"), "快捷键格式错误：bad");
}

#[test]
fn volume_is_at_most_100() {
    assert_eq!(volume_percent(120), 100);
    assert_eq!(volume_percent(0), 0);
    assert_eq!(volume_percent(55), 55);
}

#[test]
fn hot_corner_reads_modes() {
    assert_eq!(corner_mode("hidden"), CornerMode::Hidden);
    assert_eq!(corner_mode("peek"), CornerMode::Peek);
    assert_eq!(corner_mode("panel"), CornerMode::Other);
}

#[test]
fn default_trigger_settings_are_kept() {
    assert_eq!((DEFAULT_TRIGGER_WIDTH, DEFAULT_DWELL_MS), (360, 250));
    assert_eq!(top_trigger_settings(DEFAULT_TRIGGER_WIDTH, DEFAULT_DWELL_MS), (360, 250));
}
