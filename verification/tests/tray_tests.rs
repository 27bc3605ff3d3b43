use codex_savings_core::tray::{
    anchored_popup_y, argb, clamp_popup_origin, colorref_to_argb, extract_tray_stroke, menu_command,
    opens_menu_at, popup_animation_flags, popup_edge, rgb, solid_from_argb, unscale, z, MenuCommand,
    PopupEdge, WorkArea,
};
use windows_sys::Win32::UI::WindowsAndMessaging::{
    AW_HOR_NEGATIVE, AW_HOR_POSITIVE, AW_VER_NEGATIVE, AW_VER_POSITIVE,
};

fn work() -> WorkArea {
    WorkArea { left: 0, top: 0, right: 1920, bottom: 1032 }
}

#[test]
fn anchored_popup_y_preserves_taskbar_gap() {
    let y = anchored_popup_y(1062, 420, 0, 1032, 12);
    assert_eq!(y + 420, 1020);
}

#[test]
fn anchored_popup_y_clamps_to_work_area_top_when_tight() {
    assert_eq!(anchored_popup_y(40, 420, 20, 300, 12), 20);
}

#[test]
fn popup_origin_stays_above_taskbar() {
    assert_eq!(clamp_popup_origin(1600, 900, 392, 226, work(), 12), (1528, 794));
}

#[test]
fn popup_animation_enters_from_nearest_taskbar_edge() {
    assert_eq!(popup_animation_flags(1800, 1060, work()), (AW_VER_NEGATIVE, AW_VER_POSITIVE));
}

#[test]
fn popup_animation_for_each_edge() {
    assert_eq!(popup_edge(1800, 10, work()), PopupEdge::Top);
    assert_eq!(popup_animation_flags(1800, 10, work()), (AW_VER_POSITIVE, AW_VER_NEGATIVE));
    assert_eq!(popup_animation_flags(1915, 500, work()), (AW_HOR_NEGATIVE, AW_HOR_POSITIVE));
    assert_eq!(popup_animation_flags(3, 500, work()), (AW_HOR_POSITIVE, AW_HOR_NEGATIVE));
    // A tie between bottom and right picks the bottom.
    assert_eq!(popup_edge(1910, 1022, work()), PopupEdge::Bottom);
}

#[test]
fn dpi_scaling_rounds_to_nearest() {
    assert_eq!(z(144, 10), 15);
    assert_eq!(z(120, 7), 9);
    assert_eq!(unscale(144, 15), 10);
    assert_eq!(unscale(120, 9), 7);
    assert_eq!(unscale(96, -5), -4);
    assert_eq!(z(96, -5), -4);
    assert_eq!(unscale(144, -1), 0);
}

#[test]
fn colors_pack_into_their_bytes() {
    assert_eq!(rgb(0x12, 0x34, 0x56), 0x0056_3412);
    assert_eq!(argb(0xff, 0x12, 0x34, 0x56), 0xff12_3456);
    assert_eq!(solid_from_argb(0x80ab_cdef), 0x00ef_cdab);
    assert_eq!(colorref_to_argb(0x40, 0x00ef_cdab), 0x40ab_cdef);
}

#[test]
fn tray_stroke_keeps_dark_pixels() {
    assert_eq!(extract_tray_stroke(0x00ff_ffff, 0x00ff_ffff), 0);
    assert_eq!(extract_tray_stroke(0xffff_ffff, 0x0012_3456), 0);
    assert_eq!(extract_tray_stroke(0xff00_0000, 0x0012_3456), 0xff12_3456);
    assert_eq!(extract_tray_stroke(0x8000_0000, 0x0012_3456), 0x8012_3456);
}

#[test]
fn menu_commands_decode() {
    assert_eq!(menu_command(1100, 9), MenuCommand::Plan(0));
    assert_eq!(menu_command(1108, 9), MenuCommand::Plan(8));
    assert_eq!(menu_command(1109, 9), MenuCommand::Nothing);
    assert_eq!(menu_command(1200, 9), MenuCommand::CycleDay(1));
    assert_eq!(menu_command(1230, 9), MenuCommand::CycleDay(31));
    assert_eq!(menu_command(1302, 9), MenuCommand::Language(2));
    assert_eq!(menu_command(0x1_0000 + 1001, 9), MenuCommand::Refresh);
    assert_eq!(menu_command(1400, 9), MenuCommand::AdjustCustomAmount(-10));
    assert_eq!(menu_command(1403, 9), MenuCommand::AdjustCustomAmount(10));
    assert_eq!(menu_command(1002, 9), MenuCommand::Exit);
    assert_eq!(menu_command(1005, 9), MenuCommand::OpenUsage);
    assert!(opens_menu_at(350, 10));
    assert!(!opens_menu_at(339, 10));
}
