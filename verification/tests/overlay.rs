use xz_pass::overlay::{
    filetime_ticks, overlay_reaction, overlay_top, usage_label, CpuCounters, OverlayAction,
    OverlayMessage,
};

#[test]
fn filetime_halves() {
    assert_eq!(filetime_ticks(0, 0), 0);
    assert_eq!(filetime_ticks(1, 2), (1u64 << 32) | 2);
    assert_eq!(filetime_ticks(u32::MAX, u32::MAX), u64::MAX);
}

#[test]
fn cpu_samples() {
    let mut c = CpuCounters::new();
    assert_eq!(c.cpu_usage(100, 200, 300), None);
    assert_eq!((c.last_idle, c.last_total), (100, 500));
    // elapsed 100, idle grew 25: 75 busy
    assert_eq!(c.cpu_usage(125, 250, 350), Some((75, 100)));
    // nothing elapsed
    assert_eq!(c.cpu_usage(125, 250, 350), None);
    // fully idle
    assert_eq!(c.cpu_usage(135, 255, 355), Some((0, 10)));
}

#[test]
fn message_reactions() {
    assert_eq!(overlay_reaction(OverlayMessage::Create), OverlayAction::Measure);
    assert_eq!(overlay_reaction(OverlayMessage::Timer), OverlayAction::MeasureAndRefresh);
    assert_eq!(overlay_reaction(OverlayMessage::Paint), OverlayAction::Paint);
    assert_eq!(overlay_reaction(OverlayMessage::LeftButtonDown), OverlayAction::StartDrag);
    assert_eq!(overlay_reaction(OverlayMessage::RightButtonUp), OverlayAction::Quit);
    assert_eq!(overlay_reaction(OverlayMessage::Destroy), OverlayAction::Quit);
    assert_eq!(overlay_reaction(OverlayMessage::Other), OverlayAction::PassOn);
}

#[test]
fn labels() {
    assert_eq!(usage_label("CPU", 42), "CPU 42%");
    assert_eq!(usage_label("RAM", 0), "RAM 0%");
    assert_eq!(usage_label("RAM", 100), "RAM 100%");
    assert_eq!(usage_label("X", -3), "X -3%");
}

#[test]
fn window_position() {
    assert_eq!(overlay_top(1080), 1036);
}
