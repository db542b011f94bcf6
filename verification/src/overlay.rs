//! Decisions of the CPU/RAM overlay window: CPU load from the system's time
//! counters, what each window message does, and the text it paints.
use vstd::prelude::*;
use crate::text::{append_signed_decimal, signed_decimal};

verus! {

/// Width of the overlay window in pixels.
pub const OVERLAY_WIDTH: i32 = 120;

/// Height of the overlay window in pixels.
pub const OVERLAY_HEIGHT: i32 = 44;

/// Left edge of the overlay window in pixels.
pub const OVERLAY_LEFT: i32 = 10;

/// Background colour (0x00BBGGRR).
pub const BACKGROUND_COLOR: u32 = 0x00202020;

/// Text colour (0x00BBGGRR).
pub const TEXT_COLOR: u32 = 0x00F2F2F2;

/// The 64-bit count of a time value given as high and low 32-bit halves
/// (`((high as u64) << 32) | low as u64`).
pub fn filetime_ticks(high: u32, low: u32) -> (ticks: u64)
    ensures
        ticks == high as nat * 0x1_0000_0000 + low as nat,
{
    let h = high as u64;
    let l = low as u64;
    let ticks = (h << 32u64) | l;
    assert(((h << 32u64) | l) == h * 0x1_0000_0000 + l) by (bit_vector)
        requires
            h < 0x1_0000_0000,
            l < 0x1_0000_0000,
    ;
    ticks
}

/// The counters of the previous CPU sample (`last_total == 0`: no sample yet).
pub struct CpuCounters {
    pub last_idle: u64,
    pub last_total: u64,
}

impl CpuCounters {
    /// No sample taken yet.
    pub fn new() -> (res: CpuCounters)
        ensures
            res.last_idle == 0,
            res.last_total == 0,
    {
        CpuCounters { last_idle: 0, last_total: 0 }
    }

    /// The counters of a sample stay in `u64` arithmetic: kernel plus user time
    /// fits, and after a first sample the counters have not gone back and the
    /// idle time grew by no more than the total.
    pub open spec fn sample_fits(&self, idle: u64, kernel: u64, user: u64) -> bool {
        let total = kernel + user;
        &&& total <= u64::MAX
        &&& self.last_total != 0 ==> {
            &&& idle >= self.last_idle
            &&& total >= self.last_total
            &&& total - self.last_total != 0 ==> idle - self.last_idle <= total
                - self.last_total
        }
    }

    /// Takes a sample of the idle, kernel and user times. The first sample
    /// (no previous total) only records the counters. Later samples record them
    /// and give `(busy, elapsed)` since the previous sample, where elapsed is
    /// the growth of kernel plus user time and busy is that minus the growth
    /// of idle time; `None` when nothing elapsed. The load in percent is
    /// `busy / elapsed * 100`, and 0 when `None` comes back.
    pub fn cpu_usage(&mut self, idle: u64, kernel: u64, user: u64) -> (res: Option<(u64, u64)>)
        requires
            old(self).sample_fits(idle, kernel, user),
        ensures
            final(self).last_idle == idle,
            final(self).last_total == kernel + user,
            old(self).last_total == 0 ==> res is None,
            old(self).last_total != 0 ==> {
                let elapsed = kernel + user - old(self).last_total;
                let idle_delta = idle - old(self).last_idle;
                &&& elapsed == 0 ==> res is None
                &&& elapsed != 0 ==> res == Some(((elapsed - idle_delta) as u64, elapsed as u64))
            },
    {
        let total = kernel + user;
        if self.last_total == 0 {
            self.last_idle = idle;
            self.last_total = total;
            return None;
        }
        let di = idle - self.last_idle;
        let dt = total - self.last_total;
        self.last_idle = idle;
        self.last_total = total;
        if dt == 0 {
            None
        } else {
            Some((dt - di, dt))
        }
    }
}

/// The window messages the overlay tells apart.
#[derive(PartialEq, Eq, Structural, Debug, Clone, Copy)]
pub enum OverlayMessage {
    Create,
    Timer,
    Paint,
    LeftButtonDown,
    RightButtonUp,
    Destroy,
    Other,
}

/// What the overlay does with a message.
#[derive(PartialEq, Eq, Structural, Debug, Clone, Copy)]
pub enum OverlayAction {
    /// Measure CPU and RAM.
    Measure,
    /// Measure, bring the window back on top and ask for a repaint.
    MeasureAndRefresh,
    /// Paint the background and the two lines of text.
    Paint,
    /// Let the user drag the window by its body.
    StartDrag,
    /// End the message loop.
    Quit,
    /// Hand the message to the default window procedure.
    PassOn,
}

/// The action for a window message: creation measures, the timer measures
/// and refreshes, painting paints, a left press starts a drag, a right release
/// or destruction quits, anything else goes to the default procedure.
pub fn overlay_reaction(msg: OverlayMessage) -> (action: OverlayAction)
    ensures
        action == match msg {
            OverlayMessage::Create => OverlayAction::Measure,
            OverlayMessage::Timer => OverlayAction::MeasureAndRefresh,
            OverlayMessage::Paint => OverlayAction::Paint,
            OverlayMessage::LeftButtonDown => OverlayAction::StartDrag,
            OverlayMessage::RightButtonUp => OverlayAction::Quit,
            OverlayMessage::Destroy => OverlayAction::Quit,
            OverlayMessage::Other => OverlayAction::PassOn,
        },
{
    match msg {
        OverlayMessage::Create => OverlayAction::Measure,
        OverlayMessage::Timer => OverlayAction::MeasureAndRefresh,
        OverlayMessage::Paint => OverlayAction::Paint,
        OverlayMessage::LeftButtonDown => OverlayAction::StartDrag,
        OverlayMessage::RightButtonUp | OverlayMessage::Destroy => OverlayAction::Quit,
        OverlayMessage::Other => OverlayAction::PassOn,
    }
}

/// A painted line such as "CPU 42%": the name, a space, the whole percent and `%`.
pub fn usage_label(name: &str, percent: i32) -> (label: String)
    ensures
        label@ == name@ + " "@ + signed_decimal(percent as int) + "%"@,
{
    let mut label = String::from_str(name);
    label.append(" ");
    append_signed_decimal(&mut label, percent as i64);
    label.append("%");
    label
}

/// The top edge of the overlay window: its height above the bottom of a
/// screen `screen_height` pixels high.
pub fn overlay_top(screen_height: i32) -> (top: i32)
    requires
        screen_height >= i32::MIN + OVERLAY_HEIGHT,
    ensures
        top == screen_height - OVERLAY_HEIGHT,
{
    screen_height - OVERLAY_HEIGHT
}

} // verus!
