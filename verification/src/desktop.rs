//! Decisions around the desktop: where the popup opens, when focus counts as
//! restored, which window a capture may come from, and what the clipboard and
//! keyboard steps answer.

use vstd::prelude::*;
use crate::selection::focus_matches;

verus! {

/// A monitor's area in physical pixels.
pub struct MonitorArea {
    pub x: i32,
    pub y: i32,
    pub width: u32,
    pub height: u32,
}

/// The right and bottom edges, computed as the popup code does: the size is
/// taken as an `i32` and added without overflow.
pub open spec fn right_edge(m: MonitorArea) -> int {
    m.x + (m.width as i32)
}

pub open spec fn bottom_edge(m: MonitorArea) -> int {
    m.y + (m.height as i32)
}

/// The monitor holds the point `(x, y)`.
pub open spec fn contains_point(m: MonitorArea, x: i32, y: i32) -> bool {
    x >= m.x && x < right_edge(m) && y >= m.y && y < bottom_edge(m)
}

fn contains(m: &MonitorArea, x: i32, y: i32) -> (r: bool)
    ensures
        r == contains_point(*m, x, y),
{
    #[verifier::truncate]
    let w = m.width as i32;
    #[verifier::truncate]
    let h = m.height as i32;
    let right = m.x as i64 + w as i64;
    let bottom = m.y as i64 + h as i64;
    x >= m.x && (x as i64) < right && y >= m.y && (y as i64) < bottom
}

/// The first monitor that holds the cursor, if any.
pub fn monitor_at(monitors: &Vec<MonitorArea>, x: i32, y: i32) -> (r: Option<usize>)
    ensures
        r matches Some(i) ==> i < monitors@.len() && contains_point(monitors@[i as int], x, y)
            && forall|k: int| 0 <= k < i ==> !contains_point(#[trigger] monitors@[k], x, y),
        r is None ==> forall|k: int| 0 <= k < monitors@.len() ==> !contains_point(#[trigger] monitors@[k], x, y),
{
    let mut i: usize = 0;
    while i < monitors.len()
        invariant
            i <= monitors@.len(),
            forall|k: int| 0 <= k < i ==> !contains_point(#[trigger] monitors@[k], x, y),
        decreases monitors@.len() - i,
    {
        if contains(&monitors[i], x, y) {
            return Some(i);
        }
        i = i + 1;
    }
    None
}

pub open spec fn max_int(a: int, b: int) -> int {
    if a >= b {
        a
    } else {
        b
    }
}

/// Where the popup of `width` × `height` physical pixels opens for the
/// cursor at `(x, y)`: right of and 20 pixels below the cursor, flipped to the
/// left or above when it would leave the monitor, and never left of or above it.
pub open spec fn popup_position_spec(x: i32, y: i32, monitor: Option<MonitorArea>, width: i32, height: i32) -> (int, int) {
    match monitor {
        Some(m) => {
            let fx = if x + width > right_edge(m) {
                x - width
            } else {
                x as int
            };
            let fy = if y + height > bottom_edge(m) {
                y - height
            } else {
                y + 20
            };
            (max_int(fx, m.x as int), max_int(fy, m.y as int))
        },
        None => (x as int, y + 20),
    }
}

/// A position is a pair of pixel coordinates (`i32`s).
pub open spec fn fits_i32(p: (int, int)) -> bool {
    i32::MIN <= p.0 <= i32::MAX && i32::MIN <= p.1 <= i32::MAX
}

/// The popup position in physical pixels, or `None` when it is not a pixel
/// coordinate (the sums that place it would overflow an `i32`).
pub fn popup_position(x: i32, y: i32, monitor: Option<&MonitorArea>, width: i32, height: i32) -> (r: Option<(i32, i32)>)
    ensures
        ({
            let p = popup_position_spec(x, y, match monitor {
                Some(m) => Some(*m),
                None => None,
            }, width, height);
            &&& r is Some <==> fits_i32(p)
            &&& r matches Some(q) ==> (q.0 as int, q.1 as int) == p
        }),
{
    let (px, py): (i64, i64) = match monitor {
        Some(m) => {
            #[verifier::truncate]
            let w = m.width as i32;
            #[verifier::truncate]
            let h = m.height as i32;
            let right = m.x as i64 + w as i64;
            let bottom = m.y as i64 + h as i64;
            let fx: i64 = if x as i64 + width as i64 > right {
                x as i64 - width as i64
            } else {
                x as i64
            };
            let fy: i64 = if y as i64 + height as i64 > bottom {
                y as i64 - height as i64
            } else {
                y as i64 + 20
            };
            let px: i64 = if fx >= m.x as i64 {
                fx
            } else {
                m.x as i64
            };
            let py: i64 = if fy >= m.y as i64 {
                fy
            } else {
                m.y as i64
            };
            (px, py)
        },
        None => (x as i64, y as i64 + 20),
    };
    if px < i32::MIN as i64 || px > i32::MAX as i64 || py < i32::MIN as i64 || py > i32::MAX as i64 {
        None
    } else {
        Some((px as i32, py as i32))
    }
}

/// With a monitor that holds the cursor, at any origin (negative too), the
/// popup never opens left of or above that monitor. Where it fits right of
/// the cursor it opens at the cursor's x, and where it fits below, 20 pixels
/// below the cursor; otherwise it flips to the left of (or above) the cursor,
/// but not past the monitor's left (or top) edge.
pub proof fn law_popup_stays_on_the_cursor_monitor(x: i32, y: i32, m: MonitorArea, width: i32, height: i32)
    requires
        m.width <= i32::MAX,
        m.height <= i32::MAX,
        m.x <= x < m.x + m.width,
        m.y <= y < m.y + m.height,
    ensures
        popup_position_spec(x, y, Some(m), width, height).0 >= m.x,
        popup_position_spec(x, y, Some(m), width, height).1 >= m.y,
        (x + width <= m.x + m.width && y + height <= m.y + m.height)
            ==> popup_position_spec(x, y, Some(m), width, height) == (x as int, y + 20),
        x + width <= m.x + m.width ==> popup_position_spec(x, y, Some(m), width, height).0 == x,
        y + height <= m.y + m.height ==> popup_position_spec(x, y, Some(m), width, height).1 == y + 20,
        x + width > m.x + m.width ==> popup_position_spec(x, y, Some(m), width, height).0 == (if x - width >= m.x {
            x - width
        } else {
            m.x as int
        }),
        y + height > m.y + m.height ==> popup_position_spec(x, y, Some(m), width, height).1 == (if y - height
            >= m.y {
            y - height
        } else {
            m.y as int
        }),
{
    assert((m.width as i32) as int == m.width as int);
    assert((m.height as i32) as int == m.height as int);
}

/// How many times focus is handed back to the source window before giving up.
pub const FOCUS_ATTEMPTS: u32 = 3;

/// Before attempt `attempt` (from 0) to focus `source` again: how long to
/// wait after asking the system, or `None` when there is nothing left to try
/// (an unknown source, or the attempts are used up).
pub fn focus_attempt_delay(source: usize, attempt: u32) -> (r: Option<u64>)
    ensures
        (source == 0 || attempt >= FOCUS_ATTEMPTS) ==> r is None,
        (source != 0 && attempt == 0) ==> r == Some(150u64),
        (source != 0 && 0 < attempt < FOCUS_ATTEMPTS) ==> r == Some(100u64),
{
    if source == 0 || attempt >= FOCUS_ATTEMPTS {
        None
    } else if attempt == 0 {
        Some(150)
    } else {
        Some(100)
    }
}

/// A capture needs a known source window to go back to.
pub fn require_source(source: Option<usize>) -> (r: Result<usize, String>)
    ensures
        source matches Some(s) ==> r == Ok::<usize, String>(s),
        source is None ==> (r matches Err(m) && m@ == "元のウィンドウを確認できませんでした。"@),
{
    match source {
        Some(s) => Ok(s),
        None => Err("元のウィンドウを確認できませんでした。".to_owned()),
    }
}

/// No key may be sent unless focus went back to the source window.
pub fn require_focus_restored(restored: bool) -> (r: Result<(), String>)
    ensures
        r is Ok <==> restored,
        r matches Err(m) ==> m@ == "元のウィンドウにフォーカスを戻せませんでした。"@,
{
    if restored {
        Ok(())
    } else {
        Err("元のウィンドウにフォーカスを戻せませんでした。".to_owned())
    }
}

/// Whether the source window is still in front before a key is sent to it.
pub fn check_focus(source: usize, foreground: usize) -> (r: Result<(), String>)
    ensures
        r is Ok <==> (source != 0 && foreground == source),
        r matches Err(m) ==> m@ == "元のウィンドウのフォーカスが変わりました。"@,
{
    if focus_matches(source, foreground) {
        Ok(())
    } else {
        Err("元のウィンドウのフォーカスが変わりました。".to_owned())
    }
}

/// The window a shortcut press captures from: the one in front, unless it is
/// unknown or one of the app's own windows.
pub fn capture_source(foreground: usize, own_windows: &Vec<usize>) -> (r: Option<usize>)
    ensures
        (foreground == 0 || own_windows@.contains(foreground)) ==> r is None,
        !(foreground == 0 || own_windows@.contains(foreground)) ==> r == Some(foreground),
{
    if foreground == 0 {
        return None;
    }
    let mut i: usize = 0;
    while i < own_windows.len()
        invariant
            i <= own_windows@.len(),
            forall|k: int| 0 <= k < i ==> own_windows@[k] != foreground,
        decreases own_windows@.len() - i,
    {
        if own_windows[i] == foreground {
            return None;
        }
        i = i + 1;
    }
    Some(foreground)
}

/// The clipboard counts as cleared only if reading it back gives nothing;
/// otherwise no cut may follow, so stale contents are never read.
pub fn confirm_cleared(read_back: Result<String, String>) -> (r: Result<(), String>)
    ensures
        read_back matches Err(e) ==> r == Err::<(), String>(e),
        read_back matches Ok(t) ==> (t@.len() == 0 <==> r is Ok),
        read_back matches Ok(t) && t@.len() > 0 ==> (r matches Err(m) && m@ == "クリップボードを初期化できませんでした。"@),
{
    match read_back {
        Err(e) => Err(e),
        Ok(t) => if t.as_str().is_empty() {
            Ok(())
        } else {
            Err("クリップボードを初期化できませんでした。".to_owned())
        },
    }
}

/// The result of a cut or paste shortcut: it worked only if pressing the
/// modifier with the key and releasing the modifier both worked (the
/// modifier is released even when pressing failed).
pub fn key_action_result(pressed: bool, released: bool) -> (r: Result<(), String>)
    ensures
        r is Ok <==> (pressed && released),
        r matches Err(m) ==> m@ == "キーボード操作に失敗しました。"@,
{
    if pressed && released {
        Ok(())
    } else {
        Err("キーボード操作に失敗しました。".to_owned())
    }
}

} // verus!
