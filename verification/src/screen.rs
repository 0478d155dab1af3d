//! Screenshots: the record of a captured image and the choice of the monitor
//! and the monitor-relative origin for capturing a region.

use vstd::prelude::*;
use crate::text::to_owned_string;

verus! {

/// A captured screen image.
#[derive(Debug)]
pub struct ScreenshotResult {
    pub image_base64: String,
    pub width: u32,
    pub height: u32,
    pub format: String,
}

/// Where a monitor lies on the desktop; each value may be unavailable.
#[derive(Debug, Clone, Copy)]
pub struct MonitorGeometry {
    pub x: Option<i32>,
    pub y: Option<i32>,
    pub width: Option<u32>,
    pub height: Option<u32>,
}

/// Whether the point `(x, y)` lies on a monitor whose geometry is fully known.
/// A size is read as an `i32` the way `as` converts it.
pub open spec fn covers(m: MonitorGeometry, x: i32, y: i32) -> bool {
    match (m.x, m.y, m.width, m.height) {
        (Some(mx), Some(my), Some(mw), Some(mh)) => x >= mx && y >= my && (x as int) < mx + (mw as i32)
            && (y as int) < my + (mh as i32),
        _ => false,
    }
}

/// The monitor a region at `(x, y)` is captured from: the first that covers the
/// point, else the first monitor.
pub open spec fn chosen_monitor(ms: Seq<MonitorGeometry>, x: i32, y: i32, i: int) -> bool {
    &&& 0 <= i < ms.len()
    &&& if exists|k: int| 0 <= k < ms.len() && #[trigger] covers(ms[k], x, y) {
        covers(ms[i], x, y) && forall|k: int| 0 <= k < i ==> !#[trigger] covers(ms[k], x, y)
    } else {
        i == 0
    }
}

/// A coordinate relative to a monitor's origin (zero where unknown), and not
/// below zero.
pub open spec fn relative(p: i32, origin: Option<i32>) -> u32 {
    let o: int = match origin {
        Some(v) => v as int,
        None => 0,
    };
    if p - o > 0 {
        (p - o) as u32
    } else {
        0
    }
}

fn covers_point(m: &MonitorGeometry, x: i32, y: i32) -> (b: bool)
    ensures
        b == covers(*m, x, y),
{
    match (m.x, m.y, m.width, m.height) {
        (Some(mx), Some(my), Some(mw), Some(mh)) => {
            let w: i32 = mw as i32;
            let h: i32 = mh as i32;
            let right: i64 = mx as i64 + w as i64;
            let bottom: i64 = my as i64 + h as i64;
            x >= mx && y >= my && (x as i64) < right && (y as i64) < bottom
        },
        _ => false,
    }
}

fn relative_coordinate(p: i32, origin: Option<i32>) -> (r: u32)
    ensures
        r == relative(p, origin),
{
    let o: i64 = match origin {
        Some(v) => v as i64,
        None => 0,
    };
    let d: i64 = p as i64 - o;
    if d > 0 {
        d as u32
    } else {
        0
    }
}

/// The monitor to capture a region at `(x, y)` from, and the region's origin
/// relative to that monitor; an error where there is no monitor.
pub fn capture_region_origin(monitors: &Vec<MonitorGeometry>, x: i32, y: i32) -> (r: Result<
    (usize, u32, u32),
    String,
>)
    ensures
        monitors@.len() == 0 <==> r is Err,
        r matches Err(m) ==> m@ == "No suitable monitor found for the specified coordinates"@,
        r matches Ok((i, rx, ry)) ==> chosen_monitor(monitors@, x, y, i as int) && rx == relative(
            x,
            monitors@[i as int].x,
        ) && ry == relative(y, monitors@[i as int].y),
{
    if monitors.len() == 0 {
        return Err(to_owned_string("No suitable monitor found for the specified coordinates"));
    }
    let mut i: usize = 0;
    let mut found = monitors.len();
    while i < monitors.len()
        invariant_except_break
            i <= monitors.len(),
            found == monitors.len(),
            forall|k: int| 0 <= k < i ==> !#[trigger] covers(monitors@[k], x, y),
        ensures
            found <= monitors.len(),
            found == monitors.len() ==> forall|k: int|
                0 <= k < monitors@.len() ==> !#[trigger] covers(monitors@[k], x, y),
            found < monitors.len() ==> covers(monitors@[found as int], x, y) && forall|k: int|
                0 <= k < found ==> !#[trigger] covers(monitors@[k], x, y),
        decreases monitors.len() - i,
    {
        if covers_point(&monitors[i], x, y) {
            found = i;
            break;
        }
        i = i + 1;
    }
    let idx = if found < monitors.len() {
        found
    } else {
        0
    };
    proof {
        if found < monitors.len() {
            assert(covers(monitors@[found as int], x, y));
            assert(chosen_monitor(monitors@, x, y, idx as int));
        } else {
            if exists|k: int| 0 <= k < monitors@.len() && #[trigger] covers(monitors@[k], x, y) {
                let k = choose|k: int| 0 <= k < monitors@.len() && #[trigger] covers(monitors@[k], x, y);
                assert(!covers(monitors@[k], x, y));
            }
        }
    }
    let m = monitors[idx];
    Ok((idx, relative_coordinate(x, m.x), relative_coordinate(y, m.y)))
}

} // verus!
