//! The eye tracker's state: whether tracking and calibration run, the latest
//! gaze sample, the calibration points, and the reading of the lines that the
//! tracking process prints.
//!
//! Gaze samples and calibration points are carried as they are (`G` and `P`);
//! the tracking process itself is started and stopped by the caller.

use vstd::prelude::*;
use crate::text::{chars_of, decimal, push_str, string_from_chars, to_owned_string, trim, trim_chars, u64_to_decimal};

verus! {

/// The tracker's state.
pub struct EyeTracker<G, P> {
    is_tracking: bool,
    is_calibrating: bool,
    frames: u32,
    last_update_ms: u64,
    calibration_points: Vec<P>,
    last_gaze: Option<G>,
}

/// The tracker's state as values.
pub struct EyeTrackerView<G, P> {
    pub is_tracking: bool,
    pub is_calibrating: bool,
    pub frames: u32,
    pub last_update_ms: u64,
    pub calibration_points: Seq<P>,
    pub last_gaze: Option<G>,
}

impl<G, P> View for EyeTracker<G, P> {
    type V = EyeTrackerView<G, P>;

    closed spec fn view(&self) -> EyeTrackerView<G, P> {
        EyeTrackerView {
            is_tracking: self.is_tracking,
            is_calibrating: self.is_calibrating,
            frames: self.frames,
            last_update_ms: self.last_update_ms,
            calibration_points: self.calibration_points@,
            last_gaze: self.last_gaze,
        }
    }
}

impl<G, P> EyeTracker<G, P> {
    /// A tracker that is not running, with no data.
    pub fn new() -> (t: Self)
        ensures
            !t@.is_tracking,
            !t@.is_calibrating,
            t@.frames == 0,
            t@.last_update_ms == 0,
            t@.calibration_points.len() == 0,
            t@.last_gaze is None,
    {
        EyeTracker {
            is_tracking: false,
            is_calibrating: false,
            frames: 0,
            last_update_ms: 0,
            calibration_points: Vec::new(),
            last_gaze: None,
        }
    }

    /// Whether tracking runs.
    pub fn is_tracking(&self) -> (b: bool)
        ensures
            b == self@.is_tracking,
    {
        self.is_tracking
    }

    /// Whether a new tracking process may be started: not while one runs.
    pub fn check_can_start(&self) -> (r: Result<(), String>)
        ensures
            r is Ok <==> !self@.is_tracking,
            r matches Err(m) ==> m@ == "ML eye tracking is already running"@,
    {
        if self.is_tracking {
            Err(to_owned_string("ML eye tracking is already running"))
        } else {
            Ok(())
        }
    }

    /// Notes that the tracking process has started.
    pub fn mark_started(&mut self)
        ensures
            final(self)@ == (EyeTrackerView { is_tracking: true, ..old(self)@ }),
    {
        self.is_tracking = true;
    }

    /// Notes that tracking stopped: calibration ends and the last sample is dropped.
    pub fn mark_stopped(&mut self)
        ensures
            final(self)@ == (EyeTrackerView {
                is_tracking: false,
                is_calibrating: false,
                last_gaze: None,
                ..old(self)@
            }),
    {
        self.is_tracking = false;
        self.is_calibrating = false;
        self.last_gaze = None;
    }

    /// Starts a calibration, dropping earlier points; only while tracking.
    pub fn start_calibration(&mut self) -> (r: Result<(), String>)
        ensures
            r is Ok <==> old(self)@.is_tracking,
            r matches Err(m) ==> m@ == "Cannot start calibration: tracking not active"@ && final(self)@
                == old(self)@,
            r is Ok ==> final(self)@ == (EyeTrackerView {
                is_calibrating: true,
                calibration_points: Seq::empty(),
                ..old(self)@
            }),
    {
        if !self.is_tracking {
            return Err(to_owned_string("Cannot start calibration: tracking not active"));
        }
        self.is_calibrating = true;
        self.calibration_points.clear();
        assert(self@.calibration_points =~= Seq::<P>::empty());
        Ok(())
    }

    /// The sample that a calibration point is taken from: the latest one,
    /// while calibrating.
    pub fn calibration_sample(&self) -> (r: Result<&G, String>)
        ensures
            !self@.is_calibrating ==> (r matches Err(m) && m@ == "Calibration not active"@),
            self@.is_calibrating && self@.last_gaze is None ==> (r matches Err(m) && m@
                == "No gaze data available for calibration"@),
            self@.is_calibrating && self@.last_gaze is Some ==> (r matches Ok(g) && Some(*g)
                == self@.last_gaze),
    {
        if !self.is_calibrating {
            return Err(to_owned_string("Calibration not active"));
        }
        match &self.last_gaze {
            Some(g) => Ok(g),
            None => Err(to_owned_string("No gaze data available for calibration")),
        }
    }

    /// Adds a calibration point taken from the latest sample.
    pub fn add_calibration_point(&mut self, point: P) -> (r: Result<(), String>)
        ensures
            r is Ok <==> old(self)@.is_calibrating && old(self)@.last_gaze is Some,
            r is Err ==> final(self)@ == old(self)@,
            !old(self)@.is_calibrating ==> (r matches Err(m) && m@ == "Calibration not active"@),
            old(self)@.is_calibrating && old(self)@.last_gaze is None ==> (r matches Err(m) && m@
                == "No gaze data available for calibration"@),
            r is Ok ==> final(self)@ == (EyeTrackerView {
                calibration_points: old(self)@.calibration_points.push(point),
                ..old(self)@
            }),
    {
        if !self.is_calibrating {
            return Err(to_owned_string("Calibration not active"));
        }
        if self.last_gaze.is_none() {
            return Err(to_owned_string("No gaze data available for calibration"));
        }
        self.calibration_points.push(point);
        Ok(())
    }

    /// Ends the calibration and reports how many points it took.
    pub fn finish_calibration(&mut self) -> (r: Result<String, String>)
        ensures
            r is Ok <==> old(self)@.is_calibrating,
            r matches Err(m) ==> m@ == "Calibration not active"@ && final(self)@ == old(self)@,
            r matches Ok(m) ==> m@ == "Calibration completed with "@ + decimal(
                old(self)@.calibration_points.len(),
            ) + " points"@ && final(self)@ == (EyeTrackerView {
                is_calibrating: false,
                ..old(self)@
            }),
    {
        if !self.is_calibrating {
            return Err(to_owned_string("Calibration not active"));
        }
        self.is_calibrating = false;
        let n = self.calibration_points.len();
        let mut m = to_owned_string("Calibration completed with ");
        push_str(&mut m, u64_to_decimal(n as u64).as_str());
        push_str(&mut m, " points");
        Ok(m)
    }

    /// Records a gaze sample received at `now_ms`.
    pub fn update_gaze_data(&mut self, gaze: G, now_ms: u64)
        requires
            old(self)@.frames < u32::MAX,
        ensures
            final(self)@ == (EyeTrackerView {
                last_gaze: Some(gaze),
                frames: (old(self)@.frames + 1) as u32,
                last_update_ms: now_ms,
                ..old(self)@
            }),
    {
        self.last_gaze = Some(gaze);
        self.frames = self.frames + 1;
        self.last_update_ms = now_ms;
    }

    /// The latest gaze sample.
    pub fn latest_gaze(&self) -> (r: Option<&G>)
        ensures
            match r {
                Some(g) => self@.last_gaze == Some(*g),
                None => self@.last_gaze is None,
            },
    {
        self.last_gaze.as_ref()
    }

    /// How many samples were received, and when the last one came.
    pub fn frame_stats(&self) -> (r: (u32, u64))
        ensures
            r == (self@.frames, self@.last_update_ms),
    {
        (self.frames, self.last_update_ms)
    }

    /// Window drags are not detected from gaze: always `false`.
    pub fn detect_window_drag(&self) -> (b: bool)
        ensures
            !b,
    {
        false
    }
}

/// What one line printed by the tracking process is.
#[derive(Debug, PartialEq, Eq)]
pub enum TrackerLine {
    /// A blank line.
    Blank,
    /// A gaze sample, with its JSON text.
    Gaze(String),
    /// A calibration point, with its JSON text.
    Calibration(String),
    /// Anything else, trimmed.
    Other(String),
}

/// What a line printed by the tracking process is: after trimming, `GAZE:`
/// starts a gaze sample and `CALIBRATION:` a calibration point.
pub open spec fn tracker_line(line: Seq<char>, kind: TrackerLine) -> bool {
    let t = trim(line);
    if t.len() == 0 {
        kind == TrackerLine::Blank
    } else if "GAZE:"@.is_prefix_of(t) {
        kind matches TrackerLine::Gaze(p) && p@ == t.skip(5)
    } else if "CALIBRATION:"@.is_prefix_of(t) {
        kind matches TrackerLine::Calibration(p) && p@ == t.skip(12)
    } else {
        kind matches TrackerLine::Other(p) && p@ == t
    }
}

/// Reads one line printed by the tracking process.
pub fn classify_tracker_line(line: &str) -> (r: TrackerLine)
    ensures
        tracker_line(line@, r),
{
    let v = chars_of(line);
    let t = trim_chars(v.as_slice());
    let ts = string_from_chars(t.as_slice());
    proof {
        reveal_strlit("GAZE:");
        reveal_strlit("CALIBRATION:");
    }
    if t.len() == 0 {
        return TrackerLine::Blank;
    }
    if crate::text::starts_with_str(ts.as_str(), "GAZE:") {
        let mut rest: Vec<char> = Vec::new();
        let mut k: usize = 5;
        while k < t.len()
            invariant
                5 <= k <= t.len(),
                rest@ == t@.subrange(5, k as int),
            decreases t.len() - k,
        {
            rest.push(t[k]);
            assert(t@.subrange(5, k + 1) =~= t@.subrange(5, k as int).push(t@[k as int]));
            k = k + 1;
        }
        assert(rest@ =~= t@.skip(5));
        return TrackerLine::Gaze(string_from_chars(rest.as_slice()));
    }
    if crate::text::starts_with_str(ts.as_str(), "CALIBRATION:") {
        let mut rest: Vec<char> = Vec::new();
        let mut k: usize = 12;
        while k < t.len()
            invariant
                12 <= k <= t.len(),
                rest@ == t@.subrange(12, k as int),
            decreases t.len() - k,
        {
            rest.push(t[k]);
            assert(t@.subrange(12, k + 1) =~= t@.subrange(12, k as int).push(t@[k as int]));
            k = k + 1;
        }
        assert(rest@ =~= t@.skip(12));
        return TrackerLine::Calibration(string_from_chars(rest.as_slice()));
    }
    TrackerLine::Other(ts)
}

/// Stopping always ends calibration and forgets the last sample; a
/// calibration can only start while tracking runs.
pub proof fn law_stop_resets<G, P>(before: EyeTrackerView<G, P>, after: EyeTrackerView<G, P>)
    requires
        after == (EyeTrackerView { is_tracking: false, is_calibrating: false, last_gaze: None, ..before }),
    ensures
        !after.is_tracking && !after.is_calibrating && after.last_gaze is None,
        after.calibration_points == before.calibration_points,
{
}

} // verus!
