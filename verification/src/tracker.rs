//! The calibration engine: one state that takes local pointer events and
//! global pointer readings, keeps the offset between the two calibrated, and
//! resolves the point at which the pointer is shown.

use vstd::prelude::*;
use crate::fixed::{Fixed, Point, effective_scale, spec_effective_scale, spec_logical};
use crate::global_cursor::{Sample, Update};
use crate::offset::{Offset, clamp_offset, spec_blend};
use crate::persist::{load_offset, opt_text, spec_load};

verus! {

/// The largest age, in nanoseconds, at which a global reading still takes
/// part in a calibration: 80 milliseconds.
pub const MAX_SKEW_NANOS: u64 = 80_000_000;

/// A global reading with the time of its receipt, in nanoseconds of a
/// monotonic clock.
#[derive(Clone, Copy, Debug, PartialEq, Eq, Structural)]
pub struct TimedSample {
    pub value: Sample,
    pub at: u64,
}

/// An event that the engine takes.
#[derive(Clone, Copy, Debug, PartialEq, Eq, Structural)]
pub enum Message {
    /// The pointer moved inside the window, to `position`, at time `now`.
    CursorMoved { position: Point, now: u64 },
    /// The pointer left the window.
    CursorLeft,
    /// The capture session reported `update`, received at time `now`.
    GlobalCursor { update: Update, now: u64 },
    /// A frame is due.
    Tick,
}

/// What the caller is to do after an event.
#[derive(Clone, Copy, Debug, PartialEq, Eq, Structural)]
pub enum Effect {
    /// Nothing.
    Nothing,
    /// Store `offset` as calibrated at `scale`.
    Save { scale: Fixed, offset: Offset },
    /// Show the pointer at this point, or as unknown.
    Cursor(Option<Point>),
}

/// The state of the engine.
#[derive(Clone, Copy, Debug, PartialEq, Eq, Structural)]
pub struct Tracker {
    /// The pointer's position while it hovers the window.
    pub hover_cursor: Option<Point>,
    /// The latest global reading, until the pointer leaves the output.
    pub global_cursor: Option<TimedSample>,
    /// The calibrated offset, once there is one.
    pub global_to_local_offset: Option<Offset>,
    /// Whether the offset changed since it was last stored.
    pub offset_dirty: bool,
}

/// The age at `now` of a reading received at `at`: zero where the reading is
/// the later of the two.
pub open spec fn spec_age(now: u64, at: u64) -> int {
    if now >= at {
        now - at
    } else {
        0
    }
}

/// Whether there is a global reading that is at most 80 ms old at `now`.
pub open spec fn usable(global: Option<TimedSample>, now: u64) -> bool {
    match global {
        Some(g) => spec_age(now, g.at) <= MAX_SKEW_NANOS,
        None => false,
    }
}

/// The offset component that follows `prior` when `candidate` is fused in.
pub open spec fn fused(prior: Option<int>, candidate: int) -> int {
    match prior {
        Some(o) => spec_blend(o, candidate),
        None => candidate,
    }
}

/// The horizontal component of an offset that may be absent.
pub open spec fn opt_dx(offset: Option<Offset>) -> Option<int> {
    match offset {
        Some(o) => Some(o.dx()),
        None => None,
    }
}

/// The vertical component of an offset that may be absent.
pub open spec fn opt_dy(offset: Option<Offset>) -> Option<int> {
    match offset {
        Some(o) => Some(o.dy()),
        None => None,
    }
}

/// How a local pointer move at `now` to `local` changes the state: with no
/// usable global reading nothing changes; else the candidate offset, the
/// reading's logical position minus `local`, is fused into the offset and
/// the offset is marked as changed.
pub open spec fn calibrates(pre: Tracker, post: Tracker, now: u64, local: Point, scale: Fixed) -> bool {
    if usable(pre.global_cursor, now) {
        let g = pre.global_cursor->0.value;
        let cx = clamp_offset(spec_logical(g.x as int, scale.units()) - local.x.units());
        let cy = clamp_offset(spec_logical(g.y as int, scale.units()) - local.y.units());
        &&& post.hover_cursor == pre.hover_cursor
        &&& post.global_cursor == pre.global_cursor
        &&& post.offset_dirty
        &&& post.global_to_local_offset is Some
        &&& post.global_to_local_offset->0.dx() == fused(opt_dx(pre.global_to_local_offset), cx)
        &&& post.global_to_local_offset->0.dy() == fused(opt_dy(pre.global_to_local_offset), cy)
    } else {
        post == pre
    }
}

/// Whether `p` is the point at which the pointer is shown: the local
/// position while the pointer hovers the window; else, with a global reading
/// and an offset, the reading's logical position minus the offset; else
/// unknown.
pub open spec fn resolves(
    local: Option<Point>,
    global: Option<TimedSample>,
    offset: Option<Offset>,
    scale: Fixed,
    p: Option<Point>,
) -> bool {
    match local {
        Some(l) => p == Some(l),
        None => match (global, offset) {
            (Some(g), Some(o)) => {
                &&& p is Some
                &&& p->0.x.units() == spec_logical(g.value.x as int, scale.units()) - o.dx()
                &&& p->0.y.units() == spec_logical(g.value.y as int, scale.units()) - o.dy()
            },
            _ => p is None,
        },
    }
}

/// The age at `now` of a reading received at `at`.
pub fn age(now: u64, at: u64) -> (a: u64)
    ensures
        a == spec_age(now, at),
{
    if now >= at {
        now - at
    } else {
        0
    }
}

/// The point at which the pointer is shown.
pub fn resolve(
    local: Option<Point>,
    global: Option<TimedSample>,
    offset: Option<Offset>,
    scale: Fixed,
) -> (p: Option<Point>)
    ensures
        resolves(local, global, offset, scale, p),
{
    match local {
        Some(l) => Some(l),
        None => match (global, offset) {
            (Some(g), Some(o)) => Some(o.locate(g.value, scale)),
            _ => None,
        },
    }
}

impl Tracker {
    /// The state at start: no readings, no offset.
    pub fn new() -> (t: Tracker)
        ensures
            t.hover_cursor is None,
            t.global_cursor is None,
            t.global_to_local_offset is None,
            !t.offset_dirty,
    {
        Tracker {
            hover_cursor: None,
            global_cursor: None,
            global_to_local_offset: None,
            offset_dirty: false,
        }
    }

    /// The state at start with what the offset store holds: the stored
    /// offset is taken where it was calibrated at the scale that is applied
    /// for `scale`. `keyed` and `legacy` are the texts of the two offset
    /// files, each `None` where the file could not be read.
    pub fn init(scale: Fixed, keyed: Option<&str>, legacy: Option<&str>) -> (t: Tracker)
        ensures
            t.hover_cursor is None,
            t.global_cursor is None,
            !t.offset_dirty,
            match t.global_to_local_offset {
                Some(offset) => spec_load(
                    spec_effective_scale(scale.units()),
                    opt_text(keyed),
                    opt_text(legacy),
                ) == Some((offset.dx(), offset.dy())),
                None => spec_load(
                    spec_effective_scale(scale.units()),
                    opt_text(keyed),
                    opt_text(legacy),
                ) is None,
            },
    {
        Tracker {
            hover_cursor: None,
            global_cursor: None,
            global_to_local_offset: load_offset(effective_scale(scale), keyed, legacy),
            offset_dirty: false,
        }
    }

    /// Whether a local pointer move at `now` is fused with the latest global
    /// reading: there is one, and it is at most 80 ms old.
    pub fn can_calibrate(&self, now: u64) -> (b: bool)
        ensures
            b == usable(self.global_cursor, now),
    {
        match self.global_cursor {
            Some(g) => age(now, g.at) <= MAX_SKEW_NANOS,
            None => false,
        }
    }

    /// Fuses the latest global reading with a local pointer move.
    pub fn maybe_calibrate(&mut self, now: u64, local: Point, scale: Fixed)
        ensures
            calibrates(*old(self), *final(self), now, local, scale),
    {
        if !self.can_calibrate(now) {
            return ;
        }
        let global: Sample = match self.global_cursor {
            Some(g) => g.value,
            None => {
                return ;
            },
        };
        let global_logical: Point = Offset::global_logical(global, scale);
        let new_offset: Offset = Offset::between(global_logical, local);
        let next: Offset = match self.global_to_local_offset {
            Some(old_offset) => old_offset.blend(new_offset),
            None => new_offset,
        };
        self.global_to_local_offset = Some(next);
        self.offset_dirty = true;
    }

    /// The point at which the pointer is shown for this state.
    pub fn cursor(&self, scale: Fixed) -> (p: Option<Point>)
        ensures
            resolves(self.hover_cursor, self.global_cursor, self.global_to_local_offset, scale, p),
    {
        resolve(self.hover_cursor, self.global_cursor, self.global_to_local_offset, scale)
    }

    /// Takes one event at display scale `scale` and says what the caller is
    /// to do.
    pub fn update(&mut self, message: Message, scale: Fixed) -> (effect: Effect)
        ensures
            match message {
                Message::CursorMoved { position, now } => {
                    &&& effect == Effect::Nothing
                    &&& calibrates(
                        (Tracker { hover_cursor: Some(position), ..*old(self) }),
                        *final(self),
                        now,
                        position,
                        scale,
                    )
                },
                Message::CursorLeft => {
                    &&& final(self).hover_cursor is None
                    &&& final(self).global_cursor == old(self).global_cursor
                    &&& final(self).global_to_local_offset == old(self).global_to_local_offset
                    &&& !final(self).offset_dirty
                    &&& effect == match old(self).global_to_local_offset {
                        Some(offset) if old(self).offset_dirty => (Effect::Save {
                            scale: (Fixed { raw: spec_effective_scale(scale.units()) as i64 }),
                            offset,
                        }),
                        _ => Effect::Nothing,
                    }
                },
                Message::GlobalCursor { update, now } => {
                    &&& effect == Effect::Nothing
                    &&& final(self).hover_cursor == old(self).hover_cursor
                    &&& final(self).global_to_local_offset == old(self).global_to_local_offset
                    &&& final(self).offset_dirty == old(self).offset_dirty
                    &&& final(self).global_cursor == match update {
                        Update::Position(sample) => Some(TimedSample { value: sample, at: now }),
                        Update::Left => None,
                    }
                },
                Message::Tick => {
                    &&& *final(self) == *old(self)
                    &&& effect matches Effect::Cursor(p)
                    &&& resolves(
                        old(self).hover_cursor,
                        old(self).global_cursor,
                        old(self).global_to_local_offset,
                        scale,
                        p,
                    )
                },
            },
    {
        match message {
            Message::CursorMoved { position, now } => {
                self.hover_cursor = Some(position);
                self.maybe_calibrate(now, position, scale);
                Effect::Nothing
            },
            Message::CursorLeft => {
                self.hover_cursor = None;
                let mut effect: Effect = Effect::Nothing;
                if self.offset_dirty {
                    if let Some(offset) = self.global_to_local_offset {
                        effect = Effect::Save { scale: effective_scale(scale), offset };
                    }
                    self.offset_dirty = false;
                }
                effect
            },
            Message::GlobalCursor { update, now } => {
                match update {
                    Update::Position(sample) => {
                        self.global_cursor = Some(TimedSample { value: sample, at: now });
                    },
                    Update::Left => {
                        self.global_cursor = None;
                    },
                }
                Effect::Nothing
            },
            Message::Tick => Effect::Cursor(self.cursor(scale)),
        }
    }
}

} // verus!
