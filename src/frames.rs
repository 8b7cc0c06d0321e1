//! State behind the small debug windows that the programs draw each frame.

use vstd::prelude::*;

verus! {

/// The user record edited by the "User" window: a name and an age.
#[derive(Debug, Clone)]
pub struct UserWindow {
    name: String,
    age: u32,
}

impl UserWindow {
    /// The name shown in the window.
    pub closed spec fn spec_name(&self) -> Seq<char> {
        self.name@
    }

    /// The age shown in the window.
    pub closed spec fn spec_age(&self) -> u32 {
        self.age
    }

    /// The name shown in the window.
    pub fn name(&self) -> (r: &str)
        ensures
            r@ == self.spec_name(),
    {
        self.name.as_str()
    }

    /// The age shown in the window.
    #[must_use]
    pub fn age(&self) -> (r: u32)
        ensures
            r == self.spec_age(),
    {
        self.age
    }

    /// Replaces the name, as the window's text field does.
    pub fn set_name(&mut self, name: String)
        ensures
            final(self).spec_name() == name@,
            final(self).spec_age() == old(self).spec_age(),
    {
        self.name = name;
    }

    /// Replaces the age, as the window's slider does.
    pub fn set_age(&mut self, age: u32)
        ensures
            final(self).spec_name() == old(self).spec_name(),
            final(self).spec_age() == age,
    {
        self.age = age;
    }

    /// Adds one year, as the window's button does.
    pub fn add_year(&mut self)
        requires
            old(self).spec_age() < u32::MAX,
        ensures
            final(self).spec_name() == old(self).spec_name(),
            final(self).spec_age() == old(self).spec_age() + 1,
    {
        self.age = self.age + 1;
    }
}

impl Default for UserWindow {
    /// The author, aged 42.
    fn default() -> (r: Self)
        ensures
            r.spec_name() == "Author"@,
            r.spec_age() == 42,
    {
        UserWindow { name: "Author".to_owned(), age: 42 }
    }
}


/// Relies on `instant::Instant`: a point in time, which the library only
/// carries and hands back to `instant`.
#[verifier::external_type_specification]
#[verifier::external_body]
pub struct ExInstant(instant::Instant);

/// Relies on `instant::Instant::now`: the current time. Nothing is known of
/// the value.
#[verifier::external_body]
fn now() -> instant::Instant {
    instant::Instant::now()
}

/// Relies on `instant::Instant::elapsed`: the time that has passed since
/// `t`. It depends on the clock, so nothing is known of the value.
#[verifier::external_body]
fn elapsed(t: &instant::Instant) -> std::time::Duration {
    t.elapsed()
}

/// Relies on `Duration::as_nanos`: the whole nanoseconds of `d`. Nothing is
/// stated of the value, which only ever measures a clock reading here.
#[verifier::external_body]
fn as_nanos(d: &std::time::Duration) -> u128 {
    d.as_nanos()
}

/// Nanoseconds in a second.
pub const NANOS_PER_SEC: u128 = 1_000_000_000;

/// `frames` frames shown over `nanos` nanoseconds, as frames per second
/// rounded to the nearest whole number, halves upward.
pub open spec fn frame_rate(frames: nat, nanos: nat) -> int {
    let n = frames * NANOS_PER_SEC as int;
    n / (nanos as int) + if 2 * (n % (nanos as int)) >= nanos {
        1int
    } else {
        0int
    }
}

proof fn lemma_frame_rate_bound(frames: nat, nanos: nat)
    requires
        nanos > NANOS_PER_SEC,
    ensures
        frame_rate(frames, nanos) <= frames,
{
    let n = frames * NANOS_PER_SEC as int;
    let q = n / (nanos as int);
    let r = n % (nanos as int);
    vstd::arithmetic::div_mod::lemma_fundamental_div_mod(n as int, nanos as int);
    if frames > 0 {
        assert(q < frames) by (nonlinear_arith)
            requires
                n == nanos * q + r,
                0 <= r,
                0 <= q,
                n == frames * NANOS_PER_SEC,
                nanos > NANOS_PER_SEC,
                frames > 0,
        ;
    } else {
        assert(n == 0);
        assert(q == 0 && r == 0) by (nonlinear_arith)
            requires
                n == nanos * q + r,
                0 <= r < nanos,
                0 <= q,
                n == 0,
        ;
    }
}

/// The frame counter behind the "FPS" window. It counts the frames of the
/// current second; once more than a second has passed it shows their rate
/// and starts a new second.
#[derive(Debug, Clone, Copy)]
pub struct FpsWindow {
    fps: u32,
    frames: u32,
    timer: instant::Instant,
}

impl FpsWindow {
    /// The rate shown, in frames per second.
    pub closed spec fn spec_fps(&self) -> u32 {
        self.fps
    }

    /// The frames counted in the current second.
    pub closed spec fn spec_frames(&self) -> u32 {
        self.frames
    }

    /// The rate shown, in frames per second.
    #[must_use]
    pub fn fps(&self) -> (r: u32)
        ensures
            r == self.spec_fps(),
    {
        self.fps
    }

    /// The frames counted in the current second.
    #[must_use]
    pub fn frames(&self) -> (r: u32)
        ensures
            r == self.spec_frames(),
    {
        self.frames
    }

    /// Counts one frame drawn `elapsed` nanoseconds after the current second
    /// began. When more than a second has passed, the rate of the frames
    /// counted so far becomes the shown rate, and this frame is the first of
    /// a new second; the result then says that the second's clock must be
    /// restarted.
    pub fn count_frame(&mut self, elapsed: u128) -> (restart: bool)
        requires
            elapsed > NANOS_PER_SEC || old(self).spec_frames() < u32::MAX,
        ensures
            restart == (elapsed > NANOS_PER_SEC),
            restart ==> final(self).spec_fps() == frame_rate(old(self).spec_frames() as nat, elapsed as nat),
            restart ==> final(self).spec_frames() == 1,
            !restart ==> final(self).spec_fps() == old(self).spec_fps(),
            !restart ==> final(self).spec_frames() == old(self).spec_frames() + 1,
    {
        if elapsed > NANOS_PER_SEC {
            proof {
                lemma_frame_rate_bound(self.frames as nat, elapsed as nat);
            }
            let n: u128 = self.frames as u128 * NANOS_PER_SEC;
            let q = n / elapsed;
            let r = n % elapsed;
            let rate = if r >= elapsed - r {
                q + 1
            } else {
                q
            };
            self.fps = rate as u32;
            self.frames = 1;
            true
        } else {
            self.frames = self.frames + 1;
            false
        }
    }

    /// Counts one frame against the clock of the current second, and
    /// restarts that clock when a new second begins.
    pub fn update(&mut self)
        requires
            old(self).spec_frames() < u32::MAX,
        ensures
            (final(self).spec_frames() == 1 && final(self).spec_fps() <= old(self).spec_frames()) || (
            final(self).spec_frames() == old(self).spec_frames() + 1 && final(self).spec_fps()
                == old(self).spec_fps()),
    {
        let nanos = as_nanos(&elapsed(&self.timer));
        proof {
            if nanos > NANOS_PER_SEC {
                lemma_frame_rate_bound(self.frames as nat, nanos as nat);
            }
        }
        if self.count_frame(nanos) {
            self.timer = now();
        }
    }
}

impl Default for FpsWindow {
    /// No rate shown yet, no frame counted, and the current second starting
    /// now.
    fn default() -> (r: Self)
        ensures
            r.spec_fps() == 0,
            r.spec_frames() == 0,
    {
        FpsWindow { fps: 0, frames: 0, timer: now() }
    }
}

} // verus!
