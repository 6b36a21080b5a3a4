//! Tile-animation metadata and the [`LdtkTileAnimator`] frame stepper.
use vstd::prelude::*;
use crate::text::{
    chars_eq, chars_of, contains_chars, contains_text, parse_i32, parse_i32_chars, split, split_chars,
    split_once, split_once_chars, string_of_chars, strip_prefix, strip_prefix_chars, trim,
    trim_chars,
};

verus! {

/// Shortest time a frame is shown, in nanoseconds (0.001 s).
pub const MIN_FRAME_NANOS: u64 = 1_000_000;

/// Duration given to an animator whose animation has no frames, in
/// nanoseconds (0.1 s as an `f32` number of seconds).
pub const DEFAULT_FRAME_NANOS: u64 = 100_000_001;

/// Composite key that identifies a tile within a tileset.
#[derive(Debug, Clone, Copy, Default, PartialEq, Eq, Hash, Structural)]
pub struct LdtkTileKey {
    /// UID of the owning tileset; `None` for embedded/internal tilesets.
    pub tileset_uid: Option<i32>,
    /// Zero-based index of the tile within the tileset.
    pub tile_id: i32,
}

/// A single frame of an [`LdtkTileAnimation`]: a tile graphic and how long it
/// is shown.
#[derive(Debug, Clone, Copy, Default, PartialEq, Eq, Structural)]
pub struct LdtkTileAnimationFrame {
    /// Index of the tile in the tileset to display for this frame.
    pub tile_id: i32,
    /// How long this frame is shown, in nanoseconds.
    pub duration_nanos: u64,
}

/// Frame sequence describing how a tile cycles through alternative tile IDs
/// over time.
#[derive(Debug, Default)]
pub struct LdtkTileAnimation {
    /// Ordered list of frames.
    pub frames: Vec<LdtkTileAnimationFrame>,
    /// When `true`, the animation loops back to frame 0 after the last frame;
    /// otherwise it holds the last frame.
    pub repeat: bool,
}

impl Clone for LdtkTileAnimation {
    fn clone(&self) -> (r: Self)
        ensures
            r.frames@ == self.frames@,
            r.repeat == self.repeat,
    {
        let mut frames: Vec<LdtkTileAnimationFrame> = Vec::new();
        let mut i: usize = 0;
        while i < self.frames.len()
            invariant
                i <= self.frames@.len(),
                frames@ == self.frames@.take(i as int),
            decreases self.frames@.len() - i,
        {
            frames.push(self.frames[i]);
            assert(self.frames@.take(i + 1) == self.frames@.take(i as int).push(self.frames@[i as int]));
            i = i + 1;
        }
        assert(self.frames@.take(self.frames@.len() as int) == self.frames@);
        LdtkTileAnimation { frames, repeat: self.repeat }
    }
}

/// The timer of the frame on show: how long the frame lasts and how much
/// of that time has run, both in nanoseconds. It repeats: when the time that
/// has run reaches the duration, it finishes and starts over with what is
/// left past the duration.
#[derive(Debug, Clone, Copy, Default, PartialEq, Eq, Structural)]
pub struct LdtkFrameTimer {
    /// How long the frame lasts.
    pub duration_nanos: u64,
    /// How much of it has run.
    pub elapsed_nanos: u64,
}

/// The time that has run after `delta` more nanoseconds, saturating at the
/// largest `u64`.
pub open spec fn elapsed_after(timer: LdtkFrameTimer, delta_nanos: u64) -> u64 {
    if timer.elapsed_nanos + delta_nanos > u64::MAX {
        u64::MAX
    } else {
        (timer.elapsed_nanos + delta_nanos) as u64
    }
}

/// Whether a tick of `delta` nanoseconds finishes the timer: the time that
/// has run reaches the duration.
pub open spec fn tick_finishes(timer: LdtkFrameTimer, delta_nanos: u64) -> bool {
    elapsed_after(timer, delta_nanos) >= timer.duration_nanos
}

/// The timer after a tick of `delta` nanoseconds: when it finishes, the time
/// past a whole number of durations (nothing for a zero duration); else the
/// time that has run.
pub open spec fn ticked(timer: LdtkFrameTimer, delta_nanos: u64) -> LdtkFrameTimer {
    let run = elapsed_after(timer, delta_nanos);
    LdtkFrameTimer {
        duration_nanos: timer.duration_nanos,
        elapsed_nanos: if !tick_finishes(timer, delta_nanos) {
            run
        } else if timer.duration_nanos == 0 {
            0
        } else {
            (run % timer.duration_nanos) as u64
        },
    }
}

/// A timer of `duration_nanos` with nothing run.
pub open spec fn fresh_timer(duration_nanos: u64) -> LdtkFrameTimer {
    LdtkFrameTimer { duration_nanos, elapsed_nanos: 0 }
}

impl LdtkFrameTimer {
    /// A timer of `duration_nanos` with nothing run.
    pub fn new(duration_nanos: u64) -> (r: Self)
        ensures
            r == fresh_timer(duration_nanos),
    {
        LdtkFrameTimer { duration_nanos, elapsed_nanos: 0 }
    }

    /// Lets `delta_nanos` nanoseconds run; returns whether the timer finished
    /// (see [`tick_finishes`] and [`ticked`]).
    pub fn tick(&mut self, delta_nanos: u64) -> (r: bool)
        ensures
            r == tick_finishes(*old(self), delta_nanos),
            *final(self) == ticked(*old(self), delta_nanos),
    {
        let run = self.elapsed_nanos.saturating_add(delta_nanos);
        let finished = run >= self.duration_nanos;
        self.elapsed_nanos = if !finished {
            run
        } else if self.duration_nanos == 0 {
            0
        } else {
            run % self.duration_nanos
        };
        finished
    }
}

/// Time accumulates on a timer: a tick that leaves the total run below the
/// duration adds the tick to what has run and does not finish; a tick that
/// brings the total to the duration or past it finishes.
pub proof fn law_timer_accumulates(timer: LdtkFrameTimer, delta_nanos: u64)
    ensures
        timer.elapsed_nanos + delta_nanos < timer.duration_nanos ==> !tick_finishes(timer, delta_nanos)
            && ticked(timer, delta_nanos) == (LdtkFrameTimer {
            duration_nanos: timer.duration_nanos,
            elapsed_nanos: (timer.elapsed_nanos + delta_nanos) as u64,
        }),
        timer.elapsed_nanos + delta_nanos >= timer.duration_nanos ==> tick_finishes(timer, delta_nanos),
{
}

/// The sum of a sequence of ticks.
pub open spec fn ticks_total(ticks: Seq<u64>) -> int
    decreases ticks.len(),
{
    if ticks.len() == 0 {
        0
    } else {
        ticks_total(ticks.drop_last()) + ticks.last()
    }
}

/// A timer after a sequence of ticks, and whether any of them finished it.
pub open spec fn run_ticks(timer: LdtkFrameTimer, ticks: Seq<u64>) -> (LdtkFrameTimer, bool)
    decreases ticks.len(),
{
    if ticks.len() == 0 {
        (timer, false)
    } else {
        let (before, finished) = run_ticks(timer, ticks.drop_last());
        (ticked(before, ticks.last()), finished || tick_finishes(before, ticks.last()))
    }
}

proof fn lemma_ticks_total_nonnegative(ticks: Seq<u64>)
    ensures
        ticks_total(ticks) >= 0,
        ticks.len() > 0 ==> ticks_total(ticks) >= ticks_total(ticks.drop_last()),
    decreases ticks.len(),
{
    if ticks.len() > 0 {
        lemma_ticks_total_nonnegative(ticks.drop_last());
    }
}

/// From a fresh timer, ticks whose total stays below the duration never
/// finish it and leave exactly their total run; the next tick finishes it
/// exactly when it brings the total to the duration.
pub proof fn law_ticks_finish_when_total_reaches_duration(duration_nanos: u64, ticks: Seq<u64>, next: u64)
    requires
        ticks_total(ticks) < duration_nanos,
    ensures
        run_ticks(fresh_timer(duration_nanos), ticks) == (LdtkFrameTimer {
            duration_nanos,
            elapsed_nanos: ticks_total(ticks) as u64,
        }, false),
        tick_finishes(run_ticks(fresh_timer(duration_nanos), ticks).0, next) <==> ticks_total(ticks) + next
            >= duration_nanos,
    decreases ticks.len(),
{
    lemma_ticks_total_nonnegative(ticks);
    if ticks.len() > 0 {
        lemma_ticks_total_nonnegative(ticks.drop_last());
        law_ticks_finish_when_total_reaches_duration(duration_nanos, ticks.drop_last(), ticks.last());
    }
}

/// Drives frame advancement for an animated tile: the animation, the current
/// frame index, and a repeating timer set to the current frame's duration.
#[derive(Debug, Clone)]
pub struct LdtkTileAnimator {
    /// The animation definition being played.
    pub animation: LdtkTileAnimation,
    /// Zero-based index of the frame that is currently displayed.
    pub frame_index: usize,
    /// Timer set to the current frame's duration.
    pub timer: LdtkFrameTimer,
}

/// A frame duration raised to at least [`MIN_FRAME_NANOS`].
pub open spec fn clamped_nanos(nanos: u64) -> u64 {
    if nanos < MIN_FRAME_NANOS {
        MIN_FRAME_NANOS
    } else {
        nanos
    }
}

/// The frame that follows `index` in an animation of `len` frames: the next
/// one, or the first after the last.
pub open spec fn next_frame_index(index: usize, len: nat) -> usize {
    if index + 1 >= len {
        0
    } else {
        (index + 1) as usize
    }
}

/// A non-repeating animation that shows its last frame (or has none) is
/// finished.
pub open spec fn animation_finished(animation: LdtkTileAnimation, frame_index: usize) -> bool {
    !animation.repeat && frame_index + 1 >= animation.frames@.len()
}

/// The duration a new animator's timer gets: the first frame's, or
/// [`DEFAULT_FRAME_NANOS`] without frames, at least [`MIN_FRAME_NANOS`].
pub open spec fn first_frame_nanos(animation: LdtkTileAnimation) -> u64 {
    if animation.frames@.len() > 0 {
        clamped_nanos(animation.frames@[0].duration_nanos)
    } else {
        clamped_nanos(DEFAULT_FRAME_NANOS)
    }
}

/// `animator` after moving to the frame that follows its current one: that
/// frame's index, and a fresh timer of that frame's duration (at least
/// [`MIN_FRAME_NANOS`]).
pub open spec fn stepped(animator: LdtkTileAnimator) -> LdtkTileAnimator {
    let next = next_frame_index(animator.frame_index, animator.animation.frames@.len());
    LdtkTileAnimator {
        animation: animator.animation,
        frame_index: next,
        timer: fresh_timer(clamped_nanos(animator.animation.frames@[next as int].duration_nanos)),
    }
}

/// What [`LdtkTileAnimator::advance`] does to `animator` for a tick of
/// `delta_nanos`: nothing for an animation without frames or a finished one;
/// else the timer ticks, and when it finishes the animator moves to the next
/// frame (see [`stepped`]) and reports that frame's tile id.
pub open spec fn advanced(animator: LdtkTileAnimator, delta_nanos: u64) -> (LdtkTileAnimator, Option<i32>) {
    if animator.animation.frames@.len() == 0 || animation_finished(animator.animation, animator.frame_index) {
        (animator, None)
    } else if tick_finishes(animator.timer, delta_nanos) {
        let next = stepped(animator);
        (next, Some(animator.animation.frames@[next.frame_index as int].tile_id))
    } else {
        (LdtkTileAnimator { timer: ticked(animator.timer, delta_nanos), ..animator }, None)
    }
}

fn clamp_nanos(nanos: u64) -> (r: u64)
    ensures
        r == clamped_nanos(nanos),
{
    if nanos < MIN_FRAME_NANOS {
        MIN_FRAME_NANOS
    } else {
        nanos
    }
}

impl LdtkTileAnimator {
    /// Creates an animator for `animation` at its first frame, with a fresh
    /// timer of the first frame's duration (or [`DEFAULT_FRAME_NANOS`] when
    /// there is none), at least [`MIN_FRAME_NANOS`].
    pub fn new(animation: LdtkTileAnimation) -> (r: Self)
        ensures
            r.animation == animation,
            r.frame_index == 0,
            r.timer == fresh_timer(first_frame_nanos(animation)),
    {
        let nanos = if animation.frames.len() > 0 {
            animation.frames[0].duration_nanos
        } else {
            DEFAULT_FRAME_NANOS
        };
        let timer = LdtkFrameTimer::new(clamp_nanos(nanos));
        LdtkTileAnimator { animation, frame_index: 0, timer }
    }

    /// Returns `true` once a non-repeating animation has reached its last frame.
    pub fn is_finished(&self) -> (r: bool)
        ensures
            r == animation_finished(self.animation, self.frame_index),
    {
        !self.animation.repeat && (self.animation.frames.len() == 0 || self.frame_index
            >= self.animation.frames.len() - 1)
    }

    /// Moves to the next frame when `just_finished` reports that the current
    /// frame's time ran out: returns the new frame's tile id and restarts the
    /// timer with that frame's duration (see [`stepped`]); otherwise changes
    /// nothing and returns `None`.
    pub fn step_frame(&mut self, just_finished: bool) -> (r: Option<i32>)
        requires
            old(self).animation.frames@.len() > 0,
        ensures
            !just_finished ==> r is None && *final(self) == *old(self),
            just_finished ==> *final(self) == stepped(*old(self)),
            just_finished ==> r == Some(
                old(self).animation.frames@[final(self).frame_index as int].tile_id,
            ),
    {
        if !just_finished {
            return None;
        }
        let len = self.animation.frames.len();
        let next = if self.frame_index >= len - 1 {
            0
        } else {
            self.frame_index + 1
        };
        self.frame_index = next;
        let frame = self.animation.frames[next];
        self.timer = LdtkFrameTimer::new(clamp_nanos(frame.duration_nanos));
        Some(frame.tile_id)
    }

    /// Advances the animation by `delta_nanos` nanoseconds (see
    /// [`advanced`]). Returns the tile id of the new frame when the frame
    /// changed this tick, otherwise `None`. At most one frame is stepped per
    /// call, however long the tick.
    ///
    /// An animation without frames, and a finished non-repeating animation,
    /// return `None` and are left untouched: the timer does not run.
    pub fn advance(&mut self, delta_nanos: u64) -> (r: Option<i32>)
        ensures
            (*final(self), r) == advanced(*old(self), delta_nanos),
            old(self).frame_index < old(self).animation.frames@.len()
                ==> final(self).frame_index < final(self).animation.frames@.len(),
            !old(self).animation.repeat ==> final(self).frame_index >= old(self).frame_index,
    {
        if self.animation.frames.len() == 0 || self.is_finished() {
            return None;
        }
        let just_finished = self.timer.tick(delta_nanos);
        if !just_finished {
            return None;
        }
        self.step_frame(true)
    }
}

/// On an animation that has frames and is not finished, a tick that keeps
/// the frame's total run below its duration adds to the timer and changes
/// nothing else; a tick that brings it to the duration steps the frame.
pub proof fn law_animator_accumulates_time(animator: LdtkTileAnimator, delta_nanos: u64)
    requires
        animator.animation.frames@.len() > 0,
        !animation_finished(animator.animation, animator.frame_index),
    ensures
        animator.timer.elapsed_nanos + delta_nanos < animator.timer.duration_nanos ==> advanced(animator, delta_nanos) == (
        LdtkTileAnimator {
            timer: LdtkFrameTimer {
                duration_nanos: animator.timer.duration_nanos,
                elapsed_nanos: (animator.timer.elapsed_nanos + delta_nanos) as u64,
            },
            ..animator
        }, None::<i32>),
        animator.timer.elapsed_nanos + delta_nanos >= animator.timer.duration_nanos ==> advanced(animator, delta_nanos).1 is Some,
{
    law_timer_accumulates(animator.timer, delta_nanos);
}

/// A frame is shown for its whole duration: from a fresh timer, ticks that
/// add up to less than the duration do not finish it, and the tick that
/// brings the total to the duration does.
pub proof fn law_frame_lasts_its_duration(duration_nanos: u64, first: u64, second: u64)
    requires
        first < duration_nanos,
        first + second <= u64::MAX,
    ensures
        !tick_finishes(fresh_timer(duration_nanos), first),
        ticked(fresh_timer(duration_nanos), first).elapsed_nanos == first,
        tick_finishes(ticked(fresh_timer(duration_nanos), first), second) <==> first + second >= duration_nanos,
{
}

/// A frame as written in tile custom data: a tile id and, when one follows
/// `@`, the text of its duration in seconds.
#[derive(Debug, Clone)]
pub struct LdtkFrameSyntax {
    /// Index of the tile in the tileset.
    pub tile_id: i32,
    /// The text after `@`, trimmed, if the frame has one.
    pub duration: Option<String>,
}

/// A directive that sets the duration of every frame without its own.
#[derive(Debug, Clone)]
pub enum LdtkTimingDirective {
    /// `fps=<n>`: frames per second, as text.
    Fps(String),
    /// `duration=<seconds>`: seconds per frame, as text.
    Seconds(String),
}

/// The tile custom-data animation convention, read up to its numbers in
/// seconds: the frames with their tile ids, the timing directives in the
/// order they appear, and whether the animation repeats.
#[derive(Debug, Clone)]
pub struct LdtkTileAnimationSyntax {
    /// The frames, in order.
    pub frames: Vec<LdtkFrameSyntax>,
    /// The `fps=` and `duration=` directives, in order; the last one whose
    /// number reads wins.
    pub timing: Vec<LdtkTimingDirective>,
    /// `false` when a `repeat=` directive says `false`, `0` or `no`.
    pub repeat: bool,
}

/// What a frame holds: its tile id and the text of its duration.
pub type FrameView = (i32, Option<Seq<char>>);

/// What a timing directive holds: whether it gives frames per second (else
/// seconds), and its text.
pub type TimingView = (bool, Seq<char>);

/// The state while reading the `;`-separated parts: whether the animation
/// repeats, the text that lists the frames, and the timing directives.
pub type ScanView = (bool, Seq<char>, Seq<TimingView>);

impl LdtkFrameSyntax {
    /// What the frame holds.
    pub open spec fn view_of(self) -> FrameView {
        (self.tile_id, match self.duration {
            Some(text) => Some(text@),
            None => None,
        })
    }
}

impl LdtkTimingDirective {
    /// What the directive holds.
    pub open spec fn view_of(self) -> TimingView {
        match self {
            LdtkTimingDirective::Fps(text) => (true, text@),
            LdtkTimingDirective::Seconds(text) => (false, text@),
        }
    }
}

/// What a list of frames holds.
pub open spec fn frames_view(frames: Seq<LdtkFrameSyntax>) -> Seq<FrameView> {
    frames.map_values(|f: LdtkFrameSyntax| f.view_of())
}

/// What a list of timing directives holds.
pub open spec fn timing_view(timing: Seq<LdtkTimingDirective>) -> Seq<TimingView> {
    timing.map_values(|d: LdtkTimingDirective| d.view_of())
}

/// A `repeat=` value turns repetition off when, trimmed, it is `false`, `0`
/// or `no`.
pub open spec fn repeat_value(value: Seq<char>) -> bool {
    !(trim(value) == "false"@ || trim(value) == "0"@ || trim(value) == "no"@)
}

/// The reading state after one more part: an `fps=` or `duration=` part adds
/// a timing directive, a `repeat=` part sets repetition, and a part that
/// mentions `anim` or `frame` becomes the frame list.
pub open spec fn scan_part(state: ScanView, part: Seq<char>) -> ScanView {
    let t = trim(part);
    match strip_prefix(t, "fps="@) {
        Some(value) => (state.0, state.1, state.2.push((true, trim(value)))),
        None => match strip_prefix(t, "duration="@) {
            Some(value) => (state.0, state.1, state.2.push((false, trim(value)))),
            None => match strip_prefix(t, "repeat="@) {
                Some(value) => (repeat_value(value), state.1, state.2),
                None => if contains_text(t, "anim"@) || contains_text(t, "frame"@) {
                    (state.0, t, state.2)
                } else {
                    state
                },
            },
        },
    }
}

/// A `repeat=` directive whose value, trimmed, is `false`, `0` or `no` turns
/// repetition off, and any other value turns it on; the frame list and the
/// timing directives stay as they were.
pub proof fn law_repeat_directive(state: ScanView, part: Seq<char>, value: Seq<char>)
    requires
        trim(part) == "repeat="@ + value,
    ensures
        scan_part(state, part).0 == !(trim(value) == "false"@ || trim(value) == "0"@ || trim(value) == "no"@),
        scan_part(state, part).1 == state.1,
        scan_part(state, part).2 == state.2,
{
    reveal_strlit("repeat=");
    reveal_strlit("fps=");
    reveal_strlit("duration=");
    let t = trim(part);
    assert(t[0] == 'r');
    assert(strip_prefix(t, "fps="@) is None) by {
        assert(t.take(4)[0] != "fps="@[0]);
    }
    assert(strip_prefix(t, "duration="@) is None) by {
        if t.len() >= 9 {
            assert(t.take(9)[0] != "duration="@[0]);
        }
    }
    assert(t.take(7) == "repeat="@);
    assert(t.skip(7) == value);
}

/// The reading state after all of `parts`, from `initial`.
pub open spec fn scan_parts(parts: Seq<Seq<char>>, initial: ScanView) -> ScanView
    decreases parts.len(),
{
    if parts.len() == 0 {
        initial
    } else {
        scan_part(scan_parts(parts.drop_last(), initial), parts.last())
    }
}

/// The frame list without its key: what follows the first `=`, else the
/// first `:`, else all of it.
pub open spec fn frame_list(text: Seq<char>) -> Seq<char> {
    match split_once(text, '=') {
        Some((_, value)) => value,
        None => match split_once(text, ':') {
            Some((_, value)) => value,
            None => text,
        },
    }
}

/// The frame a `,`-separated entry stands for, if any: `<id>` or
/// `<id>@<seconds>` with a readable id.
pub open spec fn frame_entry(entry: Seq<char>) -> Seq<FrameView> {
    let t = trim(entry);
    if t.len() == 0 {
        Seq::empty()
    } else {
        match split_once(t, '@') {
            Some((tile, seconds)) => match parse_i32(trim(tile)) {
                Some(id) => seq![(id, Some(trim(seconds)))],
                None => Seq::empty(),
            },
            None => match parse_i32(t) {
                Some(id) => seq![(id, None)],
                None => Seq::empty(),
            },
        }
    }
}

/// The frames that a list of entries stands for, in order.
pub open spec fn frame_entries(entries: Seq<Seq<char>>) -> Seq<FrameView>
    decreases entries.len(),
{
    if entries.len() == 0 {
        Seq::empty()
    } else {
        frame_entries(entries.drop_last()) + frame_entry(entries.last())
    }
}

/// `str::to_lowercase` of a string, as a function of its characters.
pub uninterp spec fn lowercase(s: Seq<char>) -> Seq<char>;

/// `str::to_lowercase`: the Unicode lower-case form of `s`.
#[verifier::external_body]
fn to_lowercase(s: &str) -> (r: String)
    ensures
        r@ == lowercase(s@),
{
    s.to_lowercase()
}

/// What the animation syntax reads from the trimmed custom data `normalized`,
/// given `lowered`, the lower-case form of `normalized`: nothing when the
/// data is empty, when `lowered` mentions neither `anim` nor `frame`, or when
/// no frame reads; else the frames, the timing directives and the
/// repetition.
pub open spec fn animation_syntax(normalized: Seq<char>, lowered: Seq<char>) -> Option<(Seq<FrameView>, Seq<TimingView>, bool)> {
    if normalized.len() == 0 || !(contains_text(lowered, "anim"@) || contains_text(lowered, "frame"@)) {
        None
    } else {
        let state = scan_parts(split(normalized, ';'), (true, normalized, Seq::empty()));
        let frames = frame_entries(split(frame_list(state.1), ','));
        if frames.len() == 0 {
            None
        } else {
            Some((frames, state.2, state.0))
        }
    }
}

proof fn lemma_split_nonempty(s: Seq<char>, c: char)
    ensures
        split(s, c).len() > 0,
    decreases s.len(),
{
    if s.len() > 0 {
        lemma_split_nonempty(s.drop_last(), c);
    }
}

/// When custom data that reads as an animation ends with a `repeat=`
/// directive whose value is `false`, `0` or `no`, the animation holds its
/// last frame instead of repeating.
pub proof fn law_trailing_repeat_off_holds_last_frame(normalized: Seq<char>, lowered: Seq<char>, value: Seq<char>)
    requires
        animation_syntax(normalized, lowered) is Some,
        trim(split(normalized, ';').last()) == "repeat="@ + value,
        trim(value) == "false"@ || trim(value) == "0"@ || trim(value) == "no"@,
    ensures
        (animation_syntax(normalized, lowered)->0).2 == false,
{
    let parts = split(normalized, ';');
    lemma_split_nonempty(normalized, ';');
    let initial: ScanView = (true, normalized, Seq::empty());
    law_repeat_directive(scan_parts(parts.drop_last(), initial), parts.last(), value);
}

/// The result of reading the syntax matches what [`animation_syntax`] says.
pub open spec fn syntax_matches(
    r: Option<LdtkTileAnimationSyntax>,
    expected: Option<(Seq<FrameView>, Seq<TimingView>, bool)>,
) -> bool {
    match expected {
        Some((frames, timing, repeat)) => r matches Some(syntax) && frames_view(syntax.frames@) == frames
            && timing_view(syntax.timing@) == timing && syntax.repeat == repeat,
        None => r is None,
    }
}

fn literal(s: &str) -> (r: Vec<char>)
    ensures
        r@ == s@,
{
    chars_of(s)
}

fn is_repeat_off(value: &Vec<char>) -> (r: bool)
    ensures
        r == !repeat_value(value@),
{
    let t = trim_chars(value);
    let f = literal("false");
    let z = literal("0");
    let n = literal("no");
    chars_eq(&t, &f) || chars_eq(&t, &z) || chars_eq(&t, &n)
}

/// Reads one `,`-separated entry of the frame list.
fn read_frame_entry(entry: &Vec<char>) -> (r: Option<LdtkFrameSyntax>)
    ensures
        match r {
            Some(frame) => frame_entry(entry@) == seq![frame.view_of()],
            None => frame_entry(entry@) == Seq::<FrameView>::empty(),
        },
{
    let t = trim_chars(entry);
    if t.len() == 0 {
        return None;
    }
    match split_once_chars(&t, '@') {
        Some((tile, seconds)) => {
            let tile_t = trim_chars(&tile);
            match parse_i32_chars(&tile_t) {
                Some(id) => {
                    let seconds_t = trim_chars(&seconds);
                    Some(LdtkFrameSyntax { tile_id: id, duration: Some(string_of_chars(&seconds_t)) })
                },
                None => None,
            }
        },
        None => match parse_i32_chars(&t) {
            Some(id) => Some(LdtkFrameSyntax { tile_id: id, duration: None }),
            None => None,
        },
    }
}

/// Reads the animation syntax of trimmed custom data, given its lower-case
/// form; see [`animation_syntax`].
#[verifier::rlimit(40)]
pub fn animation_syntax_of(normalized: &Vec<char>, lowered: &Vec<char>) -> (r: Option<LdtkTileAnimationSyntax>)
    ensures
        syntax_matches(r, animation_syntax(normalized@, lowered@)),
{
    if normalized.len() == 0 {
        return None;
    }
    let anim = literal("anim");
    let frame = literal("frame");
    if !(contains_chars(lowered, &anim) || contains_chars(lowered, &frame)) {
        return None;
    }
    let fps_key = literal("fps=");
    let duration_key = literal("duration=");
    let repeat_key = literal("repeat=");
    let parts = split_chars(normalized, ';');
    let ghost parts_view = split(normalized@, ';');
    let ghost initial: ScanView = (true, normalized@, Seq::empty());
    let mut repeat = true;
    let mut frame_text: Vec<char> = normalized.clone();
    let mut timing: Vec<LdtkTimingDirective> = Vec::new();
    let mut i: usize = 0;
    assert(parts_view.take(0) == Seq::<Seq<char>>::empty());
    assert(timing_view(timing@) == Seq::<TimingView>::empty());
    while i < parts.len()
        invariant
            i <= parts@.len() == parts_view.len(),
            forall|k: int| 0 <= k < parts@.len() ==> #[trigger] parts@[k]@ == parts_view[k],
            anim@ == "anim"@,
            frame@ == "frame"@,
            fps_key@ == "fps="@,
            duration_key@ == "duration="@,
            repeat_key@ == "repeat="@,
            scan_parts(parts_view.take(i as int), initial) == (repeat, frame_text@, timing_view(timing@)),
        decreases parts@.len() - i,
    {
        proof {
            assert(parts_view.take(i + 1).drop_last() == parts_view.take(i as int));
            assert(parts_view.take(i + 1).last() == parts@[i as int]@);
        }
        let t = trim_chars(&parts[i]);
        match strip_prefix_chars(&t, &fps_key) {
            Some(value) => {
                let v = trim_chars(&value);
                let d = LdtkTimingDirective::Fps(string_of_chars(&v));
                timing.push(d);
            },
            None => match strip_prefix_chars(&t, &duration_key) {
                Some(value) => {
                    let v = trim_chars(&value);
                    let d = LdtkTimingDirective::Seconds(string_of_chars(&v));
                    timing.push(d);
                },
                None => match strip_prefix_chars(&t, &repeat_key) {
                    Some(value) => {
                        repeat = !is_repeat_off(&value);
                    },
                    None => {
                        if contains_chars(&t, &anim) || contains_chars(&t, &frame) {
                            frame_text = t;
                        }
                    },
                },
            },
        }
        proof {
            assert(timing_view(timing@) =~= scan_parts(parts_view.take(i + 1), initial).2);
        }
        i = i + 1;
    }
    proof {
        assert(parts_view.take(parts_view.len() as int) == parts_view);
    }
    let list = match split_once_chars(&frame_text, '=') {
        Some((_, value)) => value,
        None => match split_once_chars(&frame_text, ':') {
            Some((_, value)) => value,
            None => frame_text,
        },
    };
    let entries = split_chars(&list, ',');
    let ghost entries_view = split(list@, ',');
    let mut frames: Vec<LdtkFrameSyntax> = Vec::new();
    let mut j: usize = 0;
    assert(frames_view(frames@) =~= frame_entries(entries_view.take(0)));
    while j < entries.len()
        invariant
            j <= entries@.len() == entries_view.len(),
            forall|k: int| 0 <= k < entries@.len() ==> #[trigger] entries@[k]@ == entries_view[k],
            frames_view(frames@) == frame_entries(entries_view.take(j as int)),
        decreases entries@.len() - j,
    {
        proof {
            assert(entries_view.take(j + 1).drop_last() == entries_view.take(j as int));
            assert(entries_view.take(j + 1).last() == entries@[j as int]@);
        }
        match read_frame_entry(&entries[j]) {
            Some(f) => {
                frames.push(f);
                proof {
                    assert(frames_view(frames@) =~= frame_entries(entries_view.take(j + 1)));
                }
            },
            None => {
                proof {
                    assert(frames_view(frames@) =~= frame_entries(entries_view.take(j + 1)));
                }
            },
        }
        j = j + 1;
    }
    proof {
        assert(entries_view.take(entries_view.len() as int) == entries_view);
    }
    if frames.len() == 0 {
        return None;
    }
    Some(LdtkTileAnimationSyntax { frames, timing, repeat })
}

/// Reads the tile custom-data animation convention (parts separated by `;`):
/// `anim=<ids>` or `frames=<ids>` with comma-separated tile ids, each
/// optionally `<id>@<seconds>`; `fps=<n>` or `duration=<seconds>`; and
/// `repeat=false|0|no` to hold the last frame. `None` when the data does not
/// describe an animation. See [`animation_syntax`].
pub fn parse_tile_animation_syntax(data: &str) -> (r: Option<LdtkTileAnimationSyntax>)
    ensures
        syntax_matches(r, animation_syntax(trim(data@), lowercase(trim(data@)))),
{
    let chars = chars_of(data);
    let normalized = trim_chars(&chars);
    let text = string_of_chars(&normalized);
    let lowered_text = to_lowercase(text.as_str());
    let lowered = chars_of(lowered_text.as_str());
    animation_syntax_of(&normalized, &lowered)
}

} // verus!
