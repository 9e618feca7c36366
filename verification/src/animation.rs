//! Frames and animations.
//!
//! A frame is one still image, kept as its lines from top to bottom. An
//! animation is a non-empty list of frames shown in turn: every `speed`
//! ticks it moves on to the next frame, and after the last frame comes
//! the first again.

use vstd::arithmetic::div_mod::lemma_add_mod_noop_right;
use vstd::prelude::*;
use vstd::string::StrSliceExecFns;
use crate::error::Error;
use crate::text::{
    lemma_first_occurrence_is, lemma_first_occurrence_none, lemma_split_nonempty, occurs_at, split,
    split_text, views,
};

verus! {

/// What separates the lines of a frame: a single newline.
pub open spec fn line_break() -> Seq<char> {
    seq!['\n']
}

/// What separates the frames of an animation: three newlines in a row,
/// the end of a line followed by two blank lines.
pub open spec fn frame_break() -> Seq<char> {
    seq!['\n', '\n', '\n']
}

/// The lines of a frame's text.
pub open spec fn lines_of(text: Seq<char>) -> Seq<Seq<char>> {
    split(text, line_break())
}

/// The length of the longest of `lines`, counted in characters; 0 where
/// there is no line.
pub open spec fn widest(lines: Seq<Seq<char>>) -> nat
    decreases lines.len(),
{
    if lines.len() == 0 {
        0
    } else if widest(lines.drop_last()) >= lines.last().len() {
        widest(lines.drop_last())
    } else {
        lines.last().len()
    }
}

/// A single still image of an animation.
#[derive(Debug)]
pub struct Frame {
    /// The lines of the image, from top to bottom.
    pub text: Vec<String>,
}

impl View for Frame {
    type V = Seq<Seq<char>>;

    /// The lines of the frame as character sequences.
    open spec fn view(&self) -> Seq<Seq<char>> {
        views(self.text@)
    }
}

impl Frame {
    /// Makes a frame from its text, one line of the image per line of
    /// text. A text without any character is no image and is refused.
    pub fn from_str(text: &str) -> (res: Result<Frame, Error>)
        ensures
            match res {
                Ok(frame) => text@.len() > 0 && frame@ == lines_of(text@),
                Err(error) => text@.len() == 0 && error == Error::EmptyFrame,
            },
    {
        if text.is_empty() {
            return Err(Error::EmptyFrame);
        }
        proof {
            reveal_strlit("\n");
            assert("\n"@ =~= line_break());
        }
        Ok(Frame { text: split_text(text, "\n") })
    }

    /// The width of the frame: the length of its longest line.
    pub fn width(&self) -> (w: usize)
        ensures
            w == widest(self@),
    {
        let mut w: usize = 0;
        let mut i: usize = 0;
        while i < self.text.len()
            invariant
                i <= self.text.len(),
                w == widest(self@.take(i as int)),
            decreases self.text.len() - i,
        {
            let len = self.text[i].as_str().unicode_len();
            proof {
                let upto = self@.take(i + 1);
                assert(upto.drop_last() =~= self@.take(i as int));
            }
            if len > w {
                w = len;
            }
            i += 1;
        }
        assert(self@.take(i as int) =~= self@);
        w
    }

    /// The height of the frame: the number of its lines.
    pub fn height(&self) -> (h: usize)
        ensures
            h == self@.len(),
    {
        self.text.len()
    }
}

/// The width of the widest of `frames`; 0 where there is no frame.
pub open spec fn widest_frame(frames: Seq<Seq<Seq<char>>>) -> nat
    decreases frames.len(),
{
    if frames.len() == 0 {
        0
    } else if widest_frame(frames.drop_last()) >= widest(frames.last()) {
        widest_frame(frames.drop_last())
    } else {
        widest(frames.last())
    }
}

/// The height of the tallest of `frames`; 0 where there is no frame.
pub open spec fn tallest_frame(frames: Seq<Seq<Seq<char>>>) -> nat
    decreases frames.len(),
{
    if frames.len() == 0 {
        0
    } else if tallest_frame(frames.drop_last()) >= frames.last().len() {
        tallest_frame(frames.drop_last())
    } else {
        frames.last().len()
    }
}

/// The texts of the frames that an animation's text holds.
pub open spec fn frame_texts(text: Seq<char>) -> Seq<Seq<char>> {
    split(text, frame_break())
}

/// An animation as a mathematical value.
pub struct AnimationView {
    /// The frames in the order in which they are shown, each as its lines.
    pub frames: Seq<Seq<Seq<char>>>,
    /// The number of ticks for which each frame is shown.
    pub speed: nat,
    /// The index of the frame shown now.
    pub index: nat,
    /// The number of ticks for which that frame has been shown already.
    pub tick: nat,
}

impl AnimationView {
    /// What holds of every animation: it has a frame, each frame has a
    /// line, its speed is positive, and frame index and tick counter are
    /// within their bounds.
    pub open spec fn valid(self) -> bool {
        &&& self.speed >= 1
        &&& self.frames.len() >= 1
        &&& forall|i: int| 0 <= i < self.frames.len() ==> (#[trigger] self.frames[i]).len() >= 1
        &&& self.index < self.frames.len()
        &&& self.tick < self.speed
    }

    /// The animation at its start: first frame, no tick counted yet.
    pub open spec fn fresh(frames: Seq<Seq<Seq<char>>>, speed: nat) -> AnimationView {
        AnimationView { frames, speed, index: 0, tick: 0 }
    }

    /// The animation one tick later.
    pub open spec fn step(self) -> AnimationView {
        if self.tick + 1 == self.speed {
            AnimationView {
                index: (self.index + 1) % self.frames.len(),
                tick: 0,
                ..self
            }
        } else {
            AnimationView { tick: self.tick + 1, ..self }
        }
    }

    /// The animation `n` ticks later.
    pub open spec fn steps(self, n: nat) -> AnimationView
        decreases n,
    {
        if n == 0 {
            self
        } else {
            self.steps((n - 1) as nat).step()
        }
    }

    /// The frame shown now.
    pub open spec fn current(self) -> Seq<Seq<char>> {
        self.frames[self.index as int]
    }

    /// The width of the animation's bounding box.
    pub open spec fn width(self) -> nat {
        widest_frame(self.frames)
    }

    /// The height of the animation's bounding box.
    pub open spec fn height(self) -> nat {
        tallest_frame(self.frames)
    }
}

/// What `Animation::new` makes of a speed and a text: the animation at
/// its start, or the reason why there is none. The speed is looked at
/// first, then the frames one by one, then their number.
pub open spec fn animation_of(speed: usize, text: Seq<char>) -> Result<AnimationView, Error> {
    let texts = frame_texts(text);
    if speed == 0 {
        Err(Error::InvalidAnimationSpeed(speed))
    } else if exists|i: int| 0 <= i < texts.len() && (#[trigger] texts[i]).len() == 0 {
        Err(Error::EmptyFrame)
    } else if texts.len() == 0 {
        Err(Error::EmptyAnimation)
    } else {
        Ok(AnimationView::fresh(texts.map_values(|t: Seq<char>| lines_of(t)), speed as nat))
    }
}

/// A collection of frames that are shown one after the other, in a loop.
#[derive(Debug)]
pub struct Animation {
    frames: Vec<Frame>,
    current_frame_idx: usize,
    speed: usize,
    current_step: usize,
}

impl View for Animation {
    type V = AnimationView;

    closed spec fn view(&self) -> AnimationView {
        AnimationView {
            frames: self.frames@.map_values(|frame: Frame| frame@),
            speed: self.speed as nat,
            index: self.current_frame_idx as nat,
            tick: self.current_step as nat,
        }
    }
}

impl Animation {
    #[verifier::type_invariant]
    spec fn well_formed(self) -> bool {
        self@.valid()
    }

    /// Makes an animation from its text. The frames are separated by two
    /// blank lines.
    ///
    /// * `speed` - the number of ticks for which each frame is shown, so
    ///   lower is faster; it must be positive
    /// * `text` - the frames; none of them may be empty
    pub fn new(speed: usize, text: &str) -> (res: Result<Animation, Error>)
        ensures
            speed == 0 ==> res == Err::<Animation, Error>(Error::InvalidAnimationSpeed(0)),
            res matches Ok(animation) ==> animation@.valid(),
            match res {
                Ok(animation) => animation_of(speed, text@) == Ok::<AnimationView, Error>(
                    animation@,
                ),
                Err(error) => animation_of(speed, text@) == Err::<AnimationView, Error>(error),
            },
    {
        if speed == 0 {
            return Err(Error::InvalidAnimationSpeed(speed));
        }
        proof {
            reveal_strlit("\n\n\n");
            assert("\n\n\n"@ =~= frame_break());
        }
        let blocks = split_text(text, "\n\n\n");
        let ghost texts = frame_texts(text@);
        let mut frames: Vec<Frame> = Vec::new();
        let mut i: usize = 0;
        while i < blocks.len()
            invariant
                speed != 0,
                texts == frame_texts(text@),
                i <= blocks.len(),
                views(blocks@) == texts,
                frames@.len() == i,
                forall|k: int| 0 <= k < i ==> (#[trigger] texts[k]).len() > 0,
                forall|k: int| 0 <= k < i ==> (#[trigger] frames@[k])@ == lines_of(texts[k]),
            decreases blocks.len() - i,
        {
            match Frame::from_str(blocks[i].as_str()) {
                Ok(frame) => {
                    frames.push(frame);
                },
                Err(error) => {
                    assert(texts[i as int].len() == 0);
                    return Err(error);
                },
            }
            i += 1;
        }
        if frames.len() == 0 {
            return Err(Error::EmptyAnimation);
        }
        let animation = Animation { frames, speed, current_frame_idx: 0, current_step: 0 };
        proof {
            assert(animation@.frames =~= texts.map_values(|t: Seq<char>| lines_of(t)));
        }
        Ok(animation)
    }

    /// Advances the animation by one tick. Every `speed` ticks this moves
    /// on to the next frame, the first one following the last.
    pub fn step(&mut self)
        ensures
            final(self)@ == old(self)@.step(),
    {
        proof {
            use_type_invariant(&*self);
        }
        let count = self.frames.len();
        if self.current_step + 1 == self.speed {
            self.current_frame_idx = (self.current_frame_idx + 1) % count;
            self.current_step = 0;
        } else {
            self.current_step = self.current_step + 1;
        }
    }

    /// The frame that is shown now.
    pub fn current_frame(&self) -> (frame: &Frame)
        ensures
            frame@ == self@.current(),
    {
        proof {
            use_type_invariant(self);
        }
        &self.frames[self.current_frame_idx]
    }

    /// The index of the frame that is shown now, counted from 0.
    pub fn current_frame_index(&self) -> (index: usize)
        ensures
            index == self@.index,
    {
        self.current_frame_idx
    }

    /// The number of frames.
    pub fn frame_count(&self) -> (count: usize)
        ensures
            count == self@.frames.len(),
    {
        self.frames.len()
    }

    /// The largest width of any frame of this animation.
    pub fn width(&self) -> (w: usize)
        ensures
            w == self@.width(),
    {
        let mut w: usize = 0;
        let mut i: usize = 0;
        while i < self.frames.len()
            invariant
                i <= self.frames.len(),
                w == widest_frame(self@.frames.take(i as int)),
            decreases self.frames.len() - i,
        {
            let frame_width = self.frames[i].width();
            proof {
                let upto = self@.frames.take(i + 1);
                assert(upto.drop_last() =~= self@.frames.take(i as int));
            }
            if frame_width > w {
                w = frame_width;
            }
            i += 1;
        }
        assert(self@.frames.take(i as int) =~= self@.frames);
        w
    }

    /// The largest height of any frame of this animation.
    pub fn height(&self) -> (h: usize)
        ensures
            h == self@.height(),
    {
        let mut h: usize = 0;
        let mut i: usize = 0;
        while i < self.frames.len()
            invariant
                i <= self.frames.len(),
                h == tallest_frame(self@.frames.take(i as int)),
            decreases self.frames.len() - i,
        {
            let frame_height = self.frames[i].height();
            proof {
                let upto = self@.frames.take(i + 1);
                assert(upto.drop_last() =~= self@.frames.take(i as int));
            }
            if frame_height > h {
                h = frame_height;
            }
            i += 1;
        }
        assert(self@.frames.take(i as int) =~= self@.frames);
        h
    }
}

/// A text never runs out of frames: even the empty text holds one
/// frame, an empty one. So no text makes an animation fail for want of
/// frames; it fails for its empty frame first.
pub proof fn lemma_never_without_frames(speed: usize, text: Seq<char>)
    ensures
        frame_texts(text).len() >= 1,
        animation_of(speed, text) != Err::<AnimationView, Error>(Error::EmptyAnimation),
{
    lemma_split_nonempty(text, frame_break());
}

/// An animation that could be made is valid.
pub proof fn lemma_animation_of_valid(speed: usize, text: Seq<char>)
    ensures
        animation_of(speed, text) matches Ok(animation) ==> animation.valid(),
{
    if animation_of(speed, text) is Ok {
        let texts = frame_texts(text);
        let frames = texts.map_values(|t: Seq<char>| lines_of(t));
        lemma_split_nonempty(text, frame_break());
        assert forall|i: int| 0 <= i < frames.len() implies (#[trigger] frames[i]).len() >= 1 by {
            lemma_split_nonempty(texts[i], line_break());
        }
    }
}

/// A tick keeps a valid animation valid and leaves its frames and its
/// speed as they are.
pub proof fn lemma_step_keeps_valid(a: AnimationView)
    requires
        a.valid(),
    ensures
        a.step().valid(),
        a.step().frames == a.frames,
        a.step().speed == a.speed,
{
}

/// Any number of ticks keeps a valid animation valid and leaves its
/// frames and its speed as they are.
pub proof fn lemma_steps_keep_valid(a: AnimationView, n: nat)
    requires
        a.valid(),
    ensures
        a.steps(n).valid(),
        a.steps(n).frames == a.frames,
        a.steps(n).speed == a.speed,
    decreases n,
{
    if n > 0 {
        lemma_steps_keep_valid(a, (n - 1) as nat);
        lemma_step_keeps_valid(a.steps((n - 1) as nat));
    }
}

/// Ticks add up: `m + n` ticks are `m` ticks followed by `n` ticks.
pub proof fn lemma_steps_add(a: AnimationView, m: nat, n: nat)
    ensures
        a.steps(m + n) == a.steps(m).steps(n),
    decreases n,
{
    if n > 0 {
        lemma_steps_add(a, m, (n - 1) as nat);
    }
}

/// While a frame's time is not over, ticks only count up.
pub proof fn lemma_steps_within_frame(a: AnimationView, n: nat)
    requires
        a.tick + n < a.speed,
    ensures
        a.steps(n) == (AnimationView { tick: a.tick + n, ..a }),
    decreases n,
{
    if n > 0 {
        lemma_steps_within_frame(a, (n - 1) as nat);
    }
}

/// After exactly `speed` ticks, counted from the moment a frame came
/// up, the next frame has just come up; after the last frame that is
/// the first one.
pub proof fn lemma_steps_one_frame(a: AnimationView)
    requires
        a.valid(),
        a.tick == 0,
    ensures
        a.steps(a.speed) == (AnimationView {
            index: (a.index + 1) % a.frames.len(),
            tick: 0,
            ..a
        }),
{
    lemma_steps_within_frame(a, (a.speed - 1) as nat);
}

/// The frame shown after `speed * k` ticks, counted from the moment a
/// frame came up, is the one `k` places further on, going round and
/// round the list of frames.
pub proof fn lemma_steps_whole_frames(a: AnimationView, k: nat)
    requires
        a.valid(),
        a.tick == 0,
    ensures
        a.steps(a.speed * k) == (AnimationView {
            index: (a.index + k) % a.frames.len(),
            tick: 0,
            ..a
        }),
    decreases k,
{
    let count = a.frames.len() as int;
    if k == 0 {
        assert(a.speed * k == 0) by (nonlinear_arith)
            requires
                k == 0,
        ;
        assert(a.index % a.frames.len() == a.index) by (nonlinear_arith)
            requires
                a.index < a.frames.len(),
        ;
    } else {
        let before = (k - 1) as nat;
        lemma_steps_whole_frames(a, before);
        assert(a.speed * k == a.speed * before + a.speed) by (nonlinear_arith)
            requires
                before + 1 == k,
        ;
        lemma_steps_add(a, a.speed * before, a.speed);
        let mid = a.steps(a.speed * before);
        lemma_steps_keep_valid(a, a.speed * before);
        lemma_steps_one_frame(mid);
        lemma_add_mod_noop_right(1, (a.index + before) as int, count);
    }
}

/// An animation at its start shows, after exactly `speed * k` ticks,
/// the frame with index `k` modulo the number of frames.
pub proof fn lemma_frame_index_after_whole_frames(
    frames: Seq<Seq<Seq<char>>>,
    speed: nat,
    k: nat,
)
    requires
        AnimationView::fresh(frames, speed).valid(),
    ensures
        AnimationView::fresh(frames, speed).steps(speed * k).index == k % frames.len(),
{
    lemma_steps_whole_frames(AnimationView::fresh(frames, speed), k);
}

/// The widest line of a frame is as long as the frame is wide, and no
/// line is longer.
pub proof fn lemma_widest_is_maximum(lines: Seq<Seq<char>>)
    ensures
        forall|i: int| 0 <= i < lines.len() ==> (#[trigger] lines[i]).len() <= widest(lines),
        lines.len() > 0 ==> exists|i: int|
            0 <= i < lines.len() && (#[trigger] lines[i]).len() == widest(lines),
    decreases lines.len(),
{
    if lines.len() > 0 {
        let above = lines.drop_last();
        lemma_widest_is_maximum(above);
        assert forall|i: int| 0 <= i < lines.len() implies (#[trigger] lines[i]).len() <= widest(
            lines,
        ) by {
            if i < above.len() {
                assert(above[i] == lines[i]);
            }
        }
        if widest(lines) == lines.last().len() {
            assert(lines[lines.len() - 1].len() == widest(lines));
        } else {
            let i = choose|i: int| 0 <= i < above.len() && (#[trigger] above[i]).len() == widest(above);
            assert(above[i] == lines[i]);
        }
    }
}

/// The bounding box of an animation is as wide as its widest frame and
/// as high as its tallest frame, whichever frame is shown.
pub proof fn lemma_bounding_box_is_maximum(a: AnimationView)
    requires
        a.valid(),
    ensures
        forall|i: int| 0 <= i < a.frames.len() ==> widest(#[trigger] a.frames[i]) <= a.width(),
        forall|i: int| 0 <= i < a.frames.len() ==> (#[trigger] a.frames[i]).len() <= a.height(),
        exists|i: int| 0 <= i < a.frames.len() && widest(#[trigger] a.frames[i]) == a.width(),
        exists|i: int| 0 <= i < a.frames.len() && (#[trigger] a.frames[i]).len() == a.height(),
{
    lemma_frame_maxima(a.frames);
}

/// `widest_frame` and `tallest_frame` are the largest width and the
/// largest height among the frames.
pub proof fn lemma_frame_maxima(frames: Seq<Seq<Seq<char>>>)
    ensures
        forall|i: int| 0 <= i < frames.len() ==> widest(#[trigger] frames[i]) <= widest_frame(frames),
        forall|i: int| 0 <= i < frames.len() ==> (#[trigger] frames[i]).len() <= tallest_frame(frames),
        frames.len() > 0 ==> exists|i: int|
            0 <= i < frames.len() && widest(#[trigger] frames[i]) == widest_frame(frames),
        frames.len() > 0 ==> exists|i: int|
            0 <= i < frames.len() && (#[trigger] frames[i]).len() == tallest_frame(frames),
    decreases frames.len(),
{
    if frames.len() > 0 {
        let before = frames.drop_last();
        lemma_frame_maxima(before);
        assert forall|i: int| 0 <= i < frames.len() implies widest(#[trigger] frames[i])
            <= widest_frame(frames) by {
            if i < before.len() {
                assert(before[i] == frames[i]);
            }
        }
        assert forall|i: int| 0 <= i < frames.len() implies (#[trigger] frames[i]).len()
            <= tallest_frame(frames) by {
            if i < before.len() {
                assert(before[i] == frames[i]);
            }
        }
        if widest_frame(frames) == widest(frames.last()) {
            assert(widest(frames[frames.len() - 1]) == widest_frame(frames));
        } else {
            let i = choose|i: int|
                0 <= i < before.len() && widest(#[trigger] before[i]) == widest_frame(before);
            assert(before[i] == frames[i]);
        }
        if tallest_frame(frames) == frames.last().len() {
            assert(frames[frames.len() - 1].len() == tallest_frame(frames));
        } else {
            let i = choose|i: int|
                0 <= i < before.len() && (#[trigger] before[i]).len() == tallest_frame(before);
            assert(before[i] == frames[i]);
        }
    }
}

/// The bounding box of an animation does not change while it plays.
pub proof fn lemma_steps_keep_bounding_box(a: AnimationView, n: nat)
    requires
        a.valid(),
    ensures
        a.steps(n).width() == a.width(),
        a.steps(n).height() == a.height(),
{
    lemma_steps_keep_valid(a, n);
}

/// Two frames written one after the other with a frame break between
/// them are read back as exactly these two frames, and the frame break
/// is part of neither. This holds of frames that are not empty and do
/// not themselves hold a frame break, where the first does not end in
/// a newline: such a newline would be taken for the start of the frame
/// break.
pub proof fn lemma_two_frames_round_trip(speed: usize, first: Seq<char>, second: Seq<char>)
    requires
        speed > 0,
        first.len() > 0,
        second.len() > 0,
        first.last() != '\n',
        forall|i: int| !occurs_at(first, frame_break(), i),
        forall|i: int| !occurs_at(second, frame_break(), i),
    ensures
        frame_texts(first + frame_break() + second) == seq![first, second],
        animation_of(speed, first + frame_break() + second) == Ok::<AnimationView, Error>(
            AnimationView::fresh(seq![lines_of(first), lines_of(second)], speed as nat),
        ),
{
    let sep = frame_break();
    let text = first + sep + second;
    let at = first.len() as int;
    assert(text.subrange(at, at + 3) =~= sep);
    assert forall|j: int| 0 <= j < at implies !occurs_at(text, sep, j) by {
        if occurs_at(text, sep, j) {
            let hit = text.subrange(j, j + 3);
            if j + 3 <= at {
                assert(first.subrange(j, j + 3) =~= hit);
                assert(occurs_at(first, sep, j));
            } else {
                assert(hit[at - 1 - j] == text[at - 1]);
                assert(sep[at - 1 - j] == '\n');
                assert(text[at - 1] == first.last());
            }
        }
    }
    lemma_first_occurrence_is(text, sep, at);
    lemma_first_occurrence_none(second, sep);
    assert(text.take(at) =~= first);
    assert(text.skip(at + 3) =~= second);
    assert(split(second, sep) =~= seq![second]);
    assert(split(text, sep) =~= seq![first, second]);
    let texts = frame_texts(text);
    assert(texts.map_values(|t: Seq<char>| lines_of(t)) =~= seq![
        lines_of(first),
        lines_of(second),
    ]);
}

} // verus!
