//! The composite run: its parameters, the events it reports, which frames it samples,
//! how far it has progressed, and which detected regions it keeps.
//!
//! The sampling schedule runs on exact integers: the frame rate is the exact value of
//! the double the reader reported, taken from its bit pattern as a fraction, and the
//! interval is in milliseconds. The progress figures that the window shows are
//! single-precision floats, carried here as their IEEE 754 bit patterns.
use vstd::prelude::*;
use crate::float_text::{f64_value, lemma_pow2n_positive, pow2_u128, pow2n, FloatValue};
use crate::paths::{opt_view, parent_of, path_parent};

verus! {

/// The tuning of a composite run.
#[derive(Clone, Copy, Debug, PartialEq, Eq, Structural)]
pub struct CompositeParams {
    /// The time between two sampled frames, in milliseconds.
    pub interval_ms: u32,
    /// The least area, in pixels, of a moving region that is kept.
    pub min_area: u32,
    /// The variance threshold of the background model: the smaller, the more sensitive.
    pub threshold: u32,
    /// The number of frames the background model remembers.
    pub history: i32,
}

/// The parameters that a run has unless they are tuned: those of the standard preset.
pub open spec fn default_params() -> CompositeParams {
    CompositeParams { interval_ms: 250, min_area: 200, threshold: 16, history: 200 }
}

impl Default for CompositeParams {
    fn default() -> (r: Self)
        ensures
            r == default_params(),
    {
        CompositeParams { interval_ms: 250, min_area: 200, threshold: 16, history: 200 }
    }
}

/// What a composite run is asked to do.
#[derive(Clone, Debug)]
pub struct CompositeRequest {
    pub input_path: String,
    pub output_path: String,
    pub params: CompositeParams,
}

/// How far a run has come, as single-precision floats given by their bit patterns.
#[derive(Clone, Copy, Debug, PartialEq, Eq, Structural)]
pub struct Progress {
    /// The percentage done.
    pub percent_bits: u32,
    /// The time of the current frame, in seconds.
    pub current_sec_bits: u32,
    /// The length of the video, in seconds.
    pub total_sec_bits: u32,
}

/// The bit pattern of the single-precision float `100.0`.
pub open spec fn full_percent_bits() -> u32 {
    0x42c8_0000
}

/// Whether a double frame rate is usable: a finite number above one millionth of a
/// frame per second, compared on the bit pattern, whose order is that of the
/// positive values.
pub open spec fn rate_is_usable(fps_bits: u64) -> bool {
    0x3eb0_c6f7_a0b5_ed8d < fps_bits < 0x7ff0_0000_0000_0000
}

/// Whether the double frame rate is usable: finite and above one millionth.
pub fn fps_is_usable(fps_bits: u64) -> (b: bool)
    ensures
        b == rate_is_usable(fps_bits),
{
    0x3eb0_c6f7_a0b5_ed8d < fps_bits && fps_bits < 0x7ff0_0000_0000_0000
}

/// What a run reports to the window.
#[derive(Debug)]
pub enum CompositeEvent {
    Progress(Progress),
    Done(String),
    Error(String),
    Cancelled,
}

/// A reported event, with its texts as character sequences.
pub enum EventView {
    Progress(Progress),
    Done(Seq<char>),
    Error(Seq<char>),
    Cancelled,
}

impl View for CompositeEvent {
    type V = EventView;

    open spec fn view(&self) -> EventView {
        match self {
            CompositeEvent::Progress(p) => EventView::Progress(*p),
            CompositeEvent::Done(path) => EventView::Done(path@),
            CompositeEvent::Error(m) => EventView::Error(m@),
            CompositeEvent::Cancelled => EventView::Cancelled,
        }
    }
}

/// A request, with its paths as character sequences.
pub struct RequestView {
    pub input_path: Seq<char>,
    pub output_path: Seq<char>,
    pub params: CompositeParams,
}

impl View for CompositeRequest {
    type V = RequestView;

    open spec fn view(&self) -> RequestView {
        RequestView {
            input_path: self.input_path@,
            output_path: self.output_path@,
            params: self.params,
        }
    }
}

/// The numerator of a double frame rate taken as an exact fraction of frames per
/// second: the rate is exactly `rate_num(fps_bits) / rate_den(fps_bits)`.
pub open spec fn rate_num(fps_bits: u64) -> nat {
    match f64_value(fps_bits) {
        FloatValue::Finite { mantissa, exponent, .. } => if exponent >= 0 {
            mantissa * pow2n(exponent as nat)
        } else {
            mantissa
        },
        _ => 0,
    }
}

/// The denominator of a double frame rate taken as an exact fraction.
pub open spec fn rate_den(fps_bits: u64) -> nat {
    match f64_value(fps_bits) {
        FloatValue::Finite { exponent, .. } => if exponent >= 0 {
            1
        } else {
            pow2n((-exponent) as nat)
        },
        _ => 1,
    }
}

/// The number of whole sampling intervals that have passed at frame `frame` of a
/// video of `rate_num / rate_den` frames per second: the frame's time is
/// `frame * rate_den / rate_num` seconds, and an interval lasts `interval_ms / 1000`.
pub open spec fn intervals_elapsed(
    frame: nat,
    rate_num: nat,
    rate_den: nat,
    interval_ms: nat,
) -> nat {
    (frame * 1000 * rate_den) / (rate_num * interval_ms)
}

/// A frame is sampled when a sampling instant (a positive multiple of the interval)
/// was reached since the frame before it. The first frame serves as the background
/// and is never sampled.
pub open spec fn is_sample_frame(frame: nat, rate_num: nat, rate_den: nat, interval_ms: nat) -> bool {
    frame >= 1 && intervals_elapsed(frame, rate_num, rate_den, interval_ms) > intervals_elapsed(
        (frame - 1) as nat,
        rate_num,
        rate_den,
        interval_ms,
    )
}

/// Whether frame `frame` is sampled, on the exact value of the double frame rate
/// whose bit pattern is `fps_bits`.
pub open spec fn is_sampled(frame: nat, fps_bits: u64, interval_ms: nat) -> bool {
    is_sample_frame(frame, rate_num(fps_bits), rate_den(fps_bits), interval_ms)
}

/// A run of the sampling loop over the frames of one video.
pub struct CompositeRun {
    pub params: CompositeParams,
    /// The frame rate: the bit pattern of the double that the reader reported.
    pub fps_bits: u64,
    pub total_frames: u32,
    /// The index of the next frame to be read.
    pub frame_idx: u32,
    /// The index of the next sampling instant.
    pub next_instant: u128,
}

/// What the loop does with one frame.
#[derive(Clone, Copy, Debug, PartialEq, Eq, Structural)]
pub struct FrameStep {
    /// The index of the frame, of which the progress is reported before it is processed.
    pub frame: u32,
    /// Whether the frame's moving regions are composited.
    pub sample: bool,
    /// Whether the frames that the video announced are all done, so that full progress
    /// is reported after this frame.
    pub completed: bool,
}

impl CompositeRun {
    /// The run is consistent: its rate is usable, its interval positive, and the next
    /// sampling instant is the first one after the last frame read.
    pub open spec fn wf(&self) -> bool {
        &&& rate_is_usable(self.fps_bits)
        &&& self.params.interval_ms > 0
        &&& self.total_frames > 0
        &&& self.total_frames <= 0x7fff_ffff
        &&& self.frame_idx <= 0x7fff_ffff
        &&& self.next_instant == if self.frame_idx == 0 {
            1
        } else {
            intervals_elapsed(
                (self.frame_idx - 1) as nat,
                rate_num(self.fps_bits),
                rate_den(self.fps_bits),
                self.params.interval_ms as nat,
            ) + 1
        }
    }

    /// Starts a run over a video of the given frame rate (the bit pattern of the double
    /// the reader reported) and frame count. A rate or a count that could not be read,
    /// and then an interval of zero, is refused with the message the window shows.
    pub fn begin(params: CompositeParams, fps_bits: u64, total_frames: i32) -> (r: Result<
        CompositeRun,
        String,
    >)
        ensures
            !rate_is_usable(fps_bits) ==> (r matches Err(m) && m@ == "FPSを取得できません"@),
            rate_is_usable(fps_bits) && total_frames <= 0 ==> (r matches Err(m) && m@
                == "総フレーム数を取得できません"@),
            rate_is_usable(fps_bits) && total_frames > 0 && params.interval_ms == 0 ==> (r matches Err(
                m,
            ) && m@ == "間隔は0.05〜1.0秒の範囲で指定してください"@),
            rate_is_usable(fps_bits) && total_frames > 0 && params.interval_ms > 0 ==> (r matches Ok(
                run,
            ) && run.wf() && run.params == params && run.fps_bits == fps_bits
                && run.total_frames == total_frames && run.frame_idx == 0),
    {
        if !fps_is_usable(fps_bits) {
            return Err(String::from_str("FPSを取得できません"));
        }
        if total_frames <= 0 {
            return Err(String::from_str("総フレーム数を取得できません"));
        }
        if params.interval_ms == 0 {
            return Err(String::from_str("間隔は0.05〜1.0秒の範囲で指定してください"));
        }
        Ok(CompositeRun {
            params,
            fps_bits,
            total_frames: total_frames as u32,
            frame_idx: 0,
            next_instant: 1,
        })
    }

    /// Decides what the loop does with the next frame read, and moves past it.
    pub fn next_frame(&mut self) -> (step: FrameStep)
        requires
            old(self).wf(),
            old(self).frame_idx < 0x7fff_ffff,
        ensures
            final(self).wf(),
            final(self).params == old(self).params,
            final(self).fps_bits == old(self).fps_bits,
            final(self).total_frames == old(self).total_frames,
            final(self).frame_idx == old(self).frame_idx + 1,
            step.frame == old(self).frame_idx,
            step.sample == is_sampled(
                old(self).frame_idx as nat,
                old(self).fps_bits,
                old(self).params.interval_ms as nat,
            ),
            step.sample <==> exists|k: int|
                instant_between(
                    k,
                    old(self).frame_idx as nat,
                    old(self).fps_bits,
                    old(self).params.interval_ms as nat,
                ),
            step.completed == (final(self).frame_idx >= final(self).total_frames),
    {
        proof {
            lemma_sample_frames_meet_instants(
                self.frame_idx as nat,
                self.fps_bits,
                self.params.interval_ms as nat,
            );
        }
        let i = self.frame_idx;
        let elapsed = elapsed_at(i, self.fps_bits, self.params.interval_ms);
        proof {
            lemma_usable_rate(self.fps_bits);
            lemma_elapsed_monotone(
                i as nat,
                rate_num(self.fps_bits),
                rate_den(self.fps_bits),
                self.params.interval_ms as nat,
            );
        }
        let sample = elapsed >= self.next_instant;
        if sample {
            self.next_instant = elapsed + 1;
        }
        self.frame_idx = i + 1;
        let completed = self.frame_idx >= self.total_frames;
        FrameStep { frame: i, sample, completed }
    }
}

/// A usable rate is a positive normal double, so its fraction has a positive
/// numerator and denominator.
proof fn lemma_usable_rate(fps_bits: u64)
    requires
        rate_is_usable(fps_bits),
    ensures
        rate_num(fps_bits) >= 1,
        rate_den(fps_bits) >= 1,
{
    let ef = (fps_bits / 0x10_0000_0000_0000) % 2048;
    assert(1003 <= ef <= 2046);
    if ef >= 1075 {
        lemma_pow2n_positive((ef - 1075) as nat);
        let m = (fps_bits % 0x10_0000_0000_0000 + 0x10_0000_0000_0000) as nat;
        let p = pow2n((ef - 1075) as nat);
        assert(m * p >= 1) by (nonlinear_arith)
            requires
                m >= 1,
                p >= 1,
        ;
    } else {
        lemma_pow2n_positive((1075 - ef) as nat);
    }
}

/// The number of whole intervals at frame `i` never falls as `i` grows.
proof fn lemma_elapsed_monotone(i: nat, rate_num: nat, rate_den: nat, interval_ms: nat)
    requires
        rate_num > 0,
        rate_den > 0,
        interval_ms > 0,
    ensures
        i > 0 ==> intervals_elapsed((i - 1) as nat, rate_num, rate_den, interval_ms)
            <= intervals_elapsed(i, rate_num, rate_den, interval_ms),
        intervals_elapsed(0, rate_num, rate_den, interval_ms) == 0,
{
    let d = rate_num * interval_ms;
    assert(d >= 1) by (nonlinear_arith)
        requires
            rate_num > 0,
            interval_ms > 0,
            d == rate_num * interval_ms,
    ;
    assert(0 * 1000 * rate_den == 0) by (nonlinear_arith);
    vstd::arithmetic::div_mod::lemma_basic_div(0, d as int);
    if i > 0 {
        assert(((i - 1) as nat) * 1000 * rate_den <= i * 1000 * rate_den) by (nonlinear_arith)
            requires
                i > 0,
                rate_den > 0,
        ;
        vstd::arithmetic::div_mod::lemma_div_is_ordered(
            (((i - 1) as nat) * 1000 * rate_den) as int,
            (i * 1000 * rate_den) as int,
            d as int,
        );
    }
}

/// The number of whole intervals at frame `i`, computed exactly on the double rate.
fn elapsed_at(i: u32, fps_bits: u64, interval_ms: u32) -> (q: u128)
    requires
        rate_is_usable(fps_bits),
        interval_ms > 0,
        i <= 0x7fff_ffff,
    ensures
        q == intervals_elapsed(
            i as nat,
            rate_num(fps_bits),
            rate_den(fps_bits),
            interval_ms as nat,
        ),
        q < 0x10_0000_0000_0000_0000_0000_0000_0000,
{
    let ef: u64 = (fps_bits / 0x10_0000_0000_0000) % 2048;
    let m: u64 = fps_bits % 0x10_0000_0000_0000 + 0x10_0000_0000_0000;
    assert(1003 <= ef <= 2046);
    assert(f64_value(fps_bits) == FloatValue::Finite {
        negative: false,
        mantissa: m as nat,
        exponent: ef - 1075,
    });
    if ef >= 1075 {
        proof {
            let p = pow2n((ef - 1075) as nat);
            lemma_pow2n_positive((ef - 1075) as nat);
            let num = rate_num(fps_bits);
            assert(num == m * p);
            let n = (i as nat) * 1000 * rate_den(fps_bits);
            let d = num * (interval_ms as nat);
            assert(n < d) by (nonlinear_arith)
                requires
                    n == (i as nat) * 1000 * 1,
                    i <= 0x7fff_ffff,
                    num == m * p,
                    m >= 0x10_0000_0000_0000,
                    p >= 1,
                    interval_ms >= 1,
                    d == num * (interval_ms as nat),
            ;
            vstd::arithmetic::div_mod::lemma_basic_div(n as int, d as int);
        }
        return 0;
    }
    let s: u64 = 1075 - ef;
    let den: u128 = pow2_u128(s);
    assert(rate_den(fps_bits) == den);
    assert((i as u128) * 1000 <= 0x7fff_ffff * 1000);
    let scaled: u128 = (i as u128) * 1000;
    assert(scaled * den <= 0x7fff_ffff * 1000 * 0x100_0000_0000_0000_0000) by (nonlinear_arith)
        requires
            scaled <= 0x7fff_ffff * 1000,
            den <= 0x100_0000_0000_0000_0000,
    ;
    let n: u128 = scaled * den;
    assert((m as u128) * (interval_ms as u128) >= 1) by (nonlinear_arith)
        requires
            m >= 1,
            interval_ms >= 1,
    ;
    assert((m as u128) * (interval_ms as u128) <= 0x20_0000_0000_0000 * 0xffff_ffff)
        by (nonlinear_arith)
        requires
            m < 0x20_0000_0000_0000,
            interval_ms <= 0xffff_ffff,
    ;
    let d: u128 = (m as u128) * (interval_ms as u128);
    proof {
        vstd::arithmetic::div_mod::lemma_div_is_ordered_by_denominator(n as int, 1, d as int);
    }
    n / d
}

/// A sampling instant: the `k`-th multiple of the interval, reached after the frame
/// before `frame` and no later than `frame`, on the exact value of the double frame
/// rate. Times are compared exactly, scaled by `rate_num * interval_ms / 1000`.
pub open spec fn instant_between(k: int, frame: nat, fps_bits: u64, interval_ms: nat) -> bool {
    let num = rate_num(fps_bits);
    let den = rate_den(fps_bits);
    &&& k >= 1
    &&& (frame - 1) * 1000 * den < k * (num * interval_ms)
    &&& k * (num * interval_ms) <= frame * 1000 * den
}

/// The arithmetic of the sampling law, for any rate given as a positive fraction.
proof fn lemma_instants_of_fraction(frame: nat, num: nat, den: nat, interval_ms: nat, k: int)
    requires
        num > 0,
        den > 0,
        interval_ms > 0,
    ensures
        is_sample_frame(frame, num, den, interval_ms) ==> ({
            let kk = intervals_elapsed(frame, num, den, interval_ms) as int;
            &&& kk >= 1
            &&& (frame - 1) * 1000 * den < kk * (num * interval_ms)
            &&& kk * (num * interval_ms) <= frame * 1000 * den
        }),
        (k >= 1 && (frame - 1) * 1000 * den < k * (num * interval_ms) && k * (num * interval_ms)
            <= frame * 1000 * den) ==> is_sample_frame(frame, num, den, interval_ms),
{
    let d = num * interval_ms;
    assert(d >= 1) by (nonlinear_arith)
        requires
            num > 0,
            interval_ms > 0,
            d == num * interval_ms,
    ;
    if frame >= 1 {
        let a: int = (frame * 1000 * den) as int;
        let b: int = (((frame - 1) as nat) * 1000 * den) as int;
        assert(b == (frame - 1) * 1000 * den);
        let qa = a / (d as int);
        let qb = b / (d as int);
        vstd::arithmetic::div_mod::lemma_fundamental_div_mod(a, d as int);
        vstd::arithmetic::div_mod::lemma_fundamental_div_mod(b, d as int);
        assert(0 <= a % (d as int) < d);
        assert(0 <= b % (d as int) < d);
        assert(b >= 0) by (nonlinear_arith)
            requires
                b == ((frame - 1) as nat) * 1000 * den,
        ;
        if is_sample_frame(frame, num, den, interval_ms) {
            assert(qa > qb);
            assert(qb >= 0) by (nonlinear_arith)
                requires
                    b >= 0,
                    d >= 1,
                    qb == b / (d as int),
            ;
            assert(qa * d <= a) by (nonlinear_arith)
                requires
                    a == d * qa + a % (d as int),
                    a % (d as int) >= 0,
            ;
            assert(qa * d > b) by (nonlinear_arith)
                requires
                    b == d * qb + b % (d as int),
                    b % (d as int) < d,
                    qa >= qb + 1,
                    d >= 1,
            ;
        }
        if k >= 1 && b < k * d && k * d <= a {
            assert(k <= qa) by (nonlinear_arith)
                requires
                    k * d <= a,
                    a == d * qa + a % (d as int),
                    a % (d as int) < d,
                    d >= 1,
            ;
            assert(qb < k) by (nonlinear_arith)
                requires
                    b < k * d,
                    b == d * qb + b % (d as int),
                    b % (d as int) >= 0,
                    d >= 1,
            ;
        }
    } else {
        if k >= 1 {
            assert(k * d >= 1) by (nonlinear_arith)
                requires
                    k >= 1,
                    d >= 1,
            ;
            assert(frame * 1000 * den == 0) by (nonlinear_arith)
                requires
                    frame == 0,
            ;
        }
    }
}

/// A frame is sampled exactly when a sampling instant, a positive multiple of the
/// interval, falls after the frame before it and no later than the frame itself, on
/// the exact value of the video's double frame rate.
pub proof fn lemma_sample_frames_meet_instants(frame: nat, fps_bits: u64, interval_ms: nat)
    requires
        rate_is_usable(fps_bits),
        interval_ms > 0,
    ensures
        is_sampled(frame, fps_bits, interval_ms) <==> exists|k: int|
            instant_between(k, frame, fps_bits, interval_ms),
{
    lemma_usable_rate(fps_bits);
    let num = rate_num(fps_bits);
    let den = rate_den(fps_bits);
    if is_sampled(frame, fps_bits, interval_ms) {
        lemma_instants_of_fraction(frame, num, den, interval_ms, 0);
        let kk = intervals_elapsed(frame, num, den, interval_ms) as int;
        assert(instant_between(kk, frame, fps_bits, interval_ms));
    }
    if exists|k: int| instant_between(k, frame, fps_bits, interval_ms) {
        let k = choose|k: int| instant_between(k, frame, fps_bits, interval_ms);
        lemma_instants_of_fraction(frame, num, den, interval_ms, k);
    }
}

/// The first frame is the background of the composite: it is never sampled, whatever
/// the rate and the interval.
pub proof fn lemma_first_frame_is_background(fps_bits: u64, interval_ms: nat)
    ensures
        !is_sampled(0, fps_bits, interval_ms),
{
}

/// Where a run stands in its exchange with the window.
#[derive(Clone, Copy, Debug, PartialEq, Eq, Structural)]
pub enum RunStage {
    /// Frames are being read and composited.
    Reading,
    /// The frames are done and the composite is being written.
    Writing,
    /// The run has sent its final event; nothing more happens.
    Ended,
}

/// What the loop of a run reports to its protocol.
pub enum RunInput {
    /// A frame is about to be read; whether the run was asked to stop.
    BeforeFrame(bool),
    /// Whether a frame was read, and whether the run was asked to stop by then.
    AfterRead(bool, bool),
    /// The composite was written to the output.
    Written,
    /// A step failed, with this message.
    Failed(String),
}

/// A report of the loop, with its message as a character sequence.
pub enum RunInputView {
    BeforeFrame(bool),
    AfterRead(bool, bool),
    Written,
    Failed(Seq<char>),
}

impl View for RunInput {
    type V = RunInputView;

    open spec fn view(&self) -> RunInputView {
        match self {
            RunInput::BeforeFrame(c) => RunInputView::BeforeFrame(*c),
            RunInput::AfterRead(got, c) => RunInputView::AfterRead(*got, *c),
            RunInput::Written => RunInputView::Written,
            RunInput::Failed(m) => RunInputView::Failed(m@),
        }
    }
}

/// What the loop of a run does next.
pub enum RunAction {
    /// Read the next frame.
    ReadFrame,
    /// Process the frame just read.
    ProcessFrame,
    /// Write the composite to the output.
    Write,
    /// Send this final event to the window; the run is over.
    Finish(CompositeEvent),
    /// Nothing: the report came when it had no bearing.
    Idle,
}

/// An action, with the final event by its view.
pub enum ActionView {
    ReadFrame,
    ProcessFrame,
    Write,
    Finish(EventView),
    Idle,
}

impl View for RunAction {
    type V = ActionView;

    open spec fn view(&self) -> ActionView {
        match self {
            RunAction::ReadFrame => ActionView::ReadFrame,
            RunAction::ProcessFrame => ActionView::ProcessFrame,
            RunAction::Write => ActionView::Write,
            RunAction::Finish(ev) => ActionView::Finish(ev@),
            RunAction::Idle => ActionView::Idle,
        }
    }
}

/// One step of a run's protocol: from its stage and a report of the loop, the next
/// stage and what to do. A run asked to stop ends cancelled before it reads again, or
/// when the frames run out; once the frames are done it writes, and it is done when
/// the composite is written; a failure ends it with the failure's message.
pub open spec fn run_step(stage: RunStage, output: Seq<char>, input: RunInputView) -> (
    RunStage,
    ActionView,
) {
    match stage {
        RunStage::Ended => (RunStage::Ended, ActionView::Idle),
        RunStage::Reading => match input {
            RunInputView::BeforeFrame(cancelled) => if cancelled {
                (RunStage::Ended, ActionView::Finish(EventView::Cancelled))
            } else {
                (RunStage::Reading, ActionView::ReadFrame)
            },
            RunInputView::AfterRead(got, cancelled) => if got {
                (RunStage::Reading, ActionView::ProcessFrame)
            } else if cancelled {
                (RunStage::Ended, ActionView::Finish(EventView::Cancelled))
            } else {
                (RunStage::Writing, ActionView::Write)
            },
            RunInputView::Written => (RunStage::Reading, ActionView::Idle),
            RunInputView::Failed(m) => (RunStage::Ended, ActionView::Finish(EventView::Error(m))),
        },
        RunStage::Writing => match input {
            RunInputView::Written => (RunStage::Ended, ActionView::Finish(EventView::Done(output))),
            RunInputView::Failed(m) => (RunStage::Ended, ActionView::Finish(EventView::Error(m))),
            _ => (RunStage::Writing, ActionView::Idle),
        },
    }
}

/// The actions of a run that gets the given reports in turn, from the given stage.
pub open spec fn run_actions(stage: RunStage, output: Seq<char>, inputs: Seq<RunInputView>) -> Seq<
    ActionView,
>
    decreases inputs.len(),
{
    if inputs.len() == 0 {
        Seq::empty()
    } else {
        let (next, a) = run_step(stage, output, inputs[0]);
        seq![a] + run_actions(next, output, inputs.drop_first())
    }
}

/// The exchange of one run with the window.
pub struct RunProtocol {
    pub stage: RunStage,
    /// Where the composite is written, and what the final event reports when it is.
    pub output_path: String,
}

impl RunProtocol {
    /// A run that is about to read its frames.
    pub fn new(output_path: String) -> (p: RunProtocol)
        ensures
            p.stage == RunStage::Reading,
            p.output_path@ == output_path@,
    {
        RunProtocol { stage: RunStage::Reading, output_path }
    }

    /// Takes in a report of the loop, and says what to do next.
    pub fn step(&mut self, input: RunInput) -> (a: RunAction)
        ensures
            (final(self).stage, a@) == run_step(old(self).stage, old(self).output_path@, input@),
            final(self).output_path@ == old(self).output_path@,
    {
        match self.stage {
            RunStage::Ended => RunAction::Idle,
            RunStage::Reading => match input {
                RunInput::BeforeFrame(cancelled) => {
                    if cancelled {
                        self.stage = RunStage::Ended;
                        RunAction::Finish(CompositeEvent::Cancelled)
                    } else {
                        RunAction::ReadFrame
                    }
                },
                RunInput::AfterRead(got, cancelled) => {
                    if got {
                        RunAction::ProcessFrame
                    } else if cancelled {
                        self.stage = RunStage::Ended;
                        RunAction::Finish(CompositeEvent::Cancelled)
                    } else {
                        self.stage = RunStage::Writing;
                        RunAction::Write
                    }
                },
                RunInput::Written => RunAction::Idle,
                RunInput::Failed(m) => {
                    self.stage = RunStage::Ended;
                    RunAction::Finish(CompositeEvent::Error(m))
                },
            },
            RunStage::Writing => match input {
                RunInput::Written => {
                    self.stage = RunStage::Ended;
                    RunAction::Finish(CompositeEvent::Done(self.output_path.clone()))
                },
                RunInput::Failed(m) => {
                    self.stage = RunStage::Ended;
                    RunAction::Finish(CompositeEvent::Error(m))
                },
                _ => RunAction::Idle,
            },
        }
    }
}

/// A run takes one action for each report.
proof fn lemma_actions_len(stage: RunStage, output: Seq<char>, inputs: Seq<RunInputView>)
    ensures
        run_actions(stage, output, inputs).len() == inputs.len(),
    decreases inputs.len(),
{
    if inputs.len() > 0 {
        let (next, a) = run_step(stage, output, inputs[0]);
        lemma_actions_len(next, output, inputs.drop_first());
    }
}

/// An ended run does nothing more, whatever it is told.
proof fn lemma_ended_stays_idle(output: Seq<char>, inputs: Seq<RunInputView>)
    ensures
        run_actions(RunStage::Ended, output, inputs).len() == inputs.len(),
        forall|j: int|
            0 <= j < inputs.len() ==> run_actions(RunStage::Ended, output, inputs)[j]
                is Idle,
    decreases inputs.len(),
{
    if inputs.len() > 0 {
        lemma_ended_stays_idle(output, inputs.drop_first());
        let rest = run_actions(RunStage::Ended, output, inputs.drop_first());
        assert forall|j: int| 0 <= j < inputs.len() implies run_actions(
            RunStage::Ended,
            output,
            inputs,
        )[j] is Idle by {
            if j > 0 {
                assert(run_actions(RunStage::Ended, output, inputs)[j] == rest[j - 1]);
            }
        }
    }
}

/// A run sends at most one final event, and does nothing after it: every action that
/// follows a final event is idle.
pub proof fn lemma_final_event_is_last(
    stage: RunStage,
    output: Seq<char>,
    inputs: Seq<RunInputView>,
    i: int,
    j: int,
)
    requires
        0 <= i < j < inputs.len(),
        run_actions(stage, output, inputs)[i] is Finish,
    ensures
        run_actions(stage, output, inputs)[j] is Idle,
    decreases inputs.len(),
{
    let (next, a) = run_step(stage, output, inputs[0]);
    let rest = run_actions(next, output, inputs.drop_first());
    lemma_actions_len(next, output, inputs.drop_first());
    assert(run_actions(stage, output, inputs) == seq![a] + rest);
    if i == 0 {
        assert(next == RunStage::Ended);
        lemma_ended_stays_idle(output, inputs.drop_first());
        assert(run_actions(stage, output, inputs)[j] == rest[j - 1]);
    } else {
        assert(run_actions(stage, output, inputs)[i] == rest[i - 1]);
        assert(run_actions(stage, output, inputs)[j] == rest[j - 1]);
        lemma_final_event_is_last(next, output, inputs.drop_first(), i - 1, j - 1);
    }
}

/// A run that starts by reading is done only after it was told to write, and then
/// reports the output it was given; it writes only when its frames ran out and it was
/// not asked to stop.
pub proof fn lemma_done_only_after_write(
    output: Seq<char>,
    inputs: Seq<RunInputView>,
    i: int,
)
    requires
        0 <= i < inputs.len(),
    ensures
        run_actions(RunStage::Reading, output, inputs)[i] is Finish && run_actions(
            RunStage::Reading,
            output,
            inputs,
        )[i]->Finish_0 is Done ==> run_actions(RunStage::Reading, output, inputs)[i]
            == ActionView::Finish(EventView::Done(output)) && exists|k: int|
            0 <= k < i && run_actions(RunStage::Reading, output, inputs)[k] is Write,
        run_actions(RunStage::Reading, output, inputs)[i] is Write ==> inputs[i]
            == RunInputView::AfterRead(false, false),
{
    lemma_actions_from(RunStage::Reading, output, inputs, i);
}

/// What a run's actions show from any stage: a final `Done` comes from a run that
/// was writing or was told to write earlier, and a write comes when the frames ran out
/// unstopped.
proof fn lemma_actions_from(stage: RunStage, output: Seq<char>, inputs: Seq<RunInputView>, i: int)
    requires
        0 <= i < inputs.len(),
    ensures
        run_actions(stage, output, inputs)[i] is Finish && run_actions(
            stage,
            output,
            inputs,
        )[i]->Finish_0 is Done ==> run_actions(stage, output, inputs)[i]
            == ActionView::Finish(EventView::Done(output)) && (stage == RunStage::Writing
            || exists|k: int| 0 <= k < i && run_actions(stage, output, inputs)[k] is Write),
        run_actions(stage, output, inputs)[i] is Write ==> inputs[i] == RunInputView::AfterRead(
            false,
            false,
        ),
    decreases inputs.len(),
{
    let (next, a) = run_step(stage, output, inputs[0]);
    let rest = run_actions(next, output, inputs.drop_first());
    lemma_actions_len(next, output, inputs.drop_first());
    assert(run_actions(stage, output, inputs) == seq![a] + rest);
    if i > 0 {
        lemma_actions_from(next, output, inputs.drop_first(), i - 1);
        assert(run_actions(stage, output, inputs)[i] == rest[i - 1]);
        assert(inputs[i] == inputs.drop_first()[i - 1]);
        if rest[i - 1] is Finish && rest[i - 1]->Finish_0 is Done {
            if next == RunStage::Writing && stage != RunStage::Writing {
                assert(a is Write);
                assert(run_actions(stage, output, inputs)[0] is Write);
            } else if next != RunStage::Writing {
                let k = choose|k: int| 0 <= k < i - 1 && rest[k] is Write;
                assert(run_actions(stage, output, inputs)[k + 1] == rest[k]);
            }
        }
    }
}

/// Which detected regions a sampled frame keeps.
pub struct ContourSelection {
    /// For each region, whether it is kept.
    pub keep: Vec<bool>,
    /// Whether any region is kept, so that the frame changes the composite.
    pub any: bool,
}

/// Keeps the regions whose area reaches the least area. Areas are given doubled,
/// so that the half-pixel areas of polygons with whole-pixel corners are exact.
pub fn select_contours(doubled_areas: &Vec<u64>, min_area: u32) -> (sel: ContourSelection)
    ensures
        sel.keep@.len() == doubled_areas@.len(),
        forall|k: int|
            0 <= k < doubled_areas@.len() ==> sel.keep@[k] == (doubled_areas@[k] >= 2
                * min_area),
        sel.any == exists|k: int|
            0 <= k < doubled_areas@.len() && doubled_areas@[k] >= 2 * min_area,
{
    let mut keep: Vec<bool> = Vec::new();
    let mut any = false;
    let bound: u64 = 2 * (min_area as u64);
    let mut k: usize = 0;
    while k < doubled_areas.len()
        invariant
            k <= doubled_areas@.len(),
            bound == 2 * min_area,
            keep@.len() == k,
            forall|j: int| 0 <= j < k ==> keep@[j] == (doubled_areas@[j] >= 2 * min_area),
            any == exists|j: int| 0 <= j < k && doubled_areas@[j] >= 2 * min_area,
        decreases doubled_areas@.len() - k,
    {
        let kept = doubled_areas[k] >= bound;
        keep.push(kept);
        if kept {
            any = true;
        }
        k = k + 1;
    }
    ContourSelection { keep, any }
}

/// The folder that must exist before the composite is written: the output's parent,
/// unless that is empty or absent.
pub fn output_dir_to_prepare(output_path: &str) -> (d: Option<String>)
    ensures
        opt_view(d) == match path_parent(output_path@) {
            Some(p) => if p.len() > 0 {
                Some(p)
            } else {
                None
            },
            None => None,
        },
{
    match parent_of(output_path) {
        Some(p) => {
            if p.as_str().unicode_len() > 0 {
                Some(p)
            } else {
                None
            }
        },
        None => None,
    }
}

} // verus!
