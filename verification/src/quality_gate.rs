//! The integer side of the video quality gate: the named checks, the optional
//! vision-language verdict, whether a probe found a real video stream, the
//! per-pair pixel change of sampled frames, and the overall verdict (every
//! check must pass).

use vstd::prelude::*;

use crate::text::{owned, str_eq};

verus! {

/// One named check of a quality report.
#[derive(Debug, Clone)]
pub struct QualityCheck {
    /// `duration`, `slideshow_risk` or `vlm_match`.
    pub name: &'static str,
    /// Whether this check succeeded.
    pub passed: bool,
    /// The measured value against its threshold, or why it could not be
    /// evaluated.
    pub detail: String,
}

/// The check folding in a caller's vision-language verdict.
pub fn vlm_check(ok: bool) -> (r: QualityCheck)
    ensures
        r.name@ == "vlm_match"@,
        r.passed == ok,
        r.detail@ == (if ok {
            "VLM judged frames consistent with the script"@
        } else {
            "VLM judged frames inconsistent with the script"@
        }),
{
    QualityCheck {
        name: "vlm_match",
        passed: ok,
        detail: if ok {
            owned("VLM judged frames consistent with the script")
        } else {
            owned("VLM judged frames inconsistent with the script")
        },
    }
}

/// The overall outcome: true only when all of the checks succeeded.
pub fn all_passed(checks: &[QualityCheck]) -> (r: bool)
    ensures
        r == forall|i: int| 0 <= i < checks@.len() ==> (#[trigger] checks@[i]).passed,
{
    let mut i: usize = 0;
    while i < checks.len()
        invariant
            i <= checks@.len(),
            forall|j: int| 0 <= j < i ==> (#[trigger] checks@[j]).passed,
        decreases checks.len() - i,
    {
        if !checks[i].passed {
            return false;
        }
        i = i + 1;
    }
    true
}

/// A stream as a probe reports it: its codec type (if given), width and
/// height (zero when missing).
pub struct StreamInfo {
    pub codec_type: Option<String>,
    pub width: u64,
    pub height: u64,
}

/// Whether a stream is a video stream with a non-zero resolution.
pub open spec fn is_video_stream(s: StreamInfo) -> bool {
    (match s.codec_type {
        Some(c) => c@ == "video"@,
        None => false,
    }) && s.width > 0 && s.height > 0
}

/// Whether any probed stream is a video stream with a non-zero resolution.
pub fn has_video_stream(streams: &[StreamInfo]) -> (r: bool)
    ensures
        r == exists|i: int| 0 <= i < streams@.len() && is_video_stream(#[trigger] streams@[i]),
{
    let mut i: usize = 0;
    while i < streams.len()
        invariant
            i <= streams@.len(),
            forall|j: int| 0 <= j < i ==> !is_video_stream(#[trigger] streams@[j]),
        decreases streams.len() - i,
    {
        let s = &streams[i];
        let video = match &s.codec_type {
            Some(c) => str_eq(c.as_str(), "video"),
            None => false,
        };
        if video && s.width > 0 && s.height > 0 {
            assert(is_video_stream(streams@[i as int]));
            return true;
        }
        i = i + 1;
    }
    false
}

/// The distance between two pixel values.
pub open spec fn pixel_gap(a: u8, b: u8) -> int {
    if a >= b {
        a - b
    } else {
        b - a
    }
}

/// The summed pixel change between the `len` pixels at `a` and at `b`.
pub open spec fn span_change(raw: Seq<u8>, a: int, b: int, len: int) -> int
    decreases len,
{
    if len <= 0 {
        0
    } else {
        span_change(raw, a, b, len - 1) + pixel_gap(raw[a + len - 1], raw[b + len - 1])
    }
}

proof fn lemma_span_change_bounded(raw: Seq<u8>, a: int, b: int, len: int)
    ensures
        0 <= span_change(raw, a, b, len) <= 255 * (if len > 0 { len } else { 0 }),
    decreases len,
{
    if len > 0 {
        lemma_span_change_bounded(raw, a, b, len - 1);
    }
}

/// The summed pixel change between each two consecutive whole frames of
/// `frame_pixels` bytes in `raw` (a trailing partial frame is ignored);
/// `None` when frames are empty or fewer than two are whole.
pub open spec fn motion_sums_of(raw: Seq<u8>, frame_pixels: int) -> Option<Seq<int>> {
    if frame_pixels <= 0 || (raw.len() as int) / frame_pixels < 2 {
        None
    } else {
        Some(
            Seq::new(
                ((raw.len() as int) / frame_pixels - 1) as nat,
                |k: int| span_change(raw, k * frame_pixels, (k + 1) * frame_pixels, frame_pixels),
            ),
        )
    }
}

/// The summed pixel change between consecutive sampled frames (see
/// [`motion_sums_of`]).
pub fn frame_motion_sums(raw: &[u8], frame_pixels: usize) -> (r: Option<Vec<u64>>)
    requires
        frame_pixels * 255 <= u64::MAX,
    ensures
        match motion_sums_of(raw@, frame_pixels as int) {
            None => r is None,
            Some(sums) => (r matches Some(v) && v@.len() == sums.len() && forall|k: int|
                0 <= k < sums.len() ==> #[trigger] v@[k] == sums[k]),
        },
{
    if frame_pixels == 0 {
        return None;
    }
    let frames = raw.len() / frame_pixels;
    if frames < 2 {
        return None;
    }
    let n = raw.len();
    let mut sums: Vec<u64> = Vec::new();
    let mut k: usize = 0;
    while k + 1 < frames
        invariant
            n == raw@.len(),
            frame_pixels > 0,
            frame_pixels * 255 <= u64::MAX,
            frames == (raw@.len() as int) / (frame_pixels as int),
            frames >= 2,
            k + 1 <= frames,
            sums@.len() == k,
            forall|i: int|
                0 <= i < k ==> #[trigger] sums@[i] == span_change(
                    raw@,
                    i * frame_pixels,
                    (i + 1) * frame_pixels,
                    frame_pixels as int,
                ),
        decreases frames - k,
    {
        proof {
            assert((k + 2) * frame_pixels <= frames * frame_pixels) by (nonlinear_arith)
                requires
                    k + 2 <= frames,
                    frame_pixels > 0,
            ;
            assert(frames * frame_pixels <= raw@.len()) by (nonlinear_arith)
                requires
                    frames == (raw@.len() as int) / (frame_pixels as int),
                    frame_pixels > 0,
            ;
            assert((k + 1) * frame_pixels == k * frame_pixels + frame_pixels) by (nonlinear_arith);
            assert((k + 2) * frame_pixels == (k + 1) * frame_pixels + frame_pixels) by (nonlinear_arith);
        }
        let a = k * frame_pixels;
        let b = a + frame_pixels;
        let mut total: u64 = 0;
        let mut j: usize = 0;
        while j < frame_pixels
            invariant
                frame_pixels * 255 <= u64::MAX,
                b + frame_pixels <= raw@.len(),
                a + frame_pixels == b,
                j <= frame_pixels,
                total == span_change(raw@, a as int, b as int, j as int),
            decreases frame_pixels - j,
        {
            proof {
                lemma_span_change_bounded(raw@, a as int, b as int, j as int);
                assert(255 * j + 255 <= frame_pixels * 255) by (nonlinear_arith)
                    requires
                        j < frame_pixels,
                ;
            }
            let x = raw[a + j];
            let y = raw[b + j];
            let gap: u64 = if x >= y {
                (x - y) as u64
            } else {
                (y - x) as u64
            };
            total = total + gap;
            j = j + 1;
        }
        sums.push(total);
        k = k + 1;
    }
    proof {
        let spec = motion_sums_of(raw@, frame_pixels as int);
        assert(spec matches Some(s) && s.len() == sums@.len());
    }
    Some(sums)
}

} // verus!
