//! # Camera
//!
//! Camera configuration, the frame type, the choice of capture source and
//! the in-place horizontal flip of RGB frames. Opening devices and capturing
//! frames is done by implementations of [`VideoProvider`].

use std::time::Instant;
use vstd::prelude::*;

verus! {

/// Configuration parameters for camera initialization.
#[derive(Debug, Clone)]
pub struct CameraConfig {
    /// Optional camera source string (e.g., "0" or "rtsp://...").
    /// If `None`, the `index` field is used.
    pub source: Option<String>,
    /// USB camera index (0 = first detected camera).
    pub index: u32,
    /// Targeted capture resolution width.
    pub width: u32,
    /// Targeted capture resolution height.
    pub height: u32,
    /// Targeted frames per second.
    pub fps: u32,
    /// Flip frames horizontally (mirror effect) for easier monitoring.
    pub flip_horizontal: bool,
}

impl Default for CameraConfig {
    fn default() -> (c: Self)
        ensures
            c.source is None,
            c.index == 0,
            c.width == 640,
            c.height == 480,
            c.fps == 30,
            !c.flip_horizontal,
    {
        CameraConfig {
            source: None,
            index: 0,
            width: 640,
            height: 480,
            fps: 30,
            flip_horizontal: false,
        }
    }
}

/// A raw RGB frame captured from a camera.
#[derive(Debug)]
pub struct CameraFrame {
    /// Flattened RGB pixel buffer (row-major, 3 bytes per pixel).
    pub rgb: Vec<u8>,
    pub width: u32,
    pub height: u32,
    /// Timestamp when the frame was captured.
    pub captured_at: Instant,
}

/// Errors related to camera access and frame capture.
#[derive(Debug, Clone)]
pub enum CameraError {
    OpenFailed(String),
    CaptureFailed(String),
    BufferSizeMismatch { expected: usize, got: usize },
    /// Stream URLs need the stream backend, which this build does not have.
    RtspDisabled,
}

/// Generic interface for any video source.
pub trait VideoProvider {
    /// Captures a single frame from the source.
    fn capture_frame(&mut self) -> Result<CameraFrame, CameraError>;
}

// ─── Choosing the source ─────────────────────────────────────────────────────

/// `prefix` is a prefix of `s`.
pub open spec fn has_prefix(s: Seq<char>, prefix: Seq<char>) -> bool {
    prefix.len() <= s.len() && s.subrange(0, prefix.len() as int) == prefix
}

/// Calls `str::starts_with` with a string pattern, which holds exactly when
/// `prefix` is a prefix of `s`.
#[verifier::external_body]
fn str_starts_with(s: &str, prefix: &str) -> (b: bool)
    ensures
        b == has_prefix(s@, prefix@),
{
    s.starts_with(prefix)
}

/// A decimal digit character.
pub open spec fn is_decimal_digit(c: char) -> bool {
    '0' <= c && c <= '9'
}

/// The value of a sequence of decimal digits.
pub open spec fn decimal_value(d: Seq<char>) -> int
    decreases d.len(),
{
    if d.len() == 0 {
        0
    } else {
        decimal_value(d.drop_last()) * 10 + (d.last() as int - '0' as int)
    }
}

/// The string without one leading `+`, if it has one.
pub open spec fn without_plus(s: Seq<char>) -> Seq<char> {
    if s.len() > 0 && s[0] == '+' {
        s.drop_first()
    } else {
        s
    }
}

/// Every character is a decimal digit.
pub open spec fn all_decimal_digits(d: Seq<char>) -> bool {
    forall|i: int| 0 <= i < d.len() ==> is_decimal_digit(#[trigger] d[i])
}

/// The `u32` a string denotes in decimal: an optional `+` followed by one or
/// more digits, with a value that fits in a `u32`; anything else is `None`.
pub open spec fn spec_parse_u32(s: Seq<char>) -> Option<u32> {
    let d = without_plus(s);
    if d.len() > 0 && all_decimal_digits(d) && decimal_value(d) <= u32::MAX {
        Some(decimal_value(d) as u32)
    } else {
        None
    }
}

/// Calls `<u32 as FromStr>::from_str` (`str::parse::<u32>`), which accepts
/// exactly an optional `+` followed by decimal digits whose value fits in a
/// `u32`; the error is dropped.
#[verifier::external_body]
fn parse_u32(s: &str) -> (r: Option<u32>)
    ensures
        r == spec_parse_u32(s@),
{
    s.parse::<u32>().ok()
}

/// A source string that names a network stream.
pub open spec fn is_stream_url(s: Seq<char>) -> bool {
    has_prefix(s, "rtsp://"@) || has_prefix(s, "http://"@)
}

/// Only sources starting with `rtsp://` or `http://` are stream URLs: such
/// a source begins with `r` or `h` and is at least seven characters long, so
/// a source of decimal digits (with or without a leading `+`) never is one
/// and always names its USB index.
pub proof fn lemma_stream_url_shape(s: Seq<char>)
    ensures
        is_stream_url(s) ==> s.len() >= 7 && (s[0] == 'r' || s[0] == 'h'),
        s.len() > 0 && (s[0] == '+' || is_decimal_digit(s[0])) ==> !is_stream_url(s),
{
    reveal_strlit("rtsp://");
    reveal_strlit("http://");
    if is_stream_url(s) {
        if has_prefix(s, "rtsp://"@) {
            assert(s[0] == s.subrange(0, 7)[0]);
        } else {
            assert(s[0] == s.subrange(0, 7)[0]);
        }
    }
}

/// Chooses the capture source for a configuration and returns the index of
/// the USB camera to open:
/// - a `source` starting with `rtsp://` or `http://` needs the stream
///   backend, which this build lacks: `Err(RtspDisabled)`;
/// - a numeric `source` is the USB device index;
/// - otherwise the `index` field is used.
pub fn create_camera(config: &CameraConfig) -> (r: Result<u32, CameraError>)
    ensures
        match config.source {
            Some(s) => if is_stream_url(s@) {
                r matches Err(CameraError::RtspDisabled)
            } else {
                match spec_parse_u32(s@) {
                    Some(i) => r == Ok::<u32, CameraError>(i),
                    None => r == Ok::<u32, CameraError>(config.index),
                }
            },
            None => r == Ok::<u32, CameraError>(config.index),
        },
{
    match &config.source {
        Some(s) => {
            let src = s.as_str();
            proof {
                reveal_strlit("rtsp://");
                reveal_strlit("http://");
            }
            if str_starts_with(src, "rtsp://") || str_starts_with(src, "http://") {
                return Err(CameraError::RtspDisabled);
            }
            match parse_u32(src) {
                Some(index) => Ok(index),
                None => Ok(config.index),
            }
        },
        None => Ok(config.index),
    }
}

// ─── Horizontal flip ─────────────────────────────────────────────────────────

/// Position of channel `c` of pixel `x` in a row of RGB bytes starting at
/// `base`.
pub open spec fn px(base: int, x: int, c: int) -> int {
    base + 3 * x + c
}

/// Position of channel `c` of pixel (`x`, `y`) in a row-major RGB buffer of
/// rows `width` pixels wide.
pub open spec fn rgb_index(width: int, y: int, x: int, c: int) -> int {
    (y * width + x) * 3 + c
}

proof fn lemma_rgb_index(width: int, y: int, x: int, c: int)
    ensures
        rgb_index(width, y, x, c) == px(y * (3 * width), x, c),
{
    assert((y * width + x) * 3 == y * (3 * width) + 3 * x) by (nonlinear_arith);
}

proof fn lemma_row_step(width: int, y: int, h: int)
    requires
        0 <= width,
        0 <= y,
    ensures
        y * (3 * width) + 3 * width == (y + 1) * (3 * width),
        y < h ==> (y + 1) * (3 * width) <= h * (3 * width),
        h * (3 * width) == width * h * 3,
        0 <= y * (3 * width),
{
    assert(y * (3 * width) + 3 * width == (y + 1) * (3 * width)) by (nonlinear_arith);
    assert(y < h ==> (y + 1) * (3 * width) <= h * (3 * width)) by (nonlinear_arith)
        requires
            0 <= width,
    ;
    assert(h * (3 * width) == width * h * 3) by (nonlinear_arith);
    assert(0 <= y * (3 * width)) by (nonlinear_arith)
        requires
            0 <= width,
            0 <= y,
    ;
}

proof fn lemma_row_before(width: int, yy: int, y: int)
    requires
        0 <= width,
        0 <= yy < y,
    ensures
        yy * (3 * width) + 3 * width <= y * (3 * width),
{
    assert(yy * (3 * width) + 3 * width == (yy + 1) * (3 * width)) by (nonlinear_arith);
    assert((yy + 1) * (3 * width) <= y * (3 * width)) by (nonlinear_arith)
        requires
            yy + 1 <= y,
            0 <= width,
    ;
}

/// Mirrors the `w` pixels of the row starting at `start`.
fn flip_row(rgb: &mut [u8], start: usize, w: usize)
    requires
        start + 3 * w <= old(rgb)@.len(),
    ensures
        final(rgb)@.len() == old(rgb)@.len(),
        forall|x: int, c: int|
            0 <= x < w && 0 <= c < 3 ==> final(rgb)@[#[trigger] px(start as int, x, c)] == old(rgb)@[px(start as int, w - 1 - x, c)],
        forall|i: int|
            0 <= i < old(rgb)@.len() && (i < start || i >= start + 3 * w) ==> #[trigger] final(rgb)@[i] == old(rgb)@[i],
{
    let ghost s = start as int;
    let ghost o = rgb@;
    let n = rgb.len();
    let half = w / 2;
    let mut x: usize = 0;
    while x < half
        invariant
            half == w / 2,
            x <= half,
            s == start,
            n == o.len(),
            start + 3 * w <= o.len(),
            rgb@.len() == o.len(),
            forall|xx: int, c: int|
                0 <= xx < x && 0 <= c < 3 ==> rgb@[#[trigger] px(s, xx, c)] == o[px(
                    s,
                    w - 1 - xx,
                    c,
                )] && rgb@[px(s, w - 1 - xx, c)] == o[px(s, xx, c)],
            forall|xx: int, c: int|
                x <= xx < w - x && 0 <= c < 3 ==> rgb@[#[trigger] px(s, xx, c)] == o[px(
                    s,
                    xx,
                    c,
                )],
            forall|i: int|
                0 <= i < o.len() && (i < start || i >= start + 3 * w) ==> #[trigger] rgb@[i]
                    == o[i],
        decreases half - x,
    {
        let left = start + 3 * x;
        let right = start + 3 * (w - 1 - x);
        assert(left == px(s, x as int, 0) && right == px(s, w - 1 - x, 0));
        let ghost before = rgb@;
        let t0 = rgb[left];
        rgb[left] = rgb[right];
        rgb[right] = t0;
        let t1 = rgb[left + 1];
        rgb[left + 1] = rgb[right + 1];
        rgb[right + 1] = t1;
        let t2 = rgb[left + 2];
        rgb[left + 2] = rgb[right + 2];
        rgb[right + 2] = t2;
        assert forall|xx: int, c: int|
            0 <= xx < x + 1 && 0 <= c < 3 implies rgb@[#[trigger] px(s, xx, c)] == o[px(
            s,
            w - 1 - xx,
            c,
        )] && rgb@[px(s, w - 1 - xx, c)] == o[px(s, xx, c)] by {
            if xx < x {
                assert(before[px(s, xx, c)] == o[px(s, w - 1 - xx, c)]);
                assert(before[px(s, w - 1 - xx, c)] == o[px(s, xx, c)]);
            } else {
                assert(before[px(s, xx, c)] == o[px(s, xx, c)]);
                assert(before[px(s, w - 1 - xx, c)] == o[px(s, w - 1 - xx, c)]);
            }
        }
        assert forall|xx: int, c: int|
            x + 1 <= xx < w - (x + 1) && 0 <= c < 3 implies rgb@[#[trigger] px(s, xx, c)] == o[px(
            s,
            xx,
            c,
        )] by {
            assert(before[px(s, xx, c)] == o[px(s, xx, c)]);
        }
        x = x + 1;
    }
    assert forall|xx: int, c: int|
        0 <= xx < w && 0 <= c < 3 implies rgb@[#[trigger] px(s, xx, c)] == o[px(
        s,
        w - 1 - xx,
        c,
    )] by {
        if xx >= half && xx < w - half {
            assert(w - 1 - xx == xx);
        } else if xx >= w - half {
            let yy = w - 1 - xx;
            assert(0 <= yy < half);
            assert(rgb@[px(s, w - 1 - yy, c)] == o[px(s, yy, c)]);
        }
    }
}

/// `after` is `before` with each of the `h` rows of `w` RGB pixels
/// mirrored: pixel `x` of a row holds what pixel `w - 1 - x` held. Bytes
/// after the `w × h` pixels are unchanged.
pub open spec fn is_horizontal_flip(before: Seq<u8>, after: Seq<u8>, w: int, h: int) -> bool {
    &&& after.len() == before.len()
    &&& forall|y: int, x: int, c: int|
        0 <= y < h && 0 <= x < w && 0 <= c < 3 ==> after[#[trigger] rgb_index(w, y, x, c)]
            == before[rgb_index(w, y, w - 1 - x, c)]
    &&& forall|i: int| w * h * 3 <= i < before.len() ==> #[trigger] after[i] == before[i]
}

/// Flipping twice restores the original frame.
pub proof fn lemma_flip_twice_is_identity(a: Seq<u8>, b: Seq<u8>, c: Seq<u8>, w: int, h: int)
    requires
        0 <= w,
        0 <= h,
        w * h * 3 <= a.len(),
        is_horizontal_flip(a, b, w, h),
        is_horizontal_flip(b, c, w, h),
    ensures
        c == a,
{
    assert forall|i: int| 0 <= i < a.len() implies c[i] == a[i] by {
        if i < w * h * 3 {
            let p = i / 3;
            let k = i % 3;
            assert(0 <= k < 3 && i == p * 3 + k);
            assert(w > 0) by (nonlinear_arith)
                requires
                    0 <= i < w * h * 3,
                    0 <= h,
                    0 <= w,
            ;
            assert(0 <= p < w * h);
            vstd::arithmetic::div_mod::lemma_fundamental_div_mod(p, w);
            vstd::arithmetic::div_mod::lemma_mod_pos_bound(p, w);
            vstd::arithmetic::div_mod::lemma_div_pos_is_pos(p, w);
            let y = p / w;
            let x = p % w;
            assert(y < h) by (nonlinear_arith)
                requires
                    p == w * y + x,
                    0 <= x,
                    p < w * h,
                    0 < w,
            ;
            assert(y * w + x == p) by (nonlinear_arith)
                requires
                    p == w * y + x,
            ;
            assert(i == rgb_index(w, y, x, k));
            assert(c[rgb_index(w, y, x, k)] == b[rgb_index(w, y, w - 1 - x, k)]);
            assert(b[rgb_index(w, y, w - 1 - x, k)] == a[rgb_index(w, y, w - 1 - (w - 1 - x), k)]);
        }
    }
    assert(c =~= a);
}

/// Flips 24-bit RGB pixel data horizontally in place: in each of the
/// `height` rows of `width` pixels, pixel `x` trades places with pixel
/// `width - 1 - x`. Bytes after the `width × height` pixels are untouched.
pub fn flip_horizontal_rgb_in_place(rgb: &mut [u8], width: u32, height: u32)
    requires
        (width as int) * (height as int) * 3 <= old(rgb)@.len(),
    ensures
        is_horizontal_flip(old(rgb)@, final(rgb)@, width as int, height as int),
{
    if height == 0 {
        return;
    }
    let ghost o = rgb@;
    let n = rgb.len();
    let ghost wi = width as int;
    let ghost hi = height as int;
    proof {
        assert(wi * 3 <= wi * hi * 3) by (nonlinear_arith)
            requires
                hi >= 1,
                wi >= 0,
        ;
    }
    let w = width as usize;
    let h = height as usize;
    let row_bytes = w * 3;
    let mut y: usize = 0;
    let mut row_start: usize = 0;
    proof {
        lemma_row_step(wi, 0, hi);
    }
    while y < h
        invariant
            w == wi,
            h == hi,
            row_bytes == 3 * wi,
            0 <= y <= h,
            row_start == y * (3 * wi),
            wi * hi * 3 <= o.len(),
            n == o.len(),
            hi * (3 * wi) == wi * hi * 3,
            rgb@.len() == o.len(),
            forall|yy: int, x: int, c: int|
                0 <= yy < y && 0 <= x < wi && 0 <= c < 3 ==> rgb@[#[trigger] px(
                    yy * (3 * wi),
                    x,
                    c,
                )] == o[px(yy * (3 * wi), wi - 1 - x, c)],
            forall|i: int| y * (3 * wi) <= i < o.len() ==> #[trigger] rgb@[i] == o[i],
        decreases h - y,
    {
        proof {
            lemma_row_step(wi, y as int, hi);
        }
        let ghost before = rgb@;
        flip_row(rgb, row_start, w);
        proof {
            assert forall|yy: int, x: int, c: int|
                0 <= yy < y + 1 && 0 <= x < wi && 0 <= c < 3 implies rgb@[#[trigger] px(
                yy * (3 * wi),
                x,
                c,
            )] == o[px(yy * (3 * wi), wi - 1 - x, c)] by {
                if yy < y {
                    lemma_row_before(wi, yy, y as int);
                    assert(rgb@[px(yy * (3 * wi), x, c)] == before[px(yy * (3 * wi), x, c)]);
                } else {
                    assert(rgb@[px(row_start as int, x, c)] == before[px(
                        row_start as int,
                        wi - 1 - x,
                        c,
                    )]);
                }
            }
        }
        row_start = row_start + row_bytes;
        y = y + 1;
    }
    assert forall|yy: int, x: int, c: int|
        0 <= yy < hi && 0 <= x < wi && 0 <= c < 3 implies rgb@[#[trigger] rgb_index(
        wi,
        yy,
        x,
        c,
    )] == o[rgb_index(wi, yy, wi - 1 - x, c)] by {
        lemma_rgb_index(wi, yy, x, c);
        lemma_rgb_index(wi, yy, wi - 1 - x, c);
        assert(rgb@[px(yy * (3 * wi), x, c)] == o[px(yy * (3 * wi), wi - 1 - x, c)]);
    }
}

} // verus!
