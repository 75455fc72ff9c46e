//! Compositing a color onto an opaque backdrop.

use crate::color::Color;
use crate::math::interpolate::{lemma_round_between, lemma_round_near_multiple, round_half_away};
use vstd::prelude::*;

verus! {

/// One channel of `fg` at opacity `alpha` over `bg`: the two weighted by
/// `alpha` and by what `alpha` lacks of 255, and the sum divided by 255 and
/// rounded to the nearest channel.
pub open spec fn blend_channel(alpha: u8, fg: u8, bg: u8) -> u8 {
    round_half_away(alpha * fg + (255 - alpha) * bg, 255) as u8
}

/// `color` composited onto `bucket`, fully opaque.
pub open spec fn alpha_blend_spec(color: Color, bucket: Color) -> Color {
    Color {
        r: blend_channel(color.a, color.r, bucket.r),
        g: blend_channel(color.a, color.g, bucket.g),
        b: blend_channel(color.a, color.b, bucket.b),
        a: 255,
    }
}

fn channel(alpha: u8, fg: u8, bg: u8) -> (r: u8)
    ensures
        r == blend_channel(alpha, fg, bg),
{
    let a: u32 = alpha as u32;
    let inv: u32 = (u8::MAX - alpha) as u32;
    proof {
        lemma_weighted_sum_between(alpha, fg, bg);
        lemma_round_between(alpha * fg + (255 - alpha) * bg, 255, 0, 255);
    }
    let sum: u32 = a * (fg as u32) + inv * (bg as u32);
    ((2 * sum + 255) / 510) as u8
}

impl Color {
    /// Composites this color onto `bucket` by its opacity. The result is
    /// opaque.
    pub fn alpha_blend_into(self, bucket: Color) -> (r: Color)
        ensures
            r == alpha_blend_spec(self, bucket),
    {
        Color {
            r: channel(self.a, self.r, bucket.r),
            g: channel(self.a, self.g, bucket.g),
            b: channel(self.a, self.b, bucket.b),
            a: u8::MAX,
        }
    }

    /// This color composited onto `bucket`. An opaque color covers the
    /// backdrop and is returned as it is.
    pub fn blend_into(self, bucket: Color) -> (r: Color)
        ensures
            r == alpha_blend_spec(self, bucket),
            self.a == 255 ==> r == self,
    {
        if self.is_opaque() {
            proof {
                lemma_blend_channel_ends(self.r, bucket.r);
                lemma_blend_channel_ends(self.g, bucket.g);
                lemma_blend_channel_ends(self.b, bucket.b);
            }
            self
        } else {
            self.alpha_blend_into(bucket)
        }
    }
}

/// The weighted sum of two channels lies between 255 times the smaller and
/// 255 times the larger of them.
proof fn lemma_weighted_sum_between(alpha: u8, fg: u8, bg: u8)
    ensures
        0 <= alpha * fg + (255 - alpha) * bg <= 255 * 255,
        fg <= bg ==> 255 * fg <= alpha * fg + (255 - alpha) * bg <= 255 * bg,
        bg <= fg ==> 255 * bg <= alpha * fg + (255 - alpha) * bg <= 255 * fg,
{
    let sum = alpha * fg + (255 - alpha) * bg;
    if fg <= bg {
        assert(255 * fg <= sum <= 255 * bg) by (nonlinear_arith)
            requires
                sum == alpha * fg + (255 - alpha) * bg,
                0 <= alpha <= 255,
                fg <= bg,
        ;
    } else {
        assert(255 * bg <= sum <= 255 * fg) by (nonlinear_arith)
            requires
                sum == alpha * fg + (255 - alpha) * bg,
                0 <= alpha <= 255,
                bg <= fg,
        ;
    }
}

/// Every channel of a composite lies between the two channels it was
/// weighted from, and is that channel where the two agree.
pub proof fn lemma_blend_channel_between(alpha: u8, fg: u8, bg: u8)
    ensures
        fg <= bg ==> fg <= blend_channel(alpha, fg, bg) <= bg,
        bg <= fg ==> bg <= blend_channel(alpha, fg, bg) <= fg,
        fg == bg ==> blend_channel(alpha, fg, bg) == fg,
{
    let sum = alpha * fg + (255 - alpha) * bg;
    lemma_weighted_sum_between(alpha, fg, bg);
    if fg <= bg {
        lemma_round_between(sum, 255, fg as int, bg as int);
    } else {
        lemma_round_between(sum, 255, bg as int, fg as int);
    }
}

/// A fully transparent color leaves the backdrop as it is, and a fully
/// opaque one covers it.
pub proof fn lemma_blend_channel_ends(fg: u8, bg: u8)
    ensures
        blend_channel(0, fg, bg) == bg,
        blend_channel(255, fg, bg) == fg,
{
    lemma_round_near_multiple(bg as int, 0, 255);
    lemma_round_near_multiple(fg as int, 0, 255);
    assert(0 * fg + (255 - 0) * bg == bg * 255);
    assert(255 * fg + (255 - 255) * bg == fg * 255);
}

/// A fully transparent color composited onto an opaque backdrop gives the
/// backdrop, and an opaque color composited onto anything gives itself.
pub proof fn lemma_alpha_blend_ends(color: Color, bucket: Color)
    ensures
        color.a == 0 && bucket.a == 255 ==> alpha_blend_spec(color, bucket) == bucket,
        color.a == 255 ==> alpha_blend_spec(color, bucket) == color,
{
    lemma_blend_channel_ends(color.r, bucket.r);
    lemma_blend_channel_ends(color.g, bucket.g);
    lemma_blend_channel_ends(color.b, bucket.b);
}

} // verus!
