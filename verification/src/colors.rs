//! Colours by height.
//!
//! A colour is four channels, red, green, blue and alpha, each a scalar
//! with one unit for full intensity.

use vstd::prelude::*;
use crate::scalar::{SCALE, lerp, lerp_spec, ratio_spec, ratio_wide};

verus! {

/// A gradient between the colour at the lower end of a range and the
/// colour at its upper end.
#[derive(Debug, Clone, Copy)]
pub struct ColorGradient {
    pub low: [i64; 4],
    pub high: [i64; 4],
}

/// The colouring of a range of heights.
#[derive(Debug, Clone, Copy)]
pub enum PlaneColor {
    /// One colour for the whole range.
    Color([i64; 4]),
    /// A gradient over the range.
    Gradient(ColorGradient),
}

/// The heights from `from` up to, but not including, `to`, and their
/// colouring.
#[derive(Debug, Clone, Copy)]
pub struct ColorRange {
    pub from: i64,
    pub to: i64,
    pub clr: PlaneColor,
}

/// Ranges of heights in the order in which they are tried.
#[derive(Debug)]
pub struct Colors {
    pub data: Vec<ColorRange>,
}

/// The first range of `ranges` that holds `height`.
pub open spec fn select_spec(ranges: Seq<ColorRange>, height: int) -> Option<ColorRange>
    decreases ranges.len(),
{
    if ranges.len() == 0 {
        None
    } else if ranges[0].holds(height) {
        Some(ranges[0])
    } else {
        select_spec(ranges.drop_first(), height)
    }
}

impl PlaneColor {
    /// Channel `c` of the colour of `height` in a range that starts at
    /// `min_height` and ends at `max_height`. In a gradient the height is
    /// placed by the fraction of the range that lies below it; a range
    /// that is empty counts as lying wholly above.
    pub open spec fn channel_spec(self, height: int, min_height: int, max_height: int, c: int) -> int {
        match self {
            PlaneColor::Color(clr) => clr[c] as int,
            PlaneColor::Gradient(cgr) => lerp_spec(
                cgr.low[c] as int,
                cgr.high[c] as int,
                ratio_spec(height - min_height, max_height - min_height),
            ),
        }
    }

    /// The colour of `height` in a range that starts at `min_height` and
    /// ends at `max_height`.
    pub fn apply(&self, height: i64, min_height: i64, max_height: i64) -> (r: [i64; 4])
        ensures
            forall|c: int|
                0 <= c < 4 ==> #[trigger] r[c] == self.channel_spec(
                    height as int,
                    min_height as int,
                    max_height as int,
                    c,
                ),
    {
        match self {
            PlaneColor::Color(clr) => *clr,
            PlaneColor::Gradient(cgr) => {
                let scale: i64 = ratio_wide(
                    (height as i128) - (min_height as i128),
                    (max_height as i128) - (min_height as i128),
                );
                [
                    lerp(cgr.low[0], cgr.high[0], scale),
                    lerp(cgr.low[1], cgr.high[1], scale),
                    lerp(cgr.low[2], cgr.high[2], scale),
                    lerp(cgr.low[3], cgr.high[3], scale),
                ]
            },
        }
    }
}

impl ColorRange {
    /// Whether `height` lies in the range.
    pub open spec fn holds(self, height: int) -> bool {
        self.from <= height < self.to
    }
}

impl Clone for Colors {
    /// The same ranges in the same order.
    fn clone(&self) -> (r: Self)
        ensures
            r.data@ == self.data@,
    {
        let mut data: Vec<ColorRange> = Vec::new();
        let mut i: usize = 0;
        while i < self.data.len()
            invariant
                i <= self.data@.len(),
                data@ == self.data@.take(i as int),
            decreases self.data@.len() - i,
        {
            data.push(self.data[i]);
            proof {
                assert(data@ =~= self.data@.take(i + 1));
            }
            i = i + 1;
        }
        proof {
            assert(self.data@.take(i as int) =~= self.data@);
        }
        Colors { data }
    }
}

impl Colors {
    /// Channel `c` of the colour of `height`: that of the first range that
    /// holds it, placed within that range's own bounds, or opaque white
    /// where no range holds it.
    pub open spec fn channel_spec(self, height: int, c: int) -> int {
        match select_spec(self.data@, height) {
            Some(range) => range.clr.channel_spec(height, range.from as int, range.to as int, c),
            None => SCALE as int,
        }
    }

    /// The colour of `height`. The least and the greatest height of the
    /// mesh are taken and not used.
    pub fn apply(&self, height: i64, _min_height: i64, _max_height: i64) -> (r: [i64; 4])
        ensures
            forall|c: int| 0 <= c < 4 ==> #[trigger] r[c] == self.channel_spec(height as int, c),
    {
        let mut i: usize = 0;
        proof {
            assert(self.data@.skip(0) =~= self.data@);
        }
        while i < self.data.len()
            invariant
                i <= self.data@.len(),
                select_spec(self.data@, height as int) == select_spec(
                    self.data@.skip(i as int),
                    height as int,
                ),
            decreases self.data@.len() - i,
        {
            let color_range = &self.data[i];
            proof {
                assert(self.data@.skip(i as int)[0] == self.data@[i as int]);
                assert(self.data@.skip(i as int).drop_first() =~= self.data@.skip(i + 1));
            }
            if height >= color_range.from && height < color_range.to {
                return color_range.clr.apply(height, color_range.from, color_range.to);
            }
            i = i + 1;
        }
        [SCALE, SCALE, SCALE, SCALE]
    }

    /// No ranges: every height is white.
    pub fn new() -> (r: Self)
        ensures
            r.data@.len() == 0,
    {
        Colors { data: Vec::new() }
    }
}

/// Over a range that is empty a gradient gives its lower colour.
pub proof fn empty_range_gives_low(gradient: ColorGradient, height: int, bound: int, c: int)
    requires
        0 <= c < 4,
    ensures
        PlaneColor::Gradient(gradient).channel_spec(height, bound, bound, c) == gradient.low[c],
{
    assert(0 * (gradient.high[c] - gradient.low[c]) == 0) by (nonlinear_arith);
}

/// The range that colours a height is the first in the list that holds it.
pub proof fn first_match_wins(ranges: Seq<ColorRange>, height: int, i: int)
    requires
        0 <= i < ranges.len(),
        ranges[i].holds(height),
        forall|j: int| 0 <= j < i ==> !(#[trigger] ranges[j]).holds(height),
    ensures
        select_spec(ranges, height) == Some(ranges[i]),
    decreases ranges.len(),
{
    if i > 0 {
        assert(!ranges[0].holds(height));
        let rest = ranges.drop_first();
        assert forall|j: int| 0 <= j < i - 1 implies !(#[trigger] rest[j]).holds(height) by {
            assert(rest[j] == ranges[j + 1]);
        }
        first_match_wins(rest, height, i - 1);
    }
}

/// A height that no range holds finds no range.
pub proof fn no_match_finds_none(ranges: Seq<ColorRange>, height: int)
    requires
        forall|j: int| 0 <= j < ranges.len() ==> !(#[trigger] ranges[j]).holds(height),
    ensures
        select_spec(ranges, height).is_none(),
    decreases ranges.len(),
{
    if ranges.len() > 0 {
        let rest = ranges.drop_first();
        assert forall|j: int| 0 <= j < rest.len() implies !(#[trigger] rest[j]).holds(height) by {
            assert(rest[j] == ranges[j + 1]);
        }
        no_match_finds_none(rest, height);
    }
}

} // verus!
