//! Size hints: the sizing rules that a client declares for its window, and
//! their application to a proposed size.

use vstd::prelude::*;

verus! {

/// Bits of the flags word that say which hints the client has set.
pub const P_MIN_SIZE: u32 = 16;

pub const P_MAX_SIZE: u32 = 32;

pub const P_RESIZE_INC: u32 = 64;

pub const P_ASPECT: u32 = 128;

pub const P_BASE_SIZE: u32 = 256;

/// Positions of the hints in the property, counted in 32-bit words.
pub const FLAGS: usize = 0;

pub const MIN_WIDTH: usize = 5;

pub const MIN_HEIGHT: usize = 6;

pub const MAX_WIDTH: usize = 7;

pub const MAX_HEIGHT: usize = 8;

pub const WIDTH_INC: usize = 9;

pub const HEIGHT_INC: usize = 10;

pub const MIN_ASPECT_X: usize = 11;

pub const MIN_ASPECT_Y: usize = 12;

pub const MAX_ASPECT_X: usize = 13;

pub const MAX_ASPECT_Y: usize = 14;

pub const BASE_WIDTH: usize = 15;

pub const BASE_HEIGHT: usize = 16;

/// Number of words of a complete size-hints property.
pub const HINT_WORDS: usize = 18;

/// A ratio of two lengths, kept exact.  A ratio with numerator 0 is unset.
#[derive(Clone, Copy, Debug, PartialEq, Eq, Structural)]
pub struct AspectRatio {
    pub numerator: u32,
    pub denominator: u32,
}

/// The sizing rules of one client.  A bound or an increment of 0 is unset.
/// `min_aspect` bounds height over width, `max_aspect` width over height.
#[derive(Clone, Copy, Debug, PartialEq, Eq, Structural)]
pub struct SizeHints {
    pub base_width: i32,
    pub base_height: i32,
    pub min_width: i32,
    pub min_height: i32,
    pub max_width: i32,
    pub max_height: i32,
    pub increment_width: i32,
    pub increment_height: i32,
    pub min_aspect: AspectRatio,
    pub max_aspect: AspectRatio,
}

/// A hint as it is kept: the word, when the flag `wanted` or else the flag
/// `fallback` selects a position, otherwise 0.
pub open spec fn chosen(
    words: Seq<u32>,
    wanted: u32,
    at: usize,
    fallback: u32,
    fallback_at: usize,
) -> u32 {
    if words[FLAGS as int] & wanted != 0 {
        words[at as int]
    } else if words[FLAGS as int] & fallback != 0 {
        words[fallback_at as int]
    } else {
        0
    }
}

/// A denominator as it is kept: never 0.
pub open spec fn at_least_one(word: u32) -> u32 {
    if word == 0 {
        1
    } else {
        word
    }
}

/// `length` rounded towards 0 to a multiple of `increment`; unchanged where
/// the increment is unset.
pub open spec fn rounded(length: int, increment: int) -> int {
    if increment <= 0 {
        length
    } else if length >= 0 {
        length - length % increment
    } else {
        length + (-length) % increment
    }
}

/// `length * ratio`, rounded to the nearest integer, halves upwards.
pub open spec fn scaled(length: int, ratio: AspectRatio) -> int {
    (2 * length * ratio.numerator + ratio.denominator) / (2 * ratio.denominator)
}

/// `ratio < over / under`, for a positive `under` and a set denominator.
pub open spec fn ratio_below(ratio: AspectRatio, over: int, under: int) -> bool {
    ratio.numerator * under < over * ratio.denominator
}

/// `length` held between a lower bound and, where it is set, an upper bound;
/// the upper bound wins.
pub open spec fn bounded(length: int, least: int, most: int) -> int {
    let raised = if length < least {
        least
    } else {
        length
    };
    if most > 0 && raised > most {
        most
    } else {
        raised
    }
}

impl SizeHints {
    /// No rule at all.
    pub open spec fn unset() -> SizeHints {
        SizeHints {
            base_width: 0,
            base_height: 0,
            min_width: 0,
            min_height: 0,
            max_width: 0,
            max_height: 0,
            increment_width: 0,
            increment_height: 0,
            min_aspect: AspectRatio { numerator: 0, denominator: 1 },
            max_aspect: AspectRatio { numerator: 0, denominator: 1 },
        }
    }

    pub fn none() -> (hints: SizeHints)
        ensures
            hints == Self::unset(),
    {
        SizeHints {
            base_width: 0,
            base_height: 0,
            min_width: 0,
            min_height: 0,
            max_width: 0,
            max_height: 0,
            increment_width: 0,
            increment_height: 0,
            min_aspect: AspectRatio { numerator: 0, denominator: 1 },
            max_aspect: AspectRatio { numerator: 0, denominator: 1 },
        }
    }

    /// The property is complete and every length that its flags select fits
    /// a signed 32-bit length.
    pub open spec fn well_formed(words: Seq<u32>) -> bool {
        &&& words.len() >= HINT_WORDS
        &&& chosen(words, P_BASE_SIZE, BASE_WIDTH, P_MIN_SIZE, MIN_WIDTH) <= i32::MAX
        &&& chosen(words, P_BASE_SIZE, BASE_HEIGHT, P_MIN_SIZE, MIN_HEIGHT) <= i32::MAX
        &&& chosen(words, P_MIN_SIZE, MIN_WIDTH, P_BASE_SIZE, BASE_WIDTH) <= i32::MAX
        &&& chosen(words, P_MIN_SIZE, MIN_HEIGHT, P_BASE_SIZE, BASE_HEIGHT) <= i32::MAX
        &&& chosen(words, P_MAX_SIZE, MAX_WIDTH, 0, FLAGS) <= i32::MAX
        &&& chosen(words, P_MAX_SIZE, MAX_HEIGHT, 0, FLAGS) <= i32::MAX
        &&& chosen(words, P_RESIZE_INC, WIDTH_INC, 0, FLAGS) <= i32::MAX
        &&& chosen(words, P_RESIZE_INC, HEIGHT_INC, 0, FLAGS) <= i32::MAX
    }

    /// The rules that a well-formed property declares.  The base size falls
    /// back on the minimum size and the minimum size on the base size.
    pub open spec fn declared(words: Seq<u32>) -> SizeHints {
        let aspect = words[FLAGS as int] & P_ASPECT != 0;
        SizeHints {
            base_width: chosen(words, P_BASE_SIZE, BASE_WIDTH, P_MIN_SIZE, MIN_WIDTH) as i32,
            base_height: chosen(words, P_BASE_SIZE, BASE_HEIGHT, P_MIN_SIZE, MIN_HEIGHT) as i32,
            min_width: chosen(words, P_MIN_SIZE, MIN_WIDTH, P_BASE_SIZE, BASE_WIDTH) as i32,
            min_height: chosen(words, P_MIN_SIZE, MIN_HEIGHT, P_BASE_SIZE, BASE_HEIGHT) as i32,
            max_width: chosen(words, P_MAX_SIZE, MAX_WIDTH, 0, FLAGS) as i32,
            max_height: chosen(words, P_MAX_SIZE, MAX_HEIGHT, 0, FLAGS) as i32,
            increment_width: chosen(words, P_RESIZE_INC, WIDTH_INC, 0, FLAGS) as i32,
            increment_height: chosen(words, P_RESIZE_INC, HEIGHT_INC, 0, FLAGS) as i32,
            min_aspect: if aspect {
                AspectRatio {
                    numerator: words[MIN_ASPECT_Y as int],
                    denominator: at_least_one(words[MIN_ASPECT_X as int]),
                }
            } else {
                AspectRatio { numerator: 0, denominator: 1 }
            },
            max_aspect: if aspect {
                AspectRatio {
                    numerator: words[MAX_ASPECT_X as int],
                    denominator: at_least_one(words[MAX_ASPECT_Y as int]),
                }
            } else {
                AspectRatio { numerator: 0, denominator: 1 }
            },
        }
    }

    /// Reads the rules from the words of a size-hints property; `None` for a
    /// malformed property.
    pub fn parse(words: &[u32]) -> (hints: Option<SizeHints>)
        ensures
            hints == if Self::well_formed(words@) {
                Some(Self::declared(words@))
            } else {
                None
            },
    {
        if words.len() < HINT_WORDS {
            return None;
        }
        let flags: u32 = words[FLAGS];
        let base_width = pick(words, P_BASE_SIZE, BASE_WIDTH, P_MIN_SIZE, MIN_WIDTH);
        let base_height = pick(words, P_BASE_SIZE, BASE_HEIGHT, P_MIN_SIZE, MIN_HEIGHT);
        let min_width = pick(words, P_MIN_SIZE, MIN_WIDTH, P_BASE_SIZE, BASE_WIDTH);
        let min_height = pick(words, P_MIN_SIZE, MIN_HEIGHT, P_BASE_SIZE, BASE_HEIGHT);
        let max_width = pick(words, P_MAX_SIZE, MAX_WIDTH, 0, FLAGS);
        let max_height = pick(words, P_MAX_SIZE, MAX_HEIGHT, 0, FLAGS);
        let increment_width = pick(words, P_RESIZE_INC, WIDTH_INC, 0, FLAGS);
        let increment_height = pick(words, P_RESIZE_INC, HEIGHT_INC, 0, FLAGS);
        let limit: u32 = 0x7fff_ffff;
        if base_width > limit || base_height > limit || min_width > limit || min_height > limit
            || max_width > limit || max_height > limit || increment_width > limit
            || increment_height > limit {
            return None;
        }
        let aspect = flags & P_ASPECT != 0;
        let min_aspect = if aspect {
            AspectRatio {
                numerator: words[MIN_ASPECT_Y],
                denominator: if words[MIN_ASPECT_X] == 0 {
                    1
                } else {
                    words[MIN_ASPECT_X]
                },
            }
        } else {
            AspectRatio { numerator: 0, denominator: 1 }
        };
        let max_aspect = if aspect {
            AspectRatio {
                numerator: words[MAX_ASPECT_X],
                denominator: if words[MAX_ASPECT_Y] == 0 {
                    1
                } else {
                    words[MAX_ASPECT_Y]
                },
            }
        } else {
            AspectRatio { numerator: 0, denominator: 1 }
        };
        Some(
            SizeHints {
                base_width: base_width as i32,
                base_height: base_height as i32,
                min_width: min_width as i32,
                min_height: min_height as i32,
                max_width: max_width as i32,
                max_height: max_height as i32,
                increment_width: increment_width as i32,
                increment_height: increment_height as i32,
                min_aspect,
                max_aspect,
            },
        )
    }

    /// The client allows one size only.
    pub open spec fn fixed(self) -> bool {
        self.max_width > 0 && self.max_height > 0 && self.max_width == self.min_width
            && self.max_height == self.min_height
    }

    pub fn is_fixed(&self) -> (fixed: bool)
        ensures
            fixed == self.fixed(),
    {
        self.max_width > 0 && self.max_height > 0 && self.max_width == self.min_width
            && self.max_height == self.min_height
    }

    /// The rules can be applied to any size: no bound or increment is
    /// negative and no ratio lacks a denominator.
    pub open spec fn valid(self) -> bool {
        &&& self.base_width >= 0
        &&& self.base_height >= 0
        &&& self.min_width >= 0
        &&& self.min_height >= 0
        &&& self.max_width >= 0
        &&& self.max_height >= 0
        &&& self.increment_width >= 0
        &&& self.increment_height >= 0
        &&& self.min_aspect.denominator > 0
        &&& self.max_aspect.denominator > 0
    }

    /// The rules that a well-formed property declares can be applied.
    pub proof fn lemma_declared_valid(words: Seq<u32>)
        requires
            Self::well_formed(words),
        ensures
            Self::declared(words).valid(),
    {
    }

    /// Both ratios are set.
    pub open spec fn has_aspect(self) -> bool {
        self.min_aspect.numerator > 0 && self.max_aspect.numerator > 0
    }

    /// The base size is the minimum size.
    pub open spec fn base_is_min(self) -> bool {
        self.base_width == self.min_width && self.base_height == self.min_height
    }

    /// The size to which the ratios are applied: the proposed size, less the
    /// base size unless that is the minimum size.
    pub open spec fn before_aspect(self, width: int, height: int) -> (int, int) {
        if self.base_is_min() {
            (width, height)
        } else {
            (width - self.base_width, height - self.base_height)
        }
    }

    /// The size after the ratios: a window wider than `max_aspect` allows
    /// has its width cut to its height times `max_aspect`; otherwise one
    /// taller than `min_aspect` allows has its height cut to its width times
    /// `min_aspect`.  Sizes that are not positive are left alone.
    pub open spec fn after_aspect(self, width: int, height: int) -> (int, int) {
        let (wide, high) = self.before_aspect(width, height);
        if self.has_aspect() && wide > 0 && high > 0 {
            if ratio_below(self.max_aspect, wide, high) {
                (scaled(high, self.max_aspect), high)
            } else if ratio_below(self.min_aspect, high, wide) {
                (wide, scaled(wide, self.min_aspect))
            } else {
                (wide, high)
            }
        } else {
            (wide, high)
        }
    }

    /// The size above the base size, after the ratios.
    pub open spec fn above_base(self, width: int, height: int) -> (int, int) {
        let (wide, high) = self.after_aspect(width, height);
        if self.base_is_min() {
            (wide - self.base_width, high - self.base_height)
        } else {
            (wide, high)
        }
    }

    /// The width that the rules allow for a proposed size.
    pub open spec fn allowed_width(self, width: int, height: int) -> int {
        bounded(
            rounded(self.above_base(width, height).0, self.increment_width as int)
                + self.base_width,
            self.min_width as int,
            self.max_width as int,
        )
    }

    /// The height that the rules allow for a proposed size.
    pub open spec fn allowed_height(self, width: int, height: int) -> int {
        bounded(
            rounded(self.above_base(width, height).1, self.increment_height as int)
                + self.base_height,
            self.min_height as int,
            self.max_height as int,
        )
    }

    /// The size that the rules allow keeps the bounds that the client
    /// declares: it is not below the minimum, unless the maximum lies
    /// below that, and not above a maximum that is set.
    pub proof fn lemma_allowed_in_bounds(self, width: int, height: int)
        ensures
            self.max_width > 0 ==> self.allowed_width(width, height) <= self.max_width,
            self.max_height > 0 ==> self.allowed_height(width, height) <= self.max_height,
            self.max_width <= 0 || self.min_width <= self.max_width ==> self.allowed_width(
                width,
                height,
            ) >= self.min_width,
            self.max_height <= 0 || self.min_height <= self.max_height ==> self.allowed_height(
                width,
                height,
            ) >= self.min_height,
    {
    }

    /// A length that is rounded is a multiple of the increment and lies
    /// between 0 and the length.
    pub proof fn lemma_rounded(length: int, increment: int)
        requires
            increment > 0,
        ensures
            rounded(length, increment) % increment == 0,
            length >= 0 ==> length - increment < rounded(length, increment) <= length,
            length < 0 ==> length <= rounded(length, increment) < length + increment,
    {
        if length >= 0 {
            vstd::arithmetic::div_mod::lemma_fundamental_div_mod(length, increment);
            vstd::arithmetic::div_mod::lemma_mod_bound(length, increment);
            vstd::arithmetic::div_mod::lemma_mod_multiples_basic(length / increment, increment);
            assert(length - length % increment == (length / increment) * increment)
                by (nonlinear_arith)
                requires
                    length == increment * (length / increment) + length % increment,
            ;
        } else {
            let positive = -length;
            vstd::arithmetic::div_mod::lemma_fundamental_div_mod(positive, increment);
            vstd::arithmetic::div_mod::lemma_mod_bound(positive, increment);
            vstd::arithmetic::div_mod::lemma_mod_multiples_basic(
                -(positive / increment),
                increment,
            );
            assert(length + positive % increment == (-(positive / increment)) * increment)
                by (nonlinear_arith)
                requires
                    positive == increment * (positive / increment) + positive % increment,
                    positive == -length,
            ;
        }
    }

    /// Applies the rules to a proposed size: base size off, ratios, size
    /// increments, base size on, minimum and maximum.
    pub fn apply(&self, width: i32, height: i32) -> (size: (i32, i32))
        requires
            self.valid(),
            width >= 1,
            height >= 1,
        ensures
            size.0 == self.allowed_width(width as int, height as int),
            size.1 == self.allowed_height(width as int, height as int),
    {
        let base_is_min = self.base_width == self.min_width && self.base_height
            == self.min_height;
        let mut wide: i64 = width as i64;
        let mut high: i64 = height as i64;
        if !base_is_min {
            wide = wide - self.base_width as i64;
            high = high - self.base_height as i64;
        }
        if self.min_aspect.numerator > 0 && self.max_aspect.numerator > 0 && wide > 0 && high > 0 {
            if below(&self.max_aspect, wide, high) {
                wide = scale(high, &self.max_aspect, wide);
            } else if below(&self.min_aspect, high, wide) {
                high = scale(wide, &self.min_aspect, high);
            }
        }
        assert(wide == self.after_aspect(width as int, height as int).0);
        assert(high == self.after_aspect(width as int, height as int).1);
        assert(-0x8000_0000 <= wide <= 0x7fff_ffff && -0x8000_0000 <= high <= 0x7fff_ffff);
        if base_is_min {
            wide = wide - self.base_width as i64;
            high = high - self.base_height as i64;
        }
        assert(wide == self.above_base(width as int, height as int).0);
        assert(high == self.above_base(width as int, height as int).1);
        let wide_rounded: i64 = round(wide, self.increment_width);
        let high_rounded: i64 = round(high, self.increment_height);
        let wide_bound: i64 = bound(
            wide_rounded + self.base_width as i64,
            self.min_width,
            self.max_width,
        );
        let high_bound: i64 = bound(
            high_rounded + self.base_height as i64,
            self.min_height,
            self.max_height,
        );
        (wide_bound as i32, high_bound as i32)
    }
}

/// Computes `chosen`.
fn pick(words: &[u32], wanted: u32, at: usize, fallback: u32, fallback_at: usize) -> (word: u32)
    requires
        words@.len() >= HINT_WORDS,
        at < HINT_WORDS,
        fallback_at < HINT_WORDS,
    ensures
        word == chosen(words@, wanted, at, fallback, fallback_at),
{
    let flags: u32 = words[FLAGS];
    if flags & wanted != 0 {
        words[at]
    } else if flags & fallback != 0 {
        words[fallback_at]
    } else {
        0
    }
}

/// Computes `ratio_below`.
fn below(ratio: &AspectRatio, over: i64, under: i64) -> (less: bool)
    requires
        0 < over <= 0x7fff_ffff,
        0 < under <= 0x7fff_ffff,
    ensures
        less == ratio_below(*ratio, over as int, under as int),
{
    assert(0 <= ratio.numerator * under <= 0xffff_ffff * 0x7fff_ffff && 0 <= over
        * ratio.denominator <= 0x7fff_ffff * 0xffff_ffff) by (nonlinear_arith)
        requires
            0 <= ratio.numerator <= 0xffff_ffff,
            0 <= ratio.denominator <= 0xffff_ffff,
            0 < over <= 0x7fff_ffff,
            0 < under <= 0x7fff_ffff,
    ;
    (ratio.numerator as u128) * (under as u128) < (over as u128) * (ratio.denominator as u128)
}

/// Computes `scaled` where the ratio lies below `limit / length`.
fn scale(length: i64, ratio: &AspectRatio, limit: i64) -> (product: i64)
    requires
        0 < length <= 0x7fff_ffff,
        0 < limit <= 0x7fff_ffff,
        ratio.denominator > 0,
        ratio_below(*ratio, limit as int, length as int),
    ensures
        product == scaled(length as int, *ratio),
        0 <= product <= limit,
{
    let numerator = ratio.numerator;
    let denominator = ratio.denominator;
    assert(0 <= 2 * length * numerator <= 2 * 0x7fff_ffff * 0xffff_ffff) by (nonlinear_arith)
        requires
            0 <= numerator <= 0xffff_ffff,
            0 < length <= 0x7fff_ffff,
    ;
    let top: u128 = 2 * (length as u128) * (numerator as u128) + (denominator as u128);
    let bottom: u128 = 2 * (denominator as u128);
    let quotient: u128 = top / bottom;
    proof {
        vstd::arithmetic::div_mod::lemma_fundamental_div_mod(top as int, bottom as int);
        vstd::arithmetic::div_mod::lemma_mod_bound(top as int, bottom as int);
        vstd::arithmetic::div_mod::lemma_div_pos_is_pos(top as int, bottom as int);
        let remainder = top as int % bottom as int;
        assert(quotient <= limit) by (nonlinear_arith)
            requires
                top == bottom * quotient + remainder,
                0 <= remainder,
                top == 2 * length * numerator + denominator,
                bottom == 2 * denominator,
                denominator > 0,
                numerator * length < limit * denominator,
                quotient >= 0,
        ;
    }
    quotient as i64
}

/// Computes `rounded`.
fn round(length: i64, increment: i32) -> (result: i64)
    requires
        -0x1_0000_0000 <= length <= 0x1_0000_0000,
    ensures
        result == rounded(length as int, increment as int),
        length >= 0 ==> 0 <= result <= length,
        length < 0 ==> length <= result <= 0,
{
    if increment <= 0 {
        length
    } else if length >= 0 {
        let remainder: i64 = length % (increment as i64);
        proof {
            vstd::arithmetic::div_mod::lemma_mod_bound(length as int, increment as int);
            vstd::arithmetic::div_mod::lemma_fundamental_div_mod(length as int, increment as int);
            vstd::arithmetic::div_mod::lemma_div_pos_is_pos(length as int, increment as int);
            let quotient = length as int / increment as int;
            assert(increment * quotient >= 0) by (nonlinear_arith)
                requires
                    increment > 0,
                    quotient >= 0,
            ;
        }
        length - remainder
    } else {
        let positive: i64 = -length;
        let remainder: i64 = positive % (increment as i64);
        proof {
            vstd::arithmetic::div_mod::lemma_mod_bound(positive as int, increment as int);
            vstd::arithmetic::div_mod::lemma_fundamental_div_mod(
                positive as int,
                increment as int,
            );
            vstd::arithmetic::div_mod::lemma_div_pos_is_pos(positive as int, increment as int);
            let quotient = positive as int / increment as int;
            assert(increment * quotient >= 0) by (nonlinear_arith)
                requires
                    increment > 0,
                    quotient >= 0,
            ;
        }
        length + remainder
    }
}

/// Computes `bounded`.
fn bound(length: i64, least: i32, most: i32) -> (result: i64)
    ensures
        result == bounded(length as int, least as int, most as int),
{
    let raised: i64 = if length < least as i64 {
        least as i64
    } else {
        length
    };
    if most > 0 && raised > most as i64 {
        most as i64
    } else {
        raised
    }
}

} // verus!
