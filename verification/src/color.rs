//! Colours derived from names: a multiplicative hash split into three channels,
//! and the brightening that lifts a dark colour to a minimal channel sum.

use vstd::prelude::*;
use vstd::wrapping::usize_specs;

verus! {

/// The largest value of a colour channel.
pub const CHANNEL_MAX: usize = 255;

/// The modulus by which a hash is split into channels.
pub const CHANNEL_BASE: usize = 255;

/// The floor to which the settings hold a seed, so that it is never the zero
/// that turns every colour black.
pub const SEED_FLOOR: usize = 2;

/// One of the three channels of a colour.
#[derive(Debug, Clone, Copy, PartialEq, Eq, Structural)]
pub enum Channel {
    Red,
    Green,
    Blue,
}

/// A colour as three channels. A well-formed colour keeps each channel within
/// `0..=255`; the fields are wider so that sums never overflow.
#[derive(Debug, Clone, Copy, PartialEq, Eq, Structural, PartialOrd, Ord)]
pub struct RgbColor {
    pub red: usize,
    pub green: usize,
    pub blue: usize,
}

/// `v`, held down to the channel maximum.
pub open spec fn capped(v: int) -> int {
    if v < 255 {
        v
    } else {
        255
    }
}

/// What is left of `need` once a channel of value `v` was raised by it as far
/// as the channel maximum allows.
pub open spec fn spill(v: int, need: int) -> int {
    if v + need < 255 {
        0
    } else {
        need - (255 - v)
    }
}

/// The hash of `key` under `seed`: the seed multiplied by every byte in turn,
/// each product wrapping at the machine word.
pub open spec fn fold_key(seed: usize, key: Seq<u8>) -> usize
    decreases key.len(),
{
    if key.len() == 0 {
        seed
    } else {
        usize_specs::wrapping_mul(fold_key(seed, key.drop_last()), key.last() as usize)
    }
}

/// The colour that a hash stands for: its three lowest digits in base 255,
/// blue being the lowest.
pub open spec fn channels_of(acc: usize) -> RgbColor {
    RgbColor {
        red: (((acc / 255) / 255) % 255) as usize,
        green: ((acc / 255) % 255) as usize,
        blue: (acc % 255) as usize,
    }
}

/// The colour of `key` under `seed`.
pub open spec fn derived(seed: usize, key: Seq<u8>) -> RgbColor {
    channels_of(fold_key(seed, key))
}

impl RgbColor {
    /// Every channel lies within `0..=255`.
    pub open spec fn wf(self) -> bool {
        self.red <= 255 && self.green <= 255 && self.blue <= 255
    }

    /// The sum of the three channels.
    pub open spec fn sum(self) -> int {
        self.red + self.green + self.blue
    }

    /// The value of one channel.
    pub open spec fn channel(self, which: Channel) -> int {
        match which {
            Channel::Red => self.red as int,
            Channel::Green => self.green as int,
            Channel::Blue => self.blue as int,
        }
    }

    /// The largest of the three channels.
    pub open spec fn highest(self) -> int {
        if self.red >= self.green && self.red >= self.blue {
            self.red as int
        } else if self.green >= self.blue {
            self.green as int
        } else {
            self.blue as int
        }
    }

    /// The channels from darkest to brightest. Equal channels keep the order
    /// red, green, blue.
    pub open spec fn ascending(self) -> (Channel, Channel, Channel) {
        if self.red <= self.green {
            if self.green <= self.blue {
                (Channel::Red, Channel::Green, Channel::Blue)
            } else if self.red <= self.blue {
                (Channel::Red, Channel::Blue, Channel::Green)
            } else {
                (Channel::Blue, Channel::Red, Channel::Green)
            }
        } else {
            if self.red <= self.blue {
                (Channel::Green, Channel::Red, Channel::Blue)
            } else if self.green <= self.blue {
                (Channel::Green, Channel::Blue, Channel::Red)
            } else {
                (Channel::Blue, Channel::Green, Channel::Red)
            }
        }
    }

    /// This colour with one channel replaced.
    pub open spec fn with_channel(self, which: Channel, v: int) -> RgbColor {
        match which {
            Channel::Red => RgbColor { red: v as usize, ..self },
            Channel::Green => RgbColor { green: v as usize, ..self },
            Channel::Blue => RgbColor { blue: v as usize, ..self },
        }
    }

    /// This colour with every channel raised by `amount`.
    pub open spec fn raised_by(self, amount: int) -> RgbColor {
        RgbColor {
            red: (self.red + amount) as usize,
            green: (self.green + amount) as usize,
            blue: (self.blue + amount) as usize,
        }
    }

    /// This colour after `need` was poured into its channels from the darkest
    /// to the brightest: each channel takes what is left of `need`, up to the
    /// channel maximum, and hands the rest on.
    pub open spec fn filled(self, need: int) -> RgbColor {
        let (first, second, third) = self.ascending();
        let after_first = spill(self.channel(first), need);
        let after_second = spill(self.channel(second), after_first);
        self.with_channel(first, capped(self.channel(first) + need)).with_channel(
            second,
            capped(self.channel(second) + after_first),
        ).with_channel(third, capped(self.channel(third) + after_second))
    }

    /// This colour brightened towards a channel sum of `min_sum`.
    ///
    /// A colour whose sum is above `min_sum` stays as it is. Otherwise, where
    /// a third of the missing amount fits above the brightest channel, every
    /// channel is raised by that third, rounded down; where it does not, the
    /// missing amount is poured into the channels from the darkest up.
    pub open spec fn padded(self, min_sum: int) -> RgbColor {
        let missing = min_sum - self.sum();
        if self.sum() > min_sum {
            self
        } else if (255 - self.highest()) * 3 > missing {
            self.raised_by(missing / 3)
        } else {
            self.filled(missing)
        }
    }

    /// White, the brightest colour.
    pub open spec fn white() -> RgbColor {
        RgbColor { red: 255, green: 255, blue: 255 }
    }

    /// No channel of `self` is below the same channel of `other`.
    pub open spec fn at_least(self, other: RgbColor) -> bool {
        self.red >= other.red && self.green >= other.green && self.blue >= other.blue
    }

    pub fn get_components_sum(&self) -> (total: usize)
        requires
            self.sum() <= usize::MAX,
        ensures
            total == self.sum(),
    {
        self.red + self.green + self.blue
    }

    pub fn as_tuple(&self) -> (channels: (usize, usize, usize))
        ensures
            channels == (self.red, self.green, self.blue),
    {
        (self.red, self.green, self.blue)
    }

    /// The colour of `key` under `seed`.
    pub fn derive(seed: usize, key: &[u8]) -> (color: RgbColor)
        ensures
            color == derived(seed, key@),
            color.wf(),
    {
        let mut acc: usize = seed;
        let mut i: usize = 0;
        while i < key.len()
            invariant
                i <= key.len(),
                acc == fold_key(seed, key@.take(i as int)),
            decreases key.len() - i,
        {
            proof {
                let next = key@.take(i + 1);
                assert(next.drop_last() =~= key@.take(i as int));
                assert(next.last() == key@[i as int]);
            }
            acc = acc.wrapping_mul(key[i] as usize);
            i = i + 1;
        }
        proof {
            assert(key@.take(i as int) =~= key@);
        }
        let blue: usize = acc % CHANNEL_BASE;
        let rest: usize = acc / CHANNEL_BASE;
        let green: usize = rest % CHANNEL_BASE;
        let red: usize = (rest / CHANNEL_BASE) % CHANNEL_BASE;
        RgbColor { red, green, blue }
    }

    fn highest_channel(&self) -> (top: usize)
        ensures
            top == self.highest(),
    {
        if self.red >= self.green && self.red >= self.blue {
            self.red
        } else if self.green >= self.blue {
            self.green
        } else {
            self.blue
        }
    }

    fn ascending_channels(&self) -> (order: (Channel, Channel, Channel))
        ensures
            order == self.ascending(),
    {
        if self.red <= self.green {
            if self.green <= self.blue {
                (Channel::Red, Channel::Green, Channel::Blue)
            } else if self.red <= self.blue {
                (Channel::Red, Channel::Blue, Channel::Green)
            } else {
                (Channel::Blue, Channel::Red, Channel::Green)
            }
        } else {
            if self.red <= self.blue {
                (Channel::Green, Channel::Red, Channel::Blue)
            } else if self.green <= self.blue {
                (Channel::Green, Channel::Blue, Channel::Red)
            } else {
                (Channel::Blue, Channel::Green, Channel::Red)
            }
        }
    }

    /// Raises one channel by `need` as far as the maximum allows and returns
    /// what is left of `need`.
    fn fill_channel(&mut self, which: Channel, need: usize) -> (rest: usize)
        requires
            old(self).wf(),
        ensures
            *final(self) == old(self).with_channel(
                which,
                capped(old(self).channel(which) + need),
            ),
            rest == spill(old(self).channel(which), need as int),
            final(self).wf(),
    {
        let current: usize = match which {
            Channel::Red => self.red,
            Channel::Green => self.green,
            Channel::Blue => self.blue,
        };
        let room: usize = CHANNEL_MAX - current;
        let (value, rest): (usize, usize) = if need < room {
            (current + need, 0)
        } else {
            (CHANNEL_MAX, need - room)
        };
        match which {
            Channel::Red => {
                self.red = value;
            },
            Channel::Green => {
                self.green = value;
            },
            Channel::Blue => {
                self.blue = value;
            },
        }
        rest
    }

    /// Brightens the colour towards a channel sum of `min_rgb_sum`.
    ///
    /// The result is never dimmer than the colour was, keeps every channel
    /// within range, and misses `min_rgb_sum` by at most two unless it is
    /// white.
    pub fn pad_lowest(&mut self, min_rgb_sum: usize)
        requires
            old(self).wf(),
        ensures
            *final(self) == old(self).padded(min_rgb_sum as int),
            final(self).wf(),
            final(self).at_least(*old(self)),
            final(self).sum() + 2 >= min_rgb_sum || *final(self) == RgbColor::white(),
    {
        proof {
            lemma_padded_is_brighter(*self, min_rgb_sum as int);
        }
        let total: usize = self.get_components_sum();
        if total > min_rgb_sum {
            return ;
        }
        let missing: usize = min_rgb_sum - total;
        let top: usize = self.highest_channel();
        if (CHANNEL_MAX - top) * 3 > missing {
            let share: usize = missing / 3;
            self.red = self.red + share;
            self.green = self.green + share;
            self.blue = self.blue + share;
            return ;
        }
        let (first, second, third) = self.ascending_channels();
        let after_first: usize = self.fill_channel(first, missing);
        let after_second: usize = self.fill_channel(second, after_first);
        let _ = self.fill_channel(third, after_second);
    }
}

/// Brightening keeps a well-formed colour well-formed, dims no channel, and
/// ends at most two below the requested sum unless it ends in white.
pub proof fn lemma_padded_is_brighter(color: RgbColor, min_sum: int)
    requires
        color.wf(),
        0 <= min_sum,
    ensures
        color.padded(min_sum).wf(),
        color.padded(min_sum).at_least(color),
        color.padded(min_sum).sum() + 2 >= min_sum || color.padded(min_sum) == RgbColor::white(),
{
}

/// Brightening reaches the requested sum or ends in white, whenever the
/// missing amount is not split into thirds that leave a remainder.
pub proof fn lemma_padded_meets_minimum(color: RgbColor, min_sum: int)
    requires
        color.wf(),
        0 <= min_sum <= 765,
        color.sum() > min_sum || (255 - color.highest()) * 3 <= min_sum - color.sum() || (min_sum
            - color.sum()) % 3 == 0,
    ensures
        color.padded(min_sum).sum() >= min_sum || color.padded(min_sum) == RgbColor::white(),
{
}

/// Under a seed of zero every key is black.
pub proof fn lemma_zero_seed_is_black(key: Seq<u8>)
    ensures
        derived(0, key) == (RgbColor { red: 0, green: 0, blue: 0 }),
{
    lemma_zero_seed_folds_to_zero(key);
}

proof fn lemma_zero_seed_folds_to_zero(key: Seq<u8>)
    ensures
        fold_key(0, key) == 0,
    decreases key.len(),
{
    if key.len() > 0 {
        lemma_zero_seed_folds_to_zero(key.drop_last());
        let byte = key.last() as usize;
        assert(0nat * (byte as nat) == 0) by (nonlinear_arith);
    }
}

/// A seed held at or above the floor, so that it is never zero.
pub fn floor_seed(seed: usize) -> (floored: usize)
    ensures
        floored == if seed < SEED_FLOOR { SEED_FLOOR } else { seed },
        floored >= 2,
{
    if seed < SEED_FLOOR {
        SEED_FLOOR
    } else {
        seed
    }
}

} // verus!
