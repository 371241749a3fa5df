//! The animated starfield behind the terminal screens: stars drift downward at
//! different speeds and wrap around at the bottom.

use rand::rngs::SmallRng;
use vstd::prelude::*;

use crate::rng::{gen_u16_below, gen_u8_inclusive};

verus! {

/// A single star in the field.
#[derive(Debug, Clone, Copy, PartialEq, Eq, Structural)]
pub struct Star {
    /// Column position.
    pub x: u16,
    /// Row position.
    pub y: u16,
    /// Ticks between each downward move (1 = fast, 3 = slow).
    pub speed: u8,
    /// 0 = dim, 1 = normal, 2 = bright.
    pub brightness: u8,
}

/// Persistent starfield state shared across screens.
#[derive(Debug, Clone)]
pub struct Starfield {
    /// The stars.
    pub stars: Vec<Star>,
    /// Ticks so far (wrapping).
    pub tick_counter: u16,
    /// Width of the area the stars fill.
    pub width: u16,
    /// Height of the area the stars fill.
    pub height: u16,
}

/// The number of stars in a field.
pub const NUM_STARS: usize = 60;

/// A star as generated for a `width`×`height` area: inside it (inside one cell when a
/// side is 0), with a speed of 1 to 3 and a brightness of 0 to 2.
pub open spec fn fresh_star(s: Star, width: u16, height: u16) -> bool {
    &&& s.x < (if width >= 1 { width } else { 1 })
    &&& s.y < (if height >= 1 { height } else { 1 })
    &&& 1 <= s.speed <= 3
    &&& s.brightness <= 2
}

/// A fresh set of stars for a `width`×`height` area.
pub open spec fn fresh_stars(stars: Seq<Star>, width: u16, height: u16) -> bool {
    &&& stars.len() == NUM_STARS
    &&& forall|i: int| 0 <= i < stars.len() ==> fresh_star(#[trigger] stars[i], width, height)
}

/// Whether a star of the given speed moves on this tick: every `speed` ticks (a star of
/// speed 0 only on tick 0).
pub open spec fn moves_on(counter: u16, speed: u8) -> bool {
    if speed == 0 {
        counter == 0
    } else {
        counter % (speed as u16) == 0
    }
}

/// A star after a tick: one row down when it moves, back to the top past the bottom.
pub open spec fn ticked(s: Star, counter: u16, height: u16) -> Star {
    if moves_on(counter, s.speed) {
        if s.y + 1 >= height {
            Star { y: 0, ..s }
        } else {
            Star { y: (s.y + 1) as u16, ..s }
        }
    } else {
        s
    }
}

impl Starfield {
    /// Create a new starfield filling `width`×`height`.
    pub fn new(width: u16, height: u16, rng: &mut SmallRng) -> (f: Starfield)
        ensures
            fresh_stars(f.stars@, width, height),
            f.tick_counter == 0,
            f.width == width,
            f.height == height,
    {
        let stars = Self::generate_stars(width, height, rng);
        Starfield { stars, tick_counter: 0, width, height }
    }

    /// Advance stars by one tick (~33 ms).
    pub fn tick(&mut self)
        requires
            forall|i: int| 0 <= i < old(self).stars@.len() ==> (#[trigger] old(self).stars@[i]).y < u16::MAX,
        ensures
            final(self).tick_counter == (if old(self).tick_counter == u16::MAX {
                0
            } else {
                old(self).tick_counter + 1
            }),
            final(self).width == old(self).width,
            final(self).height == old(self).height,
            final(self).stars@.len() == old(self).stars@.len(),
            forall|i: int| 0 <= i < old(self).stars@.len() ==> #[trigger] final(self).stars@[i] == ticked(
                old(self).stars@[i],
                final(self).tick_counter,
                old(self).height,
            ),
    {
        self.tick_counter = if self.tick_counter == 65535 { 0 } else { self.tick_counter + 1 };
        let counter = self.tick_counter;
        let height = self.height;
        let mut i: usize = 0;
        while i < self.stars.len()
            invariant
                i <= self.stars@.len(),
                self.stars@.len() == old(self).stars@.len(),
                self.tick_counter == counter,
                self.height == height && height == old(self).height,
                self.width == old(self).width,
                forall|k: int| 0 <= k < old(self).stars@.len() ==> (#[trigger] old(self).stars@[k]).y < u16::MAX,
                forall|k: int| 0 <= k < i ==> #[trigger] self.stars@[k] == ticked(old(self).stars@[k], counter, height),
                forall|k: int| i <= k < self.stars@.len() ==> #[trigger] self.stars@[k] == old(self).stars@[k],
            decreases self.stars@.len() - i,
        {
            let mut star = self.stars[i];
            let moves = if star.speed == 0 {
                counter == 0
            } else {
                counter % (star.speed as u16) == 0
            };
            if moves {
                star.y = star.y + 1;
                if star.y >= height {
                    star.y = 0;
                }
            }
            self.stars.set(i, star);
            i = i + 1;
        }
    }

    /// Recalculate on terminal resize: a new set of stars when the size changed.
    pub fn resize(&mut self, width: u16, height: u16, rng: &mut SmallRng)
        ensures
            width == old(self).width && height == old(self).height ==> *final(self) == *old(self),
            !(width == old(self).width && height == old(self).height) ==> {
                &&& final(self).width == width
                &&& final(self).height == height
                &&& final(self).tick_counter == old(self).tick_counter
                &&& fresh_stars(final(self).stars@, width, height)
            },
    {
        if width != self.width || height != self.height {
            self.width = width;
            self.height = height;
            self.stars = Self::generate_stars(width, height, rng);
        }
    }

    fn generate_stars(width: u16, height: u16, rng: &mut SmallRng) -> (stars: Vec<Star>)
        ensures
            fresh_stars(stars@, width, height),
    {
        let w = if width >= 1 { width } else { 1 };
        let h = if height >= 1 { height } else { 1 };
        let mut stars: Vec<Star> = Vec::new();
        let mut i: usize = 0;
        while i < NUM_STARS
            invariant
                i <= NUM_STARS,
                stars@.len() == i,
                w == (if width >= 1 { width } else { 1 }),
                h == (if height >= 1 { height } else { 1 }),
                forall|k: int| 0 <= k < i ==> fresh_star(#[trigger] stars@[k], width, height),
            decreases NUM_STARS - i,
        {
            let x = gen_u16_below(rng, w);
            let y = gen_u16_below(rng, h);
            let speed = gen_u8_inclusive(rng, 1, 3);
            let brightness = gen_u8_inclusive(rng, 0, 2);
            stars.push(Star { x, y, speed, brightness });
            i = i + 1;
        }
        stars
    }
}

/// Stateless widget that draws a [`Starfield`].
pub struct StarfieldWidget<'a> {
    /// The field to draw.
    pub starfield: &'a Starfield,
}

impl<'a> StarfieldWidget<'a> {
    /// The widget drawing `starfield`.
    pub fn new(starfield: &'a Starfield) -> (w: StarfieldWidget<'a>)
        ensures
            w.starfield == starfield,
    {
        StarfieldWidget { starfield }
    }
}

} // verus!
