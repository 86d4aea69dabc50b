//! The simulated entity: a crab with a name, a speed, a color and a diet.

use vstd::prelude::*;

verus! {

/// A crab's shell color. Crossing two colors yields the one color that
/// neither parent has, or the shared color when both parents agree.
#[derive(Clone, Copy, Debug, PartialEq, Eq, Structural)]
pub enum Color {
    Red,
    Green,
    Blue,
}

impl Color {
    /// The color a child inherits from parents colored `a` and `b`.
    pub open spec fn cross_spec(a: Color, b: Color) -> Color {
        if a == b {
            a
        } else if a != Color::Red && b != Color::Red {
            Color::Red
        } else if a != Color::Green && b != Color::Green {
            Color::Green
        } else {
            Color::Blue
        }
    }

    /// Crosses two parent colors: the shared color if they agree, otherwise
    /// the one color neither parent has.
    pub fn cross(a: Color, b: Color) -> (r: Color)
        ensures
            r == Color::cross_spec(a, b),
    {
        if a == b {
            a
        } else if a != Color::Red && b != Color::Red {
            Color::Red
        } else if a != Color::Green && b != Color::Green {
            Color::Green
        } else {
            Color::Blue
        }
    }
}

/// What a crab eats.
#[derive(Clone, Copy, Debug, PartialEq, Eq, Structural)]
pub enum Diet {
    Plants,
    Fish,
    Shellfish,
}

/// Relies on `rand::random`: draws a value of type `T` from the standard
/// distribution. Nothing is promised of the value drawn.
pub assume_specification<T>[ rand::random::<T> ]() -> (r: T)
    where
        rand::distributions::Standard: rand::distributions::Distribution<T>,
;

impl Diet {
    /// Picks a diet at random; every variant is a possible outcome.
    pub fn random_diet() -> Diet {
        let n = rand::random::<u64>();
        if n % 3 == 0 {
            Diet::Plants
        } else if n % 3 == 1 {
            Diet::Fish
        } else {
            Diet::Shellfish
        }
    }
}

/// A simulated crab. Crabs are immutable once constructed; a beach takes
/// ownership of each crab added to it.
#[derive(Debug)]
pub struct Crab {
    pub name: String,
    pub speed: u32,
    pub color: Color,
    pub diet: Diet,
}

impl Crab {
    pub fn new(name: String, speed: u32, color: Color, diet: Diet) -> (c: Crab)
        ensures
            c.name@ == name@,
            c.speed == speed,
            c.color == color,
            c.diet == diet,
    {
        Crab { name, speed, color, diet }
    }

    pub fn name(&self) -> (r: &String)
        ensures
            r@ == self.name@,
    {
        &self.name
    }

    pub fn speed(&self) -> (r: u32)
        ensures
            r == self.speed,
    {
        self.speed
    }

    pub fn color(&self) -> (r: Color)
        ensures
            r == self.color,
    {
        self.color
    }

    pub fn diet(&self) -> (r: Diet)
        ensures
            r == self.diet,
    {
        self.diet
    }
}

} // verus!
