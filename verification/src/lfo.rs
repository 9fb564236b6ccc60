//! The LFO shapes of the modulation matrix, and how point files name them.

use vstd::prelude::*;
use crate::text::str_eq;

verus! {

/// The waveform of one LFO.
#[derive(Clone, Copy, PartialEq, Eq, Debug, Structural)]
pub enum LfoShape {
    Sine,
    Triangle,
    Saw,
    Square,
    /// Sample & hold: a pure function of the cycle number.
    Random,
}

/// The name of a shape, as point files and the schema spell it.
pub open spec fn lfo_shape_name_spec(shape: LfoShape) -> Seq<char> {
    match shape {
        LfoShape::Sine => "sine"@,
        LfoShape::Triangle => "triangle"@,
        LfoShape::Saw => "saw"@,
        LfoShape::Square => "square"@,
        LfoShape::Random => "random"@,
    }
}

/// The shape a name denotes; anything unknown is a sine.
pub open spec fn lfo_shape_from_spec(s: Seq<char>) -> LfoShape {
    if s == "triangle"@ {
        LfoShape::Triangle
    } else if s == "saw"@ {
        LfoShape::Saw
    } else if s == "square"@ {
        LfoShape::Square
    } else if s == "random"@ {
        LfoShape::Random
    } else {
        LfoShape::Sine
    }
}

pub fn lfo_shape_name(shape: LfoShape) -> (r: &'static str)
    ensures
        r@ == lfo_shape_name_spec(shape),
{
    match shape {
        LfoShape::Sine => "sine",
        LfoShape::Triangle => "triangle",
        LfoShape::Saw => "saw",
        LfoShape::Square => "square",
        LfoShape::Random => "random",
    }
}

pub fn lfo_shape_from(name: &str) -> (r: LfoShape)
    ensures
        r == lfo_shape_from_spec(name@),
{
    if str_eq(name, "triangle") {
        LfoShape::Triangle
    } else if str_eq(name, "saw") {
        LfoShape::Saw
    } else if str_eq(name, "square") {
        LfoShape::Square
    } else if str_eq(name, "random") {
        LfoShape::Random
    } else {
        LfoShape::Sine
    }
}

/// Reading a shape's name back gives the shape.
pub proof fn lemma_lfo_shape_round_trip(shape: LfoShape)
    ensures
        lfo_shape_from_spec(lfo_shape_name_spec(shape)) == shape,
{
    reveal_strlit("sine");
    reveal_strlit("triangle");
    reveal_strlit("saw");
    reveal_strlit("square");
    reveal_strlit("random");
    let s = lfo_shape_name_spec(shape);
    match shape {
        LfoShape::Sine => {
            assert(s[1] != "triangle"@[1]);
            assert(s.len() != "saw"@.len());
            assert(s[1] != "square"@[1]);
            assert(s[0] != "random"@[0]);
        },
        LfoShape::Triangle => {},
        LfoShape::Saw => {
            assert(s.len() != "triangle"@.len());
        },
        LfoShape::Square => {
            assert(s.len() != "triangle"@.len());
            assert(s.len() != "saw"@.len());
        },
        LfoShape::Random => {
            assert(s.len() != "triangle"@.len());
            assert(s.len() != "saw"@.len());
            assert(s[0] != "square"@[0]);
        },
    }
}

} // verus!
