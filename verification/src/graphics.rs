//! Drawing handles and the surface a frame is recorded on.

use vstd::prelude::*;

verus! {

/// Handle to a font the host has loaded.
#[derive(Clone, Copy, Debug, PartialEq, Eq, Structural)]
pub struct Font {
    pub asset: u64,
}

/// Handle to an image the host has loaded.
#[derive(Clone, Copy, Debug, PartialEq, Eq, Structural)]
pub struct Image {
    pub asset: u64,
}

/// Handle to a laid-out piece of text, with the width the host measured.
#[derive(Clone, Copy, Debug, PartialEq, Eq, Structural)]
pub struct Text {
    pub asset: u64,
    pub width: i32,
}

/// An RGBA colour.
#[derive(Clone, Copy, Debug, PartialEq, Eq, Structural)]
pub struct Color {
    pub r: u8,
    pub g: u8,
    pub b: u8,
    pub a: u8,
}

/// A rectangle inside a sprite sheet.
#[derive(Clone, Copy, Debug, PartialEq, Eq, Structural)]
pub struct Quad {
    pub u: i32,
    pub v: i32,
    pub w: i32,
    pub h: i32,
}

/// The sheet a sprite is cut from.
#[derive(Clone, Copy, Debug, PartialEq, Eq, Structural)]
pub enum Sheet {
    Main,
    Hearts,
}

/// One step of a frame.
#[derive(Clone, Copy, Debug, PartialEq, Eq, Structural)]
pub enum DrawOp {
    Clear(Color),
    Sprite { sheet: Sheet, src: Quad, x: i32, y: i32 },
    Label { text: Text, x: i32, y: i32, color: Color },
    Present,
}

pub open spec fn black() -> Color {
    Color { r: 0, g: 0, b: 0, a: 255 }
}

pub open spec fn white() -> Color {
    Color { r: 255, g: 255, b: 255, a: 255 }
}

pub open spec fn green() -> Color {
    Color { r: 0, g: 255, b: 0, a: 255 }
}

/// Colour of the menu entry under the cursor.
pub open spec fn highlight() -> Color {
    Color { r: 200, g: 200, b: 255, a: 255 }
}

/// A drawing surface: the steps recorded so far, and whether it is the
/// current target.
#[derive(Clone, Debug)]
pub struct Canvas {
    ops: Vec<DrawOp>,
    bound: bool,
}

impl View for Canvas {
    type V = Seq<DrawOp>;

    closed spec fn view(&self) -> Seq<DrawOp> {
        self.ops@
    }
}

impl Canvas {
    /// Whether the surface is the current target.
    pub closed spec fn is_bound(&self) -> bool {
        self.bound
    }

    /// An empty surface that is not the current target.
    pub fn new() -> (canvas: Canvas)
        ensures
            canvas@ == Seq::<DrawOp>::empty(),
            !canvas.is_bound(),
    {
        Canvas { ops: Vec::new(), bound: false }
    }

    /// Whether the surface is the current target.
    pub fn bound(&self) -> (b: bool)
        ensures
            b == self.is_bound(),
    {
        self.bound
    }

    /// Makes the surface the current target.
    pub fn bind(&mut self)
        ensures
            final(self).is_bound(),
            final(self)@ == old(self)@,
    {
        self.bound = true;
    }

    /// Gives the target back.
    pub fn release(&mut self)
        ensures
            !final(self).is_bound(),
            final(self)@ == old(self)@,
    {
        self.bound = false;
    }

    /// Records one step on the bound surface.
    pub fn draw(&mut self, op: DrawOp)
        requires
            old(self).is_bound(),
        ensures
            final(self).is_bound(),
            final(self)@ == old(self)@.push(op),
    {
        self.ops.push(op);
    }

    /// The steps recorded so far, oldest first.
    pub fn ops(&self) -> (ops: &Vec<DrawOp>)
        ensures
            ops@ == self@,
    {
        &self.ops
    }

    /// Forgets the recorded steps.
    pub fn reset(&mut self)
        ensures
            final(self)@ == Seq::<DrawOp>::empty(),
            final(self).is_bound() == old(self).is_bound(),
    {
        self.ops = Vec::new();
    }
}

} // verus!
