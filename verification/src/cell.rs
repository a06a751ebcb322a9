//! Cells of the sand grid: a material tag plus a display color.

use vstd::prelude::*;

verus! {

/// The substance type of a cell: none, or a granular type. All non-empty
/// materials share the single gravity behavior of the settling step.
#[derive(Clone, Copy, PartialEq, Eq, Structural, Debug)]
pub enum Material {
    Empty,
    Sand,
}

/// A display color, one byte per channel, in RGBA order.
#[derive(Clone, Copy, PartialEq, Eq, Structural, Debug)]
pub struct Rgba8 {
    pub r: u8,
    pub g: u8,
    pub b: u8,
    pub a: u8,
}

/// One grid unit: a material tag and the color it is displayed with.
#[derive(Clone, Copy, PartialEq, Eq, Structural, Debug)]
pub struct Cell {
    pub material: Material,
    pub color: Rgba8,
}

/// The color an empty cell is displayed with: fully transparent black,
/// which is also what a freshly allocated pixel buffer holds.
pub open spec fn clear_color() -> Rgba8 {
    Rgba8 { r: 0, g: 0, b: 0, a: 0 }
}

/// The display color of each material.
pub open spec fn material_color(m: Material) -> Rgba8 {
    match m {
        Material::Empty => clear_color(),
        Material::Sand => Rgba8 { r: 230, g: 200, b: 110, a: 255 },
    }
}

/// The cell freshly constructed from a material: the material itself,
/// displayed with that material's color.
pub open spec fn cell_of(m: Material) -> Cell {
    Cell { material: m, color: material_color(m) }
}

/// The default cell: no material, no effect on simulation or image.
pub open spec fn empty_cell() -> Cell {
    cell_of(Material::Empty)
}

impl Cell {
    /// The default cell: no material and the clear color.
    pub fn empty() -> (c: Cell)
        ensures
            c == empty_cell(),
    {
        Cell { material: Material::Empty, color: Rgba8 { r: 0, g: 0, b: 0, a: 0 } }
    }

    /// A fresh cell of the given material, carrying that material's color.
    pub fn of_material(m: Material) -> (c: Cell)
        ensures
            c == cell_of(m),
    {
        match m {
            Material::Empty => Cell { material: m, color: Rgba8 { r: 0, g: 0, b: 0, a: 0 } },
            Material::Sand => Cell { material: m, color: Rgba8 { r: 230, g: 200, b: 110, a: 255 } },
        }
    }

    /// Whether this cell holds no material.
    pub fn is_empty(&self) -> (b: bool)
        ensures
            b == (self.material == Material::Empty),
    {
        self.material == Material::Empty
    }
}

} // verus!
