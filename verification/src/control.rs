//! The state that the control loop owns, and what each input does to it.
//!
//! The loop itself, which polls input and draws, lives outside this crate.
//! It turns each input into an [`Input`] value and hands it to
//! [`Model::handle`]; while the pointer moves it hands the cell under the
//! pointer to [`Model::pointer_at`].

use vstd::prelude::*;
use crate::axial::Axial;
use crate::coordinate::HexCoordinate;
use crate::engine::next_generation;
use crate::grid::{HexGrid, blank_cells, redrawn_cells};

verus! {

/// The radius of the grid that a new model starts with.
pub const INITIAL_RADIUS: i32 = 20;

/// The cell size that a new model starts with.
pub const INITIAL_SIZE: u32 = 15;

/// By how much one zoom input widens the cells.
pub const ZOOM_STEP: u32 = 10;

/// How cells are laid out on the screen: the orientation of the hexagons and
/// the size of one cell, in whole pixel units.
#[derive(Clone, Copy, Debug, PartialEq, Eq, Structural)]
pub enum Spacing {
    /// Hexagons with an edge on top.
    FlatTop(u32),
    /// Hexagons with a corner on top.
    PointyTop(u32),
}

impl Spacing {
    /// The size of one cell.
    pub open spec fn spec_size(self) -> u32 {
        match self {
            Spacing::FlatTop(size) => size,
            Spacing::PointyTop(size) => size,
        }
    }

    /// The same orientation with the given size.
    pub open spec fn with_size(self, size: u32) -> Spacing {
        match self {
            Spacing::FlatTop(_) => Spacing::FlatTop(size),
            Spacing::PointyTop(_) => Spacing::PointyTop(size),
        }
    }

    /// The spacing after one zoom input: the size grows by [`ZOOM_STEP`] and
    /// stops at the largest value of its type.
    pub open spec fn spec_widened(self) -> Spacing {
        if self.spec_size() <= u32::MAX - ZOOM_STEP {
            self.with_size((self.spec_size() + ZOOM_STEP) as u32)
        } else {
            self.with_size(u32::MAX)
        }
    }

    /// The size of one cell.
    pub fn size(&self) -> (size: u32)
        ensures
            size == self.spec_size(),
    {
        match self {
            Spacing::FlatTop(size) => *size,
            Spacing::PointyTop(size) => *size,
        }
    }

    /// The spacing after one zoom input.
    pub fn widened(&self) -> (wider: Spacing)
        ensures
            wider == self.spec_widened(),
    {
        let size = self.size();
        let grown: u32 = if size <= u32::MAX - ZOOM_STEP {
            size + ZOOM_STEP
        } else {
            u32::MAX
        };
        match self {
            Spacing::FlatTop(_) => Spacing::FlatTop(grown),
            Spacing::PointyTop(_) => Spacing::PointyTop(grown),
        }
    }
}

/// One input of the user, as the control loop reports it.
#[derive(Clone, Debug, PartialEq, Eq)]
pub enum Input {
    /// The pointer button went down: painting starts.
    PointerPressed,
    /// The pointer button went up: painting stops.
    PointerReleased,
    /// Advance the grid by one generation.
    Advance,
    /// Give every cell a new state: the draws, one per cell in layout order,
    /// that the control loop made for this input.
    Randomize(Vec<bool>),
    /// Make every cell dead.
    Clear,
    /// Widen the cells on the screen.
    Zoom,
}

/// Everything the control loop keeps between frames.
#[derive(Clone, Debug, PartialEq, Eq)]
pub struct Model {
    /// Whether the pointer button is held down.
    pub mouse_pressed: bool,
    /// The automaton.
    pub grid: HexGrid,
    /// The layout of the cells on the screen.
    pub spacing: Spacing,
}

impl Model {
    /// The invariant of a model: that of its grid.
    pub open spec fn wf(&self) -> bool {
        self.grid.wf()
    }

    /// The cells of the grid after `input`.
    pub open spec fn cells_after(&self, input: Input) -> Map<Axial, bool> {
        match input {
            Input::Advance => next_generation(self.grid@, self.grid.spec_radius()),
            Input::Randomize(draws) => redrawn_cells(self.grid@, draws@),
            Input::Clear => blank_cells(self.grid.spec_radius()),
            _ => self.grid@,
        }
    }

    /// Whether the pointer button is held after `input`.
    pub open spec fn pressed_after(&self, input: Input) -> bool {
        match input {
            Input::PointerPressed => true,
            Input::PointerReleased => false,
            _ => self.mouse_pressed,
        }
    }

    /// The spacing after `input`.
    pub open spec fn spacing_after(&self, input: Input) -> Spacing {
        match input {
            Input::Zoom => self.spacing.spec_widened(),
            _ => self.spacing,
        }
    }

    /// The model that the control loop starts with: a dead grid of radius
    /// [`INITIAL_RADIUS`], flat-topped cells of size [`INITIAL_SIZE`], the
    /// pointer button up.
    pub fn new() -> (model: Model)
        ensures
            model.wf(),
            !model.mouse_pressed,
            model.grid.spec_radius() == INITIAL_RADIUS,
            model.grid@ == blank_cells(INITIAL_RADIUS as int),
            model.spacing == Spacing::FlatTop(INITIAL_SIZE),
    {
        let grid = HexGrid::new(INITIAL_RADIUS).unwrap();
        Model { mouse_pressed: false, grid, spacing: Spacing::FlatTop(INITIAL_SIZE) }
    }

    /// Applies one input.
    pub fn handle(&mut self, input: &Input)
        requires
            old(self).wf(),
        ensures
            final(self).wf(),
            final(self).grid.spec_radius() == old(self).grid.spec_radius(),
            final(self).grid@ == old(self).cells_after(*input),
            final(self).mouse_pressed == old(self).pressed_after(*input),
            final(self).spacing == old(self).spacing_after(*input),
    {
        match input {
            Input::PointerPressed => {
                self.mouse_pressed = true;
            },
            Input::PointerReleased => {
                self.mouse_pressed = false;
            },
            Input::Advance => {
                self.grid.tick();
            },
            Input::Randomize(draws) => {
                self.grid.randomize(draws);
            },
            Input::Clear => {
                let radius = self.grid.radius();
                let _ = self.grid.reset(radius);
            },
            Input::Zoom => {
                self.spacing = self.spacing.widened();
            },
        }
    }

    /// Reports the cell under the pointer. While the button is held the cell
    /// becomes alive, if the grid holds it; otherwise nothing changes.
    pub fn pointer_at(&mut self, c: HexCoordinate)
        requires
            old(self).wf(),
        ensures
            final(self).wf(),
            final(self).mouse_pressed == old(self).mouse_pressed,
            final(self).spacing == old(self).spacing,
            final(self).grid.spec_radius() == old(self).grid.spec_radius(),
            final(self).grid@ == if old(self).mouse_pressed && old(self).grid@.dom().contains(c@) {
                old(self).grid@.insert(c@, true)
            } else {
                old(self).grid@
            },
    {
        if self.mouse_pressed {
            self.grid.set(c, true);
        }
    }
}

} // verus!
