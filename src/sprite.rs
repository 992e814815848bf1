use vstd::prelude::*;

use crate::board::{Board, Cell};

verus! {

/// Whether the board runs on its own or waits for the user to edit its cells.
#[derive(Clone, Copy, Debug, PartialEq, Eq, Structural)]
pub enum Mode {
    Normal,
    Edit,
}

impl Mode {
    /// The other mode.
    pub fn switched(self) -> (r: Mode)
        ensures
            r != self,
    {
        match self {
            Mode::Normal => Mode::Edit,
            Mode::Edit => Mode::Normal,
        }
    }
}

/// A square on screen in pixels: its top left corner and its side.
#[derive(Clone, Copy, Debug, PartialEq, Eq, Structural)]
pub struct PixelRect {
    pub x: i32,
    pub y: i32,
    pub size: u32,
}

/// A board together with how it is shown: its mode and the side of a cell in pixels.
pub struct BoardSprite {
    pub board: Board,
    pub mode: Mode,
    pub cell_size: usize,
}

/// The largest pixel coordinate on screen.
pub const MAX_PIXEL: i32 = 0x7fff_ffff;

impl BoardSprite {
    /// A sprite of `board` in `mode`, each cell `cell_size` pixels wide.
    pub fn new(board: Board, mode: Mode, cell_size: usize) -> (r: BoardSprite)
        ensures
            r.board == board,
            r.mode == mode,
            r.cell_size == cell_size,
    {
        BoardSprite { board, mode, cell_size }
    }

    /// The cell under the pixel `(x, y)`; a pixel left of or above the board, or past its
    /// last column or row, is refused.
    pub fn point_to_cell(&self, x: i32, y: i32) -> (r: Result<Cell, String>)
        requires
            self.cell_size >= 1,
        ensures
            r is Ok <==> x >= 0 && y >= 0 && (x as int) / (self.cell_size as int) < self.board.spec_width()
                && (y as int) / (self.cell_size as int) < self.board.spec_height(),
            r matches Ok(c) ==> c.x == (x as int) / (self.cell_size as int) && c.y == (y as int) / (self.cell_size as int),
    {
        if x < 0 || y < 0 {
            return Err("Point is out of board's bounds".to_string());
        }
        let cx = x as usize / self.cell_size;
        let cy = y as usize / self.cell_size;
        if cx >= self.board.width() || cy >= self.board.height() {
            return Err("Point is out of board's bounds".to_string());
        }
        Ok(Cell { x: cx, y: cy })
    }

    /// The square that the cell `cell` covers on screen. A cell outside the board, or one
    /// whose square does not fit in pixel coordinates, is refused.
    pub fn cell_rect(&self, cell: &Cell) -> (r: Result<PixelRect, String>)
        ensures
            r is Ok <==> cell.x < self.board.spec_width() && cell.y < self.board.spec_height()
                && (cell.x + 1) * self.cell_size <= MAX_PIXEL
                && (cell.y + 1) * self.cell_size <= MAX_PIXEL,
            r matches Ok(s) ==> s.x == cell.x * self.cell_size && s.y == cell.y * self.cell_size
                && s.size == self.cell_size,
    {
        if cell.x >= self.board.width() || cell.y >= self.board.height() {
            return Err("Cell is out of board's bounds".to_string());
        }
        let limit = MAX_PIXEL as usize;
        let right = match (cell.x + 1).checked_mul(self.cell_size) {
            Some(v) => v,
            None => return Err("Cell is out of the screen".to_string()),
        };
        let bottom = match (cell.y + 1).checked_mul(self.cell_size) {
            Some(v) => v,
            None => return Err("Cell is out of the screen".to_string()),
        };
        if right > limit || bottom > limit {
            return Err("Cell is out of the screen".to_string());
        }
        assert(right >= self.cell_size && bottom >= self.cell_size) by (nonlinear_arith)
            requires
                right == (cell.x + 1) * self.cell_size,
                bottom == (cell.y + 1) * self.cell_size,
        ;
        let left = right - self.cell_size;
        let top = bottom - self.cell_size;
        assert(left == cell.x * self.cell_size) by (nonlinear_arith)
            requires
                right == (cell.x + 1) * self.cell_size,
                left == right - self.cell_size,
        ;
        assert(top == cell.y * self.cell_size) by (nonlinear_arith)
            requires
                bottom == (cell.y + 1) * self.cell_size,
                top == bottom - self.cell_size,
        ;
        Ok(PixelRect { x: left as i32, y: top as i32, size: self.cell_size as u32 })
    }
}

} // verus!
