//! Arena geometry: the tile grid and conversions between positions and tiles.
use vstd::prelude::*;
use crate::geometry::{Position, UNITS_PER_TILE};

verus! {

/// Types of tiles in the arena.
#[derive(Debug, Clone, Copy, PartialEq, Eq, Structural)]
pub enum TileType {
    Grass,
    Bridge,
    River,
    Tower,
    Decoration,
    Wall,
}

impl TileType {
    pub open spec fn spec_is_walkable(self) -> bool {
        self is Grass || self is Bridge || self is Tower
    }

    /// Whether units can walk on this tile.
    pub fn is_walkable(&self) -> (r: bool)
        ensures
            r == self.spec_is_walkable(),
    {
        match self {
            TileType::Grass | TileType::Bridge | TileType::Tower => true,
            _ => false,
        }
    }
}

/// The arena: a grid of `width` by `height` tiles, each `tile_size` length
/// units wide, stored row by row.
#[derive(Debug, Clone)]
pub struct Arena {
    pub width: u32,
    pub height: u32,
    pub tile_size: u32,
    pub tiles: Vec<Vec<TileType>>,
}

impl Arena {
    /// The grid has `height` rows of `width` tiles, and is not empty.
    pub open spec fn wf(&self) -> bool {
        &&& 0 < self.width
        &&& 0 < self.height
        &&& 0 < self.tile_size
        &&& self.width * self.tile_size <= i32::MAX
        &&& self.height * self.tile_size <= i32::MAX
        &&& self.tiles@.len() == self.height
        &&& forall|r: int| 0 <= r < self.height ==> (#[trigger] self.tiles@[r])@.len() == self.width
    }

    /// A 32 by 18 arena of grass with one-tile squares.
    pub fn new() -> (r: Arena)
        ensures
            r.wf(),
            r.width == 32,
            r.height == 18,
            r.tile_size == UNITS_PER_TILE,
            forall|y: int, x: int| 0 <= y < 18 && 0 <= x < 32 ==> (#[trigger] r.tiles@[y]@[x]) == TileType::Grass,
    {
        let mut tiles: Vec<Vec<TileType>> = Vec::new();
        let mut y: usize = 0;
        while y < 18
            invariant
                y <= 18,
                tiles@.len() == y,
                forall|r: int| 0 <= r < y ==> (#[trigger] tiles@[r])@.len() == 32,
                forall|r: int, x: int| 0 <= r < y && 0 <= x < 32 ==> (#[trigger] tiles@[r]@[x]) == TileType::Grass,
            decreases 18 - y,
        {
            let mut row: Vec<TileType> = Vec::new();
            let mut x: usize = 0;
            while x < 32
                invariant
                    x <= 32,
                    row@.len() == x,
                    forall|c: int| 0 <= c < x ==> (#[trigger] row@[c]) == TileType::Grass,
                decreases 32 - x,
            {
                row.push(TileType::Grass);
                x = x + 1;
            }
            tiles.push(row);
            y = y + 1;
        }
        Arena { width: 32, height: 18, tile_size: UNITS_PER_TILE as u32, tiles }
    }

    /// The tile at column `x`, row `y`.
    pub fn get_tile(&self, x: u32, y: u32) -> (r: Option<TileType>)
        requires
            self.wf(),
        ensures
            r is Some <==> x < self.width && y < self.height,
            r is Some ==> r->0 == self.tiles@[y as int]@[x as int],
    {
        if y >= self.height || x >= self.width {
            return None;
        }
        Some(self.tiles[y as usize][x as usize])
    }

    /// The tile holding `pos`, clamped into the grid.
    pub fn world_to_tile(&self, pos: &Position) -> (r: (u32, u32))
        requires
            self.wf(),
        ensures
            r.0 < self.width,
            r.1 < self.height,
            0 <= pos.x ==> r.0 == if (pos.x as int) / (self.tile_size as int) < self.width {
                (pos.x as int) / (self.tile_size as int)
            } else {
                self.width - 1
            },
            pos.x < 0 ==> r.0 == 0,
            0 <= pos.y ==> r.1 == if (pos.y as int) / (self.tile_size as int) < self.height {
                (pos.y as int) / (self.tile_size as int)
            } else {
                self.height - 1
            },
            pos.y < 0 ==> r.1 == 0,
    {
        let tx: u32 = if pos.x < 0 { 0 } else { (pos.x as u32) / self.tile_size };
        let ty: u32 = if pos.y < 0 { 0 } else { (pos.y as u32) / self.tile_size };
        (if tx < self.width { tx } else { self.width - 1 }, if ty < self.height { ty } else { self.height - 1 })
    }

    /// The centre of the tile at column `x`, row `y`.
    pub fn tile_to_world(&self, x: u32, y: u32) -> (r: Position)
        requires
            self.wf(),
            x < self.width,
            y < self.height,
        ensures
            r.x == x * self.tile_size + self.tile_size / 2,
            r.y == y * self.tile_size + self.tile_size / 2,
    {
        proof {
            assert(x * self.tile_size + self.tile_size <= self.width * self.tile_size) by (nonlinear_arith)
                requires
                    x < self.width,
                    self.tile_size > 0,
            ;
            assert(y * self.tile_size + self.tile_size <= self.height * self.tile_size) by (nonlinear_arith)
                requires
                    y < self.height,
                    self.tile_size > 0,
            ;
        }
        Position {
            x: (x * self.tile_size + self.tile_size / 2) as i32,
            y: (y * self.tile_size + self.tile_size / 2) as i32,
        }
    }

    /// Whether `pos` lies inside the arena.
    pub fn is_in_bounds(&self, pos: &Position) -> (r: bool)
        requires
            self.wf(),
        ensures
            r == (0 <= pos.x < self.width * self.tile_size && 0 <= pos.y < self.height
                * self.tile_size),
    {
        let w: u64 = self.width as u64 * self.tile_size as u64;
        let h: u64 = self.height as u64 * self.tile_size as u64;
        pos.x >= 0 && pos.y >= 0 && (pos.x as u64) < w && (pos.y as u64) < h
    }
}

impl Default for Arena {
    /// The standard 32 by 18 grass arena.
    fn default() -> (r: Arena)
        ensures
            r.wf(),
            r.width == 32,
            r.height == 18,
            r.tile_size == UNITS_PER_TILE,
    {
        Arena::new()
    }
}

} // verus!
