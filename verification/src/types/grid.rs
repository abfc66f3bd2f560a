use vstd::prelude::*;

use crate::GRID_SIZE;

verus! {

/// One cell of a participant's grid.
#[derive(Clone, Copy, Debug, PartialEq, Eq, Structural)]
pub struct Tile;

/// A participant's square board of tiles, stored row by row.
#[derive(Debug)]
pub struct Grid {
    pub inner: Vec<Vec<Tile>>,
}

impl View for Grid {
    type V = Seq<Seq<Tile>>;

    open spec fn view(&self) -> Seq<Seq<Tile>> {
        self.inner@.map_values(|row: Vec<Tile>| row@)
    }
}

/// The board every participant starts with: `GRID_SIZE` rows of `GRID_SIZE` tiles.
pub open spec fn blank_grid() -> Seq<Seq<Tile>> {
    Seq::new(GRID_SIZE as nat, |i: int| Seq::new(GRID_SIZE as nat, |j: int| Tile))
}

fn blank_row() -> (row: Vec<Tile>)
    ensures
        row@ =~= Seq::new(GRID_SIZE as nat, |j: int| Tile),
{
    let mut row: Vec<Tile> = Vec::new();
    let mut j: usize = 0;
    while j < GRID_SIZE
        invariant
            j <= GRID_SIZE,
            row@ =~= Seq::new(j as nat, |k: int| Tile),
        decreases GRID_SIZE - j,
    {
        row.push(Tile);
        j = j + 1;
    }
    row
}

impl Grid {
    /// A blank `GRID_SIZE` by `GRID_SIZE` grid.
    pub fn new() -> (grid: Self)
        ensures
            grid@ =~= blank_grid(),
            grid@.len() == GRID_SIZE,
            forall|i: int| 0 <= i < GRID_SIZE ==> (#[trigger] grid@[i]).len() == GRID_SIZE,
    {
        let mut inner: Vec<Vec<Tile>> = Vec::new();
        let mut i: usize = 0;
        while i < GRID_SIZE
            invariant
                i <= GRID_SIZE,
                inner@.len() == i,
                forall|k: int| 0 <= k < i ==> #[trigger] inner@[k]@ =~= Seq::new(GRID_SIZE as nat, |j: int| Tile),
            decreases GRID_SIZE - i,
        {
            let row = blank_row();
            inner.push(row);
            i = i + 1;
        }
        let grid = Grid { inner };
        assert(grid@ =~= blank_grid());
        grid
    }
}

impl Clone for Grid {
    fn clone(&self) -> (res: Self)
        ensures
            res@ == self@,
    {
        let mut inner: Vec<Vec<Tile>> = Vec::new();
        let mut i: usize = 0;
        while i < self.inner.len()
            invariant
                i <= self.inner@.len(),
                inner@.len() == i,
                forall|k: int| 0 <= k < i ==> #[trigger] inner@[k]@ == self.inner@[k]@,
            decreases self.inner@.len() - i,
        {
            let row = self.inner[i].clone();
            assert(row@ =~= self.inner@[i as int]@);
            inner.push(row);
            i = i + 1;
        }
        let res = Grid { inner };
        assert(res@ =~= self@);
        res
    }
}

} // verus!
