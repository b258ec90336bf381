//! The playing field: a fixed grid of cells, its occupancy oracle and line
//! clearing.
use vstd::prelude::*;
use crate::position::{Coord, Pos};
use crate::render::{BlockRenderInstructions, DrawBlockType, RenderBlockInfo};
use crate::shapes::{MinoSet, Shape};
use crate::tetromino::Tetromino;

verus! {

/// Number of cells in one row.
pub const FIELD_WIDTH: usize = 10;

/// Number of rows, the hidden buffer above the play area included.
pub const FIELD_HEIGHT: usize = 40;

/// Number of cells of the whole grid.
pub const FIELD_CELLS: usize = 400;

/// The content of one cell.
#[derive(Clone, Copy, PartialEq, Eq, Structural, Debug)]
pub enum FieldBlock {
    Empty,
    Occupied(Shape),
}

/// The grid, stored row by row from the bottom: cell `(x, y)` is at index
/// `y * FIELD_WIDTH + x`.
pub struct Field {
    blocks: Vec<FieldBlock>,
}

/// Something that answers whether a cell may hold a mino.
pub trait CheckableField {
    /// Whether `pos` is free to hold a mino.
    spec fn open_at(&self, pos: Pos) -> bool;

    fn is_open(&self, pos: Pos) -> (r: bool)
        ensures
            r == self.open_at(pos),
    ;
}

/// The cells that `field` reports open, as a predicate.
pub open spec fn oracle<F: CheckableField>(field: &F) -> spec_fn(Pos) -> bool {
    |pos: Pos| field.open_at(pos)
}

/// The cells that are on the grid and empty in `cells`, as a predicate.
pub open spec fn cells_oracle(cells: Seq<FieldBlock>) -> spec_fn(Pos) -> bool {
    |pos: Pos| open_in(cells, pos)
}

/// Whether `(x, y)` lies on the grid.
pub open spec fn on_grid(x: int, y: int) -> bool {
    0 <= x < FIELD_WIDTH && 0 <= y < FIELD_HEIGHT
}

/// The index of cell `(x, y)` in the row-by-row layout.
pub open spec fn cell_index(x: int, y: int) -> int {
    y * FIELD_WIDTH + x
}

/// The content of cell `(x, y)` of `cells`.
pub open spec fn cell_at(cells: Seq<FieldBlock>, x: int, y: int) -> FieldBlock {
    cells[cell_index(x, y)]
}

/// Whether `pos` is on the grid and empty in `cells`.
pub open spec fn open_in(cells: Seq<FieldBlock>, pos: Pos) -> bool {
    on_grid(pos.x as int, pos.y as int) && cell_at(cells, pos.x as int, pos.y as int)
        == FieldBlock::Empty
}

/// Whether every cell of row `y` is occupied.
pub open spec fn row_full(cells: Seq<FieldBlock>, y: int) -> bool {
    forall|x: int| 0 <= x < FIELD_WIDTH ==> #[trigger] cell_at(cells, x, y) != FieldBlock::Empty
}

/// The full rows among rows `0..n`, from the highest down.
pub open spec fn full_rows_below(cells: Seq<FieldBlock>, n: int) -> Seq<Coord>
    decreases n,
{
    if n <= 0 {
        seq![]
    } else {
        let rest = full_rows_below(cells, n - 1);
        if row_full(cells, n - 1) {
            seq![(n - 1) as Coord] + rest
        } else {
            rest
        }
    }
}

/// A row of empty cells.
pub open spec fn empty_row() -> Seq<FieldBlock> {
    Seq::new(FIELD_WIDTH as nat, |i: int| FieldBlock::Empty)
}

/// `cells` with row `row` taken out: the rows above move down by one and an
/// empty row enters at the top.
pub open spec fn without_row(cells: Seq<FieldBlock>, row: int) -> Seq<FieldBlock> {
    cells.subrange(0, row * FIELD_WIDTH) + cells.subrange(
        (row + 1) * FIELD_WIDTH,
        FIELD_CELLS as int,
    ) + empty_row()
}

/// `cells` with the rows of `rows` taken out one after the other, in order.
pub open spec fn without_rows(cells: Seq<FieldBlock>, rows: Seq<Coord>) -> Seq<FieldBlock>
    decreases rows.len(),
{
    if rows.len() == 0 {
        cells
    } else {
        without_row(without_rows(cells, rows.drop_last()), rows.last() as int)
    }
}

impl View for Field {
    type V = Seq<FieldBlock>;

    closed spec fn view(&self) -> Seq<FieldBlock> {
        self.blocks@
    }
}

impl Field {
    /// Cells per row.
    pub const WIDTH: Coord = 10;

    /// Rows of the grid, the buffer above the play area included.
    pub const GAME_HEIGHT: Coord = 40;

    /// Rows that are drawn.
    pub const VISIBLE_HEIGHT: Coord = 22;

    /// Rows of the play area; the rows above it are buffer.
    pub const PLAYING_BOUNDARY_HEIGHT: Coord = 20;

    /// The grid holds exactly one value per cell.
    pub open spec fn wf(&self) -> bool {
        self@.len() == FIELD_CELLS
    }

    /// An empty field.
    pub fn new() -> (r: Field)
        ensures
            r.wf(),
            forall|i: int| 0 <= i < FIELD_CELLS ==> r@[i] == FieldBlock::Empty,
    {
        let mut blocks: Vec<FieldBlock> = Vec::new();
        while blocks.len() < FIELD_CELLS
            invariant
                blocks.len() <= FIELD_CELLS,
                forall|i: int| 0 <= i < blocks.len() ==> blocks@[i] == FieldBlock::Empty,
            decreases FIELD_CELLS - blocks.len(),
        {
            blocks.push(FieldBlock::Empty);
        }
        Field { blocks }
    }

    /// Fills the cell at `pos` with a block of `shape`.
    pub fn occupy(&mut self, pos: Pos, shape: Shape)
        requires
            old(self).wf(),
            on_grid(pos.x as int, pos.y as int),
        ensures
            final(self)@ == old(self)@.update(
                cell_index(pos.x as int, pos.y as int),
                FieldBlock::Occupied(shape),
            ),
    {
        let i = (pos.y as usize) * FIELD_WIDTH + pos.x as usize;
        self.blocks.set(i, FieldBlock::Occupied(shape));
    }

    /// The content of cell `(x, y)`.
    fn b(&self, x: Coord, y: Coord) -> (r: FieldBlock)
        requires
            self.wf(),
            on_grid(x as int, y as int),
        ensures
            r == cell_at(self@, x as int, y as int),
    {
        self.blocks[(y as usize) * FIELD_WIDTH + x as usize]
    }

    /// The content of the cell at `p`.
    fn bp(&self, p: Pos) -> (r: FieldBlock)
        requires
            self.wf(),
            on_grid(p.x as int, p.y as int),
        ensures
            r == cell_at(self@, p.x as int, p.y as int),
    {
        self.b(p.x, p.y)
    }

    /// The rows whose cells are all occupied, from the highest down.
    pub fn find_lines(&self) -> (r: Vec<Coord>)
        requires
            self.wf(),
        ensures
            r@ == full_rows_below(self@, FIELD_HEIGHT as int),
    {
        let mut result: Vec<Coord> = Vec::new();
        let mut y: Coord = 0;
        while y < Self::GAME_HEIGHT
            invariant
                self.wf(),
                0 <= y <= FIELD_HEIGHT,
                result@ == full_rows_below(self@, y as int),
            decreases FIELD_HEIGHT - y,
        {
            let mut full = true;
            let mut x: Coord = 0;
            while x < Self::WIDTH
                invariant
                    self.wf(),
                    0 <= y < FIELD_HEIGHT,
                    0 <= x <= FIELD_WIDTH,
                    full == forall|k: int|
                        0 <= k < x ==> #[trigger] cell_at(self@, k, y as int) != FieldBlock::Empty,
                decreases FIELD_WIDTH - x,
            {
                if self.b(x, y) == FieldBlock::Empty {
                    full = false;
                }
                x = x + 1;
            }
            if full {
                result.insert(0, y);
            }
            y = y + 1;
        }
        result
    }

    /// Takes out each row of `lines` in turn, from the highest down: the rows
    /// above it move down by one and the top row becomes empty.
    pub fn remove_lines(&mut self, lines: &Vec<Coord>)
        requires
            old(self).wf(),
            forall|i: int| 0 <= i < lines.len() ==> 0 <= #[trigger] lines@[i] < FIELD_HEIGHT,
            strictly_falling(lines@),
        ensures
            final(self).wf(),
            final(self)@ == without_rows(old(self)@, lines@),
    {
        let mut i: usize = 0;
        while i < lines.len()
            invariant
                self.wf(),
                i <= lines.len(),
                forall|j: int| 0 <= j < lines.len() ==> 0 <= #[trigger] lines@[j] < FIELD_HEIGHT,
                self@ == without_rows(old(self)@, lines@.take(i as int)),
            decreases lines.len() - i,
        {
            assert(lines@.take(i + 1).drop_last() == lines@.take(i as int));
            self.drop_lines_above(lines[i]);
            i = i + 1;
        }
        assert(lines@.take(lines.len() as int) == lines@);
    }

    /// Takes out row `row`: every row above it moves down by one and the top
    /// row becomes empty.
    fn drop_lines_above(&mut self, row: Coord)
        requires
            old(self).wf(),
            0 <= row < FIELD_HEIGHT,
        ensures
            final(self).wf(),
            final(self)@ == without_row(old(self)@, row as int),
    {
        let start: usize = (row as usize) * FIELD_WIDTH;
        let last_row: usize = FIELD_CELLS - FIELD_WIDTH;
        let mut k: usize = start;
        while k < last_row
            invariant
                self.wf(),
                start == row * FIELD_WIDTH,
                last_row == FIELD_CELLS - FIELD_WIDTH,
                start <= k <= last_row,
                forall|j: int| 0 <= j < start ==> self@[j] == old(self)@[j],
                forall|j: int| start <= j < k ==> self@[j] == old(self)@[j + FIELD_WIDTH],
                forall|j: int| k <= j < FIELD_CELLS ==> self@[j] == old(self)@[j],
            decreases last_row - k,
        {
            let moved = self.blocks[k + FIELD_WIDTH];
            self.blocks.set(k, moved);
            k = k + 1;
        }
        while k < FIELD_CELLS
            invariant
                self.wf(),
                start == row * FIELD_WIDTH,
                start <= last_row <= k <= FIELD_CELLS,
                last_row == FIELD_CELLS - FIELD_WIDTH,
                forall|j: int| 0 <= j < start ==> self@[j] == old(self)@[j],
                forall|j: int| start <= j < last_row ==> self@[j] == old(self)@[j + FIELD_WIDTH],
                forall|j: int| last_row <= j < k ==> self@[j] == FieldBlock::Empty,
            decreases FIELD_CELLS - k,
        {
            self.blocks.set(k, FieldBlock::Empty);
            k = k + 1;
        }
        assert(self@ =~= without_row(old(self)@, row as int));
    }
}

/// Number of occupied cells in `cells`.
pub open spec fn occupied_count(cells: Seq<FieldBlock>) -> nat
    decreases cells.len(),
{
    if cells.len() == 0 {
        0
    } else {
        occupied_count(cells.drop_last()) + if cells.last() != FieldBlock::Empty {
            1nat
        } else {
            0nat
        }
    }
}

/// Occupied cells add up over a concatenation.
proof fn lemma_count_concat(a: Seq<FieldBlock>, b: Seq<FieldBlock>)
    ensures
        occupied_count(a + b) == occupied_count(a) + occupied_count(b),
    decreases b.len(),
{
    if b.len() > 0 {
        assert((a + b).drop_last() =~= a + b.drop_last());
        lemma_count_concat(a, b.drop_last());
    }
}

/// All cells occupied: the count is the length; all empty: it is zero.
proof fn lemma_count_uniform(s: Seq<FieldBlock>)
    ensures
        (forall|i: int| 0 <= i < s.len() ==> s[i] != FieldBlock::Empty) ==> occupied_count(s)
            == s.len(),
        (forall|i: int| 0 <= i < s.len() ==> s[i] == FieldBlock::Empty) ==> occupied_count(s) == 0,
    decreases s.len(),
{
    if s.len() > 0 {
        lemma_count_uniform(s.drop_last());
    }
}

/// Clearing a full row: the rows below stay, each row above moves down by one
/// (so row `row` holds what row `row + 1` held), the top row is empty, and
/// exactly one row's worth of occupied cells is gone.
pub proof fn lemma_clear_full_row(cells: Seq<FieldBlock>, row: int)
    requires
        cells.len() == FIELD_CELLS,
        0 <= row < FIELD_HEIGHT,
        row_full(cells, row),
    ensures
        ({
            let after = without_rows(cells, seq![row as Coord]);
            &&& after.len() == FIELD_CELLS
            &&& forall|x: int, y: int|
                0 <= x < FIELD_WIDTH && 0 <= y < row ==> #[trigger] cell_at(after, x, y) == cell_at(
                    cells,
                    x,
                    y,
                )
            &&& forall|x: int, y: int|
                0 <= x < FIELD_WIDTH && row <= y < FIELD_HEIGHT - 1 ==> #[trigger] cell_at(
                    after,
                    x,
                    y,
                ) == cell_at(cells, x, y + 1)
            &&& forall|x: int|
                0 <= x < FIELD_WIDTH ==> #[trigger] cell_at(after, x, FIELD_HEIGHT - 1)
                    == FieldBlock::Empty
            &&& occupied_count(after) + FIELD_WIDTH == occupied_count(cells)
        }),
{
    let rows = seq![row as Coord];
    assert(rows.drop_last() =~= Seq::<Coord>::empty());
    let a = cells.subrange(0, row * FIELD_WIDTH);
    let full = cells.subrange(row * FIELD_WIDTH, (row + 1) * FIELD_WIDTH);
    let b = cells.subrange((row + 1) * FIELD_WIDTH, FIELD_CELLS as int);
    let after = without_rows(cells, rows);
    assert(without_rows(cells, rows.drop_last()) == cells);
    assert(rows.last() as int == row);
    assert(after == a + b + empty_row());
    assert(cells =~= a + full + b);
    assert forall|i: int| 0 <= i < full.len() implies full[i] != FieldBlock::Empty by {
        assert(full[i] == cell_at(cells, i, row));
    }
    lemma_count_uniform(full);
    lemma_count_uniform(empty_row());
    lemma_count_concat(a + full, b);
    lemma_count_concat(a, full);
    lemma_count_concat(a + b, empty_row());
    lemma_count_concat(a, b);
}

/// Whether each row of `rows` is higher than the next.
pub open spec fn strictly_falling(rows: Seq<Coord>) -> bool {
    forall|i: int, j: int| 0 <= i < j < rows.len() ==> #[trigger] rows[i] > #[trigger] rows[j]
}

/// The full rows among rows `0..n` are at most `n`, each in `0..n`, from the
/// highest down.
pub proof fn lemma_full_rows_bounds(cells: Seq<FieldBlock>, n: int)
    requires
        0 <= n <= FIELD_HEIGHT,
    ensures
        full_rows_below(cells, n).len() <= n,
        strictly_falling(full_rows_below(cells, n)),
        forall|i: int|
            0 <= i < full_rows_below(cells, n).len() ==> 0 <= #[trigger] full_rows_below(
                cells,
                n,
            )[i] < n,
    decreases n,
{
    if n > 0 {
        lemma_full_rows_bounds(cells, n - 1);
        let rest = full_rows_below(cells, n - 1);
        if row_full(cells, n - 1) {
            let all = full_rows_below(cells, n);
            assert forall|i: int| 0 <= i < all.len() implies 0 <= #[trigger] all[i] < n by {
                if i > 0 {
                    assert(all[i] == rest[i - 1]);
                }
            }
            assert forall|i: int, j: int| 0 <= i < j < all.len() implies #[trigger] all[i]
                > #[trigger] all[j] by {
                assert(all[j] == rest[j - 1]);
                if i > 0 {
                    assert(all[i] == rest[i - 1]);
                } else {
                    assert(0 <= rest[j - 1] < n - 1);
                }
            }
        }
    }
}

/// A well-formed field reports open exactly the cells that are on the grid and empty.
pub proof fn lemma_field_oracle(field: &Field)
    requires
        field.wf(),
    ensures
        oracle(field) == cells_oracle(field@),
{
    assert(oracle(field) =~= cells_oracle(field@));
}

impl CheckableField for Field {
    open spec fn open_at(&self, pos: Pos) -> bool {
        self.wf() && open_in(self@, pos)
    }

    fn is_open(&self, pos: Pos) -> (r: bool) {
        pos.x >= 0 && pos.x < Self::WIDTH && pos.y >= 0 && pos.y < Self::GAME_HEIGHT
            && self.blocks.len() == FIELD_CELLS && self.bp(pos) == FieldBlock::Empty
    }
}

/// Number of rows drawn.
pub const VISIBLE_ROWS: usize = 22;

/// What is drawn over the field's own cells.
pub ghost enum OverlayView {
    /// The piece in play, at `piece`, and where it would land, at `landing`.
    Piece { piece: Seq<Pos>, landing: Seq<Pos>, shape: Shape },
    /// Full rows waiting to be removed.
    Clearing(Seq<Coord>),
}

/// How cell `pos` is drawn: the piece in play, then its landing place, then a
/// row being cleared, take precedence; above the play area cells are out of
/// play; otherwise the field's own content shows.
pub open spec fn draw_type(cells: Seq<FieldBlock>, overlay: OverlayView, pos: Pos) -> DrawBlockType {
    let under = if pos.y >= Field::PLAYING_BOUNDARY_HEIGHT {
        DrawBlockType::OutOfPlay
    } else {
        match cell_at(cells, pos.x as int, pos.y as int) {
            FieldBlock::Empty => DrawBlockType::Empty,
            FieldBlock::Occupied(s) => DrawBlockType::Occupied(s),
        }
    };
    match overlay {
        OverlayView::Piece { piece, landing, shape } => if piece.contains(pos) {
            DrawBlockType::Occupied(shape)
        } else if landing.contains(pos) {
            DrawBlockType::GhostPiece(shape)
        } else {
            under
        },
        OverlayView::Clearing(lines) => if lines.contains(pos.y) {
            DrawBlockType::ClearingLine
        } else {
            under
        },
    }
}

/// The drawing instruction for cell `(x, y)`.
pub open spec fn draw_info(cells: Seq<FieldBlock>, overlay: OverlayView, x: int, y: int) -> RenderBlockInfo {
    let pos = Pos { x: x as Coord, y: y as Coord };
    RenderBlockInfo { pos: pos, block_type: draw_type(cells, overlay, pos) }
}

/// What lies over the field.
enum GameMinos {
    Controlled(ControlMinos),
    Clearing(Vec<Coord>),
}

/// The piece in play and its landing place.
struct ControlMinos {
    controlled: MinoSet,
    landing: MinoSet,
}

impl GameMinos {
    spec fn view(&self) -> OverlayView {
        match self {
            GameMinos::Controlled(c) => OverlayView::Piece {
                piece: c.controlled.minos@,
                landing: c.landing.minos@,
                shape: c.controlled.shape,
            },
            GameMinos::Clearing(lines) => OverlayView::Clearing(lines@),
        }
    }

    spec fn wf(&self) -> bool {
        self matches GameMinos::Controlled(c) ==> c.controlled.shape == c.landing.shape
    }

    /// A copy.
    fn duplicate(&self) -> (r: GameMinos)
        ensures
            r.view() == self.view(),
            self.wf() ==> r.wf(),
    {
        match self {
            GameMinos::Controlled(c) => GameMinos::Controlled(
                ControlMinos { controlled: c.controlled, landing: c.landing },
            ),
            GameMinos::Clearing(lines) => GameMinos::Clearing(copy_rows(lines)),
        }
    }
}

/// A copy of a list of rows.
pub fn copy_rows(lines: &Vec<Coord>) -> (r: Vec<Coord>)
    ensures
        r@ == lines@,
{
    let mut copy: Vec<Coord> = Vec::new();
    let mut i: usize = 0;
    while i < lines.len()
        invariant
            i <= lines.len(),
            copy@ == lines@.take(i as int),
        decreases lines.len() - i,
    {
        copy.push(lines[i]);
        i = i + 1;
        assert(copy@ =~= lines@.take(i as int));
    }
    assert(copy@ =~= lines@);
    copy
}

/// Whether `lines` holds `y`.
fn holds_row(lines: &Vec<Coord>, y: Coord) -> (r: bool)
    ensures
        r == lines@.contains(y),
{
    let mut i: usize = 0;
    while i < lines.len()
        invariant
            i <= lines.len(),
            forall|k: int| 0 <= k < i ==> lines@[k] != y,
        decreases lines.len() - i,
    {
        if lines[i] == y {
            return true;
        }
        i = i + 1;
    }
    false
}

/// Walks the visible cells row by row from the bottom left.
pub struct PlayingFieldRenderBlocksIterator<'a> {
    field: &'a Field,
    game_minos: GameMinos,
    next_pos: Pos,
}

/// The field and what lies over it, ready to be drawn.
pub struct PlayingFieldRenderBlocksInstructions<'a> {
    field: &'a Field,
    game_minos: GameMinos,
}

impl<'a> PlayingFieldRenderBlocksIterator<'a> {
    /// The field's cells.
    pub closed spec fn cells(&self) -> Seq<FieldBlock> {
        self.field@
    }

    /// What lies over the field.
    pub closed spec fn overlay(&self) -> OverlayView {
        self.game_minos.view()
    }

    /// Column and row of the next cell; the row is `VISIBLE_ROWS` once all are done.
    pub closed spec fn position(&self) -> (int, int) {
        (self.next_pos.x as int, self.next_pos.y as int)
    }

    pub closed spec fn wf(&self) -> bool {
        &&& self.field.wf()
        &&& self.game_minos.wf()
        &&& 0 <= self.next_pos.x < FIELD_WIDTH
        &&& 0 <= self.next_pos.y <= VISIBLE_ROWS
        &&& self.next_pos.y == VISIBLE_ROWS ==> self.next_pos.x == 0
    }

    /// The next visible cell and how to draw it; `None` once all are done.
    pub fn next(&mut self) -> (r: Option<RenderBlockInfo>)
        requires
            old(self).wf(),
        ensures
            final(self).wf(),
            final(self).cells() == old(self).cells(),
            final(self).overlay() == old(self).overlay(),
            ({
                let (x, y) = old(self).position();
                if y >= VISIBLE_ROWS {
                    r is None && final(self).position() == old(self).position()
                } else {
                    &&& r == Some(draw_info(old(self).cells(), old(self).overlay(), x, y))
                    &&& final(self).position() == (if x + 1 < FIELD_WIDTH {
                        (x + 1, y)
                    } else {
                        (0, y + 1)
                    })
                }
            }),
    {
        if self.next_pos.y >= Field::VISIBLE_HEIGHT {
            return None;
        }
        let pos = self.next_pos;
        let result = Some(RenderBlockInfo { pos: pos, block_type: self.select_block_type(pos) });
        if pos.x + 1 >= Field::WIDTH {
            self.next_pos = Pos { x: 0, y: pos.y + 1 };
        } else {
            self.next_pos = Pos { x: pos.x + 1, y: pos.y };
        }
        result
    }

    /// How the visible cell at `pos` is drawn.
    fn select_block_type(&self, pos: Pos) -> (r: DrawBlockType)
        requires
            self.wf(),
            0 <= pos.x < FIELD_WIDTH,
            0 <= pos.y < VISIBLE_ROWS,
        ensures
            r == draw_type(self.cells(), self.overlay(), pos),
    {
        match &self.game_minos {
            GameMinos::Controlled(minos) => {
                if minos.controlled.contains(pos) {
                    return DrawBlockType::Occupied(minos.controlled.shape());
                } else if minos.landing.contains(pos) {
                    return DrawBlockType::GhostPiece(minos.landing.shape());
                }
            },
            GameMinos::Clearing(lines) => {
                if holds_row(lines, pos.y) {
                    return DrawBlockType::ClearingLine;
                }
            },
        }
        if pos.y >= Field::PLAYING_BOUNDARY_HEIGHT {
            DrawBlockType::OutOfPlay
        } else {
            match self.field.bp(pos) {
                FieldBlock::Empty => DrawBlockType::Empty,
                FieldBlock::Occupied(shape) => DrawBlockType::Occupied(shape),
            }
        }
    }
}

impl<'a> PlayingFieldRenderBlocksInstructions<'a> {
    /// The field's cells.
    pub closed spec fn cells(&self) -> Seq<FieldBlock> {
        self.field@
    }

    /// What lies over the field.
    pub closed spec fn overlay(&self) -> OverlayView {
        self.game_minos.view()
    }

    pub closed spec fn wf(&self) -> bool {
        self.field.wf() && self.game_minos.wf()
    }

    /// The field with the piece in play and its landing place over it.
    pub fn new(field: &'a Field, controlled: Tetromino) -> (r: Self)
        requires
            field.wf(),
            controlled.wf(),
        ensures
            r.wf(),
            r.cells() == field@,
            r.overlay() == (OverlayView::Piece {
                piece: controlled.cells(),
                landing: controlled.landed(oracle(field)).cells(),
                shape: controlled.shape,
            }),
    {
        let landed = controlled.hard_drop(field);
        Self {
            field: field,
            game_minos: GameMinos::Controlled(
                ControlMinos { controlled: controlled.to_minos(), landing: landed.to_minos() },
            ),
        }
    }

    /// The field with the rows of `lines` marked as being cleared.
    pub fn new_clearing(field: &'a Field, lines: Vec<Coord>) -> (r: Self)
        requires
            field.wf(),
        ensures
            r.wf(),
            r.cells() == field@,
            r.overlay() == OverlayView::Clearing(lines@),
    {
        Self { field: field, game_minos: GameMinos::Clearing(lines) }
    }
}

impl<'a> BlockRenderInstructions for PlayingFieldRenderBlocksInstructions<'a> {
    /// Every visible cell, row by row from the bottom left: cell `(x, y)` at
    /// index `y * FIELD_WIDTH + x`.
    fn blocks(&self) -> (r: Vec<RenderBlockInfo>)
        ensures
            self.wf() ==> {
                &&& r@.len() == VISIBLE_ROWS * FIELD_WIDTH
                &&& forall|x: int, y: int|
                    0 <= x < FIELD_WIDTH && 0 <= y < VISIBLE_ROWS ==> #[trigger] r@[cell_index(x, y)]
                        == draw_info(self.cells(), self.overlay(), x, y)
            },
    {
        let mut r: Vec<RenderBlockInfo> = Vec::new();
        if self.field.blocks.len() != FIELD_CELLS {
            return r;
        }
        if let GameMinos::Controlled(c) = &self.game_minos {
            if c.controlled.shape != c.landing.shape {
                return r;
            }
        }
        let mut it = PlayingFieldRenderBlocksIterator {
            field: self.field,
            game_minos: self.game_minos.duplicate(),
            next_pos: Pos { x: 0, y: 0 },
        };
        while it.next_pos.y < Field::VISIBLE_HEIGHT
            invariant
                it.wf(),
                self.wf(),
                it.cells() == self.cells(),
                it.overlay() == self.overlay(),
                r@.len() == cell_index(it.position().0, it.position().1),
                forall|x: int, y: int|
                    0 <= x < FIELD_WIDTH && 0 <= y < VISIBLE_ROWS && cell_index(x, y) < r@.len()
                        ==> #[trigger] r@[cell_index(x, y)] == draw_info(
                        self.cells(),
                        self.overlay(),
                        x,
                        y,
                    ),
            decreases VISIBLE_ROWS * FIELD_WIDTH - cell_index(it.position().0, it.position().1),
        {
            if let Some(b) = it.next() {
                r.push(b);
            }
        }
        r
    }

    fn height_blocks(&self) -> (r: Coord)
        ensures
            r == Field::VISIBLE_HEIGHT,
    {
        Field::VISIBLE_HEIGHT
    }

    fn width_blocks(&self) -> (r: Coord)
        ensures
            r == Field::WIDTH,
    {
        Field::WIDTH
    }
}

} // verus!
