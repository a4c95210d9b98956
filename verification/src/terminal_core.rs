//! Turning the render state of a terminal engine into complete frames.
use crate::frame;
use crate::frame::{Attributes, Cell, Color, Cursor, Frame, Underline};
use crate::terminal_theme::TerminalTheme;
use vstd::prelude::*;

verus! {

/// Rows of scrollback that a live terminal keeps.
pub const SCROLLBACK_ROWS: usize = 10_000;

/// Input modes that an application has switched on.
#[derive(Clone, Copy, Debug, PartialEq, Eq, Structural)]
pub struct InputModes {
    pub cursor_keys: bool,
    pub keypad_keys: bool,
    pub normal_mouse: bool,
    pub button_mouse: bool,
    pub any_mouse: bool,
    pub sgr_mouse: bool,
    pub focus_events: bool,
    pub bracketed_paste: bool,
}

/// Whether any attribute is set.
pub fn has_attributes(attributes: &Attributes) -> (result: bool)
    ensures
        result == (*attributes != frame::plain_attributes()),
{
    attributes.bold || attributes.italic || attributes.faint || attributes.invisible
        || attributes.strikethrough || attributes.overline || attributes.underline.is_some()
}

/// How much of the screen changed since it was last read.
#[derive(Clone, Copy, Debug, PartialEq, Eq, Structural)]
pub enum Dirty {
    Clean,
    Partial,
    Full,
}

/// The part of a character that an engine cell holds.
#[derive(Clone, Copy, Debug, PartialEq, Eq, Structural)]
pub enum CellWide {
    Narrow,
    Wide,
    SpacerTail,
    SpacerHead,
}

/// How an engine cell is drawn.
#[derive(Clone, Copy, Debug, PartialEq, Eq, Structural)]
pub struct Style {
    pub bold: bool,
    pub italic: bool,
    pub faint: bool,
    pub invisible: bool,
    pub strikethrough: bool,
    pub overline: bool,
    pub inverse: bool,
    pub underlined: bool,
}

/// One cell of the engine's render state.
#[derive(Debug)]
pub struct RawCell {
    pub wide: CellWide,
    pub style: Style,
    pub foreground: Option<Color>,
    pub background: Option<Color>,
    pub text: String,
}

/// What a [`RawCell`] holds.
pub struct RawCellView {
    pub wide: CellWide,
    pub style: Style,
    pub foreground: Option<Color>,
    pub background: Option<Color>,
    pub text: Seq<char>,
}

impl View for RawCell {
    type V = RawCellView;

    open spec fn view(&self) -> RawCellView {
        RawCellView {
            wide: self.wide,
            style: self.style,
            foreground: self.foreground,
            background: self.background,
            text: self.text@,
        }
    }
}

/// One row of the engine's render state.
#[derive(Debug)]
pub struct RawRow {
    pub dirty: bool,
    pub cells: Vec<RawCell>,
}

/// The engine's cursor.
#[derive(Clone, Copy, Debug)]
pub struct RawCursor {
    pub visible: bool,
    pub position: Option<(u16, u16)>,
    pub color: Option<Color>,
    pub blinking: bool,
}

/// The engine's render state at one moment.
#[derive(Debug)]
pub struct Snapshot {
    pub dirty: Dirty,
    pub cols: u16,
    pub rows: u16,
    pub foreground: Color,
    pub background: Color,
    pub cursor: RawCursor,
    pub lines: Vec<RawRow>,
}

/// What each of `cells` holds.
pub open spec fn raw_views(cells: Seq<RawCell>) -> Seq<RawCellView> {
    Seq::new(cells.len(), |i: int| cells[i]@)
}

impl Snapshot {
    /// There are no more lines than rows, and positions can be counted.
    pub open spec fn wf(&self) -> bool {
        &&& self.lines@.len() <= self.rows
        &&& forall|y: int|
            0 <= y < self.lines@.len() ==> (#[trigger] self.lines@[y]).cells@.len() <= u16::MAX
    }
}

/// The frame cell for an engine cell, if anything is to be drawn: text, a background other than
/// the terminal's or an attribute. Spacers belong to the wide character beside them.
pub open spec fn drawn(
    cell: RawCellView,
    x: u16,
    y: u16,
    foreground: Color,
    background: Color,
) -> Option<frame::CellView> {
    let fore = match cell.foreground {
        Some(color) => color,
        None => foreground,
    };
    let back = match cell.background {
        Some(color) => color,
        None => background,
    };
    let attributes = Attributes {
        bold: cell.style.bold,
        italic: cell.style.italic,
        faint: cell.style.faint,
        invisible: cell.style.invisible,
        strikethrough: cell.style.strikethrough,
        overline: cell.style.overline,
        underline: if cell.style.underlined {
            Some(Underline::Single)
        } else {
            None
        },
    };
    let shown = frame::CellView {
        x,
        y,
        text: cell.text,
        width: if cell.wide == CellWide::Wide {
            2
        } else {
            1
        },
        foreground: if cell.style.inverse {
            back
        } else {
            fore
        },
        background: if cell.style.inverse {
            fore
        } else {
            back
        },
        attributes,
    };
    if cell.wide == CellWide::SpacerTail || cell.wide == CellWide::SpacerHead {
        None
    } else if cell.text.len() > 0 || shown.background != background || attributes
        != frame::plain_attributes() {
        Some(shown)
    } else {
        None
    }
}

/// The frame cells of the first `count` engine cells of a line.
pub open spec fn line_cells(
    cells: Seq<RawCellView>,
    count: nat,
    y: u16,
    foreground: Color,
    background: Color,
) -> Seq<frame::CellView>
    decreases count,
{
    if count == 0 {
        Seq::empty()
    } else {
        let before = line_cells(cells, (count - 1) as nat, y, foreground, background);
        match drawn(cells[count - 1], (count - 1) as u16, y, foreground, background) {
            Some(cell) => before.push(cell),
            None => before,
        }
    }
}

impl Snapshot {
    /// The frame cells of line `y`.
    pub open spec fn line(&self, y: int) -> Seq<frame::CellView> {
        let cells = raw_views(self.lines@[y].cells@);
        line_cells(cells, cells.len(), y as u16, self.foreground, self.background)
    }

    /// The frame cells of the first `count` lines.
    pub open spec fn lines_drawn(&self, count: nat) -> Seq<frame::CellView>
        decreases count,
    {
        if count == 0 {
            Seq::empty()
        } else {
            self.lines_drawn((count - 1) as nat) + self.line(count - 1)
        }
    }

    /// The cursor to draw.
    pub open spec fn drawn_cursor(&self) -> Option<Cursor> {
        match (self.cursor.visible, self.cursor.position) {
            (true, Some((x, y))) => Some(
                Cursor {
                    x,
                    y,
                    color: match self.cursor.color {
                        Some(color) => color,
                        None => self.foreground,
                    },
                    blinking: self.cursor.blinking,
                },
            ),
            _ => None,
        }
    }

    /// A frame with the snapshot's size, colors and cursor, and these cells.
    pub open spec fn framed(&self, cells: Seq<frame::CellView>) -> frame::FrameView {
        frame::FrameView {
            version: frame::FORMAT_VERSION,
            cols: self.cols,
            rows: self.rows,
            foreground: self.foreground,
            background: self.background,
            cursor: self.drawn_cursor(),
            cells,
        }
    }

    /// The frame drawn from the snapshot alone.
    pub open spec fn complete_frame(&self) -> frame::FrameView {
        self.framed(self.lines_drawn(self.lines@.len()))
    }
}

/// The cells of `cells` that stand in row `y`.
pub open spec fn row_of(cells: Seq<frame::CellView>, y: int) -> Seq<frame::CellView>
    decreases cells.len(),
{
    if cells.len() == 0 {
        Seq::empty()
    } else if cells.last().y == y {
        row_of(cells.drop_last(), y).push(cells.last())
    } else {
        row_of(cells.drop_last(), y)
    }
}

/// The first `count` rows, each from the snapshot where it changed and from `cached` where not.
pub open spec fn merged_rows(
    cached: Seq<frame::CellView>,
    snapshot: Snapshot,
    count: nat,
) -> Seq<frame::CellView>
    decreases count,
{
    if count == 0 {
        Seq::empty()
    } else {
        let y = count - 1;
        merged_rows(cached, snapshot, y as nat) + if y < snapshot.lines@.len()
            && snapshot.lines@[y].dirty {
            snapshot.line(y)
        } else {
            row_of(cached, y)
        }
    }
}

/// Cells stand in reading order and no two share a position.
pub open spec fn in_order(cells: Seq<frame::CellView>) -> bool {
    forall|i: int, j: int|
        0 <= i < j < cells.len() ==> (#[trigger] cells[i]).y < (#[trigger] cells[j]).y || (
        cells[i].y == cells[j].y && cells[i].x < cells[j].x)
}

/// Every cell stands in the first `rows` rows.
pub open spec fn above(cells: Seq<frame::CellView>, rows: int) -> bool {
    forall|i: int| 0 <= i < cells.len() ==> (#[trigger] cells[i]).y < rows
}

/// The frame that was last drawn, and how often the terminal has changed.
#[derive(Debug)]
pub struct TerminalCore {
    pub cached_frame: Option<Frame>,
    pub revision: u64,
}

/// The frame that a snapshot leads to, where `cached` was drawn before it.
pub open spec fn frame_after(
    cached: Option<frame::FrameView>,
    snapshot: Snapshot,
) -> frame::FrameView {
    match cached {
        Some(cached) => if snapshot.dirty == Dirty::Clean {
            cached
        } else if snapshot.dirty == Dirty::Full || cached.cols != snapshot.cols || cached.rows
            != snapshot.rows {
            snapshot.complete_frame()
        } else {
            frame::FrameView {
                version: cached.version,
                ..snapshot.framed(merged_rows(cached.cells, snapshot, snapshot.rows as nat))
            }
        },
        None => snapshot.complete_frame(),
    }
}

impl TerminalCore {
    /// A cached frame has its cells in reading order, inside the frame.
    pub open spec fn wf(&self) -> bool {
        self.cached_frame matches Some(frame) ==> in_order(frame@.cells) && above(
            frame@.cells,
            frame@.rows as int,
        )
    }

    /// The cached frame.
    pub open spec fn cached(&self) -> Option<frame::FrameView> {
        match self.cached_frame {
            Some(frame) => Some(frame@),
            None => None,
        }
    }

    /// Whether every line is to be drawn anew.
    pub open spec fn draws_all(&self, dirty: Dirty, cols: u16, rows: u16) -> bool {
        ||| dirty == Dirty::Full
        ||| self.cached_frame is None
        ||| self.cached_frame->0.cols != cols
        ||| self.cached_frame->0.rows != rows
    }

    /// The frame that a snapshot leads to.
    pub open spec fn next_frame(&self, snapshot: Snapshot) -> frame::FrameView {
        frame_after(self.cached(), snapshot)
    }

    /// A terminal of which nothing was drawn yet.
    pub fn new() -> (core: TerminalCore)
        ensures
            core.wf(),
            core.cached_frame is None,
            core.revision == 0,
    {
        TerminalCore { cached_frame: None, revision: 0 }
    }

    /// Notes that output of `length` bytes was written to the terminal.
    pub fn apply_output(&mut self, length: usize)
        ensures
            final(self).cached_frame == old(self).cached_frame,
            final(self).revision == if length > 0 {
                old(self).revision.wrapping_add(1)
            } else {
                old(self).revision
            },
    {
        if length > 0 {
            self.revision = self.revision.wrapping_add(1);
        }
    }

    /// Notes that the colors changed: the next frame is drawn anew.
    pub fn set_theme(&mut self)
        ensures
            final(self).wf(),
            final(self).cached_frame is None,
            final(self).revision == old(self).revision.wrapping_add(1),
    {
        self.cached_frame = None;
        self.revision = self.revision.wrapping_add(1);
    }

    /// Notes that the size changed: the next frame is drawn anew.
    pub fn resize(&mut self)
        ensures
            final(self).wf(),
            final(self).cached_frame is None,
            final(self).revision == old(self).revision.wrapping_add(1),
    {
        self.cached_frame = None;
        self.revision = self.revision.wrapping_add(1);
    }

    /// How often the terminal has changed, modulo the range of the counter.
    pub fn revision(&self) -> (revision: u64)
        ensures
            revision == self.revision,
    {
        self.revision
    }

    /// Whether every line is to be drawn anew.
    pub fn is_full(&self, dirty: Dirty, cols: u16, rows: u16) -> (full: bool)
        ensures
            full == self.draws_all(dirty, cols, rows),
    {
        if dirty == Dirty::Full {
            return true;
        }
        match &self.cached_frame {
            Some(frame) => frame.cols != cols || frame.rows != rows,
            None => true,
        }
    }
}

proof fn lemma_line_cells(
    cells: Seq<RawCellView>,
    count: nat,
    y: u16,
    foreground: Color,
    background: Color,
)
    requires
        count <= u16::MAX,
    ensures
        ({
            let line = line_cells(cells, count, y, foreground, background);
            &&& in_order(line)
            &&& forall|i: int| 0 <= i < line.len() ==> (#[trigger] line[i]).y == y && line[i].x
                < count
        }),
    decreases count,
{
    if count > 0 {
        lemma_line_cells(cells, (count - 1) as nat, y, foreground, background);
    }
}

proof fn lemma_row_of(cells: Seq<frame::CellView>, y: int)
    requires
        in_order(cells),
    ensures
        in_order(row_of(cells, y)),
        forall|i: int| 0 <= i < row_of(cells, y).len() ==> (#[trigger] row_of(cells, y)[i]).y == y,
        forall|i: int|
            0 <= i < row_of(cells, y).len() ==> cells.contains(#[trigger] row_of(cells, y)[i]),
    decreases cells.len(),
{
    if cells.len() > 0 {
        let front = cells.drop_last();
        assert(in_order(front));
        lemma_row_of(front, y);
        let row = row_of(front, y);
        assert forall|i: int| 0 <= i < row.len() implies cells.contains(#[trigger] row[i]) by {
            assert(front.contains(row[i]));
            let j = choose|j: int| 0 <= j < front.len() && front[j] == row[i];
            assert(cells[j] == row[i]);
        }
        if cells.last().y == y {
            assert(cells[cells.len() - 1] == cells.last());
            assert forall|i: int| 0 <= i < row.len() implies (#[trigger] row[i]).x
                < cells.last().x by {
                assert(front.contains(row[i]));
                let j = choose|j: int| 0 <= j < front.len() && front[j] == row[i];
                assert(cells[j] == row[i]);
            }
        }
    }
}

proof fn lemma_append_row(before: Seq<frame::CellView>, row: Seq<frame::CellView>, y: int)
    requires
        in_order(before),
        above(before, y),
        in_order(row),
        forall|i: int| 0 <= i < row.len() ==> (#[trigger] row[i]).y == y,
    ensures
        in_order(before + row),
        above(before + row, y + 1),
{
}

proof fn lemma_merged_rows(cached: Seq<frame::CellView>, snapshot: Snapshot, count: nat)
    requires
        in_order(cached),
        snapshot.wf(),
        count <= u16::MAX,
    ensures
        in_order(merged_rows(cached, snapshot, count)),
        above(merged_rows(cached, snapshot, count), count as int),
    decreases count,
{
    if count > 0 {
        let y = count - 1;
        lemma_merged_rows(cached, snapshot, y as nat);
        if y < snapshot.lines@.len() && snapshot.lines@[y].dirty {
            let cells = raw_views(snapshot.lines@[y].cells@);
            lemma_line_cells(
                cells,
                cells.len(),
                y as u16,
                snapshot.foreground,
                snapshot.background,
            );
            lemma_append_row(merged_rows(cached, snapshot, y as nat), snapshot.line(y), y);
        } else {
            lemma_row_of(cached, y);
            lemma_append_row(merged_rows(cached, snapshot, y as nat), row_of(cached, y), y);
        }
    }
}

proof fn lemma_lines_drawn(snapshot: Snapshot, count: nat)
    requires
        snapshot.wf(),
        count <= snapshot.lines@.len(),
    ensures
        in_order(snapshot.lines_drawn(count)),
        above(snapshot.lines_drawn(count), count as int),
    decreases count,
{
    if count > 0 {
        let y = count - 1;
        lemma_lines_drawn(snapshot, y as nat);
        let cells = raw_views(snapshot.lines@[y].cells@);
        lemma_line_cells(cells, cells.len(), y as u16, snapshot.foreground, snapshot.background);
        lemma_append_row(snapshot.lines_drawn(y as nat), snapshot.line(y), y);
    }
}

/// Draws one engine cell.
fn draw(cell: &RawCell, x: u16, y: u16, foreground: Color, background: Color) -> (result: Option<
    Cell,
>)
    ensures
        (match result {
            Some(cell) => Some(cell@),
            None => None,
        }) == drawn(cell@, x, y, foreground, background),
{
    match cell.wide {
        CellWide::SpacerTail | CellWide::SpacerHead => {
            return None;
        },
        _ => {},
    }
    let fore = match cell.foreground {
        Some(color) => color,
        None => foreground,
    };
    let back = match cell.background {
        Some(color) => color,
        None => background,
    };
    let (fore, back) = if cell.style.inverse {
        (back, fore)
    } else {
        (fore, back)
    };
    let attributes = Attributes {
        bold: cell.style.bold,
        italic: cell.style.italic,
        faint: cell.style.faint,
        invisible: cell.style.invisible,
        strikethrough: cell.style.strikethrough,
        overline: cell.style.overline,
        underline: if cell.style.underlined {
            Some(Underline::Single)
        } else {
            None
        },
    };
    if !cell.text.as_str().is_empty() || !(back == background) || has_attributes(&attributes) {
        Some(
            Cell {
                x,
                y,
                text: cell.text.clone(),
                width: if cell.wide == CellWide::Wide {
                    2
                } else {
                    1
                },
                foreground: fore,
                background: back,
                attributes,
            },
        )
    } else {
        None
    }
}

/// Draws line `y` behind `output`.
fn draw_line(snapshot: &Snapshot, y: u16, output: &mut Vec<Cell>)
    requires
        snapshot.wf(),
        y < snapshot.lines@.len(),
    ensures
        frame::cell_views(final(output)@) == frame::cell_views(old(output)@) + snapshot.line(
            y as int,
        ),
{
    let ghost before = frame::cell_views(output@);
    let cells = &snapshot.lines[y as usize].cells;
    let ghost views = raw_views(cells@);
    let mut x: u16 = 0;
    assert(before + line_cells(views, 0, y, snapshot.foreground, snapshot.background) =~= before);
    let total: u16 = cells.len() as u16;
    while x < total
        invariant
            x <= total,
            total == cells@.len(),
            views == raw_views(cells@),
            frame::cell_views(output@) == before + line_cells(
                views,
                x as nat,
                y,
                snapshot.foreground,
                snapshot.background,
            ),
        decreases total - x,
    {
        let ghost held = frame::cell_views(output@);
        assert(views[x as int] == cells@[x as int]@);
        match draw(&cells[x as usize], x, y, snapshot.foreground, snapshot.background) {
            Some(cell) => {
                let ghost view = cell@;
                output.push(cell);
                assert(frame::cell_views(output@) =~= held.push(view));
                assert(before + line_cells(
                    views,
                    (x + 1) as nat,
                    y,
                    snapshot.foreground,
                    snapshot.background,
                ) =~= held.push(view));
            },
            None => {},
        }
        x += 1;
    }
}

/// Copies the cells of row `y` behind `output`.
fn copy_row(cells: &Vec<Cell>, y: u16, output: &mut Vec<Cell>)
    ensures
        frame::cell_views(final(output)@) == frame::cell_views(old(output)@) + row_of(
            frame::cell_views(cells@),
            y as int,
        ),
{
    let ghost before = frame::cell_views(output@);
    let ghost views = frame::cell_views(cells@);
    let mut index: usize = 0;
    assert(views.take(0) =~= Seq::<frame::CellView>::empty());
    assert(before + row_of(views.take(0), y as int) =~= before);
    while index < cells.len()
        invariant
            index <= cells@.len(),
            views == frame::cell_views(cells@),
            frame::cell_views(output@) == before + row_of(views.take(index as int), y as int),
        decreases cells@.len() - index,
    {
        assert(views.take(index + 1).drop_last() =~= views.take(index as int));
        assert(views.take(index + 1).last() == cells@[index as int]@);
        let ghost held = frame::cell_views(output@);
        if cells[index].y == y {
            let copy = cells[index].clone();
            let ghost view = copy@;
            output.push(copy);
            assert(frame::cell_views(output@) =~= held.push(view));
            assert(before + row_of(views.take(index + 1), y as int) =~= held.push(view));
        }
        index += 1;
    }
    assert(views.take(index as int) =~= views);
}

impl TerminalCore {
    fn merge(cached: &Frame, snapshot: &Snapshot) -> (cells: Vec<Cell>)
        requires
            snapshot.wf(),
        ensures
            frame::cell_views(cells@) == merged_rows(
                cached@.cells,
                *snapshot,
                snapshot.rows as nat,
            ),
    {
        let mut cells: Vec<Cell> = Vec::new();
        let mut y: u16 = 0;
        assert(frame::cell_views(cells@) =~= Seq::<frame::CellView>::empty());
        while y < snapshot.rows
            invariant
                y <= snapshot.rows,
                snapshot.wf(),
                frame::cell_views(cells@) == merged_rows(cached@.cells, *snapshot, y as nat),
            decreases snapshot.rows - y,
        {
            if (y as usize) < snapshot.lines.len() && snapshot.lines[y as usize].dirty {
                draw_line(snapshot, y, &mut cells);
            } else {
                copy_row(&cached.cells, y, &mut cells);
            }
            y += 1;
        }
        cells
    }

    fn draw_all(snapshot: &Snapshot) -> (cells: Vec<Cell>)
        requires
            snapshot.wf(),
        ensures
            frame::cell_views(cells@) == snapshot.lines_drawn(snapshot.lines@.len()),
    {
        let mut cells: Vec<Cell> = Vec::new();
        let count: u16 = snapshot.lines.len() as u16;
        let mut y: u16 = 0;
        assert(frame::cell_views(cells@) =~= Seq::<frame::CellView>::empty());
        while y < count
            invariant
                y <= count,
                count == snapshot.lines@.len(),
                snapshot.wf(),
                frame::cell_views(cells@) == snapshot.lines_drawn(y as nat),
            decreases count - y,
        {
            draw_line(snapshot, y, &mut cells);
            y += 1;
        }
        cells
    }

    /// Draws a complete frame from a snapshot. Lines that did not change come from the frame drawn
    /// before.
    pub fn frame(&mut self, snapshot: &Snapshot) -> (frame: Frame)
        requires
            old(self).wf(),
            snapshot.wf(),
        ensures
            frame@ == old(self).next_frame(*snapshot),
            final(self).wf(),
            final(self).revision == old(self).revision,
            final(self).cached() == Some(frame@),
            in_order(frame@.cells),
    {
        if snapshot.dirty == Dirty::Clean {
            if let Some(frame) = &self.cached_frame {
                return frame.clone();
            }
        }
        let cursor = match (snapshot.cursor.visible, snapshot.cursor.position) {
            (true, Some((x, y))) => Some(
                Cursor {
                    x,
                    y,
                    color: match snapshot.cursor.color {
                        Some(color) => color,
                        None => snapshot.foreground,
                    },
                    blinking: snapshot.cursor.blinking,
                },
            ),
            _ => None,
        };
        let full = self.is_full(snapshot.dirty, snapshot.cols, snapshot.rows);
        let (version, cells) = match &self.cached_frame {
            Some(cached) => {
                if full {
                    proof {
                        lemma_lines_drawn(*snapshot, snapshot.lines@.len());
                    }
                    (frame::FORMAT_VERSION, TerminalCore::draw_all(snapshot))
                } else {
                    proof {
                        lemma_merged_rows(cached@.cells, *snapshot, snapshot.rows as nat);
                    }
                    (cached.version, TerminalCore::merge(cached, snapshot))
                }
            },
            None => {
                proof {
                    lemma_lines_drawn(*snapshot, snapshot.lines@.len());
                }
                (frame::FORMAT_VERSION, TerminalCore::draw_all(snapshot))
            },
        };
        let frame = Frame {
            version,
            cols: snapshot.cols,
            rows: snapshot.rows,
            foreground: snapshot.foreground,
            background: snapshot.background,
            cursor,
            cells,
        };
        let copy = frame.clone();
        self.cached_frame = Some(copy);
        frame
    }
}

proof fn lemma_row_of_concat(first: Seq<frame::CellView>, second: Seq<frame::CellView>, y: int)
    ensures
        row_of(first + second, y) == row_of(first, y) + row_of(second, y),
    decreases second.len(),
{
    if second.len() == 0 {
        assert(first + second =~= first);
        assert(row_of(first, y) + row_of(second, y) =~= row_of(first, y));
    } else {
        assert((first + second).drop_last() =~= first + second.drop_last());
        lemma_row_of_concat(first, second.drop_last(), y);
        assert(row_of(first + second, y) =~= row_of(first, y) + row_of(second, y));
    }
}

proof fn lemma_row_of_same(cells: Seq<frame::CellView>, row: int, y: int)
    requires
        forall|i: int| 0 <= i < cells.len() ==> (#[trigger] cells[i]).y == row,
    ensures
        row_of(cells, y) == if y == row {
            cells
        } else {
            Seq::empty()
        },
    decreases cells.len(),
{
    if cells.len() > 0 {
        assert(cells.last() == cells[cells.len() - 1]);
        lemma_row_of_same(cells.drop_last(), row, y);
        assert(cells.drop_last().push(cells.last()) =~= cells);
    } else if y == row {
        assert(row_of(cells, y) =~= cells);
    }
}

/// The frame cells of the first `count` lines of a screen.
pub open spec fn screen_cells(
    screen: Seq<Seq<RawCellView>>,
    count: nat,
    foreground: Color,
    background: Color,
) -> Seq<frame::CellView>
    decreases count,
{
    if count == 0 {
        Seq::empty()
    } else {
        let line = screen[count - 1];
        screen_cells(screen, (count - 1) as nat, foreground, background) + line_cells(
            line,
            line.len(),
            (count - 1) as u16,
            foreground,
            background,
        )
    }
}

/// One reading of a terminal: the snapshot that is handed over, and all lines that the screen shows
/// at that moment. The snapshot need not hold lines that did not change.
pub struct Reading {
    pub snapshot: Snapshot,
    pub screen: Seq<Seq<RawCellView>>,
}

impl Reading {
    /// The snapshot is well formed, and the screen has a line for each row.
    pub open spec fn wf(self) -> bool {
        &&& self.snapshot.wf()
        &&& self.screen.len() == self.snapshot.rows
        &&& forall|y: int|
            0 <= y < self.screen.len() ==> (#[trigger] self.screen[y]).len() <= u16::MAX
    }

    /// The frame of what the screen shows.
    pub open spec fn shown(self) -> frame::FrameView {
        self.snapshot.framed(
            screen_cells(
                self.screen,
                self.screen.len(),
                self.snapshot.foreground,
                self.snapshot.background,
            ),
        )
    }

    /// Whether the snapshot marks line `y` as changed.
    pub open spec fn marks(self, y: int) -> bool {
        y < self.snapshot.lines@.len() && self.snapshot.lines@[y].dirty
    }

    /// Whether the snapshot holds line `y` as the screen shows it.
    pub open spec fn holds(self, y: int) -> bool {
        y < self.snapshot.lines@.len() && raw_views(self.snapshot.lines@[y].cells@)
            == self.screen[y]
    }

    /// Whether the snapshot holds every line.
    pub open spec fn holds_all(self) -> bool {
        forall|y: int| 0 <= y < self.screen.len() ==> #[trigger] self.holds(y)
    }

    /// Whether this reading tells what changed since an earlier one. It tells nothing where it is
    /// clean and the screen shows the same. It tells everything where it is full or the size is
    /// another. Otherwise it holds the lines that it marks, and the other lines and the default
    /// colors are as before.
    pub open spec fn follows(self, earlier: Reading) -> bool {
        let resized = earlier.snapshot.cols != self.snapshot.cols || earlier.snapshot.rows
            != self.snapshot.rows;
        if self.snapshot.dirty == Dirty::Clean {
            self.shown() == earlier.shown()
        } else if self.snapshot.dirty == Dirty::Full || resized {
            self.holds_all()
        } else {
            &&& earlier.snapshot.foreground == self.snapshot.foreground
            &&& earlier.snapshot.background == self.snapshot.background
            &&& forall|y: int|
                0 <= y < self.screen.len() ==> if #[trigger] self.marks(y) {
                    self.holds(y)
                } else {
                    self.screen[y] == earlier.screen[y]
                }
        }
    }
}

/// Whether these are the readings of a terminal, one after the other. The first one tells
/// everything.
pub open spec fn is_history(readings: Seq<Reading>) -> bool {
    &&& forall|i: int| 0 <= i < readings.len() ==> (#[trigger] readings[i]).wf()
    &&& readings.len() > 0 ==> readings[0].holds_all()
    &&& forall|i: int, j: int|
        0 <= i && j == i + 1 && j < readings.len() ==> (#[trigger] readings[j]).follows(
            #[trigger] readings[i],
        )
}

/// The frame that is drawn last when a terminal is read so.
pub open spec fn frame_of(readings: Seq<Reading>) -> Option<frame::FrameView>
    decreases readings.len(),
{
    if readings.len() == 0 {
        None
    } else {
        Some(frame_after(frame_of(readings.drop_last()), readings.last().snapshot))
    }
}

proof fn lemma_screen_line_is_found(reading: Reading, count: nat, y: int)
    requires
        reading.wf(),
        count <= reading.screen.len(),
        0 <= y < reading.screen.len(),
    ensures
        ({
            let foreground = reading.snapshot.foreground;
            let background = reading.snapshot.background;
            let line = reading.screen[y];
            row_of(screen_cells(reading.screen, count, foreground, background), y) == if y < count {
                line_cells(line, line.len(), y as u16, foreground, background)
            } else {
                Seq::empty()
            }
        }),
    decreases count,
{
    if count > 0 {
        let foreground = reading.snapshot.foreground;
        let background = reading.snapshot.background;
        let last = count - 1;
        let line = reading.screen[last];
        let before = screen_cells(reading.screen, last as nat, foreground, background);
        let cells = line_cells(line, line.len(), last as u16, foreground, background);
        lemma_screen_line_is_found(reading, last as nat, y);
        lemma_row_of_concat(before, cells, y);
        lemma_line_cells(line, line.len(), last as u16, foreground, background);
        lemma_row_of_same(cells, last, y);
        if y == last {
            assert(Seq::<frame::CellView>::empty() + cells =~= cells);
        } else if y < last {
            assert(row_of(before, y) + Seq::<frame::CellView>::empty() =~= row_of(before, y));
        } else {
            assert(row_of(before, y) + Seq::<frame::CellView>::empty()
                =~= Seq::<frame::CellView>::empty());
        }
    }
}

proof fn lemma_held_lines_are_drawn(reading: Reading, count: nat)
    requires
        reading.holds_all(),
        count <= reading.screen.len(),
    ensures
        reading.snapshot.lines_drawn(count) == screen_cells(
            reading.screen,
            count,
            reading.snapshot.foreground,
            reading.snapshot.background,
        ),
    decreases count,
{
    if count > 0 {
        lemma_held_lines_are_drawn(reading, (count - 1) as nat);
        assert(reading.holds(count - 1));
    }
}

/// Where a snapshot holds every line, the frame drawn from it alone is the frame of what the screen
/// shows.
pub proof fn lemma_complete_frame_is_shown(reading: Reading)
    requires
        reading.wf(),
        reading.holds_all(),
    ensures
        reading.snapshot.complete_frame() == reading.shown(),
{
    if reading.screen.len() > 0 {
        assert(reading.holds(reading.screen.len() - 1));
    }
    lemma_held_lines_are_drawn(reading, reading.screen.len());
}

proof fn lemma_merged_lines(earlier: Reading, later: Reading, count: nat)
    requires
        earlier.wf(),
        later.wf(),
        later.follows(earlier),
        later.snapshot.dirty == Dirty::Partial,
        earlier.snapshot.cols == later.snapshot.cols,
        earlier.snapshot.rows == later.snapshot.rows,
        count <= later.screen.len(),
    ensures
        merged_rows(earlier.shown().cells, later.snapshot, count) == screen_cells(
            later.screen,
            count,
            later.snapshot.foreground,
            later.snapshot.background,
        ),
    decreases count,
{
    if count > 0 {
        let y = count - 1;
        lemma_merged_lines(earlier, later, y as nat);
        assert(if later.marks(y) {
            later.holds(y)
        } else {
            later.screen[y] == earlier.screen[y]
        });
        if !later.marks(y) {
            lemma_screen_line_is_found(earlier, earlier.screen.len(), y);
        }
    }
}

/// Merging changed lines gives a complete frame: a reading that tells what changed since the frame
/// before it leads to the frame of what the screen shows.
pub proof fn lemma_merged_frame_is_complete(earlier: Reading, later: Reading)
    requires
        earlier.wf(),
        later.wf(),
        later.follows(earlier),
    ensures
        frame_after(Some(earlier.shown()), later.snapshot) == later.shown(),
{
    if later.snapshot.dirty == Dirty::Clean {
    } else if later.snapshot.dirty == Dirty::Full || earlier.snapshot.cols != later.snapshot.cols
        || earlier.snapshot.rows != later.snapshot.rows {
        lemma_complete_frame_is_shown(later);
    } else {
        lemma_merged_lines(earlier, later, later.screen.len());
    }
}

/// However often a terminal is read before, and whatever was merged then, the frame that is drawn
/// last is the frame of what the screen shows.
pub proof fn lemma_frame_shows_the_screen(readings: Seq<Reading>)
    requires
        readings.len() > 0,
        is_history(readings),
    ensures
        frame_of(readings) == Some(readings.last().shown()),
    decreases readings.len(),
{
    let front = readings.drop_last();
    let later = readings.last();
    assert(later == readings[readings.len() - 1]);
    if front.len() > 0 {
        assert forall|i: int| 0 <= i < front.len() implies (#[trigger] front[i]).wf() by {
            assert(readings[i].wf());
        }
        assert forall|i: int, j: int| 0 <= i && j == i + 1 && j < front.len() implies (
        #[trigger] front[j]).follows(#[trigger] front[i]) by {
            assert(readings[j].follows(readings[i]));
        }
        assert(front[0] == readings[0]);
        lemma_frame_shows_the_screen(front);
        let earlier = front.last();
        assert(earlier == readings[readings.len() - 2]);
        assert(later.follows(earlier));
        lemma_merged_frame_is_complete(earlier, later);
    } else {
        assert(frame_of(front) is None);
        lemma_complete_frame_is_shown(later);
    }
}

/// Reads that come before do not matter: a terminal that shows the same at the end gives the same
/// frame, in whatever steps it was read.
pub proof fn lemma_frame_is_independent_of_reads(left: Seq<Reading>, right: Seq<Reading>)
    requires
        left.len() > 0,
        right.len() > 0,
        is_history(left),
        is_history(right),
        left.last().shown() == right.last().shown(),
    ensures
        frame_of(left) == frame_of(right),
{
    lemma_frame_shows_the_screen(left);
    lemma_frame_shows_the_screen(right);
}

proof fn lemma_row_holds(cells: Seq<frame::CellView>, y: int, cell: frame::CellView)
    ensures
        row_of(cells, y).contains(cell) <==> cells.contains(cell) && cell.y == y,
    decreases cells.len(),
{
    if cells.len() > 0 {
        let front = cells.drop_last();
        let last = cells.last();
        let row = row_of(front, y);
        lemma_row_holds(front, y, cell);
        if cells.contains(cell) && cell.y == y {
            let i = choose|i: int| 0 <= i < cells.len() && cells[i] == cell;
            if i < front.len() {
                assert(front[i] == cell);
                let j = choose|j: int| 0 <= j < row.len() && row[j] == cell;
                assert(row_of(cells, y)[j] == cell);
            } else {
                assert(row_of(cells, y)[row.len() as int] == cell);
            }
        }
        if row_of(cells, y).contains(cell) {
            let i = choose|i: int| 0 <= i < row_of(cells, y).len() && row_of(cells, y)[i] == cell;
            if i < row.len() {
                assert(row[i] == cell);
                assert(front.contains(cell));
                let j = choose|j: int| 0 <= j < front.len() && front[j] == cell;
                assert(cells[j] == cell);
            } else {
                assert(cells[cells.len() - 1] == cell);
            }
        }
    }
}

proof fn lemma_line_comes_from_cells(
    cells: Seq<RawCellView>,
    count: nat,
    y: u16,
    foreground: Color,
    background: Color,
    x: int,
)
    requires
        count <= u16::MAX,
        0 <= x < count,
    ensures
        ({
            let line = line_cells(cells, count, y, foreground, background);
            let shown = drawn(cells[x], x as u16, y, foreground, background);
            &&& shown matches Some(cell) ==> line.contains(cell)
            &&& forall|i: int|
                0 <= i < line.len() && (#[trigger] line[i]).x == x ==> shown == Some(line[i])
        }),
    decreases count,
{
    let before = line_cells(cells, (count - 1) as nat, y, foreground, background);
    let line = line_cells(cells, count, y, foreground, background);
    lemma_line_cells(cells, (count - 1) as nat, y, foreground, background);
    if x < count - 1 {
        lemma_line_comes_from_cells(cells, (count - 1) as nat, y, foreground, background, x);
        if let Some(cell) = drawn(cells[x], x as u16, y, foreground, background) {
            let i = choose|i: int| 0 <= i < before.len() && before[i] == cell;
            assert(line[i] == cell);
        }
    } else if let Some(cell) = drawn(cells[x], x as u16, y, foreground, background) {
        assert(line[before.len() as int] == cell);
    }
}

proof fn lemma_drawn_row(snapshot: Snapshot, count: nat, y: int)
    requires
        snapshot.wf(),
        count <= snapshot.lines@.len(),
        0 <= y,
    ensures
        row_of(snapshot.lines_drawn(count), y) == if y < count {
            snapshot.line(y)
        } else {
            Seq::empty()
        },
    decreases count,
{
    if count > 0 {
        let last = count - 1;
        let before = snapshot.lines_drawn(last as nat);
        let line = snapshot.line(last);
        let cells = raw_views(snapshot.lines@[last].cells@);
        lemma_drawn_row(snapshot, last as nat, y);
        lemma_row_of_concat(before, line, y);
        lemma_line_cells(
            cells,
            cells.len(),
            last as u16,
            snapshot.foreground,
            snapshot.background,
        );
        lemma_row_of_same(line, last, y);
        if y == last {
            assert(Seq::<frame::CellView>::empty() + line =~= line);
        } else {
            assert(row_of(before, y) + Seq::<frame::CellView>::empty() =~= row_of(before, y));
        }
    }
}

proof fn lemma_merged_row(cached: Seq<frame::CellView>, snapshot: Snapshot, count: nat, y: int)
    requires
        in_order(cached),
        snapshot.wf(),
        count <= u16::MAX,
        0 <= y,
    ensures
        row_of(merged_rows(cached, snapshot, count), y) == if y >= count {
            Seq::empty()
        } else if y < snapshot.lines@.len() && snapshot.lines@[y].dirty {
            snapshot.line(y)
        } else {
            row_of(cached, y)
        },
    decreases count,
{
    if count > 0 {
        let last = count - 1;
        let before = merged_rows(cached, snapshot, last as nat);
        let line = if last < snapshot.lines@.len() && snapshot.lines@[last].dirty {
            snapshot.line(last)
        } else {
            row_of(cached, last)
        };
        lemma_merged_row(cached, snapshot, last as nat, y);
        lemma_row_of_concat(before, line, y);
        if last < snapshot.lines@.len() && snapshot.lines@[last].dirty {
            let cells = raw_views(snapshot.lines@[last].cells@);
            lemma_line_cells(
                cells,
                cells.len(),
                last as u16,
                snapshot.foreground,
                snapshot.background,
            );
        } else {
            lemma_row_of(cached, last);
        }
        lemma_row_of_same(line, last, y);
        if y == last {
            assert(Seq::<frame::CellView>::empty() + line =~= line);
        } else {
            assert(row_of(before, y) + Seq::<frame::CellView>::empty() =~= row_of(before, y));
        }
    }
}

/// A line of a frame comes from the snapshot if it is drawn anew.
proof fn lemma_drawn_line_is_shown(core: TerminalCore, snapshot: Snapshot, y: int)
    requires
        core.wf(),
        snapshot.wf(),
        0 <= y < snapshot.lines@.len(),
        core.cached_frame matches Some(cached) ==> snapshot.dirty != Dirty::Clean && (
        snapshot.lines@[y].dirty || snapshot.dirty == Dirty::Full || cached.cols != snapshot.cols
            || cached.rows != snapshot.rows),
    ensures
        row_of(core.next_frame(snapshot).cells, y) == snapshot.line(y),
{
    lemma_drawn_row(snapshot, snapshot.lines@.len(), y);
    if let Some(cached) = core.cached_frame {
        lemma_merged_row(cached@.cells, snapshot, snapshot.rows as nat, y);
    }
}

/// A cell that is drawn anew shows exactly if it is no spacer and has text, an attribute or a
/// background other than the terminal's. It shows the engine's text in the width of that text, in
/// the colors and with the attributes that the engine gives it: its own colors where it has them
/// and the terminal's where not, exchanged where the text is inverse.
pub proof fn lemma_engine_cells_are_shown(core: TerminalCore, snapshot: Snapshot, x: int, y: int)
    requires
        core.wf(),
        snapshot.wf(),
        0 <= y < snapshot.lines@.len(),
        0 <= x < snapshot.lines@[y].cells@.len(),
        core.cached_frame matches Some(cached) ==> snapshot.dirty != Dirty::Clean && (
        snapshot.lines@[y].dirty || snapshot.dirty == Dirty::Full || cached.cols != snapshot.cols
            || cached.rows != snapshot.rows),
    ensures
        ({
            let cells = core.next_frame(snapshot).cells;
            let cell = snapshot.lines@[y].cells@[x];
            let style = cell.style;
            let own = cell.foreground;
            let behind = cell.background;
            let spacer = cell.wide is SpacerTail || cell.wide is SpacerHead;
            let painted = if style.inverse {
                own.unwrap_or(snapshot.foreground) != snapshot.background
            } else {
                behind is Some && behind->0 != snapshot.background
            };
            let decorated = style.bold || style.italic || style.faint || style.invisible
                || style.strikethrough || style.overline || style.underlined;
            &&& (exists|i: int|
                0 <= i < cells.len() && (#[trigger] cells[i]).x == x && cells[i].y == y) <==> (
            !spacer && (cell.text@.len() > 0 || painted || decorated))
            &&& forall|i: int|
                0 <= i < cells.len() && (#[trigger] cells[i]).x == x && cells[i].y == y ==> {
                    let shown = cells[i];
                    &&& shown.text == cell.text@
                    &&& cell.wide is Wide ==> shown.width == 2
                    &&& cell.wide is Narrow ==> shown.width == 1
                    &&& !style.inverse && own is Some ==> Some(shown.foreground) == own
                    &&& !style.inverse && own is None ==> shown.foreground == snapshot.foreground
                    &&& !style.inverse && behind is Some ==> Some(shown.background) == behind
                    &&& !style.inverse && behind is None ==> shown.background
                        == snapshot.background
                    &&& style.inverse && own is Some ==> Some(shown.background) == own
                    &&& style.inverse && own is None ==> shown.background == snapshot.foreground
                    &&& style.inverse && behind is Some ==> Some(shown.foreground) == behind
                    &&& style.inverse && behind is None ==> shown.foreground
                        == snapshot.background
                    &&& shown.attributes.bold == style.bold
                    &&& shown.attributes.italic == style.italic
                    &&& shown.attributes.faint == style.faint
                    &&& shown.attributes.invisible == style.invisible
                    &&& shown.attributes.strikethrough == style.strikethrough
                    &&& shown.attributes.overline == style.overline
                    &&& (shown.attributes.underline is Some) == style.underlined
                }
        }),
{
    let cells = core.next_frame(snapshot).cells;
    let views = raw_views(snapshot.lines@[y].cells@);
    let line = snapshot.line(y);
    let (foreground, background) = (snapshot.foreground, snapshot.background);
    lemma_drawn_line_is_shown(core, snapshot, y);
    lemma_line_comes_from_cells(views, views.len(), y as u16, foreground, background, x);
    assert(views[x] == snapshot.lines@[y].cells@[x]@);
    let shown = drawn(views[x], x as u16, y as u16, foreground, background);
    assert forall|i: int|
        0 <= i < cells.len() && (#[trigger] cells[i]).x == x && cells[i].y == y implies shown
        == Some(cells[i]) by {
        assert(cells.contains(cells[i]));
        lemma_row_holds(cells, y, cells[i]);
        let j = choose|j: int| 0 <= j < line.len() && line[j] == cells[i];
        assert(line[j].x == x);
    }
    if let Some(cell) = shown {
        lemma_row_holds(cells, y, cell);
        let i = choose|i: int| 0 <= i < cells.len() && cells[i] == cell;
        assert(cells[i].x == x && cells[i].y == y);
    }
}

/// A line that did not change is shown as it was shown before: no cell of it is lost, none is added
/// and none is changed.
pub proof fn lemma_unchanged_lines_are_kept(core: TerminalCore, snapshot: Snapshot, y: int)
    requires
        core.wf(),
        snapshot.wf(),
        core.cached_frame matches Some(cached) && cached.cols == snapshot.cols && cached.rows
            == snapshot.rows,
        snapshot.dirty == Dirty::Partial,
        0 <= y < snapshot.rows,
        y < snapshot.lines@.len() ==> !snapshot.lines@[y].dirty,
    ensures
        forall|cell: frame::CellView|
            cell.y == y ==> (#[trigger] core.next_frame(snapshot).cells.contains(cell)
                <==> core.cached_frame->0@.cells.contains(cell)),
{
    let cells = core.next_frame(snapshot).cells;
    let cached = core.cached_frame->0@.cells;
    lemma_merged_row(cached, snapshot, snapshot.rows as nat, y);
    assert forall|cell: frame::CellView| cell.y == y implies (#[trigger] cells.contains(cell)
        <==> cached.contains(cell)) by {
        lemma_row_holds(cells, y, cell);
        lemma_row_holds(cached, y, cell);
    }
}

/// A frame has nothing beyond its rows, and a line that is drawn anew has nothing beyond the cells
/// of the engine. Its cells stand in reading order, one at a position.
pub proof fn lemma_frame_has_nothing_else(core: TerminalCore, snapshot: Snapshot, index: int)
    requires
        core.wf(),
        snapshot.wf(),
        core.cached_frame is Some ==> snapshot.dirty != Dirty::Clean,
        0 <= index < core.next_frame(snapshot).cells.len(),
    ensures
        ({
            let cells = core.next_frame(snapshot).cells;
            let cell = cells[index];
            let all = core.cached_frame is None || snapshot.dirty == Dirty::Full
                || core.cached_frame->0.cols != snapshot.cols || core.cached_frame->0.rows
                != snapshot.rows;
            let listed = cell.y < snapshot.lines@.len();
            &&& cell.y < snapshot.rows
            &&& all ==> listed
            &&& listed && (all || snapshot.lines@[cell.y as int].dirty) ==> cell.x
                < snapshot.lines@[cell.y as int].cells@.len()
            &&& index > 0 ==> cells[index - 1].y < cell.y || (cells[index - 1].y == cell.y
                && cells[index - 1].x < cell.x)
        }),
{
    let cells = core.next_frame(snapshot).cells;
    let cell = cells[index];
    let y = cell.y as int;
    lemma_lines_drawn(snapshot, snapshot.lines@.len());
    if let Some(cached) = core.cached_frame {
        lemma_merged_rows(cached@.cells, snapshot, snapshot.rows as nat);
    }
    if index > 0 {
        assert(in_order(cells));
        assert(cells[index - 1].y <= cells[index].y);
    }
    let all = core.draws_all(snapshot.dirty, snapshot.cols, snapshot.rows);
    if y < snapshot.lines@.len() && (all || snapshot.lines@[y].dirty) {
        let views = raw_views(snapshot.lines@[y].cells@);
        lemma_drawn_line_is_shown(core, snapshot, y);
        lemma_line_cells(
            views,
            views.len(),
            y as u16,
            snapshot.foreground,
            snapshot.background,
        );
        assert(cells.contains(cell));
        lemma_row_holds(cells, y, cell);
    }
}

/// A frame that is drawn anew, in whole or in part, has the size and the colors of the terminal. It
/// has a cursor exactly if the terminal shows one that stands on the screen: there, in its own color
/// or else in that of text, and blinking if that one does.
pub proof fn lemma_frame_is_the_terminals(core: TerminalCore, snapshot: Snapshot)
    requires
        core.cached_frame is Some ==> snapshot.dirty != Dirty::Clean,
    ensures
        ({
            let frame = core.next_frame(snapshot);
            &&& frame.cols == snapshot.cols
            &&& frame.rows == snapshot.rows
            &&& frame.foreground == snapshot.foreground
            &&& frame.background == snapshot.background
            &&& frame.cursor is Some <==> snapshot.cursor.visible && snapshot.cursor.position
                is Some
            &&& frame.cursor matches Some(cursor) ==> {
                &&& snapshot.cursor.position == Some((cursor.x, cursor.y))
                &&& snapshot.cursor.color is Some ==> snapshot.cursor.color == Some(cursor.color)
                &&& snapshot.cursor.color is None ==> cursor.color == snapshot.foreground
                &&& cursor.blinking == snapshot.cursor.blinking
            }
        }),
{
}

/// Without a change the same frame is given again.
pub proof fn lemma_clean_frame_repeats(core: TerminalCore, snapshot: Snapshot)
    requires
        core.cached_frame is Some,
        snapshot.dirty == Dirty::Clean,
    ensures
        Some(core.next_frame(snapshot)) == core.cached(),
{
}

/// The palette of a terminal with `theme`: sixteen colors of its own, then the fixed ones.
pub fn theme_palette(theme: &TerminalTheme) -> (palette: Vec<Color>)
    ensures
        palette@.len() == 256,
        forall|i: int|
            0 <= i < 256 ==> #[trigger] palette@[i] == if i < 16 {
                theme.ansi@[i]
            } else {
                frame::palette_color(i)
            },
{
    let mut palette: Vec<Color> = Vec::new();
    let mut index: usize = 0;
    while index < 256
        invariant
            index <= 256,
            palette@.len() == index,
            forall|i: int|
                0 <= i < index ==> #[trigger] palette@[i] == if i < 16 {
                    theme.ansi@[i]
                } else {
                    frame::palette_color(i)
                },
        decreases 256 - index,
    {
        let color = if index < 16 {
            theme.ansi[index]
        } else {
            frame::indexed_color(index as u8)
        };
        palette.push(color);
        index += 1;
    }
    palette
}

} // verus!
