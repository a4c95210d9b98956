//! The visible contents of a terminal: cells, colors and the cursor.
use crate::text;
use vstd::prelude::*;

verus! {

/// An opaque color.
#[derive(Clone, Copy, Debug, PartialEq, Eq, Structural)]
pub struct Color {
    pub r: u8,
    pub g: u8,
    pub b: u8,
}

/// Schema version of a frame.
pub const FORMAT_VERSION: u8 = 1;

/// Color of text that sets none.
#[verifier::allow_in_spec]
pub fn default_foreground() -> Color
    returns
        (Color { r: 229, g: 229, b: 229 }),
{
    Color { r: 229, g: 229, b: 229 }
}

/// Color behind text that sets none.
#[verifier::allow_in_spec]
pub fn default_background() -> Color
    returns
        (Color { r: 0, g: 0, b: 0 }),
{
    Color { r: 0, g: 0, b: 0 }
}

/// How text is underlined.
#[derive(Clone, Copy, Debug, PartialEq, Eq, Structural)]
pub enum Underline {
    Single,
}

/// How the text of a cell is drawn.
#[derive(Clone, Copy, Debug, PartialEq, Eq, Structural)]
pub struct Attributes {
    pub bold: bool,
    pub italic: bool,
    pub faint: bool,
    pub invisible: bool,
    pub strikethrough: bool,
    pub overline: bool,
    pub underline: Option<Underline>,
}

/// Attributes of plain text.
pub open spec fn plain_attributes() -> Attributes {
    Attributes {
        bold: false,
        italic: false,
        faint: false,
        invisible: false,
        strikethrough: false,
        overline: false,
        underline: None,
    }
}

impl Default for Attributes {
    fn default() -> (attributes: Self)
        ensures
            attributes == plain_attributes(),
    {
        Attributes {
            bold: false,
            italic: false,
            faint: false,
            invisible: false,
            strikethrough: false,
            overline: false,
            underline: None,
        }
    }
}

/// One occupied position of a frame.
#[derive(Debug)]
pub struct Cell {
    pub x: u16,
    pub y: u16,
    pub text: String,
    pub width: u8,
    pub foreground: Color,
    pub background: Color,
    pub attributes: Attributes,
}

/// What a [`Cell`] holds.
pub struct CellView {
    pub x: u16,
    pub y: u16,
    pub text: Seq<char>,
    pub width: u8,
    pub foreground: Color,
    pub background: Color,
    pub attributes: Attributes,
}

impl View for Cell {
    type V = CellView;

    open spec fn view(&self) -> CellView {
        CellView {
            x: self.x,
            y: self.y,
            text: self.text@,
            width: self.width,
            foreground: self.foreground,
            background: self.background,
            attributes: self.attributes,
        }
    }
}

impl Clone for Cell {
    fn clone(&self) -> (copy: Self)
        ensures
            copy@ == self@,
    {
        Cell {
            x: self.x,
            y: self.y,
            text: self.text.clone(),
            width: self.width,
            foreground: self.foreground,
            background: self.background,
            attributes: self.attributes,
        }
    }
}

impl PartialEq for Cell {
    fn eq(&self, other: &Self) -> (same: bool) {
        self.x == other.x && self.y == other.y && text::same_text(
            self.text.as_str(),
            other.text.as_str(),
        ) && self.width == other.width && self.foreground == other.foreground && self.background
            == other.background && self.attributes == other.attributes
    }
}

impl vstd::std_specs::cmp::PartialEqSpecImpl for Cell {
    open spec fn obeys_eq_spec() -> bool {
        true
    }

    open spec fn eq_spec(&self, other: &Self) -> bool {
        self@ == other@
    }
}

/// Where the terminal cursor is drawn.
#[derive(Clone, Copy, Debug, PartialEq, Eq, Structural)]
pub struct Cursor {
    pub x: u16,
    pub y: u16,
    pub color: Color,
    pub blinking: bool,
}

/// A complete picture of a terminal.
#[derive(Debug)]
pub struct Frame {
    pub version: u8,
    pub cols: u16,
    pub rows: u16,
    pub foreground: Color,
    pub background: Color,
    pub cursor: Option<Cursor>,
    pub cells: Vec<Cell>,
}

/// What a [`Frame`] holds.
pub struct FrameView {
    pub version: u8,
    pub cols: u16,
    pub rows: u16,
    pub foreground: Color,
    pub background: Color,
    pub cursor: Option<Cursor>,
    pub cells: Seq<CellView>,
}

/// What each of `cells` holds.
pub open spec fn cell_views(cells: Seq<Cell>) -> Seq<CellView> {
    Seq::new(cells.len(), |i: int| cells[i]@)
}

impl View for Frame {
    type V = FrameView;

    open spec fn view(&self) -> FrameView {
        FrameView {
            version: self.version,
            cols: self.cols,
            rows: self.rows,
            foreground: self.foreground,
            background: self.background,
            cursor: self.cursor,
            cells: cell_views(self.cells@),
        }
    }
}

/// Copies `cells`.
pub fn copy_cells(cells: &Vec<Cell>) -> (copy: Vec<Cell>)
    ensures
        cell_views(copy@) == cell_views(cells@),
{
    let mut copy: Vec<Cell> = Vec::new();
    let mut index: usize = 0;
    while index < cells.len()
        invariant
            index <= cells@.len(),
            copy@.len() == index,
            forall|i: int| 0 <= i < index ==> (#[trigger] copy@[i])@ == cells@[i]@,
        decreases cells@.len() - index,
    {
        copy.push(cells[index].clone());
        index += 1;
    }
    assert(cell_views(copy@) =~= cell_views(cells@));
    copy
}

/// Compares two lists of cells.
pub fn same_cells(left: &Vec<Cell>, right: &Vec<Cell>) -> (same: bool)
    ensures
        same == (cell_views(left@) == cell_views(right@)),
{
    if left.len() != right.len() {
        assert(cell_views(left@).len() != cell_views(right@).len());
        return false;
    }
    let mut index: usize = 0;
    while index < left.len()
        invariant
            index <= left@.len(),
            left@.len() == right@.len(),
            forall|i: int| 0 <= i < index ==> (#[trigger] left@[i])@ == right@[i]@,
        decreases left@.len() - index,
    {
        if !(left[index] == right[index]) {
            assert(cell_views(left@)[index as int] != cell_views(right@)[index as int]);
            return false;
        }
        index += 1;
    }
    assert(cell_views(left@) =~= cell_views(right@));
    true
}

/// Compares two cursors.
fn same_cursor(left: &Option<Cursor>, right: &Option<Cursor>) -> (same: bool)
    ensures
        same == (*left == *right),
{
    match (left, right) {
        (Some(left), Some(right)) => *left == *right,
        (None, None) => true,
        _ => false,
    }
}

impl Clone for Frame {
    fn clone(&self) -> (copy: Self)
        ensures
            copy@ == self@,
    {
        Frame {
            version: self.version,
            cols: self.cols,
            rows: self.rows,
            foreground: self.foreground,
            background: self.background,
            cursor: self.cursor,
            cells: copy_cells(&self.cells),
        }
    }
}

impl PartialEq for Frame {
    fn eq(&self, other: &Self) -> (same: bool) {
        self.version == other.version && self.cols == other.cols && self.rows == other.rows
            && self.foreground == other.foreground && self.background == other.background
            && same_cursor(&self.cursor, &other.cursor) && same_cells(&self.cells, &other.cells)
    }
}

impl vstd::std_specs::cmp::PartialEqSpecImpl for Frame {
    open spec fn obeys_eq_spec() -> bool {
        true
    }

    open spec fn eq_spec(&self, other: &Self) -> bool {
        self@ == other@
    }
}

/// The sixteen base colors, dark then bright.
pub open spec fn base_color(index: int) -> Color {
    if index == 0 {
        Color { r: 0, g: 0, b: 0 }
    } else if index == 1 {
        Color { r: 205, g: 0, b: 0 }
    } else if index == 2 {
        Color { r: 0, g: 205, b: 0 }
    } else if index == 3 {
        Color { r: 205, g: 205, b: 0 }
    } else if index == 4 {
        Color { r: 0, g: 0, b: 238 }
    } else if index == 5 {
        Color { r: 205, g: 0, b: 205 }
    } else if index == 6 {
        Color { r: 0, g: 205, b: 205 }
    } else if index == 7 {
        Color { r: 229, g: 229, b: 229 }
    } else if index == 8 {
        Color { r: 127, g: 127, b: 127 }
    } else if index == 9 {
        Color { r: 255, g: 0, b: 0 }
    } else if index == 10 {
        Color { r: 0, g: 255, b: 0 }
    } else if index == 11 {
        Color { r: 255, g: 255, b: 0 }
    } else if index == 12 {
        Color { r: 92, g: 92, b: 255 }
    } else if index == 13 {
        Color { r: 255, g: 0, b: 255 }
    } else if index == 14 {
        Color { r: 0, g: 255, b: 255 }
    } else {
        Color { r: 255, g: 255, b: 255 }
    }
}

/// The intensity of one step of the color cube.
pub open spec fn cube_level(step: int) -> u8 {
    if step == 0 {
        0u8
    } else {
        (55 + 40 * step) as u8
    }
}

/// The color of a palette slot: sixteen base colors, a six by six by six color cube and a ramp of
/// twenty-four grays.
pub open spec fn palette_color(index: int) -> Color {
    if index < 16 {
        base_color(index)
    } else if index < 232 {
        Color {
            r: cube_level((index - 16) / 36),
            g: cube_level(((index - 16) / 6) % 6),
            b: cube_level((index - 16) % 6),
        }
    } else {
        let gray = (8 + 10 * (index - 232)) as u8;
        Color { r: gray, g: gray, b: gray }
    }
}

fn level(step: u8) -> (value: u8)
    requires
        step < 6,
    ensures
        value == cube_level(step as int),
{
    if step == 0 {
        0
    } else {
        55 + 40 * step
    }
}

/// The color of a palette slot.
pub fn indexed_color(index: u8) -> (color: Color)
    ensures
        color == palette_color(index as int),
{
    match index {
        0 => Color { r: 0, g: 0, b: 0 },
        1 => Color { r: 205, g: 0, b: 0 },
        2 => Color { r: 0, g: 205, b: 0 },
        3 => Color { r: 205, g: 205, b: 0 },
        4 => Color { r: 0, g: 0, b: 238 },
        5 => Color { r: 205, g: 0, b: 205 },
        6 => Color { r: 0, g: 205, b: 205 },
        7 => Color { r: 229, g: 229, b: 229 },
        8 => Color { r: 127, g: 127, b: 127 },
        9 => Color { r: 255, g: 0, b: 0 },
        10 => Color { r: 0, g: 255, b: 0 },
        11 => Color { r: 255, g: 255, b: 0 },
        12 => Color { r: 92, g: 92, b: 255 },
        13 => Color { r: 255, g: 0, b: 255 },
        14 => Color { r: 0, g: 255, b: 255 },
        15 => Color { r: 255, g: 255, b: 255 },
        _ => {
            if index < 232 {
                let cube: u8 = index - 16;
                Color { r: level(cube / 36), g: level((cube / 6) % 6), b: level(cube % 6) }
            } else {
                let gray: u8 = 8 + 10 * (index - 232);
                Color { r: gray, g: gray, b: gray }
            }
        },
    }
}

/// Two hexadecimal digits.
pub open spec fn hex_pair(value: u8) -> Seq<char> {
    seq![text::digit_char(value as nat / 16), text::digit_char(value as nat % 16)]
}

/// Appends `value` as two hexadecimal digits.
pub fn push_hex_pair(output: &mut String, value: u8)
    ensures
        final(output)@ == old(output)@ + hex_pair(value),
{
    output.push(text::digit(value / 16));
    output.push(text::digit(value % 16));
    assert(output@ =~= old(output)@ + hex_pair(value));
}

impl Color {
    /// The color as a style sheet writes it.
    pub open spec fn css_text(self) -> Seq<char> {
        seq!['#'] + hex_pair(self.r) + hex_pair(self.g) + hex_pair(self.b)
    }

    /// Writes the color as a style sheet does: a number sign and six hexadecimal digits.
    pub fn css(&self) -> (output: String)
        ensures
            output@ == self.css_text(),
    {
        let mut output = String::new();
        output.push('#');
        push_hex_pair(&mut output, self.r);
        push_hex_pair(&mut output, self.g);
        push_hex_pair(&mut output, self.b);
        assert(output@ =~= self.css_text());
        output
    }
}

/// A run of `count` spaces.
pub open spec fn spaces(count: int) -> Seq<char> {
    Seq::new(if count > 0 { count as nat } else { 0 }, |i: int| ' ')
}

/// The text of row `y` before its trailing spaces are cut, and the column after it.
pub open spec fn row_layout(cells: Seq<CellView>, y: u16) -> (Seq<char>, int)
    decreases cells.len(),
{
    if cells.len() == 0 {
        (Seq::<char>::empty(), 0)
    } else {
        let (line, column) = row_layout(cells.drop_last(), y);
        let cell = cells.last();
        if cell.y != y {
            (line, column)
        } else {
            let shown = if cell.text.len() == 0 {
                spaces(cell.width as int)
            } else {
                cell.text
            };
            (line + spaces(cell.x - column) + shown, cell.x + cell.width)
        }
    }
}

/// `line` without its trailing spaces.
pub open spec fn trim_spaces(line: Seq<char>) -> Seq<char>
    decreases line.len(),
{
    if line.len() > 0 && line.last() == ' ' {
        trim_spaces(line.drop_last())
    } else {
        line
    }
}

/// The visible text of row `y`.
pub open spec fn row_text(cells: Seq<CellView>, y: u16) -> Seq<char> {
    trim_spaces(row_layout(cells, y).0)
}

/// How many of the first `rows` rows remain when trailing empty rows are left out.
pub open spec fn text_rows(cells: Seq<CellView>, rows: nat) -> nat
    decreases rows,
{
    if rows == 0 {
        0
    } else if row_text(cells, (rows - 1) as u16).len() > 0 {
        rows
    } else {
        text_rows(cells, (rows - 1) as nat)
    }
}

/// The first `rows` rows, one to a line.
pub open spec fn joined_rows(cells: Seq<CellView>, rows: nat) -> Seq<char>
    decreases rows,
{
    if rows == 0 {
        Seq::<char>::empty()
    } else if rows == 1 {
        row_text(cells, 0)
    } else {
        joined_rows(cells, (rows - 1) as nat).push('\n') + row_text(cells, (rows - 1) as u16)
    }
}

impl FrameView {
    /// The visible text of a frame: a line for each row, without trailing spaces and without
    /// trailing empty rows.
    pub open spec fn text(self) -> Seq<char> {
        joined_rows(self.cells, text_rows(self.cells, self.rows as nat))
    }

    /// Whether anything can be seen: text other than whitespace, or a cell painted in another
    /// color than the background.
    pub open spec fn has_visible_content(self) -> bool {
        exists|i: int|
            0 <= i < self.cells.len() && cell_visible(#[trigger] self.cells[i], self.background)
    }
}

/// Whether a cell stands out on `background`.
pub open spec fn cell_visible(cell: CellView, background: Color) -> bool {
    cell.background != background || !blank(cell.text)
}

/// Whether `ch` is white space in the sense of Unicode.
pub open spec fn white_space(ch: char) -> bool {
    ||| '\u{9}' <= ch <= '\u{d}'
    ||| ch == ' '
    ||| ch == '\u{85}'
    ||| ch == '\u{a0}'
    ||| ch == '\u{1680}'
    ||| '\u{2000}' <= ch <= '\u{200a}'
    ||| ch == '\u{2028}'
    ||| ch == '\u{2029}'
    ||| ch == '\u{202f}'
    ||| ch == '\u{205f}'
    ||| ch == '\u{3000}'
}

/// Whether `chars` holds white space only.
pub open spec fn blank(chars: Seq<char>) -> bool {
    forall|i: int| 0 <= i < chars.len() ==> white_space(#[trigger] chars[i])
}

/// Whether `ch` is white space in the sense of Unicode.
pub fn is_white_space(ch: char) -> (result: bool)
    ensures
        result == white_space(ch),
{
    ('\u{9}' <= ch && ch <= '\u{d}') || ch == ' ' || ch == '\u{85}' || ch == '\u{a0}' || ch
        == '\u{1680}' || ('\u{2000}' <= ch && ch <= '\u{200a}') || ch == '\u{2028}' || ch
        == '\u{2029}' || ch == '\u{202f}' || ch == '\u{205f}' || ch == '\u{3000}'
}

/// Whether `value` is empty once white space is trimmed.
pub fn is_blank(value: &str) -> (result: bool)
    ensures
        result == blank(value@),
{
    let chars = text::chars_of(value);
    let mut index: usize = 0;
    while index < chars.len()
        invariant
            index <= chars@.len(),
            chars@ == value@,
            forall|i: int| 0 <= i < index ==> white_space(#[trigger] chars@[i]),
        decreases chars@.len() - index,
    {
        if !is_white_space(chars[index]) {
            return false;
        }
        index += 1;
    }
    true
}

fn push_spaces(line: &mut Vec<char>, count: usize)
    ensures
        final(line)@ == old(line)@ + spaces(count as int),
{
    let mut done: usize = 0;
    while done < count
        invariant
            done <= count,
            line@ == old(line)@ + spaces(done as int),
        decreases count - done,
    {
        line.push(' ');
        done += 1;
        assert(line@ =~= old(line)@ + spaces(done as int));
    }
    assert(line@ =~= old(line)@ + spaces(count as int));
}

/// The visible text of row `y`.
fn row_line(cells: &Vec<Cell>, y: u16) -> (line: Vec<char>)
    ensures
        line@ == row_text(cell_views(cells@), y),
{
    let ghost views = cell_views(cells@);
    let mut line: Vec<char> = Vec::new();
    let mut column: u32 = 0;
    let mut index: usize = 0;
    assert(views.take(0) =~= Seq::<CellView>::empty());
    while index < cells.len()
        invariant
            index <= cells@.len(),
            views == cell_views(cells@),
            (line@, column as int) == row_layout(views.take(index as int), y),
        decreases cells@.len() - index,
    {
        let cell = &cells[index];
        assert(views.take(index + 1).drop_last() =~= views.take(index as int));
        assert(views.take(index + 1).last() == cell@);
        if cell.y == y {
            let ghost before = line@;
            let x: u32 = cell.x as u32;
            let gap: u32 = if x > column { x - column } else { 0 };
            push_spaces(&mut line, gap as usize);
            assert(spaces(gap as int) =~= spaces(cell.x - column));
            let shown = text::chars_of(cell.text.as_str());
            if shown.len() == 0 {
                push_spaces(&mut line, cell.width as usize);
            } else {
                line.extend_from_slice(shown.as_slice());
                assert(line@ =~= before + spaces(gap as int) + shown@);
            }
            column = x + cell.width as u32;
        }
        index += 1;
    }
    assert(views.take(index as int) =~= views);
    let ghost full = line@;
    while line.len() > 0 && line[line.len() - 1] == ' '
        invariant
            trim_spaces(line@) == trim_spaces(full),
        decreases line@.len(),
    {
        let ghost before = line@;
        let _ = line.pop();
        assert(line@ =~= before.drop_last());
    }
    line
}

impl Frame {
    /// The visible text of the frame.
    pub fn text(&self) -> (output: String)
        ensures
            output@ == self@.text(),
    {
        let ghost views = cell_views(self.cells@);
        let mut rows: u16 = self.rows;
        while rows > 0
            invariant
                views == cell_views(self.cells@),
                text_rows(views, rows as nat) == text_rows(views, self.rows as nat),
            ensures
                rows == text_rows(views, self.rows as nat),
            decreases rows,
        {
            let line = row_line(&self.cells, rows - 1);
            if line.len() > 0 {
                break;
            }
            rows -= 1;
        }
        let mut output = String::new();
        let mut row: u16 = 0;
        while row < rows
            invariant
                row <= rows,
                views == cell_views(self.cells@),
                output@ == joined_rows(views, row as nat),
            decreases rows - row,
        {
            if row > 0 {
                output.push('\n');
            }
            let line = row_line(&self.cells, row);
            let ghost before = output@;
            let part = text::text_of(line.as_slice());
            output.append(part.as_str());
            assert(row == 0 ==> before + line@ =~= line@);
            row += 1;
        }
        output
    }

    /// Whether anything can be seen on the frame.
    pub fn has_visible_content(&self) -> (result: bool)
        ensures
            result == self@.has_visible_content(),
    {
        let ghost views = cell_views(self.cells@);
        let mut index: usize = 0;
        while index < self.cells.len()
            invariant
                index <= self.cells@.len(),
                views == cell_views(self.cells@),
                forall|i: int|
                    0 <= i < index ==> !cell_visible(#[trigger] views[i], self.background),
            decreases self.cells@.len() - index,
        {
            let cell = &self.cells[index];
            assert(views[index as int] == cell@);
            if !(cell.background == self.background) || !is_blank(cell.text.as_str()) {
                assert(cell_visible(self@.cells[index as int], self@.background));
                return true;
            }
            index += 1;
        }
        false
    }
}

/// Trimming takes away trailing spaces and nothing else.
pub proof fn lemma_trimming_takes_trailing_spaces(line: Seq<char>)
    ensures
        trim_spaces(line).len() <= line.len(),
        trim_spaces(line) == line.take(trim_spaces(line).len() as int),
        trim_spaces(line).len() > 0 ==> trim_spaces(line).last() != ' ',
        forall|i: int| trim_spaces(line).len() <= i < line.len() ==> (#[trigger] line[i]) == ' ',
    decreases line.len(),
{
    if line.len() > 0 && line.last() == ' ' {
        let front = line.drop_last();
        lemma_trimming_takes_trailing_spaces(front);
        let count = trim_spaces(front).len() as int;
        assert(front.take(count) =~= line.take(count));
        assert forall|i: int| count <= i < line.len() implies (#[trigger] line[i]) == ' ' by {
            if i < front.len() {
                assert(front[i] == line[i]);
            }
        }
    } else {
        assert(line.take(line.len() as int) =~= line);
    }
}

/// Each cell of a row stands behind those before it, after as many spaces as there are free columns
/// between them. A cell without text counts as spaces over its width, and cells of other rows do not
/// count.
pub proof fn lemma_row_is_laid_out(cells: Seq<CellView>, cell: CellView, next: CellView, y: u16)
    ensures
        row_layout(Seq::<CellView>::empty(), y) == (Seq::<char>::empty(), 0int),
        cell.y != y ==> row_layout(cells.push(cell), y) == row_layout(cells, y),
        cell.y == y ==> row_layout(cells.push(cell), y).1 == cell.x + cell.width,
        cell.y == y && cell.text.len() > 0 && row_layout(cells, y).1 <= cell.x ==> row_layout(
            cells.push(cell),
            y,
        ).0 == row_layout(cells, y).0 + Seq::new(
            (cell.x - row_layout(cells, y).1) as nat,
            |i: int| ' ',
        ) + cell.text,
        cell.y == y && next.y == y && next.text.len() > 0 && cell.x + cell.width <= next.x
            ==> row_layout(cells.push(cell).push(next), y).0 == row_layout(cells.push(cell), y).0
            + Seq::new((next.x - cell.x - cell.width) as nat, |i: int| ' ') + next.text,
        cell.y == y && next.y == y && next.text.len() == 0 && cell.x + cell.width <= next.x
            ==> row_layout(cells.push(cell).push(next), y).0 == row_layout(cells.push(cell), y).0
            + Seq::new((next.x + next.width - cell.x - cell.width) as nat, |i: int| ' '),
{
    let first = cells.push(cell);
    let second = first.push(next);
    assert(first.drop_last() =~= cells);
    assert(second.drop_last() =~= first);
    if cell.y == y && cell.text.len() > 0 && row_layout(cells, y).1 <= cell.x {
        let column = row_layout(cells, y).1;
        assert(spaces(cell.x - column) =~= Seq::new((cell.x - column) as nat, |i: int| ' '));
    }
    if cell.y == y && next.y == y && cell.x + cell.width <= next.x {
        let gap = next.x - cell.x - cell.width;
        assert(spaces(gap) =~= Seq::new(gap as nat, |i: int| ' '));
        if next.text.len() == 0 {
            assert(spaces(gap) + spaces(next.width as int) =~= Seq::new(
                (gap + next.width) as nat,
                |i: int| ' ',
            ));
            assert(row_layout(second, y).0 =~= row_layout(first, y).0 + Seq::new(
                (gap + next.width) as nat,
                |i: int| ' ',
            ));
        }
    }
}

/// Whether the cells stand in reading order, each one column wide with at most one character.
pub open spec fn narrow(cells: Seq<CellView>) -> bool {
    &&& forall|i: int|
        0 <= i < cells.len() ==> (#[trigger] cells[i]).width == 1 && cells[i].text.len() <= 1
    &&& forall|i: int, j: int|
        0 <= i < j < cells.len() && (#[trigger] cells[i]).y == (#[trigger] cells[j]).y
            ==> cells[i].x < cells[j].x
}

proof fn lemma_narrow_layout(cells: Seq<CellView>, y: u16)
    requires
        narrow(cells),
    ensures
        ({
            let (line, column) = row_layout(cells, y);
            &&& line.len() == column
            &&& forall|i: int|
                0 <= i < cells.len() && (#[trigger] cells[i]).y == y ==> cells[i].x < column && line[
                cells[i].x as int] == if cells[i].text.len() == 0 {
                    ' '
                } else {
                    cells[i].text[0]
                }
            &&& forall|x: int|
                0 <= x < column && (#[trigger] line[x]) != ' ' ==> exists|i: int|
                    0 <= i < cells.len() && (#[trigger] cells[i]).y == y && cells[i].x == x
                        && cells[i].text.len() == 1
            &&& column > 0 ==> exists|i: int|
                0 <= i < cells.len() && (#[trigger] cells[i]).y == y && cells[i].x == column - 1
        }),
    decreases cells.len(),
{
    if cells.len() > 0 {
        let front = cells.drop_last();
        let last = cells.last();
        let end = cells.len() - 1;
        assert(narrow(front)) by {
            assert forall|i: int| 0 <= i < front.len() implies (#[trigger] front[i]).width == 1
                && front[i].text.len() <= 1 by {
                assert(cells[i] == front[i]);
            }
            assert forall|i: int, j: int|
                0 <= i < j < front.len() && (#[trigger] front[i]).y == (
                #[trigger] front[j]).y implies front[i].x < front[j].x by {
                assert(cells[i] == front[i] && cells[j] == front[j]);
            }
        }
        lemma_narrow_layout(front, y);
        let (before, column) = row_layout(front, y);
        let (line, _) = row_layout(cells, y);
        assert(cells[end] == last);
        assert forall|i: int| 0 <= i < front.len() implies cells[i] == front[i] by {
        }
        if last.y == y {
            if column > 0 {
                let i = choose|i: int|
                    0 <= i < front.len() && (#[trigger] front[i]).y == y && front[i].x == column
                        - 1;
                assert(cells[i] == front[i]);
                assert(column <= last.x);
            }
            assert(line.len() == last.x + 1);
            assert forall|x: int|
                0 <= x < line.len() && (#[trigger] line[x]) != ' ' implies exists|i: int|
                0 <= i < cells.len() && (#[trigger] cells[i]).y == y && cells[i].x == x
                    && cells[i].text.len() == 1 by {
                if x < column {
                    assert(before[x] == line[x]);
                    let i = choose|i: int|
                        0 <= i < front.len() && (#[trigger] front[i]).y == y && front[i].x == x
                            && front[i].text.len() == 1;
                    assert(cells[i] == front[i]);
                } else {
                    assert(x == last.x);
                    assert(cells[end].x == x);
                }
            }
        } else {
            assert forall|x: int|
                0 <= x < column && (#[trigger] line[x]) != ' ' implies exists|i: int|
                0 <= i < cells.len() && (#[trigger] cells[i]).y == y && cells[i].x == x
                    && cells[i].text.len() == 1 by {
                assert(before[x] == line[x]);
                let i = choose|i: int|
                    0 <= i < front.len() && (#[trigger] front[i]).y == y && front[i].x == x
                        && front[i].text.len() == 1;
                assert(cells[i] == front[i]);
            }
            if column > 0 {
                let i = choose|i: int|
                    0 <= i < front.len() && (#[trigger] front[i]).y == y && front[i].x == column
                        - 1;
                assert(cells[i] == front[i]);
            }
        }
    }
}

/// A line of text shows each character of its row in the column where its cell stands, and nothing
/// else but spaces between them. It does not end in a space.
pub proof fn lemma_text_shows_the_cells(cells: Seq<CellView>, y: u16)
    requires
        narrow(cells),
    ensures
        ({
            let line = row_text(cells, y);
            &&& forall|i: int|
                0 <= i < cells.len() && (#[trigger] cells[i]).y == y && cells[i].text.len() == 1
                    && cells[i].text[0] != ' ' ==> cells[i].x < line.len() && line[cells[i].x as int]
                    == cells[i].text[0]
            &&& forall|x: int|
                0 <= x < line.len() && (#[trigger] line[x]) != ' ' ==> exists|i: int|
                    0 <= i < cells.len() && (#[trigger] cells[i]).y == y && cells[i].x == x
                        && cells[i].text == seq![line[x]]
            &&& line.len() > 0 ==> line.last() != ' '
        }),
{
    let (full, column) = row_layout(cells, y);
    let line = row_text(cells, y);
    lemma_narrow_layout(cells, y);
    lemma_trimming_takes_trailing_spaces(full);
    assert forall|i: int|
        0 <= i < cells.len() && (#[trigger] cells[i]).y == y && cells[i].text.len() == 1
            && cells[i].text[0] != ' ' implies cells[i].x < line.len() && line[cells[i].x as int]
        == cells[i].text[0] by {
        assert(full[cells[i].x as int] == cells[i].text[0]);
    }
    assert forall|x: int| 0 <= x < line.len() && (#[trigger] line[x]) != ' ' implies exists|i: int|
        0 <= i < cells.len() && (#[trigger] cells[i]).y == y && cells[i].x == x && cells[i].text
            == seq![line[x]] by {
        assert(full[x] == line[x]);
        let i = choose|i: int|
            0 <= i < cells.len() && (#[trigger] cells[i]).y == y && cells[i].x == x
                && cells[i].text.len() == 1;
        assert(cells[i].text =~= seq![line[x]]);
    }
}

proof fn lemma_rows_are_joined(cells: Seq<CellView>, rows: nat)
    requires
        0 < rows <= u16::MAX,
        forall|y: int| 0 <= y < rows ==> !(#[trigger] row_text(cells, y as u16)).contains('\n'),
    ensures
        text::split(joined_rows(cells, rows), '\n') == Seq::new(
            rows,
            |y: int| row_text(cells, y as u16),
        ),
    decreases rows,
{
    let all = Seq::new(rows, |y: int| row_text(cells, y as u16));
    let last = row_text(cells, (rows - 1) as u16);
    assert(!row_text(cells, (rows - 1) as u16).contains('\n'));
    if rows == 1 {
        text::lemma_split_one(last, '\n');
        assert(seq![last] =~= all);
    } else {
        lemma_rows_are_joined(cells, (rows - 1) as nat);
        text::lemma_split_last(joined_rows(cells, (rows - 1) as nat), '\n', last);
        assert(Seq::new((rows - 1) as nat, |y: int| row_text(cells, y as u16)).push(last) =~= all);
    }
}

proof fn lemma_text_rows(cells: Seq<CellView>, rows: nat)
    requires
        rows <= u16::MAX,
    ensures
        text_rows(cells, rows) <= rows,
        text_rows(cells, rows) > 0 ==> row_text(
            cells,
            (text_rows(cells, rows) - 1) as u16,
        ).len() > 0,
        forall|y: int|
            text_rows(cells, rows) <= y < rows ==> (#[trigger] row_text(cells, y as u16)).len()
                == 0,
    decreases rows,
{
    if rows > 0 && row_text(cells, (rows - 1) as u16).len() == 0 {
        lemma_text_rows(cells, (rows - 1) as nat);
    }
}

/// The text of a frame has a line for each row, from the first to the last one that is not empty,
/// and is empty where every row is.
pub proof fn lemma_text_has_a_line_for_each_row(view: FrameView)
    requires
        forall|y: int|
            0 <= y < view.rows ==> !(#[trigger] row_text(view.cells, y as u16)).contains('\n'),
    ensures
        ({
            let lines = text::split(view.text(), '\n');
            &&& view.text().len() > 0 ==> {
                &&& lines.len() <= view.rows
                &&& forall|y: int|
                    0 <= y < lines.len() ==> (#[trigger] lines[y]) == row_text(
                        view.cells,
                        y as u16,
                    )
                &&& lines.last().len() > 0
                &&& forall|y: int|
                    lines.len() <= y < view.rows ==> (#[trigger] row_text(
                        view.cells,
                        y as u16,
                    )).len() == 0
            }
            &&& view.text().len() == 0 ==> forall|y: int|
                0 <= y < view.rows ==> (#[trigger] row_text(view.cells, y as u16)).len() == 0
        }),
{
    let count = text_rows(view.cells, view.rows as nat);
    lemma_text_rows(view.cells, view.rows as nat);
    if count > 0 {
        lemma_rows_are_joined(view.cells, count);
        let lines = text::split(view.text(), '\n');
        assert(lines.last() == row_text(view.cells, (count - 1) as u16));
        if count > 1 {
            assert(view.text().len() > 0);
        }
    }
}

/// The palette has sixteen base colors, a cube of six levels for each of red, green and blue, and a
/// ramp of grays.
pub proof fn lemma_palette(red: int, green: int, blue: int, gray: int)
    requires
        0 <= red < 6,
        0 <= green < 6,
        0 <= blue < 6,
        0 <= gray < 24,
    ensures
        ({
            let color = palette_color(16 + 36 * red + 6 * green + blue);
            &&& color.r == if red == 0 {
                0
            } else {
                55 + 40 * red
            }
            &&& color.g == if green == 0 {
                0
            } else {
                55 + 40 * green
            }
            &&& color.b == if blue == 0 {
                0
            } else {
                55 + 40 * blue
            }
        }),
        ({
            let color = palette_color(232 + gray);
            color.r == 8 + 10 * gray && color.g == color.r && color.b == color.r
        }),
{
    assert((36 * red + 6 * green + blue) / 36 == red);
    assert((36 * red + 6 * green + blue) / 6 == 6 * red + green);
    assert((6 * red + green) % 6 == green);
    assert((36 * red + 6 * green + blue) % 6 == blue);
}

/// The three bits of a dark base color's number tell which of red, green and blue it has. The bright
/// color eight numbers later is brighter, and has no less of any of them.
pub proof fn lemma_base_colors(index: int)
    requires
        0 <= index < 8,
    ensures
        ({
            let dark = palette_color(index);
            let bright = palette_color(index + 8);
            &&& index % 2 == 1 <==> dark.r > 0
            &&& (index / 2) % 2 == 1 <==> dark.g > 0
            &&& index / 4 == 1 <==> dark.b > 0
            &&& bright.r >= dark.r && bright.g >= dark.g && bright.b >= dark.b
            &&& bright.r as int + bright.g + bright.b > dark.r as int + dark.g + dark.b
        }),
{
}

/// What a style sheet reads of a color is that color: a number sign and two digits in base sixteen
/// each for red, green and blue.
pub proof fn lemma_css_names_the_color(color: Color)
    ensures
        ({
            let css = color.css_text();
            let value = |i: int|
                if css[i] <= '9' {
                    css[i] as int - '0' as int
                } else {
                    css[i] as int - 'a' as int + 10
                };
            &&& css.len() == 7
            &&& css[0] == '#'
            &&& color.r == 16 * value(1) + value(2)
            &&& color.g == 16 * value(3) + value(4)
            &&& color.b == 16 * value(5) + value(6)
            &&& forall|i: int|
                1 <= i < 7 ==> ('0' <= (#[trigger] css[i]) <= '9' || 'a' <= css[i] <= 'f')
        }),
{
}

/// Blanks, tabs and line ends are white space. No visible character of ASCII is.
pub proof fn lemma_white_space(ch: char)
    ensures
        ch == ' ' || ch == '\t' || ch == '\n' || ch == '\r' ==> white_space(ch),
        '!' <= ch <= '~' ==> !white_space(ch),
        ch < '\t' ==> !white_space(ch),
{
}

/// Something can be seen in a frame as soon as one of its cells is painted in another color than the
/// background or holds a character that is not white space, and otherwise nothing can.
pub proof fn lemma_content_is_seen(frame: FrameView, index: int, position: int)
    requires
        0 <= index < frame.cells.len(),
    ensures
        frame.cells[index].background != frame.background ==> frame.has_visible_content(),
        0 <= position < frame.cells[index].text.len() && !white_space(
            frame.cells[index].text[position],
        ) ==> frame.has_visible_content(),
        !frame.has_visible_content() ==> frame.cells[index].background == frame.background,
        frame.has_visible_content() ==> exists|i: int|
            0 <= i < frame.cells.len() && ((#[trigger] frame.cells[i]).background
                != frame.background || exists|j: int|
                0 <= j < frame.cells[i].text.len() && !white_space(
                    #[trigger] frame.cells[i].text[j],
                )),
{
    if frame.cells[index].background != frame.background || !blank(frame.cells[index].text) {
        assert(cell_visible(frame.cells[index], frame.background));
    }
    if frame.has_visible_content() {
        let i = choose|i: int|
            0 <= i < frame.cells.len() && cell_visible(#[trigger] frame.cells[i], frame.background);
        let cell = frame.cells[i];
        if cell.background == frame.background {
            let j = choose|j: int| 0 <= j < cell.text.len() && !white_space(#[trigger] cell.text[j]);
            assert(!white_space(frame.cells[i].text[j]));
        }
    }
}

} // verus!
