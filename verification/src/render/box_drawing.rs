//! Box drawing characters as rectangles. Lengths are in two-hundredths of a pixel, so that every
//! edge is exact.
use vstd::prelude::*;

verus! {

/// How many units a pixel has.
pub const UNITS: u32 = 200;

/// A rectangle inside a cell.
#[derive(Clone, Copy, Debug, PartialEq, Eq, Structural)]
pub struct Rect {
    pub left: u32,
    pub top: u32,
    pub width: u32,
    pub height: u32,
}

/// A line of a box drawing character: across the cell, or from its middle to one edge.
#[derive(Clone, Copy, Debug, PartialEq, Eq, Structural)]
pub enum Line {
    Horizontal,
    Vertical,
    Up,
    Down,
    Left,
    Right,
}

/// The shorter side of a cell.
pub open spec fn shorter(width: u16, height: u16) -> int {
    if width < height {
        width as int
    } else {
        height as int
    }
}

/// How thick a line is: eight hundredths of the cell's shorter side, or twelve for a heavy one.
pub open spec fn weight(heavy: bool, width: u16, height: u16) -> int {
    if heavy {
        24 * shorter(width, height)
    } else {
        16 * shorter(width, height)
    }
}

/// The rectangle of a line of this thickness in a cell of this size. Lines are centered, and a
/// line from the middle covers the whole crossing.
pub open spec fn line_rect(line: Line, thick: int, width: int, height: int) -> Rect {
    let middle_left = ((width - thick) / 2) as u32;
    let middle_top = ((height - thick) / 2) as u32;
    let half_width = ((width + thick) / 2) as u32;
    let half_height = ((height + thick) / 2) as u32;
    match line {
        Line::Horizontal => Rect {
            left: 0,
            top: middle_top,
            width: width as u32,
            height: thick as u32,
        },
        Line::Vertical => Rect {
            left: middle_left,
            top: 0,
            width: thick as u32,
            height: height as u32,
        },
        Line::Up => Rect { left: middle_left, top: 0, width: thick as u32, height: half_height },
        Line::Down => Rect {
            left: middle_left,
            top: middle_top,
            width: thick as u32,
            height: half_height,
        },
        Line::Left => Rect { left: 0, top: middle_top, width: half_width, height: thick as u32 },
        Line::Right => Rect {
            left: middle_left,
            top: middle_top,
            width: half_width,
            height: thick as u32,
        },
    }
}

/// The lines of a box drawing character, and whether they are heavy.
pub open spec fn lines(glyph: char) -> Option<(Seq<Line>, bool)> {
    if glyph == '─' {
        Some((seq![Line::Horizontal], false))
    } else if glyph == '━' {
        Some((seq![Line::Horizontal], true))
    } else if glyph == '│' {
        Some((seq![Line::Vertical], false))
    } else if glyph == '┃' {
        Some((seq![Line::Vertical], true))
    } else if glyph == '╹' {
        Some((seq![Line::Up], true))
    } else if glyph == '┌' {
        Some((seq![Line::Right, Line::Down], false))
    } else if glyph == '┐' {
        Some((seq![Line::Left, Line::Down], false))
    } else if glyph == '└' {
        Some((seq![Line::Right, Line::Up], false))
    } else if glyph == '┘' {
        Some((seq![Line::Left, Line::Up], false))
    } else if glyph == '├' {
        Some((seq![Line::Vertical, Line::Right], false))
    } else if glyph == '┤' {
        Some((seq![Line::Vertical, Line::Left], false))
    } else if glyph == '┬' {
        Some((seq![Line::Horizontal, Line::Down], false))
    } else if glyph == '┴' {
        Some((seq![Line::Horizontal, Line::Up], false))
    } else if glyph == '┼' {
        Some((seq![Line::Horizontal, Line::Vertical], false))
    } else {
        None
    }
}

/// The rectangles of a box drawing character in a cell of so many pixels.
pub open spec fn glyph_rects(glyph: char, width: u16, height: u16) -> Option<Seq<Rect>> {
    match lines(glyph) {
        Some((drawn, heavy)) => Some(
            drawn.map_values(
                |line: Line|
                    line_rect(line, weight(heavy, width, height), width * 200, height * 200),
            ),
        ),
        None => None,
    }
}

fn rect(line: Line, heavy: bool, cell_width: u16, cell_height: u16) -> (rect: Rect)
    ensures
        rect == line_rect(
            line,
            weight(heavy, cell_width, cell_height),
            cell_width * 200,
            cell_height * 200,
        ),
{
    let side: u32 = if cell_width < cell_height {
        cell_width as u32
    } else {
        cell_height as u32
    };
    let thick: u32 = if heavy {
        24 * side
    } else {
        16 * side
    };
    let width: u32 = cell_width as u32 * UNITS;
    let height: u32 = cell_height as u32 * UNITS;
    let middle_left: u32 = (width - thick) / 2;
    let middle_top: u32 = (height - thick) / 2;
    let half_width: u32 = (width + thick) / 2;
    let half_height: u32 = (height + thick) / 2;
    match line {
        Line::Horizontal => Rect { left: 0, top: middle_top, width, height: thick },
        Line::Vertical => Rect { left: middle_left, top: 0, width: thick, height },
        Line::Up => Rect { left: middle_left, top: 0, width: thick, height: half_height },
        Line::Down => Rect {
            left: middle_left,
            top: middle_top,
            width: thick,
            height: half_height,
        },
        Line::Left => Rect { left: 0, top: middle_top, width: half_width, height: thick },
        Line::Right => Rect {
            left: middle_left,
            top: middle_top,
            width: half_width,
            height: thick,
        },
    }
}

/// The rectangles of a box drawing character in a cell of so many pixels, or nothing for any other
/// character.
pub fn rects(glyph: char, cell_width: u16, cell_height: u16) -> (result: Option<Vec<Rect>>)
    ensures
        result is Some <==> glyph_rects(glyph, cell_width, cell_height) is Some,
        result matches Some(rects) ==> glyph_rects(glyph, cell_width, cell_height) == Some(rects@),
{
    let (first, second, heavy): (Line, Option<Line>, bool) = if glyph == '─' {
        (Line::Horizontal, None, false)
    } else if glyph == '━' {
        (Line::Horizontal, None, true)
    } else if glyph == '│' {
        (Line::Vertical, None, false)
    } else if glyph == '┃' {
        (Line::Vertical, None, true)
    } else if glyph == '╹' {
        (Line::Up, None, true)
    } else if glyph == '┌' {
        (Line::Right, Some(Line::Down), false)
    } else if glyph == '┐' {
        (Line::Left, Some(Line::Down), false)
    } else if glyph == '└' {
        (Line::Right, Some(Line::Up), false)
    } else if glyph == '┘' {
        (Line::Left, Some(Line::Up), false)
    } else if glyph == '├' {
        (Line::Vertical, Some(Line::Right), false)
    } else if glyph == '┤' {
        (Line::Vertical, Some(Line::Left), false)
    } else if glyph == '┬' {
        (Line::Horizontal, Some(Line::Down), false)
    } else if glyph == '┴' {
        (Line::Horizontal, Some(Line::Up), false)
    } else if glyph == '┼' {
        (Line::Horizontal, Some(Line::Vertical), false)
    } else {
        return None;
    };
    let mut rects: Vec<Rect> = Vec::new();
    rects.push(rect(first, heavy, cell_width, cell_height));
    if let Some(second) = second {
        rects.push(rect(second, heavy, cell_width, cell_height));
    }
    assert(rects@ =~= glyph_rects(glyph, cell_width, cell_height)->0);
    Some(rects)
}

/// A line is as thick across as it is upright, whatever the cell's sides.
pub proof fn lemma_weight_is_the_same_on_both_axes(heavy: bool, width: u16, height: u16)
    ensures
        ({
            let thick = weight(heavy, width, height);
            line_rect(Line::Horizontal, thick, width * 200, height * 200).height == line_rect(
                Line::Vertical,
                thick,
                width * 200,
                height * 200,
            ).width
        }),
{
}

/// A line through a cell reaches both of its edges, so that lines in neighboring cells join.
pub proof fn lemma_lines_reach_the_edges(heavy: bool, width: u16, height: u16)
    ensures
        ({
            let thick = weight(heavy, width, height);
            let across = line_rect(Line::Horizontal, thick, width * 200, height * 200);
            let upright = line_rect(Line::Vertical, thick, width * 200, height * 200);
            &&& across.left == 0
            &&& across.width == width * 200
            &&& upright.top == 0
            &&& upright.height == height * 200
        }),
{
}

/// Every line stays inside its cell, and a line from the middle reaches its edge.
pub proof fn lemma_lines_fit(line: Line, heavy: bool, width: u16, height: u16)
    ensures
        ({
            let drawn = line_rect(line, weight(heavy, width, height), width * 200, height * 200);
            &&& drawn.left + drawn.width <= width * 200
            &&& drawn.top + drawn.height <= height * 200
            &&& line == Line::Up ==> drawn.top == 0
            &&& line == Line::Left ==> drawn.left == 0
            &&& line == Line::Down ==> drawn.top + drawn.height == height * 200
            &&& line == Line::Right ==> drawn.left + drawn.width == width * 200
        }),
{
}

/// A box drawing character reaches exactly the sides of its cell that its lines lead to, and its
/// lines stand in the middle of the cell, all of the same thickness.
pub proof fn lemma_glyph_reaches_its_sides(glyph: char, width: u16, height: u16, index: int)
    requires
        width > 0,
        height > 0,
    ensures
        ({
            let up = glyph == '│' || glyph == '┃' || glyph == '╹' || glyph == '└' || glyph == '┘'
                || glyph == '├' || glyph == '┤' || glyph == '┴' || glyph == '┼';
            let down = glyph == '│' || glyph == '┃' || glyph == '┌' || glyph == '┐' || glyph == '├'
                || glyph == '┤' || glyph == '┬' || glyph == '┼';
            let left = glyph == '─' || glyph == '━' || glyph == '┐' || glyph == '┘' || glyph == '┤'
                || glyph == '┬' || glyph == '┴' || glyph == '┼';
            let right = glyph == '─' || glyph == '━' || glyph == '┌' || glyph == '└' || glyph == '├'
                || glyph == '┬' || glyph == '┴' || glyph == '┼';
            let heavy = glyph == '━' || glyph == '┃' || glyph == '╹';
            let side = if width < height {
                width as int
            } else {
                height as int
            };
            let thick = if heavy {
                24 * side
            } else {
                16 * side
            };
            &&& glyph_rects(glyph, width, height) is Some <==> up || down || left || right
            &&& glyph_rects(glyph, width, height) matches Some(rects) ==> {
                &&& (exists|i: int| 0 <= i < rects.len() && (#[trigger] rects[i]).top == 0) == up
                &&& (exists|i: int| 0 <= i < rects.len() && (#[trigger] rects[i]).left == 0) == left
                &&& (exists|i: int|
                    0 <= i < rects.len() && (#[trigger] rects[i]).top + rects[i].height == height
                        * 200) == down
                &&& (exists|i: int|
                    0 <= i < rects.len() && (#[trigger] rects[i]).left + rects[i].width == width
                        * 200) == right
                &&& 0 <= index < rects.len() ==> (rects[index].width == thick && 2
                    * rects[index].left + thick == width * 200) || (rects[index].height == thick
                    && 2 * rects[index].top + thick == height * 200)
            }
        }),
{
    if let Some(rects) = glyph_rects(glyph, width, height) {
        let (drawn, heavy) = lines(glyph)->0;
        let thick = weight(heavy, width, height);
        assert(rects.len() == drawn.len());
        assert(drawn.len() == 1 || drawn.len() == 2);
        assert(rects[0] == line_rect(drawn[0], thick, width * 200, height * 200));
        if drawn.len() == 2 {
            assert(rects[1] == line_rect(drawn[1], thick, width * 200, height * 200));
        }
    }
}

} // verus!
