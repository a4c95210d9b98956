//! What is drawn of a frame: which cells are filled, which characters are drawn as geometry, and
//! how text is styled and escaped. Lengths are in parts of a cell.
use crate::frame::{self, Cell, Color, Frame};
use crate::text;
use vstd::prelude::*;

pub mod box_drawing;

verus! {

broadcast use vstd::string::group_string_axioms;

/// What stands for a character in markup.
pub open spec fn escaped_char(ch: char) -> Seq<char> {
    if ch == '&' {
        "&amp;"@
    } else if ch == '<' {
        "&lt;"@
    } else if ch == '>' {
        "&gt;"@
    } else if ch == '"' {
        "&quot;"@
    } else if ch == '\'' {
        "&apos;"@
    } else {
        seq![ch]
    }
}

/// What stands for a text in markup.
pub open spec fn escaped(value: Seq<char>) -> Seq<char>
    decreases value.len(),
{
    if value.len() == 0 {
        Seq::empty()
    } else {
        escaped(value.drop_last()) + escaped_char(value.last())
    }
}

/// Writes a text so that markup shows it as it is.
pub fn xml(value: &str) -> (output: String)
    ensures
        output@ == escaped(value@),
{
    let chars = text::chars_of(value);
    let mut output = String::new();
    let mut index: usize = 0;
    assert(output@ =~= escaped(value@.take(0)));
    while index < chars.len()
        invariant
            index <= chars@.len(),
            chars@ == value@,
            output@ == escaped(value@.take(index as int)),
        decreases chars@.len() - index,
    {
        let ch = chars[index];
        let ghost held = output@;
        assert(value@.take(index + 1).drop_last() =~= value@.take(index as int));
        if ch == '&' {
            output.append("&amp;");
        } else if ch == '<' {
            output.append("&lt;");
        } else if ch == '>' {
            output.append("&gt;");
        } else if ch == '"' {
            output.append("&quot;");
        } else if ch == '\'' {
            output.append("&apos;");
        } else {
            output.push(ch);
            assert(output@ =~= held + seq![ch]);
        }
        index += 1;
    }
    assert(value@.take(index as int) =~= value@);
    output
}

/// Whether a character could end a text or an attribute in markup.
pub open spec fn breaks_markup(ch: char) -> bool {
    ch == '<' || ch == '>' || ch == '"' || ch == '\''
}

proof fn lemma_escaped_char(ch: char, index: int)
    requires
        0 <= index < escaped_char(ch).len(),
    ensures
        !breaks_markup(escaped_char(ch)[index]),
        escaped_char(ch)[index] == '&' ==> index == 0,
{
    reveal_strlit("&amp;");
    reveal_strlit("&lt;");
    reveal_strlit("&gt;");
    reveal_strlit("&quot;");
    reveal_strlit("&apos;");
}

/// Whatever is shown, it cannot end the element or the attribute that it stands in.
pub proof fn lemma_escaped_is_safe(value: Seq<char>, index: int)
    requires
        0 <= index < escaped(value).len(),
    ensures
        !breaks_markup(escaped(value)[index]),
    decreases value.len(),
{
    if value.len() > 0 {
        let before = escaped(value.drop_last());
        if index < before.len() {
            lemma_escaped_is_safe(value.drop_last(), index);
        } else {
            lemma_escaped_char(value.last(), index - before.len());
        }
    }
}

/// Different characters are escaped differently.
proof fn lemma_escaped_char_differs(left: char, right: char)
    requires
        escaped_char(left) == escaped_char(right),
    ensures
        left == right,
{
    reveal_strlit("&amp;");
    reveal_strlit("&lt;");
    reveal_strlit("&gt;");
    reveal_strlit("&quot;");
    reveal_strlit("&apos;");
    assert("&amp;"@[1] == 'a' && "&amp;"@[2] == 'm');
    assert("&lt;"@[1] == 'l');
    assert("&gt;"@[1] == 'g');
    assert("&quot;"@[1] == 'q');
    assert("&apos;"@[1] == 'a' && "&apos;"@[2] == 'p');
    let left_text = escaped_char(left);
    let right_text = escaped_char(right);
    assert(left_text.len() == right_text.len());
    if left_text.len() == 1 {
        assert(left_text[0] == left);
        assert(right_text[0] == right);
    } else {
        assert(left_text[1] == right_text[1]);
        assert(left_text[2] == right_text[2]);
    }
}

/// A character that is escaped becomes what no other character is.
pub proof fn lemma_escape_keeps_characters(left: char, right: char)
    ensures
        escaped_char(left) == escaped_char(right) <==> left == right,
{
    if escaped_char(left) == escaped_char(right) {
        lemma_escaped_char_differs(left, right);
    }
}

/// A rectangle inside a cell, in eighths of the cell.
#[derive(Clone, Copy, Debug, PartialEq, Eq, Structural)]
pub struct Patch {
    pub left: u8,
    pub top: u8,
    pub width: u8,
    pub height: u8,
}

impl Patch {
    /// Whether the rectangle stays inside its cell and is not empty.
    pub open spec fn fits(self) -> bool {
        &&& self.width > 0
        &&& self.height > 0
        &&& self.left + self.width <= 8
        &&& self.top + self.height <= 8
    }
}

/// A character that is drawn as geometry.
#[derive(Debug)]
pub enum Graphic {
    /// Filled rectangles.
    Patches(Vec<Patch>),
    /// The whole cell, with so many hundredths of its color.
    Shade(u8),
}

/// Model of [`Graphic`].
pub enum GraphicView {
    Patches(Seq<Patch>),
    Shade(u8),
}

impl View for Graphic {
    type V = GraphicView;

    open spec fn view(&self) -> GraphicView {
        match *self {
            Graphic::Patches(patches) => GraphicView::Patches(patches@),
            Graphic::Shade(percent) => GraphicView::Shade(percent),
        }
    }
}

/// A rectangle in eighths of its cell.
#[verifier::allow_in_spec]
pub fn patch(left: u8, top: u8, width: u8, height: u8) -> Patch
    returns
        (Patch { left, top, width, height }),
{
    Patch { left, top, width, height }
}

/// The geometry of a block character: full, half, eighth and quarter blocks, and shades.
pub open spec fn block(ch: char) -> Option<GraphicView> {
    if ch == '█' {
        Some(GraphicView::Patches(seq![patch(0, 0, 8, 8)]))
    } else if ch == '▀' {
        Some(GraphicView::Patches(seq![patch(0, 0, 8, 4)]))
    } else if ch == '▄' {
        Some(GraphicView::Patches(seq![patch(0, 4, 8, 4)]))
    } else if ch == '▌' {
        Some(GraphicView::Patches(seq![patch(0, 0, 4, 8)]))
    } else if ch == '▐' {
        Some(GraphicView::Patches(seq![patch(4, 0, 4, 8)]))
    } else if ch == '▁' {
        Some(GraphicView::Patches(seq![patch(0, 7, 8, 1)]))
    } else if ch == '▂' {
        Some(GraphicView::Patches(seq![patch(0, 6, 8, 2)]))
    } else if ch == '▃' {
        Some(GraphicView::Patches(seq![patch(0, 5, 8, 3)]))
    } else if ch == '▅' {
        Some(GraphicView::Patches(seq![patch(0, 3, 8, 5)]))
    } else if ch == '▆' {
        Some(GraphicView::Patches(seq![patch(0, 2, 8, 6)]))
    } else if ch == '▇' {
        Some(GraphicView::Patches(seq![patch(0, 1, 8, 7)]))
    } else if ch == '▏' {
        Some(GraphicView::Patches(seq![patch(0, 0, 1, 8)]))
    } else if ch == '▎' {
        Some(GraphicView::Patches(seq![patch(0, 0, 2, 8)]))
    } else if ch == '▍' {
        Some(GraphicView::Patches(seq![patch(0, 0, 3, 8)]))
    } else if ch == '▋' {
        Some(GraphicView::Patches(seq![patch(0, 0, 5, 8)]))
    } else if ch == '▊' {
        Some(GraphicView::Patches(seq![patch(0, 0, 6, 8)]))
    } else if ch == '▉' {
        Some(GraphicView::Patches(seq![patch(0, 0, 7, 8)]))
    } else if ch == '▔' {
        Some(GraphicView::Patches(seq![patch(0, 0, 8, 1)]))
    } else if ch == '▖' {
        Some(GraphicView::Patches(seq![patch(0, 4, 4, 4)]))
    } else if ch == '▗' {
        Some(GraphicView::Patches(seq![patch(4, 4, 4, 4)]))
    } else if ch == '▘' {
        Some(GraphicView::Patches(seq![patch(0, 0, 4, 4)]))
    } else if ch == '▝' {
        Some(GraphicView::Patches(seq![patch(4, 0, 4, 4)]))
    } else if ch == '▚' {
        Some(GraphicView::Patches(seq![patch(0, 0, 4, 4), patch(4, 4, 4, 4)]))
    } else if ch == '▞' {
        Some(GraphicView::Patches(seq![patch(4, 0, 4, 4), patch(0, 4, 4, 4)]))
    } else if ch == '▙' {
        Some(GraphicView::Patches(seq![patch(0, 0, 4, 8), patch(4, 4, 4, 4)]))
    } else if ch == '▛' {
        Some(GraphicView::Patches(seq![patch(0, 0, 4, 8), patch(4, 0, 4, 4)]))
    } else if ch == '▜' {
        Some(GraphicView::Patches(seq![patch(4, 0, 4, 8), patch(0, 0, 4, 4)]))
    } else if ch == '▟' {
        Some(GraphicView::Patches(seq![patch(4, 0, 4, 8), patch(0, 4, 4, 4)]))
    } else if ch == '░' {
        Some(GraphicView::Shade(25))
    } else if ch == '▒' {
        Some(GraphicView::Shade(50))
    } else if ch == '▓' {
        Some(GraphicView::Shade(75))
    } else {
        None
    }
}

fn one(left: u8, top: u8, width: u8, height: u8) -> (graphic: Graphic)
    ensures
        graphic@ == GraphicView::Patches(seq![patch(left, top, width, height)]),
{
    let mut patches: Vec<Patch> = Vec::new();
    patches.push(patch(left, top, width, height));
    assert(patches@ =~= seq![patch(left, top, width, height)]);
    Graphic::Patches(patches)
}

fn two(first: Patch, second: Patch) -> (graphic: Graphic)
    ensures
        graphic@ == GraphicView::Patches(seq![first, second]),
{
    let mut patches: Vec<Patch> = Vec::new();
    patches.push(first);
    patches.push(second);
    assert(patches@ =~= seq![first, second]);
    Graphic::Patches(patches)
}

/// The geometry of a block character.
pub fn block_graphic(ch: char) -> (graphic: Option<Graphic>)
    ensures
        graphic is Some <==> block(ch) is Some,
        graphic matches Some(graphic) ==> block(ch) == Some(graphic@),
{
    Some(
        if ch == '█' {
            one(0, 0, 8, 8)
        } else if ch == '▀' {
            one(0, 0, 8, 4)
        } else if ch == '▄' {
            one(0, 4, 8, 4)
        } else if ch == '▌' {
            one(0, 0, 4, 8)
        } else if ch == '▐' {
            one(4, 0, 4, 8)
        } else if ch == '▁' {
            one(0, 7, 8, 1)
        } else if ch == '▂' {
            one(0, 6, 8, 2)
        } else if ch == '▃' {
            one(0, 5, 8, 3)
        } else if ch == '▅' {
            one(0, 3, 8, 5)
        } else if ch == '▆' {
            one(0, 2, 8, 6)
        } else if ch == '▇' {
            one(0, 1, 8, 7)
        } else if ch == '▏' {
            one(0, 0, 1, 8)
        } else if ch == '▎' {
            one(0, 0, 2, 8)
        } else if ch == '▍' {
            one(0, 0, 3, 8)
        } else if ch == '▋' {
            one(0, 0, 5, 8)
        } else if ch == '▊' {
            one(0, 0, 6, 8)
        } else if ch == '▉' {
            one(0, 0, 7, 8)
        } else if ch == '▔' {
            one(0, 0, 8, 1)
        } else if ch == '▖' {
            one(0, 4, 4, 4)
        } else if ch == '▗' {
            one(4, 4, 4, 4)
        } else if ch == '▘' {
            one(0, 0, 4, 4)
        } else if ch == '▝' {
            one(4, 0, 4, 4)
        } else if ch == '▚' {
            two(patch(0, 0, 4, 4), patch(4, 4, 4, 4))
        } else if ch == '▞' {
            two(patch(4, 0, 4, 4), patch(0, 4, 4, 4))
        } else if ch == '▙' {
            two(patch(0, 0, 4, 8), patch(4, 4, 4, 4))
        } else if ch == '▛' {
            two(patch(0, 0, 4, 8), patch(4, 0, 4, 4))
        } else if ch == '▜' {
            two(patch(4, 0, 4, 8), patch(0, 0, 4, 4))
        } else if ch == '▟' {
            two(patch(4, 0, 4, 8), patch(0, 4, 4, 4))
        } else if ch == '░' {
            Graphic::Shade(25)
        } else if ch == '▒' {
            Graphic::Shade(50)
        } else if ch == '▓' {
            Graphic::Shade(75)
        } else {
            return None;
        },
    )
}

/// Block characters stay inside their cell.
pub proof fn lemma_blocks_fit(ch: char, index: int)
    requires
        block(ch) matches Some(GraphicView::Patches(patches)) && 0 <= index < patches.len(),
    ensures
        block(ch)->0->Patches_0[index].fits(),
{
}

/// Two rectangles of one character never cover the same spot.
pub proof fn lemma_blocks_do_not_overlap(ch: char)
    requires
        block(ch) matches Some(GraphicView::Patches(patches)) && patches.len() == 2,
    ensures
        ({
            let first = block(ch)->0->Patches_0[0];
            let second = block(ch)->0->Patches_0[1];
            ||| first.left + first.width <= second.left
            ||| second.left + second.width <= first.left
            ||| first.top + first.height <= second.top
            ||| second.top + second.height <= first.top
        }),
{
}

/// The geometry of a cell that holds one block character and nothing else.
pub open spec fn cell_graphic(content: Seq<char>) -> Option<GraphicView> {
    if content.len() == 1 {
        block(content[0])
    } else {
        None
    }
}

/// The geometry of a cell, where its text is drawn as geometry.
pub fn graphic(cell: &Cell) -> (graphic: Option<Graphic>)
    ensures
        graphic is Some <==> cell_graphic(cell.text@) is Some,
        graphic matches Some(graphic) ==> cell_graphic(cell.text@) == Some(graphic@),
{
    let chars = text::chars_of(cell.text.as_str());
    if chars.len() != 1 {
        return None;
    }
    block_graphic(chars[0])
}

/// The words for the lines that a text is drawn with.
pub open spec fn decorations(attributes: frame::Attributes) -> Seq<char> {
    let underline = if attributes.underline is Some {
        "underline"@
    } else {
        ""@
    };
    let strike = if attributes.strikethrough {
        (if attributes.underline is Some {
            " "@
        } else {
            ""@
        }) + "line-through"@
    } else {
        ""@
    };
    let over = if attributes.overline {
        (if attributes.underline is Some || attributes.strikethrough {
            " "@
        } else {
            ""@
        }) + "overline"@
    } else {
        ""@
    };
    underline + strike + over
}

/// Whether a text is drawn with any line.
pub open spec fn decorated(attributes: frame::Attributes) -> bool {
    attributes.underline is Some || attributes.strikethrough || attributes.overline
}

/// The markup attributes that style a text.
pub open spec fn style(attributes: frame::Attributes) -> Seq<char> {
    (if attributes.bold {
        " font-weight=\"700\""@
    } else {
        ""@
    }) + (if attributes.italic {
        " font-style=\"italic\""@
    } else {
        ""@
    }) + (if attributes.faint {
        " opacity=\"0.55\""@
    } else {
        ""@
    }) + (if decorated(attributes) {
        " text-decoration=\""@ + decorations(attributes) + "\""@
    } else {
        ""@
    })
}

fn decoration_words(attributes: &frame::Attributes) -> (words: String)
    ensures
        words@ == decorations(*attributes),
{
    let underlined = attributes.underline.is_some();
    let mut words = if underlined {
        "underline".to_owned()
    } else {
        "".to_owned()
    };
    if attributes.strikethrough {
        let mut strike = if underlined {
            " ".to_owned()
        } else {
            "".to_owned()
        };
        strike.append("line-through");
        words.append(strike.as_str());
    } else {
        words.append("");
    }
    if attributes.overline {
        let mut over = if underlined || attributes.strikethrough {
            " ".to_owned()
        } else {
            "".to_owned()
        };
        over.append("overline");
        words.append(over.as_str());
    } else {
        words.append("");
    }
    words
}

/// Writes the markup attributes that style a text.
pub fn style_attributes(attributes: &frame::Attributes) -> (output: String)
    ensures
        output@ == style(*attributes),
{
    let mut output = if attributes.bold {
        " font-weight=\"700\"".to_owned()
    } else {
        "".to_owned()
    };
    if attributes.italic {
        output.append(" font-style=\"italic\"");
    } else {
        output.append("");
    }
    if attributes.faint {
        output.append(" opacity=\"0.55\"");
    } else {
        output.append("");
    }
    if attributes.underline.is_some() || attributes.strikethrough || attributes.overline {
        let mut lines = " text-decoration=\"".to_owned();
        lines.append(decoration_words(attributes).as_str());
        lines.append("\"");
        output.append(lines.as_str());
    } else {
        output.append("");
    }
    output
}

/// Something that is drawn. Positions and widths are in cells.
#[derive(Debug)]
pub enum Shape {
    /// The background of a cell.
    Fill { x: u16, y: u16, width: u8, color: Color },
    /// A character as geometry.
    Block { x: u16, y: u16, width: u8, color: Color, graphic: Graphic },
    /// A text. `style` and `content` are markup.
    Text { x: u16, y: u16, color: Color, style: String, content: String },
    /// The cursor.
    Cursor { x: u16, y: u16, color: Color },
}

/// Model of [`Shape`].
pub enum ShapeView {
    Fill { x: u16, y: u16, width: u8, color: Color },
    Block { x: u16, y: u16, width: u8, color: Color, graphic: GraphicView },
    Text { x: u16, y: u16, color: Color, style: Seq<char>, content: Seq<char> },
    Cursor { x: u16, y: u16, color: Color },
}

impl View for Shape {
    type V = ShapeView;

    open spec fn view(&self) -> ShapeView {
        match *self {
            Shape::Fill { x, y, width, color } => ShapeView::Fill { x, y, width, color },
            Shape::Block { x, y, width, color, graphic } => ShapeView::Block {
                x,
                y,
                width,
                color,
                graphic: graphic@,
            },
            Shape::Text { x, y, color, style, content } => ShapeView::Text {
                x,
                y,
                color,
                style: style@,
                content: content@,
            },
            Shape::Cursor { x, y, color } => ShapeView::Cursor { x, y, color },
        }
    }
}

/// What each of these shapes holds.
pub open spec fn shape_views(shapes: Seq<Shape>) -> Seq<ShapeView> {
    shapes.map_values(|shape: Shape| shape@)
}

/// The backgrounds that differ from the frame's.
pub open spec fn fills(cells: Seq<frame::CellView>, background: Color) -> Seq<ShapeView>
    decreases cells.len(),
{
    if cells.len() == 0 {
        Seq::empty()
    } else {
        let before = fills(cells.drop_last(), background);
        let cell = cells.last();
        if cell.background != background {
            before.push(
                ShapeView::Fill { x: cell.x, y: cell.y, width: cell.width, color: cell.background },
            )
        } else {
            before
        }
    }
}

/// What is drawn for the content of a cell.
pub open spec fn content(cell: frame::CellView) -> ShapeView {
    match cell_graphic(cell.text) {
        Some(graphic) => ShapeView::Block {
            x: cell.x,
            y: cell.y,
            width: cell.width,
            color: cell.foreground,
            graphic,
        },
        None => ShapeView::Text {
            x: cell.x,
            y: cell.y,
            color: cell.foreground,
            style: style(cell.attributes),
            content: escaped(cell.text),
        },
    }
}

/// What is drawn for the contents of cells: those with text, unless they are invisible.
pub open spec fn contents(cells: Seq<frame::CellView>) -> Seq<ShapeView>
    decreases cells.len(),
{
    if cells.len() == 0 {
        Seq::empty()
    } else {
        let before = contents(cells.drop_last());
        let cell = cells.last();
        if cell.text.len() > 0 && !cell.attributes.invisible {
            before.push(content(cell))
        } else {
            before
        }
    }
}

/// What is drawn of a frame, in order: the backgrounds, then the contents, then the cursor if it
/// is to be shown.
pub open spec fn shapes(frame: frame::FrameView, show_cursor: bool) -> Seq<ShapeView> {
    fills(frame.cells, frame.background) + contents(frame.cells) + match frame.cursor {
        Some(cursor) => if show_cursor {
            seq![ShapeView::Cursor { x: cursor.x, y: cursor.y, color: cursor.color }]
        } else {
            Seq::empty()
        },
        None => Seq::empty(),
    }
}

fn push_shape(output: &mut Vec<Shape>, shape: Shape)
    ensures
        shape_views(final(output)@) == shape_views(old(output)@).push(shape@),
{
    output.push(shape);
    assert(shape_views(output@) =~= shape_views(old(output)@).push(shape@));
}

fn push_fills(output: &mut Vec<Shape>, cells: &Vec<Cell>, background: Color)
    ensures
        shape_views(final(output)@) == shape_views(old(output)@) + fills(
            frame::cell_views(cells@),
            background,
        ),
{
    let ghost views = frame::cell_views(cells@);
    let ghost before = shape_views(output@);
    let mut index: usize = 0;
    assert(before + fills(views.take(0), background) =~= before);
    while index < cells.len()
        invariant
            index <= cells@.len(),
            views == frame::cell_views(cells@),
            shape_views(output@) == before + fills(views.take(index as int), background),
        decreases cells@.len() - index,
    {
        let cell = &cells[index];
        let ghost held = fills(views.take(index as int), background);
        assert(views.take(index + 1).drop_last() =~= views.take(index as int));
        assert(views.take(index + 1).last() == cell@);
        if !(cell.background == background) {
            push_shape(
                output,
                Shape::Fill { x: cell.x, y: cell.y, width: cell.width, color: cell.background },
            );
            assert(shape_views(output@) =~= before + fills(views.take(index + 1), background));
        }
        index += 1;
    }
    assert(views.take(index as int) =~= views);
}

fn push_contents(output: &mut Vec<Shape>, cells: &Vec<Cell>)
    ensures
        shape_views(final(output)@) == shape_views(old(output)@) + contents(
            frame::cell_views(cells@),
        ),
{
    let ghost views = frame::cell_views(cells@);
    let ghost before = shape_views(output@);
    let mut index: usize = 0;
    assert(before + contents(views.take(0)) =~= before);
    while index < cells.len()
        invariant
            index <= cells@.len(),
            views == frame::cell_views(cells@),
            shape_views(output@) == before + contents(views.take(index as int)),
        decreases cells@.len() - index,
    {
        let cell = &cells[index];
        assert(views.take(index + 1).drop_last() =~= views.take(index as int));
        assert(views.take(index + 1).last() == cell@);
        if !cell.text.as_str().is_empty() && !cell.attributes.invisible {
            let shape = match graphic(cell) {
                Some(graphic) => Shape::Block {
                    x: cell.x,
                    y: cell.y,
                    width: cell.width,
                    color: cell.foreground,
                    graphic,
                },
                None => Shape::Text {
                    x: cell.x,
                    y: cell.y,
                    color: cell.foreground,
                    style: style_attributes(&cell.attributes),
                    content: xml(cell.text.as_str()),
                },
            };
            assert(shape@ == content(cell@));
            push_shape(output, shape);
            assert(shape_views(output@) =~= before + contents(views.take(index + 1)));
        }
        index += 1;
    }
    assert(views.take(index as int) =~= views);
}

/// What is drawn of a frame, in order.
pub fn svg(frame: &Frame, show_cursor: bool) -> (output: Vec<Shape>)
    ensures
        shape_views(output@) == shapes(frame@, show_cursor),
{
    let mut output: Vec<Shape> = Vec::new();
    push_fills(&mut output, &frame.cells, frame.background);
    push_contents(&mut output, &frame.cells);
    if show_cursor {
        if let Some(cursor) = frame.cursor {
            push_shape(
                &mut output,
                Shape::Cursor { x: cursor.x, y: cursor.y, color: cursor.color },
            );
        }
    }
    assert(shape_views(output@) =~= shapes(frame@, show_cursor));
    output
}

proof fn lemma_fills_are_painted_cells(cells: Seq<frame::CellView>, background: Color)
    ensures
        fills(cells, background) == cells.filter(
            |cell: frame::CellView| cell.background != background,
        ).map_values(
            |cell: frame::CellView|
                ShapeView::Fill {
                    x: cell.x,
                    y: cell.y,
                    width: cell.width,
                    color: cell.background,
                },
        ),
    decreases cells.len(),
{
    reveal(Seq::filter);
    let painted = |cell: frame::CellView| cell.background != background;
    let fill = |cell: frame::CellView|
        ShapeView::Fill { x: cell.x, y: cell.y, width: cell.width, color: cell.background };
    if cells.len() == 0 {
        assert(fills(cells, background) =~= cells.filter(painted).map_values(fill));
    } else {
        lemma_fills_are_painted_cells(cells.drop_last(), background);
        assert(fills(cells, background) =~= cells.filter(painted).map_values(fill));
    }
}

proof fn lemma_contents_are_written_cells(cells: Seq<frame::CellView>)
    ensures
        contents(cells) == cells.filter(
            |cell: frame::CellView| cell.text.len() > 0 && !cell.attributes.invisible,
        ).map_values(|cell: frame::CellView| content(cell)),
    decreases cells.len(),
{
    reveal(Seq::filter);
    let written = |cell: frame::CellView| cell.text.len() > 0 && !cell.attributes.invisible;
    let drawn = |cell: frame::CellView| content(cell);
    if cells.len() == 0 {
        assert(contents(cells) =~= cells.filter(written).map_values(drawn));
    } else {
        lemma_contents_are_written_cells(cells.drop_last());
        assert(contents(cells) =~= cells.filter(written).map_values(drawn));
    }
}

/// A picture holds three layers, each in the order of the cells: a fill for each cell that is
/// painted in another color than the frame, then the text or the geometry of each cell that has
/// text and is not invisible, in the color of the text, and at last the cursor, if it is asked for
/// and there is one.
pub proof fn lemma_picture_has_three_layers(view: frame::FrameView, show_cursor: bool)
    ensures
        shapes(view, show_cursor) == view.cells.filter(
            |cell: frame::CellView| cell.background != view.background,
        ).map_values(
            |cell: frame::CellView|
                ShapeView::Fill {
                    x: cell.x,
                    y: cell.y,
                    width: cell.width,
                    color: cell.background,
                },
        ) + view.cells.filter(
            |cell: frame::CellView| cell.text.len() > 0 && !cell.attributes.invisible,
        ).map_values(
            |cell: frame::CellView|
                if cell.text.len() == 1 && block(cell.text[0]) is Some {
                    ShapeView::Block {
                        x: cell.x,
                        y: cell.y,
                        width: cell.width,
                        color: cell.foreground,
                        graphic: block(cell.text[0])->0,
                    }
                } else {
                    ShapeView::Text {
                        x: cell.x,
                        y: cell.y,
                        color: cell.foreground,
                        style: style(cell.attributes),
                        content: escaped(cell.text),
                    }
                },
        ) + if show_cursor && view.cursor is Some {
            seq![
                ShapeView::Cursor {
                    x: view.cursor->0.x,
                    y: view.cursor->0.y,
                    color: view.cursor->0.color,
                },
            ]
        } else {
            Seq::empty()
        },
{
    lemma_fills_are_painted_cells(view.cells, view.background);
    lemma_contents_are_written_cells(view.cells);
    let written = view.cells.filter(
        |cell: frame::CellView| cell.text.len() > 0 && !cell.attributes.invisible,
    );
    assert(contents(view.cells) =~= written.map_values(
        |cell: frame::CellView|
            if cell.text.len() == 1 && block(cell.text[0]) is Some {
                ShapeView::Block {
                    x: cell.x,
                    y: cell.y,
                    width: cell.width,
                    color: cell.foreground,
                    graphic: block(cell.text[0])->0,
                }
            } else {
                ShapeView::Text {
                    x: cell.x,
                    y: cell.y,
                    color: cell.foreground,
                    style: style(cell.attributes),
                    content: escaped(cell.text),
                }
            },
    ));
}

proof fn lemma_fill_of_cell(cells: Seq<frame::CellView>, background: Color, index: int)
    requires
        0 <= index < cells.len(),
        cells[index].background != background,
    ensures
        fills(cells, background).contains(
            ShapeView::Fill {
                x: cells[index].x,
                y: cells[index].y,
                width: cells[index].width,
                color: cells[index].background,
            },
        ),
    decreases cells.len(),
{
    let before = fills(cells.drop_last(), background);
    let all = fills(cells, background);
    let fill = ShapeView::Fill {
        x: cells[index].x,
        y: cells[index].y,
        width: cells[index].width,
        color: cells[index].background,
    };
    if index < cells.len() - 1 {
        lemma_fill_of_cell(cells.drop_last(), background, index);
        let i = choose|i: int| 0 <= i < before.len() && before[i] == fill;
        assert(all[i] == fill);
    } else {
        assert(all[before.len() as int] == fill);
    }
}

proof fn lemma_cell_of_fill(cells: Seq<frame::CellView>, background: Color, index: int)
    requires
        0 <= index < fills(cells, background).len(),
    ensures
        fills(cells, background)[index] is Fill,
        exists|k: int|
            0 <= k < cells.len() && (#[trigger] cells[k]).background != background && fills(
                cells,
                background,
            )[index] == (ShapeView::Fill {
                x: cells[k].x,
                y: cells[k].y,
                width: cells[k].width,
                color: cells[k].background,
            }),
    decreases cells.len(),
{
    let front = cells.drop_last();
    let before = fills(front, background);
    if index < before.len() {
        lemma_cell_of_fill(front, background, index);
        let k = choose|k: int|
            0 <= k < front.len() && (#[trigger] front[k]).background != background && before[index]
                == (ShapeView::Fill {
                x: front[k].x,
                y: front[k].y,
                width: front[k].width,
                color: front[k].background,
            });
        assert(cells[k] == front[k]);
    } else {
        assert(cells[cells.len() - 1].background != background);
    }
}

proof fn lemma_contents_are_no_fills(cells: Seq<frame::CellView>, index: int)
    requires
        0 <= index < contents(cells).len(),
    ensures
        contents(cells)[index] is Text || contents(cells)[index] is Block,
    decreases cells.len(),
{
    let before = contents(cells.drop_last());
    if index < before.len() {
        lemma_contents_are_no_fills(cells.drop_last(), index);
    }
}

/// Every cell whose background differs from the frame's is filled with it, over its whole width and
/// whatever its text and its attributes are. Nothing else is filled.
pub proof fn lemma_backgrounds_are_filled(view: frame::FrameView, show_cursor: bool)
    ensures
        forall|k: int|
            0 <= k < view.cells.len() && (#[trigger] view.cells[k]).background != view.background
                ==> shapes(view, show_cursor).contains(
                ShapeView::Fill {
                    x: view.cells[k].x,
                    y: view.cells[k].y,
                    width: view.cells[k].width,
                    color: view.cells[k].background,
                },
            ),
        forall|i: int|
            0 <= i < shapes(view, show_cursor).len() && (#[trigger] shapes(
                view,
                show_cursor,
            )[i]) is Fill ==> exists|k: int|
                0 <= k < view.cells.len() && (#[trigger] view.cells[k]).background
                    != view.background && shapes(view, show_cursor)[i] == (ShapeView::Fill {
                    x: view.cells[k].x,
                    y: view.cells[k].y,
                    width: view.cells[k].width,
                    color: view.cells[k].background,
                }),
{
    let all = shapes(view, show_cursor);
    let painted = fills(view.cells, view.background);
    let written = contents(view.cells);
    assert forall|k: int|
        0 <= k < view.cells.len() && (#[trigger] view.cells[k]).background
            != view.background implies all.contains(
        ShapeView::Fill {
            x: view.cells[k].x,
            y: view.cells[k].y,
            width: view.cells[k].width,
            color: view.cells[k].background,
        },
    ) by {
        let fill = ShapeView::Fill {
            x: view.cells[k].x,
            y: view.cells[k].y,
            width: view.cells[k].width,
            color: view.cells[k].background,
        };
        lemma_fill_of_cell(view.cells, view.background, k);
        let i = choose|i: int| 0 <= i < painted.len() && painted[i] == fill;
        assert(all[i] == fill);
    }
    assert forall|i: int| 0 <= i < all.len() && (#[trigger] all[i]) is Fill implies exists|k: int|
        0 <= k < view.cells.len() && (#[trigger] view.cells[k]).background != view.background
            && all[i] == (ShapeView::Fill {
            x: view.cells[k].x,
            y: view.cells[k].y,
            width: view.cells[k].width,
            color: view.cells[k].background,
        }) by {
        if i < painted.len() {
            lemma_cell_of_fill(view.cells, view.background, i);
            assert(all[i] == painted[i]);
        } else if i < painted.len() + written.len() {
            lemma_contents_are_no_fills(view.cells, i - painted.len());
            assert(all[i] == written[i - painted.len()]);
        }
    }
}

proof fn lemma_content_of_cell(cells: Seq<frame::CellView>, index: int)
    requires
        0 <= index < cells.len(),
        cells[index].text.len() > 0,
        !cells[index].attributes.invisible,
    ensures
        contents(cells).contains(content(cells[index])),
    decreases cells.len(),
{
    let before = contents(cells.drop_last());
    let all = contents(cells);
    if index < cells.len() - 1 {
        lemma_content_of_cell(cells.drop_last(), index);
        let i = choose|i: int| 0 <= i < before.len() && before[i] == content(cells[index]);
        assert(all[i] == content(cells[index]));
    } else {
        assert(all[before.len() as int] == content(cells[index]));
    }
}

proof fn lemma_cell_of_content(cells: Seq<frame::CellView>, index: int)
    requires
        0 <= index < contents(cells).len(),
    ensures
        exists|k: int|
            0 <= k < cells.len() && (#[trigger] cells[k]).text.len() > 0
                && !cells[k].attributes.invisible && contents(cells)[index] == content(cells[k]),
    decreases cells.len(),
{
    let front = cells.drop_last();
    let before = contents(front);
    if index < before.len() {
        lemma_cell_of_content(front, index);
        let k = choose|k: int|
            0 <= k < front.len() && (#[trigger] front[k]).text.len() > 0
                && !front[k].attributes.invisible && before[index] == content(front[k]);
        assert(cells[k] == front[k]);
    } else {
        assert(cells[cells.len() - 1].text.len() > 0);
    }
}

/// Whatever a cell says is drawn where the cell stands and in the color of its text, unless the cell
/// is invisible: as geometry where it is one block character, and else as text with the cell's style.
pub proof fn lemma_texts_are_drawn(view: frame::FrameView, show_cursor: bool, index: int)
    requires
        0 <= index < view.cells.len(),
        view.cells[index].text.len() > 0,
        !view.cells[index].attributes.invisible,
    ensures
        exists|i: int|
            0 <= i < shapes(view, show_cursor).len() && match #[trigger] shapes(
                view,
                show_cursor,
            )[i] {
                ShapeView::Block { x, y, width, color, graphic } => {
                    let cell = view.cells[index];
                    &&& cell.text.len() == 1
                    &&& block(cell.text[0]) == Some(graphic)
                    &&& (x, y, width, color) == (cell.x, cell.y, cell.width, cell.foreground)
                },
                ShapeView::Text { x, y, color, style: drawn, content: written } => {
                    let cell = view.cells[index];
                    &&& !(cell.text.len() == 1 && block(cell.text[0]) is Some)
                    &&& (x, y, color) == (cell.x, cell.y, cell.foreground)
                    &&& drawn == style(cell.attributes)
                    &&& written == escaped(cell.text)
                },
                _ => false,
            },
{
    let all = shapes(view, show_cursor);
    let painted = fills(view.cells, view.background);
    let written = contents(view.cells);
    lemma_content_of_cell(view.cells, index);
    let i = choose|i: int| 0 <= i < written.len() && written[i] == content(view.cells[index]);
    assert(all[painted.len() + i] == content(view.cells[index]));
}

/// Nothing is written that no cell says: a text or a block in a picture comes from a cell that holds
/// it and is not invisible. The cursor is drawn at most once, over everything else, and where it
/// stands.
pub proof fn lemma_nothing_else_is_written(view: frame::FrameView, show_cursor: bool, index: int)
    requires
        0 <= index < shapes(view, show_cursor).len(),
    ensures
        match shapes(view, show_cursor)[index] {
            ShapeView::Fill { .. } => true,
            ShapeView::Block { x, y, color, .. } => exists|k: int|
                0 <= k < view.cells.len() && (#[trigger] view.cells[k]).x == x && view.cells[k].y
                    == y && view.cells[k].foreground == color && view.cells[k].text.len() == 1
                    && !view.cells[k].attributes.invisible,
            ShapeView::Text { x, y, color, content: written, .. } => exists|k: int|
                0 <= k < view.cells.len() && (#[trigger] view.cells[k]).x == x && view.cells[k].y
                    == y && view.cells[k].foreground == color && view.cells[k].text.len() > 0
                    && !view.cells[k].attributes.invisible && written == escaped(
                    view.cells[k].text,
                ),
            ShapeView::Cursor { x, y, color } => {
                &&& show_cursor
                &&& view.cursor matches Some(cursor) && (cursor.x, cursor.y, cursor.color) == (
                    x,
                    y,
                    color,
                )
                &&& index == shapes(view, show_cursor).len() - 1
            },
        },
        show_cursor && view.cursor is Some ==> shapes(view, show_cursor).last() is Cursor,
{
    let all = shapes(view, show_cursor);
    let painted = fills(view.cells, view.background);
    let written = contents(view.cells);
    if index < painted.len() {
        lemma_cell_of_fill(view.cells, view.background, index);
        assert(all[index] == painted[index]);
    } else if index < painted.len() + written.len() {
        lemma_cell_of_content(view.cells, index - painted.len());
        assert(all[index] == written[index - painted.len()]);
    }
}

/// Escaping goes character by character. What stands for the five characters with a meaning in
/// markup is their name, and every other character stands for itself.
pub proof fn lemma_escaping_is_by_character(left: Seq<char>, right: Seq<char>, ch: char)
    ensures
        escaped(left + right) == escaped(left) + escaped(right),
        escaped(seq![ch]) == match ch {
            '&' => "&amp;"@,
            '<' => "&lt;"@,
            '>' => "&gt;"@,
            '"' => "&quot;"@,
            '\'' => "&apos;"@,
            _ => seq![ch],
        },
{
    lemma_escaped_join(left, right);
    assert(seq![ch].drop_last() =~= Seq::<char>::empty());
    assert(escaped(seq![ch].drop_last()) =~= Seq::<char>::empty());
    assert(escaped(seq![ch]) =~= escaped_char(ch));
}

proof fn lemma_escaped_join(left: Seq<char>, right: Seq<char>)
    ensures
        escaped(left + right) == escaped(left) + escaped(right),
    decreases right.len(),
{
    if right.len() == 0 {
        assert(left + right =~= left);
        assert(escaped(left) + escaped(right) =~= escaped(left));
    } else {
        assert((left + right).drop_last() =~= left + right.drop_last());
        lemma_escaped_join(left, right.drop_last());
        assert(escaped(left + right) =~= escaped(left) + escaped(right));
    }
}

/// Each attribute adds its own markup to the style of a text, and plain text has none.
pub proof fn lemma_attributes_are_styled(attributes: frame::Attributes)
    ensures
        attributes.bold ==> style(attributes) == " font-weight=\"700\""@ + style(
            frame::Attributes { bold: false, ..attributes },
        ),
        !attributes.bold && attributes.italic ==> style(attributes) == " font-style=\"italic\""@
            + style(frame::Attributes { italic: false, ..attributes }),
        !attributes.bold && !attributes.italic && attributes.faint ==> style(attributes)
            == " opacity=\"0.55\""@ + style(frame::Attributes { faint: false, ..attributes }),
        !attributes.bold && !attributes.italic && !attributes.faint ==> style(attributes) == match (
            attributes.underline is Some,
            attributes.strikethrough,
            attributes.overline,
        ) {
            (false, false, false) => ""@,
            (true, false, false) => " text-decoration=\"underline\""@,
            (false, true, false) => " text-decoration=\"line-through\""@,
            (false, false, true) => " text-decoration=\"overline\""@,
            (true, true, false) => " text-decoration=\"underline line-through\""@,
            (true, false, true) => " text-decoration=\"underline overline\""@,
            (false, true, true) => " text-decoration=\"line-through overline\""@,
            (true, true, true) => " text-decoration=\"underline line-through overline\""@,
        },
{
    reveal_strlit("");
    reveal_strlit(" ");
    reveal_strlit("\"");
    reveal_strlit(" font-weight=\"700\"");
    reveal_strlit(" font-style=\"italic\"");
    reveal_strlit(" opacity=\"0.55\"");
    reveal_strlit("underline");
    reveal_strlit("line-through");
    reveal_strlit("overline");
    reveal_strlit(" text-decoration=\"");
    reveal_strlit(" text-decoration=\"underline\"");
    reveal_strlit(" text-decoration=\"line-through\"");
    reveal_strlit(" text-decoration=\"overline\"");
    reveal_strlit(" text-decoration=\"underline line-through\"");
    reveal_strlit(" text-decoration=\"underline overline\"");
    reveal_strlit(" text-decoration=\"line-through overline\"");
    reveal_strlit(" text-decoration=\"underline line-through overline\"");
    if attributes.bold {
        assert(style(attributes) =~= " font-weight=\"700\""@ + style(
            frame::Attributes { bold: false, ..attributes },
        ));
    } else if attributes.italic {
        assert(style(attributes) =~= " font-style=\"italic\""@ + style(
            frame::Attributes { italic: false, ..attributes },
        ));
    } else if attributes.faint {
        assert(style(attributes) =~= " opacity=\"0.55\""@ + style(
            frame::Attributes { faint: false, ..attributes },
        ));
    } else {
        let lines = style(attributes);
        match (attributes.underline is Some, attributes.strikethrough, attributes.overline) {
            (false, false, false) => assert(lines =~= ""@),
            (true, false, false) => assert(lines =~= " text-decoration=\"underline\""@),
            (false, true, false) => assert(lines =~= " text-decoration=\"line-through\""@),
            (false, false, true) => assert(lines =~= " text-decoration=\"overline\""@),
            (true, true, false) => assert(lines
                =~= " text-decoration=\"underline line-through\""@),
            (true, false, true) => assert(lines =~= " text-decoration=\"underline overline\""@),
            (false, true, true) => assert(lines
                =~= " text-decoration=\"line-through overline\""@),
            (true, true, true) => assert(lines
                =~= " text-decoration=\"underline line-through overline\""@),
        }
    }
}

/// Whether a graphic fills the eighth of a cell in column `x` and row `y`.
pub open spec fn covers(graphic: GraphicView, x: int, y: int) -> bool {
    graphic matches GraphicView::Patches(patches) && exists|i: int|
        0 <= i < patches.len() && (#[trigger] patches[i]).left <= x < patches[i].left
            + patches[i].width && patches[i].top <= y < patches[i].top + patches[i].height
}

/// Block characters fill the part of the cell that their names tell: so many eighths from below or
/// from the left, the upper or the right half, the uppermost eighth, or quarters. Shades fill all of
/// it with a part of the color. No other character is geometry.
pub proof fn lemma_blocks_fill_their_part(ch: char, x: int, y: int)
    requires
        0 <= x < 8,
        0 <= y < 8,
    ensures
        block(ch) is Some <==> '\u{2580}' <= ch <= '\u{259f}' && ch != '\u{2595}',
        '\u{2581}' <= ch <= '\u{2588}' ==> (covers(block(ch)->0, x, y) <==> 8 - y <= ch as int
            - 0x2580),
        '\u{2589}' <= ch <= '\u{258f}' ==> (covers(block(ch)->0, x, y) <==> x < 0x2590 - ch as int),
        ch == '\u{2580}' ==> (covers(block(ch)->0, x, y) <==> y < 4),
        ch == '\u{2590}' ==> (covers(block(ch)->0, x, y) <==> x >= 4),
        ch == '\u{2594}' ==> (covers(block(ch)->0, x, y) <==> y == 0),
        ch == '\u{2591}' ==> block(ch) == Some(GraphicView::Shade(25)),
        ch == '\u{2592}' ==> block(ch) == Some(GraphicView::Shade(50)),
        ch == '\u{2593}' ==> block(ch) == Some(GraphicView::Shade(75)),
        '\u{2596}' <= ch <= '\u{259f}' ==> (covers(block(ch)->0, x, y) <==> {
            let upper_left = '\u{2598}' <= ch <= '\u{259c}';
            let upper_right = '\u{259b}' <= ch <= '\u{259f}';
            let lower_left = ch == '\u{2596}' || ch == '\u{2599}' || ch == '\u{259b}' || ch
                == '\u{259e}' || ch == '\u{259f}';
            let lower_right = ch == '\u{2597}' || ch == '\u{2599}' || ch == '\u{259a}' || ch
                == '\u{259c}' || ch == '\u{259f}';
            if y < 4 {
                if x < 4 {
                    upper_left
                } else {
                    upper_right
                }
            } else if x < 4 {
                lower_left
            } else {
                lower_right
            }
        }),
{
    if let Some(GraphicView::Patches(patches)) = block(ch) {
        assert(patches.len() == 1 || patches.len() == 2);
        let first = patches[0];
        assert(covers(block(ch)->0, x, y) <==> ((first.left <= x < first.left + first.width
            && first.top <= y < first.top + first.height) || (patches.len() == 2 && patches[1].left
            <= x < patches[1].left + patches[1].width && patches[1].top <= y < patches[1].top
            + patches[1].height)));
    }
}

/// A block character in a visible cell is never drawn as text.
pub proof fn lemma_blocks_are_geometry(cell: frame::CellView)
    requires
        cell.text.len() == 1,
        block(cell.text[0]) is Some,
    ensures
        content(cell) is Block,
{
}

} // verus!
