//! Discovering the colors of the surrounding terminal.
use crate::frame;
use crate::frame::Color;
use crate::text;
use vstd::prelude::*;

verus! {

/// Longest reply, in bytes, that is read from the terminal.
pub const MAX_QUERY_INPUT_BYTES: usize = 262144;

/// Number of palette slots that a theme sets.
pub const ANSI_COLORS: usize = 16;

/// The colors that an application inherits from its terminal.
#[derive(Clone, Copy, Debug, PartialEq, Eq)]
pub struct TerminalTheme {
    pub foreground: Color,
    pub background: Color,
    pub ansi: [Color; 16],
}

/// What a [`TerminalTheme`] holds.
#[verifier::ext_equal]
pub struct ThemeView {
    pub foreground: Color,
    pub background: Color,
    pub ansi: Seq<Color>,
}

impl View for TerminalTheme {
    type V = ThemeView;

    open spec fn view(&self) -> ThemeView {
        ThemeView { foreground: self.foreground, background: self.background, ansi: self.ansi@ }
    }
}

/// The theme of a terminal that tells nothing of its colors.
pub open spec fn default_theme() -> ThemeView {
    ThemeView {
        foreground: frame::default_foreground(),
        background: frame::default_background(),
        ansi: Seq::new(16, |i: int| frame::palette_color(i)),
    }
}

impl Default for TerminalTheme {
    fn default() -> (theme: Self)
        ensures
            theme@ == default_theme(),
    {
        let mut ansi = [Color { r: 0, g: 0, b: 0 }; 16];
        let mut index: u8 = 0;
        while index < 16
            invariant
                index <= 16,
                forall|i: int| 0 <= i < index ==> #[trigger] ansi@[i] == frame::palette_color(i),
            decreases 16 - index,
        {
            ansi[index as usize] = frame::indexed_color(index);
            index += 1;
        }
        assert(ansi@ =~= default_theme().ansi);
        TerminalTheme {
            foreground: frame::default_foreground(),
            background: frame::default_background(),
            ansi,
        }
    }
}

/// The answers found in terminal input.
#[derive(Clone, Copy, Debug, PartialEq, Eq)]
pub struct Replies {
    pub foreground: Option<Color>,
    pub background: Option<Color>,
    pub ansi: [Option<Color>; 16],
    pub saw_device_attributes: bool,
}

/// What [`Replies`] hold.
#[verifier::ext_equal]
pub struct RepliesView {
    pub foreground: Option<Color>,
    pub background: Option<Color>,
    pub ansi: Seq<Option<Color>>,
    pub saw_device_attributes: bool,
}

impl View for Replies {
    type V = RepliesView;

    open spec fn view(&self) -> RepliesView {
        RepliesView {
            foreground: self.foreground,
            background: self.background,
            ansi: self.ansi@,
            saw_device_attributes: self.saw_device_attributes,
        }
    }
}

/// No answer at all.
pub open spec fn no_replies() -> RepliesView {
    RepliesView {
        foreground: None,
        background: None,
        ansi: Seq::new(16, |i: int| None),
        saw_device_attributes: false,
    }
}

impl Default for Replies {
    fn default() -> (replies: Self)
        ensures
            replies@ == no_replies(),
    {
        let ansi: [Option<Color>; 16] = [None; 16];
        assert(ansi@ =~= no_replies().ansi);
        Replies { foreground: None, background: None, ansi, saw_device_attributes: false }
    }
}

impl RepliesView {
    /// Whether every color was answered.
    pub open spec fn complete(self) -> bool {
        &&& self.foreground is Some
        &&& self.background is Some
        &&& forall|i: int| 0 <= i < self.ansi.len() ==> (#[trigger] self.ansi[i]) is Some
    }

    /// `theme` with the answers put in. The default colors change only together.
    pub open spec fn applied(self, theme: ThemeView) -> ThemeView {
        let both = self.foreground is Some && self.background is Some;
        ThemeView {
            foreground: if both {
                self.foreground->0
            } else {
                theme.foreground
            },
            background: if both {
                self.background->0
            } else {
                theme.background
            },
            ansi: Seq::new(
                theme.ansi.len(),
                |i: int|
                    match self.ansi[i] {
                        Some(color) => color,
                        None => theme.ansi[i],
                    },
            ),
        }
    }
}

impl Replies {
    /// Whether every color was answered.
    pub fn complete(&self) -> (result: bool)
        ensures
            result == self@.complete(),
    {
        if self.foreground.is_none() || self.background.is_none() {
            return false;
        }
        let mut index: usize = 0;
        while index < 16
            invariant
                index <= 16,
                forall|i: int| 0 <= i < index ==> (#[trigger] self.ansi@[i]) is Some,
            decreases 16 - index,
        {
            if self.ansi[index].is_none() {
                assert(self@.ansi[index as int] is None);
                return false;
            }
            index += 1;
        }
        true
    }

    /// Puts the answers into `theme`.
    pub fn apply(self, theme: TerminalTheme) -> (result: TerminalTheme)
        ensures
            result@ == self@.applied(theme@),
    {
        let mut result = theme;
        if let (Some(foreground), Some(background)) = (self.foreground, self.background) {
            result.foreground = foreground;
            result.background = background;
        }
        let mut index: usize = 0;
        while index < 16
            invariant
                index <= 16,
                result.foreground == self@.applied(theme@).foreground,
                result.background == self@.applied(theme@).background,
                forall|i: int|
                    0 <= i < 16 ==> #[trigger] result.ansi@[i] == if i < index {
                        self@.applied(theme@).ansi[i]
                    } else {
                        theme.ansi@[i]
                    },
            decreases 16 - index,
        {
            if let Some(color) = self.ansi[index] {
                result.ansi[index] = color;
            }
            index += 1;
        }
        assert(result@.ansi =~= self@.applied(theme@).ansi);
        result
    }
}

/// Length of the string terminator at `index`, or zero where there is none.
pub open spec fn terminator_len(bytes: Seq<u8>, index: int) -> int {
    if bytes[index] == 0x07 || bytes[index] == 0x9c {
        1
    } else if bytes[index] == 0x1b && index + 1 < bytes.len() && bytes[index + 1] == 0x5c {
        2
    } else {
        0
    }
}

/// Where the string that starts at `start` ends, and how long its terminator is.
pub open spec fn string_end(bytes: Seq<u8>, start: int) -> Option<(int, int)>
    decreases bytes.len() - start,
{
    if start < 0 || start >= bytes.len() {
        None
    } else if terminator_len(bytes, start) > 0 {
        Some((start, terminator_len(bytes, start)))
    } else {
        string_end(bytes, start + 1)
    }
}

/// A found string end lies in the input, at or after its start, and nothing before it ends the
/// string.
pub proof fn lemma_string_end_first(bytes: Seq<u8>, start: int)
    requires
        0 <= start,
    ensures
        string_end(bytes, start) matches Some((end, terminator)) ==> {
            &&& start <= end
            &&& end + terminator <= bytes.len()
            &&& terminator == terminator_len(bytes, end)
            &&& 1 <= terminator <= 2
            &&& forall|i: int| start <= i < end ==> #[trigger] terminator_len(bytes, i) == 0
        },
        string_end(bytes, start) is None ==> forall|i: int|
            start <= i < bytes.len() ==> #[trigger] terminator_len(bytes, i) == 0,
    decreases bytes.len() - start,
{
    if start < bytes.len() && terminator_len(bytes, start) == 0 {
        lemma_string_end_first(bytes, start + 1);
    }
}

/// Finds the end of an operating system command whose content starts at `start`: the index of its
/// terminator and the terminator's length.
pub fn osc_end(bytes: &[u8], start: usize) -> (end: Option<(usize, usize)>)
    ensures
        (match end {
            Some((end, terminator)) => Some((end as int, terminator as int)),
            None => None,
        }) == string_end(bytes@, start as int),
{
    let mut index: usize = start;
    while index < bytes.len()
        invariant
            start <= index,
            string_end(bytes@, index as int) == string_end(bytes@, start as int),
        decreases bytes@.len() - index,
    {
        let byte: u8 = bytes[index];
        if byte == 0x07 || byte == 0x9c {
            return Some((index, 1));
        }
        if byte == 0x1b && bytes.len() - index > 1 && bytes[index + 1] == 0x5c {
            return Some((index, 2));
        }
        index += 1;
    }
    None
}

/// What a stretch of terminal input is.
pub enum PieceKind {
    /// An operating system command and the bounds of its content.
    Command { start: usize, end: usize },
    /// A primary device attributes report.
    DeviceAttributes,
    /// Anything else.
    Other,
}

/// A stretch of terminal input, from `start` up to `after`.
pub struct Piece {
    pub start: usize,
    pub after: usize,
    pub kind: PieceKind,
}

/// Length of the introducer of an operating system command at `index`, or zero.
pub open spec fn command_prefix(bytes: Seq<u8>, index: int) -> int {
    if bytes[index] == 0x1b && index + 1 < bytes.len() && bytes[index + 1] == 0x5d {
        2
    } else if bytes[index] == 0x9d {
        1
    } else {
        0
    }
}

/// Length of the introducer of a control sequence at `index`, or zero.
pub open spec fn control_prefix(bytes: Seq<u8>, index: int) -> int {
    if bytes[index] == 0x1b && index + 1 < bytes.len() && bytes[index + 1] == 0x5b {
        2
    } else if bytes[index] == 0x9b {
        1
    } else {
        0
    }
}

/// Whether `byte` ends a control sequence.
pub open spec fn final_byte(byte: u8) -> bool {
    0x40 <= byte <= 0x7e
}

/// Where the control sequence whose parameters start at `start` ends.
pub open spec fn control_end(bytes: Seq<u8>, start: int) -> Option<int>
    decreases bytes.len() - start,
{
    if start < 0 || start >= bytes.len() {
        None
    } else if final_byte(bytes[start]) {
        Some(start)
    } else {
        control_end(bytes, start + 1)
    }
}

/// Whether `byte` may stand in a device attributes report.
pub open spec fn attribute_byte(byte: u8) -> bool {
    0x30 <= byte <= 0x39 || byte == 0x3b || byte == 0x3f
}

/// Whether the control sequence with these parameters and this final byte reports the device
/// attributes.
pub open spec fn reports_attributes(parameters: Seq<u8>, last: u8) -> bool {
    &&& last == 0x63
    &&& parameters.len() > 0
    &&& parameters[0] == 0x3f
    &&& forall|i: int| 0 <= i < parameters.len() ==> attribute_byte(#[trigger] parameters[i])
}

/// The piece of input that starts at `index`. An unfinished sequence reaches to the end.
pub open spec fn next_piece(bytes: Seq<u8>, index: int) -> Piece {
    let command = command_prefix(bytes, index);
    let control = control_prefix(bytes, index);
    if command > 0 {
        match string_end(bytes, index + command) {
            Some((end, terminator)) => Piece {
                start: index as usize,
                after: (end + terminator) as usize,
                kind: PieceKind::Command { start: (index + command) as usize, end: end as usize },
            },
            None => Piece {
                start: index as usize,
                after: bytes.len() as usize,
                kind: PieceKind::Other,
            },
        }
    } else if control > 0 {
        match control_end(bytes, index + control) {
            Some(end) => Piece {
                start: index as usize,
                after: (end + 1) as usize,
                kind: if reports_attributes(bytes.subrange(index + control, end), bytes[end]) {
                    PieceKind::DeviceAttributes
                } else {
                    PieceKind::Other
                },
            },
            None => Piece {
                start: index as usize,
                after: bytes.len() as usize,
                kind: PieceKind::Other,
            },
        }
    } else {
        Piece { start: index as usize, after: (index + 1) as usize, kind: PieceKind::Other }
    }
}

proof fn lemma_control_end(bytes: Seq<u8>, start: int)
    requires
        0 <= start,
    ensures
        control_end(bytes, start) matches Some(end) ==> start <= end < bytes.len(),
    decreases bytes.len() - start,
{
    if start < bytes.len() && !final_byte(bytes[start]) {
        lemma_control_end(bytes, start + 1);
    }
}

/// A piece is not empty and lies in the input, as does the content of a command.
pub proof fn lemma_next_piece(bytes: Seq<u8>, index: int)
    requires
        0 <= index < bytes.len() <= usize::MAX,
    ensures
        next_piece(bytes, index).start == index,
        index < next_piece(bytes, index).after <= bytes.len(),
        next_piece(bytes, index).kind matches PieceKind::Command { start, end } ==> index < start
            <= end < next_piece(bytes, index).after,
{
    lemma_string_end_first(bytes, index + command_prefix(bytes, index));
    lemma_control_end(bytes, index + control_prefix(bytes, index));
}

/// The pieces of the input from `index` on.
pub open spec fn pieces_from(bytes: Seq<u8>, index: int) -> Seq<Piece>
    decreases bytes.len() - index,
{
    if index < 0 || index >= bytes.len() || bytes.len() > usize::MAX {
        Seq::empty()
    } else {
        let piece = next_piece(bytes, index);
        if piece.after <= index || piece.after > bytes.len() {
            Seq::empty()
        } else {
            seq![piece] + pieces_from(bytes, piece.after as int)
        }
    }
}

/// The pieces of the whole input.
pub open spec fn pieces(bytes: Seq<u8>) -> Seq<Piece> {
    pieces_from(bytes, 0)
}

fn find_control_end(bytes: &[u8], start: usize) -> (end: Option<usize>)
    ensures
        (match end {
            Some(end) => Some(end as int),
            None => None,
        }) == control_end(bytes@, start as int),
{
    let mut index: usize = start;
    while index < bytes.len()
        invariant
            start <= index,
            control_end(bytes@, index as int) == control_end(bytes@, start as int),
        decreases bytes@.len() - index,
    {
        let byte: u8 = bytes[index];
        if 0x40 <= byte && byte <= 0x7e {
            return Some(index);
        }
        index += 1;
    }
    None
}

fn is_attribute_report(parameters: &[u8], last: u8) -> (result: bool)
    ensures
        result == reports_attributes(parameters@, last),
{
    if last != 0x63 || parameters.len() == 0 || parameters[0] != 0x3f {
        return false;
    }
    let mut index: usize = 0;
    while index < parameters.len()
        invariant
            index <= parameters@.len(),
            forall|i: int| 0 <= i < index ==> attribute_byte(#[trigger] parameters@[i]),
        decreases parameters@.len() - index,
    {
        let byte: u8 = parameters[index];
        if !((0x30 <= byte && byte <= 0x39) || byte == 0x3b || byte == 0x3f) {
            return false;
        }
        index += 1;
    }
    true
}

fn read_piece(bytes: &[u8], index: usize) -> (piece: Piece)
    requires
        index < bytes@.len(),
    ensures
        piece == next_piece(bytes@, index as int),
{
    proof {
        lemma_string_end_first(bytes@, index + command_prefix(bytes@, index as int));
        lemma_control_end(bytes@, index + control_prefix(bytes@, index as int));
    }
    let byte: u8 = bytes[index];
    let follower: u8 = if bytes.len() - index > 1 { bytes[index + 1] } else { 0 };
    let command: usize = if byte == 0x1b && follower == 0x5d {
        2
    } else if byte == 0x9d {
        1
    } else {
        0
    };
    if command > 0 {
        return match osc_end(bytes, index + command) {
            Some((end, terminator)) => Piece {
                start: index,
                after: end + terminator,
                kind: PieceKind::Command { start: index + command, end },
            },
            None => Piece { start: index, after: bytes.len(), kind: PieceKind::Other },
        };
    }
    let control: usize = if byte == 0x1b && follower == 0x5b {
        2
    } else if byte == 0x9b {
        1
    } else {
        0
    };
    if control > 0 {
        return match find_control_end(bytes, index + control) {
            Some(end) => {
                let parameters = vstd::slice::slice_subrange(bytes, index + control, end);
                let kind = if is_attribute_report(parameters, bytes[end]) {
                    PieceKind::DeviceAttributes
                } else {
                    PieceKind::Other
                };
                Piece { start: index, after: end + 1, kind }
            },
            None => Piece { start: index, after: bytes.len(), kind: PieceKind::Other },
        };
    }
    Piece { start: index, after: index + 1, kind: PieceKind::Other }
}

/// Takes terminal input apart.
pub fn split_input(bytes: &[u8]) -> (result: Vec<Piece>)
    ensures
        result@ == pieces(bytes@),
{
    let mut result: Vec<Piece> = Vec::new();
    let mut index: usize = 0;
    let total: usize = bytes.len();
    while index < total
        invariant
            index <= total,
            total == bytes@.len(),
            result@ + pieces_from(bytes@, index as int) == pieces(bytes@),
        decreases bytes@.len() - index,
    {
        proof {
            lemma_next_piece(bytes@, index as int);
        }
        let piece = read_piece(bytes, index);
        let ghost before = result@;
        let ghost rest = pieces_from(bytes@, piece.after as int);
        index = piece.after;
        result.push(piece);
        assert(result@ + rest =~= before + (seq![piece] + rest));
    }
    assert(result@ + pieces_from(bytes@, index as int) =~= result@);
    result
}

/// A color and the text that stands for it.
#[derive(Debug)]
pub struct NamedColor {
    pub text: String,
    pub color: Color,
}

/// The colors that texts stand for. Of several entries for a text the last one counts.
#[derive(Debug)]
pub struct ColorTable {
    pub entries: Vec<NamedColor>,
}

impl View for ColorTable {
    type V = Seq<(Seq<char>, Color)>;

    open spec fn view(&self) -> Seq<(Seq<char>, Color)> {
        Seq::new(self.entries@.len(), |i: int| (self.entries@[i].text@, self.entries@[i].color))
    }
}

/// The color that `text` stands for, if the table holds it.
pub open spec fn color_of(table: Seq<(Seq<char>, Color)>, text: Seq<char>) -> Option<Color>
    decreases table.len(),
{
    if table.len() == 0 {
        None
    } else if table.last().0 == text {
        Some(table.last().1)
    } else {
        color_of(table.drop_last(), text)
    }
}

impl ColorTable {
    /// A table that holds no color.
    pub fn new() -> (table: ColorTable)
        ensures
            table@ == Seq::<(Seq<char>, Color)>::empty(),
    {
        let table = ColorTable { entries: Vec::new() };
        assert(table@ =~= Seq::<(Seq<char>, Color)>::empty());
        table
    }

    /// Adds the color that `value` stands for.
    pub fn insert(&mut self, value: &str, color: Color)
        ensures
            final(self)@ == old(self)@.push((value@, color)),
    {
        self.entries.push(NamedColor { text: value.to_owned(), color });
        assert(self@ =~= old(self)@.push((value@, color)));
    }

    /// Looks up a color.
    pub fn get(&self, value: &[char]) -> (color: Option<Color>)
        ensures
            color == color_of(self@, value@),
    {
        let mut index: usize = self.entries.len();
        assert(self@.take(index as int) =~= self@);
        while index > 0
            invariant
                index <= self.entries@.len(),
                color_of(self@, value@) == color_of(self@.take(index as int), value@),
            decreases index,
        {
            index -= 1;
            let entry = &self.entries[index];
            assert(self@.take(index + 1).last() == self@[index as int]);
            assert(self@.take(index + 1).drop_last() =~= self@.take(index as int));
            if text::spells(value, entry.text.as_str()) {
                return Some(entry.color);
            }
        }
        None
    }
}

/// The fields of an operating system command, unless its content is not UTF-8.
pub open spec fn command_fields(content: Seq<u8>) -> Option<Seq<Seq<char>>> {
    if vstd::utf8::valid_utf8(content) {
        Some(text::split(vstd::utf8::decode_utf8(content), ';'))
    } else {
        None
    }
}

/// The palette slot that a field names, if there is one.
pub open spec fn palette_slot(field: Seq<char>) -> Option<nat> {
    match text::unsigned_value(field) {
        Some(slot) => if slot < 16 {
            Some(slot)
        } else {
            None
        },
        None => None,
    }
}

/// The answers after the palette entries in `fields` from `index` on, and whether any entry was
/// understood.
pub open spec fn palette_replies(
    fields: Seq<Seq<char>>,
    index: int,
    table: Seq<(Seq<char>, Color)>,
    replies: RepliesView,
    parsed: bool,
) -> (RepliesView, bool)
    decreases fields.len() - index,
{
    if index < 0 || index + 1 >= fields.len() {
        (replies, parsed)
    } else {
        match (palette_slot(fields[index]), color_of(table, fields[index + 1])) {
            (Some(slot), Some(color)) => palette_replies(
                fields,
                index + 2,
                table,
                RepliesView { ansi: replies.ansi.update(slot as int, Some(color)), ..replies },
                true,
            ),
            _ => palette_replies(fields, index + 2, table, replies, parsed),
        }
    }
}

/// The answers after an operating system command with these fields, and whether it was an answer.
pub open spec fn command_replies(
    fields: Seq<Seq<char>>,
    table: Seq<(Seq<char>, Color)>,
    replies: RepliesView,
) -> (RepliesView, bool) {
    let color = if fields.len() > 1 {
        color_of(table, fields[1])
    } else {
        None
    };
    if fields[0] == "10"@ {
        match color {
            Some(color) => (RepliesView { foreground: Some(color), ..replies }, true),
            None => (replies, false),
        }
    } else if fields[0] == "11"@ {
        match color {
            Some(color) => (RepliesView { background: Some(color), ..replies }, true),
            None => (replies, false),
        }
    } else if fields[0] == "4"@ {
        palette_replies(fields, 1, table, replies, false)
    } else {
        (replies, false)
    }
}

/// The answers after an operating system command with this content, and whether it was one.
pub open spec fn content_replies(
    content: Seq<u8>,
    table: Seq<(Seq<char>, Color)>,
    replies: RepliesView,
) -> (RepliesView, bool) {
    match command_fields(content) {
        Some(fields) => command_replies(fields, table, replies),
        None => (replies, false),
    }
}

/// Reads the fields of an operating system command.
pub fn read_fields(content: &[u8]) -> (fields: Option<Vec<Vec<char>>>)
    ensures
        (match fields {
            Some(fields) => Some(text::field_views(fields@)),
            None => None,
        }) == command_fields(content@),
        fields matches Some(fields) ==> fields@.len() > 0,
{
    match text::utf8_text(content) {
        Some(value) => {
            proof {
                vstd::utf8::encode_utf8_decode_utf8(value@);
            }
            let chars = text::chars_of(value);
            Some(text::split_fields(chars.as_slice(), ';'))
        },
        None => None,
    }
}

fn read_slot(field: &[char]) -> (slot: Option<usize>)
    ensures
        (match slot {
            Some(slot) => Some(slot as nat),
            None => None,
        }) == palette_slot(field@),
        slot matches Some(slot) ==> slot < 16,
{
    match text::parse_unsigned(field, 15) {
        Some(slot) => Some(slot as usize),
        None => None,
    }
}

/// Takes the answers out of an operating system command. Tells whether it was an answer.
pub fn consume_osc(content: &[u8], table: &ColorTable, replies: &mut Replies) -> (consumed: bool)
    ensures
        (final(replies)@, consumed) == content_replies(content@, table@, old(replies)@),
{
    let fields = match read_fields(content) {
        Some(fields) => fields,
        None => {
            return false;
        },
    };
    let ghost views = text::field_views(fields@);
    assert(views[0] == fields@[0]@);
    let color = if fields.len() > 1 {
        assert(views[1] == fields@[1]@);
        table.get(fields[1].as_slice())
    } else {
        None
    };
    let first = fields[0].as_slice();
    if text::spells(first, "10") {
        if color.is_some() {
            replies.foreground = color;
        }
        color.is_some()
    } else if text::spells(first, "11") {
        if color.is_some() {
            replies.background = color;
        }
        color.is_some()
    } else if text::spells(first, "4") {
        let mut parsed = false;
        let mut index: usize = 1;
        let ghost before = replies@;
        while fields.len() - index > 1
            invariant
                1 <= index <= fields@.len(),
                views == text::field_views(fields@),
                palette_replies(views, index as int, table@, replies@, parsed) == palette_replies(
                    views,
                    1,
                    table@,
                    before,
                    false,
                ),
            decreases fields@.len() - index,
        {
            assert(views[index as int] == fields@[index as int]@);
            assert(views[index + 1] == fields@[index + 1]@);
            let slot = read_slot(fields[index].as_slice());
            let entry = table.get(fields[index + 1].as_slice());
            if let (Some(slot), Some(entry)) = (slot, entry) {
                let ghost held = replies@;
                replies.ansi[slot] = Some(entry);
                parsed = true;
                assert(replies@.ansi =~= held.ansi.update(slot as int, Some(entry)));
            }
            index += 2;
        }
        parsed
    } else {
        false
    }
}

/// The answers and the kept bytes after the pieces of `list` were read in order.
pub open spec fn read_pieces(
    bytes: Seq<u8>,
    list: Seq<Piece>,
    table: Seq<(Seq<char>, Color)>,
) -> (RepliesView, Seq<u8>)
    decreases list.len(),
{
    if list.len() == 0 {
        (no_replies(), Seq::empty())
    } else {
        let (replies, kept) = read_pieces(bytes, list.drop_last(), table);
        let piece = list.last();
        let whole = bytes.subrange(piece.start as int, piece.after as int);
        match piece.kind {
            PieceKind::Command { start, end } => {
                let (after, consumed) = content_replies(
                    bytes.subrange(start as int, end as int),
                    table,
                    replies,
                );
                (after, if consumed {
                    kept
                } else {
                    kept + whole
                })
            },
            PieceKind::DeviceAttributes => (
                RepliesView { saw_device_attributes: true, ..replies },
                kept,
            ),
            PieceKind::Other => (replies, kept + whole),
        }
    }
}

/// The answers in terminal input, and the rest of the input.
pub open spec fn input_replies(
    bytes: Seq<u8>,
    table: Seq<(Seq<char>, Color)>,
) -> (RepliesView, Seq<u8>) {
    read_pieces(bytes, pieces(bytes), table)
}

/// Every piece lies in the input, and so does the content of a command.
pub open spec fn pieces_within(bytes: Seq<u8>, list: Seq<Piece>) -> bool {
    forall|i: int|
        0 <= i < list.len() ==> {
            &&& (#[trigger] list[i]).start < list[i].after <= bytes.len()
            &&& list[i].kind matches PieceKind::Command { start, end } ==> list[i].start < start
                <= end < list[i].after
        }
}

proof fn lemma_pieces_within(bytes: Seq<u8>, index: int)
    requires
        0 <= index,
    ensures
        pieces_within(bytes, pieces_from(bytes, index)),
    decreases bytes.len() - index,
{
    if index < bytes.len() && bytes.len() <= usize::MAX {
        lemma_next_piece(bytes, index);
        let piece = next_piece(bytes, index);
        lemma_pieces_within(bytes, piece.after as int);
        let rest = pieces_from(bytes, piece.after as int);
        assert forall|i: int| 0 <= i < pieces_from(bytes, index).len() implies {
            &&& (#[trigger] pieces_from(bytes, index)[i]).start < pieces_from(bytes, index)[i].after
                <= bytes.len()
            &&& pieces_from(bytes, index)[i].kind matches PieceKind::Command { start, end }
                ==> pieces_from(bytes, index)[i].start < start <= end < pieces_from(bytes, index)[i].after
        } by {
            if i > 0 {
                assert(pieces_from(bytes, index)[i] == rest[i - 1]);
            }
        }
    }
}

/// Finds the answers in terminal input. Everything else is handed back unchanged and in order.
pub fn parse_replies(bytes: &[u8], table: &ColorTable) -> (result: (Replies, Vec<u8>))
    ensures
        (result.0@, result.1@) == input_replies(bytes@, table@),
{
    let list = split_input(bytes);
    let mut replies = Replies::default();
    let mut retained: Vec<u8> = Vec::new();
    let mut index: usize = 0;
    proof {
        lemma_pieces_within(bytes@, 0);
        assert(list@.take(0) =~= Seq::<Piece>::empty());
    }
    while index < list.len()
        invariant
            index <= list@.len(),
            pieces_within(bytes@, list@),
            (replies@, retained@) == read_pieces(bytes@, list@.take(index as int), table@),
        decreases list@.len() - index,
    {
        let piece = &list[index];
        assert(list@.take(index + 1).drop_last() =~= list@.take(index as int));
        let whole = vstd::slice::slice_subrange(bytes, piece.start, piece.after);
        match piece.kind {
            PieceKind::Command { start, end } => {
                let content = vstd::slice::slice_subrange(bytes, start, end);
                if !consume_osc(content, table, &mut replies) {
                    text::append_bytes(&mut retained, whole);
                }
            },
            PieceKind::DeviceAttributes => {
                replies.saw_device_attributes = true;
            },
            PieceKind::Other => {
                text::append_bytes(&mut retained, whole);
            },
        }
        index += 1;
    }
    assert(list@.take(index as int) =~= list@);
    (replies, retained)
}

/// The color texts in the palette entries of `fields` from `index` on.
pub open spec fn palette_texts(fields: Seq<Seq<char>>, index: int) -> Seq<Seq<char>>
    decreases fields.len() - index,
{
    if index < 0 || index + 1 >= fields.len() {
        Seq::empty()
    } else {
        seq![fields[index + 1]] + palette_texts(fields, index + 2)
    }
}

/// The color texts in an operating system command with these fields.
pub open spec fn command_texts(fields: Seq<Seq<char>>) -> Seq<Seq<char>> {
    if fields[0] == "10"@ || fields[0] == "11"@ {
        if fields.len() > 1 {
            seq![fields[1]]
        } else {
            Seq::empty()
        }
    } else if fields[0] == "4"@ {
        palette_texts(fields, 1)
    } else {
        Seq::empty()
    }
}

/// The color texts in one piece of input.
pub open spec fn piece_texts(bytes: Seq<u8>, piece: Piece) -> Seq<Seq<char>> {
    match piece.kind {
        PieceKind::Command { start, end } => match command_fields(
            bytes.subrange(start as int, end as int),
        ) {
            Some(fields) => command_texts(fields),
            None => Seq::empty(),
        },
        _ => Seq::empty(),
    }
}

/// The color texts in pieces of input.
pub open spec fn pieces_texts(bytes: Seq<u8>, list: Seq<Piece>) -> Seq<Seq<char>>
    decreases list.len(),
{
    if list.len() == 0 {
        Seq::empty()
    } else {
        pieces_texts(bytes, list.drop_last()) + piece_texts(bytes, list.last())
    }
}

/// Collects the color texts in the content of an operating system command.
fn collect_texts(content: &[u8], texts: &mut Vec<Vec<char>>)
    ensures
        text::field_views(final(texts)@) == text::field_views(old(texts)@) + match command_fields(
            content@,
        ) {
            Some(fields) => command_texts(fields),
            None => Seq::empty(),
        },
{
    let ghost before = text::field_views(texts@);
    let fields = match read_fields(content) {
        Some(fields) => fields,
        None => {
            assert(text::field_views(texts@) =~= before + Seq::<Seq<char>>::empty());
            return ;
        },
    };
    let ghost views = text::field_views(fields@);
    assert(views[0] == fields@[0]@);
    let first = fields[0].as_slice();
    if text::spells(first, "10") || text::spells(first, "11") {
        if fields.len() > 1 {
            assert(views[1] == fields@[1]@);
            let copy = vstd::slice::slice_to_vec(fields[1].as_slice());
            texts.push(copy);
            assert(text::field_views(texts@) =~= before + command_texts(views));
        } else {
            assert(text::field_views(texts@) =~= before + command_texts(views));
        }
    } else if text::spells(first, "4") {
        let mut index: usize = 1;
        while fields.len() - index > 1
            invariant
                1 <= index <= fields@.len(),
                views == text::field_views(fields@),
                text::field_views(texts@) + palette_texts(views, index as int) == before
                    + palette_texts(views, 1),
            decreases fields@.len() - index,
        {
            let ghost held = text::field_views(texts@);
            assert(views[index + 1] == fields@[index + 1]@);
            let copy = vstd::slice::slice_to_vec(fields[index + 1].as_slice());
            texts.push(copy);
            assert(text::field_views(texts@) =~= held.push(views[index + 1]));
            assert(text::field_views(texts@) + palette_texts(views, index + 2) =~= held
                + palette_texts(views, index as int));
            index += 2;
        }
        assert(text::field_views(texts@) + palette_texts(views, index as int)
            =~= text::field_views(texts@));
    } else {
        assert(text::field_views(texts@) =~= before + command_texts(views));
    }
}

/// The texts in terminal input whose colors decide how [`parse_replies`] reads it.
pub fn color_texts(bytes: &[u8]) -> (texts: Vec<Vec<char>>)
    ensures
        text::field_views(texts@) == pieces_texts(bytes@, pieces(bytes@)),
{
    let list = split_input(bytes);
    let mut texts: Vec<Vec<char>> = Vec::new();
    let mut index: usize = 0;
    proof {
        lemma_pieces_within(bytes@, 0);
        assert(list@.take(0) =~= Seq::<Piece>::empty());
        assert(text::field_views(texts@) =~= Seq::<Seq<char>>::empty());
    }
    while index < list.len()
        invariant
            index <= list@.len(),
            pieces_within(bytes@, list@),
            text::field_views(texts@) == pieces_texts(bytes@, list@.take(index as int)),
        decreases list@.len() - index,
    {
        let piece = &list[index];
        assert(list@.take(index + 1).drop_last() =~= list@.take(index as int));
        match piece.kind {
            PieceKind::Command { start, end } => {
                collect_texts(vstd::slice::slice_subrange(bytes, start, end), &mut texts);
            },
            _ => {
                assert(text::field_views(texts@) =~= pieces_texts(
                    bytes@,
                    list@.take(index as int),
                ) + piece_texts(bytes@, *piece));
            },
        }
        index += 1;
    }
    assert(list@.take(index as int) =~= list@);
    texts
}

/// Two tables agree on every one of `texts`.
pub open spec fn tables_agree(
    texts: Seq<Seq<char>>,
    left: Seq<(Seq<char>, Color)>,
    right: Seq<(Seq<char>, Color)>,
) -> bool {
    forall|i: int|
        0 <= i < texts.len() ==> color_of(left, #[trigger] texts[i]) == color_of(right, texts[i])
}

proof fn lemma_palette_agrees(
    fields: Seq<Seq<char>>,
    index: int,
    left: Seq<(Seq<char>, Color)>,
    right: Seq<(Seq<char>, Color)>,
    replies: RepliesView,
    parsed: bool,
)
    requires
        tables_agree(palette_texts(fields, index), left, right),
    ensures
        palette_replies(fields, index, left, replies, parsed) == palette_replies(
            fields,
            index,
            right,
            replies,
            parsed,
        ),
    decreases fields.len() - index,
{
    if index >= 0 && index + 1 < fields.len() {
        let texts = palette_texts(fields, index);
        let rest = palette_texts(fields, index + 2);
        assert(texts[0] == fields[index + 1]);
        assert forall|i: int| 0 <= i < rest.len() implies color_of(left, #[trigger] rest[i])
            == color_of(right, rest[i]) by {
            assert(texts[i + 1] == rest[i]);
        }
        match (palette_slot(fields[index]), color_of(left, fields[index + 1])) {
            (Some(slot), Some(color)) => lemma_palette_agrees(
                fields,
                index + 2,
                left,
                right,
                RepliesView { ansi: replies.ansi.update(slot as int, Some(color)), ..replies },
                true,
            ),
            _ => lemma_palette_agrees(fields, index + 2, left, right, replies, parsed),
        }
    }
}

proof fn lemma_pieces_agree(
    bytes: Seq<u8>,
    list: Seq<Piece>,
    left: Seq<(Seq<char>, Color)>,
    right: Seq<(Seq<char>, Color)>,
)
    requires
        tables_agree(pieces_texts(bytes, list), left, right),
    ensures
        read_pieces(bytes, list, left) == read_pieces(bytes, list, right),
    decreases list.len(),
{
    if list.len() > 0 {
        let before = pieces_texts(bytes, list.drop_last());
        let last = piece_texts(bytes, list.last());
        let texts = pieces_texts(bytes, list);
        assert forall|i: int| 0 <= i < before.len() implies color_of(left, #[trigger] before[i])
            == color_of(right, before[i]) by {
            assert(texts[i] == before[i]);
        }
        assert forall|i: int| 0 <= i < last.len() implies color_of(left, #[trigger] last[i])
            == color_of(right, last[i]) by {
            assert(texts[before.len() + i] == last[i]);
        }
        lemma_pieces_agree(bytes, list.drop_last(), left, right);
        if let PieceKind::Command { start, end } = list.last().kind {
            if let Some(fields) = command_fields(bytes.subrange(start as int, end as int)) {
                let replies = read_pieces(bytes, list.drop_last(), left).0;
                if fields[0] == "10"@ || fields[0] == "11"@ {
                    if fields.len() > 1 {
                        assert(last[0] == fields[1]);
                    }
                } else if fields[0] == "4"@ {
                    lemma_palette_agrees(fields, 1, left, right, replies, false);
                }
            }
        }
    }
}

/// The answers in terminal input depend on the colors of its color texts alone.
pub proof fn lemma_color_texts_suffice(
    bytes: Seq<u8>,
    left: Seq<(Seq<char>, Color)>,
    right: Seq<(Seq<char>, Color)>,
)
    requires
        tables_agree(pieces_texts(bytes, pieces(bytes)), left, right),
    ensures
        input_replies(bytes, left) == input_replies(bytes, right),
{
    lemma_pieces_agree(bytes, pieces(bytes), left, right);
}

/// The bytes of `list`, in order.
pub open spec fn joined_pieces(bytes: Seq<u8>, list: Seq<Piece>) -> Seq<u8>
    decreases list.len(),
{
    if list.len() == 0 {
        Seq::empty()
    } else {
        joined_pieces(bytes, list.drop_last()) + bytes.subrange(
            list.last().start as int,
            list.last().after as int,
        )
    }
}

proof fn lemma_joined_front(bytes: Seq<u8>, piece: Piece, rest: Seq<Piece>)
    ensures
        joined_pieces(bytes, seq![piece] + rest) == bytes.subrange(
            piece.start as int,
            piece.after as int,
        ) + joined_pieces(bytes, rest),
    decreases rest.len(),
{
    let all = seq![piece] + rest;
    let head = bytes.subrange(piece.start as int, piece.after as int);
    if rest.len() == 0 {
        assert(all.drop_last() =~= Seq::<Piece>::empty());
        assert(all.last() == piece);
        assert(joined_pieces(bytes, all.drop_last()) =~= Seq::<u8>::empty());
        assert(joined_pieces(bytes, all) =~= head + joined_pieces(bytes, rest));
    } else {
        assert(all.drop_last() =~= seq![piece] + rest.drop_last());
        assert(all.last() == rest.last());
        lemma_joined_front(bytes, piece, rest.drop_last());
        assert(joined_pieces(bytes, all) =~= head + joined_pieces(bytes, rest));
    }
}

proof fn lemma_joined_from(bytes: Seq<u8>, index: int)
    requires
        0 <= index <= bytes.len() <= usize::MAX,
    ensures
        joined_pieces(bytes, pieces_from(bytes, index)) == bytes.subrange(index, bytes.len() as int),
    decreases bytes.len() - index,
{
    if index < bytes.len() {
        lemma_next_piece(bytes, index);
        let piece = next_piece(bytes, index);
        lemma_joined_from(bytes, piece.after as int);
        lemma_joined_front(bytes, piece, pieces_from(bytes, piece.after as int));
        assert(bytes.subrange(index, bytes.len() as int) =~= bytes.subrange(
            piece.start as int,
            piece.after as int,
        ) + bytes.subrange(piece.after as int, bytes.len() as int));
    } else {
        assert(bytes.subrange(index, bytes.len() as int) =~= Seq::<u8>::empty());
    }
}

/// Taking input apart loses nothing: its pieces, put together, are the input.
pub proof fn lemma_pieces_cover_input(bytes: Seq<u8>)
    requires
        bytes.len() <= usize::MAX,
    ensures
        joined_pieces(bytes, pieces(bytes)) == bytes,
{
    lemma_joined_from(bytes, 0);
    assert(bytes.subrange(0, bytes.len() as int) =~= bytes);
}

proof fn lemma_other_pieces_kept(
    bytes: Seq<u8>,
    list: Seq<Piece>,
    table: Seq<(Seq<char>, Color)>,
)
    requires
        forall|i: int| 0 <= i < list.len() ==> (#[trigger] list[i]).kind is Other,
    ensures
        read_pieces(bytes, list, table) == (no_replies(), joined_pieces(bytes, list)),
    decreases list.len(),
{
    if list.len() > 0 {
        assert(list.last() == list[list.len() - 1]);
        lemma_other_pieces_kept(bytes, list.drop_last(), table);
    }
}

proof fn lemma_unanswered_pieces(bytes: Seq<u8>, index: int)
    requires
        0 <= index,
        forall|i: int|
            0 <= i < bytes.len() ==> #[trigger] bytes[i] != 0x1b && bytes[i] != 0x9b && bytes[i]
                != 0x9d,
    ensures
        forall|i: int|
            0 <= i < pieces_from(bytes, index).len() ==> (#[trigger] pieces_from(
                bytes,
                index,
            )[i]).kind is Other,
    decreases bytes.len() - index,
{
    if index < bytes.len() && bytes.len() <= usize::MAX {
        lemma_next_piece(bytes, index);
        let piece = next_piece(bytes, index);
        let rest = pieces_from(bytes, piece.after as int);
        lemma_unanswered_pieces(bytes, piece.after as int);
        assert forall|i: int| 0 <= i < pieces_from(bytes, index).len() implies (
        #[trigger] pieces_from(bytes, index)[i]).kind is Other by {
            if i > 0 {
                assert(pieces_from(bytes, index)[i] == rest[i - 1]);
            }
        }
    }
}

/// Input that starts no escape sequence is handed back as it is, and answers nothing.
pub proof fn lemma_ordinary_input_is_kept(bytes: Seq<u8>, table: Seq<(Seq<char>, Color)>)
    requires
        bytes.len() <= usize::MAX,
        forall|i: int|
            0 <= i < bytes.len() ==> #[trigger] bytes[i] != 0x1b && bytes[i] != 0x9b && bytes[i]
                != 0x9d,
    ensures
        input_replies(bytes, table) == (no_replies(), bytes),
{
    lemma_unanswered_pieces(bytes, 0);
    lemma_other_pieces_kept(bytes, pieces(bytes), table);
    lemma_pieces_cover_input(bytes);
}

/// One default color alone changes neither; a palette slot changes with its own answer alone.
pub proof fn lemma_default_colors_change_together(replies: RepliesView, theme: ThemeView, slot: int)
    requires
        replies.foreground is None || replies.background is None,
        0 <= slot < theme.ansi.len(),
    ensures
        replies.applied(theme).foreground == theme.foreground,
        replies.applied(theme).background == theme.background,
        replies.applied(theme).ansi[slot] == match replies.ansi[slot] {
            Some(color) => color,
            None => theme.ansi[slot],
        },
{
}

/// The questions for the first `count` palette slots.
pub open spec fn palette_questions(count: nat) -> Seq<char>
    decreases count,
{
    if count == 0 {
        Seq::empty()
    } else {
        palette_questions((count - 1) as nat) + "\x1b]4;"@ + text::decimal_text((count - 1) as nat)
            + ";?\x07"@
    }
}

/// The questions that ask a terminal for its colors. The device attributes are asked for last:
/// every terminal answers them, so their answer tells that no other is to come.
pub open spec fn theme_questions() -> Seq<char> {
    "\x1b]10;?\x07\x1b]11;?\x07"@ + palette_questions(16) + "\x1b[c"@
}

/// Writes the questions that ask a terminal for its colors.
pub fn theme_query() -> (query: Vec<u8>)
    ensures
        query@ == vstd::utf8::encode_utf8(theme_questions()),
{
    let mut questions = String::new();
    questions.append("\x1b]10;?\x07\x1b]11;?\x07");
    let ghost start = "\x1b]10;?\x07\x1b]11;?\x07"@;
    let mut index: u64 = 0;
    assert(questions@ =~= start + palette_questions(0));
    while index < 16
        invariant
            index <= 16,
            questions@ == start + palette_questions(index as nat),
        decreases 16 - index,
    {
        questions.append("\x1b]4;");
        questions.append(text::decimal(index).as_str());
        questions.append(";?\x07");
        index += 1;
        assert(questions@ =~= start + palette_questions(index as nat));
    }
    questions.append("\x1b[c");
    let mut query: Vec<u8> = Vec::new();
    text::append_text(&mut query, questions.as_str());
    assert(query@ =~= vstd::utf8::encode_utf8(questions@));
    query
}

/// Whether the surrounding terminal may be asked for its colors: both ends are a terminal that
/// takes escape sequences, outside a terminal multiplexer.
pub fn may_query(
    term: Option<&str>,
    screen_session: bool,
    tmux_session: bool,
    stdin_terminal: bool,
    stdout_terminal: bool,
) -> (allowed: bool)
    ensures
        allowed == (!(term is Some && term->0@ == "dumb"@) && !screen_session && !tmux_session
            && stdin_terminal && stdout_terminal),
{
    let dumb = match term {
        Some(term) => text::same_text(term, "dumb"),
        None => false,
    };
    !dumb && !screen_session && !tmux_session && stdin_terminal && stdout_terminal
}

/// How long, in nanoseconds, a terminal may take to answer.
pub const QUERY_TIMEOUT: u128 = 1_000_000_000;

/// How long, in nanoseconds, answers may follow the device attributes.
pub const REPLY_DRAIN: u128 = 25_000_000;

/// Most bytes taken in one read.
pub const READ_BYTES: usize = 4096;

/// Waiting for a terminal's answers. Instants are nanoseconds on one clock.
#[derive(Debug)]
pub struct Query {
    pub deadline: u128,
    pub barrier: Option<u128>,
    pub received: Vec<u8>,
}

impl Query {
    /// When reading stops at the latest.
    pub open spec fn last_read(self) -> int {
        match self.barrier {
            Some(barrier) => if barrier + REPLY_DRAIN < self.deadline {
                barrier + REPLY_DRAIN
            } else {
                self.deadline as int
            },
            None => self.deadline as int,
        }
    }

    /// What is still to be done at `now`: how many bytes to read at most, or nothing.
    pub open spec fn wanted(self, now: int) -> Option<int> {
        if now >= self.last_read() || self.received@.len() >= MAX_QUERY_INPUT_BYTES {
            None
        } else if MAX_QUERY_INPUT_BYTES - self.received@.len() < READ_BYTES {
            Some(MAX_QUERY_INPUT_BYTES - self.received@.len())
        } else {
            Some(READ_BYTES as int)
        }
    }

    /// Starts waiting at `now`, when the questions have been sent.
    pub fn start(now: u128) -> (query: Query)
        requires
            now + QUERY_TIMEOUT <= u128::MAX,
        ensures
            query.deadline == now + QUERY_TIMEOUT,
            query.barrier is None,
            query.received@ == Seq::<u8>::empty(),
    {
        Query { deadline: now + QUERY_TIMEOUT, barrier: None, received: Vec::new() }
    }

    /// When reading stops at the latest.
    pub fn read_deadline(&self) -> (deadline: u128)
        ensures
            deadline == self.last_read(),
    {
        match self.barrier {
            Some(barrier) => {
                if barrier < self.deadline && self.deadline - barrier > REPLY_DRAIN {
                    barrier + REPLY_DRAIN
                } else {
                    self.deadline
                }
            },
            None => self.deadline,
        }
    }

    /// How many bytes to read at most, or nothing when the wait is over.
    pub fn next_read(&self, now: u128) -> (length: Option<usize>)
        ensures
            (match length {
                Some(length) => Some(length as int),
                None => None,
            }) == self.wanted(now as int),
    {
        if now >= self.read_deadline() || self.received.len() >= MAX_QUERY_INPUT_BYTES {
            return None;
        }
        let remaining: usize = MAX_QUERY_INPUT_BYTES - self.received.len();
        if remaining < READ_BYTES {
            Some(remaining)
        } else {
            Some(READ_BYTES)
        }
    }

    /// Takes bytes that were read at `now`. The colors of the texts in everything received so far
    /// are in `table`. Tells whether all answers are there.
    pub fn accept(&mut self, bytes: &[u8], table: &ColorTable, now: u128) -> (done: bool)
        ensures
            final(self).deadline == old(self).deadline,
            final(self).received@ == old(self).received@ + bytes@,
            done == input_replies(final(self).received@, table@).0.complete(),
            final(self).barrier == if !done && old(self).barrier is None && input_replies(
                final(self).received@,
                table@,
            ).0.saw_device_attributes {
                Some(now)
            } else {
                old(self).barrier
            },
    {
        text::append_bytes(&mut self.received, bytes);
        let (replies, _) = parse_replies(self.received.as_slice(), table);
        if replies.complete() {
            return true;
        }
        if replies.saw_device_attributes && self.barrier.is_none() {
            self.barrier = Some(now);
        }
        false
    }

    /// The theme that the terminal answered, and the input that was no answer.
    pub fn finish(&self, table: &ColorTable) -> (result: (TerminalTheme, Vec<u8>))
        ensures
            result.0@ == input_replies(self.received@, table@).0.applied(default_theme()),
            result.1@ == input_replies(self.received@, table@).1,
    {
        let (replies, retained) = parse_replies(self.received.as_slice(), table);
        (replies.apply(TerminalTheme::default()), retained)
    }
}

/// The theme to use: the one that the terminal answered, or the default without any input.
pub fn discover(answered: Option<(TerminalTheme, Vec<u8>)>) -> (result: (TerminalTheme, Vec<u8>))
    ensures
        answered matches Some(answer) ==> result == answer,
        answered is None ==> result.0@ == default_theme() && result.1@ == Seq::<u8>::empty(),
{
    match answered {
        Some(answer) => answer,
        None => (TerminalTheme::default(), Vec::new()),
    }
}

/// An operating system command with this content, as a terminal writes it.
pub open spec fn framed(content: Seq<u8>) -> Seq<u8> {
    seq![0x1bu8, 0x5du8] + content + seq![0x1bu8, 0x5cu8]
}

/// Operating system commands with these contents, one after the other.
pub open spec fn framed_all(contents: Seq<Seq<u8>>) -> Seq<u8>
    decreases contents.len(),
{
    if contents.len() == 0 {
        Seq::empty()
    } else {
        framed_all(contents.drop_last()) + framed(contents.last())
    }
}

/// Whether no byte of a command's content can be taken for its end.
pub open spec fn unbroken(content: Seq<u8>) -> bool {
    forall|i: int|
        0 <= i < content.len() ==> (#[trigger] content[i]) != 0x07 && content[i] != 0x9c
            && content[i] != 0x1b
}

/// The answers in operating system commands with these contents, and the commands that are none.
pub open spec fn contents_replies(
    contents: Seq<Seq<u8>>,
    table: Seq<(Seq<char>, Color)>,
) -> (RepliesView, Seq<u8>)
    decreases contents.len(),
{
    if contents.len() == 0 {
        (no_replies(), Seq::empty())
    } else {
        let (replies, kept) = contents_replies(contents.drop_last(), table);
        let (after, consumed) = content_replies(contents.last(), table, replies);
        (after, if consumed {
            kept
        } else {
            kept + framed(contents.last())
        })
    }
}

proof fn lemma_string_end_at(bytes: Seq<u8>, start: int, end: int)
    requires
        0 <= start <= end < bytes.len(),
        terminator_len(bytes, end) > 0,
        forall|i: int| start <= i < end ==> #[trigger] terminator_len(bytes, i) == 0,
    ensures
        string_end(bytes, start) == Some((end, terminator_len(bytes, end))),
    decreases end - start,
{
    if start < end {
        assert(terminator_len(bytes, start) == 0);
        lemma_string_end_at(bytes, start + 1, end);
    }
}

proof fn lemma_framed_piece(bytes: Seq<u8>, index: int, content: Seq<u8>)
    requires
        0 <= index,
        index + framed(content).len() <= bytes.len() <= usize::MAX,
        bytes.subrange(index, index + framed(content).len()) == framed(content),
        unbroken(content),
    ensures
        next_piece(bytes, index) == (Piece {
            start: index as usize,
            after: (index + framed(content).len()) as usize,
            kind: PieceKind::Command {
                start: (index + 2) as usize,
                end: (index + 2 + content.len()) as usize,
            },
        }),
        bytes.subrange(index + 2, index + 2 + content.len()) == content,
{
    let whole = framed(content);
    let end = index + 2 + content.len();
    assert forall|i: int| 0 <= i < whole.len() implies bytes[index + i] == #[trigger] whole[i] by {
        assert(bytes.subrange(index, index + whole.len())[i] == bytes[index + i]);
    }
    assert(bytes[index] == whole[0] && bytes[index + 1] == whole[1]);
    assert(bytes[end] == whole[end - index] && bytes[end + 1] == whole[end + 1 - index]);
    assert forall|i: int| index + 2 <= i < end implies #[trigger] terminator_len(bytes, i) == 0 by {
        assert(bytes[i] == whole[i - index]);
        assert(whole[i - index] == content[i - index - 2]);
    }
    lemma_string_end_at(bytes, index + 2, end);
    assert(bytes.subrange(index + 2, end) =~= content) by {
        assert forall|i: int| 0 <= i < content.len() implies bytes[index + 2 + i] == #[trigger] content[i] by {
            assert(bytes[index + (2 + i)] == whole[2 + i]);
        }
    }
}

proof fn lemma_framed_prefix(contents: Seq<Seq<u8>>, count: int)
    requires
        0 <= count <= contents.len(),
    ensures
        framed_all(contents.take(count)).len() <= framed_all(contents).len(),
        framed_all(contents).take(framed_all(contents.take(count)).len() as int) == framed_all(
            contents.take(count),
        ),
    decreases contents.len(),
{
    if count == contents.len() {
        assert(contents.take(count) =~= contents);
        assert(framed_all(contents).take(framed_all(contents).len() as int) =~= framed_all(contents));
    } else {
        let front = contents.drop_last();
        lemma_framed_prefix(front, count);
        assert(front.take(count) =~= contents.take(count));
        let length = framed_all(contents.take(count)).len() as int;
        assert(framed_all(contents).take(length) =~= framed_all(front).take(length));
    }
}

/// Where the command with the content at `index` begins among all of them.
spec fn frame_start(contents: Seq<Seq<u8>>, index: int) -> int {
    framed_all(contents.take(index)).len() as int
}

/// The command with the content at `index` among all of them.
spec fn frame_piece(contents: Seq<Seq<u8>>, index: int) -> Piece {
    let start = frame_start(contents, index);
    Piece {
        start: start as usize,
        after: (start + framed(contents[index]).len()) as usize,
        kind: PieceKind::Command {
            start: (start + 2) as usize,
            end: (start + 2 + contents[index].len()) as usize,
        },
    }
}

proof fn lemma_frame_at(contents: Seq<Seq<u8>>, index: int)
    requires
        0 <= index < contents.len(),
        framed_all(contents).len() <= usize::MAX,
        unbroken(contents[index]),
    ensures
        ({
            let bytes = framed_all(contents);
            let start = frame_start(contents, index);
            let content = contents[index];
            &&& frame_start(contents, index + 1) == start + framed(content).len() <= bytes.len()
            &&& bytes.subrange(start, start + framed(content).len()) == framed(content)
            &&& next_piece(bytes, start) == frame_piece(contents, index)
            &&& bytes.subrange(start + 2, start + 2 + content.len()) == content
        }),
{
    let bytes = framed_all(contents);
    let start = frame_start(contents, index);
    let content = contents[index];
    let upto = contents.take(index + 1);
    lemma_framed_prefix(contents, index + 1);
    assert(upto.drop_last() =~= contents.take(index));
    assert(upto.last() == content);
    assert(framed_all(upto) == framed_all(contents.take(index)) + framed(content));
    let after = start + framed(content).len();
    assert(bytes.subrange(start, after) =~= bytes.take(after).subrange(start, after));
    assert(framed_all(upto).subrange(start, after) =~= framed(content));
    lemma_framed_piece(bytes, start, content);
}

proof fn lemma_framed_pieces(contents: Seq<Seq<u8>>, index: int)
    requires
        0 <= index <= contents.len(),
        framed_all(contents).len() <= usize::MAX,
        forall|i: int| 0 <= i < contents.len() ==> unbroken(#[trigger] contents[i]),
    ensures
        pieces_from(framed_all(contents), frame_start(contents, index)) == Seq::new(
            (contents.len() - index) as nat,
            |i: int| frame_piece(contents, index + i),
        ),
    decreases contents.len() - index,
{
    let bytes = framed_all(contents);
    let start = frame_start(contents, index);
    let expected = Seq::new(
        (contents.len() - index) as nat,
        |i: int| frame_piece(contents, index + i),
    );
    if index == contents.len() {
        assert(contents.take(index) =~= contents);
        assert(pieces_from(bytes, start) =~= expected);
    } else {
        assert(unbroken(contents[index]));
        lemma_frame_at(contents, index);
        lemma_framed_pieces(contents, index + 1);
        let rest = Seq::new(
            (contents.len() - (index + 1)) as nat,
            |i: int| frame_piece(contents, index + 1 + i),
        );
        let piece = frame_piece(contents, index);
        assert(pieces_from(bytes, start) == seq![piece] + pieces_from(bytes, piece.after as int));
        assert(piece.after as int == frame_start(contents, index + 1));
        assert forall|i: int| 0 <= i < expected.len() implies (seq![piece] + rest)[i]
            == #[trigger] expected[i] by {
            if i > 0 {
                assert((seq![piece] + rest)[i] == rest[i - 1]);
            }
        }
        assert(seq![piece] + rest =~= expected);
    }
}

proof fn lemma_read_framed(contents: Seq<Seq<u8>>, table: Seq<(Seq<char>, Color)>, count: int)
    requires
        0 <= count <= contents.len(),
        framed_all(contents).len() <= usize::MAX,
        forall|i: int| 0 <= i < contents.len() ==> unbroken(#[trigger] contents[i]),
    ensures
        read_pieces(
            framed_all(contents),
            Seq::new(count as nat, |i: int| frame_piece(contents, i)),
            table,
        ) == contents_replies(contents.take(count), table),
    decreases count,
{
    let list = Seq::new(count as nat, |i: int| frame_piece(contents, i));
    if count > 0 {
        let before = Seq::new((count - 1) as nat, |i: int| frame_piece(contents, i));
        lemma_read_framed(contents, table, count - 1);
        assert(list.drop_last() =~= before);
        assert(contents.take(count).drop_last() =~= contents.take(count - 1));
        assert(unbroken(contents[count - 1]));
        lemma_frame_at(contents, count - 1);
    }
}

/// Commands are read one by one: the answers in them, and the commands that are none.
pub proof fn lemma_commands_are_read(contents: Seq<Seq<u8>>, table: Seq<(Seq<char>, Color)>)
    requires
        framed_all(contents).len() <= usize::MAX,
        forall|i: int| 0 <= i < contents.len() ==> unbroken(#[trigger] contents[i]),
    ensures
        input_replies(framed_all(contents), table) == contents_replies(contents, table),
{
    lemma_framed_pieces(contents, 0);
    lemma_read_framed(contents, table, contents.len() as int);
    assert(contents.take(0) =~= Seq::<Seq<u8>>::empty());
    assert(contents.take(contents.len() as int) =~= contents);
    let list = Seq::new(contents.len(), |i: int| frame_piece(contents, i));
    let same = Seq::new(
        (contents.len() - 0) as nat,
        |i: int| frame_piece(contents, 0 + i),
    );
    assert(list =~= same);
}

/// Answers become the theme: the default colors where both are answered, and each palette slot by
/// itself. What is not answered stays. Without any answer a theme is light gray on black.
pub proof fn lemma_answers_become_the_theme(replies: RepliesView, theme: ThemeView, slot: int)
    requires
        replies.ansi.len() == 16,
        theme.ansi.len() == 16,
        0 <= slot < 16,
    ensures
        replies.foreground is Some && replies.background is Some ==> Some(
            replies.applied(theme).foreground,
        ) == replies.foreground && Some(replies.applied(theme).background) == replies.background,
        !(replies.foreground is Some && replies.background is Some) ==> (
        replies.applied(theme).foreground == theme.foreground && replies.applied(theme).background
            == theme.background),
        replies.applied(theme).ansi.len() == theme.ansi.len(),
        replies.ansi[slot] is Some ==> Some(replies.applied(theme).ansi[slot])
            == replies.ansi[slot],
        replies.ansi[slot] is None ==> replies.applied(theme).ansi[slot] == theme.ansi[slot],
        default_theme().foreground == (Color { r: 229, g: 229, b: 229 }),
        default_theme().background == (Color { r: 0, g: 0, b: 0 }),
        default_theme().ansi.len() == 16,
        no_replies().applied(theme) == theme,
{
    assert(no_replies().applied(theme).ansi =~= theme.ansi);
}

/// An answer about a default color sets that color and nothing else. It is taken where its color can
/// be read, and otherwise changes nothing.
pub proof fn lemma_color_answers_are_taken(
    value: Seq<char>,
    table: Seq<(Seq<char>, Color)>,
    replies: RepliesView,
)
    requires
        !value.contains(';'),
    ensures
        ({
            let (after, taken) = content_replies(
                vstd::utf8::encode_utf8("10;"@ + value),
                table,
                replies,
            );
            &&& taken == (color_of(table, value) is Some)
            &&& after.foreground == if taken {
                color_of(table, value)
            } else {
                replies.foreground
            }
            &&& after.background == replies.background
            &&& after.ansi == replies.ansi
            &&& after.saw_device_attributes == replies.saw_device_attributes
        }),
        ({
            let (after, taken) = content_replies(
                vstd::utf8::encode_utf8("11;"@ + value),
                table,
                replies,
            );
            &&& taken == (color_of(table, value) is Some)
            &&& after.background == if taken {
                color_of(table, value)
            } else {
                replies.background
            }
            &&& after.foreground == replies.foreground
            &&& after.ansi == replies.ansi
            &&& after.saw_device_attributes == replies.saw_device_attributes
        }),
{
    reveal_strlit("10;");
    reveal_strlit("11;");
    reveal_strlit("10");
    reveal_strlit("11");
    assert("10;"@ + value =~= "10"@.push(';') + value);
    assert("11;"@ + value =~= "11"@.push(';') + value);
    text::lemma_split_first("10"@, ';', value);
    text::lemma_split_first("11"@, ';', value);
    text::lemma_split_one(value, ';');
    vstd::utf8::encode_utf8_valid_utf8("10;"@ + value);
    vstd::utf8::encode_utf8_valid_utf8("11;"@ + value);
    vstd::utf8::encode_utf8_decode_utf8("10;"@ + value);
    vstd::utf8::encode_utf8_decode_utf8("11;"@ + value);
    assert((seq!["10"@] + seq![value])[0] == "10"@);
    assert((seq!["11"@] + seq![value])[0] == "11"@);
    assert("11"@[1] != "10"@[1]);
}

proof fn lemma_palette_pairs(
    fields: Seq<Seq<char>>,
    index: int,
    slot: Seq<char>,
    value: Seq<char>,
    table: Seq<(Seq<char>, Color)>,
    replies: RepliesView,
    parsed: bool,
)
    requires
        0 <= index <= fields.len(),
        (fields.len() - index) % 2 == 0,
    ensures
        palette_replies(fields.push(slot).push(value), index, table, replies, parsed) == {
            let (before, any) = palette_replies(fields, index, table, replies, parsed);
            match (palette_slot(slot), color_of(table, value)) {
                (Some(number), Some(color)) => (
                    RepliesView { ansi: before.ansi.update(number as int, Some(color)), ..before },
                    true,
                ),
                _ => (before, any),
            }
        },
    decreases fields.len() - index,
{
    let whole = fields.push(slot).push(value);
    if index + 1 < fields.len() {
        assert(whole[index] == fields[index]);
        assert(whole[index + 1] == fields[index + 1]);
        let (next, any) = match (palette_slot(fields[index]), color_of(table, fields[index + 1])) {
            (Some(number), Some(color)) => (
                RepliesView { ansi: replies.ansi.update(number as int, Some(color)), ..replies },
                true,
            ),
            _ => (replies, parsed),
        };
        lemma_palette_pairs(fields, index + 2, slot, value, table, next, any);
    } else {
        assert(index == fields.len());
        assert(whole[index] == slot);
        assert(whole[index + 1] == value);
        reveal_with_fuel(palette_replies, 2);
    }
}

/// An answer about the palette is a list of slots with their colors. A slot of the sixteen whose
/// color can be read is set, a later pair of the list after an earlier one, and any other pair is
/// passed over.
pub proof fn lemma_palette_answers_are_taken(
    fields: Seq<Seq<char>>,
    slot: Seq<char>,
    value: Seq<char>,
    table: Seq<(Seq<char>, Color)>,
    replies: RepliesView,
    other: int,
)
    requires
        fields.len() % 2 == 1,
        fields[0] == "4"@,
        replies.ansi.len() == 16,
        0 <= other < 16,
    ensures
        command_replies(seq!["4"@], table, replies) == (replies, false),
        ({
            let (before, any) = command_replies(fields, table, replies);
            let (after, taken) = command_replies(fields.push(slot).push(value), table, replies);
            let number = text::unsigned_value(slot);
            let color = color_of(table, value);
            if number is Some && number->0 < 16 && color is Some {
                &&& taken
                &&& after.ansi[number->0 as int] == color
                &&& other != number->0 ==> after.ansi[other] == before.ansi[other]
                &&& after.foreground == replies.foreground
                &&& after.background == replies.background
            } else {
                after == before && taken == any
            }
        }),
{
    reveal_strlit("10");
    reveal_strlit("11");
    reveal_strlit("4");
    assert("4"@.len() == 1);
    assert("10"@.len() == 2);
    assert("11"@.len() == 2);
    assert(seq!["4"@][0] == "4"@);
    assert(fields.push(slot).push(value)[0] == "4"@);
    lemma_palette_pairs(fields, 1, slot, value, table, replies, false);
    lemma_palette_keeps(fields, 1, table, replies, false);
}

proof fn lemma_palette_keeps(
    fields: Seq<Seq<char>>,
    index: int,
    table: Seq<(Seq<char>, Color)>,
    replies: RepliesView,
    parsed: bool,
)
    requires
        replies.ansi.len() == 16,
    ensures
        ({
            let after = palette_replies(fields, index, table, replies, parsed).0;
            &&& after.ansi.len() == replies.ansi.len()
            &&& after.foreground == replies.foreground
            &&& after.background == replies.background
            &&& after.saw_device_attributes == replies.saw_device_attributes
        }),
    decreases fields.len() - index,
{
    if !(index < 0 || index + 1 >= fields.len()) {
        match (palette_slot(fields[index]), color_of(table, fields[index + 1])) {
            (Some(slot), Some(color)) => {
                lemma_palette_keeps(
                    fields,
                    index + 2,
                    table,
                    RepliesView { ansi: replies.ansi.update(slot as int, Some(color)), ..replies },
                    true,
                );
            },
            _ => {
                lemma_palette_keeps(fields, index + 2, table, replies, parsed);
            },
        }
    }
}

/// A command from the terminal ends at its first terminator: the bell, the one-byte string
/// terminator, or an escape with a backslash. Its content is what stands between.
pub proof fn lemma_command_ends_at_its_terminator(bytes: Seq<u8>, index: int, end: int)
    requires
        0 <= index,
        index + 2 <= end < bytes.len() <= usize::MAX,
        bytes[index] == 0x1b && bytes[index + 1] == 0x5d,
        forall|i: int|
            index + 2 <= i < end ==> (#[trigger] bytes[i]) != 0x07 && bytes[i] != 0x9c && bytes[i]
                != 0x1b,
    ensures
        bytes[end] == 0x07 || bytes[end] == 0x9c ==> next_piece(bytes, index) == (Piece {
            start: index as usize,
            after: (end + 1) as usize,
            kind: PieceKind::Command { start: (index + 2) as usize, end: end as usize },
        }),
        bytes[end] == 0x1b && end + 1 < bytes.len() && bytes[end + 1] == 0x5c ==> next_piece(
            bytes,
            index,
        ) == (Piece {
            start: index as usize,
            after: (end + 2) as usize,
            kind: PieceKind::Command { start: (index + 2) as usize, end: end as usize },
        }),
{
    assert forall|i: int| index + 2 <= i < end implies #[trigger] terminator_len(bytes, i) == 0 by {
        assert(bytes[i] != 0x1b);
    }
    if terminator_len(bytes, end) > 0 {
        lemma_string_end_at(bytes, index + 2, end);
    }
}

proof fn lemma_control_end_at(bytes: Seq<u8>, start: int, end: int)
    requires
        0 <= start <= end < bytes.len(),
        0x40 <= bytes[end] <= 0x7e,
        forall|i: int| start <= i < end ==> !(0x40 <= #[trigger] bytes[i] <= 0x7e),
    ensures
        control_end(bytes, start) == Some(end),
    decreases end - start,
{
    if start < end {
        assert(!(0x40 <= bytes[start] <= 0x7e));
        lemma_control_end_at(bytes, start + 1, end);
    }
}

/// The device attributes of a terminal, a control sequence of a question mark, numbers and a final
/// `c`, are recognized as such. Any other control sequence is not.
pub proof fn lemma_device_attributes_are_recognized(bytes: Seq<u8>, index: int, end: int)
    requires
        0 <= index,
        index + 2 <= end < bytes.len() <= usize::MAX,
        bytes[index] == 0x1b && bytes[index + 1] == 0x5b,
        0x40 <= bytes[end] <= 0x7e,
        forall|i: int| index + 2 <= i < end ==> !(0x40 <= #[trigger] bytes[i] <= 0x7e),
    ensures
        next_piece(bytes, index).start == index,
        next_piece(bytes, index).after == end + 1,
        next_piece(bytes, index).kind !is Command,
        next_piece(bytes, index).kind is DeviceAttributes <==> bytes[end] == 0x63 && bytes[index
            + 2] == 0x3f && (forall|i: int|
            index + 2 <= i < end ==> 0x30 <= #[trigger] bytes[i] <= 0x39 || bytes[i] == 0x3b
                || bytes[i] == 0x3f),
{
    lemma_control_end_at(bytes, index + 2, end);
    let parameters = bytes.subrange(index + 2, end);
    if index + 2 < end {
        assert(parameters[0] == bytes[index + 2]);
    }
    if reports_attributes(parameters, bytes[end]) {
        assert forall|i: int| index + 2 <= i < end implies 0x30 <= #[trigger] bytes[i] <= 0x39
            || bytes[i] == 0x3b || bytes[i] == 0x3f by {
            assert(attribute_byte(parameters[i - (index + 2)]));
        }
    }
    if forall|i: int|
        index + 2 <= i < end ==> 0x30 <= #[trigger] bytes[i] <= 0x39 || bytes[i] == 0x3b
            || bytes[i] == 0x3f {
        assert forall|i: int| 0 <= i < parameters.len() implies attribute_byte(
            #[trigger] parameters[i],
        ) by {
            assert(parameters[i] == bytes[index + 2 + i]);
        }
    }
}

/// What is typed while the terminal answers is kept in its order: only answers that are taken and
/// device attributes are left out.
pub proof fn lemma_typed_input_is_kept(
    bytes: Seq<u8>,
    list: Seq<Piece>,
    piece: Piece,
    table: Seq<(Seq<char>, Color)>,
)
    ensures
        ({
            let (before, kept) = read_pieces(bytes, list, table);
            let (after, rest) = read_pieces(bytes, list.push(piece), table);
            let whole = bytes.subrange(piece.start as int, piece.after as int);
            match piece.kind {
                PieceKind::Other => after == before && rest == kept + whole,
                PieceKind::DeviceAttributes => after.saw_device_attributes && rest == kept
                    && after.foreground == before.foreground && after.background
                    == before.background && after.ansi == before.ansi,
                PieceKind::Command { start, end } => {
                    let (told, taken) = content_replies(
                        bytes.subrange(start as int, end as int),
                        table,
                        before,
                    );
                    &&& after == told
                    &&& taken ==> rest == kept
                    &&& !taken ==> rest == kept + whole
                },
            }
        }),
{
    assert(list.push(piece).drop_last() =~= list);
}

proof fn lemma_palette_question_occurs(count: nat, slot: nat)
    requires
        slot < count,
    ensures
        text::occurs(palette_questions(count), "\x1b]4;"@ + text::decimal_text(slot) + ";?\x07"@),
    decreases count,
{
    let part = "\x1b]4;"@ + text::decimal_text(slot) + ";?\x07"@;
    let front = palette_questions((count - 1) as nat);
    let whole = palette_questions(count);
    if slot == count - 1 {
        assert(whole =~= front + part);
        assert(whole.subrange(front.len() as int, whole.len() as int) =~= part);
        assert(text::occurs_at(whole, part, front.len() as int));
    } else {
        lemma_palette_question_occurs((count - 1) as nat, slot);
        let at = choose|at: int| text::occurs_at(front, part, at);
        assert(whole.subrange(at, at + part.len()) =~= front.subrange(at, at + part.len()));
        assert(text::occurs_at(whole, part, at));
    }
}

/// A terminal is asked for both default colors and for each of the sixteen palette slots, and last of
/// all for its device attributes, whose report tells that it has answered.
pub proof fn lemma_every_color_is_asked_for(slot: nat)
    requires
        slot < 16,
    ensures
        "\x1b]10;?\x07\x1b]11;?\x07"@.is_prefix_of(theme_questions()),
        text::occurs(theme_questions(), "\x1b]4;"@ + text::decimal_text(slot) + ";?\x07"@),
        "\x1b[c"@.is_suffix_of(theme_questions()),
{
    let first = "\x1b]10;?\x07\x1b]11;?\x07"@;
    let part = "\x1b]4;"@ + text::decimal_text(slot) + ";?\x07"@;
    let palette = palette_questions(16);
    let whole = theme_questions();
    lemma_palette_question_occurs(16, slot);
    let at = choose|at: int| text::occurs_at(palette, part, at);
    assert(whole.subrange(first.len() + at, first.len() + at + part.len()) =~= palette.subrange(
        at,
        at + part.len(),
    ));
    assert(text::occurs_at(whole, part, first.len() + at));
    assert(whole.subrange(0, first.len() as int) =~= first);
    assert(whole.subrange(whole.len() - "\x1b[c"@.len(), whole.len() as int) =~= "\x1b[c"@);
}

/// Answers are read for a second at most, or for 25 milliseconds after the device attributes came,
/// in reads of at most 4096 bytes and 262144 bytes in all.
pub proof fn lemma_answers_are_awaited(query: Query, asked_at: int, now: int)
    requires
        query.deadline == asked_at + 1_000_000_000,
    ensures
        query.barrier is None ==> (query.wanted(now) is Some <==> now < asked_at + 1_000_000_000
            && query.received@.len() < 262144),
        query.barrier matches Some(came_at) ==> (query.wanted(now) is Some <==> now < asked_at
            + 1_000_000_000 && now < came_at + 25_000_000 && query.received@.len() < 262144),
        query.wanted(now) matches Some(length) ==> 0 < length <= 4096 && query.received@.len()
            + length <= 262144 && (length == 4096 || query.received@.len() + length == 262144),
{
}

/// A terminal has answered all once it has told both default colors and all sixteen palette slots.
pub proof fn lemma_answers_are_complete(replies: RepliesView, slot: int)
    requires
        replies.ansi.len() == 16,
        0 <= slot < 16,
    ensures
        replies.complete() ==> replies.foreground is Some && replies.background is Some
            && replies.ansi[slot] is Some,
        replies.foreground is Some && replies.background is Some && replies.ansi[0] is Some
            && replies.ansi[1] is Some && replies.ansi[2] is Some && replies.ansi[3] is Some
            && replies.ansi[4] is Some && replies.ansi[5] is Some && replies.ansi[6] is Some
            && replies.ansi[7] is Some && replies.ansi[8] is Some && replies.ansi[9] is Some
            && replies.ansi[10] is Some && replies.ansi[11] is Some && replies.ansi[12] is Some
            && replies.ansi[13] is Some && replies.ansi[14] is Some && replies.ansi[15] is Some
            ==> replies.complete(),
        !no_replies().complete(),
{
}

} // verus!
