//! How far terminal output reaches along a row.
use crate::replay::width;
use vstd::prelude::*;

verus! {

/// Where the cursor goes along its row.
#[derive(Clone, Copy, Debug, PartialEq, Eq, Structural)]
pub enum Motion {
    Stay,
    /// To a column, counted from zero.
    To(u16),
    Right(u16),
    Left(u16),
    /// To a column that is not followed here.
    Anywhere,
}

impl Motion {
    /// How many columns the cursor has passed at most, where it had passed at most `used` of
    /// `cols`. Moving the cursor does not take it behind the last column.
    pub open spec fn reach(self, cols: u16, used: u16) -> u16 {
        let last = (cols - 1) as u16;
        match self {
            Motion::Stay => used,
            Motion::To(column) => if column < last {
                column
            } else {
                last
            },
            Motion::Right(count) => if used + count < last {
                (used + count) as u16
            } else {
                last
            },
            Motion::Left(count) => if used < count {
                0
            } else {
                (used - count) as u16
            },
            Motion::Anywhere => cols,
        }
    }

    fn passed(self, cols: u16, used: u16) -> (reach: u16)
        requires
            cols > 0,
            used <= cols,
        ensures
            reach == self.reach(cols, used),
            reach <= cols,
    {
        let last: u16 = cols - 1;
        match self {
            Motion::Stay => used,
            Motion::To(column) => if column < last {
                column
            } else {
                last
            },
            Motion::Right(count) => if last > used && count < last - used {
                used + count
            } else {
                last
            },
            Motion::Left(count) => if used < count {
                0
            } else {
                used - count
            },
            Motion::Anywhere => cols,
        }
    }
}

/// What a search through an escape sequence looks for.
#[derive(Clone, Copy, Debug, PartialEq, Eq, Structural)]
pub enum Stop {
    /// The byte that tells the kind of the sequence.
    Kind,
    /// The last byte of a sequence with intermediate bytes.
    Intermediate,
    /// The last byte of a control sequence.
    Control,
    /// The end of an operating system command.
    Command,
    /// The end of a device control string.
    Device,
    /// The end of any other string.
    Text,
}

impl Stop {
    /// Whether a byte is found. Every sequence can be cancelled, or broken off by the next one.
    pub open spec fn at(self, byte: u8) -> bool {
        byte == 0x18 || byte == 0x1a || byte == 0x1b || match self {
            Stop::Kind => 0x20 <= byte < 0x7f,
            Stop::Intermediate => 0x30 <= byte < 0x7f,
            Stop::Control => 0x40 <= byte < 0x7f,
            Stop::Command => byte == 0x07,
            Stop::Device => byte == 0x9c,
            Stop::Text => false,
        }
    }

    fn is_at(self, byte: u8) -> (found: bool)
        ensures
            found == self.at(byte),
    {
        byte == 0x18 || byte == 0x1a || byte == 0x1b || match self {
            Stop::Kind => 0x20 <= byte && byte < 0x7f,
            Stop::Intermediate => 0x30 <= byte && byte < 0x7f,
            Stop::Control => 0x40 <= byte && byte < 0x7f,
            Stop::Command => byte == 0x07,
            Stop::Device => byte == 0x9c,
            Stop::Text => false,
        }
    }
}

/// Where the search ends that begins at `index`: at a byte that is found, or at the end of output.
pub open spec fn find(output: Seq<u8>, index: int, stop: Stop) -> int
    decreases output.len() - index,
{
    if 0 <= index < output.len() && !stop.at(output[index]) {
        find(output, index + 1, stop)
    } else {
        index
    }
}

/// Where a run of bytes from `low` up to `high` ends that begins at `index`.
pub open spec fn run_end(output: Seq<u8>, index: int, low: u8, high: u8) -> int
    decreases output.len() - index,
{
    if 0 <= index < output.len() && low <= output[index] <= high {
        run_end(output, index + 1, low, high)
    } else {
        index
    }
}

/// The number that the digits from `index` up to `end` write, no more than sixteen bits hold.
pub open spec fn number(output: Seq<u8>, index: int, end: int) -> u16
    decreases end - index,
{
    if end <= index {
        0
    } else {
        let value = number(output, index, end - 1) * 10 + (output[end - 1] - 0x30);
        if value < 65535 {
            value as u16
        } else {
            65535
        }
    }
}

/// The number at `index`. None, and zero, mean one.
pub open spec fn count_at(output: Seq<u8>, index: int) -> u16 {
    let value = number(output, index, run_end(output, index, 0x30, 0x39));
    if value == 0 {
        1
    } else {
        value
    }
}

/// How switching a mode on or off moves the cursor along its row.
pub open spec fn mode_motion(mode: u16, on: bool) -> Motion {
    if mode == 6 || (mode == 1049 && on) {
        Motion::To(0)
    } else if mode == 47 || mode == 1049 {
        Motion::Anywhere
    } else {
        Motion::Stay
    }
}

/// How switching the modes that are listed from `index` up to `end` moves the cursor along its row.
/// No more than `left` of them are followed.
pub open spec fn modes_motion(output: Seq<u8>, index: int, end: int, on: bool, left: nat) -> Motion
    decreases left,
{
    let stop = run_end(output, index, 0x30, 0x39);
    let motion = mode_motion(number(output, index, stop), on);
    if left == 0 {
        Motion::Anywhere
    } else if stop == end {
        motion
    } else if stop > end || output[stop] != 0x3b {
        Motion::Anywhere
    } else {
        let rest = modes_motion(output, stop + 1, end, on, (left - 1) as nat);
        if rest == Motion::Stay {
            motion
        } else {
            rest
        }
    }
}

/// How a control sequence moves the cursor along its row. Its parameters stand from `index` up to
/// its last byte at `end`.
pub open spec fn control_motion(output: Seq<u8>, index: int, end: int) -> Motion {
    let last = output[end];
    if index < end && output[index] == 0x3f {
        if last == 0x68 || last == 0x6c {
            modes_motion(output, index + 1, end, last == 0x68, 16)
        } else {
            Motion::Stay
        }
    } else if run_end(output, index, 0x30, 0x3b) != end {
        Motion::Stay
    } else if last == 0x43 {
        Motion::Right(count_at(output, index))
    } else if last == 0x44 {
        Motion::Left(count_at(output, index))
    } else if last == 0x45 || last == 0x46 || last == 0x72 {
        Motion::To(0)
    } else if last == 0x47 {
        Motion::To((count_at(output, index) - 1) as u16)
    } else if last == 0x48 {
        let first = run_end(output, index, 0x30, 0x3a);
        Motion::To(
            if first < end {
                (count_at(output, first + 1) - 1) as u16
            } else {
                0
            },
        )
    } else {
        Motion::Stay
    }
}

/// What an escape sequence at `index` does: where output goes on behind it, and how it moves the
/// cursor along its row. Nothing is told of two that `vt100` may read either way: one whose escape
/// stands between bytes beyond ASCII, which it may drop, and a device control string that holds
/// `0x9c`, which may end it. Controls within a sequence, saved positions and switches between
/// screens are not followed.
pub open spec fn escape(output: Seq<u8>, index: int) -> Option<(int, Motion)> {
    let kind = find(output, index + 1, Stop::Kind);
    let still = if kind == index + 1 {
        Motion::Stay
    } else {
        Motion::Anywhere
    };
    if may_drop(output, index) {
        None
    } else if kind >= output.len() {
        Some((output.len() as int, Motion::Anywhere))
    } else if output[kind] == 0x1b {
        Some((kind, still))
    } else if output[kind] == 0x18 || output[kind] == 0x1a {
        Some((kind + 1, still))
    } else {
        let stop = match output[kind] {
            0x5b => Some(Stop::Control),
            0x5d => Some(Stop::Command),
            0x50 => Some(Stop::Device),
            0x58 | 0x5e | 0x5f => Some(Stop::Text),
            byte => if byte < 0x30 {
                Some(Stop::Intermediate)
            } else {
                None
            },
        };
        match stop {
            None => Some(
                (
                    kind + 1,
                    if still == Motion::Anywhere || output[kind] == 0x38 {
                        Motion::Anywhere
                    } else if output[kind] == 0x63 {
                        Motion::To(0)
                    } else {
                        Motion::Stay
                    },
                ),
            ),
            Some(stop) => {
                let end = find(output, kind + 1, stop);
                if end >= output.len() {
                    Some((output.len() as int, Motion::Anywhere))
                } else if stop == Stop::Device && output[end] == 0x9c {
                    None
                } else {
                    Some(
                        (
                            if output[end] == 0x1b {
                                end
                            } else {
                                end + 1
                            },
                            if still == Motion::Anywhere {
                                Motion::Anywhere
                            } else if stop == Stop::Control {
                                if output[end] < 0x40 || run_end(output, kind + 1, 0x20, 0x3f)
                                    != end {
                                    Motion::Anywhere
                                } else {
                                    control_motion(output, kind + 1, end)
                                }
                            } else if stop == Stop::Intermediate && (output[end] < 0x30 || run_end(
                                output,
                                kind + 1,
                                0x20,
                                0x2f,
                            ) != end) {
                                Motion::Anywhere
                            } else {
                                Motion::Stay
                            },
                        ),
                    )
                }
            },
        }
    }
}

/// Whether the byte at `index` stands directly between bytes beyond ASCII. Where a character before
/// it is fed in two parts, `vt100` may drop it.
pub open spec fn may_drop(output: Seq<u8>, index: int) -> bool {
    0 < index < output.len() - 1 && output[index - 1] >= 0x80 && output[index + 1] >= 0x80
}

/// How many columns the cursor has passed at most after a control byte at `index`.
pub open spec fn controlled(cols: u16, output: Seq<u8>, used: u16, index: int) -> u16 {
    let after = if output[index] == 0x0d {
        0u16
    } else if output[index] == 0x08 {
        Motion::Left(1).reach(cols, used)
    } else if output[index] == 0x09 {
        Motion::Right((8 - used % 8) as u16).reach(cols, used)
    } else {
        used
    };
    if may_drop(output, index) && after < used {
        used
    } else {
        after
    }
}

/// How many bytes the character at `index` takes: those that its first byte announces, where they
/// follow, and otherwise the first one alone.
pub open spec fn char_length(output: Seq<u8>, index: int) -> int {
    let announced: int = if output[index] < 0xc0 || output[index] >= 0xf8 {
        1
    } else if output[index] < 0xe0 {
        2
    } else if output[index] < 0xf0 {
        3
    } else {
        4
    };
    if index + announced <= output.len() && run_end(output, index + 1, 0x80, 0xbf) >= index
        + announced {
        announced
    } else {
        1
    }
}

/// The character of two, three or four bytes at `index`.
pub open spec fn char_code(output: Seq<u8>, index: int) -> u32 {
    let length = char_length(output, index);
    if length == 2 {
        ((output[index] - 0xc0) * 64 + (output[index + 1] - 0x80)) as u32
    } else if length == 3 {
        ((output[index] - 0xe0) * 4096 + (output[index + 1] - 0x80) * 64 + (output[index + 2]
            - 0x80)) as u32
    } else {
        ((output[index] - 0xf0) * 262144 + (output[index + 1] - 0x80) * 4096 + (output[index + 2]
            - 0x80) * 64 + (output[index + 3] - 0x80)) as u32
    }
}

/// How many columns the text at `index` takes. Bytes that are no character take none.
pub open spec fn char_columns(output: Seq<u8>, index: int) -> u16 {
    if output[index] < 0x80 {
        if output[index] == 0x7f {
            0
        } else {
            1
        }
    } else if char_length(output, index) == 1 {
        0
    } else {
        width::columns(char_code(output, index))
    }
}

/// Whether the text of output from `index` on fits on a screen whose rows hold `cols` columns: each
/// character into a row, and, where there is only one row, into what is left of it behind the
/// `used` columns that the cursor has passed at most.
pub open spec fn fits(single: bool, cols: u16, output: Seq<u8>, used: u16, index: int) -> bool
    decreases output.len() - index,
{
    if index < 0 || index >= output.len() {
        true
    } else if output[index] == 0x1b {
        match escape(output, index) {
            Some((next, motion)) => next > index && fits(
                single,
                cols,
                output,
                motion.reach(cols, used),
                next,
            ),
            None => false,
        }
    } else if output[index] < 0x20 {
        fits(single, cols, output, controlled(cols, output, used, index), index + 1)
    } else {
        let columns = char_columns(output, index);
        &&& columns <= cols
        &&& single ==> used + columns <= cols
        &&& fits(
            single,
            cols,
            output,
            if !single {
                used
            } else if columns > 2 {
                (used + 2) as u16
            } else {
                (used + columns) as u16
            },
            index + char_length(output, index),
        )
    }
}

fn find_stop(output: &[u8], from: usize, stop: Stop) -> (end: usize)
    requires
        from <= output@.len(),
    ensures
        end == find(output@, from as int, stop),
        from <= end <= output@.len(),
{
    let mut index: usize = from;
    while index < output.len() && !stop.is_at(output[index])
        invariant
            from <= index <= output@.len(),
            find(output@, index as int, stop) == find(output@, from as int, stop),
        decreases output@.len() - index,
    {
        index += 1;
    }
    index
}

fn find_run_end(output: &[u8], from: usize, low: u8, high: u8) -> (end: usize)
    requires
        from <= output@.len(),
    ensures
        end == run_end(output@, from as int, low, high),
        from <= end <= output@.len(),
        forall|i: int| from <= i < end ==> low <= #[trigger] output@[i] <= high,
{
    let mut index: usize = from;
    while index < output.len() && output[index] >= low && output[index] <= high
        invariant
            from <= index <= output@.len(),
            run_end(output@, index as int, low, high) == run_end(output@, from as int, low, high),
            forall|i: int| from <= i < index ==> low <= #[trigger] output@[i] <= high,
        decreases output@.len() - index,
    {
        index += 1;
    }
    index
}

/// Reads the digits at `from`, and where they end.
fn read_number(output: &[u8], from: usize) -> (read: (u16, usize))
    requires
        from <= output@.len(),
    ensures
        read.1 == run_end(output@, from as int, 0x30, 0x39),
        read.0 == number(output@, from as int, read.1 as int),
        from <= read.1 <= output@.len(),
{
    let end = find_run_end(output, from, 0x30, 0x39);
    let mut value: u16 = 0;
    let mut index: usize = from;
    while index < end
        invariant
            from <= index <= end <= output@.len(),
            forall|i: int| from <= i < end ==> 0x30 <= #[trigger] output@[i] <= 0x39,
            value == number(output@, from as int, index as int),
        decreases end - index,
    {
        let next: u32 = value as u32 * 10 + (output[index] - 0x30) as u32;
        value = if next < 65535 {
            next as u16
        } else {
            65535
        };
        index += 1;
    }
    (value, end)
}

fn read_count(output: &[u8], from: usize) -> (count: u16)
    requires
        from <= output@.len(),
    ensures
        count == count_at(output@, from as int),
        count > 0,
{
    let (value, _) = read_number(output, from);
    if value == 0 {
        1
    } else {
        value
    }
}

fn read_modes(output: &[u8], from: usize, end: usize, on: bool, left: u8) -> (motion: Motion)
    requires
        from <= end < output@.len(),
    ensures
        motion == modes_motion(output@, from as int, end as int, on, left as nat),
    decreases left,
{
    if left == 0 {
        return Motion::Anywhere;
    }
    let (mode, stop) = read_number(output, from);
    let motion = if mode == 6 || (mode == 1049 && on) {
        Motion::To(0)
    } else if mode == 47 || mode == 1049 {
        Motion::Anywhere
    } else {
        Motion::Stay
    };
    if stop == end {
        return motion;
    }
    if stop > end || output[stop] != 0x3b {
        return Motion::Anywhere;
    }
    let rest = read_modes(output, stop + 1, end, on, left - 1);
    if rest == Motion::Stay {
        motion
    } else {
        rest
    }
}

fn read_control(output: &[u8], from: usize, end: usize) -> (motion: Motion)
    requires
        from <= end < output@.len(),
    ensures
        motion == control_motion(output@, from as int, end as int),
{
    let last = output[end];
    if from < end && output[from] == 0x3f {
        if last != 0x68 && last != 0x6c {
            return Motion::Stay;
        }
        return read_modes(output, from + 1, end, last == 0x68, 16);
    }
    if find_run_end(output, from, 0x30, 0x3b) != end {
        return Motion::Stay;
    }
    if last == 0x43 {
        Motion::Right(read_count(output, from))
    } else if last == 0x44 {
        Motion::Left(read_count(output, from))
    } else if last == 0x45 || last == 0x46 || last == 0x72 {
        Motion::To(0)
    } else if last == 0x47 {
        Motion::To(read_count(output, from) - 1)
    } else if last == 0x48 {
        let first = find_run_end(output, from, 0x30, 0x3a);
        if first < end {
            Motion::To(read_count(output, first + 1) - 1)
        } else {
            Motion::To(0)
        }
    } else {
        Motion::Stay
    }
}

fn is_droppable(output: &[u8], index: usize) -> (droppable: bool)
    requires
        index < output@.len(),
    ensures
        droppable == may_drop(output@, index as int),
{
    index > 0 && output.len() - index > 1 && output[index - 1] >= 0x80 && output[index + 1] >= 0x80
}

fn read_escape(output: &[u8], index: usize) -> (read: Option<(usize, Motion)>)
    requires
        index < output@.len(),
    ensures
        (match read {
            Some((next, motion)) => Some((next as int, motion)),
            None => None,
        }) == escape(output@, index as int),
        read matches Some((next, _)) ==> index < next <= output@.len(),
{
    let total: usize = output.len();
    if is_droppable(output, index) {
        return None;
    }
    let kind = find_stop(output, index + 1, Stop::Kind);
    if kind >= total {
        return Some((total, Motion::Anywhere));
    }
    let clean = kind == index + 1;
    let still = if clean {
        Motion::Stay
    } else {
        Motion::Anywhere
    };
    let byte = output[kind];
    if byte == 0x1b {
        return Some((kind, still));
    }
    if byte == 0x18 || byte == 0x1a {
        return Some((kind + 1, still));
    }
    let stop = match byte {
        0x5b => Stop::Control,
        0x5d => Stop::Command,
        0x50 => Stop::Device,
        0x58 | 0x5e | 0x5f => Stop::Text,
        _ => {
            if byte >= 0x30 {
                let motion = if !clean || byte == 0x38 {
                    Motion::Anywhere
                } else if byte == 0x63 {
                    Motion::To(0)
                } else {
                    Motion::Stay
                };
                return Some((kind + 1, motion));
            }
            Stop::Intermediate
        },
    };
    let end = find_stop(output, kind + 1, stop);
    if end >= total {
        return Some((total, Motion::Anywhere));
    }
    let last = output[end];
    if stop == Stop::Device && last == 0x9c {
        return None;
    }
    let motion = if !clean {
        Motion::Anywhere
    } else if stop == Stop::Control {
        if last < 0x40 || find_run_end(output, kind + 1, 0x20, 0x3f) != end {
            Motion::Anywhere
        } else {
            read_control(output, kind + 1, end)
        }
    } else if stop == Stop::Intermediate && (last < 0x30 || find_run_end(
        output,
        kind + 1,
        0x20,
        0x2f,
    ) != end) {
        Motion::Anywhere
    } else {
        Motion::Stay
    };
    let next: usize = if last == 0x1b {
        end
    } else {
        end + 1
    };
    Some((next, motion))
}

fn control(cols: u16, output: &[u8], used: u16, index: usize) -> (after: u16)
    requires
        cols > 0,
        used <= cols,
        index < output@.len(),
    ensures
        after == controlled(cols, output@, used, index as int),
        after <= cols,
{
    let byte = output[index];
    let after: u16 = if byte == 0x0d {
        0
    } else if byte == 0x08 {
        Motion::Left(1).passed(cols, used)
    } else if byte == 0x09 {
        Motion::Right(8 - used % 8).passed(cols, used)
    } else {
        used
    };
    if after < used && is_droppable(output, index) {
        used
    } else {
        after
    }
}

fn read_length(output: &[u8], index: usize) -> (length: usize)
    requires
        index < output@.len(),
    ensures
        length == char_length(output@, index as int),
        1 <= length <= 4,
        index + length <= output@.len(),
        length > 1 ==> 0xc0 <= output@[index as int] < 0xf8,
        length == 2 ==> output@[index as int] < 0xe0,
        length == 3 ==> 0xe0 <= output@[index as int] < 0xf0,
        length == 4 ==> 0xf0 <= output@[index as int],
        forall|i: int| index < i < index + length ==> 0x80 <= #[trigger] output@[i] <= 0xbf,
{
    let byte = output[index];
    let announced: usize = if byte < 0xc0 || byte >= 0xf8 {
        1
    } else if byte < 0xe0 {
        2
    } else if byte < 0xf0 {
        3
    } else {
        4
    };
    let end = find_run_end(output, index + 1, 0x80, 0xbf);
    if announced <= output.len() - index && end - index >= announced {
        announced
    } else {
        1
    }
}

fn read_columns(output: &[u8], index: usize) -> (read: (u16, usize))
    requires
        index < output@.len(),
    ensures
        read.0 == char_columns(output@, index as int),
        read.1 == char_length(output@, index as int),
        1 <= read.1,
        index + read.1 <= output@.len(),
        read.0 <= 3,
{
    let length = read_length(output, index);
    let byte = output[index];
    if byte < 0x80 {
        let columns: u16 = if byte == 0x7f {
            0
        } else {
            1
        };
        return (columns, length);
    }
    if length == 1 {
        return (0, length);
    }
    let second = (output[index + 1] - 0x80) as u32;
    let code: u32 = if length == 2 {
        (byte - 0xc0) as u32 * 64 + second
    } else {
        let third = (output[index + 2] - 0x80) as u32;
        if length == 3 {
            (byte - 0xe0) as u32 * 4096 + second * 64 + third
        } else {
            let fourth = (output[index + 3] - 0x80) as u32;
            (byte - 0xf0) as u32 * 262144 + second * 4096 + third * 64 + fourth
        }
    };
    (width::count_columns(code), length)
}

/// Whether the text of output fits on a screen whose rows hold `cols` columns.
pub fn is_fit(single: bool, cols: u16, output: &[u8]) -> (result: bool)
    requires
        cols > 0,
    ensures
        result == fits(single, cols, output@, 0, 0),
{
    let mut used: u16 = 0;
    let mut index: usize = 0;
    while index < output.len()
        invariant
            index <= output@.len(),
            cols > 0,
            used <= cols,
            fits(single, cols, output@, used, index as int) == fits(single, cols, output@, 0, 0),
        decreases output@.len() - index,
    {
        let byte = output[index];
        if byte == 0x1b {
            match read_escape(output, index) {
                Some((next, motion)) => {
                    used = motion.passed(cols, used);
                    index = next;
                },
                None => {
                    return false;
                },
            }
        } else if byte < 0x20 {
            used = control(cols, output, used, index);
            index += 1;
        } else {
            let (columns, length) = read_columns(output, index);
            if columns > cols {
                return false;
            }
            if single {
                if columns > cols - used {
                    return false;
                }
                used += if columns > 2 {
                    2
                } else {
                    columns
                };
            }
            index += length;
        }
    }
    true
}

} // verus!
