//! How many columns a character takes on the screen.
use vstd::prelude::*;

verus! {

/// Whether a symbol takes two columns.
pub open spec fn wide_symbol(code: u32) -> bool {
    ||| 0x231a <= code <= 0x231b
    ||| 0x2329 <= code <= 0x232a
    ||| 0x23e9 <= code <= 0x23ec
    ||| code == 0x23f0
    ||| code == 0x23f3
    ||| 0x25fd <= code <= 0x25fe
    ||| 0x2614 <= code <= 0x2615
    ||| 0x2630 <= code <= 0x2637
    ||| 0x2648 <= code <= 0x2653
    ||| code == 0x267f
    ||| 0x268a <= code <= 0x268f
    ||| code == 0x2693
    ||| code == 0x26a1
    ||| 0x26aa <= code <= 0x26ab
    ||| 0x26bd <= code <= 0x26be
    ||| 0x26c4 <= code <= 0x26c5
    ||| code == 0x26ce
    ||| code == 0x26d4
    ||| code == 0x26ea
    ||| 0x26f2 <= code <= 0x26f3
    ||| code == 0x26f5
    ||| code == 0x26fa
    ||| code == 0x26fd
    ||| code == 0x2705
    ||| 0x270a <= code <= 0x270b
    ||| code == 0x2728
    ||| code == 0x274c
    ||| code == 0x274e
    ||| 0x2753 <= code <= 0x2755
    ||| code == 0x2757
    ||| 0x2795 <= code <= 0x2797
    ||| code == 0x27b0
    ||| code == 0x27bf
    ||| 0x2b1b <= code <= 0x2b1c
    ||| code == 0x2b50
    ||| code == 0x2b55
}

fn is_wide_symbol(code: u32) -> (wide: bool)
    ensures
        wide == wide_symbol(code),
{
    (0x231a <= code && code <= 0x231b) || (0x2329 <= code && code <= 0x232a)
        || (0x23e9 <= code && code <= 0x23ec) || code == 0x23f0 || code == 0x23f3
        || (0x25fd <= code && code <= 0x25fe) || (0x2614 <= code && code <= 0x2615)
        || (0x2630 <= code && code <= 0x2637) || (0x2648 <= code && code <= 0x2653)
        || code == 0x267f || (0x268a <= code && code <= 0x268f) || code == 0x2693
        || code == 0x26a1 || (0x26aa <= code && code <= 0x26ab)
        || (0x26bd <= code && code <= 0x26be) || (0x26c4 <= code && code <= 0x26c5)
        || code == 0x26ce || code == 0x26d4 || code == 0x26ea
        || (0x26f2 <= code && code <= 0x26f3) || code == 0x26f5 || code == 0x26fa
        || code == 0x26fd || code == 0x2705 || (0x270a <= code && code <= 0x270b)
        || code == 0x2728 || code == 0x274c || code == 0x274e
        || (0x2753 <= code && code <= 0x2755) || code == 0x2757
        || (0x2795 <= code && code <= 0x2797) || code == 0x27b0 || code == 0x27bf
        || (0x2b1b <= code && code <= 0x2b1c) || code == 0x2b50 || code == 0x2b55
}

/// Whether a character of a script takes two columns: ideographs, syllables and full-width forms.
pub open spec fn wide_script(code: u32) -> bool {
    ||| 0x1100 <= code <= 0x115f
    ||| code == 0x17a4
    ||| 0x2e80 <= code <= 0x3029
    ||| 0x3030 <= code <= 0x303e
    ||| 0x3041 <= code <= 0x3096
    ||| 0x309b <= code <= 0x3163
    ||| 0x3165 <= code <= 0x3247
    ||| 0x3250 <= code <= 0xa4c6
    ||| 0xa960 <= code <= 0xa97c
    ||| 0xac00 <= code <= 0xd7a3
    ||| 0xf900 <= code <= 0xfaff
    ||| 0xfe10 <= code <= 0xfe19
    ||| 0xfe30 <= code <= 0xfe6b
    ||| 0xff01 <= code <= 0xff60
    ||| 0xffe0 <= code <= 0xffe6
    ||| 0x16fe0 <= code <= 0x16fe3
    ||| 0x16ff2 <= code <= 0x18d20
    ||| 0x18d80 <= code <= 0x191d2
    ||| 0x1aff0 <= code <= 0x1b2fb
    ||| 0x1d300 <= code <= 0x1d376
    ||| 0x20000 <= code <= 0x3fffd
}

fn is_wide_script(code: u32) -> (wide: bool)
    ensures
        wide == wide_script(code),
{
    (0x1100 <= code && code <= 0x115f) || code == 0x17a4 || (0x2e80 <= code && code <= 0x3029)
        || (0x3030 <= code && code <= 0x303e) || (0x3041 <= code && code <= 0x3096)
        || (0x309b <= code && code <= 0x3163) || (0x3165 <= code && code <= 0x3247)
        || (0x3250 <= code && code <= 0xa4c6) || (0xa960 <= code && code <= 0xa97c)
        || (0xac00 <= code && code <= 0xd7a3) || (0xf900 <= code && code <= 0xfaff)
        || (0xfe10 <= code && code <= 0xfe19) || (0xfe30 <= code && code <= 0xfe6b)
        || (0xff01 <= code && code <= 0xff60) || (0xffe0 <= code && code <= 0xffe6)
        || (0x16fe0 <= code && code <= 0x16fe3) || (0x16ff2 <= code && code <= 0x18d20)
        || (0x18d80 <= code && code <= 0x191d2) || (0x1aff0 <= code && code <= 0x1b2fb)
        || (0x1d300 <= code && code <= 0x1d376) || (0x20000 <= code && code <= 0x3fffd)
}

/// Whether a pictograph takes two columns.
pub open spec fn wide_emoji(code: u32) -> bool {
    ||| code == 0x1f004
    ||| code == 0x1f0cf
    ||| code == 0x1f18e
    ||| 0x1f191 <= code <= 0x1f19a
    ||| code == 0x1f1ae
    ||| 0x1f200 <= code <= 0x1f265
    ||| 0x1f300 <= code <= 0x1f320
    ||| 0x1f32d <= code <= 0x1f335
    ||| 0x1f337 <= code <= 0x1f37c
    ||| 0x1f37e <= code <= 0x1f393
    ||| 0x1f3a0 <= code <= 0x1f3ca
    ||| 0x1f3cf <= code <= 0x1f3d3
    ||| 0x1f3e0 <= code <= 0x1f3f0
    ||| code == 0x1f3f4
    ||| 0x1f3f8 <= code <= 0x1f43e
    ||| code == 0x1f440
    ||| 0x1f442 <= code <= 0x1f4fc
    ||| 0x1f4ff <= code <= 0x1f53d
    ||| 0x1f54b <= code <= 0x1f54e
    ||| 0x1f550 <= code <= 0x1f567
    ||| code == 0x1f57a
    ||| 0x1f595 <= code <= 0x1f596
    ||| code == 0x1f5a4
    ||| 0x1f5fb <= code <= 0x1f64f
    ||| 0x1f680 <= code <= 0x1f6c5
    ||| code == 0x1f6cc
    ||| 0x1f6d0 <= code <= 0x1f6d2
    ||| 0x1f6d5 <= code <= 0x1f6df
    ||| 0x1f6eb <= code <= 0x1f6ec
    ||| 0x1f6f4 <= code <= 0x1f6fc
    ||| 0x1f7da <= code <= 0x1f7f0
    ||| 0x1f90c <= code <= 0x1f93a
    ||| 0x1f93c <= code <= 0x1f945
    ||| 0x1f947 <= code <= 0x1f9ff
    ||| 0x1fa70 <= code <= 0x1fafa
}

fn is_wide_emoji(code: u32) -> (wide: bool)
    ensures
        wide == wide_emoji(code),
{
    code == 0x1f004 || code == 0x1f0cf || code == 0x1f18e || (0x1f191 <= code && code <= 0x1f19a)
        || code == 0x1f1ae || (0x1f200 <= code && code <= 0x1f265)
        || (0x1f300 <= code && code <= 0x1f320) || (0x1f32d <= code && code <= 0x1f335)
        || (0x1f337 <= code && code <= 0x1f37c) || (0x1f37e <= code && code <= 0x1f393)
        || (0x1f3a0 <= code && code <= 0x1f3ca) || (0x1f3cf <= code && code <= 0x1f3d3)
        || (0x1f3e0 <= code && code <= 0x1f3f0) || code == 0x1f3f4
        || (0x1f3f8 <= code && code <= 0x1f43e) || code == 0x1f440
        || (0x1f442 <= code && code <= 0x1f4fc) || (0x1f4ff <= code && code <= 0x1f53d)
        || (0x1f54b <= code && code <= 0x1f54e) || (0x1f550 <= code && code <= 0x1f567)
        || code == 0x1f57a || (0x1f595 <= code && code <= 0x1f596) || code == 0x1f5a4
        || (0x1f5fb <= code && code <= 0x1f64f) || (0x1f680 <= code && code <= 0x1f6c5)
        || code == 0x1f6cc || (0x1f6d0 <= code && code <= 0x1f6d2)
        || (0x1f6d5 <= code && code <= 0x1f6df) || (0x1f6eb <= code && code <= 0x1f6ec)
        || (0x1f6f4 <= code && code <= 0x1f6fc) || (0x1f7da <= code && code <= 0x1f7f0)
        || (0x1f90c <= code && code <= 0x1f93a) || (0x1f93c <= code && code <= 0x1f945)
        || (0x1f947 <= code && code <= 0x1f9ff) || (0x1fa70 <= code && code <= 0x1fafa)
}

/// Whether a character is one of the usual marks that take no column: combining marks, joiners and
/// variation selectors.
pub open spec fn joins_before(code: u32) -> bool {
    ||| 0x300 <= code <= 0x36f
    ||| 0x200b <= code <= 0x200f
    ||| 0x20d0 <= code <= 0x20f0
    ||| 0xfe00 <= code <= 0xfe0f
}

/// How many columns a character of more than one byte takes at most: none for the usual marks, two
/// or three for wide characters, and otherwise one.
pub open spec fn columns(code: u32) -> u16 {
    if joins_before(code) {
        0
    } else if code == 0x17d8 {
        3
    } else if wide_symbol(code) || wide_script(code) || wide_emoji(code) {
        2
    } else {
        1
    }
}

/// How many columns a character takes at most.
pub fn count_columns(code: u32) -> (count: u16)
    ensures
        count == columns(code),
{
    if (0x300 <= code && code <= 0x36f) || (0x200b <= code && code <= 0x200f) || (0x20d0 <= code
        && code <= 0x20f0) || (0xfe00 <= code && code <= 0xfe0f) {
        0
    } else if code == 0x17d8 {
        3
    } else if is_wide_symbol(code) || is_wide_script(code) || is_wide_emoji(code) {
        2
    } else {
        1
    }
}

} // verus!
