//! The 3x5 bitmap font the desktop draws its text with.
use vstd::prelude::*;

verus! {

/// `char::to_ascii_uppercase`: ASCII lower-case letters become upper case,
/// every other character is kept.
pub open spec fn ascii_upper(c: char) -> char {
    if 'a' <= c && c <= 'z' {
        ((c as int) - 32) as char
    } else {
        c
    }
}

/// `char::to_ascii_lowercase`.
pub open spec fn ascii_lower(c: char) -> char {
    if 'A' <= c && c <= 'Z' {
        ((c as int) + 32) as char
    } else {
        c
    }
}

/// Upper-cases an ASCII letter and keeps every other character.
pub fn to_ascii_upper(c: char) -> (r: char)
    ensures
        r == ascii_upper(c),
{
    if 'a' <= c && c <= 'z' {
        let b: u8 = c as u8;
        (b - 32) as char
    } else {
        c
    }
}

/// Lower-cases an ASCII letter and keeps every other character.
pub fn to_ascii_lower(c: char) -> (r: char)
    ensures
        r == ascii_lower(c),
{
    if 'A' <= c && c <= 'Z' {
        let b: u8 = c as u8;
        (b + 32) as char
    } else {
        c
    }
}

/// The glyph of an upper-case character: 5 rows of 3 cells, row by row,
/// 1 where the cell is lit. Characters without a glyph are blank; every digit
/// shares one box-shaped glyph.
pub open spec fn base_pattern(c: char) -> Seq<u8> {
    if c == 'A' { seq![1,1,1, 1,0,1, 1,1,1, 1,0,1, 1,0,1] }
    else if c == 'B' { seq![1,1,0, 1,0,1, 1,1,0, 1,0,1, 1,1,0] }
    else if c == 'C' { seq![1,1,1, 1,0,0, 1,0,0, 1,0,0, 1,1,1] }
    else if c == 'D' { seq![1,1,0, 1,0,1, 1,0,1, 1,0,1, 1,1,0] }
    else if c == 'E' { seq![1,1,1, 1,0,0, 1,1,1, 1,0,0, 1,1,1] }
    else if c == 'F' { seq![1,1,1, 1,0,0, 1,1,1, 1,0,0, 1,0,0] }
    else if c == 'G' { seq![1,1,1, 1,0,0, 1,0,1, 1,0,1, 1,1,1] }
    else if c == 'H' { seq![1,0,1, 1,0,1, 1,1,1, 1,0,1, 1,0,1] }
    else if c == 'I' { seq![1,1,1, 0,1,0, 0,1,0, 0,1,0, 1,1,1] }
    else if c == 'J' { seq![0,0,1, 0,0,1, 0,0,1, 1,0,1, 1,1,1] }
    else if c == 'K' { seq![1,0,1, 1,0,1, 1,1,0, 1,0,1, 1,0,1] }
    else if c == 'L' { seq![1,0,0, 1,0,0, 1,0,0, 1,0,0, 1,1,1] }
    else if c == 'M' { seq![1,0,1, 1,1,1, 1,0,1, 1,0,1, 1,0,1] }
    else if c == 'N' { seq![1,1,1, 1,0,1, 1,0,1, 1,0,1, 1,0,1] }
    else if c == 'O' { seq![1,1,1, 1,0,1, 1,0,1, 1,0,1, 1,1,1] }
    else if c == 'P' { seq![1,1,1, 1,0,1, 1,1,1, 1,0,0, 1,0,0] }
    else if c == 'Q' { seq![1,1,1, 1,0,1, 1,1,1, 0,0,1, 0,0,1] }
    else if c == 'R' { seq![1,1,1, 1,0,1, 1,1,0, 1,0,1, 1,0,1] }
    else if c == 'S' { seq![1,1,1, 1,0,0, 1,1,1, 0,0,1, 1,1,1] }
    else if c == 'T' { seq![1,1,1, 0,1,0, 0,1,0, 0,1,0, 0,1,0] }
    else if c == 'U' { seq![1,0,1, 1,0,1, 1,0,1, 1,0,1, 1,1,1] }
    else if c == 'V' { seq![1,0,1, 1,0,1, 1,0,1, 1,0,1, 0,1,0] }
    else if c == 'W' { seq![1,0,1, 1,0,1, 1,0,1, 1,1,1, 1,0,1] }
    else if c == 'X' { seq![1,0,1, 1,0,1, 0,1,0, 1,0,1, 1,0,1] }
    else if c == 'Y' { seq![1,0,1, 1,0,1, 1,1,1, 0,1,0, 0,1,0] }
    else if c == 'Z' { seq![1,1,1, 0,0,1, 0,1,0, 1,0,0, 1,1,1] }
    else if c == '.' { seq![0,0,0, 0,0,0, 0,0,0, 0,0,0, 0,1,0] }
    else if c == ':' { seq![0,0,0, 0,1,0, 0,0,0, 0,1,0, 0,0,0] }
    else if c == '>' { seq![1,0,0, 0,1,0, 0,0,1, 0,1,0, 1,0,0] }
    else if c == '[' { seq![1,1,1, 1,0,0, 1,0,0, 1,0,0, 1,1,1] }
    else if c == ']' { seq![1,1,1, 0,0,1, 0,0,1, 0,0,1, 1,1,1] }
    else if '0' <= c && c <= '9' { seq![1,1,1, 1,0,1, 1,0,1, 1,0,1, 1,1,1] }
    else { seq![0,0,0, 0,0,0, 0,0,0, 0,0,0, 0,0,0] }
}

/// The glyph drawn for `c`: that of its ASCII upper-case form.
pub open spec fn font_pattern(c: char) -> Seq<u8> {
    base_pattern(ascii_upper(c))
}

/// Returns the 15 cells of the glyph of `c`.
pub fn get_font_pattern(c: char) -> (p: [u8; 15])
    ensures
        p@ == font_pattern(c),
{
    let u = to_ascii_upper(c);
    let p: [u8; 15] = match u {
        'A' => [1,1,1, 1,0,1, 1,1,1, 1,0,1, 1,0,1],
        'B' => [1,1,0, 1,0,1, 1,1,0, 1,0,1, 1,1,0],
        'C' => [1,1,1, 1,0,0, 1,0,0, 1,0,0, 1,1,1],
        'D' => [1,1,0, 1,0,1, 1,0,1, 1,0,1, 1,1,0],
        'E' => [1,1,1, 1,0,0, 1,1,1, 1,0,0, 1,1,1],
        'F' => [1,1,1, 1,0,0, 1,1,1, 1,0,0, 1,0,0],
        'G' => [1,1,1, 1,0,0, 1,0,1, 1,0,1, 1,1,1],
        'H' => [1,0,1, 1,0,1, 1,1,1, 1,0,1, 1,0,1],
        'I' => [1,1,1, 0,1,0, 0,1,0, 0,1,0, 1,1,1],
        'J' => [0,0,1, 0,0,1, 0,0,1, 1,0,1, 1,1,1],
        'K' => [1,0,1, 1,0,1, 1,1,0, 1,0,1, 1,0,1],
        'L' => [1,0,0, 1,0,0, 1,0,0, 1,0,0, 1,1,1],
        'M' => [1,0,1, 1,1,1, 1,0,1, 1,0,1, 1,0,1],
        'N' => [1,1,1, 1,0,1, 1,0,1, 1,0,1, 1,0,1],
        'O' => [1,1,1, 1,0,1, 1,0,1, 1,0,1, 1,1,1],
        'P' => [1,1,1, 1,0,1, 1,1,1, 1,0,0, 1,0,0],
        'Q' => [1,1,1, 1,0,1, 1,1,1, 0,0,1, 0,0,1],
        'R' => [1,1,1, 1,0,1, 1,1,0, 1,0,1, 1,0,1],
        'S' => [1,1,1, 1,0,0, 1,1,1, 0,0,1, 1,1,1],
        'T' => [1,1,1, 0,1,0, 0,1,0, 0,1,0, 0,1,0],
        'U' => [1,0,1, 1,0,1, 1,0,1, 1,0,1, 1,1,1],
        'V' => [1,0,1, 1,0,1, 1,0,1, 1,0,1, 0,1,0],
        'W' => [1,0,1, 1,0,1, 1,0,1, 1,1,1, 1,0,1],
        'X' => [1,0,1, 1,0,1, 0,1,0, 1,0,1, 1,0,1],
        'Y' => [1,0,1, 1,0,1, 1,1,1, 0,1,0, 0,1,0],
        'Z' => [1,1,1, 0,0,1, 0,1,0, 1,0,0, 1,1,1],
        '.' => [0,0,0, 0,0,0, 0,0,0, 0,0,0, 0,1,0],
        ':' => [0,0,0, 0,1,0, 0,0,0, 0,1,0, 0,0,0],
        '>' => [1,0,0, 0,1,0, 0,0,1, 0,1,0, 1,0,0],
        '[' => [1,1,1, 1,0,0, 1,0,0, 1,0,0, 1,1,1],
        ']' => [1,1,1, 0,0,1, 0,0,1, 0,0,1, 1,1,1],
        '0'..='9' => [1,1,1, 1,0,1, 1,0,1, 1,0,1, 1,1,1],
        _ => [0,0,0, 0,0,0, 0,0,0, 0,0,0, 0,0,0],
    };
    assert(p@ =~= font_pattern(c));
    p
}

} // verus!
