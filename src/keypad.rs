use vstd::prelude::*;

verus! {

/// The keypad code of a host key: the rows `1234`, `qwer`, `asdf`, `zxcv`
/// of a keyboard give the codes 0 to F in reading order.
pub open spec fn keypad_layout(c: char) -> Option<u8> {
    if c == '1' {
        Some(0x0u8)
    } else if c == '2' {
        Some(0x1u8)
    } else if c == '3' {
        Some(0x2u8)
    } else if c == '4' {
        Some(0x3u8)
    } else if c == 'q' {
        Some(0x4u8)
    } else if c == 'w' {
        Some(0x5u8)
    } else if c == 'e' {
        Some(0x6u8)
    } else if c == 'r' {
        Some(0x7u8)
    } else if c == 'a' {
        Some(0x8u8)
    } else if c == 's' {
        Some(0x9u8)
    } else if c == 'd' {
        Some(0xAu8)
    } else if c == 'f' {
        Some(0xBu8)
    } else if c == 'z' {
        Some(0xCu8)
    } else if c == 'x' {
        Some(0xDu8)
    } else if c == 'c' {
        Some(0xEu8)
    } else if c == 'v' {
        Some(0xFu8)
    } else {
        None
    }
}

/// Maps a host key to its keypad code; other keys have none.
pub fn key_for(c: char) -> (r: Option<u8>)
    ensures
        r == keypad_layout(c),
        r matches Some(k) ==> k < 16,
{
    match c {
        '1' => Some(0x0),
        '2' => Some(0x1),
        '3' => Some(0x2),
        '4' => Some(0x3),
        'q' => Some(0x4),
        'w' => Some(0x5),
        'e' => Some(0x6),
        'r' => Some(0x7),
        'a' => Some(0x8),
        's' => Some(0x9),
        'd' => Some(0xA),
        'f' => Some(0xB),
        'z' => Some(0xC),
        'x' => Some(0xD),
        'c' => Some(0xE),
        'v' => Some(0xF),
        _ => None,
    }
}

} // verus!
