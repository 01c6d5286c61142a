//! The 5-column font used by the text scroller.
//!
//! Each letter is up to five columns of pixels, bit 0 at the top. A column
//! equal to `END_MARKER` ends a narrower letter; a column above it is drawn
//! two rows lower (for descenders).
use vstd::prelude::*;

verus! {

/// Widest letter in columns.
pub const MAX_WIDTH: usize = 5;

/// Column value that ends a letter narrower than `MAX_WIDTH`.
pub const END_MARKER: u8 = 0x80;

pub const ASCII_PRINTABLE: [[u8; MAX_WIDTH]; 95] = [
    // SPACE
    [0b00000000, END_MARKER, 0, 0, 0],
    // EXCL
    [0b01011111, END_MARKER, 0, 0, 0],
    // "
    [0b00000011, 0b00000000, 0b00000011, END_MARKER, 0],
    // #
    [0b00010100, 0b01111111, 0b00010100, 0b01111111, 0b00010100],
    // $
    [0b00100110, 0b01001001, 0b01111111, 0b01001001, 0b00110010],
    // %
    [0b00100010, 0b00010000, 0b00001000, 0b00000100, 0b00100010],
    // &
    [0b00110110, 0b01001001, 0b01010001, 0b00100010, 0b01010000],
    // '
    [0b00000011, END_MARKER, 0, 0, 0],
    // (
    [0b00111110, 0b01000001, END_MARKER, 0, 0],
    // )
    [0b01000001, 0b00111110, END_MARKER, 0, 0],
    // *
    [0b00101010, 0b00011100, 0b01111111, 0b00011100, 0b00101010],
    // +
    [0b00001000, 0b00001000, 0b00111110, 0b00001000, 0b00001000],
    // ,
    [0b10110000, END_MARKER, 0, 0, 0],
    // -
    [0b00001000, 0b00001000, 0b00001000, END_MARKER, 0],
    // .
    [0b01000000, END_MARKER, 0, 0, 0],
    // /
    [0b01100000, 0b00011100, 0b00000011, END_MARKER, 0],
    // 0
    [0b00111110, 0b01010001, 0b01001001, 0b01000101, 0b00111110],
    // 1
    [0b00000010, 0b01111111, END_MARKER, 0, 0],
    // 2
    [0b01000010, 0b01100001, 0b01010001, 0b01001001, 0b01000110],
    // 3
    [
        0b01000001,
        0b01001001,
        0b01001001,
        0b00110110,
        END_MARKER,
    ],
    // 4
    [
        0b00000111,
        0b00001000,
        0b00001000,
        0b01111111,
        END_MARKER,
    ],
    // 5
    [
        0b01001111,
        0b01001001,
        0b01001001,
        0b00110001,
        END_MARKER,
    ],
    // 6
    [
        0b00111110,
        0b01001001,
        0b01001001,
        0b00110010,
        END_MARKER,
    ],
    // 7
    [
        0b00000001,
        0b01100001,
        0b00011001,
        0b00000111,
        END_MARKER,
    ],
    // 8
    [
        0b00110110,
        0b01001001,
        0b01001001,
        0b00110110,
        END_MARKER,
    ],
    // 9
    [
        0b00100110,
        0b01001001,
        0b01001001,
        0b00111110,
        END_MARKER,
    ],
    // :
    [0b01000100, END_MARKER, 0, 0, 0],
    // ;
    [0b10110001, END_MARKER, 0, 0, 0],
    // <
    [0b00001000, 0b00010100, 0b00100010, END_MARKER, 0],
    // =
    [0b00010100, 0b00010100, 0b00010100, END_MARKER, 0],
    // >
    [0b00100010, 0b00010100, 0b00001000, END_MARKER, 0],
    // ?
    [0b00000010, 0b00000001, 0b01011001, 0b00001001, 0b00000110],
    // @
    [0b00111110, 0b01000001, 0b00011001, 0b00100101, 0b00111110],
    // A
    [
        0b01111110,
        0b00001001,
        0b00001001,
        0b01111110,
        END_MARKER,
    ],
    // B
    [
        0b01111111,
        0b01001001,
        0b01001001,
        0b00110110,
        END_MARKER,
    ],
    // C
    [
        0b00111110,
        0b01000001,
        0b01000001,
        0b00100010,
        END_MARKER,
    ],
    // D
    [
        0b01111111,
        0b01000001,
        0b01000001,
        0b00111110,
        END_MARKER,
    ],
    // E
    [0b01111111, 0b01001001, 0b01000001, END_MARKER, 0],
    // F
    [0b01111111, 0b00001001, 0b00000001, END_MARKER, 0],
    // G
    [
        0b00111110,
        0b01000001,
        0b01001001,
        0b00111010,
        END_MARKER,
    ],
    // H
    [
        0b01111111,
        0b00001000,
        0b00001000,
        0b01111111,
        END_MARKER,
    ],
    // I
    [0b01000001, 0b01111111, 0b01000001, END_MARKER, 0],
    // J
    [
        0b00110000,
        0b01000001,
        0b01000001,
        0b00111111,
        END_MARKER,
    ],
    // K
    [0b01111111, 0b00001000, 0b00010100, 0b00100010, 0b01000001],
    // L
    [
        0b01111111,
        0b01000000,
        0b01000000,
        0b01000000,
        END_MARKER,
    ],
    // M
    [0b01111111, 0b00000010, 0b00000100, 0b00000010, 0b01111111],
    // N
    [0b01111111, 0b00000100, 0b00001000, 0b00010000, 0b01111111],
    // O
    [
        0b00111110,
        0b01000001,
        0b01000001,
        0b00111110,
        END_MARKER,
    ],
    // P
    [
        0b01111111,
        0b00001001,
        0b00001001,
        0b00000110,
        END_MARKER,
    ],
    // Q
    [
        0b00111110,
        0b01000001,
        0b00100001,
        0b01011110,
        END_MARKER,
    ],
    // R
    [
        0b01111111,
        0b00001001,
        0b00001001,
        0b01110110,
        END_MARKER,
    ],
    // S
    [
        0b01000110,
        0b01001001,
        0b01001001,
        0b00110001,
        END_MARKER,
    ],
    // T
    [0b00000001, 0b00000001, 0b01111111, 0b00000001, 0b00000001],
    // U
    [
        0b00111111,
        0b01000000,
        0b01000000,
        0b00111111,
        END_MARKER,
    ],
    // V
    [0b00000111, 0b00111000, 0b01000000, 0b00111000, 0b00000111],
    // W
    [0b01111111, 0b00100000, 0b00011100, 0b00100000, 0b01111111],
    // X
    [0b01100011, 0b00010100, 0b00001000, 0b00010100, 0b01100011],
    // Y
    [0b00000011, 0b00000100, 0b01111000, 0b00000100, 0b00000011],
    // Z
    [0b01100001, 0b01010001, 0b01001001, 0b01000101, 0b01000011],
    // [
    [0b01111111, 0b01000001, END_MARKER, 0, 0],
    // '\'
    [0b00000011, 0b00011100, 0b01100000, END_MARKER, 0],
    // ]
    [0b01000001, 0b01111111, END_MARKER, 0, 0],
    // ^
    [0b00000010, 0b00000001, 0b00000010, END_MARKER, 0],
    // _
    [
        0b10100000,
        0b10100000,
        0b10100000,
        0b10100000,
        END_MARKER,
    ],
    // `
    [0b00000001, 0b00000010, END_MARKER, 0, 0],
    // a
    [
        0b00100000,
        0b01010100,
        0b01010100,
        0b01111000,
        END_MARKER,
    ],
    // b
    [
        0b01111111,
        0b01000100,
        0b01000100,
        0b00111000,
        END_MARKER,
    ],
    // c
    [0b00111000, 0b01000100, 0b01000100, END_MARKER, 0],
    // d
    [
        0b00111000,
        0b01000100,
        0b01000100,
        0b01111111,
        END_MARKER,
    ],
    // e
    [
        0b00111000,
        0b01010100,
        0b01010100,
        0b00011000,
        END_MARKER,
    ],
    // f
    [0b01111110, 0b00000101, 0b00000001, END_MARKER, 0],
    // g
    [
        0b10001110,
        0b11010001,
        0b11010001,
        0b10111110,
        END_MARKER,
    ],
    // h
    [
        0b01111111,
        0b00000100,
        0b00000100,
        0b01111000,
        END_MARKER,
    ],
    // i
    [0b01111101, END_MARKER, 0, 0, 0],
    // j
    [0b01000000, 0b10100000, 0b01111101, END_MARKER, 0],
    // k
    [
        0b01111111,
        0b00010000,
        0b00101000,
        0b01000100,
        END_MARKER,
    ],
    // l
    [0b00111111, 0b01000000, END_MARKER, 0, 0],
    // m
    [0b01111000, 0b00000100, 0b01111000, 0b00000100, 0b01111000],
    // n
    [
        0b01111000,
        0b00000100,
        0b00000100,
        0b01111000,
        END_MARKER,
    ],
    // o
    [
        0b00111000,
        0b01000100,
        0b01000100,
        0b00111000,
        END_MARKER,
    ],
    // p
    [
        0b11111111,
        0b10010001,
        0b10010001,
        0b10001110,
        END_MARKER,
    ],
    // q
    [
        0b10001110,
        0b10010001,
        0b10010001,
        0b11111110,
        END_MARKER,
    ],
    // r
    [0b01111000, 0b00000100, 0b00000100, END_MARKER, 0],
    // s
    [
        0b01001000,
        0b01010100,
        0b01010100,
        0b00100100,
        END_MARKER,
    ],
    // t
    [
        0b00000100,
        0b00111111,
        0b01000100,
        0b00100000,
        END_MARKER,
    ],
    // u
    [
        0b00111100,
        0b01000000,
        0b01000000,
        0b01111100,
        END_MARKER,
    ],
    // v
    [0b00001100, 0b00110000, 0b01000000, 0b00110000, 0b00001100],
    // w
    [0b00111100, 0b01000000, 0b00111100, 0b01000000, 0b00111100],
    // x
    [0b01000100, 0b00101000, 0b00010000, 0b00101000, 0b01000100],
    // y
    [
        0b10001111,
        0b11010000,
        0b11010000,
        0b10111111,
        END_MARKER,
    ],
    // z
    [0b01000100, 0b01100100, 0b01010100, 0b01001100, 0b01000100],
    // {
    [0b00001000, 0b00110110, 0b01000001, END_MARKER, 0],
    // |
    [0b01110111, END_MARKER, 0, 0, 0],
    // }
    [0b01000001, 0b00110110, 0b00001000, END_MARKER, 0],
    // ~
    [0b00001000, 0b00000100, 0b00001000, 0b00010000, 0b00001000],
];

pub const LETTER_UNKNOWN: [u8; MAX_WIDTH] = [0b01111111, 0b01000001, 0b01000001, 0b01000001, 0b01111111];

pub const LETTER_UE: [u8; MAX_WIDTH] = [
    0b00111101,
    0b01000000,
    0b01000000,
    0b01111101,
    END_MARKER,
];

pub const LETTER_OE: [u8; MAX_WIDTH] = [
    0b00111001,
    0b01000100,
    0b01000100,
    0b00111001,
    END_MARKER,
];

pub const LETTER_AE: [u8; MAX_WIDTH] = [
    0b00100001,
    0b01010100,
    0b01010100,
    0b01111001,
    END_MARKER,
];

pub const LETTER_SZ: [u8; MAX_WIDTH] = [0b01111110, 0b00000001, 0b00000101, 0b01001010, 0b00110000];

pub const LETTER_UNI_STUTTGART: [u8; MAX_WIDTH] =
    [0b00001000, 0b00100010, 0b00001000, 0b00100010, 0b00001000];


/// The columns of one letter.
#[derive(Debug, PartialEq, Eq, Clone, Copy, Default)]
pub struct Letter(pub [u8; MAX_WIDTH]);

/// The glyph columns shown for byte `c`.
pub open spec fn glyph(c: u8) -> [u8; MAX_WIDTH] {
    if 32 <= c <= 126 {
        ASCII_PRINTABLE@[c - 32]
    } else if c == 0xdc || c == 0xfc {
        LETTER_UE
    } else if c == 0xd6 || c == 0xf6 {
        LETTER_OE
    } else if c == 0xc4 || c == 0xe4 {
        LETTER_AE
    } else if c == 0xdf {
        LETTER_SZ
    } else if c == 0x80 {
        LETTER_UNI_STUTTGART
    } else {
        LETTER_UNKNOWN
    }
}

/// How many rows a column is shifted down, or `None` for the end marker.
pub open spec fn spec_downshift(row: u8) -> Option<usize> {
    if row < END_MARKER {
        Some(0)
    } else if row > END_MARKER {
        Some(2)
    } else {
        None
    }
}

impl Letter {
    /// The letter for byte `c`: printable ASCII, the umlauts and sharp s in
    /// Latin-1 (either case), 0x80 for the university logo, and a box for
    /// anything else.
    pub fn get(c: u8) -> (l: Letter)
        ensures
            l.0 == glyph(c),
    {
        if 32 <= c && c <= 126 {
            Letter(ASCII_PRINTABLE[(c - 32) as usize])
        } else if c == 0xdc || c == 0xfc {
            Letter(LETTER_UE)
        } else if c == 0xd6 || c == 0xf6 {
            Letter(LETTER_OE)
        } else if c == 0xc4 || c == 0xe4 {
            Letter(LETTER_AE)
        } else if c == 0xdf {
            Letter(LETTER_SZ)
        } else if c == 0x80 {
            Letter(LETTER_UNI_STUTTGART)
        } else {
            Letter(LETTER_UNKNOWN)
        }
    }

    /// How many rows column value `row` is shifted down: none for plain
    /// columns, two for columns with the top bit set, `None` for the end
    /// marker.
    pub fn downshift(row: u8) -> (d: Option<usize>)
        ensures
            d == spec_downshift(row),
    {
        if row < END_MARKER {
            Some(0)
        } else if row > END_MARKER {
            Some(2)
        } else {
            None
        }
    }
}

} // verus!
