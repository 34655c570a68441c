//! The layout that maps a host keyboard onto the sixteen-key pad.
use vstd::prelude::*;

verus! {

/// Host keys, row by row of the left-hand 4x4 block of a QWERTY keyboard, as
/// the ASCII codes of their characters.
pub const HOST_KEYS: [u8; 16] = [
    0x31, 0x32, 0x33, 0x34,  // 1 2 3 4
    0x71, 0x77, 0x65, 0x72,  // q w e r
    0x61, 0x73, 0x64, 0x66,  // a s d f
    0x7A, 0x78, 0x63, 0x76,  // z x c v
];

/// The pad key at the same place of the pad's own 4x4 layout.
pub const PAD_KEYS: [u8; 16] = [
    0x1, 0x2, 0x3, 0xC,
    0x4, 0x5, 0x6, 0xD,
    0x7, 0x8, 0x9, 0xE,
    0xA, 0x0, 0xB, 0xF,
];

/// The pad key that host key `code` stands for, if any.
pub fn key_for_code(code: i32) -> (r: Option<usize>)
    ensures
        match r {
            Some(k) => exists|i: int|
                0 <= i < 16 && HOST_KEYS@[i] as i32 == code && k == PAD_KEYS@[i] as usize,
            None => forall|i: int| 0 <= i < 16 ==> HOST_KEYS@[i] as i32 != code,
        },
        r matches Some(k) ==> k < 16,
{
    let mut i: usize = 0;
    while i < 16
        invariant
            i <= 16,
            forall|j: int| 0 <= j < i ==> HOST_KEYS@[j] as i32 != code,
            forall|j: int| 0 <= j < 16 ==> PAD_KEYS@[j] < 16,
        decreases 16 - i,
    {
        if HOST_KEYS[i] as i32 == code {
            return Some(PAD_KEYS[i] as usize);
        }
        i += 1;
    }
    None
}

} // verus!
