use vstd::prelude::*;

use crate::text::chars_of;

verus! {

/// Height of the native toolbar strip, in pixels.
pub const TOOLBAR_HEIGHT: i32 = 48;

/// The UTF-16 code units of one character: itself below U+10000, else a
/// surrogate pair.
pub open spec fn utf16_units(c: char) -> Seq<u16> {
    let n = c as u32;
    if n < 0x10000 {
        seq![n as u16]
    } else {
        let m = n - 0x10000;
        seq![(0xD800 + m / 0x400) as u16, (0xDC00 + m % 0x400) as u16]
    }
}

/// The UTF-16 encoding of a string.
pub open spec fn utf16_encode(s: Seq<char>) -> Seq<u16>
    decreases s.len(),
{
    if s.len() == 0 {
        Seq::empty()
    } else {
        utf16_encode(s.drop_last()) + utf16_units(s.last())
    }
}

/// A string as the NUL-terminated UTF-16 that Win32 calls take.
pub fn to_wide(s: &str) -> (r: Vec<u16>)
    ensures
        r@ == utf16_encode(s@).push(0u16),
{
    let v = chars_of(s);
    let mut out: Vec<u16> = Vec::new();
    let mut i: usize = 0;
    while i < v.len()
        invariant
            i <= v.len(),
            out@ == utf16_encode(v@.subrange(0, i as int)),
        decreases v.len() - i,
    {
        let ghost prev = out@;
        let c = v[i];
        let n = c as u32;
        if n < 0x10000 {
            out.push(n as u16);
        } else {
            let m = n - 0x10000;
            out.push((0xD800 + m / 0x400) as u16);
            out.push((0xDC00 + m % 0x400) as u16);
        }
        assert(v@.subrange(0, i + 1).drop_last() =~= v@.subrange(0, i as int));
        assert(out@ =~= prev + utf16_units(c));
        i += 1;
    }
    assert(v@.subrange(0, v.len() as int) =~= v@);
    out.push(0);
    out
}

} // verus!
