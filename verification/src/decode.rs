//! A verified UTF-8 validity check over raw bytes, stated against vstd's
//! specification of the encoding. The parser rejects a request whose bytes
//! are not a valid encoding, without ever materialising the characters.

use vstd::prelude::*;
use vstd::slice::slice_subrange;
use vstd::utf8::*;

verus! {

/// True exactly when `bytes` is a valid UTF-8 encoding.
pub fn utf8_valid(bytes: &[u8]) -> (r: bool)
    ensures
        r == valid_utf8(bytes@),
{
    let mut rem: &[u8] = bytes;
    while rem.len() > 0
        invariant
            valid_utf8(bytes@) == valid_utf8(rem@),
        decreases rem@.len(),
    {
        let n = rem.len();
        let b0 = rem[0];
        let width: usize;
        if b0 <= 0x7f {
            // One-byte encoding: never overlong, never a surrogate.
            proof {
                assert(b0 & 0x7f <= 0x7f) by (bit_vector);
                assert(valid_first_scalar(rem@));
                assert(length_of_first_scalar(rem@) == 1);
            }
            width = 1;
        } else if 0xc0 <= b0 && b0 <= 0xdf {
            if n < 2 {
                proof {
                    assert(!valid_first_scalar(rem@));
                }
                return false;
            }
            let b1 = rem[1];
            if !(0x80 <= b1 && b1 <= 0xbf) {
                proof {
                    assert(!valid_first_scalar(rem@));
                }
                return false;
            }
            let cp: u32 = (((b0 & 0x1f) as u32) << 6) | ((b1 & 0x3f) as u32);
            if cp < 0x80 {
                // Overlong two-byte encoding.
                proof {
                    assert(!valid_first_scalar(rem@));
                }
                return false;
            }
            proof {
                // Two bytes encode at most 0x7ff, below the surrogate range.
                assert((((b0 & 0x1f) as u32) << 6) | ((b1 & 0x3f) as u32) <= 0x7ff)
                    by (bit_vector);
                assert(valid_first_scalar(rem@));
                assert(length_of_first_scalar(rem@) == 2);
            }
            width = 2;
        } else if 0xe0 <= b0 && b0 <= 0xef {
            if n < 3 {
                proof {
                    assert(!valid_first_scalar(rem@));
                }
                return false;
            }
            let b1 = rem[1];
            let b2 = rem[2];
            if !(0x80 <= b1 && b1 <= 0xbf) || !(0x80 <= b2 && b2 <= 0xbf) {
                proof {
                    assert(!valid_first_scalar(rem@));
                }
                return false;
            }
            let cp: u32 = (((b0 & 0x0f) as u32) << 12) | (((b1 & 0x3f) as u32) << 6) | ((b2
                & 0x3f) as u32);
            if cp < 0x800 || (0xd800 <= cp && cp <= 0xdfff) {
                // Overlong three-byte encoding, or a surrogate codepoint.
                proof {
                    assert(!valid_first_scalar(rem@));
                }
                return false;
            }
            proof {
                assert(valid_first_scalar(rem@));
                assert(length_of_first_scalar(rem@) == 3);
            }
            width = 3;
        } else if 0xf0 <= b0 && b0 <= 0xf7 {
            if n < 4 {
                proof {
                    assert(!valid_first_scalar(rem@));
                }
                return false;
            }
            let b1 = rem[1];
            let b2 = rem[2];
            let b3 = rem[3];
            if !(0x80 <= b1 && b1 <= 0xbf) || !(0x80 <= b2 && b2 <= 0xbf) || !(0x80 <= b3 && b3
                <= 0xbf) {
                proof {
                    assert(!valid_first_scalar(rem@));
                }
                return false;
            }
            let cp: u32 = (((b0 & 0x07) as u32) << 18) | (((b1 & 0x3f) as u32) << 12) | (((b2
                & 0x3f) as u32) << 6) | ((b3 & 0x3f) as u32);
            if cp < 0x10000 || cp > 0x10ffff {
                // Overlong four-byte encoding, or beyond the last scalar.
                proof {
                    assert(!valid_first_scalar(rem@));
                }
                return false;
            }
            proof {
                assert(valid_first_scalar(rem@));
                assert(length_of_first_scalar(rem@) == 4);
            }
            width = 4;
        } else {
            // A stray continuation byte, or a byte no encoding starts with.
            proof {
                assert(!valid_first_scalar(rem@));
            }
            return false;
        }
        proof {
            assert(valid_utf8(rem@) == valid_utf8(pop_first_scalar(rem@)));
        }
        let next = slice_subrange(rem, width, n);
        proof {
            assert(next@ =~= pop_first_scalar(rem@));
        }
        rem = next;
    }
    true
}

} // verus!
