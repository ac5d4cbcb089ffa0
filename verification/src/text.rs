use vstd::prelude::*;
use vstd::utf8::{
    is_continuation_byte, is_leading_byte_width_1, is_leading_byte_width_2, is_leading_byte_width_3,
    is_leading_byte_width_4, valid_first_scalar, valid_utf8,
};

verus! {

/// Checks that `bytes` is a well-formed UTF-8 encoding, scalar by scalar:
/// the leading-byte and continuation-byte bit patterns, the overlong
/// encodings and the surrogate range, exactly as `vstd::utf8::valid_utf8`
/// defines them. The generation loop appends decoded text to its result
/// only when this check passes.
#[verifier::loop_isolation(false)]
pub fn check_utf8(bytes: &Vec<u8>) -> (r: bool)
    ensures
        r == valid_utf8(bytes@),
{
    let n = bytes.len();
    let mut i: usize = 0;
    proof {
        assert(bytes@.subrange(0, n as int) =~= bytes@);
    }
    while i < n
        invariant
            i <= n,
            valid_utf8(bytes@) == valid_utf8(bytes@.subrange(i as int, n as int)),
        decreases n - i,
    {
        let ghost suffix = bytes@.subrange(i as int, n as int);
        proof {
            assert(suffix.len() == n - i);
            assert(suffix[0] == bytes@[i as int]);
        }
        let b0 = bytes[i];
        let width: usize;
        if b0 < 0x80 {
            proof {
                assert((b0 & 0x7f) <= 0x7f) by (bit_vector);
            }
            width = 1;
        } else if 0xc0 <= b0 && b0 <= 0xdf {
            if n - i < 2 {
                proof {
                    assert(!valid_first_scalar(suffix));
                }
                return false;
            }
            let b1 = bytes[i + 1];
            proof {
                assert(suffix[1] == bytes@[i as int + 1]);
            }
            if !(0x80 <= b1 && b1 <= 0xbf) {
                proof {
                    assert(!valid_first_scalar(suffix));
                }
                return false;
            }
            let cp: u32 = (((b0 & 0x1f) as u32) << 6) | ((b1 & 0x3f) as u32);
            if cp < 0x80 {
                proof {
                    assert(!valid_first_scalar(suffix));
                }
                return false;
            }
            proof {
                assert(((((b0 & 0x1f) as u32) << 6) | ((b1 & 0x3f) as u32)) <= 0x7ff)
                    by (bit_vector);
            }
            width = 2;
        } else if 0xe0 <= b0 && b0 <= 0xef {
            if n - i < 3 {
                proof {
                    assert(!valid_first_scalar(suffix));
                }
                return false;
            }
            let b1 = bytes[i + 1];
            let b2 = bytes[i + 2];
            proof {
                assert(suffix[1] == bytes@[i as int + 1]);
                assert(suffix[2] == bytes@[i as int + 2]);
            }
            if !(0x80 <= b1 && b1 <= 0xbf) || !(0x80 <= b2 && b2 <= 0xbf) {
                proof {
                    assert(!valid_first_scalar(suffix));
                }
                return false;
            }
            let cp: u32 = (((b0 & 0x0f) as u32) << 12) | (((b1 & 0x3f) as u32) << 6) | ((b2
                & 0x3f) as u32);
            if cp < 0x800 || (0xd800 <= cp && cp <= 0xdfff) {
                proof {
                    assert(!valid_first_scalar(suffix));
                }
                return false;
            }
            width = 3;
        } else if 0xf0 <= b0 && b0 <= 0xf7 {
            if n - i < 4 {
                proof {
                    assert(!valid_first_scalar(suffix));
                }
                return false;
            }
            let b1 = bytes[i + 1];
            let b2 = bytes[i + 2];
            let b3 = bytes[i + 3];
            proof {
                assert(suffix[1] == bytes@[i as int + 1]);
                assert(suffix[2] == bytes@[i as int + 2]);
                assert(suffix[3] == bytes@[i as int + 3]);
            }
            if !(0x80 <= b1 && b1 <= 0xbf) || !(0x80 <= b2 && b2 <= 0xbf) || !(0x80 <= b3 && b3
                <= 0xbf) {
                proof {
                    assert(!valid_first_scalar(suffix));
                }
                return false;
            }
            let cp: u32 = (((b0 & 0x07) as u32) << 18) | (((b1 & 0x3f) as u32) << 12) | (((b2
                & 0x3f) as u32) << 6) | ((b3 & 0x3f) as u32);
            if !(0x10000 <= cp && cp <= 0x10ffff) {
                proof {
                    assert(!valid_first_scalar(suffix));
                }
                return false;
            }
            width = 4;
        } else {
            proof {
                assert(!is_leading_byte_width_1(suffix[0]));
                assert(!is_leading_byte_width_2(suffix[0]));
                assert(!is_leading_byte_width_3(suffix[0]));
                assert(!is_leading_byte_width_4(suffix[0]));
                assert(!valid_first_scalar(suffix));
            }
            return false;
        }
        proof {
            assert(valid_first_scalar(suffix));
            assert(vstd::utf8::length_of_first_scalar(suffix) == width);
            assert(vstd::utf8::pop_first_scalar(suffix) =~= bytes@.subrange(
                i as int + width as int,
                n as int,
            ));
        }
        i = i + width;
    }
    proof {
        assert(bytes@.subrange(i as int, n as int) =~= Seq::<u8>::empty());
    }
    true
}

} // verus!
