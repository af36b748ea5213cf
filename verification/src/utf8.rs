//! UTF-8 validity: the encoding stated as a spec function, and a
//! decision procedure proved against it. Lines that are not valid
//! UTF-8 are skipped by the pipeline.

use vstd::prelude::*;

verus! {

/// A continuation byte of a multi-byte UTF-8 sequence.
pub open spec fn is_cont(b: u8) -> bool {
    0x80 <= b <= 0xBF
}

/// Length of the well-formed UTF-8 scalar encoding that starts at `i`,
/// or 0 if the bytes at `i` do not begin one. Overlong encodings,
/// surrogates and values above U+10FFFF are rejected, as std does.
pub open spec fn step_len(s: Seq<u8>, i: int) -> int
    recommends
        0 <= i < s.len(),
{
    let b0 = s[i];
    if b0 < 0x80 {
        1
    } else if 0xC2 <= b0 && b0 <= 0xDF {
        if i + 2 <= s.len() && is_cont(s[i + 1]) {
            2
        } else {
            0
        }
    } else if b0 == 0xE0 {
        if i + 3 <= s.len() && 0xA0 <= s[i + 1] && s[i + 1] <= 0xBF && is_cont(s[i + 2]) {
            3
        } else {
            0
        }
    } else if 0xE1 <= b0 && b0 <= 0xEC || b0 == 0xEE || b0 == 0xEF {
        if i + 3 <= s.len() && is_cont(s[i + 1]) && is_cont(s[i + 2]) {
            3
        } else {
            0
        }
    } else if b0 == 0xED {
        if i + 3 <= s.len() && 0x80 <= s[i + 1] && s[i + 1] <= 0x9F && is_cont(s[i + 2]) {
            3
        } else {
            0
        }
    } else if b0 == 0xF0 {
        if i + 4 <= s.len() && 0x90 <= s[i + 1] && s[i + 1] <= 0xBF && is_cont(s[i + 2])
            && is_cont(s[i + 3]) {
            4
        } else {
            0
        }
    } else if 0xF1 <= b0 && b0 <= 0xF3 {
        if i + 4 <= s.len() && is_cont(s[i + 1]) && is_cont(s[i + 2]) && is_cont(s[i + 3]) {
            4
        } else {
            0
        }
    } else if b0 == 0xF4 {
        if i + 4 <= s.len() && 0x80 <= s[i + 1] && s[i + 1] <= 0x8F && is_cont(s[i + 2])
            && is_cont(s[i + 3]) {
            4
        } else {
            0
        }
    } else {
        0
    }
}

/// The bytes from `i` to the end form a sequence of well-formed UTF-8
/// scalar encodings.
pub open spec fn valid_from(s: Seq<u8>, i: int) -> bool
    recommends
        0 <= i <= s.len(),
    decreases s.len() - i,
{
    if i >= s.len() {
        true
    } else if step_len(s, i) == 0 {
        false
    } else {
        valid_from(s, i + step_len(s, i))
    }
}

/// The whole byte sequence is valid UTF-8.
pub open spec fn is_valid_utf8(s: Seq<u8>) -> bool {
    valid_from(s, 0)
}

fn cont_at(v: &Vec<u8>, i: usize) -> (r: bool)
    requires
        i < v@.len(),
    ensures
        r == is_cont(v@[i as int]),
{
    0x80 <= v[i] && v[i] <= 0xBF
}

/// Decides whether the bytes are valid UTF-8.
pub fn check_utf8(v: &Vec<u8>) -> (r: bool)
    ensures
        r == is_valid_utf8(v@),
{
    let n = v.len();
    let mut i: usize = 0;
    while i < n
        invariant
            n == v@.len(),
            i <= n,
            is_valid_utf8(v@) <==> valid_from(v@, i as int),
        decreases n - i,
    {
        let b0 = v[i];
        let step: usize = if b0 < 0x80 {
            1
        } else if 0xC2 <= b0 && b0 <= 0xDF {
            if n - i >= 2 && cont_at(v, i + 1) {
                2
            } else {
                0
            }
        } else if b0 == 0xE0 {
            if n - i >= 3 && 0xA0 <= v[i + 1] && v[i + 1] <= 0xBF && cont_at(v, i + 2) {
                3
            } else {
                0
            }
        } else if 0xE1 <= b0 && b0 <= 0xEC || b0 == 0xEE || b0 == 0xEF {
            if n - i >= 3 && cont_at(v, i + 1) && cont_at(v, i + 2) {
                3
            } else {
                0
            }
        } else if b0 == 0xED {
            if n - i >= 3 && 0x80 <= v[i + 1] && v[i + 1] <= 0x9F && cont_at(v, i + 2) {
                3
            } else {
                0
            }
        } else if b0 == 0xF0 {
            if n - i >= 4 && 0x90 <= v[i + 1] && v[i + 1] <= 0xBF && cont_at(v, i + 2) && cont_at(
                v,
                i + 3,
            ) {
                4
            } else {
                0
            }
        } else if 0xF1 <= b0 && b0 <= 0xF3 {
            if n - i >= 4 && cont_at(v, i + 1) && cont_at(v, i + 2) && cont_at(v, i + 3) {
                4
            } else {
                0
            }
        } else if b0 == 0xF4 {
            if n - i >= 4 && 0x80 <= v[i + 1] && v[i + 1] <= 0x8F && cont_at(v, i + 2) && cont_at(
                v,
                i + 3,
            ) {
                4
            } else {
                0
            }
        } else {
            0
        };
        assert(step == step_len(v@, i as int));
        if step == 0 {
            return false;
        }
        i = i + step;
    }
    true
}

} // verus!
