//! Decoding of unpadded base64url text, the form in which a token's payload
//! segment is carried.
use vstd::prelude::*;
use vstd::string::StrSliceExecFns;

verus! {

/// The six-bit value of a base64url alphabet character, or -1 outside it.
pub open spec fn b64_char_val(c: char) -> int {
    let u = c as u32;
    if 65 <= u <= 90 {
        u - 65
    } else if 97 <= u <= 122 {
        u - 97 + 26
    } else if 48 <= u <= 57 {
        u - 48 + 52
    } else if u == 45 {
        62
    } else if u == 95 {
        63
    } else {
        -1
    }
}

pub open spec fn is_b64_char(c: char) -> bool {
    b64_char_val(c) >= 0
}

pub open spec fn b64_byte0(v0: int, v1: int) -> u8 {
    (v0 * 4 + v1 / 16) as u8
}

pub open spec fn b64_byte1(v1: int, v2: int) -> u8 {
    ((v1 % 16) * 16 + v2 / 4) as u8
}

pub open spec fn b64_byte2(v2: int, v3: int) -> u8 {
    ((v2 % 4) * 64 + v3) as u8
}

/// The bytes encoded by the base64url text from position `i` on: groups of
/// four characters give three bytes; a final group of two or three characters
/// gives one or two bytes; a single trailing character, or any character
/// outside the alphabet, makes the text invalid.
pub open spec fn spec_b64_decode_from(s: Seq<char>, i: int) -> Option<Seq<u8>>
    decreases s.len() - i,
{
    if i < 0 || i > s.len() {
        None
    } else if s.len() - i == 0 {
        Some(Seq::empty())
    } else if s.len() - i == 1 {
        None
    } else if !is_b64_char(s[i]) || !is_b64_char(s[i + 1]) {
        None
    } else if s.len() - i == 2 {
        Some(seq![b64_byte0(b64_char_val(s[i]), b64_char_val(s[i + 1]))])
    } else if !is_b64_char(s[i + 2]) {
        None
    } else if s.len() - i == 3 {
        Some(
            seq![
                b64_byte0(b64_char_val(s[i]), b64_char_val(s[i + 1])),
                b64_byte1(b64_char_val(s[i + 1]), b64_char_val(s[i + 2])),
            ],
        )
    } else if !is_b64_char(s[i + 3]) {
        None
    } else {
        match spec_b64_decode_from(s, i + 4) {
            None => None,
            Some(rest) => Some(
                seq![
                    b64_byte0(b64_char_val(s[i]), b64_char_val(s[i + 1])),
                    b64_byte1(b64_char_val(s[i + 1]), b64_char_val(s[i + 2])),
                    b64_byte2(b64_char_val(s[i + 2]), b64_char_val(s[i + 3])),
                ] + rest,
            ),
        }
    }
}

pub open spec fn spec_b64_decode(s: Seq<char>) -> Option<Seq<u8>> {
    spec_b64_decode_from(s, 0)
}

/// The six-bit value of `c`, or `None` outside the base64url alphabet.
fn b64_val(c: char) -> (r: Option<u8>)
    ensures
        match r {
            Some(v) => is_b64_char(c) && v == b64_char_val(c),
            None => !is_b64_char(c),
        },
{
    let u = c as u32;
    if 65 <= u && u <= 90 {
        Some((u - 65) as u8)
    } else if 97 <= u && u <= 122 {
        Some((u - 97 + 26) as u8)
    } else if 48 <= u && u <= 57 {
        Some((u - 48 + 52) as u8)
    } else if u == 45 {
        Some(62)
    } else if u == 95 {
        Some(63)
    } else {
        None
    }
}

/// Decodes unpadded base64url text, per `spec_b64_decode`.
pub fn b64url_decode(s: &str) -> (r: Option<Vec<u8>>)
    ensures
        match spec_b64_decode(s@) {
            Some(b) => r matches Some(v) && v@ == b,
            None => r is None,
        },
{
    let n = s.unicode_len();
    let mut out: Vec<u8> = Vec::new();
    let mut i: usize = 0;
    loop
        invariant
            i <= n,
            n == s@.len(),
            (spec_b64_decode_from(s@, i as int) matches Some(rest) ==> spec_b64_decode(s@)
                matches Some(all) && all == out@ + rest),
            (spec_b64_decode_from(s@, i as int) is None ==> spec_b64_decode(s@) is None),
        decreases n - i,
    {
        if n - i >= 4 {
            let v0 = b64_val(s.get_char(i));
            let v1 = b64_val(s.get_char(i + 1));
            let v2 = b64_val(s.get_char(i + 2));
            let v3 = b64_val(s.get_char(i + 3));
            match (v0, v1, v2, v3) {
                (Some(v0), Some(v1), Some(v2), Some(v3)) => {
                    out.push(v0 * 4 + v1 / 16);
                    out.push((v1 % 16) * 16 + v2 / 4);
                    out.push((v2 % 4) * 64 + v3);
                    proof {
                        if spec_b64_decode_from(s@, i + 4) is Some {
                            let rest = spec_b64_decode_from(s@, i + 4)->Some_0;
                            assert(out@ + rest =~= out@.subrange(0, out@.len() - 3) + (seq![
                                b64_byte0(b64_char_val(s@[i as int]), b64_char_val(s@[i + 1])),
                                b64_byte1(b64_char_val(s@[i + 1]), b64_char_val(s@[i + 2])),
                                b64_byte2(b64_char_val(s@[i + 2]), b64_char_val(s@[i + 3])),
                            ] + rest));
                        }
                    }
                    i = i + 4;
                },
                _ => {
                    return None;
                },
            }
        } else if n - i == 0 {
            proof {
                assert(out@ + Seq::<u8>::empty() =~= out@);
            }
            return Some(out);
        } else if n - i == 1 {
            return None;
        } else if n - i == 2 {
            let v0 = b64_val(s.get_char(i));
            let v1 = b64_val(s.get_char(i + 1));
            match (v0, v1) {
                (Some(v0), Some(v1)) => {
                    out.push(v0 * 4 + v1 / 16);
                    proof {
                        assert(out@ =~= out@.subrange(0, out@.len() - 1) + seq![
                            b64_byte0(b64_char_val(s@[i as int]), b64_char_val(s@[i + 1])),
                        ]);
                    }
                    return Some(out);
                },
                _ => {
                    return None;
                },
            }
        } else {
            let v0 = b64_val(s.get_char(i));
            let v1 = b64_val(s.get_char(i + 1));
            let v2 = b64_val(s.get_char(i + 2));
            match (v0, v1, v2) {
                (Some(v0), Some(v1), Some(v2)) => {
                    out.push(v0 * 4 + v1 / 16);
                    out.push((v1 % 16) * 16 + v2 / 4);
                    proof {
                        assert(out@ =~= out@.subrange(0, out@.len() - 2) + seq![
                            b64_byte0(b64_char_val(s@[i as int]), b64_char_val(s@[i + 1])),
                            b64_byte1(b64_char_val(s@[i + 1]), b64_char_val(s@[i + 2])),
                        ]);
                    }
                    return Some(out);
                },
                _ => {
                    return None;
                },
            }
        }
    }
}

} // verus!
