use vstd::prelude::*;

verus! {

/// Why a raw hex instruction line was rejected.
#[derive(Debug, Clone, Copy, PartialEq, Eq, Structural)]
pub enum HexParseError {
    /// A field is empty, holds a non-hexadecimal character, or exceeds one
    /// byte.
    MalformedHexByte,
    /// The line does not hold exactly four space-separated fields.
    WrongByteCount,
}

/// ASCII hexadecimal digit, either case.
pub open spec fn is_hex_digit(b: u8) -> bool {
    ||| ('0' as u8) <= b <= ('9' as u8)
    ||| ('a' as u8) <= b <= ('f' as u8)
    ||| ('A' as u8) <= b <= ('F' as u8)
}

pub open spec fn hex_digit_val(b: u8) -> int {
    if ('0' as u8) <= b <= ('9' as u8) {
        b - ('0' as u8)
    } else if ('a' as u8) <= b <= ('f' as u8) {
        b - ('a' as u8) + 10
    } else {
        b - ('A' as u8) + 10
    }
}

/// The first space at or after `i`, or the end of input.
pub open spec fn hex_space_end(s: Seq<u8>, i: int) -> int
    decreases s.len() - i,
{
    if i < 0 {
        i
    } else if i >= s.len() || s[i] == (' ' as u8) {
        i
    } else {
        hex_space_end(s, i + 1)
    }
}

pub open spec fn all_hex(s: Seq<u8>, lo: int, hi: int) -> bool {
    forall|j: int| lo <= j < hi ==> is_hex_digit(#[trigger] s[j])
}

/// The base-16 value of the digit run `s[lo..hi]`.
pub open spec fn hex_value(s: Seq<u8>, lo: int, hi: int) -> int
    decreases hi - lo,
{
    if hi <= lo {
        0
    } else {
        hex_value(s, lo, hi - 1) * 16 + hex_digit_val(s[hi - 1])
    }
}

pub proof fn lemma_hex_value_nonneg(s: Seq<u8>, lo: int, hi: int)
    requires
        all_hex(s, lo, hi),
    ensures
        hex_value(s, lo, hi) >= 0,
    decreases hi - lo,
{
    if hi > lo {
        lemma_hex_value_nonneg(s, lo, hi - 1);
    }
}

pub proof fn lemma_hex_value_mono(s: Seq<u8>, lo: int, mid: int, hi: int)
    requires
        lo <= mid <= hi,
        all_hex(s, lo, hi),
    ensures
        hex_value(s, lo, hi) >= hex_value(s, lo, mid),
    decreases hi - mid,
{
    if mid < hi {
        lemma_hex_value_mono(s, lo, mid, hi - 1);
        lemma_hex_value_nonneg(s, lo, hi - 1);
    }
}

/// The meaning of the field `s[lo..hi]` as one hexadecimal byte.
pub open spec fn spec_hex_field(s: Seq<u8>, lo: int, hi: int) -> Option<u8> {
    if lo >= hi || !all_hex(s, lo, hi) {
        None
    } else {
        let v = hex_value(s, lo, hi);
        if v <= 255 {
            Some(v as u8)
        } else {
            None
        }
    }
}

/// The meaning of a raw hex instruction line: exactly four space-separated
/// hexadecimal byte fields, in order.
pub open spec fn spec_hex4(s: Seq<u8>) -> Result<Seq<u8>, HexParseError> {
    let e1 = hex_space_end(s, 0);
    match spec_hex_field(s, 0, e1) {
        None => Err(HexParseError::MalformedHexByte),
        Some(b1) => {
            if e1 >= s.len() {
                Err(HexParseError::WrongByteCount)
            } else {
                let s2 = e1 + 1;
                let e2 = hex_space_end(s, s2);
                match spec_hex_field(s, s2, e2) {
                    None => Err(HexParseError::MalformedHexByte),
                    Some(b2) => {
                        if e2 >= s.len() {
                            Err(HexParseError::WrongByteCount)
                        } else {
                            let s3 = e2 + 1;
                            let e3 = hex_space_end(s, s3);
                            match spec_hex_field(s, s3, e3) {
                                None => Err(HexParseError::MalformedHexByte),
                                Some(b3) => {
                                    if e3 >= s.len() {
                                        Err(HexParseError::WrongByteCount)
                                    } else {
                                        let s4 = e3 + 1;
                                        let e4 = hex_space_end(s, s4);
                                        match spec_hex_field(s, s4, e4) {
                                            None => Err(HexParseError::MalformedHexByte),
                                            Some(b4) => {
                                                if e4 < s.len() {
                                                    Err(HexParseError::WrongByteCount)
                                                } else {
                                                    Ok(seq![b1, b2, b3, b4])
                                                }
                                            },
                                        }
                                    }
                                },
                            }
                        }
                    },
                }
            }
        },
    }
}

/// Finds the end of the hex field that starts at `from`.
fn hex_space_end_from(c: &[u8], from: usize) -> (e: usize)
    requires
        from <= c@.len(),
    ensures
        from <= e <= c@.len(),
        e as int == hex_space_end(c@, from as int),
{
    let n = c.len();
    let mut e = from;
    while e < n && c[e] != (' ' as u8)
        invariant
            from <= e <= n == c@.len(),
            hex_space_end(c@, from as int) == hex_space_end(c@, e as int),
        decreases n - e,
    {
        e = e + 1;
    }
    e
}

/// Parses the field `c[lo..hi]` as one hexadecimal byte.
fn hex_field_value(c: &[u8], lo: usize, hi: usize) -> (r: Option<u8>)
    requires
        lo <= hi <= c@.len(),
    ensures
        r == spec_hex_field(c@, lo as int, hi as int),
{
    if lo >= hi {
        return None;
    }
    let mut acc: u32 = 0;
    let mut j: usize = lo;
    while j < hi
        invariant
            lo <= j <= hi <= c@.len(),
            all_hex(c@, lo as int, j as int),
            acc == hex_value(c@, lo as int, j as int),
            acc <= 255,
        decreases hi - j,
    {
        let b = c[j];
        let d: u32 = if ('0' as u8) <= b && b <= ('9' as u8) {
            (b - ('0' as u8)) as u32
        } else if ('a' as u8) <= b && b <= ('f' as u8) {
            (b - ('a' as u8)) as u32 + 10
        } else if ('A' as u8) <= b && b <= ('F' as u8) {
            (b - ('A' as u8)) as u32 + 10
        } else {
            proof {
                assert(!is_hex_digit(c@[j as int]));
            }
            return None;
        };
        acc = acc * 16 + d;
        j = j + 1;
        if acc > 255 {
            proof {
                if all_hex(c@, lo as int, hi as int) {
                    lemma_hex_value_mono(c@, lo as int, j as int, hi as int);
                }
            }
            return None;
        }
    }
    Some(acc as u8)
}

/// Parses one raw bytecode instruction given as four space-separated
/// hexadecimal byte fields (`"01 00 01 f4"`), bypassing the assembler.
pub fn hex_to_byte_arr(hexes: &[u8]) -> (r: Result<[u8; 4], HexParseError>)
    ensures
        match r {
            Ok(arr) => spec_hex4(hexes@) == Ok::<_, HexParseError>(arr@),
            Err(e) => spec_hex4(hexes@) == Err::<Seq<u8>, _>(e),
        },
{
    let e1 = hex_space_end_from(hexes, 0);
    let b1 = match hex_field_value(hexes, 0, e1) {
        None => {
            return Err(HexParseError::MalformedHexByte);
        },
        Some(b) => b,
    };
    if e1 >= hexes.len() {
        return Err(HexParseError::WrongByteCount);
    }
    let e2 = hex_space_end_from(hexes, e1 + 1);
    let b2 = match hex_field_value(hexes, e1 + 1, e2) {
        None => {
            return Err(HexParseError::MalformedHexByte);
        },
        Some(b) => b,
    };
    if e2 >= hexes.len() {
        return Err(HexParseError::WrongByteCount);
    }
    let e3 = hex_space_end_from(hexes, e2 + 1);
    let b3 = match hex_field_value(hexes, e2 + 1, e3) {
        None => {
            return Err(HexParseError::MalformedHexByte);
        },
        Some(b) => b,
    };
    if e3 >= hexes.len() {
        return Err(HexParseError::WrongByteCount);
    }
    let e4 = hex_space_end_from(hexes, e3 + 1);
    let b4 = match hex_field_value(hexes, e3 + 1, e4) {
        None => {
            return Err(HexParseError::MalformedHexByte);
        },
        Some(b) => b,
    };
    if e4 < hexes.len() {
        return Err(HexParseError::WrongByteCount);
    }
    let arr: [u8; 4] = [b1, b2, b3, b4];
    proof {
        assert(arr@ =~= seq![b1, b2, b3, b4]);
    }
    Ok(arr)
}

} // verus!
