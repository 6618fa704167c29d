use vstd::prelude::*;

verus! {

/// The value of one hexadecimal digit (either case), if `c` is one.
pub open spec fn hex_digit_value(c: u8) -> Option<u8> {
    if 48 <= c <= 57 {
        Some((c - 48) as u8)
    } else if 97 <= c <= 102 {
        Some((c - 87) as u8)
    } else if 65 <= c <= 70 {
        Some((c - 55) as u8)
    } else {
        None
    }
}

/// Whether every byte of `s` is a hexadecimal digit.
pub open spec fn all_hex(s: Seq<u8>) -> bool {
    forall|i: int| 0 <= i < s.len() ==> (#[trigger] hex_digit_value(s[i])).is_some()
}

/// The byte written by the two digits at `2 * k` and `2 * k + 1`.
pub open spec fn hex_pair(s: Seq<u8>, k: int) -> u8 {
    (hex_digit_value(s[2 * k]).unwrap() * 16 + hex_digit_value(s[2 * k + 1]).unwrap()) as u8
}

/// What a string of hexadecimal digits denotes: defined when its length is
/// even and every byte is a digit.
pub open spec fn hex_decoded(s: Seq<u8>) -> Option<Seq<u8>> {
    if s.len() % 2 == 0 && all_hex(s) {
        Some(Seq::new(s.len() / 2, |k: int| hex_pair(s, k)))
    } else {
        None
    }
}

/// Decodes one hexadecimal digit.
pub fn hex_digit(c: u8) -> (r: Option<u8>)
    ensures
        r == hex_digit_value(c),
        r.is_some() ==> r.unwrap() < 16,
{
    if 48 <= c && c <= 57 {
        Some(c - 48)
    } else if 97 <= c && c <= 102 {
        Some(c - 87)
    } else if 65 <= c && c <= 70 {
        Some(c - 55)
    } else {
        None
    }
}

/// Decodes a string of hexadecimal digits into the bytes it writes.
pub fn decode_hex(s: &[u8]) -> (r: Option<Vec<u8>>)
    ensures
        match hex_decoded(s@) {
            Some(d) => r.is_some() && r.unwrap()@ == d,
            None => r.is_none(),
        },
{
    if s.len() % 2 != 0 {
        return None;
    }
    let mut out: Vec<u8> = Vec::new();
    let mut k: usize = 0;
    while k < s.len() / 2
        invariant
            s@.len() % 2 == 0,
            k <= s@.len() / 2,
            out@.len() == k,
            forall|j: int| 0 <= j < 2 * k ==> (#[trigger] hex_digit_value(s@[j])).is_some(),
            forall|j: int| 0 <= j < k ==> out@[j] == hex_pair(s@, j),
        decreases s@.len() / 2 - k,
    {
        let hi = hex_digit(s[2 * k]);
        let lo = hex_digit(s[2 * k + 1]);
        match (hi, lo) {
            (Some(h), Some(l)) => {
                out.push(h * 16 + l);
            },
            _ => {
                proof {
                    if hi.is_none() {
                        assert(!(hex_digit_value(s@[2 * k as int])).is_some());
                    } else {
                        assert(!(hex_digit_value(s@[2 * k + 1])).is_some());
                    }
                }
                return None;
            },
        }
        k = k + 1;
    }
    proof {
        assert(all_hex(s@));
        assert(out@ =~= Seq::new(s@.len() / 2, |j: int| hex_pair(s@, j)));
    }
    Some(out)
}

} // verus!
