use vstd::prelude::*;

verus! {

/// A hexadecimal digit, upper or lower case.
pub open spec fn is_hex_digit(c: char) -> bool {
    ('0' <= c && c <= '9') || ('a' <= c && c <= 'f') || ('A' <= c && c <= 'F')
}

/// The numeric value of a hexadecimal digit.
pub open spec fn hex_val(c: char) -> u8 {
    if '0' <= c && c <= '9' {
        ((c as u32) - 0x30) as u8
    } else if 'a' <= c && c <= 'f' {
        ((c as u32) - 0x57) as u8
    } else if 'A' <= c && c <= 'F' {
        ((c as u32) - 0x37) as u8
    } else {
        0
    }
}

/// The lower-case hexadecimal digit for a value below sixteen.
pub open spec fn nibble_char(n: u8) -> char {
    if n == 0 { '0' }
    else if n == 1 { '1' }
    else if n == 2 { '2' }
    else if n == 3 { '3' }
    else if n == 4 { '4' }
    else if n == 5 { '5' }
    else if n == 6 { '6' }
    else if n == 7 { '7' }
    else if n == 8 { '8' }
    else if n == 9 { '9' }
    else if n == 10 { 'a' }
    else if n == 11 { 'b' }
    else if n == 12 { 'c' }
    else if n == 13 { 'd' }
    else if n == 14 { 'e' }
    else { 'f' }
}

/// The lower-case hexadecimal rendering of a byte string, two digits a byte.
pub open spec fn hex_of(bytes: Seq<u8>) -> Seq<char> {
    Seq::new(bytes.len() * 2, |i: int|
        if i % 2 == 0 {
            nibble_char((bytes[i / 2] / 16) as u8)
        } else {
            nibble_char((bytes[i / 2] % 16) as u8)
        })
}

/// The bytes a hexadecimal string of even length stands for.
pub open spec fn bytes_of_hex(s: Seq<char>) -> Seq<u8> {
    Seq::new(s.len() / 2, |k: int| (hex_val(s[2 * k]) * 16 + hex_val(s[2 * k + 1])) as u8)
}

/// A well-formed textual object identifier: exactly 24 hexadecimal digits,
/// in either case.
pub open spec fn is_object_id_hex(s: Seq<char>) -> bool {
    s.len() == 24 && forall|i: int| 0 <= i < 24 ==> is_hex_digit(#[trigger] s[i])
}

/// The numeric value of one hexadecimal digit, or nothing for any other
/// character.
pub fn hex_digit_val(c: char) -> (r: Option<u8>)
    ensures
        match r {
            Some(v) => is_hex_digit(c) && v == hex_val(c) && v < 16,
            None => !is_hex_digit(c),
        },
{
    if '0' <= c && c <= '9' {
        Some((c as u32 - 0x30) as u8)
    } else if 'a' <= c && c <= 'f' {
        Some((c as u32 - 0x57) as u8)
    } else if 'A' <= c && c <= 'F' {
        Some((c as u32 - 0x37) as u8)
    } else {
        None
    }
}

/// Reads a textual object identifier into its twelve bytes. Any string that
/// is not exactly 24 hexadecimal digits is rejected.
pub fn parse_object_id(s: &str) -> (r: Option<Vec<u8>>)
    ensures
        match r {
            Some(b) => is_object_id_hex(s@) && b@ == bytes_of_hex(s@) && b@.len() == 12,
            None => !is_object_id_hex(s@),
        },
{
    let n = s.unicode_len();
    if n != 24 {
        return None;
    }
    let mut out: Vec<u8> = Vec::new();
    for k in 0..12usize
        invariant
            s@.len() == 24,
            out@.len() == k,
            forall|i: int| 0 <= i < 2 * k ==> is_hex_digit(#[trigger] s@[i]),
            forall|j: int| 0 <= j < k ==> out@[j] == bytes_of_hex(s@)[j],
    {
        let hi = match hex_digit_val(s.get_char(2 * k)) {
            Some(v) => v,
            None => {
                return None;
            },
        };
        let lo = match hex_digit_val(s.get_char(2 * k + 1)) {
            Some(v) => v,
            None => {
                return None;
            },
        };
        out.push(hi * 16 + lo);
        proof {
            assert(forall|i: int| 0 <= i < 2 * (k + 1) ==> is_hex_digit(#[trigger] s@[i]));
        }
    }
    proof {
        assert(out@ =~= bytes_of_hex(s@));
    }
    Some(out)
}

/// A one-character string holding the lower-case digit for a value below
/// sixteen.
fn nibble_str(n: u8) -> (r: &'static str)
    requires
        n < 16,
    ensures
        r@.len() == 1,
        r@[0] == nibble_char(n),
{
    proof {
        reveal_strlit("0");
        reveal_strlit("1");
        reveal_strlit("2");
        reveal_strlit("3");
        reveal_strlit("4");
        reveal_strlit("5");
        reveal_strlit("6");
        reveal_strlit("7");
        reveal_strlit("8");
        reveal_strlit("9");
        reveal_strlit("a");
        reveal_strlit("b");
        reveal_strlit("c");
        reveal_strlit("d");
        reveal_strlit("e");
        reveal_strlit("f");
    }
    if n == 0 { "0" }
    else if n == 1 { "1" }
    else if n == 2 { "2" }
    else if n == 3 { "3" }
    else if n == 4 { "4" }
    else if n == 5 { "5" }
    else if n == 6 { "6" }
    else if n == 7 { "7" }
    else if n == 8 { "8" }
    else if n == 9 { "9" }
    else if n == 10 { "a" }
    else if n == 11 { "b" }
    else if n == 12 { "c" }
    else if n == 13 { "d" }
    else if n == 14 { "e" }
    else { "f" }
}

/// Renders a byte string as lower-case hexadecimal text, two digits a byte.
pub fn object_id_hex(bytes: &[u8]) -> (r: String)
    ensures
        r@ == hex_of(bytes@),
{
    let mut out = String::new();
    let n = bytes.len();
    for i in 0..n
        invariant
            n == bytes@.len(),
            out@ =~= hex_of(bytes@.take(i as int)),
    {
        let b = bytes[i];
        out.append(nibble_str(b / 16));
        out.append(nibble_str(b % 16));
        proof {
            assert(out@ =~= hex_of(bytes@.take(i + 1)));
        }
    }
    proof {
        assert(bytes@.take(n as int) =~= bytes@);
    }
    out
}

/// Rendering bytes as hexadecimal and reading the digits back yields the
/// same bytes, and the rendering is a well-formed identifier exactly when
/// there are twelve bytes.
pub proof fn lemma_hex_round_trip(bytes: Seq<u8>)
    ensures
        bytes.len() == 12 ==> is_object_id_hex(hex_of(bytes)),
        bytes_of_hex(hex_of(bytes)) == bytes,
{
    assert forall|n: u8| n < 16 implies is_hex_digit(nibble_char(n)) && hex_val(nibble_char(n)) == n by {
    }
    assert forall|i: int| 0 <= i < hex_of(bytes).len() implies is_hex_digit(#[trigger] hex_of(bytes)[i]) by {
        assert(bytes[i / 2] / 16 < 16 && bytes[i / 2] % 16 < 16);
    }
    assert forall|k: int| 0 <= k < bytes.len() implies bytes_of_hex(hex_of(bytes))[k] == bytes[k] by {
        assert(hex_of(bytes)[2 * k] == nibble_char((bytes[k] / 16) as u8));
        assert(hex_of(bytes)[2 * k + 1] == nibble_char((bytes[k] % 16) as u8));
    }
    assert(bytes_of_hex(hex_of(bytes)) =~= bytes);
}

} // verus!
