//! Random slug generation: cryptographically sourced random bytes,
//! rendered as lowercase hexadecimal, two digits per byte, with a length
//! floor.

use vstd::prelude::*;

use rand::Rng;

verus! {

use vstd::string::StringExecFns;

/// The lowercase hexadecimal digit for a value below sixteen.
pub open spec fn hex_digit(d: int) -> char {
    if d == 0 {
        '0'
    } else if d == 1 {
        '1'
    } else if d == 2 {
        '2'
    } else if d == 3 {
        '3'
    } else if d == 4 {
        '4'
    } else if d == 5 {
        '5'
    } else if d == 6 {
        '6'
    } else if d == 7 {
        '7'
    } else if d == 8 {
        '8'
    } else if d == 9 {
        '9'
    } else if d == 10 {
        'a'
    } else if d == 11 {
        'b'
    } else if d == 12 {
        'c'
    } else if d == 13 {
        'd'
    } else if d == 14 {
        'e'
    } else {
        'f'
    }
}

/// A lowercase hexadecimal digit character.
pub open spec fn is_lower_hex(c: char) -> bool {
    ('0' <= c && c <= '9') || ('a' <= c && c <= 'f')
}

/// Lowercase hexadecimal rendering of a byte string, two digits per byte.
pub open spec fn hex_str(bytes: Seq<u8>) -> Seq<char>
    decreases bytes.len(),
{
    if bytes.len() == 0 {
        Seq::empty()
    } else {
        hex_str(bytes.drop_last()) + seq![
            hex_digit(bytes.last() as int / 16),
            hex_digit(bytes.last() as int % 16),
        ]
    }
}

/// The hexadecimal rendering has two digits per byte, all of them
/// lowercase hexadecimal.
pub proof fn lemma_hex_str_shape(bytes: Seq<u8>)
    ensures
        hex_str(bytes).len() == 2 * bytes.len(),
        forall|i: int| 0 <= i < hex_str(bytes).len() ==> is_lower_hex(hex_str(bytes)[i]),
    decreases bytes.len(),
{
    if bytes.len() > 0 {
        lemma_hex_str_shape(bytes.drop_last());
    }
}

fn hex_digit_str(d: u8) -> (r: &'static str)
    requires
        d < 16,
    ensures
        r@ == seq![hex_digit(d as int)],
{
    let r: &'static str = match d {
        0 => "0",
        1 => "1",
        2 => "2",
        3 => "3",
        4 => "4",
        5 => "5",
        6 => "6",
        7 => "7",
        8 => "8",
        9 => "9",
        10 => "a",
        11 => "b",
        12 => "c",
        13 => "d",
        14 => "e",
        _ => "f",
    };
    proof {
        reveal_strlit("0");
        reveal_strlit("1");
        reveal_strlit("2");
        reveal_strlit("3");
        reveal_strlit("4");
        reveal_strlit("5");
        reveal_strlit("6");
        reveal_strlit("7");
        reveal_strlit("8");
        reveal_strlit("9");
        reveal_strlit("a");
        reveal_strlit("b");
        reveal_strlit("c");
        reveal_strlit("d");
        reveal_strlit("e");
        reveal_strlit("f");
        assert(r@ =~= seq![hex_digit(d as int)]);
    }
    r
}

/// Render a byte string as lowercase hexadecimal.
pub fn hex_encode(bytes: &Vec<u8>) -> (r: String)
    ensures
        r@ == hex_str(bytes@),
{
    let n: usize = bytes.len();
    let mut s = String::new();
    let mut i: usize = 0;
    while i < n
        invariant
            n == bytes@.len(),
            i <= n,
            s@ == hex_str(bytes@.take(i as int)),
        decreases n - i,
    {
        let b = bytes[i];
        s.append(hex_digit_str(b / 16));
        s.append(hex_digit_str(b % 16));
        proof {
            assert(bytes@.take(i + 1).drop_last() =~= bytes@.take(i as int));
            assert(s@ =~= hex_str(bytes@.take(i + 1)));
        }
        i = i + 1;
    }
    proof {
        assert(bytes@.take(n as int) =~= bytes@);
    }
    s
}

/// Relies on rand: `rand::rng().fill_bytes` fills the buffer with random
/// bytes from the thread's cryptographically secure generator. Nothing is
/// assumed of the values, only that the buffer keeps its length.
#[verifier::external_body]
fn random_bytes(len: usize) -> (r: Vec<u8>)
    ensures
        r@.len() == len,
{
    let mut buf = vec![0u8; len];
    rand::rng().fill_bytes(&mut buf);
    buf
}

/// The length floor slug generation enforces.
pub open spec fn slug_floor(min_len: int) -> int {
    if min_len >= 6 {
        min_len
    } else {
        6
    }
}

/// The exact length every slug generated for this floor has: the floor
/// rounded up to the next even number.
pub open spec fn generated_len(min_len: int) -> int {
    2 * ((slug_floor(min_len) + 1) / 2)
}

/// Generate a random, URL-safe slug with at least `min_len` characters
/// and a floor of six.
///
/// The slug is lowercase hexadecimal over `ceil(floor_len / 2)` random
/// bytes, so its length is always even and at least the floor (one more
/// than the floor when the floor is odd).
pub fn generate_slug(min_len: usize) -> (r: String)
    ensures
        r@.len() == generated_len(min_len as int),
        r@.len() % 2 == 0,
        r@.len() >= slug_floor(min_len as int) >= min_len,
        forall|i: int| 0 <= i < r@.len() ==> is_lower_hex(r@[i]),
{
    let m: usize = if min_len >= 6 {
        min_len
    } else {
        6
    };
    let bytes_len: usize = m / 2 + m % 2;
    let buf = random_bytes(bytes_len);
    let r = hex_encode(&buf);
    proof {
        lemma_hex_str_shape(buf@);
    }
    r
}

} // verus!
