use vstd::prelude::*;

verus! {

/// A nibble (`v < 16`) rendered as a lowercase ASCII hex digit.
pub open spec fn spec_hex_digit(v: u8) -> u8 {
    if v <= 9 {
        (0x30 + v) as u8
    } else {
        (0x57 + v) as u8
    }
}

/// A nibble (`v < 16`) rendered as an uppercase ASCII hex digit.
pub open spec fn spec_hex_digit_upper(v: u8) -> u8 {
    if v <= 9 {
        (0x30 + v) as u8
    } else {
        (0x37 + v) as u8
    }
}

pub open spec fn is_lower_hex_ascii(b: u8) -> bool {
    (0x30 <= b && b <= 0x39) || (0x61 <= b && b <= 0x66)
}

pub open spec fn is_upper_hex_ascii(b: u8) -> bool {
    (0x30 <= b && b <= 0x39) || (0x41 <= b && b <= 0x46)
}

/// The lowercase hex rendering of a byte string: two digits per byte,
/// high nibble first.
pub open spec fn spec_hex_lower(s: Seq<u8>) -> Seq<u8> {
    Seq::new(
        2 * s.len(),
        |i: int|
            if i % 2 == 0 {
                spec_hex_digit(s[i / 2] >> 4)
            } else {
                spec_hex_digit(s[i / 2] & 0x0f)
            },
    )
}

/// The uppercase hex rendering of a byte string.
pub open spec fn spec_hex_upper(s: Seq<u8>) -> Seq<u8> {
    Seq::new(
        2 * s.len(),
        |i: int|
            if i % 2 == 0 {
                spec_hex_digit_upper(s[i / 2] >> 4)
            } else {
                spec_hex_digit_upper(s[i / 2] & 0x0f)
            },
    )
}

/// Each byte of a lowercase hex rendering is a lowercase hex digit.
pub proof fn lemma_hex_lower_digits(s: Seq<u8>, j: int)
    requires
        0 <= j < spec_hex_lower(s).len(),
    ensures
        is_lower_hex_ascii(spec_hex_lower(s)[j]),
{
    lemma_nibbles(s[j / 2]);
}

proof fn lemma_nibbles(b: u8)
    ensures
        b >> 4 < 16,
        b & 0x0f < 16,
{
    assert(b >> 4 < 16) by (bit_vector);
    assert(b & 0x0f < 16) by (bit_vector);
}

/// The nibble `v` as a lowercase hex digit character; values above 15
/// yield the placeholder `'?'`.
pub open spec fn spec_hex_char(v: u8) -> char {
    if v <= 15 {
        spec_hex_digit(v) as char
    } else {
        '?'
    }
}

/// The character for one hex digit, as the fingerprint encoder uses it.
pub fn hex_char(v: u8) -> (c: char)
    ensures
        c == spec_hex_char(v),
{
    if v <= 9 {
        (0x30 + v) as char
    } else if v <= 15 {
        (0x57 + v) as char
    } else {
        '?'
    }
}

fn hex_digit(v: u8) -> (b: u8)
    requires
        v < 16,
    ensures
        b == spec_hex_digit(v),
{
    if v <= 9 {
        0x30 + v
    } else {
        0x57 + v
    }
}

fn hex_digit_upper(v: u8) -> (b: u8)
    requires
        v < 16,
    ensures
        b == spec_hex_digit_upper(v),
{
    if v <= 9 {
        0x30 + v
    } else {
        0x37 + v
    }
}

/// Encode bytes as lowercase ASCII hex. Every output byte is a lowercase
/// hex digit, and the output is twice as long as the input.
pub fn hex_lower_bytes(data: &[u8]) -> (r: Vec<u8>)
    ensures
        r@ == spec_hex_lower(data@),
        r@.len() == 2 * data@.len(),
        forall|i: int| 0 <= i < r@.len() ==> is_lower_hex_ascii(#[trigger] r@[i]),
{
    let mut r: Vec<u8> = Vec::new();
    let mut i: usize = 0;
    while i < data.len()
        invariant
            i <= data.len(),
            r@ == spec_hex_lower(data@.take(i as int)),
        decreases data.len() - i,
    {
        let b = data[i];
        let hi = b >> 4;
        let lo = b & 0x0f;
        proof {
            lemma_nibbles(b);
        }
        r.push(hex_digit(hi));
        r.push(hex_digit(lo));
        i = i + 1;
        proof {
            assert(r@ =~= spec_hex_lower(data@.take(i as int)));
        }
    }
    proof {
        assert(data@.take(data@.len() as int) =~= data@);
        assert forall|j: int| 0 <= j < spec_hex_lower(data@).len() implies is_lower_hex_ascii(
            #[trigger] spec_hex_lower(data@)[j],
        ) by {
            lemma_nibbles(data@[j / 2]);
        }
    }
    r
}

/// Encode bytes as uppercase ASCII hex, as the provisioning ceremony
/// displays the master key.
pub fn hex_upper_bytes(data: &[u8]) -> (r: Vec<u8>)
    ensures
        r@ == spec_hex_upper(data@),
        r@.len() == 2 * data@.len(),
        forall|i: int| 0 <= i < r@.len() ==> is_upper_hex_ascii(#[trigger] r@[i]),
{
    let mut r: Vec<u8> = Vec::new();
    let mut i: usize = 0;
    while i < data.len()
        invariant
            i <= data.len(),
            r@ == spec_hex_upper(data@.take(i as int)),
        decreases data.len() - i,
    {
        let b = data[i];
        let hi = b >> 4;
        let lo = b & 0x0f;
        proof {
            lemma_nibbles(b);
        }
        r.push(hex_digit_upper(hi));
        r.push(hex_digit_upper(lo));
        i = i + 1;
        proof {
            assert(r@ =~= spec_hex_upper(data@.take(i as int)));
        }
    }
    proof {
        assert(data@.take(data@.len() as int) =~= data@);
        assert forall|j: int| 0 <= j < spec_hex_upper(data@).len() implies is_upper_hex_ascii(
            #[trigger] spec_hex_upper(data@)[j],
        ) by {
            lemma_nibbles(data@[j / 2]);
        }
    }
    r
}

} // verus!
