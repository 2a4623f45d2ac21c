//! Lowercase hexadecimal rendering of byte strings.
use vstd::prelude::*;

verus! {

/// The digit alphabet, indexed by nibble value.
pub const HEX_DIGITS: [char; 16] = [
    '0', '1', '2', '3', '4', '5', '6', '7', '8', '9', 'a', 'b', 'c', 'd', 'e', 'f',
];

/// The two digits of one byte, high nibble first.
pub open spec fn byte_hex(b: u8) -> Seq<char> {
    seq![HEX_DIGITS[(b >> 4u8) as int], HEX_DIGITS[(b & 0xfu8) as int]]
}

/// `b` rendered as lowercase hexadecimal, two digits per byte.
pub open spec fn hex_of(b: Seq<u8>) -> Seq<char>
    decreases b.len(),
{
    if b.len() == 0 {
        Seq::empty()
    } else {
        hex_of(b.drop_last()) + byte_hex(b.last())
    }
}

/// A rendering has two digits per byte.
pub proof fn lemma_hex_len(b: Seq<u8>)
    ensures
        hex_of(b).len() == 2 * b.len(),
    decreases b.len(),
{
    if b.len() > 0 {
        lemma_hex_len(b.drop_last());
    }
}

/// Relies on `String::push`: the character is appended at the end of the string.
#[verifier::external_body]
fn push_char(s: &mut String, c: char)
    ensures
        final(s)@ == old(s)@.push(c),
{
    s.push(c)
}

/// `data` as lowercase hexadecimal text.
pub fn bytes_to_hex(data: &[u8]) -> (r: String)
    ensures
        r@ == hex_of(data@),
        r@.len() == 2 * data@.len(),
{
    let digits = HEX_DIGITS;
    let mut s = String::new();
    let mut i: usize = 0;
    while i < data.len()
        invariant
            i <= data@.len(),
            digits@ == HEX_DIGITS@,
            s@ == hex_of(data@.subrange(0, i as int)),
        decreases data@.len() - i,
    {
        let b = data[i];
        assert(b >> 4u8 < 16 && b & 0xfu8 < 16) by (bit_vector);
        push_char(&mut s, digits[(b >> 4u8) as usize]);
        push_char(&mut s, digits[(b & 0xfu8) as usize]);
        i += 1;
        assert(data@.subrange(0, i as int).drop_last() =~= data@.subrange(0, i - 1));
        assert(s@ =~= hex_of(data@.subrange(0, i as int)));
    }
    assert(data@.subrange(0, data@.len() as int) =~= data@);
    proof {
        lemma_hex_len(data@);
    }
    s
}

} // verus!
