use vstd::prelude::*;
use vstd::string::StringExecFns;

verus! {

/// The SHA-256 digest of a byte sequence. The digest is a function of the
/// bytes alone, so the result only carries this name and its documented
/// length.
pub uninterp spec fn sha256_of(data: Seq<u8>) -> Seq<u8>;

/// The lower-case hexadecimal digit character of a value below sixteen.
pub open spec fn hex_digit_char(d: int) -> char {
    if d == 0 { '0' }
    else if d == 1 { '1' }
    else if d == 2 { '2' }
    else if d == 3 { '3' }
    else if d == 4 { '4' }
    else if d == 5 { '5' }
    else if d == 6 { '6' }
    else if d == 7 { '7' }
    else if d == 8 { '8' }
    else if d == 9 { '9' }
    else if d == 10 { 'a' }
    else if d == 11 { 'b' }
    else if d == 12 { 'c' }
    else if d == 13 { 'd' }
    else if d == 14 { 'e' }
    else { 'f' }
}

/// The two lower-case hexadecimal digits of one byte, high digit first.
pub open spec fn hex_pair(b: u8) -> Seq<char> {
    seq![hex_digit_char(b as int / 16), hex_digit_char(b as int % 16)]
}

/// The lower-case hexadecimal encoding of a byte sequence: two digits for
/// each byte, in order.
pub open spec fn hex_of(data: Seq<u8>) -> Seq<char>
    decreases data.len(),
{
    if data.len() == 0 {
        Seq::empty()
    } else {
        hex_of(data.drop_last()) + hex_pair(data.last())
    }
}

/// Relies on sha2::Sha256::digest, which hashes any byte slice and always
/// returns a 32-byte digest, depending on the input bytes alone.
#[verifier::external_body]
fn sha256(data: &Vec<u8>) -> (r: Vec<u8>)
    ensures
        r@ == sha256_of(data@),
        r@.len() == 32,
{
    <sha2::Sha256 as sha2::Digest>::digest(data).to_vec()
}

fn push_hex_digit(s: &mut String, d: u8)
    requires
        d < 16,
    ensures
        final(s)@ == old(s)@ + seq![hex_digit_char(d as int)],
{
    match d {
        0 => {
            proof { reveal_strlit("0"); }
            s.append("0");
        }
        1 => {
            proof { reveal_strlit("1"); }
            s.append("1");
        }
        2 => {
            proof { reveal_strlit("2"); }
            s.append("2");
        }
        3 => {
            proof { reveal_strlit("3"); }
            s.append("3");
        }
        4 => {
            proof { reveal_strlit("4"); }
            s.append("4");
        }
        5 => {
            proof { reveal_strlit("5"); }
            s.append("5");
        }
        6 => {
            proof { reveal_strlit("6"); }
            s.append("6");
        }
        7 => {
            proof { reveal_strlit("7"); }
            s.append("7");
        }
        8 => {
            proof { reveal_strlit("8"); }
            s.append("8");
        }
        9 => {
            proof { reveal_strlit("9"); }
            s.append("9");
        }
        10 => {
            proof { reveal_strlit("a"); }
            s.append("a");
        }
        11 => {
            proof { reveal_strlit("b"); }
            s.append("b");
        }
        12 => {
            proof { reveal_strlit("c"); }
            s.append("c");
        }
        13 => {
            proof { reveal_strlit("d"); }
            s.append("d");
        }
        14 => {
            proof { reveal_strlit("e"); }
            s.append("e");
        }
        _ => {
            proof { reveal_strlit("f"); }
            s.append("f");
        }
    }
    proof {
        assert(s@ =~= old(s)@ + seq![hex_digit_char(d as int)]);
    }
}

/// Encodes bytes as lower-case hexadecimal, two digits per byte, in order.
pub fn hex_encode(data: &Vec<u8>) -> (r: String)
    ensures
        r@ == hex_of(data@),
        r@.len() == 2 * data@.len(),
{
    let mut s = String::new();
    let mut i: usize = 0;
    while i < data.len()
        invariant
            i <= data.len(),
            s@ == hex_of(data@.subrange(0, i as int)),
            s@.len() == 2 * i,
        decreases data.len() - i,
    {
        let b = data[i];
        push_hex_digit(&mut s, b / 16);
        push_hex_digit(&mut s, b % 16);
        proof {
            assert(data@.subrange(0, i + 1).drop_last() =~= data@.subrange(0, i as int));
            assert(data@.subrange(0, i + 1).last() == data@[i as int]);
            assert(s@ =~= hex_of(data@.subrange(0, i + 1)));
        }
        i = i + 1;
    }
    proof {
        assert(data@.subrange(0, data@.len() as int) =~= data@);
    }
    s
}

/// The SHA-256 digest of `data`, in lower-case hexadecimal: always 64
/// digits. A dump reports this fingerprint of its input before parsing it.
pub fn input_digest_hex(data: &Vec<u8>) -> (r: String)
    ensures
        r@ == hex_of(sha256_of(data@)),
        r@.len() == 64,
{
    let d = sha256(data);
    hex_encode(&d)
}

} // verus!
