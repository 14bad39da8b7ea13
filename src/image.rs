use vstd::prelude::*;

verus! {

/// The symbol of the standard base64 alphabet for the 6-bit value `v`.
pub open spec fn base64_symbol(v: int) -> u8 {
    if v < 26 {
        (65 + v) as u8
    } else if v < 52 {
        (97 + v - 26) as u8
    } else if v < 62 {
        (48 + v - 52) as u8
    } else if v == 62 {
        43
    } else {
        47
    }
}

/// The padding symbol `=`.
pub open spec fn base64_pad() -> u8 {
    61
}

/// Standard base64 with padding: each group of three bytes becomes four
/// symbols; a final group of one or two bytes is padded with `=`.
pub open spec fn base64_bytes(b: Seq<u8>) -> Seq<u8>
    decreases b.len(),
{
    if b.len() == 0 {
        Seq::empty()
    } else {
        let x = b[0] as int;
        let y = if b.len() > 1 { b[1] as int } else { 0 };
        let z = if b.len() > 2 { b[2] as int } else { 0 };
        let s0 = base64_symbol(x / 4);
        let s1 = base64_symbol((x % 4) * 16 + y / 16);
        let s2 = base64_symbol((y % 16) * 4 + z / 64);
        let s3 = base64_symbol(z % 64);
        if b.len() == 1 {
            seq![s0, s1, base64_pad(), base64_pad()]
        } else if b.len() == 2 {
            seq![s0, s1, s2, base64_pad()]
        } else {
            seq![s0, s1, s2, s3] + base64_bytes(b.subrange(3, b.len() as int))
        }
    }
}

/// The base64 text of `b`, as characters.
pub open spec fn base64_text(b: Seq<u8>) -> Seq<char> {
    base64_bytes(b).map_values(|c: u8| c as char)
}

/// The 6-bit value of a symbol of the standard base64 alphabet.
pub open spec fn base64_value(c: u8) -> int {
    if 65 <= c <= 90 {
        c - 65
    } else if 97 <= c <= 122 {
        c - 97 + 26
    } else if 48 <= c <= 57 {
        c - 48 + 52
    } else if c == 43 {
        62
    } else {
        63
    }
}

/// Decoding of padded standard base64, four symbols at a time.
pub open spec fn base64_decode(t: Seq<u8>) -> Seq<u8>
    decreases t.len(),
{
    if t.len() < 4 {
        Seq::empty()
    } else {
        let v0 = base64_value(t[0]);
        let v1 = base64_value(t[1]);
        let v2 = base64_value(t[2]);
        let v3 = base64_value(t[3]);
        let b0 = (v0 * 4 + v1 / 16) as u8;
        let b1 = ((v1 % 16) * 16 + v2 / 4) as u8;
        let b2 = ((v2 % 4) * 64 + v3) as u8;
        if t[2] == base64_pad() {
            seq![b0]
        } else if t[3] == base64_pad() {
            seq![b0, b1]
        } else {
            seq![b0, b1, b2] + base64_decode(t.subrange(4, t.len() as int))
        }
    }
}

proof fn lemma_symbol_value(v: int)
    requires
        0 <= v < 64,
    ensures
        base64_value(base64_symbol(v)) == v,
        base64_symbol(v) != base64_pad(),
{
}

proof fn lemma_group(x: int, y: int, z: int)
    requires
        0 <= x < 256,
        0 <= y < 256,
        0 <= z < 256,
    ensures
        (x / 4) * 4 + ((x % 4) * 16 + y / 16) / 16 == x,
        (((x % 4) * 16 + y / 16) % 16) * 16 + ((y % 16) * 4 + z / 64) / 4 == y,
        (((y % 16) * 4 + z / 64) % 4) * 64 + z % 64 == z,
        0 <= x / 4 < 64,
        0 <= (x % 4) * 16 + y / 16 < 64,
        0 <= (y % 16) * 4 + z / 64 < 64,
        0 <= z % 64 < 64,
{
}

/// Decoding the base64 text of any byte string gives the bytes back.
pub proof fn law_base64_round_trip(b: Seq<u8>)
    ensures
        base64_decode(base64_bytes(b)) == b,
    decreases b.len(),
{
    if b.len() > 0 {
        let x = b[0] as int;
        let y = if b.len() > 1 { b[1] as int } else { 0 };
        let z = if b.len() > 2 { b[2] as int } else { 0 };
        lemma_group(x, y, z);
        lemma_symbol_value(x / 4);
        lemma_symbol_value((x % 4) * 16 + y / 16);
        lemma_symbol_value((y % 16) * 4 + z / 64);
        lemma_symbol_value(z % 64);
        let t = base64_bytes(b);
        if b.len() >= 3 {
            let rest = b.subrange(3, b.len() as int);
            law_base64_round_trip(rest);
            assert(t.subrange(4, t.len() as int) =~= base64_bytes(rest));
        }
        assert(base64_decode(t) =~= b);
    }
}

/// Relies on base64's `STANDARD` engine (`Engine::encode`): standard alphabet,
/// `=` padding.
#[verifier::external_body]
fn encode_standard(image: &[u8]) -> (r: String)
    ensures
        r@ == base64_text(image@),
{
    base64::Engine::encode(&base64::engine::general_purpose::STANDARD, image)
}

/// Encodes a flat binary image as standard, padded base64 text.
pub fn encode_image(image: &[u8]) -> (r: String)
    ensures
        r@ == base64_text(image@),
{
    encode_standard(image)
}

} // verus!
