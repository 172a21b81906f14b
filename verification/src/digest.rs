//! Content digests and the stable ids built from them.

use vstd::prelude::*;
use vstd::utf8::encode_utf8;

verus! {

/// The lowercase hexadecimal BLAKE3 hash of `bytes`.
pub uninterp spec fn blake3_hex(bytes: Seq<u8>) -> Seq<char>;

/// A lowercase hexadecimal digit.
pub open spec fn is_hex_digit(c: char) -> bool {
    ('0' <= c && c <= '9') || ('a' <= c && c <= 'f')
}

/// Calls `blake3::hash` on `bytes` and writes the hash with
/// `Hash::to_hex`. The contract names the result and states what `to_hex`
/// shows of every hash: 64 lowercase hexadecimal digits.
#[verifier::external_body]
fn blake3_hex_digest(bytes: &[u8]) -> (r: String)
    ensures
        r@ == blake3_hex(bytes@),
        r@.len() == 64,
        forall|i: int| 0 <= i < r@.len() ==> is_hex_digit(#[trigger] r@[i]),
{
    blake3::hash(bytes).to_hex().to_string()
}

/// The UTF-8 bytes of a string.
pub fn utf8_bytes(s: &str) -> (r: Vec<u8>)
    ensures
        r@ == encode_utf8(s@),
{
    let b = s.as_bytes();
    let mut r: Vec<u8> = Vec::new();
    let mut i: usize = 0;
    while i < b.len()
        invariant
            i <= b@.len(),
            b@ == encode_utf8(s@),
            r@ =~= b@.take(i as int),
        decreases b@.len() - i,
    {
        r.push(b[i]);
        i += 1;
    }
    assert(b@.take(b@.len() as int) =~= b@);
    r
}

/// Appends the UTF-8 bytes of `s` to `out`.
pub fn append_utf8(out: &mut Vec<u8>, s: &str)
    ensures
        final(out)@ == old(out)@ + encode_utf8(s@),
{
    let b = s.as_bytes();
    let ghost start = out@;
    let mut i: usize = 0;
    while i < b.len()
        invariant
            i <= b@.len(),
            b@ == encode_utf8(s@),
            out@ =~= start + b@.take(i as int),
        decreases b@.len() - i,
    {
        out.push(b[i]);
        i += 1;
    }
    assert(b@.take(b@.len() as int) =~= b@);
}

/// The hexadecimal BLAKE3 hash of `bytes`.
pub fn hex_digest(bytes: &Vec<u8>) -> (r: String)
    ensures
        r@ == blake3_hex(bytes@),
        r@.len() == 64,
{
    blake3_hex_digest(bytes.as_slice())
}

/// The decimal digit `d` as a character.
pub open spec fn digit_char(d: nat) -> char {
    (48 + d) as char
}

/// `n` written in decimal, as `usize::to_string` writes it.
pub open spec fn decimal(n: nat) -> Seq<char>
    decreases n,
{
    if n < 10 {
        seq![digit_char(n)]
    } else {
        decimal(n / 10).push(digit_char(n % 10))
    }
}

fn digit(d: u128) -> (c: char)
    requires
        d < 10,
    ensures
        c == digit_char(d as nat),
{
    let b: u8 = (d as u8) + 48u8;
    b as char
}

fn decimal_chars(n: u128) -> (r: Vec<char>)
    ensures
        r@ == decimal(n as nat),
    decreases n,
{
    if n < 10 {
        let mut r: Vec<char> = Vec::new();
        r.push(digit(n));
        r
    } else {
        let mut r = decimal_chars(n / 10);
        r.push(digit(n % 10));
        r
    }
}

/// `n` written in decimal.
pub fn decimal_string(n: u128) -> (r: String)
    ensures
        r@ == decimal(n as nat),
{
    let cs = decimal_chars(n);
    crate::text::from_chars(cs.as_slice())
}

/// The bytes a stable id is derived from: the game id, a NUL byte and the
/// key.
pub open spec fn stable_id_input(game_id: Seq<char>, key: Seq<char>) -> Seq<u8> {
    encode_utf8(game_id) + seq![0u8] + encode_utf8(key)
}

/// The stable id of `key` within a game: equal inputs give equal ids in
/// every process.
pub open spec fn stable_id(game_id: Seq<char>, key: Seq<char>) -> Seq<char> {
    blake3_hex(stable_id_input(game_id, key))
}

/// The stable id of `key` within `game_id`.
pub fn generate_stable_id_from_key(game_id: &str, key: &str) -> (r: String)
    ensures
        r@ == stable_id(game_id@, key@),
        r@.len() == 64,
{
    let mut bytes: Vec<u8> = Vec::new();
    append_utf8(&mut bytes, game_id);
    assert(bytes@ =~= encode_utf8(game_id@));
    bytes.push(0u8);
    append_utf8(&mut bytes, key);
    assert(bytes@ =~= stable_id_input(game_id@, key@));
    hex_digest(&bytes)
}

} // verus!
