//! The keys that startup loads or creates: the 32-byte secrets-vault key, kept as standard
//! base64, and the API key, 32 random bytes as lowercase hex.

use base64::Engine;
use rand::Rng;
use vstd::prelude::*;

use crate::text::{is_ws, trim, trim_end_seq, trim_seq, trim_start_seq};

verus! {

/// The character of the 6-bit value `v` in the standard base64 alphabet: `A`-`Z`, `a`-`z`,
/// `0`-`9`, `+` and `/`.
pub open spec fn b64_char(v: int) -> char {
    if v < 26 {
        (65 + v) as char
    } else if v < 52 {
        (71 + v) as char
    } else if v < 62 {
        (v - 4) as char
    } else if v == 62 {
        '+'
    } else {
        '/'
    }
}

/// Standard base64 with `=` padding: each 3 bytes become 4 characters of 6 bits each; a
/// final 1 or 2 bytes become 2 or 3 characters and padding.
pub open spec fn base64_standard(b: Seq<u8>) -> Seq<char>
    decreases b.len(),
{
    if b.len() == 0 {
        Seq::empty()
    } else {
        let x = b[0] as int;
        if b.len() == 1 {
            seq![b64_char(x / 4), b64_char((x % 4) * 16), '=', '=']
        } else {
            let y = b[1] as int;
            if b.len() == 2 {
                seq![b64_char(x / 4), b64_char((x % 4) * 16 + y / 16), b64_char((y % 16) * 4), '=']
            } else {
                let z = b[2] as int;
                seq![
                    b64_char(x / 4),
                    b64_char((x % 4) * 16 + y / 16),
                    b64_char((y % 16) * 4 + z / 64),
                    b64_char(z % 64),
                ] + base64_standard(b.skip(3))
            }
        }
    }
}

/// The shape of standard base64: four characters per started group of three bytes, and
/// padding that tells how many bytes the last group holds.
pub proof fn lemma_base64_shape(b: Seq<u8>)
    ensures
        base64_standard(b).len() == 4 * ((b.len() + 2) / 3),
        b.len() % 3 == 1 ==> base64_standard(b).last() == '=' && base64_standard(b)[base64_standard(b).len() - 2] == '=',
        b.len() % 3 == 2 ==> base64_standard(b).last() == '=' && base64_standard(b)[base64_standard(b).len() - 2] != '=',
        b.len() % 3 == 0 && b.len() > 0 ==> base64_standard(b).last() != '=',
    decreases b.len(),
{
    if b.len() >= 3 {
        lemma_base64_shape(b.skip(3));
        let z = b[2] as int;
        let head = seq![
            b64_char(b[0] as int / 4),
            b64_char((b[0] as int % 4) * 16 + b[1] as int / 16),
            b64_char((b[1] as int % 16) * 4 + z / 64),
            b64_char(z % 64),
        ];
        let tail = base64_standard(b.skip(3));
        assert(base64_standard(b) == head + tail);
        if tail.len() > 0 {
            assert(base64_standard(b).last() == tail.last());
            assert(base64_standard(b)[base64_standard(b).len() - 2] == tail[tail.len() - 2]);
        } else {
            assert(base64_standard(b).last() == b64_char(z % 64));
        }
    } else if b.len() == 2 {
        let y = b[1] as int;
        assert(base64_standard(b)[2] == b64_char((y % 16) * 4));
    }
}

/// Two bytes strings with the same standard base64 text have the same length where one of
/// them holds 32 bytes.
proof fn lemma_base64_key_length(a: Seq<u8>, b: Seq<u8>)
    requires
        base64_standard(a) == base64_standard(b),
        a.len() == 32,
    ensures
        b.len() == 32,
{
    lemma_base64_shape(a);
    lemma_base64_shape(b);
}

/// `base64::engine::general_purpose::STANDARD.encode`: standard alphabet, padded.
#[verifier::external_body]
fn base64_encode(bytes: &[u8; 32]) -> (r: String)
    ensures
        r@ == base64_standard(bytes@),
{
    base64::engine::general_purpose::STANDARD.encode(bytes)
}

/// `base64::engine::general_purpose::STANDARD.decode`; a decode error is `None`. The engine
/// requires canonical padding and rejects trailing bits, so it accepts exactly the texts that
/// its encoding writes, and gives back the bytes encoded.
#[verifier::external_body]
fn base64_decode(text: &str) -> (r: Option<Vec<u8>>)
    ensures
        match r {
            Some(b) => base64_standard(b@) == text@,
            None => forall|b: Seq<u8>| #[trigger] base64_standard(b) != text@,
        },
{
    match base64::engine::general_purpose::STANDARD.decode(text) {
        Ok(bytes) => Some(bytes),
        Err(_) => None,
    }
}

/// `rand::fill`: fills the key with bytes from the thread's random generator. Nothing is
/// stated of the bytes.
#[verifier::external_body]
fn fill_random(key: &mut [u8; 32]) {
    rand::fill(key)
}

/// `rand::rng().random()`: 32 bytes from the thread's random generator. Nothing is stated of
/// the bytes.
#[verifier::external_body]
fn random_bytes() -> [u8; 32] {
    rand::rng().random()
}

/// The lowercase hex digit of a nibble.
pub open spec fn hex_digit(v: int) -> char {
    "0123456789abcdef"@[v]
}

/// Lowercase hex: each byte as two digits, high nibble first.
pub open spec fn hex_lower(b: Seq<u8>) -> Seq<char>
    decreases b.len(),
{
    if b.len() == 0 {
        Seq::empty()
    } else {
        seq![hex_digit(b[0] as int / 16), hex_digit(b[0] as int % 16)] + hex_lower(b.skip(1))
    }
}

/// `hex::encode`: lowercase, two digits per byte, high nibble first.
#[verifier::external_body]
fn hex_encode(bytes: &[u8; 32]) -> (r: String)
    ensures
        r@ == hex_lower(bytes@),
{
    hex::encode(bytes)
}

/// A vault key as text decodes: a 32-byte key, bytes of another length, or invalid base64.
pub enum VaultKeyDecode {
    Key([u8; 32]),
    WrongLength(usize),
    Invalid,
}

fn to_key(bytes: &Vec<u8>) -> (r: [u8; 32])
    requires
        bytes@.len() == 32,
    ensures
        r@ == bytes@,
{
    let mut key = [0u8; 32];
    let mut i: usize = 0;
    while i < 32
        invariant
            i <= 32,
            bytes@.len() == 32,
            forall|k: int| 0 <= k < i ==> key@[k] == bytes@[k],
        decreases 32 - i,
    {
        key.set(i, bytes[i]);
        i = i + 1;
    }
    assert(key@ =~= bytes@);
    key
}

/// Decodes a standard-base64 vault key.
pub fn decode_vault_key(text: &str) -> (r: VaultKeyDecode)
    ensures
        match r {
            VaultKeyDecode::Key(k) => base64_standard(k@) == text@,
            VaultKeyDecode::WrongLength(n) => n != 32 && exists|b: Seq<u8>|
                b.len() == n && #[trigger] base64_standard(b) == text@,
            VaultKeyDecode::Invalid => forall|b: Seq<u8>| #[trigger] base64_standard(b) != text@,
        },
{
    match base64_decode(text) {
        Some(bytes) => if bytes.len() == 32 {
            VaultKeyDecode::Key(to_key(&bytes))
        } else {
            VaultKeyDecode::WrongLength(bytes.len())
        },
        None => VaultKeyDecode::Invalid,
    }
}

/// The vault key configured in the environment where it decodes to 32 bytes; otherwise a
/// random ephemeral key.
pub fn vault_key_from_env(configured: &str) -> (r: [u8; 32])
    ensures
        (exists|b: Seq<u8>| b.len() == 32 && #[trigger] base64_standard(b) == configured@)
            ==> base64_standard(r@) == configured@,
{
    let decoded = decode_vault_key(configured);
    proof {
        if let VaultKeyDecode::WrongLength(n) = decoded {
            if exists|b: Seq<u8>| b.len() == 32 && #[trigger] base64_standard(b) == configured@ {
                let a = choose|b: Seq<u8>| b.len() == 32 && #[trigger] base64_standard(b) == configured@;
                let c = choose|b: Seq<u8>| b.len() == n && #[trigger] base64_standard(b) == configured@;
                lemma_base64_key_length(a, c);
            }
        }
    }
    match decoded {
        VaultKeyDecode::Key(k) => k,
        _ => {
            let mut key = [0u8; 32];
            fill_random(&mut key);
            key
        },
    }
}

/// The vault key stored in the key file: its trimmed content decoded, when that gives 32
/// bytes; `None` where the file is corrupt and a new key is made.
pub fn vault_key_from_file(contents: &str) -> (r: Option<[u8; 32]>)
    ensures
        match r {
            Some(k) => base64_standard(k@) == trim_seq(contents@),
            None => forall|b: Seq<u8>| b.len() == 32 ==> #[trigger] base64_standard(b) != trim_seq(
                contents@,
            ),
        },
{
    let text = trim(contents);
    let decoded = decode_vault_key(text);
    proof {
        if let VaultKeyDecode::WrongLength(n) = decoded {
            assert forall|b: Seq<u8>| b.len() == 32 implies #[trigger] base64_standard(b) != text@ by {
                if base64_standard(b) == text@ {
                    let c = choose|c: Seq<u8>| c.len() == n && #[trigger] base64_standard(c) == text@;
                    lemma_base64_key_length(b, c);
                }
            }
        }
    }
    match decoded {
        VaultKeyDecode::Key(k) => Some(k),
        _ => None,
    }
}

/// A new random vault key and the standard base64 text it is saved as.
pub fn new_vault_key() -> (r: ([u8; 32], String))
    ensures
        r.1@ == base64_standard(r.0@),
{
    let mut key = [0u8; 32];
    fill_random(&mut key);
    let text = base64_encode(&key);
    (key, text)
}

/// The standard base64 text of a vault key, as it is persisted to the deployment platform.
pub fn encode_vault_key(key: &[u8; 32]) -> (r: String)
    ensures
        r@ == base64_standard(key@),
{
    base64_encode(key)
}

proof fn lemma_hex_lower(b: Seq<u8>)
    ensures
        hex_lower(b).len() == 2 * b.len(),
        forall|i: int| 0 <= i < hex_lower(b).len() ==> exists|v: int| 0 <= v < 16 && #[trigger] hex_lower(b)[i] == hex_digit(v),
    decreases b.len(),
{
    if b.len() > 0 {
        lemma_hex_lower(b.skip(1));
        let h = hex_lower(b);
                assert forall|i: int| 0 <= i < h.len() implies exists|v: int| 0 <= v < 16 && #[trigger] h[i] == hex_digit(v) by {
            if i == 0 {
                assert(h[0] == hex_digit(b[0] as int / 16));
            } else if i == 1 {
                assert(h[1] == hex_digit(b[0] as int % 16));
            } else {
                assert(h[i] == hex_lower(b.skip(1))[i - 2]);
            }
        }
    }
}

/// A new API key: 32 random bytes as lowercase hex, 64 hex digits.
pub fn generate_temper_api_key() -> (r: String)
    ensures
        r@.len() == 64,
        forall|i: int| 0 <= i < 64 ==> exists|v: int| 0 <= v < 16 && #[trigger] r@[i] == hex_digit(v),
{
    let bytes = random_bytes();
    let key = hex_encode(&bytes);
    proof {
        lemma_hex_lower(bytes@);
    }
    key
}

} // verus!

verus! {

proof fn lemma_b64_char_injective(v: int, w: int)
    requires
        0 <= v < 64,
        0 <= w < 64,
        b64_char(v) == b64_char(w),
    ensures
        v == w,
{
    assert(b64_char(v) as int == b64_char(w) as int);
}

/// A base64 character is neither padding nor whitespace.
proof fn lemma_b64_char_plain(v: int)
    requires
        0 <= v < 64,
    ensures
        b64_char(v) != '=',
        !is_ws(b64_char(v)),
{
}

/// The first group of standard base64, character by character.
proof fn lemma_base64_head(a: Seq<u8>)
    requires
        a.len() > 0,
    ensures
        ({
            let e = base64_standard(a);
            let x = a[0] as int;
            &&& e.len() >= 4
            &&& e[0] == b64_char(x / 4)
            &&& a.len() == 1 ==> e[1] == b64_char((x % 4) * 16) && e[2] == '=' && e[3] == '='
            &&& a.len() >= 2 ==> e[1] == b64_char((x % 4) * 16 + a[1] as int / 16)
            &&& a.len() == 2 ==> e[2] == b64_char((a[1] as int % 16) * 4) && e[3] == '='
            &&& a.len() >= 3 ==> e[2] == b64_char((a[1] as int % 16) * 4 + a[2] as int / 64)
                && e[3] == b64_char(a[2] as int % 64) && e.skip(4) == base64_standard(a.skip(3))
        }),
{
    let e = base64_standard(a);
    if a.len() >= 3 {
        let z = a[2] as int;
        let head = seq![
            b64_char(a[0] as int / 4),
            b64_char((a[0] as int % 4) * 16 + a[1] as int / 16),
            b64_char((a[1] as int % 16) * 4 + z / 64),
            b64_char(z % 64),
        ];
        assert(e == head + base64_standard(a.skip(3)));
        assert(e.skip(4) =~= base64_standard(a.skip(3)));
    }
}

/// Standard base64 writes different bytes as different texts.
pub proof fn lemma_base64_injective(a: Seq<u8>, b: Seq<u8>)
    requires
        base64_standard(a) == base64_standard(b),
    ensures
        a == b,
    decreases a.len(),
{
    lemma_base64_shape(a);
    lemma_base64_shape(b);
    let e = base64_standard(a);
    if a.len() == 0 {
        assert(b.len() == 0);
        assert(a =~= b);
    } else {
        assert(b.len() > 0);
        lemma_base64_head(a);
        lemma_base64_head(b);
        let x = a[0] as int;
        let x2 = b[0] as int;
        lemma_b64_char_injective(x / 4, x2 / 4);
        if a.len() == 1 || b.len() == 1 {
            if a.len() != b.len() {
                if a.len() == 1 {
                    lemma_b64_char_plain((b[1] as int % 16) * 4 + if b.len() >= 3 { b[2] as int / 64 } else { 0 });
                } else {
                    lemma_b64_char_plain((a[1] as int % 16) * 4 + if a.len() >= 3 { a[2] as int / 64 } else { 0 });
                }
                assert(false);
            }
            lemma_b64_char_injective((x % 4) * 16, (x2 % 4) * 16);
            assert(x == x2);
            assert(a =~= b);
        } else {
            let y = a[1] as int;
            let y2 = b[1] as int;
            lemma_b64_char_injective((x % 4) * 16 + y / 16, (x2 % 4) * 16 + y2 / 16);
            assert(x == x2);
            assert(y / 16 == y2 / 16);
            if a.len() == 2 || b.len() == 2 {
                if a.len() != b.len() {
                    if a.len() == 2 {
                        lemma_b64_char_plain(b[2] as int % 64);
                    } else {
                        lemma_b64_char_plain(a[2] as int % 64);
                    }
                    assert(false);
                }
                lemma_b64_char_injective((y % 16) * 4, (y2 % 16) * 4);
                assert(y == y2);
                assert(a =~= b);
            } else {
                let z = a[2] as int;
                let z2 = b[2] as int;
                lemma_b64_char_injective((y % 16) * 4 + z / 64, (y2 % 16) * 4 + z2 / 64);
                lemma_b64_char_injective(z % 64, z2 % 64);
                assert(y == y2);
                assert(z == z2);
                lemma_base64_injective(a.skip(3), b.skip(3));
                assert(a =~= a.take(3) + a.skip(3));
                assert(b =~= b.take(3) + b.skip(3));
                assert(a.take(3) =~= b.take(3));
            }
        }
    }
}

/// The text that a vault key is saved as reads back as that key: it is its own trim, and no
/// other bytes have the same standard base64.
pub proof fn law_vault_key_text_reads_back(key: Seq<u8>, other: Seq<u8>)
    requires
        key.len() == 32,
    ensures
        trim_seq(base64_standard(key)) == base64_standard(key),
        base64_standard(other) == base64_standard(key) ==> other == key,
{
    let e = base64_standard(key);
    lemma_base64_shape(key);
    lemma_b64_char_plain(key[0] as int / 4);
    assert(e[0] == b64_char(key[0] as int / 4));
    assert(!is_ws(e.last()));
    assert(trim_start_seq(e) == e);
    assert(trim_end_seq(e) == e);
    if base64_standard(other) == e {
        lemma_base64_injective(other, key);
    }
}

} // verus!
