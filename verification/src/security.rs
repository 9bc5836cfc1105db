//! The stored form of protected secrets (such as API keys).
//!
//! An encrypted value is stored as `dpapi:` followed by the lower-case hex
//! of the ciphertext; a value without the prefix is plain text awaiting
//! migration.  The encryption itself is done by the operating system.
use vstd::prelude::*;
use vstd::utf8::*;

use crate::chars::{concat, from_chars, starts_with_seq, to_chars};
use crate::error::AppError;

verus! {

/// Prefix of encrypted values.
pub const DPAPI_PREFIX: &'static str = "dpapi:";

/// The lower-case hex digit of `d < 16`.
pub open spec fn hex_digit(d: u8) -> char {
    if d < 10 {
        ((d + 48) as u8) as char
    } else {
        ((d + 87) as u8) as char
    }
}

/// Two lower-case hex digits per byte, in order.
pub open spec fn hex_seq(bytes: Seq<u8>) -> Seq<char>
    decreases bytes.len(),
{
    if bytes.len() == 0 {
        Seq::empty()
    } else {
        seq![hex_digit(bytes[0] / 16), hex_digit(bytes[0] % 16)] + hex_seq(bytes.drop_first())
    }
}

proof fn lemma_hex_seq_push(bytes: Seq<u8>, b: u8)
    ensures
        hex_seq(bytes.push(b)) == hex_seq(bytes) + seq![hex_digit(b / 16), hex_digit(b % 16)],
    decreases bytes.len(),
{
    if bytes.len() == 0 {
        let s = bytes.push(b);
        assert(s.len() == 1 && s[0] == b);
        assert(s.drop_first() =~= Seq::<u8>::empty());
        assert(hex_seq(s.drop_first()) == Seq::<char>::empty());
        assert(hex_seq(bytes) == Seq::<char>::empty());
        assert(hex_seq(s) =~= seq![hex_digit(b / 16), hex_digit(b % 16)]);
    } else {
        lemma_hex_seq_push(bytes.drop_first(), b);
        assert(bytes.push(b).drop_first() =~= bytes.drop_first().push(b));
        let h = seq![hex_digit(bytes[0] / 16), hex_digit(bytes[0] % 16)];
        assert(hex_seq(bytes.push(b)) =~= h + (hex_seq(bytes.drop_first()) + seq![
            hex_digit(b / 16),
            hex_digit(b % 16),
        ]));
    }
}

fn hex_digit_exec(d: u8) -> (c: char)
    requires
        d < 16,
    ensures
        c == hex_digit(d),
{
    if d < 10 {
        ((d + 48) as u8) as char
    } else {
        ((d + 87) as u8) as char
    }
}

/// Encodes bytes as lower-case hex, two digits per byte.
pub fn bytes_to_hex(bytes: &[u8]) -> (r: String)
    ensures
        r@ == hex_seq(bytes@),
{
    let mut out: Vec<char> = Vec::new();
    let mut i: usize = 0;
    while i < bytes.len()
        invariant
            i <= bytes.len(),
            out@ == hex_seq(bytes@.take(i as int)),
        decreases bytes.len() - i,
    {
        let b = bytes[i];
        proof {
            lemma_hex_seq_push(bytes@.take(i as int), b);
            assert(bytes@.take(i + 1) =~= bytes@.take(i as int).push(b));
        }
        out.push(hex_digit_exec(b / 16));
        out.push(hex_digit_exec(b % 16));
        i = i + 1;
    }
    assert(bytes@.take(bytes.len() as int) =~= bytes@);
    from_chars(&out)
}

/// The value of a hex digit byte (`0-9`, `a-f`, `A-F`).
pub open spec fn hex_value(c: u8) -> Option<u8> {
    if 48 <= c <= 57 {
        Some((c - 48) as u8)
    } else if 97 <= c <= 102 {
        Some((c - 87) as u8)
    } else if 65 <= c <= 70 {
        Some((c - 55) as u8)
    } else {
        None
    }
}

/// `u8::from_str_radix` on a two-byte text in base 16: two hex digits, or
/// `+` and one hex digit.
pub open spec fn pair_value(a: u8, b: u8) -> Option<u8> {
    match (hex_value(a), hex_value(b)) {
        (Some(x), Some(y)) => Some((x * 16 + y) as u8),
        (None, Some(y)) => if a == 43 {
            Some(y)
        } else {
            None
        },
        _ => None,
    }
}

/// A UTF-8 continuation byte (no character starts there).
pub open spec fn is_continuation(b: u8) -> bool {
    128 <= b < 192
}

/// Slicing the pair at `i` (bytes `i` and `i + 1`) falls inside a character.
pub open spec fn pair_cut(bytes: Seq<u8>, i: int) -> bool {
    is_continuation(bytes[i]) || (i + 2 < bytes.len() && is_continuation(bytes[i + 2]))
}

/// Decoding pairs from byte `i` on: `None` at the first pair that is not a
/// number.
pub open spec fn decode_from(bytes: Seq<u8>, i: int) -> Option<Seq<u8>>
    decreases bytes.len() - i,
{
    if i < 0 || i + 2 > bytes.len() {
        Some(Seq::empty())
    } else {
        match pair_value(bytes[i], bytes[i + 1]) {
            None => None,
            Some(v) => match decode_from(bytes, i + 2) {
                None => None,
                Some(rest) => Some(seq![v] + rest),
            },
        }
    }
}

/// Decoding from byte `i` on reaches a pair that falls inside a character
/// before any pair that is not a number: the slicing panics.
pub open spec fn cut_from(bytes: Seq<u8>, i: int) -> bool
    decreases bytes.len() - i,
{
    if i < 0 || i + 2 > bytes.len() {
        false
    } else if pair_cut(bytes, i) {
        true
    } else if pair_value(bytes[i], bytes[i + 1]) is None {
        false
    } else {
        cut_from(bytes, i + 2)
    }
}

/// Hex decoding of a text, on its UTF-8 bytes: an error for an odd length
/// or a pair that is not a hex number.
pub open spec fn hex_decode(bytes: Seq<u8>) -> Option<Seq<u8>> {
    if bytes.len() % 2 != 0 {
        None
    } else {
        decode_from(bytes, 0)
    }
}

/// The text cannot be decoded without cutting a character.
pub open spec fn hex_panics(hex: Seq<char>) -> bool {
    encode_utf8(hex).len() % 2 == 0 && cut_from(encode_utf8(hex), 0)
}

fn hex_value_exec(c: u8) -> (r: Option<u8>)
    ensures
        r == hex_value(c),
{
    if 48 <= c && c <= 57 {
        Some(c - 48)
    } else if 97 <= c && c <= 102 {
        Some(c - 87)
    } else if 65 <= c && c <= 70 {
        Some(c - 55)
    } else {
        None
    }
}

fn pair_value_exec(a: u8, b: u8) -> (r: Option<u8>)
    ensures
        r == pair_value(a, b),
{
    match (hex_value_exec(a), hex_value_exec(b)) {
        (Some(x), Some(y)) => Some(x * 16 + y),
        (None, Some(y)) => if a == 43 {
            Some(y)
        } else {
            None
        },
        _ => None,
    }
}

/// Decodes a hex text into bytes; the length is counted in UTF-8 bytes.
pub fn hex_to_bytes(hex: &str) -> (r: Result<Vec<u8>, AppError>)
    requires
        !hex_panics(hex@),
    ensures
        encode_utf8(hex@).len() % 2 != 0 ==> r is Err && r->Err_0 == AppError::Config(
            r->Err_0->Config_0,
        ) && r->Err_0->Config_0@ == "hex 长度非偶数"@,
        encode_utf8(hex@).len() % 2 == 0 && hex_decode(encode_utf8(hex@)) is None ==> r is Err
            && r->Err_0 == AppError::Config(r->Err_0->Config_0) && r->Err_0->Config_0@
            == "hex 解码失败: invalid digit found in string"@,
        hex_decode(encode_utf8(hex@)) matches Some(v) ==> r is Ok && r->Ok_0@ == v,
{
    let b = hex.as_bytes();
    let ghost bs = encode_utf8(hex@);
    assert(b@ == bs);
    if b.len() % 2 != 0 {
        return Err(AppError::Config("hex 长度非偶数".to_owned()));
    }
    let mut out: Vec<u8> = Vec::new();
    let mut i: usize = 0;
    while i < b.len()
        invariant
            b@ == bs,
            bs == encode_utf8(hex@),
            bs.len() % 2 == 0,
            i <= bs.len(),
            i % 2 == 0,
            !cut_from(bs, i as int),
            decode_from(bs, 0) == (match decode_from(bs, i as int) {
                None => None,
                Some(rest) => Some(out@ + rest),
            }),
        decreases b.len() - i,
    {
        match pair_value_exec(b[i], b[i + 1]) {
            None => {
                return Err(AppError::Config("hex 解码失败: invalid digit found in string".to_owned()));
            },
            Some(v) => {
                proof {
                    match decode_from(bs, i + 2) {
                        None => {},
                        Some(rest) => {
                            assert(out@.push(v) + rest =~= out@ + (seq![v] + rest));
                        },
                    }
                }
                out.push(v);
            },
        }
        i = i + 2;
    }
    assert(out@ + Seq::<u8>::empty() =~= out@);
    Ok(out)
}

/// `value` is in the encrypted form.
pub open spec fn encrypted_form(value: Seq<char>) -> bool {
    starts_with_seq(value, DPAPI_PREFIX@)
}

/// Whether a stored value is in the encrypted form (`dpapi:` prefix).
pub fn is_encrypted(value: &str) -> (r: bool)
    ensures
        r == encrypted_form(value@),
{
    let v = to_chars(value);
    let p = to_chars(DPAPI_PREFIX);
    crate::chars::starts_with_chars(&v, &p)
}

/// The stored form of a ciphertext.
pub fn encode_stored(ciphertext: &[u8]) -> (r: String)
    ensures
        r@ == DPAPI_PREFIX@ + hex_seq(ciphertext@),
{
    let h = bytes_to_hex(ciphertext);
    concat(DPAPI_PREFIX, h.as_str())
}

/// What a stored value holds: plain text (`None`), or the ciphertext bytes.
pub open spec fn stored_ciphertext(stored: Seq<char>) -> Option<Option<Seq<u8>>> {
    if !encrypted_form(stored) {
        Some(None)
    } else {
        match hex_decode(encode_utf8(stored.skip(6))) {
            Some(v) => Some(Some(v)),
            None => None,
        }
    }
}

/// Reads a stored value: `Ok(None)` for plain text, `Ok(Some(bytes))` for
/// the ciphertext of an encrypted value, an error for a damaged one.
pub fn decode_stored(stored: &str) -> (r: Result<Option<Vec<u8>>, AppError>)
    requires
        encrypted_form(stored@) ==> !hex_panics(stored@.skip(6)),
    ensures
        stored_ciphertext(stored@) is None <==> r is Err,
        stored_ciphertext(stored@) matches Some(None) ==> r matches Ok(None),
        stored_ciphertext(stored@) matches Some(Some(v)) ==> r matches Ok(Some(b)) && b@ == v,
{
    proof {
        reveal_strlit("dpapi:");
    }
    let v = to_chars(stored);
    if !is_encrypted(stored) {
        return Ok(None);
    }
    let rest = crate::chars::sub_chars(&v, 6, v.len());
    assert(rest@ =~= stored@.skip(6));
    let hex = from_chars(&rest);
    match hex_to_bytes(hex.as_str()) {
        Ok(bytes) => Ok(Some(bytes)),
        Err(e) => {
            assert(hex_decode(encode_utf8(hex@)) is None);
            Err(e)
        },
    }
}

proof fn lemma_hex_chars_ascii(bytes: Seq<u8>)
    ensures
        is_ascii_chars(hex_seq(bytes)),
        hex_seq(bytes).len() == 2 * bytes.len(),
    decreases bytes.len(),
{
    if bytes.len() > 0 {
        lemma_hex_chars_ascii(bytes.drop_first());
        let h = hex_seq(bytes);
        let t = hex_seq(bytes.drop_first());
        assert forall|i: int| 0 <= i < h.len() implies '\0' <= #[trigger] h[i] <= '\u{7f}' by {
            if i >= 2 {
                assert(h[i] == t[i - 2]);
            }
        }
    }
}

proof fn lemma_hex_decode_from(bytes: Seq<u8>, codes: Seq<u8>, k: int)
    requires
        codes.len() == 2 * bytes.len(),
        forall|j: int| 0 <= j < codes.len() ==> #[trigger] codes[j] == hex_seq(bytes)[j] as u8,
        0 <= k <= bytes.len(),
    ensures
        decode_from(codes, 2 * k) == Some(bytes.skip(k)),
        !cut_from(codes, 2 * k),
    decreases bytes.len() - k,
{
    lemma_hex_chars_ascii(bytes);
    if k < bytes.len() {
        lemma_hex_decode_from(bytes, codes, k + 1);
        lemma_hex_pair(bytes, k);
        let b = bytes[k];
        assert(codes[2 * k] == hex_digit(b / 16) as u8);
        assert(codes[2 * k + 1] == hex_digit(b % 16) as u8);
        assert((b / 16) * 16 + b % 16 == b);
        assert(pair_value(codes[2 * k], codes[2 * k + 1]) == Some(b));
        assert(bytes.skip(k) =~= seq![b] + bytes.skip(k + 1));
        if 2 * k + 2 < codes.len() {
            assert(codes[2 * k + 2] == hex_seq(bytes)[2 * k + 2] as u8);
        }
    } else {
        assert(bytes.skip(k) =~= Seq::<u8>::empty());
    }
}

proof fn lemma_hex_pair(bytes: Seq<u8>, k: int)
    requires
        0 <= k < bytes.len(),
    ensures
        hex_seq(bytes)[2 * k] == hex_digit(bytes[k] / 16),
        hex_seq(bytes)[2 * k + 1] == hex_digit(bytes[k] % 16),
        hex_seq(bytes).len() == 2 * bytes.len(),
    decreases k,
{
    lemma_hex_chars_ascii(bytes);
    if k > 0 {
        lemma_hex_pair(bytes.drop_first(), k - 1);
        lemma_hex_chars_ascii(bytes.drop_first());
    }
}

/// Reading back the stored form of a ciphertext gives that ciphertext.
pub proof fn lemma_stored_roundtrip(ciphertext: Seq<u8>)
    ensures
        stored_ciphertext(DPAPI_PREFIX@ + hex_seq(ciphertext)) == Some(Some(ciphertext)),
        !hex_panics((DPAPI_PREFIX@ + hex_seq(ciphertext)).skip(6)),
{
    reveal_strlit("dpapi:");
    let h = hex_seq(ciphertext);
    let s = DPAPI_PREFIX@ + h;
    assert(s.skip(6) =~= h);
    assert(s.subrange(0, 6) =~= DPAPI_PREFIX@);
    lemma_hex_chars_ascii(ciphertext);
    is_ascii_chars_encode_utf8(h);
    let codes = encode_utf8(h);
    assert forall|j: int| 0 <= j < codes.len() implies #[trigger] codes[j] == h[j] as u8 by {}
    lemma_hex_decode_from(ciphertext, codes, 0);
    assert(ciphertext.skip(0) =~= ciphertext);
    assert(codes.len() % 2 == 0);
}

} // verus!
