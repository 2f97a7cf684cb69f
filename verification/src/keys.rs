//! AES-128 segment keys: `#EXT-X-KEY` lines, initialisation vectors, decryption.
use vstd::prelude::*;
use cbc::cipher::{BlockDecryptMut, KeyIvInit};
use vstd::utf8::{decode_utf8, encode_utf8, valid_utf8};
use crate::hls::spec_attribute_value;
use crate::hls::attribute_value;
use crate::text::{
    chars_of, concat, decimal, decimal_chars, opt_view, push_all, push_chars, starts_with,
    starts_with_chars, str_eq, string_of, trim, trim_chars,
};
use crate::urls::{url_join, WebUrl};

verus! {

/// The message of `std::str::Utf8Error` (its `Display`) for bytes that are not UTF-8.
pub uninterp spec fn utf8_error_text(bytes: Seq<u8>) -> Seq<char>;

/// The message of `std::num::ParseIntError` (its `Display`) for a string that
/// `u8::from_str_radix(_, 16)` refuses.
pub uninterp spec fn hex_error_text(s: Seq<char>) -> Seq<char>;

/// `std::str::from_utf8`: the bytes as a string where they are valid UTF-8, else the
/// error's message.
#[verifier::external_body]
fn utf8_str(bytes: &[u8]) -> (r: Result<String, String>)
    ensures
        match r {
            Ok(s) => valid_utf8(bytes@) && s@ == decode_utf8(bytes@),
            Err(e) => !valid_utf8(bytes@) && e@ == utf8_error_text(bytes@),
        },
{
    match std::str::from_utf8(bytes) {
        Ok(s) => Ok(s.to_string()),
        Err(error) => Err(error.to_string()),
    }
}

/// The value of a hexadecimal digit.
pub open spec fn hex_digit(c: char) -> Option<nat> {
    if '0' <= c && c <= '9' {
        Some((c as u32 - '0' as u32) as nat)
    } else if 'a' <= c && c <= 'f' {
        Some((c as u32 - 'a' as u32 + 10) as nat)
    } else if 'A' <= c && c <= 'F' {
        Some((c as u32 - 'A' as u32 + 10) as nat)
    } else {
        None
    }
}

/// The value of a string of hexadecimal digits, `None` where one is not a digit.
pub open spec fn hex_value(d: Seq<char>) -> Option<nat>
    decreases d.len(),
{
    if d.len() == 0 {
        Some(0)
    } else {
        match (hex_value(d.drop_last()), hex_digit(d.last())) {
            (Some(a), Some(b)) => Some(a * 16 + b),
            _ => None,
        }
    }
}

/// `u8::from_str_radix(s, 16)`: an optional `+`, then one or more hexadecimal digits
/// whose value is below 256.
pub open spec fn hex_u8(s: Seq<char>) -> Option<u8> {
    let d = if s.len() > 0 && s[0] == '+' {
        s.drop_first()
    } else {
        s
    };
    if d.len() == 0 {
        None
    } else {
        match hex_value(d) {
            Some(v) => if v < 256 {
                Some(v as u8)
            } else {
                None
            },
            None => None,
        }
    }
}

/// `u8::from_str_radix(s, 16)`, with the error's message.
#[verifier::external_body]
fn parse_hex_u8(s: &str) -> (r: Result<u8, String>)
    ensures
        match r {
            Ok(v) => hex_u8(s@) == Some(v),
            Err(e) => hex_u8(s@) is None && e@ == hex_error_text(s@),
        },
{
    u8::from_str_radix(s, 16).map_err(|error| error.to_string())
}

/// The hexadecimal digits of an IV attribute: trimmed, an `0x` prefix removed.
pub open spec fn iv_hex(raw: Seq<char>) -> Seq<char> {
    let t = trim(raw);
    if starts_with(t, "0x"@) {
        t.skip(2)
    } else {
        t
    }
}

/// The IV bytes from pair `k` on: each pair of bytes must be UTF-8 and parse as a
/// hexadecimal `u8`.
pub open spec fn iv_pairs(bytes: Seq<u8>, shown: Seq<char>, k: nat) -> Result<Seq<u8>, Seq<char>>
    decreases 16 - k,
{
    if k >= 16 {
        Ok(seq![])
    } else {
        let chunk = bytes.subrange(2 * k as int, 2 * k as int + 2);
        if !valid_utf8(chunk) {
            Err(utf8_error_text(chunk))
        } else {
            match hex_u8(decode_utf8(chunk)) {
                None => Err(
                    "HLS IV 解析失败："@ + shown + "，"@ + hex_error_text(decode_utf8(chunk)),
                ),
                Some(v) => match iv_pairs(bytes, shown, k + 1) {
                    Ok(rest) => Ok(seq![v] + rest),
                    Err(e) => Err(e),
                },
            }
        }
    }
}

/// An `IV=` attribute as sixteen bytes: thirty-two bytes of hexadecimal text after an
/// optional `0x`.
pub open spec fn spec_parse_hls_iv(raw: Seq<char>) -> Result<Seq<u8>, Seq<char>> {
    let bytes = encode_utf8(iv_hex(raw));
    if bytes.len() != 32 {
        Err("HLS IV 长度异常："@ + trim(raw))
    } else {
        iv_pairs(bytes, trim(raw), 0)
    }
}

/// `prefix` in front of a successful result.
pub open spec fn prepend_ok(prefix: Seq<u8>, r: Result<Seq<u8>, Seq<char>>) -> Result<Seq<u8>, Seq<char>> {
    match r {
        Ok(x) => Ok(prefix + x),
        Err(e) => Err(e),
    }
}

pub fn parse_hls_iv(raw: &str) -> (r: Result<[u8; 16], String>)
    ensures
        match r {
            Ok(iv) => spec_parse_hls_iv(raw@) == Ok::<Seq<u8>, Seq<char>>(iv@),
            Err(e) => spec_parse_hls_iv(raw@) == Err::<Seq<u8>, Seq<char>>(e@),
        },
{
    let trimmed = trim_chars(&chars_of(raw));
    let shown = string_of(trimmed.as_slice());
    proof {
        reveal_strlit("0x");
    }
    let hex = if starts_with_chars(&trimmed, &chars_of("0x")) {
        crate::text::slice_chars(&trimmed, 2, trimmed.len())
    } else {
        trimmed
    };
    proof {
        if starts_with(trim(raw@), "0x"@) {
            assert(hex@ =~= trim(raw@).skip(2));
        }
    }
    let hex_string = string_of(hex.as_slice());
    let bytes = hex_string.as_str().as_bytes();
    if bytes.len() != 32 {
        return Err(concat("HLS IV 长度异常：", shown.as_str()));
    }
    let ghost all = encode_utf8(iv_hex(raw@));
    let mut iv = [0u8; 16];
    let mut k: usize = 0;
    proof {
        assert(iv@.take(0) =~= Seq::<u8>::empty());
        assert(prepend_ok(seq![], iv_pairs(all, shown@, 0)) == iv_pairs(all, shown@, 0)) by {
            match iv_pairs(all, shown@, 0) {
                Ok(x) => assert(Seq::<u8>::empty() + x =~= x),
                Err(_) => {},
            }
        }
    }
    while k < 16
        invariant
            bytes@ == all,
            all.len() == 32,
            all == encode_utf8(iv_hex(raw@)),
            shown@ == trim(raw@),
            k <= 16,
            iv@.len() == 16,
            spec_parse_hls_iv(raw@) == prepend_ok(iv@.take(k as int), iv_pairs(all, shown@, k as nat)),
        decreases 16 - k,
    {
        let mut chunk: Vec<u8> = Vec::new();
        chunk.push(bytes[2 * k]);
        chunk.push(bytes[2 * k + 1]);
        assert(chunk@ =~= all.subrange(2 * k, 2 * k + 2));
        let pair = match utf8_str(chunk.as_slice()) {
            Ok(pair) => pair,
            Err(e) => {
                return Err(e);
            },
        };
        let value = match parse_hex_u8(pair.as_str()) {
            Ok(value) => value,
            Err(e) => {
                let mut msg = chars_of("HLS IV 解析失败：");
                push_all(&mut msg, shown.as_str());
                push_all(&mut msg, "，");
                push_all(&mut msg, e.as_str());
                return Err(string_of(msg.as_slice()));
            },
        };
        let ghost before = iv@;
        iv[k] = value;
        proof {
            assert(iv@.take(k + 1) =~= before.take(k as int) + seq![value]);
            match iv_pairs(all, shown@, (k + 1) as nat) {
                Ok(rest) => {
                    assert(before.take(k as int) + (seq![value] + rest) =~= iv@.take(k + 1) + rest);
                },
                Err(_) => {},
            }
        }
        k = k + 1;
    }
    proof {
        assert(iv@.take(16) =~= iv@);
        assert(iv@ + Seq::<u8>::empty() =~= iv@);
    }
    Ok(iv)
}

/// The big-endian bytes of the `n` lowest base-256 digits of `x`.
pub open spec fn be_bytes(x: nat, n: nat) -> Seq<u8>
    decreases n,
{
    if n == 0 {
        seq![]
    } else {
        be_bytes(x / 256, (n - 1) as nat).push((x % 256) as u8)
    }
}

/// The IV of a segment without an explicit one: eight zero bytes, then its media
/// sequence number in big-endian order.
pub fn sequence_iv(sequence: u64) -> (iv: [u8; 16])
    ensures
        iv@ == Seq::new(8, |i: int| 0u8) + be_bytes(sequence as nat, 8),
{
    let mut iv = [0u8; 16];
    let mut v = sequence;
    let mut k: usize = 16;
    while k > 8
        invariant
            8 <= k <= 16,
            iv@.len() == 16,
            forall|i: int| 0 <= i < 8 ==> iv@[i] == 0u8,
            be_bytes(sequence as nat, 8) == be_bytes(v as nat, (k - 8) as nat) + iv@.subrange(
                k as int,
                16,
            ),
        decreases k,
    {
        let ghost old_iv = iv@;
        let ghost old_v = v as nat;
        k = k - 1;
        iv[k] = (v % 256) as u8;
        v = v / 256;
        proof {
            assert(be_bytes(old_v, (k + 1 - 8) as nat) == be_bytes(v as nat, (k - 8) as nat).push(
                (old_v % 256) as u8,
            ));
            assert(iv@.subrange(k as int, 16) =~= seq![(old_v % 256) as u8] + old_iv.subrange(
                k + 1,
                16,
            ));
            assert(be_bytes(v as nat, (k - 8) as nat).push((old_v % 256) as u8) + old_iv.subrange(
                k + 1,
                16,
            ) =~= be_bytes(v as nat, (k - 8) as nat) + iv@.subrange(k as int, 16));
        }
    }
    assert(iv@ =~= Seq::new(8, |i: int| 0u8) + be_bytes(sequence as nat, 8));
    iv
}

/// The key of encrypted segments: sixteen key bytes and an optional explicit IV.
pub struct SegmentKey {
    pub key_bytes: Vec<u8>,
    pub iv: Option<[u8; 16]>,
}

/// The view of an optional IV.
pub open spec fn iv_view(iv: Option<[u8; 16]>) -> Option<Seq<u8>> {
    match iv {
        Some(a) => Some(a@),
        None => None,
    }
}

impl Clone for SegmentKey {
    fn clone(&self) -> (r: Self)
        ensures
            r.key_bytes@ == self.key_bytes@,
            r.iv == self.iv,
    {
        SegmentKey { key_bytes: self.key_bytes.clone(), iv: self.iv }
    }
}

/// What an `#EXT-X-KEY` line asks for before its key is fetched.
pub enum KeyDirective {
    /// Not a key line: the current key stays.
    Keep,
    /// `METHOD=NONE`: the segments that follow are not encrypted.
    Clear,
    /// Fetch the key at this URL; the line's `IV` attribute, if any, comes along.
    Fetch(WebUrl, Option<String>),
    /// The line cannot be used.
    Fail(String),
}

/// The `METHOD` attribute of a key line, empty where it is missing.
pub open spec fn key_method(line: Seq<char>) -> Seq<char> {
    match spec_attribute_value(line, "METHOD"@) {
        Some(m) => m,
        None => seq![],
    }
}

/// The plan that a key line makes, as values.
pub enum KeyPlan {
    Keep,
    Clear,
    Fetch(Seq<char>, Option<Seq<char>>),
    Fail(Seq<char>),
}

/// The view of a directive.
pub open spec fn directive_view(d: KeyDirective) -> KeyPlan {
    match d {
        KeyDirective::Keep => KeyPlan::Keep,
        KeyDirective::Clear => KeyPlan::Clear,
        KeyDirective::Fetch(u, iv) => KeyPlan::Fetch(u@, opt_view(iv)),
        KeyDirective::Fail(m) => KeyPlan::Fail(m@),
    }
}

/// What an `#EXT-X-KEY` line asks for against the playlist URL `base`. As in standard
/// HLS, `METHOD=NONE` ends the encryption of the segments that follow.
pub open spec fn key_plan(line: Seq<char>, base: Seq<char>) -> KeyPlan {
    if !starts_with(line, "#EXT-X-KEY:"@) {
        KeyPlan::Keep
    } else if key_method(line) == "NONE"@ {
        KeyPlan::Clear
    } else if key_method(line) != "AES-128"@ {
        KeyPlan::Fail("暂不支持的 HLS 加密方式："@ + key_method(line))
    } else {
        match spec_attribute_value(line, "URI"@) {
            None => KeyPlan::Fail("EXT-X-KEY 缺少 URI。"@),
            Some(uri) => match url_join(base, uri) {
                None => KeyPlan::Fail("无法解析加密 key URL："@ + uri),
                Some(u) => KeyPlan::Fetch(u, spec_attribute_value(line, "IV"@)),
            },
        }
    }
}

/// Reads an `#EXT-X-KEY` line: only `AES-128` keys with a `URI` are supported.
pub fn parse_segment_key(line: &str, playlist_url: &WebUrl) -> (r: KeyDirective)
    ensures
        directive_view(r) == key_plan(line@, playlist_url@),
{
    if !starts_with_chars(&chars_of(line), &chars_of("#EXT-X-KEY:")) {
        return KeyDirective::Keep;
    }
    let method = match attribute_value(line, "METHOD") {
        Some(m) => m,
        None => String::new(),
    };
    assert(method@ == key_method(line@));
    if str_eq(method.as_str(), "NONE") {
        return KeyDirective::Clear;
    }
    if !str_eq(method.as_str(), "AES-128") {
        return KeyDirective::Fail(concat("暂不支持的 HLS 加密方式：", method.as_str()));
    }
    let raw_uri = match attribute_value(line, "URI") {
        Some(u) => u,
        None => {
            return KeyDirective::Fail(String::from_str("EXT-X-KEY 缺少 URI。"));
        },
    };
    match playlist_url.join(raw_uri.as_str()) {
        Some(url) => KeyDirective::Fetch(url, attribute_value(line, "IV")),
        None => KeyDirective::Fail(concat("无法解析加密 key URL：", raw_uri.as_str())),
    }
}

/// A key as values: its bytes and its optional IV.
pub open spec fn key_view(k: SegmentKey) -> (Seq<u8>, Option<Seq<u8>>) {
    (k.key_bytes@, iv_view(k.iv))
}

/// An optional key as values.
pub open spec fn key_opt_view(k: Option<SegmentKey>) -> Option<(Seq<u8>, Option<Seq<u8>>)> {
    match k {
        Some(k) => Some(key_view(k)),
        None => None,
    }
}

/// The key that a fetched key body and the line's IV attribute make: the body must
/// have sixteen bytes and the IV, if any, must parse.
pub open spec fn spec_finish_key(key_bytes: Seq<u8>, iv_raw: Option<Seq<char>>) -> Result<(Seq<u8>, Option<Seq<u8>>), Seq<char>> {
    if key_bytes.len() != 16 {
        Err("AES-128 key 长度异常：期望 16 字节，实际 "@ + decimal(key_bytes.len()) + " 字节"@)
    } else {
        match iv_raw {
            None => Ok((key_bytes, None)),
            Some(raw) => match spec_parse_hls_iv(raw) {
                Ok(iv) => Ok((key_bytes, Some(iv))),
                Err(e) => Err(e),
            },
        }
    }
}

/// The view of a key result.
pub open spec fn key_result_view(r: Result<SegmentKey, String>) -> Result<(Seq<u8>, Option<Seq<u8>>), Seq<char>> {
    match r {
        Ok(k) => Ok(key_view(k)),
        Err(e) => Err(e@),
    }
}

/// Completes a key from the fetched key body.
pub fn finish_key(key_bytes: Vec<u8>, iv_raw: Option<String>) -> (r: Result<SegmentKey, String>)
    ensures
        key_result_view(r) == spec_finish_key(key_bytes@, opt_view(iv_raw)),
{
    if key_bytes.len() != 16 {
        let mut msg = chars_of("AES-128 key 长度异常：期望 16 字节，实际 ");
        let digits = decimal_chars(key_bytes.len() as u64);
        push_chars(&mut msg, &digits);
        push_all(&mut msg, " 字节");
        return Err(string_of(msg.as_slice()));
    }
    let iv = match iv_raw {
        None => None,
        Some(raw) => match parse_hls_iv(raw.as_str()) {
            Ok(iv) => Some(iv),
            Err(e) => {
                return Err(e);
            },
        },
    };
    Ok(SegmentKey { key_bytes, iv })
}

/// The plaintext of AES-128-CBC decryption with PKCS#7 unpadding, `None` where the
/// padding is malformed.
pub uninterp spec fn aes128_cbc_pkcs7_plain(key: Seq<u8>, iv: Seq<u8>, data: Seq<u8>) -> Option<Seq<u8>>;

/// Why a decryption failed, with the error's message.
pub enum AesFailure {
    /// The key or IV has the wrong length.
    Init(String),
    /// The ciphertext is not whole blocks or its padding is malformed.
    Unpad(String),
}

/// `cbc::Decryptor::<aes::Aes128>::new_from_slices(key, iv)`, then
/// `decrypt_padded_mut::<Pkcs7>`. The crates' source shows: the decryptor is refused
/// (`InvalidLength`, shown as "Invalid Length") exactly when the key is not sixteen
/// bytes; decryption is refused (`UnpadError`, shown as "Unpad Error") when the data is
/// empty or not a whole number of sixteen-byte blocks, or its padding is malformed. The
/// plaintext itself is named, not stated.
#[verifier::external_body]
fn aes128_cbc_decrypt(key: &[u8], iv: &[u8; 16], data: Vec<u8>) -> (r: Result<Vec<u8>, AesFailure>)
    ensures
        match r {
            Ok(p) => key@.len() == 16 && data@.len() > 0 && data@.len() % 16 == 0
                && aes128_cbc_pkcs7_plain(key@, iv@, data@) == Some(p@),
            Err(AesFailure::Init(m)) => key@.len() != 16 && m@ == "Invalid Length"@,
            Err(AesFailure::Unpad(m)) => key@.len() == 16 && aes128_cbc_pkcs7_plain(key@, iv@, data@)
                is None && m@ == "Unpad Error"@,
        },
{
    let decryptor = match cbc::Decryptor::<aes::Aes128>::new_from_slices(key, iv) {
        Ok(d) => d,
        Err(e) => return Err(AesFailure::Init(e.to_string())),
    };
    let mut buf = data;
    match decryptor.decrypt_padded_mut::<cbc::cipher::block_padding::Pkcs7>(&mut buf) {
        Ok(plain) => Ok(plain.to_vec()),
        Err(e) => Err(AesFailure::Unpad(e.to_string())),
    }
}

/// The IV a segment is decrypted with: its explicit IV, else its sequence number's.
pub open spec fn segment_iv(key: SegmentKey, sequence: u64) -> Seq<u8> {
    match key.iv {
        Some(iv) => iv@,
        None => Seq::new(8, |i: int| 0u8) + be_bytes(sequence as nat, 8),
    }
}

/// Decrypts the bytes of one segment file; `path` names the file in the message.
pub fn decrypt_segment_data(data: Vec<u8>, key: &SegmentKey, sequence: u64, path: &str) -> (r: Result<Vec<u8>, String>)
    ensures
        key.key_bytes@.len() != 16 ==> (r matches Err(m) && m@ == "初始化 AES 解密失败："@ + "Invalid Length"@),
        key.key_bytes@.len() == 16 ==> match aes128_cbc_pkcs7_plain(key.key_bytes@, segment_iv(*key, sequence), data@) {
            Some(p) => (r matches Ok(q) && q@ == p),
            None => (r matches Err(m) && m@ == "解密分片失败："@ + path@ + "，"@ + "Unpad Error"@),
        },
{
    let iv = match key.iv {
        Some(iv) => iv,
        None => sequence_iv(sequence),
    };
    match aes128_cbc_decrypt(key.key_bytes.as_slice(), &iv, data) {
        Ok(plain) => Ok(plain),
        Err(AesFailure::Init(m)) => Err(concat("初始化 AES 解密失败：", m.as_str())),
        Err(AesFailure::Unpad(m)) => {
            let mut msg = chars_of("解密分片失败：");
            push_all(&mut msg, path);
            push_all(&mut msg, "，");
            push_all(&mut msg, m.as_str());
            Err(string_of(msg.as_slice()))
        },
    }
}

} // verus!
