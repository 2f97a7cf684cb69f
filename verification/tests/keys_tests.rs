use cbc::cipher::{block_padding::Pkcs7, BlockEncryptMut, KeyIvInit};
use streamweave::keys::{
    decrypt_segment_data, finish_key, parse_hls_iv, parse_segment_key, sequence_iv, KeyDirective,
    SegmentKey,
};
use streamweave::urls::WebUrl;

fn encrypt(key: &[u8; 16], iv: &[u8; 16], plain: &[u8]) -> Vec<u8> {
    let mut buf = vec![0u8; plain.len() + 16];
    buf[..plain.len()].copy_from_slice(plain);
    let enc = cbc::Encryptor::<aes::Aes128>::new_from_slices(key, iv).unwrap();
    enc.encrypt_padded_mut::<Pkcs7>(&mut buf, plain.len()).unwrap().to_vec()
}

#[test]
fn iv_parsing() {
    let iv = parse_hls_iv(" 0x000102030405060708090a0B0C0D0E0F ").unwrap();
    let expected: Vec<u8> = (0u8..16).collect();
    assert_eq!(iv.to_vec(), expected);
    let no_prefix = parse_hls_iv("ffffffffffffffffffffffffffffffff").unwrap();
    assert_eq!(no_prefix, [0xffu8; 16]);
}

#[test]
fn iv_errors() {
    assert_eq!(parse_hls_iv("0x1234").unwrap_err(), "HLS IV 长度异常：0x1234");
    assert_eq!(
        parse_hls_iv("0xzz0102030405060708090a0b0c0d0e0f").unwrap_err(),
        "HLS IV 解析失败：0xzz0102030405060708090a0b0c0d0e0f，invalid digit found in string"
    );
    let err = parse_hls_iv("é0102030405060708090a0b0c0d0e0f").unwrap_err();
    assert_eq!(err, "HLS IV 解析失败：é0102030405060708090a0b0c0d0e0f，invalid digit found in string");
    let split = parse_hls_iv("aé102030405060708090a0b0c0d0e0f").unwrap_err();
    assert!(split.starts_with("incomplete utf-8") || split.starts_with("invalid utf-8"), "{split}");
}

#[test]
fn sequence_ivs() {
    let mut expected = [0u8; 16];
    expected[14] = 1;
    expected[15] = 2;
    assert_eq!(sequence_iv(0x0102), expected);
    let all = sequence_iv(u64::MAX);
    assert_eq!(&all[..8], &[0u8; 8]);
    assert_eq!(&all[8..], &[0xffu8; 8]);
}

#[test]
fn key_directives() {
    let base = WebUrl::parse("https://cdn.example.com/v/index.m3u8").unwrap();
    assert!(matches!(parse_segment_key("#EXTINF:4,", &base), KeyDirective::Keep));
    assert!(matches!(parse_segment_key("#EXT-X-KEY:METHOD=NONE", &base), KeyDirective::Clear));
    match parse_segment_key("#EXT-X-KEY:METHOD=AES-128,URI=\"../keys/k1\",IV=0x01", &base) {
        KeyDirective::Fetch(u, iv) => {
            assert_eq!(u.as_str(), "https://cdn.example.com/keys/k1");
            assert_eq!(iv.as_deref(), Some("0x01"));
        }
        _ => panic!("expected a fetch"),
    }
    match parse_segment_key("#EXT-X-KEY:URI=\"k\"", &base) {
        KeyDirective::Fail(m) => assert_eq!(m, "暂不支持的 HLS 加密方式："),
        _ => panic!("a missing method is unsupported"),
    }
    let odd = WebUrl::parse("data:text/plain,x").unwrap();
    match parse_segment_key("#EXT-X-KEY:METHOD=AES-128,URI=\"k\"", &odd) {
        KeyDirective::Fail(m) => assert_eq!(m, "无法解析加密 key URL：k"),
        _ => panic!("an unresolvable key url fails"),
    }
}

#[test]
fn finishing_keys() {
    let key = finish_key((0u8..16).collect(), Some("0x0000000000000000000000000000000a".to_string())).unwrap();
    let mut iv = [0u8; 16];
    iv[15] = 10;
    assert_eq!(key.iv, Some(iv));
    assert_eq!(finish_key(vec![], None).err().unwrap(), "AES-128 key 长度异常：期望 16 字节，实际 0 字节");
    assert_eq!(
        finish_key((0u8..16).collect(), Some("0x12".to_string())).err().unwrap(),
        "HLS IV 长度异常：0x12"
    );
}

#[test]
fn decrypting_segments() {
    let key = [7u8; 16];
    let plain = b"segment payload bytes";
    let iv = sequence_iv(9);
    let data = encrypt(&key, &iv, plain);
    assert_ne!(data, plain.to_vec());
    let k = SegmentKey { key_bytes: key.to_vec(), iv: None };
    assert_eq!(decrypt_segment_data(data.clone(), &k, 9, "/p/seg00000.ts").unwrap(), plain.to_vec());
    let explicit = SegmentKey { key_bytes: key.to_vec(), iv: Some(iv) };
    assert_eq!(decrypt_segment_data(data.clone(), &explicit, 0, "/p/x").unwrap(), plain.to_vec());
    assert_eq!(
        decrypt_segment_data(vec![1, 2, 3], &k, 9, "/p/seg00000.ts").unwrap_err(),
        "解密分片失败：/p/seg00000.ts，Unpad Error"
    );
    let short = SegmentKey { key_bytes: vec![1, 2, 3], iv: None };
    assert_eq!(decrypt_segment_data(data, &short, 9, "/p/x").unwrap_err(), "初始化 AES 解密失败：Invalid Length");
}
