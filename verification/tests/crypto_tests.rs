use base64::Engine as _;
use commlib::base64_codec::{Base64, Base64Error};
use commlib::blowfish_cipher::Blowfish;
use commlib::md5_hash::{hex_string, Md5};
use hex::FromHex;

#[test]
fn test_base64() {
    let bytes = base64::engine::general_purpose::STANDARD
        .decode("aGVsbG8gd29ybGR+Cg==")
        .unwrap();
    println!("{:?}", bytes);
    assert_eq!(bytes, b"hello world~\n".to_vec());

    let bytes_url = base64::engine::GeneralPurpose::new(
        &base64::alphabet::URL_SAFE,
        base64::engine::general_purpose::NO_PAD,
    )
    .decode("aGVsbG8gaW50ZXJuZXR-Cg")
    .unwrap();
    println!("{:?}", bytes_url);
    assert_eq!(bytes_url, b"hello internet~\n".to_vec());
}

#[test]
fn base64_encode_and_decode() {
    assert_eq!(Base64::encode(b"hello world~\n"), "aGVsbG8gd29ybGR+Cg==");
    assert_eq!(Base64::encode(b""), "");
    assert_eq!(Base64::encode(b"f"), "Zg==");
    assert_eq!(Base64::encode(b"fo"), "Zm8=");
    assert_eq!(Base64::encode(b"foo"), "Zm9v");
    assert_eq!(Base64::encode(&[0xfb, 0xff]), "+/8=");
    assert_eq!(Base64::decode(b"aGVsbG8gd29ybGR+Cg==").unwrap(), b"hello world~\n".to_vec());
    assert_eq!(Base64::encode(b"abcd").len(), 8);
    let data: Vec<u8> = (0..=255u8).collect();
    assert_eq!(Base64::decode(Base64::encode(&data).as_bytes()).unwrap(), data);
}

#[test]
fn base64_decode_errors() {
    assert_eq!(Base64::decode(b"aGVs*G8="), Err(Base64Error::InvalidByte(4, b'*')));
    assert!(matches!(Base64::decode(b"aGVsb"), Err(Base64Error::InvalidLength(_))));
    assert!(matches!(Base64::decode(b"Zh=="), Err(Base64Error::InvalidLastSymbol(1, b'h'))));
    assert_eq!(Base64::decode(b"Zg"), Err(Base64Error::InvalidPadding));
    assert!(Base64::decode(b"aGVsbG8gaW50ZXJuZXR-Cg").is_err());
}

#[test]
pub fn test_bf_cfb64() {
    let pt = "37363534333231204E6F77206973207468652074696D6520666F722000";
    let ct = "E73214A2822139CAF26ECF6D2EB9E76E3DA3DE04D1517200519D57A6C3";
    let key = "0123456789ABCDEFF0E1D2C3B4A59687";
    let iv = "FEDCBA9876543210";

    let pt = Vec::from_hex(pt).unwrap();
    let ct = Vec::from_hex(ct).unwrap();
    let key = Vec::from_hex(key).unwrap();
    let iv = Vec::from_hex(iv).unwrap();

    let slice: [u8; 8] = iv.as_slice().try_into().unwrap();
    let iv = u64::from_be_bytes(slice);

    let plaintext = Blowfish::decrypt(key.as_slice(), iv, ct.as_slice()).unwrap();
    let ciphertext = Blowfish::encrypt(key.as_slice(), iv, pt.as_slice()).unwrap();
    assert_eq!(plaintext.as_slice(), pt.as_slice());
    assert_eq!(ciphertext.as_slice(), ct.as_slice());
}

#[test]
fn blowfish_rejects_bad_key_length() {
    assert_eq!(Blowfish::encrypt(b"abc", 0, b"x"), Err("Invalid Length".to_string()));
    assert_eq!(Blowfish::decrypt(&[0u8; 57], 0, b"x"), Err("Invalid Length".to_string()));
    let ct = Blowfish::encrypt(b"four", 7, b"some text").unwrap();
    assert_eq!(ct.len(), 9);
    assert_eq!(Blowfish::decrypt(b"four", 7, &ct).unwrap(), b"some text".to_vec());
}

#[test]
fn test_md5() {
    // Test vectors from http://www.nsrl.nist.gov/testdata/
    const MD5_TESTS: [(&str, &str); 13] = [
        ("", "d41d8cd98f00b204e9800998ecf8427e"),
        ("7F", "83acb6e67e50e31db6ed341dd2de1595"),
        ("EC9C", "0b07f0d4ca797d8ac58874f887cb0b68"),
        ("FEE57A", "e0d583171eb06d56198fc0ef22173907"),
        ("42F497E0", "7c430f178aefdf1487fee7144e9641e2"),
        ("C53B777F1C", "75ef141d64cb37ec423da2d9d440c925"),
        ("89D5B576327B", "ebbaf15eb0ed784c6faa9dc32831bf33"),
        ("5D4CCE781EB190", "ce175c4b08172019f05e6b5279889f2c"),
        ("81901FE94932D7B9", "cd4d2f62b8cdb3a0cf968a735a239281"),
        ("C9FFDEE7788EFB4EC9", "e0841a231ab698db30c6c0f3f246c014"),
        ("66AC4B7EBA95E53DC10B", "a3b3cea71910d9af56742aa0bb2fe329"),
        ("A510CD18F7A56852EB0319", "577e216843dd11573574d3fb209b97d8"),
        ("AAED18DBE8938C19ED734A8D", "6f80fb775f27e0a4ce5c2f42fc72c5f1"),
    ];

    for test in MD5_TESTS.iter() {
        // treat string as hex bytes, such as "7F" means 0x7F
        let digest = Md5::hash_slice(Vec::from_hex(test.0).unwrap().as_slice());
        assert_eq!(digest, test.1);
    }
}

#[test]
fn md5_of_text_and_hex() {
    assert_eq!(Md5::hash("abc"), "900150983cd24fb0d6963f7d28e17f72");
    assert_eq!(hex_string(&[0x00, 0x0f, 0xa0, 0xff]), "000fa0ff");
    assert_eq!(Md5::hash("").len(), 32);
}
