use pdfbrute::md5::md5;
use pdfbrute::aes::aes128_cbc_encrypt;
use pdfbrute::rc4::rc4;
use pdfbrute::sha256::sha256;
use pdfbrute::sha512::{sha384, sha512};

fn hex(bytes: &[u8]) -> String {
    let mut s = String::new();
    for b in bytes {
        s.push_str(&format!("{:02x}", b));
    }
    s
}

#[test]
fn md5_of_empty_message() {
    assert_eq!(hex(&md5(b"")), "d41d8cd98f00b204e9800998ecf8427e");
}

#[test]
fn md5_of_short_messages() {
    assert_eq!(hex(&md5(b"a")), "0cc175b9c0f1b6a831c399e269772661");
    assert_eq!(hex(&md5(b"abc")), "900150983cd24fb0d6963f7d28e17f72");
    assert_eq!(hex(&md5(b"message digest")), "f96b697d7cb7938d525a2f31aaf161d0");
    assert_eq!(
        hex(&md5(b"abcdefghijklmnopqrstuvwxyz")),
        "c3fcd3d76192e4007dfb496cca67e13b"
    );
}

#[test]
fn md5_of_messages_longer_than_one_block() {
    assert_eq!(
        hex(&md5(
            b"12345678901234567890123456789012345678901234567890123456789012345678901234567890"
        )),
        "57edf4a22be3c955ac49da2e2107b67a"
    );
    let bytes: Vec<u8> = (0..200u32).map(|x| x as u8).collect();
    assert_eq!(hex(&md5(&bytes)), "fb7001d34b8e82c9b579be5005d5b0a5");
}

#[test]
fn md5_at_the_padding_boundaries() {
    assert_eq!(hex(&md5(&vec![b'a'; 55])), "ef1772b6dff9a122358552954ad0df65");
    assert_eq!(hex(&md5(&vec![b'a'; 56])), "3b0c8ac703f828b04c6c197006d17218");
    assert_eq!(hex(&md5(&vec![b'a'; 64])), "014842d480b571495a4a0363793f7367");
}

#[test]
fn md5_digest_has_sixteen_bytes() {
    assert_eq!(md5(b"anything").len(), 16);
}

#[test]
fn rc4_known_answers() {
    assert_eq!(hex(&rc4(b"Key", b"Plaintext")), "bbf316e8d940af0ad3");
    assert_eq!(hex(&rc4(b"Wiki", b"pedia")), "1021bf0420");
    assert_eq!(hex(&rc4(b"Secret", b"Attack at dawn")), "45a01f645fc35b383552544b9bf5");
}

#[test]
fn rc4_twice_gives_the_input_back() {
    let data = b"the quick brown fox".to_vec();
    let once = rc4(b"k3y", &data);
    assert_ne!(once, data);
    assert_eq!(rc4(b"k3y", &once), data);
}

#[test]
fn rc4_of_nothing_is_nothing() {
    assert_eq!(rc4(b"Key", b""), Vec::<u8>::new());
}

fn unhex(s: &str) -> Vec<u8> {
    (0..s.len() / 2).map(|i| u8::from_str_radix(&s[2 * i..2 * i + 2], 16).unwrap()).collect()
}

#[test]
fn aes_single_block_known_answer() {
    let key: Vec<u8> = (0..16u8).collect();
    let out = aes128_cbc_encrypt(&key, &[0u8; 16], &unhex("00112233445566778899aabbccddeeff"));
    assert_eq!(hex(&out), "69c4e0d86a7b0430d8cdb78070b4c55a");
}

#[test]
fn aes_chaining_known_answer() {
    let key = unhex("2b7e151628aed2a6abf7158809cf4f3c");
    let iv: Vec<u8> = (0..16u8).collect();
    let data = unhex("6bc1bee22e409f96e93d7e117393172aae2d8a571e03ac9c9eb76fac45af8e51");
    assert_eq!(
        hex(&aes128_cbc_encrypt(&key, &iv, &data)),
        "7649abac8119b246cee98e9b12e9197d5086cb9b507219ee95db113a917678b2"
    );
    assert_eq!(aes128_cbc_encrypt(&key, &iv, &[]), Vec::<u8>::new());
}

#[test]
fn sha512_known_answers() {
    assert_eq!(hex(&sha512(b"")), "cf83e1357eefb8bdf1542850d66d8007d620e4050b5715dc83f4a921d36ce9ce47d0d13c5d85f2b0ff8318d2877eec2f63b931bd47417a81a538327af927da3e");
    assert_eq!(hex(&sha512(b"abc")), "ddaf35a193617abacc417349ae20413112e6fa4e89a97ea20a9eeee64b55d39a2192992a274fc1a836ba3c23a3feebbd454d4423643ce80e2a9ac94fa54ca49f");
    assert_eq!(hex(&sha512(&vec![b'a'; 111])), "fa9121c7b32b9e01733d034cfc78cbf67f926c7ed83e82200ef86818196921760b4beff48404df811b953828274461673c68d04e297b0eb7b2b4d60fc6b566a2");
    assert_eq!(hex(&sha512(&vec![b'a'; 112])), "c01d080efd492776a1c43bd23dd99d0a2e626d481e16782e75d54c2503b5dc32bd05f0f1ba33e568b88fd2d970929b719ecbb152f58f130a407c8830604b70ca");
    let bytes: Vec<u8> = (0..200u32).map(|x| x as u8).collect();
    assert_eq!(hex(&sha512(&bytes)), "986058e9895e2c2ab8f9e8cbdf801db12a44842a56a91d5a4e87b1fc98b293722c4664142e42c3c551ff898646268cd92b84ed230b8c94bed7798d4f27cd7465");
}

#[test]
fn sha384_known_answers() {
    assert_eq!(hex(&sha384(b"")), "38b060a751ac96384cd9327eb1b1e36a21fdb71114be07434c0cc7bf63f6e1da274edebfe76f65fbd51ad2f14898b95b");
    assert_eq!(hex(&sha384(b"abc")), "cb00753f45a35e8bb5a03d699ac65007272c32ab0eded1631a8b605a43ff5bed8086072ba1e7cc2358baeca134c825a7");
    assert_eq!(hex(&sha384(&vec![b'a'; 111])), "3c37955051cb5c3026f94d551d5b5e2ac38d572ae4e07172085fed81f8466b8f90dc23a8ffcdea0b8d8e58e8fdacc80a");
    assert_eq!(hex(&sha384(&vec![b'a'; 112])), "187d4e07cb306103c69967bf544d0dfbe9042577599c73c330abc0cb64c61236d5ed565ee19119d8c31779a38f791fcd");
    let bytes: Vec<u8> = (0..200u32).map(|x| x as u8).collect();
    assert_eq!(hex(&sha384(&bytes)), "7ea4bb2534c67036f49de7beb5fe8a2478df04ff3fef40a9cd4923999a590e9912df1297217ce1a021aa2fb1013498b8");
}

#[test]
fn sha256_known_answers() {
    assert_eq!(
        hex(&sha256(b"")),
        "e3b0c44298fc1c149afbf4c8996fb92427ae41e4649b934ca495991b7852b855"
    );
    assert_eq!(
        hex(&sha256(b"abc")),
        "ba7816bf8f01cfea414140de5dae2223b00361a396177a9cb410ff61f20015ad"
    );
    assert_eq!(
        hex(&sha256(b"abcdbcdecdefdefgefghfghighijhijkijkljklmklmnlmnomnopnopq")),
        "248d6a61d20638b8e5c026930c3e6039a33ce45964ff2167f6ecedd419db06c1"
    );
    assert_eq!(
        hex(&sha256(&vec![b'a'; 55])),
        "9f4390f8d30c2dd92ec9f095b65e2b9ae9b0a925a5258e241c9f1e910f734318"
    );
    assert_eq!(
        hex(&sha256(&vec![b'a'; 56])),
        "b35439a4ac6f0948b6d6f9e3c6af0f5f590ce20f1bde7090ef7970686ec6738a"
    );
    let bytes: Vec<u8> = (0..200u32).map(|x| x as u8).collect();
    assert_eq!(
        hex(&sha256(&bytes)),
        "1901da1c9f699b48f6b2636e65cbf73abf99d0441ef67f5c540a42f7051dec6f"
    );
}
