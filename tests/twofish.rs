use yewoh_core::twofish::Twofish;

fn hex(s: &str) -> Vec<u8> {
    (0..s.len())
        .step_by(2)
        .map(|i| u8::from_str_radix(&s[i..i + 2], 16).unwrap())
        .collect()
}

fn encrypt_block(key: &[u8], plaintext: &[u8]) -> Vec<u8> {
    let mut cipher = Twofish::new();
    cipher.key_schedule(key);
    let mut block = [0u8; 16];
    block.copy_from_slice(plaintext);
    cipher.encrypt(&mut block);
    block.to_vec()
}

#[test]
fn zero_key_zero_block_128() {
    let key = [0u8; 16];
    let block = [0u8; 16];
    assert_eq!(encrypt_block(&key, &block), hex("9F589F5CF6122C32B6BFEC2F2AE8C35A"));
}

#[test]
fn zero_key_zero_block_192() {
    let key = [0u8; 24];
    let block = [0u8; 16];
    assert_eq!(encrypt_block(&key, &block), hex("EFA71F788965BD4453F860178FC19101"));
}

#[test]
fn zero_key_zero_block_256() {
    let key = [0u8; 32];
    let block = [0u8; 16];
    assert_eq!(encrypt_block(&key, &block), hex("57FF739D4DC92C1BD7FC01700CC8216F"));
}

#[test]
fn published_vector_192() {
    let key = hex("0123456789ABCDEFFEDCBA98765432100011223344556677");
    let block = [0u8; 16];
    assert_eq!(encrypt_block(&key, &block), hex("CFD1D2E5A9BE9CDF501F13B892BD2248"));
}

#[test]
fn published_vector_256() {
    let key = hex("0123456789ABCDEFFEDCBA987654321000112233445566778899AABBCCDDEEFF");
    let block = [0u8; 16];
    assert_eq!(encrypt_block(&key, &block), hex("37527BE0052334B89F0CFCCAE87CFA20"));
}

#[test]
fn chained_vector_128() {
    // Second entry of the published 128-bit table: the key is the zero
    // block, the plaintext is the first ciphertext.
    let key = [0u8; 16];
    let plaintext = hex("9F589F5CF6122C32B6BFEC2F2AE8C35A");
    let expected = hex("D491DB16E7B1C39E86CB086B789F5419");
    assert_eq!(encrypt_block(&key, &plaintext), expected);
}

#[test]
fn encryption_is_deterministic() {
    let key = hex("0123456789ABCDEFFEDCBA9876543210");
    let block = hex("00112233445566778899AABBCCDDEEFF");
    assert_eq!(encrypt_block(&key, &block), encrypt_block(&key, &block));
    assert_ne!(encrypt_block(&key, &block), block);
}

#[test]
fn rescheduling_replaces_the_key() {
    let mut cipher = Twofish::new();
    cipher.key_schedule(&[0x55u8; 32]);
    cipher.key_schedule(&[0u8; 16]);
    let mut block = [0u8; 16];
    cipher.encrypt(&mut block);
    assert_eq!(block.to_vec(), hex("9F589F5CF6122C32B6BFEC2F2AE8C35A"));
}
