use fhe_dispatch::cipher::{decrypt_all, decrypt_quotients, encrypt, Ciphertext};
use tfhe::{ClientKey, ConfigBuilder};

#[test]
fn encrypted_round_trip() {
    let ck = ClientKey::generate(ConfigBuilder::default_with_small_encryption());
    let values: Vec<Ciphertext> = [5u64, 0, u64::MAX].iter().map(|&v| encrypt(&ck, v)).collect();
    assert_eq!(decrypt_all(&ck, &values), vec![5, 0, u64::MAX]);
    assert_eq!(decrypt_quotients(&ck, &Vec::new()), Ok(Vec::new()));
}
