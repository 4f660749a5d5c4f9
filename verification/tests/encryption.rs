use openssl::error::ErrorStack;
use openssl::rsa::Rsa;
use serverbound::crypto::{
    from_backend, response_from, rsa_decrypt, rsa_encrypt, shared_secret_from,
};
use serverbound::error::Error;
use serverbound::packets::{EncryptionResponse, ServerboundPacket};
use serverbound::state::ClientState;
use serverbound::wire::Reader;

fn response(packet: ServerboundPacket) -> EncryptionResponse {
    match packet {
        ServerboundPacket::EncryptionResponse(response) => response,
        other => panic!("not an encryption response: {:?}", other),
    }
}

#[test]
fn secret_of_15_bytes_is_refused() {
    assert!(matches!(shared_secret_from(&[7u8; 15]), Err(Error::InvalidSecretLength)));
}

#[test]
fn secret_of_17_bytes_is_refused() {
    assert!(matches!(shared_secret_from(&[7u8; 17]), Err(Error::InvalidSecretLength)));
    assert!(matches!(shared_secret_from(&[]), Err(Error::InvalidSecretLength)));
}

#[test]
fn secret_of_16_bytes_is_kept_unchanged() {
    let plain: Vec<u8> = (100u8..116).collect();
    let secret = shared_secret_from(&plain).unwrap();
    assert_eq!(&secret[..], &plain[..]);
}

#[test]
fn decrypted_secret_of_15_bytes_is_refused() {
    let key = Rsa::generate(2048).unwrap();
    let der = key.public_key_to_der().unwrap();
    let packet = EncryptionResponse::new_unencrypted(&der, &[7u8; 15], b"token").unwrap();
    let response = response(packet);
    assert!(matches!(
        response.get_decrypted_shared_secret(&key),
        Err(Error::InvalidSecretLength)
    ));
    assert_eq!(response.get_decrypted_verify_token(&key).unwrap(), b"token".to_vec());
}

#[test]
fn decrypted_secret_of_16_bytes_comes_back_unchanged() {
    let key = Rsa::generate(2048).unwrap();
    let der = key.public_key_to_der().unwrap();
    let secret: Vec<u8> = (1u8..17).collect();
    let token = [0xaau8, 0xbb, 0xcc, 0xdd];
    let packet = EncryptionResponse::new_unencrypted(&der, &secret, &token).unwrap();
    let response = response(packet);
    assert_eq!(response.shared_secret.len(), 256);
    assert_eq!(response.verify_token.len(), 256);
    assert_ne!(&response.shared_secret[..16], &secret[..]);
    let back = response.get_decrypted_shared_secret(&key).unwrap();
    assert_eq!(&back[..], &secret[..]);
    assert_eq!(response.get_decrypted_verify_token(&key).unwrap(), token.to_vec());
}

#[test]
fn encryption_response_survives_the_wire() {
    let key = Rsa::generate(2048).unwrap();
    let der = key.public_key_to_der().unwrap();
    let secret = [9u8; 16];
    let packet = EncryptionResponse::new_unencrypted(&der, &secret, b"abcd").unwrap();
    let bytes = packet.to_u8().unwrap();
    let mut r = Reader::new(&bytes);
    let back = ServerboundPacket::deserialize(&mut r, &ClientState::Login).unwrap();
    assert_eq!(back, packet);
    let response = response(back);
    assert_eq!(response.get_decrypted_shared_secret(&key).unwrap(), secret);
    assert_eq!(response.get_decrypted_verify_token(&key).unwrap(), b"abcd".to_vec());
}

#[test]
fn both_fields_are_encrypted_on_their_own() {
    let key = Rsa::generate(2048).unwrap();
    let der = key.public_key_to_der().unwrap();
    let same = [5u8; 16];
    let response = response(EncryptionResponse::new_unencrypted(&der, &same, &same).unwrap());
    assert_ne!(response.shared_secret, response.verify_token);
    assert_eq!(response.get_decrypted_verify_token(&key).unwrap(), same.to_vec());
    assert_eq!(response.get_decrypted_shared_secret(&key).unwrap(), same);
}

#[test]
fn key_that_is_not_der_is_a_crypto_error() {
    let res = EncryptionResponse::new_unencrypted(b"not a key", &[1u8; 16], &[2u8; 4]);
    assert!(matches!(res, Err(Error::CryptoError(_))));
    assert!(matches!(rsa_encrypt(&[], &[1u8; 16]), Err(Error::CryptoError(_))));
}

#[test]
fn plaintext_too_long_for_the_key_is_a_crypto_error() {
    let key = Rsa::generate(2048).unwrap();
    let der = key.public_key_to_der().unwrap();
    let res = EncryptionResponse::new_unencrypted(&der, &[1u8; 300], &[2u8; 4]);
    assert!(matches!(res, Err(Error::CryptoError(_))));
}

#[test]
fn ciphertext_of_the_wrong_size_is_a_crypto_error() {
    let key = Rsa::generate(2048).unwrap();
    let response = EncryptionResponse { shared_secret: vec![1, 2, 3], verify_token: vec![] };
    assert!(matches!(response.get_decrypted_shared_secret(&key), Err(Error::CryptoError(_))));
    assert!(matches!(response.get_decrypted_verify_token(&key), Err(Error::CryptoError(_))));
}

#[test]
fn rsa_round_trips_any_short_message() {
    let key = Rsa::generate(2048).unwrap();
    let der = key.public_key_to_der().unwrap();
    for message in [&b""[..], &b"x"[..], &[0u8; 245][..]] {
        let cipher = rsa_encrypt(&der, message).unwrap();
        assert_eq!(cipher.len(), 256);
        assert_eq!(rsa_decrypt(&key, &cipher).unwrap(), message.to_vec());
    }
}

#[test]
fn backend_buffer_is_cut_to_the_reported_count() {
    assert_eq!(from_backend(Ok((vec![1, 2, 3, 4], 2))).unwrap(), vec![1, 2]);
    assert_eq!(from_backend(Ok((vec![1, 2, 3, 4], 4))).unwrap(), vec![1, 2, 3, 4]);
    assert_eq!(from_backend(Ok((vec![1, 2, 3, 4], 0))).unwrap(), Vec::<u8>::new());
}

#[test]
fn backend_count_beyond_the_buffer_leaves_the_buffer() {
    assert_eq!(from_backend(Ok((vec![1, 2, 3], 9))).unwrap(), vec![1, 2, 3]);
    assert_eq!(from_backend(Ok((Vec::new(), 1))).unwrap(), Vec::<u8>::new());
}

#[test]
fn backend_error_is_wrapped_unchanged() {
    let stack = match Rsa::public_key_from_der(b"not a key") {
        Err(stack) => stack,
        Ok(_) => panic!("a key was read from bytes that hold none"),
    };
    let told = format!("{}", stack);
    match from_backend(Err(stack)) {
        Err(Error::CryptoError(wrapped)) => assert_eq!(format!("{}", wrapped), told),
        other => panic!("not a crypto error: {:?}", other),
    }
    assert!(matches!(from_backend(Err(ErrorStack::get())), Err(Error::CryptoError(_))));
}

#[test]
fn response_holds_each_ciphertext_in_its_own_field() {
    let packet = response_from(vec![1, 2, 3], Ok(vec![4, 5])).unwrap();
    assert_eq!(
        packet,
        ServerboundPacket::EncryptionResponse(EncryptionResponse {
            shared_secret: vec![1, 2, 3],
            verify_token: vec![4, 5],
        })
    );
}

#[test]
fn response_is_refused_when_the_second_encryption_failed() {
    assert!(matches!(
        response_from(vec![1, 2, 3], Err(Error::InvalidSecretLength)),
        Err(Error::InvalidSecretLength)
    ));
    let failed = rsa_encrypt(b"not a key", &[1u8; 4]);
    assert!(matches!(response_from(vec![1, 2, 3], failed), Err(Error::CryptoError(_))));
}

#[test]
fn token_too_long_for_the_key_refuses_the_whole_response() {
    let key = Rsa::generate(2048).unwrap();
    let der = key.public_key_to_der().unwrap();
    let res = EncryptionResponse::new_unencrypted(&der, &[1u8; 16], &[2u8; 300]);
    assert!(matches!(res, Err(Error::CryptoError(_))));
}

#[test]
fn secret_and_token_are_not_swapped() {
    let key = Rsa::generate(2048).unwrap();
    let der = key.public_key_to_der().unwrap();
    let secret = [3u8; 16];
    let token = [4u8; 4];
    let response = response(EncryptionResponse::new_unencrypted(&der, &secret, &token).unwrap());
    assert_eq!(rsa_decrypt(&key, &response.shared_secret).unwrap(), secret.to_vec());
    assert_eq!(rsa_decrypt(&key, &response.verify_token).unwrap(), token.to_vec());
}
