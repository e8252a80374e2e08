use aes::cipher::{BlockModeDecrypt, BlockModeEncrypt, KeyIvInit};
use nanofile_service::error::AppError;
use nanofile_service::repo::{
    build_op_url, choose_new_verifier, hex_of_len, key_material, rekey_random_key, resolve_repo_id,
    check_server_verifier, server_enc_version, server_generates_keys, settle_encryption, validate_repo_name,
    EncryptedLibraryPolicy,
    NewVerifier, PwdHash, RepoCrypto, RepoRow,
};

fn bad(m: &str) -> AppError {
    AppError::BadRequest(m.to_string())
}

fn hex64() -> String {
    "ab".repeat(32)
}

fn hex96() -> String {
    "cd".repeat(48)
}

fn row() -> RepoRow {
    RepoRow {
        encrypted: 1,
        enc_version: 2,
        magic: Some(hex64()),
        random_key: Some(hex96()),
        salt: "s".to_string(),
        pwd_hash: None,
        pwd_hash_algo: None,
        pwd_hash_params: None,
    }
}

#[test]
fn verifier_triples_are_normalized_and_validated() {
    let p = PwdHash::from_request(Some(" h ".to_string()), Some("  ".to_string()), Some("p".to_string()))
        .normalized();
    assert_eq!((p.hash, p.algo, p.params), (None, None, None));
    let p = PwdHash::from_request(Some(hex64()), Some(" argon2id ".to_string()), Some(" ".to_string()))
        .normalized();
    assert_eq!(p.algo.as_deref(), Some("argon2id"));
    assert_eq!(p.params, None);
    assert!(p.is_present());
    assert_eq!(p.validate(Ok(())), Ok(()));
    assert_eq!(p.to_columns(), (Some(hex64()), Some("argon2id".to_string()), None));
    let q = PwdHash::from_request(Some("abc".to_string()), Some("md5".to_string()), None);
    assert_eq!(
        q.validate(Ok(())),
        Err(bad("unsupported pwd_hash algorithm 'md5'; use 'pbkdf2_sha256' or 'argon2id'"))
    );
    let q = PwdHash::from_request(Some("abc".to_string()), Some("pbkdf2_sha256".to_string()), None);
    assert_eq!(q.validate(Ok(())), Err(bad("pwd_hash must be 64 hex characters")));
    assert_eq!(PwdHash::default().validate(Ok(())), Err(bad("pwd_hash_algo required with pwd_hash")));
    assert!(hex_of_len(&hex64(), 64));
    assert!(!hex_of_len("xy", 2));
}

#[test]
fn the_server_generates_keys_only_for_a_bare_password() {
    let none = PwdHash::default();
    assert!(server_generates_keys(&None, &None, &none, Some("pw")));
    assert!(!server_generates_keys(&None, &None, &none, Some("")));
    assert!(!server_generates_keys(&Some(hex64()), &None, &none, Some("pw")));
    assert!(server_generates_keys(&Some("  ".to_string()), &None, &none, Some("pw")));
    let policy = EncryptedLibraryPolicy::from_config(4, Some(" ".to_string()), None);
    assert_eq!(policy.pwd_hash_algo, None);
    assert_eq!(server_enc_version(&policy), Ok(4));
    let policy = EncryptedLibraryPolicy::from_config(3, None, None);
    assert_eq!(
        server_enc_version(&policy),
        Err(bad("server.encrypted_library_version must be 2 or 4 to create a library from a bare password"))
    );
}

#[test]
fn new_libraries_settle_their_encryption() {
    let plain = settle_encryption(0, 0, None, None, None, PwdHash::default(), Ok(())).unwrap();
    assert_eq!((plain.encrypted, plain.enc_version), (0, 0));
    let enc = settle_encryption(0, 2, Some(hex64()), Some(hex96()), Some("salt".to_string()), PwdHash::default(), Ok(()))
        .unwrap();
    assert_eq!((enc.encrypted, enc.enc_version, enc.salt.as_str()), (1, 2, ""));
    let triple = PwdHash::from_request(Some(hex64()), Some("pbkdf2_sha256".to_string()), None);
    let v4 = settle_encryption(1, 4, Some(hex64()), Some(hex96()), Some("salt".to_string()), triple.clone(), Ok(())).unwrap();
    assert_eq!(v4.magic, None);
    assert_eq!(v4.salt, "salt");
    assert_eq!(
        settle_encryption(1, 3, Some(hex64()), Some(hex96()), None, PwdHash::default(), Ok(())).unwrap_err(),
        bad("unsupported enc_version (only 2 and 4 are supported)")
    );
    assert_eq!(
        settle_encryption(1, 2, Some("x".to_string()), Some(hex96()), None, PwdHash::default(), Ok(())).unwrap_err(),
        bad("magic must be 64 hex chars")
    );
    assert_eq!(
        settle_encryption(1, 2, Some(hex64()), Some("x".to_string()), None, PwdHash::default(), Ok(())).unwrap_err(),
        bad("random_key must be 96 hex chars")
    );
    assert_eq!(
        settle_encryption(1, 4, Some(hex64()), Some(hex96()), Some(" ".to_string()), PwdHash::default(), Ok(()))
            .unwrap_err(),
        bad("salt is required for enc_version 4")
    );
    assert_eq!(
        settle_encryption(1, 4, Some(hex64()), Some(hex96()), Some("salt".to_string()), triple, Err("bad iterations".to_string()))
            .unwrap_err(),
        bad("bad iterations")
    );
    // Without a triple the parameter verdict does not apply.
    assert!(settle_encryption(0, 2, Some(hex64()), Some(hex96()), None, PwdHash::default(), Err("x".to_string())).is_ok());
}

#[test]
fn parameters_the_key_derivation_refuses_are_refused() {
    let p = PwdHash::from_request(Some(hex64()), Some("argon2id".to_string()), Some("t=0".to_string()));
    assert_eq!(p.validate(Err("argon2id parameters invalid".to_string())), Err(bad("argon2id parameters invalid")));
    let legacy = EncryptedLibraryPolicy::from_config(2, None, None);
    assert_eq!(check_server_verifier(&legacy, Err("x".to_string())), Ok(()));
    let configured = EncryptedLibraryPolicy::from_config(4, Some("pbkdf2_sha256".to_string()), Some("1000".to_string()));
    assert_eq!(check_server_verifier(&configured, Ok(())), Ok(()));
    assert_eq!(check_server_verifier(&configured, Err("too few".to_string())), Err(bad("too few")));
}

#[test]
fn repo_ids_must_be_uuids() {
    assert_eq!(
        resolve_repo_id(Some(" 67E55044-10B1-426F-9247-BB680E5FE0C8 ".to_string())),
        Ok("67e55044-10b1-426f-9247-bb680e5fe0c8".to_string())
    );
    assert_eq!(resolve_repo_id(Some("../../x".to_string())), Err(bad("repo_id must be a valid UUID")));
    let fresh = resolve_repo_id(None).unwrap();
    assert_eq!(fresh.len(), 36);
    assert_ne!(fresh, resolve_repo_id(None).unwrap());
    // A fresh id is already canonical: proposing it back gives it back.
    assert_eq!(resolve_repo_id(Some(fresh.clone())), Ok(fresh.clone()));
    assert_eq!(build_op_url("https://h//", "files", "t"), "https://h/files/t");
}

#[test]
fn stored_libraries_show_and_unlock() {
    let mut r = row();
    let c = RepoCrypto::from_model(&r);
    assert!(c.encrypted);
    assert_eq!(c.salt, None);
    assert_eq!(c.magic, Some(hex64()));
    r.pwd_hash = Some("h".to_string());
    r.pwd_hash_algo = Some("argon2id".to_string());
    r.enc_version = 4;
    let c = RepoCrypto::from_model(&r);
    assert_eq!(c.magic, None);
    assert_eq!(c.salt, Some("s".to_string()));
    assert_eq!(choose_new_verifier(&r), Ok(NewVerifier::PwdHash));
    let m = key_material(&r).unwrap();
    assert_eq!((m.enc_version, m.salt.as_str()), (4, "s"));
    let plain = RepoRow { encrypted: 0, ..row() };
    assert_eq!(key_material(&plain).unwrap_err(), bad("repo is not encrypted"));
    assert_eq!(RepoCrypto::from_model(&plain).enc_version, None);
    let keyless = RepoRow { random_key: None, ..row() };
    assert_eq!(key_material(&keyless).unwrap_err(), bad("repo has no random_key"));
    assert_eq!(choose_new_verifier(&row()), Ok(NewVerifier::Magic));
    let bare = RepoRow { magic: None, ..row() };
    assert_eq!(choose_new_verifier(&bare), Err(bad("repo has no magic")));
}

#[test]
fn a_password_change_rewraps_the_same_file_key() {
    let (k1, iv1) = ([1u8; 32], [2u8; 16]);
    let (k2, iv2) = ([3u8; 32], [4u8; 16]);
    let secret = b"the library's file key, 32 bytes".to_vec();
    let wrapped = cbc::Encryptor::<aes::Aes256>::new_from_slices(&k1, &iv1)
        .unwrap()
        .encrypt_padded_vec::<aes::cipher::block_padding::Pkcs7>(&secret);
    let rewrapped = rekey_random_key(&hex::encode(&wrapped), &k1, &iv1, &k2, &iv2).unwrap();
    assert_ne!(rewrapped, hex::encode(&wrapped));
    let back = cbc::Decryptor::<aes::Aes256>::new_from_slices(&k2, &iv2)
        .unwrap()
        .decrypt_padded_vec::<aes::cipher::block_padding::Pkcs7>(&hex::decode(&rewrapped).unwrap())
        .unwrap();
    assert_eq!(back, secret);
    assert_eq!(rekey_random_key("zz", &k1, &iv1, &k2, &iv2), Err(bad("invalid random_key hex")));
    assert_eq!(
        rekey_random_key(&hex::encode(&wrapped), &k1[..16], &iv1, &k2, &iv2),
        Err(bad("cipher init: Invalid Length"))
    );
    assert_eq!(
        rekey_random_key(&hex::encode(&wrapped), &k2, &iv2, &k2, &iv2),
        Err(bad("failed to decrypt random_key: Padding error"))
    );
    assert_eq!(
        rekey_random_key(&hex::encode(&wrapped), &k1, &iv1, &k2, &iv2[..8]),
        Err(bad("cipher init: Invalid Length"))
    );
}

#[test]
fn repo_names_are_trimmed_and_screened() {
    assert_eq!(validate_repo_name("  My Library  "), Ok("My Library".to_string()));
    assert_eq!(validate_repo_name("Ünïcode ok"), Ok("Ünïcode ok".to_string()));
    for bad_name in ["", "   ", "a/b", "<script>", "x>y", "Tom & Jerry", "say \"hi\"", "tab\there", "del\u{7f}", "c1\u{85}x"] {
        assert_eq!(validate_repo_name(bad_name), Err(bad("invalid repo name")), "{bad_name:?}");
    }
    let longest = "a".repeat(255);
    assert_eq!(validate_repo_name(&longest), Ok(longest.clone()));
    assert_eq!(validate_repo_name(&"a".repeat(256)), Err(bad("invalid repo name")));
    // 128 two-byte characters are 256 bytes.
    assert_eq!(validate_repo_name(&"é".repeat(128)), Err(bad("invalid repo name")));
}
