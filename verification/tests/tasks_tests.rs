use aes_gcm::aead::{Aead, KeyInit};
use nfm::file_browser::{ArchiveType, GitTask};
use nfm::tasks::{
    aes_decrypt_bytes, aes_encrypt_bytes, archive_command, checksum_message, error_message,
    extracts_with_unzip, finished_message, git_args, git_progress_label, git_success_message,
    name_matches, search_summary, seal_with_nonce, xor_with_key, CryptoError,
};
use sha2::Digest;

#[test]
fn xor_repeats_the_key() {
    let out = xor_with_key(&[1, 2, 3, 4, 5], &[0xff, 0x0f]);
    assert_eq!(out, vec![0xfe, 0x0d, 0xfc, 0x0b, 0xfa]);
    assert_eq!(xor_with_key(&[], &[]), Vec::<u8>::new());
}

#[test]
fn xor_twice_restores_the_data() {
    let data = b"The quick brown fox jumps over the lazy dog".to_vec();
    let key = b"secret";
    let once = xor_with_key(&data, key);
    assert_ne!(once, data);
    assert_eq!(xor_with_key(&once, key), data);
}

#[test]
fn checksum_reports_lowercase_hex() {
    assert_eq!(checksum_message("MD5", b"abc"), "MD5 hash: 900150983cd24fb0d6963f7d28e17f72");
    assert_eq!(
        checksum_message("SHA256", b"abc"),
        "SHA256 hash: ba7816bf8f01cfea414140de5dae2223b00361a396177a9cb410ff61f20015ad"
    );
    assert_eq!(
        checksum_message("SHA256", b""),
        "SHA256 hash: e3b0c44298fc1c149afbf4c8996fb92427ae41e4649b934ca495991b7852b855"
    );
}

#[test]
fn aes_roundtrip() {
    let data = b"attack at dawn".to_vec();
    let sealed = aes_encrypt_bytes(&data, "hunter2").unwrap();
    assert_eq!(sealed.len(), 12 + data.len() + 16);
    assert_ne!(&sealed[12..12 + data.len()], &data[..]);
    assert_eq!(aes_decrypt_bytes(&sealed, "hunter2"), Ok(data.clone()));
    let empty = aes_encrypt_bytes(&[], "pw").unwrap();
    assert_eq!(aes_decrypt_bytes(&empty, "pw"), Ok(Vec::new()));
}

#[test]
fn aes_errors() {
    let sealed = aes_encrypt_bytes(b"payload", "right").unwrap();
    assert_eq!(aes_decrypt_bytes(&sealed, "wrong"), Err(CryptoError::Decrypt));
    let mut damaged = sealed.clone();
    let last = damaged.len() - 1;
    damaged[last] ^= 1;
    assert_eq!(aes_decrypt_bytes(&damaged, "right"), Err(CryptoError::Decrypt));
    assert_eq!(aes_decrypt_bytes(&[0u8; 11], "right"), Err(CryptoError::InvalidEncryptedFile));
    assert_eq!(aes_decrypt_bytes(&[0u8; 12], "right"), Err(CryptoError::Decrypt));
}

#[test]
fn aes_seal_matches_the_cipher() {
    let nonce = vec![7u8; 12];
    let out = seal_with_nonce(b"hello", "key", &nonce).unwrap();
    let key = sha2::Sha256::digest(b"key");
    let cipher = aes_gcm::Aes256Gcm::new(&key);
    let expected = cipher.encrypt(aes_gcm::Nonce::from_slice(&nonce), &b"hello"[..]).unwrap();
    assert_eq!(&out[..12], &nonce[..]);
    assert_eq!(&out[12..], &expected[..]);
    assert_eq!(aes_decrypt_bytes(&out, "key"), Ok(b"hello".to_vec()));
}

#[test]
fn git_command_lines() {
    let args = git_args(&GitTask::Commit("fix bug".to_string()));
    assert_eq!(args, vec!["commit", "-m", "fix bug"]);
    assert_eq!(git_progress_label(&args), "git commit -m fix bug");
    let args = git_args(&GitTask::RemoteAdd { name: "origin".to_string(), url: "u".to_string() });
    assert_eq!(args, vec!["remote", "add", "origin", "u"]);
    assert_eq!(git_args(&GitTask::AddAll), vec!["add", "."]);
    assert_eq!(git_args(&GitTask::Status), vec!["status"]);
    let push = GitTask::Push { remote: "origin".to_string(), branch: "main".to_string() };
    assert_eq!(git_progress_label(&git_args(&push)), "git push origin main");
    assert_eq!(git_progress_label(&Vec::new()), "git ");
}

#[test]
fn git_success_is_cut_at_100_bytes() {
    assert_eq!(git_success_message("On branch main"), "Success: On branch main");
    let long = "a".repeat(150);
    assert_eq!(git_success_message(&long), format!("Success: {}", "a".repeat(100)));
    let exact = "b".repeat(100);
    assert_eq!(git_success_message(&exact), format!("Success: {}", exact));
    let mixed = format!("{}{}", "\u{e9}".repeat(50), "tail");
    assert_eq!(git_success_message(&mixed), format!("Success: {}", "\u{e9}".repeat(50)));
}

#[test]
fn search_matching_and_summary() {
    assert!(name_matches("README.md", "readme"));
    assert!(name_matches("notes.TXT", "S.t"));
    assert!(!name_matches("main.rs", "lib"));
    assert!(name_matches("anything", ""));
    assert_eq!(search_summary(0), "Nothing found");
    assert_eq!(search_summary(1), "Found 1 items");
    assert_eq!(search_summary(42), "Found 42 items");
}

#[test]
fn job_messages() {
    assert_eq!(finished_message("Copying"), "Copying finished");
    assert_eq!(error_message("No such file"), "Error: No such file");
    assert_eq!(archive_command(ArchiveType::Zip), ("zip", "-r"));
    assert_eq!(archive_command(ArchiveType::Tar), ("tar", "-cvf"));
    assert_eq!(archive_command(ArchiveType::Gzip), ("tar", "-czvf"));
    assert!(extracts_with_unzip("/tmp/a.zip"));
    assert!(!extracts_with_unzip("/tmp/a.tar.gz"));
}
