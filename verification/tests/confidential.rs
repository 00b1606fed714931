use hydra::confidential::{ComputeError, ConfidentialCompute, ConfidentialConfig};
use std::cell::Cell;

/// A sampler whose draws land inside and outside by turns, starting outside.
fn alternating() -> impl Fn() -> bool {
    let inside = Cell::new(true);
    move || {
        inside.set(!inside.get());
        inside.get()
    }
}

fn config(encryption: bool, attestation: bool) -> ConfidentialConfig {
    ConfidentialConfig {
        enabled: true,
        enclave_path: Some("/tmp/enclave.so".to_string()),
        attestation_required: attestation,
        encryption_enabled: encryption,
    }
}

#[test]
fn new_keeps_configuration() {
    let c = ConfidentialCompute::new(config(true, false)).unwrap();
    assert!(c.config().encryption_enabled);
    assert_eq!(c.config().enclave_path.as_deref(), Some("/tmp/enclave.so"));
}

#[test]
fn data_passes_in_the_clear_without_encryption() {
    let c = ConfidentialCompute::new(config(false, false)).unwrap();
    let data = vec![1u8, 2, 3];
    let e = c.encrypt_chunk_data(&data).unwrap();
    assert_eq!(e, data);
    assert_eq!(c.decrypt_chunk_data(&e).unwrap(), data);
    assert_eq!(c.decrypt_chunk_data(&[9]).unwrap(), vec![9]);
}

#[test]
fn encryption_seals_with_a_tag_and_fresh_nonce() {
    let c = ConfidentialCompute::new(config(true, false)).unwrap();
    let data = b"chunk parameters".to_vec();
    let e1 = c.encrypt_chunk_data(&data).unwrap();
    let e2 = c.encrypt_chunk_data(&data).unwrap();
    assert_eq!(e1.len(), data.len() + 12 + 16);
    assert_ne!(&e1[12..12 + data.len()], &data[..]);
    assert_ne!(e1, e2);
    assert_ne!(&e1[..12], &e2[..12]);
}

#[test]
fn decryption_refuses_short_or_forged_data() {
    let c = ConfidentialCompute::new(config(true, false)).unwrap();
    assert!(matches!(c.decrypt_chunk_data(&[0u8; 11]), Err(ComputeError::InvalidEncryptedDataLength)));
    assert!(matches!(c.decrypt_chunk_data(&[0u8; 12]), Err(ComputeError::DecryptionFailed)));
    assert!(matches!(c.decrypt_chunk_data(&[7u8; 40]), Err(ComputeError::DecryptionFailed)));
}

#[test]
fn encrypted_data_decrypts_to_itself() {
    let c = ConfidentialCompute::new(config(true, false)).unwrap();
    for data in [vec![], vec![5u8; 32], b"calculate_pi".to_vec()] {
        let e = c.encrypt_chunk_data(&data).unwrap();
        assert_eq!(e.len(), data.len() + 28);
        assert_eq!(c.decrypt_chunk_data(&e).unwrap(), data);
    }
}

#[test]
fn tampered_ciphertext_is_refused() {
    let c = ConfidentialCompute::new(config(true, false)).unwrap();
    let mut e = c.encrypt_chunk_data(&[5u8; 32]).unwrap();
    e[20] ^= 1;
    assert!(matches!(c.decrypt_chunk_data(&e), Err(ComputeError::DecryptionFailed)));
    let other = ConfidentialCompute::new(config(true, false)).unwrap();
    let e = c.encrypt_chunk_data(&[5u8; 32]).unwrap();
    assert!(matches!(other.decrypt_chunk_data(&e), Err(ComputeError::DecryptionFailed)));
}

#[test]
fn enclave_runs_pi_chunks() {
    let c = ConfidentialCompute::new(config(false, false)).unwrap();
    let out = c
        .compute_in_enclave("calculate_pi", &500u64.to_le_bytes(), alternating(), |_r: u32, _s: u32| vec![])
        .unwrap();
    assert_eq!(out, 250u64.to_le_bytes().to_vec());
    let out = c.compute_in_enclave("calculate_pi", &[], || true, |_r: u32, _s: u32| vec![]).unwrap();
    assert_eq!(out, 1000u64.to_le_bytes().to_vec());
    let out = c.compute_in_enclave("calculate_pi", &7u64.to_le_bytes(), || false, |_r: u32, _s: u32| vec![]).unwrap();
    assert_eq!(out, 0u64.to_le_bytes().to_vec());
}

#[test]
fn enclave_runs_mandelbrot_chunks() {
    let c = ConfidentialCompute::new(config(false, false)).unwrap();
    let mut data = 3u32.to_le_bytes().to_vec();
    data.extend_from_slice(&16u32.to_le_bytes());
    let out = c
        .compute_in_enclave("calculate_mandelbrot", &data, || true, |r: u32, s: u32| vec![r as u8, s as u8])
        .unwrap();
    assert_eq!(out, vec![3, 16]);
    let out = c
        .compute_in_enclave("calculate_mandelbrot", &data[..5], || true, |r: u32, s: u32| vec![r as u8, s as u8])
        .unwrap();
    assert!(out.is_empty());
}

#[test]
fn enclave_refuses_unknown_tasks() {
    let c = ConfidentialCompute::new(config(false, false)).unwrap();
    match c.compute_in_enclave("render_video", &[], || true, |_r: u32, _s: u32| vec![]) {
        Err(ComputeError::UnknownTaskType(t)) => assert_eq!(t, "render_video"),
        other => panic!("unexpected {:?}", other),
    }
}

#[test]
fn attestation_report_only_when_required() {
    let c = ConfidentialCompute::new(config(false, false)).unwrap();
    assert_eq!(c.generate_attestation_report().unwrap(), None);
    let c = ConfidentialCompute::new(config(false, true)).unwrap();
    assert_eq!(c.generate_attestation_report().unwrap(), Some(b"mock_attestation_report".to_vec()));
}
