//! Confidential computation on a worker: encryption of chunk data under a
//! per-worker AES-256-GCM key, attestation, and the dispatch of a chunk's
//! computation, which runs inside an enclave where one is available and
//! in the clear otherwise.

use aes_gcm::aead::Aead;
use aes_gcm::{Aes256Gcm, KeyInit, Nonce};
use generic_array::GenericArray;
use rand::TryRngCore;
use rand::rngs::OsRng;
use crate::job::{is_mandelbrot_task, is_pi_task, mandelbrot_task, pi_task};
use crate::worker::{
    do_monte_carlo, mandelbrot_chunk_params, parse_mandelbrot_chunk, parse_pi_chunk, pi_chunk_points,
    sampled_count,
};
use vstd::bytes::{spec_u64_to_le_bytes, u64_to_le_bytes};
use vstd::prelude::*;
use vstd::slice::{slice_subrange, slice_to_vec};

verus! {

broadcast use vstd::string::group_string_axioms;

/// Length in bytes of an AES-256 key.
pub const KEY_LEN: usize = 32;

/// Length in bytes of an AES-GCM nonce.
pub const NONCE_LEN: usize = 12;

/// Length in bytes of an AES-GCM authentication tag.
pub const TAG_LEN: usize = 16;

/// The largest plaintext, in bytes, that AES-GCM encrypts.
pub const MAX_PLAINTEXT_LEN: u64 = 0x10_0000_0000;

/// The ciphertext that AES-256-GCM makes of `plaintext` under `key` and
/// `nonce`, with no associated data, the tag appended.
pub uninterp spec fn aes256_gcm_seal(key: Seq<u8>, nonce: Seq<u8>, plaintext: Seq<u8>) -> Seq<u8>;

/// The plaintext that AES-256-GCM recovers from `ciphertext` under `key` and
/// `nonce`, with no associated data; `None` where authentication fails.
pub uninterp spec fn aes256_gcm_open(key: Seq<u8>, nonce: Seq<u8>, ciphertext: Seq<u8>) -> Option<
    Seq<u8>,
>;

/// Calls `TryRngCore::try_fill_bytes` on `rand`'s `OsRng`: fills the
/// buffer from the operating system's random source and answers whether
/// that succeeded. It does not panic: a failure of the source comes back as
/// `false`. The buffer keeps its length; its bytes depend on chance and are
/// not stated.
#[verifier::external_body]
fn os_random_fill(buf: &mut Vec<u8>) -> (filled: bool)
    ensures
        final(buf)@.len() == old(buf)@.len(),
{
    let mut rng = OsRng;
    rng.try_fill_bytes(buf.as_mut_slice()).is_ok()
}

/// Calls `Aes256Gcm::new` on `key` and then `Aead::encrypt` with `nonce`
/// and `plaintext`. As the `aes-gcm` source shows, encryption fails exactly
/// for a plaintext longer than `MAX_PLAINTEXT_LEN` bytes; otherwise the
/// result is the ciphertext named `aes256_gcm_seal`, a tag of `TAG_LEN`
/// bytes longer than the plaintext, which decryption under the same key and
/// nonce opens to the plaintext again.
#[verifier::external_body]
fn aes256_gcm_encrypt(key: &[u8], nonce: &[u8], plaintext: &[u8]) -> (r: Option<Vec<u8>>)
    requires
        key@.len() == KEY_LEN,
        nonce@.len() == NONCE_LEN,
    ensures
        r is Some <==> plaintext@.len() <= MAX_PLAINTEXT_LEN,
        r matches Some(c) ==> c@ == aes256_gcm_seal(key@, nonce@, plaintext@) && c@.len()
            == plaintext@.len() + TAG_LEN && aes256_gcm_open(key@, nonce@, c@) == Some(plaintext@),
{
    let cipher = Aes256Gcm::new(&GenericArray::clone_from_slice(key));
    cipher.encrypt(Nonce::from_slice(nonce), plaintext).ok()
}

/// Calls `Aes256Gcm::new` on `key` and then `Aead::decrypt` with `nonce`
/// and `ciphertext`. The result is the plaintext named `aes256_gcm_open`;
/// as the `aes-gcm` source shows, a ciphertext shorter than a tag fails, and
/// a recovered plaintext is a tag shorter than the ciphertext.
#[verifier::external_body]
fn aes256_gcm_decrypt(key: &[u8], nonce: &[u8], ciphertext: &[u8]) -> (r: Option<Vec<u8>>)
    requires
        key@.len() == KEY_LEN,
        nonce@.len() == NONCE_LEN,
    ensures
        match r {
            Some(p) => aes256_gcm_open(key@, nonce@, ciphertext@) == Some(p@),
            None => aes256_gcm_open(key@, nonce@, ciphertext@) is None,
        },
        ciphertext@.len() < TAG_LEN ==> r is None,
        r matches Some(p) ==> p@.len() == ciphertext@.len() - TAG_LEN,
{
    let cipher = Aes256Gcm::new(&GenericArray::clone_from_slice(key));
    cipher.decrypt(Nonce::from_slice(nonce), ciphertext).ok()
}

/// How a worker runs confidential computation.
#[derive(Clone, Debug)]
pub struct ConfidentialConfig {
    pub enabled: bool,
    pub enclave_path: Option<String>,
    pub attestation_required: bool,
    pub encryption_enabled: bool,
}

/// Chunk data as it travels encrypted.
#[derive(Clone, Debug)]
pub struct SecureChunk {
    pub encrypted_data: Vec<u8>,
    pub nonce: Vec<u8>,
    pub attestation_report: Option<Vec<u8>>,
}

/// Why a confidential operation failed.
#[derive(Clone, Debug)]
pub enum ComputeError {
    /// Encrypted data shorter than a nonce.
    InvalidEncryptedDataLength,
    EncryptionFailed,
    /// The operating system's random source failed.
    RandomSourceFailed,
    DecryptionFailed,
    /// A chunk of a task the worker does not know.
    UnknownTaskType(String),
}

/// The handle of a loaded enclave; this build loads none.
pub type EnclaveHandle = ();

/// A worker's confidential-computation context: its configuration, its
/// enclave, if one is loaded, and its encryption key.
pub struct ConfidentialCompute {
    config: ConfidentialConfig,
    enclave_handle: Option<EnclaveHandle>,
    encryption_key: Vec<u8>,
}

/// The report handed out where attestation is required.
pub open spec fn mock_attestation_report() -> Seq<u8> {
    seq![
        109u8, 111, 99, 107, 95, 97, 116, 116, 101, 115, 116, 97, 116, 105, 111, 110, 95, 114,
        101, 112, 111, 114, 116,
    ]
}

impl ConfidentialCompute {
    /// The key is an AES-256 key.
    #[verifier::type_invariant]
    spec fn key_is_aes256(self) -> bool {
        self.encryption_key@.len() == KEY_LEN
    }

    /// The configuration.
    pub closed spec fn spec_config(self) -> ConfidentialConfig {
        self.config
    }

    /// The encryption key.
    pub closed spec fn key(self) -> Seq<u8> {
        self.encryption_key@
    }

    /// Whether an enclave is loaded.
    pub closed spec fn has_enclave(self) -> bool {
        self.enclave_handle is Some
    }

    /// A fresh random AES-256 key; `None` where the random source fails.
    fn generate_encryption_key() -> (key: Option<Vec<u8>>)
        ensures
            key matches Some(k) ==> k@.len() == KEY_LEN,
    {
        let mut key: Vec<u8> = vec![0u8; KEY_LEN];
        if os_random_fill(&mut key) {
            Some(key)
        } else {
            None
        }
    }

    /// The enclave for `enclave_path`. Enclaves are loaded only on SGX
    /// targets, which this build is not, so no enclave is loaded.
    fn initialize_enclave(_enclave_path: &Option<String>) -> (r: Result<
        Option<EnclaveHandle>,
        ComputeError,
    >)
        ensures
            r == Ok::<Option<EnclaveHandle>, ComputeError>(None),
    {
        Ok(None)
    }

    /// A context for `config` with `encryption_key` as its key; an enclave
    /// is loaded only where confidential computation is enabled. Every
    /// configuration, confidential computation enabled or not, gives a
    /// context.
    pub fn with_key(config: ConfidentialConfig, encryption_key: Vec<u8>) -> (r: Result<
        ConfidentialCompute,
        ComputeError,
    >)
        requires
            encryption_key@.len() == KEY_LEN,
        ensures
            r matches Ok(c) && c.spec_config() == config && c.key() == encryption_key@
                && !c.has_enclave(),
    {
        let enclave_handle = if config.enabled {
            match Self::initialize_enclave(&config.enclave_path) {
                Ok(h) => h,
                Err(e) => {
                    return Err(e);
                },
            }
        } else {
            None
        };
        Ok(ConfidentialCompute { config, enclave_handle, encryption_key })
    }

    /// A context for `config` with a fresh random key (see `with_key`).
    /// Fails only where the random source fails.
    pub fn new(config: ConfidentialConfig) -> (r: Result<ConfidentialCompute, ComputeError>)
        ensures
            r matches Ok(c) ==> c.spec_config() == config && c.key().len() == KEY_LEN
                && !c.has_enclave(),
            r matches Err(e) ==> e is RandomSourceFailed,
    {
        let encryption_key = match Self::generate_encryption_key() {
            Some(k) => k,
            None => {
                return Err(ComputeError::RandomSourceFailed);
            },
        };
        Self::with_key(config, encryption_key)
    }

    /// The configuration.
    pub fn config(&self) -> (c: &ConfidentialConfig)
        ensures
            *c == self.spec_config(),
    {
        &self.config
    }

    /// `nonce` followed by the AES-256-GCM ciphertext of `data` under the
    /// context's key and `nonce`.
    pub open spec fn sealed_under(self, nonce: Seq<u8>, data: Seq<u8>) -> Seq<u8> {
        nonce + aes256_gcm_seal(self.key(), nonce, data)
    }

    /// `r` is what encrypting `data` can answer: the data itself with
    /// encryption disabled; otherwise a nonce of `NONCE_LEN` bytes followed
    /// by the AES-256-GCM ciphertext of the data under the context's key and
    /// that nonce, which opens to the data again, `NONCE_LEN + TAG_LEN` bytes
    /// longer than the data. It fails only where the data is too long to
    /// encrypt or the random source fails, and always where the data is too
    /// long.
    pub open spec fn encrypted_as(self, data: Seq<u8>, r: Result<Vec<u8>, ComputeError>) -> bool {
        if !self.spec_config().encryption_enabled {
            r matches Ok(d) && d@ == data
        } else {
            &&& data.len() > MAX_PLAINTEXT_LEN ==> r is Err
            &&& r matches Ok(c) ==> {
                &&& c@.len() == data.len() + NONCE_LEN + TAG_LEN
                &&& exists|nonce: Seq<u8>|
                    #![trigger self.sealed_under(nonce, data)]
                    nonce.len() == NONCE_LEN && c@ == self.sealed_under(nonce, data)
                        && aes256_gcm_open(self.key(), nonce, aes256_gcm_seal(self.key(), nonce, data))
                        == Some(data)
            }
            &&& r matches Err(e) ==> (e is EncryptionFailed && data.len() > MAX_PLAINTEXT_LEN)
                || e is RandomSourceFailed
        }
    }

    /// Encrypts chunk data under the context's key and a fresh random
    /// nonce, which goes in front of the ciphertext; with encryption
    /// disabled the data is returned as it is.
    pub fn encrypt_chunk_data(&self, data: &[u8]) -> (r: Result<Vec<u8>, ComputeError>)
        ensures
            self.encrypted_as(data@, r),
    {
        if !self.config.encryption_enabled {
            return Ok(slice_to_vec(data));
        }
        proof {
            use_type_invariant(self);
        }
        let mut nonce: Vec<u8> = vec![0u8; NONCE_LEN];
        if !os_random_fill(&mut nonce) {
            return Err(ComputeError::RandomSourceFailed);
        }
        match aes256_gcm_encrypt(self.encryption_key.as_slice(), nonce.as_slice(), data) {
            Some(c) => {
                let ghost n = nonce@;
                let mut out = nonce;
                let mut body = c;
                out.append(&mut body);
                proof {
                    assert(out@ == self.sealed_under(n, data@));
                }
                Ok(out)
            },
            None => Err(ComputeError::EncryptionFailed),
        }
    }

    /// `r` is what decrypting `data` answers: the data itself with
    /// encryption disabled; otherwise a failure where it is shorter than a
    /// nonce, else the AES-256-GCM plaintext of the rest under the
    /// context's key and its first `NONCE_LEN` bytes as nonce, or a failure
    /// where that does not authenticate.
    pub open spec fn decrypted_as(self, data: Seq<u8>, r: Result<Vec<u8>, ComputeError>) -> bool {
        if !self.spec_config().encryption_enabled {
            r matches Ok(d) && d@ == data
        } else if data.len() < NONCE_LEN {
            r matches Err(e) && e is InvalidEncryptedDataLength
        } else {
            match aes256_gcm_open(
                self.key(),
                data.subrange(0, NONCE_LEN as int),
                data.subrange(NONCE_LEN as int, data.len() as int),
            ) {
                Some(p) => r matches Ok(d) && d@ == p,
                None => r matches Err(e) && e is DecryptionFailed,
            }
        }
    }

    /// Decrypts chunk data whose first `NONCE_LEN` bytes are the nonce; with
    /// encryption disabled the data is returned as it is.
    pub fn decrypt_chunk_data(&self, encrypted_data: &[u8]) -> (r: Result<Vec<u8>, ComputeError>)
        ensures
            self.decrypted_as(encrypted_data@, r),
    {
        if !self.config.encryption_enabled {
            return Ok(slice_to_vec(encrypted_data));
        }
        proof {
            use_type_invariant(self);
        }
        if encrypted_data.len() < NONCE_LEN {
            return Err(ComputeError::InvalidEncryptedDataLength);
        }
        let nonce = slice_subrange(encrypted_data, 0, NONCE_LEN);
        let body = slice_subrange(encrypted_data, NONCE_LEN, encrypted_data.len());
        match aes256_gcm_decrypt(self.encryption_key.as_slice(), nonce, body) {
            Some(p) => Ok(p),
            None => Err(ComputeError::DecryptionFailed),
        }
    }

    /// Runs one chunk of `task_type`: a π chunk draws as many points as its
    /// data asks for with `lands_inside` and answers the count inside the
    /// circle as eight little-endian bytes; a Mandelbrot chunk renders the
    /// row its data asks for with `render_row`, and answers nothing where its
    /// data is too short. Both run the same way with or without an enclave.
    pub fn compute_in_enclave<S: Fn() -> bool, M: Fn(u32, u32) -> Vec<u8>>(
        &self,
        task_type: &str,
        chunk_data: &[u8],
        lands_inside: S,
        render_row: M,
    ) -> (r: Result<Vec<u8>, ComputeError>)
        requires
            lands_inside.requires(()),
            forall|row: u32, res: u32| render_row.requires((row, res)),
        ensures
            task_type@ == pi_task() ==> (r matches Ok(out) && exists|count: u64|
                count <= pi_chunk_points(chunk_data@) && sampled_count(
                    lands_inside,
                    pi_chunk_points(chunk_data@) as nat,
                    count as nat,
                ) && out@ == #[trigger] spec_u64_to_le_bytes(count)),
            task_type@ != pi_task() && task_type@ == mandelbrot_task() ==> (r matches Ok(out) && match mandelbrot_chunk_params(
                chunk_data@,
            ) {
                Some((row, res)) => render_row.ensures((row, res), out),
                None => out@.len() == 0,
            }),
            task_type@ != pi_task() && task_type@ != mandelbrot_task() ==> (r matches Err(e) && e
                matches ComputeError::UnknownTaskType(t) && t@ == task_type@),
    {
        let task = task_type.to_string();
        if is_pi_task(&task) {
            let points = parse_pi_chunk(chunk_data);
            let count = do_monte_carlo(points, lands_inside);
            Ok(u64_to_le_bytes(count))
        } else if is_mandelbrot_task(&task) {
            match parse_mandelbrot_chunk(chunk_data) {
                Some((row, res)) => Ok(render_row(row, res)),
                None => Ok(Vec::new()),
            }
        } else {
            Err(ComputeError::UnknownTaskType(task))
        }
    }

    /// The attestation report: none unless attestation is required.
    pub fn generate_attestation_report(&self) -> (r: Result<Option<Vec<u8>>, ComputeError>)
        ensures
            !self.spec_config().attestation_required ==> (r matches Ok(o) && o is None),
            self.spec_config().attestation_required ==> (r matches Ok(o) && o matches Some(b) && b@
                == mock_attestation_report()),
    {
        if !self.config.attestation_required {
            return Ok(None);
        }
        let report: Vec<u8> = vec![
            109u8, 111, 99, 107, 95, 97, 116, 116, 101, 115, 116, 97, 116, 105, 111, 110, 95, 114,
            101, 112, 111, 114, 116,
        ];
        proof {
            assert(report@ == mock_attestation_report());
        }
        Ok(Some(report))
    }
}

} // verus!
