//! What the background jobs compute: the XOR and AES-GCM file ciphers, the
//! checksum report, the git command lines and messages, the search match
//! and the messages a job ends with.  Reading and writing the files and
//! running the programs is left to the front end.
use vstd::prelude::*;
use vstd::utf8::encode_utf8;
use aes_gcm::aead::{Aead, KeyInit};
use rand::RngCore;
use sha2::Digest;
use crate::editor::head_at_byte;
use crate::file_browser::{ArchiveType, GitTask, TaskType};
use crate::text::{
    byte_len, byte_length, chars_of, concat2, concat3, contains_chars, has_substring, hex_lower,
    hex_string, index_at_byte, is_boundary, push_decimal, str_eq, str_ends_with, str_lowercase,
    string_of, string_of_chars, to_lowercase, decimal,
};

verus! {

// ---------------------------------------------------------------------------
// Outside functions
// ---------------------------------------------------------------------------

/// What `Sha256::digest` returns for a byte string.
pub uninterp spec fn sha256_of(data: Seq<u8>) -> Seq<u8>;

/// What `Md5::digest` returns for a byte string.
pub uninterp spec fn md5_of(data: Seq<u8>) -> Seq<u8>;

/// What AES-256-GCM encryption (`Aes256Gcm::encrypt`, no associated data) returns
/// for a key, a nonce and a plaintext.
pub uninterp spec fn aes_gcm_seal(key: Seq<u8>, nonce: Seq<u8>, plaintext: Seq<u8>) -> Seq<u8>;

/// What AES-256-GCM decryption (`Aes256Gcm::decrypt`, no associated data) returns
/// for a key, a nonce and a ciphertext: the plaintext, or nothing when the
/// ciphertext does not authenticate.
pub uninterp spec fn aes_gcm_open(key: Seq<u8>, nonce: Seq<u8>, ciphertext: Seq<u8>) -> Option<Seq<u8>>;

/// The largest plaintext, in bytes, that AES-GCM encrypts (`aes_gcm::P_MAX`).
pub open spec fn max_plaintext() -> nat {
    0x10_0000_0000
}

/// `aead::Error`, the error of the AES-GCM functions.
#[verifier::external_type_specification]
#[verifier::external_body]
pub struct ExAeadError(aes_gcm::Error);

/// `<Sha256 as Digest>::digest`: the result is named `sha256_of` of the data;
/// a SHA-256 digest has 32 bytes.
#[verifier::external_body]
fn sha256(data: &[u8]) -> (r: Vec<u8>)
    ensures
        r@ == sha256_of(data@),
        r@.len() == 32,
{
    sha2::Sha256::digest(data).to_vec()
}

/// `<Md5 as Digest>::digest`: the result is named `md5_of` of the data; an MD5
/// digest has 16 bytes.
#[verifier::external_body]
fn md5(data: &[u8]) -> (r: Vec<u8>)
    ensures
        r@ == md5_of(data@),
        r@.len() == 16,
{
    md5::Md5::digest(data).to_vec()
}

/// `Aes256Gcm::new` with the 32-byte key, then `Aead::encrypt` with the 12-byte
/// nonce.  It fails exactly for plaintexts longer than `P_MAX`; otherwise the
/// result is named `aes_gcm_seal`, and decrypting it with the same key and
/// nonce gives the plaintext back (the tag is computed over the same
/// ciphertext, and the same key stream is applied again).
#[verifier::external_body]
fn aes_seal(key: &[u8], nonce: &[u8], plaintext: &[u8]) -> (r: Result<Vec<u8>, aes_gcm::Error>)
    requires
        key@.len() == 32,
        nonce@.len() == 12,
    ensures
        match r {
            Ok(c) => plaintext@.len() <= max_plaintext() && c@ == aes_gcm_seal(
                key@,
                nonce@,
                plaintext@,
            ) && aes_gcm_open(key@, nonce@, c@) == Some(plaintext@),
            Err(_) => plaintext@.len() > max_plaintext(),
        },
{
    let cipher = aes_gcm::Aes256Gcm::new(aes_gcm::Key::<aes_gcm::Aes256Gcm>::from_slice(key));
    cipher.encrypt(aes_gcm::Nonce::from_slice(nonce), plaintext)
}

/// `Aes256Gcm::new` with the 32-byte key, then `Aead::decrypt` with the 12-byte
/// nonce: the result is named `aes_gcm_open`.
#[verifier::external_body]
fn aes_open(key: &[u8], nonce: &[u8], ciphertext: &[u8]) -> (r: Result<Vec<u8>, aes_gcm::Error>)
    requires
        key@.len() == 32,
        nonce@.len() == 12,
    ensures
        match r {
            Ok(p) => aes_gcm_open(key@, nonce@, ciphertext@) == Some(p@),
            Err(_) => aes_gcm_open(key@, nonce@, ciphertext@) is None,
        },
{
    let cipher = aes_gcm::Aes256Gcm::new(aes_gcm::Key::<aes_gcm::Aes256Gcm>::from_slice(key));
    cipher.decrypt(aes_gcm::Nonce::from_slice(nonce), ciphertext)
}

/// Twelve bytes from the thread's random generator (`thread_rng().fill_bytes`).
/// Only their number is claimed.
#[verifier::external_body]
fn random_nonce() -> (r: Vec<u8>)
    ensures
        r@.len() == 12,
{
    let mut nonce = [0u8; 12];
    rand::thread_rng().fill_bytes(&mut nonce);
    nonce.to_vec()
}

// ---------------------------------------------------------------------------
// Ciphers
// ---------------------------------------------------------------------------

/// `data` XOR-ed with `key` repeated.
pub open spec fn xor_spec(data: Seq<u8>, key: Seq<u8>) -> Seq<u8> {
    Seq::new(data.len(), |i: int| data[i] ^ key[i % (key.len() as int)])
}

/// Each byte XOR-ed with the key byte at the same position, the key repeated
/// as often as needed.  The key position is the byte index modulo the key
/// length, so an empty key is only allowed with empty data.
pub fn xor_with_key(data: &[u8], key: &[u8]) -> (r: Vec<u8>)
    requires
        key@.len() > 0 || data@.len() == 0,
    ensures
        r@ == xor_spec(data@, key@),
{
    let mut r: Vec<u8> = Vec::new();
    let mut i: usize = 0;
    while i < data.len()
        invariant
            0 <= i <= data@.len(),
            key@.len() > 0 || data@.len() == 0,
            r@ == xor_spec(data@, key@).take(i as int),
        decreases data@.len() - i,
    {
        r.push(data[i] ^ key[i % key.len()]);
        proof {
            assert(r@ =~= xor_spec(data@, key@).take(i + 1));
        }
        i = i + 1;
    }
    proof {
        assert(r@ =~= xor_spec(data@, key@));
    }
    r
}

/// XOR-ing twice with the same key gives the data back.
pub proof fn law_xor_twice_restores(data: Seq<u8>, key: Seq<u8>)
    requires
        key.len() > 0,
    ensures
        xor_spec(xor_spec(data, key), key) == data,
{
    assert forall|i: int| 0 <= i < data.len() implies #[trigger] xor_spec(xor_spec(data, key), key)[i]
        == data[i] by {
        let a = data[i];
        let b = key[i % (key.len() as int)];
        assert((a ^ b) ^ b == a) by (bit_vector);
    }
    assert(xor_spec(xor_spec(data, key), key) =~= data);
}

/// Why the AES functions fail.
#[derive(Debug, PartialEq, Eq, Structural)]
pub enum CryptoError {
    /// The data is too long to encrypt.
    Encrypt,
    /// The data is shorter than a nonce.
    InvalidEncryptedFile,
    /// The data does not decrypt with the key (wrong key or damaged data).
    Decrypt,
}

/// The AES key made from a password: the SHA-256 digest of its UTF-8 bytes.
pub open spec fn derived_key(password: Seq<char>) -> Seq<u8> {
    sha256_of(encode_utf8(password))
}

/// What decrypting `data` with `password` gives: the first 12 bytes are the
/// nonce, the rest the ciphertext.
pub open spec fn decrypt_result(data: Seq<u8>, password: Seq<char>) -> Result<Seq<u8>, CryptoError> {
    if data.len() < 12 {
        Err(CryptoError::InvalidEncryptedFile)
    } else {
        match aes_gcm_open(derived_key(password), data.take(12), data.skip(12)) {
            Some(p) => Ok(p),
            None => Err(CryptoError::Decrypt),
        }
    }
}

fn derive_key(password: &str) -> (k: Vec<u8>)
    ensures
        k@ == derived_key(password@),
        k@.len() == 32,
{
    sha256(password.as_bytes())
}

/// Encrypts `data` with the key made from `password` and the given nonce;
/// the result is the nonce followed by the ciphertext.
pub fn seal_with_nonce(data: &[u8], password: &str, nonce: &Vec<u8>) -> (r: Result<Vec<u8>, CryptoError>)
    requires
        nonce@.len() == 12,
    ensures
        match r {
            Ok(out) => out@ == nonce@ + aes_gcm_seal(derived_key(password@), nonce@, data@)
                && decrypt_result(out@, password@) == Ok::<Seq<u8>, CryptoError>(data@),
            Err(e) => e == CryptoError::Encrypt && data@.len() > max_plaintext(),
        },
        data@.len() <= max_plaintext() ==> r is Ok,
{
    let key = derive_key(password);
    match aes_seal(key.as_slice(), nonce.as_slice(), data) {
        Ok(c) => {
            let mut out = nonce.clone();
            let mut c = c;
            let ghost cv = c@;
            out.append(&mut c);
            proof {
                assert(out@.take(12) =~= nonce@);
                assert(out@.skip(12) =~= cv);
            }
            Ok(out)
        },
        Err(_) => Err(CryptoError::Encrypt),
    }
}

/// Encrypts `data` with the key made from `password` under a random nonce.
/// What comes out decrypts with the same password to `data`.
pub fn aes_encrypt_bytes(data: &[u8], password: &str) -> (r: Result<Vec<u8>, CryptoError>)
    ensures
        match r {
            Ok(out) => out@.len() >= 12 && out@.skip(12) == aes_gcm_seal(
                derived_key(password@),
                out@.take(12),
                data@,
            ) && decrypt_result(out@, password@) == Ok::<Seq<u8>, CryptoError>(data@),
            Err(e) => e == CryptoError::Encrypt && data@.len() > max_plaintext(),
        },
        data@.len() <= max_plaintext() ==> r is Ok,
{
    let nonce = random_nonce();
    let r = seal_with_nonce(data, password, &nonce);
    proof {
        if r is Ok {
            let out = r->Ok_0;
            assert(out@.take(12) =~= nonce@);
            assert(out@.skip(12) =~= aes_gcm_seal(derived_key(password@), nonce@, data@));
        }
    }
    r
}

/// Decrypts data written by `aes_encrypt_bytes` with the key made from `password`.
pub fn aes_decrypt_bytes(data: &[u8], password: &str) -> (r: Result<Vec<u8>, CryptoError>)
    ensures
        match r {
            Ok(p) => decrypt_result(data@, password@) == Ok::<Seq<u8>, CryptoError>(p@),
            Err(e) => decrypt_result(data@, password@) == Err::<Seq<u8>, CryptoError>(e),
        },
{
    if data.len() < 12 {
        return Err(CryptoError::InvalidEncryptedFile);
    }
    let key = derive_key(password);
    let nonce = slice_range(data, 0, 12);
    let body = slice_range(data, 12, data.len());
    proof {
        assert(nonce@ =~= data@.take(12));
        assert(body@ =~= data@.skip(12));
    }
    match aes_open(key.as_slice(), nonce.as_slice(), body.as_slice()) {
        Ok(p) => Ok(p),
        Err(_) => Err(CryptoError::Decrypt),
    }
}

/// The bytes `from..to` of `data`, copied.
fn slice_range(data: &[u8], from: usize, to: usize) -> (r: Vec<u8>)
    requires
        from <= to <= data@.len(),
    ensures
        r@ == data@.subrange(from as int, to as int),
{
    let mut r: Vec<u8> = Vec::new();
    let mut i = from;
    while i < to
        invariant
            from <= i <= to,
            to <= data@.len(),
            r@ == data@.subrange(from as int, i as int),
        decreases to - i,
    {
        r.push(data[i]);
        proof {
            assert(r@ =~= data@.subrange(from as int, i + 1));
        }
        i = i + 1;
    }
    r
}

// ---------------------------------------------------------------------------
// Checksums
// ---------------------------------------------------------------------------

/// The digest a checksum job computes: MD5 when asked for `MD5`, SHA-256 otherwise.
pub open spec fn checksum_digest(algo: Seq<char>, data: Seq<u8>) -> Seq<u8> {
    if algo == "MD5"@ {
        md5_of(data)
    } else {
        sha256_of(data)
    }
}

/// The report of a checksum job: `<algo> hash: <lower-case hex digest>`.
pub fn checksum_message(algo: &str, data: &[u8]) -> (r: String)
    ensures
        r@ == algo@ + " hash: "@ + hex_lower(checksum_digest(algo@, data@)),
{
    let digest = if str_eq(algo, "MD5") {
        md5(data)
    } else {
        sha256(data)
    };
    let hex = hex_string(&digest);
    concat3(algo, " hash: ", hex.as_str())
}

// ---------------------------------------------------------------------------
// Git, search and job messages
// ---------------------------------------------------------------------------

/// The arguments given to `git` for a git job.
pub open spec fn git_args_spec(t: GitTask) -> Seq<Seq<char>> {
    match t {
        GitTask::Status => seq!["status"@],
        GitTask::AddAll => seq!["add"@, "."@],
        GitTask::Commit(m) => seq!["commit"@, "-m"@, m@],
        GitTask::Push { remote, branch } => seq!["push"@, remote@, branch@],
        GitTask::Pull { remote, branch } => seq!["pull"@, remote@, branch@],
        GitTask::Fetch => seq!["fetch"@],
        GitTask::Init => seq!["init"@],
        GitTask::RemoteAdd { name, url } => seq!["remote"@, "add"@, name@, url@],
    }
}

pub open spec fn string_views(v: Seq<String>) -> Seq<Seq<char>> {
    v.map_values(|s: String| s@)
}

fn push_str_vec(v: &mut Vec<String>, s: String)
    ensures
        string_views(final(v)@) == string_views(old(v)@).push(s@),
{
    v.push(s);
    proof {
        assert(string_views(final(v)@) =~= string_views(old(v)@).push(s@));
    }
}

/// The arguments given to `git` for a git job.
pub fn git_args(t: &GitTask) -> (v: Vec<String>)
    ensures
        string_views(v@) == git_args_spec(*t),
{
    let mut v: Vec<String> = Vec::new();
    match t {
        GitTask::Status => {
            push_str_vec(&mut v, string_of("status"));
        },
        GitTask::AddAll => {
            push_str_vec(&mut v, string_of("add"));
            push_str_vec(&mut v, string_of("."));
        },
        GitTask::Commit(m) => {
            push_str_vec(&mut v, string_of("commit"));
            push_str_vec(&mut v, string_of("-m"));
            push_str_vec(&mut v, m.clone());
        },
        GitTask::Push { remote, branch } => {
            push_str_vec(&mut v, string_of("push"));
            push_str_vec(&mut v, remote.clone());
            push_str_vec(&mut v, branch.clone());
        },
        GitTask::Pull { remote, branch } => {
            push_str_vec(&mut v, string_of("pull"));
            push_str_vec(&mut v, remote.clone());
            push_str_vec(&mut v, branch.clone());
        },
        GitTask::Fetch => {
            push_str_vec(&mut v, string_of("fetch"));
        },
        GitTask::Init => {
            push_str_vec(&mut v, string_of("init"));
        },
        GitTask::RemoteAdd { name, url } => {
            push_str_vec(&mut v, string_of("remote"));
            push_str_vec(&mut v, string_of("add"));
            push_str_vec(&mut v, name.clone());
            push_str_vec(&mut v, url.clone());
        },
    }
    proof {
        assert(string_views(v@) =~= git_args_spec(*t));
    }
    v
}

/// `s` with its first letter upper-cased, when it starts with an ASCII letter.
pub open spec fn capitalized(s: Seq<char>) -> Seq<char> {
    if s.len() > 0 && 'a' <= s[0] <= 'z' {
        seq![((s[0] as u32) - 32) as char] + s.drop_first()
    } else {
        s
    }
}

/// The git command of a job is the one its name announces: the job name is
/// "Git " and the capitalized subcommand (followed by more words for
/// "Add All" and "Remote Add"); a push or pull goes to the form's remote
/// and branch, a commit carries the message after `-m`, and a remote is
/// added under the given name and URL.
pub proof fn law_git_command_matches_the_job(t: GitTask)
    ensures
        git_args_spec(t).len() >= 1,
        crate::text::has_prefix(
            crate::app::task_name(TaskType::Git(t)),
            "Git "@ + capitalized(git_args_spec(t)[0]),
        ),
        match t {
            GitTask::Push { remote, branch } => git_args_spec(t).len() == 3 && git_args_spec(t)[1]
                == remote@ && git_args_spec(t)[2] == branch@,
            GitTask::Pull { remote, branch } => git_args_spec(t).len() == 3 && git_args_spec(t)[1]
                == remote@ && git_args_spec(t)[2] == branch@,
            GitTask::Commit(m) => git_args_spec(t).len() == 3 && git_args_spec(t)[1] == "-m"@
                && git_args_spec(t)[2] == m@,
            GitTask::RemoteAdd { name, url } => git_args_spec(t).len() == 4 && git_args_spec(t)[2]
                == name@ && git_args_spec(t)[3] == url@,
            _ => true,
        },
{
    reveal_strlit("Git ");
    reveal_strlit("status");
    reveal_strlit("Git Status");
    reveal_strlit("add");
    reveal_strlit("Git Add All");
    reveal_strlit("commit");
    reveal_strlit("Git Commit");
    reveal_strlit("push");
    reveal_strlit("Git Push");
    reveal_strlit("pull");
    reveal_strlit("Git Pull");
    reveal_strlit("fetch");
    reveal_strlit("Git Fetch");
    reveal_strlit("init");
    reveal_strlit("Git Init");
    reveal_strlit("remote");
    reveal_strlit("Git Remote Add");
    match t {
        GitTask::Status => {
            assert(capitalized("status"@) =~= "Status"@) by {
                reveal_strlit("Status");
            }
            assert(crate::app::task_name(TaskType::Git(t)).take(("Git "@ + capitalized("status"@)).len() as int)
                =~= "Git "@ + capitalized("status"@)) by {
                reveal_strlit("Status");
            }
        },
        GitTask::AddAll => {
            assert(capitalized("add"@) =~= "Add"@) by {
                reveal_strlit("Add");
            }
            assert(crate::app::task_name(TaskType::Git(t)).take(("Git "@ + capitalized("add"@)).len() as int)
                =~= "Git "@ + capitalized("add"@)) by {
                reveal_strlit("Add");
            }
        },
        GitTask::Commit(_) => {
            assert(capitalized("commit"@) =~= "Commit"@) by {
                reveal_strlit("Commit");
            }
            assert(crate::app::task_name(TaskType::Git(t)).take(("Git "@ + capitalized("commit"@)).len() as int)
                =~= "Git "@ + capitalized("commit"@)) by {
                reveal_strlit("Commit");
            }
        },
        GitTask::Push { .. } => {
            assert(capitalized("push"@) =~= "Push"@) by {
                reveal_strlit("Push");
            }
            assert(crate::app::task_name(TaskType::Git(t)).take(("Git "@ + capitalized("push"@)).len() as int)
                =~= "Git "@ + capitalized("push"@)) by {
                reveal_strlit("Push");
            }
        },
        GitTask::Pull { .. } => {
            assert(capitalized("pull"@) =~= "Pull"@) by {
                reveal_strlit("Pull");
            }
            assert(crate::app::task_name(TaskType::Git(t)).take(("Git "@ + capitalized("pull"@)).len() as int)
                =~= "Git "@ + capitalized("pull"@)) by {
                reveal_strlit("Pull");
            }
        },
        GitTask::Fetch => {
            assert(capitalized("fetch"@) =~= "Fetch"@) by {
                reveal_strlit("Fetch");
            }
            assert(crate::app::task_name(TaskType::Git(t)).take(("Git "@ + capitalized("fetch"@)).len() as int)
                =~= "Git "@ + capitalized("fetch"@)) by {
                reveal_strlit("Fetch");
            }
        },
        GitTask::Init => {
            assert(capitalized("init"@) =~= "Init"@) by {
                reveal_strlit("Init");
            }
            assert(crate::app::task_name(TaskType::Git(t)).take(("Git "@ + capitalized("init"@)).len() as int)
                =~= "Git "@ + capitalized("init"@)) by {
                reveal_strlit("Init");
            }
        },
        GitTask::RemoteAdd { .. } => {
            assert(capitalized("remote"@) =~= "Remote"@) by {
                reveal_strlit("Remote");
            }
            assert(crate::app::task_name(TaskType::Git(t)).take(("Git "@ + capitalized("remote"@)).len() as int)
                =~= "Git "@ + capitalized("remote"@)) by {
                reveal_strlit("Remote");
            }
        },
    }
}

/// Different git jobs run different git subcommands: two jobs whose
/// commands start with the same subcommand are jobs of the same kind.
pub proof fn law_git_subcommands_differ(t1: GitTask, t2: GitTask)
    requires
        git_args_spec(t1)[0] == git_args_spec(t2)[0],
    ensures
        crate::app::task_name(TaskType::Git(t1)) == crate::app::task_name(TaskType::Git(t2)),
{
    reveal_strlit("status");
    reveal_strlit("add");
    reveal_strlit("commit");
    reveal_strlit("push");
    reveal_strlit("pull");
    reveal_strlit("fetch");
    reveal_strlit("init");
    reveal_strlit("remote");
    let a = git_args_spec(t1)[0];
    assert(a.len() > 0 && a[0] == git_args_spec(t2)[0][0]);
    assert(a.len() == git_args_spec(t2)[0].len());
    if a.len() > 2 {
        assert(a[1] == git_args_spec(t2)[0][1]);
        assert(a[2] == git_args_spec(t2)[0][2]);
    }
}

/// The words joined with single spaces.
pub open spec fn spaced(words: Seq<Seq<char>>) -> Seq<char>
    decreases words.len(),
{
    if words.len() == 0 {
        Seq::empty()
    } else if words.len() == 1 {
        words[0]
    } else {
        spaced(words.drop_last()) + " "@ + words.last()
    }
}

/// The progress line of a git job: `git` and its arguments.
pub fn git_progress_label(args: &Vec<String>) -> (r: String)
    ensures
        r@ == "git "@ + spaced(string_views(args@)),
{
    let mut r = string_of("git ");
    let mut i: usize = 0;
    while i < args.len()
        invariant
            0 <= i <= args.len(),
            r@ == "git "@ + spaced(string_views(args@.take(i as int))),
        decreases args.len() - i,
    {
        let ghost before = r@;
        if i > 0 {
            r.append(" ");
        }
        r.append(args[i].as_str());
        proof {
            let w = string_views(args@.take(i + 1));
            assert(w.drop_last() =~= string_views(args@.take(i as int)));
            assert(w.last() == args@[i as int]@);
            if i == 0 {
                assert(w =~= seq![args@[0]@]);
                assert(spaced(string_views(args@.take(0))) =~= Seq::<char>::empty());
                assert(r@ =~= "git "@ + spaced(w));
            } else {
                assert(r@ =~= "git "@ + spaced(w));
            }
        }
        i = i + 1;
    }
    proof {
        assert(args@.take(args.len() as int) =~= args@);
    }
    r
}

/// What a git job that succeeded reports: its output, cut after 100 bytes.
pub open spec fn git_success_text(out: Seq<char>) -> Seq<char> {
    "Success: "@ + if byte_len(out) > 100 {
        head_at_byte(out, 100)
    } else {
        out
    }
}

/// The report of a successful git job: `Success: ` and the output, cut at
/// byte 100, which must then be a character boundary.
pub fn git_success_message(stdout: &str) -> (r: String)
    requires
        byte_len(stdout@) <= 100 || is_boundary(stdout@, 100),
        byte_len(stdout@) <= usize::MAX,
    ensures
        r@ == git_success_text(stdout@),
{
    let chars = chars_of(stdout);
    let n = byte_length(&chars);
    if n > 100 {
        match index_at_byte(&chars, 100) {
            Some(k) => {
                let mut head: Vec<char> = Vec::new();
                let mut i: usize = 0;
                while i < k
                    invariant
                        0 <= i <= k,
                        k <= chars.len(),
                        head@ == chars@.take(i as int),
                    decreases k - i,
                {
                    head.push(chars[i]);
                    proof {
                        assert(head@ =~= chars@.take(i + 1));
                    }
                    i = i + 1;
                }
                let h = string_of_chars(&head);
                concat2("Success: ", h.as_str())
            },
            None => concat2("Success: ", stdout),
        }
    } else {
        concat2("Success: ", stdout)
    }
}

/// A search matches a name that contains the pattern, ignoring case.
pub fn name_matches(name: &str, pattern: &str) -> (b: bool)
    ensures
        b == has_substring(str_lowercase(name@), str_lowercase(pattern@)),
{
    let n = chars_of(to_lowercase(name).as_str());
    let p = chars_of(to_lowercase(pattern).as_str());
    contains_chars(&n, &p)
}

/// The report of a search job with `count` hits.
pub fn search_summary(count: usize) -> (r: String)
    ensures
        r@ == if count == 0 {
            "Nothing found"@
        } else {
            "Found "@ + decimal(count as nat) + " items"@
        },
{
    if count == 0 {
        string_of("Nothing found")
    } else {
        let mut r = string_of("Found ");
        push_decimal(&mut r, count as u64);
        r.append(" items");
        r
    }
}

/// The report of a job that ended well.
pub fn finished_message(name: &str) -> (r: String)
    ensures
        r@ == name@ + " finished"@,
{
    concat2(name, " finished")
}

/// The report of a job that failed.
pub fn error_message(detail: &str) -> (r: String)
    ensures
        r@ == "Error: "@ + detail@,
{
    concat2("Error: ", detail)
}

/// The program and flag that pack an archive of the given type.
pub fn archive_command(t: ArchiveType) -> (r: (&'static str, &'static str))
    ensures
        r.0@ == match t {
            ArchiveType::Zip => "zip"@,
            _ => "tar"@,
        },
        r.1@ == match t {
            ArchiveType::Zip => "-r"@,
            ArchiveType::Tar => "-cvf"@,
            ArchiveType::Gzip => "-czvf"@,
        },
{
    match t {
        ArchiveType::Zip => ("zip", "-r"),
        ArchiveType::Tar => ("tar", "-cvf"),
        ArchiveType::Gzip => ("tar", "-czvf"),
    }
}

/// An archive is unpacked with `unzip` when its name ends in `.zip`, with `tar` otherwise.
pub fn extracts_with_unzip(path: &str) -> (b: bool)
    ensures
        b == crate::text::has_suffix(path@, ".zip"@),
{
    str_ends_with(path, ".zip")
}

} // verus!
