//! Passwords: which ones are asked for, and how values are encrypted before they are stored.
//!
//! A stored value begins with the version of its encryption. Version `00` is keyed by the
//! machine's identity, version `02` by the user's account on it.
use crate::base64;
use crate::base64::{decode, encode};
use crate::platform::Platform;
use crate::secret_store;
use crate::secret_store::{
    is_encrypted_user_data, secretbox_decrypt_user_data_raw,
    secretbox_encrypt_user_data_with_nonce, user_data_add_magic_header,
    user_data_strip_magic_header,
};
use crate::secretbox;
use crate::secretbox::{gen_nonce, open, seal, KEYBYTES, MACBYTES, NONCEBYTES};
use crate::text;
use crate::text::{bytes_eq, bytes_start_with, from_utf8, from_utf8_lossy, str_eq};
use vstd::prelude::*;
use vstd::slice::{slice_subrange, slice_to_vec};
use vstd::string::*;

verus! {

/// The length of a version.
pub const VERSION_LEN: usize = 2;

/// Encryption keyed by the machine's identity.
pub const VERSION_00_UUID: &'static str = "00";

/// Encryption keyed by the user's account.
pub const VERSION_02_USER: &'static str = "02";

/// Why a value could not be encrypted or decrypted.
#[derive(Debug, Clone, Copy, PartialEq, Eq, Structural)]
pub enum CryptError {
    EncryptionFailed,
    DecryptionFailed,
    InvalidData,
    Base64Error,
}

/// What the machine and the user's account contribute to encryption.
pub struct CryptContext {
    pub platform: Platform,
    /// The machine's identity.
    pub uuid: Vec<u8>,
    /// The public key that this installation already has.
    pub existing_pk: Option<Vec<u8>>,
    /// The master key, where the user's secret store gave it. Used on all platforms but Windows.
    pub master_key: Option<Vec<u8>>,
    /// What the Data Protection API made of the data that is to be encrypted. Used on Windows.
    pub protected: Option<Vec<u8>>,
    /// What the Data Protection API made of the payload that is to be decrypted. Used on Windows.
    pub unprotected: Option<Vec<u8>>,
}

/// What a `CryptContext` holds.
pub struct CryptView {
    pub platform: Platform,
    pub uuid: Seq<u8>,
    pub existing_pk: Option<Seq<u8>>,
    pub master_key: Option<Seq<u8>>,
    pub protected: Option<Seq<u8>>,
    pub unprotected: Option<Seq<u8>>,
}

impl View for CryptContext {
    type V = CryptView;

    open spec fn view(&self) -> CryptView {
        CryptView {
            platform: self.platform,
            uuid: self.uuid@,
            existing_pk: text::maybe_bytes(self.existing_pk),
            master_key: text::maybe_bytes(self.master_key),
            protected: text::maybe_bytes(self.protected),
            unprotected: text::maybe_bytes(self.unprotected),
        }
    }
}

/// A key of the length that the cipher wants: cut off, or filled up with zeros.
pub open spec fn padded_key(key: Seq<u8>) -> Seq<u8> {
    Seq::new(KEYBYTES as nat, |i: int| if i < key.len() { key[i] } else { 0u8 })
}

/// The nonce of version `00`.
pub open spec fn zero_nonce() -> Seq<u8> {
    Seq::new(NONCEBYTES as nat, |i: int| 0u8)
}

/// Data encrypted under the machine's identity.
pub open spec fn uuid_encrypted(c: CryptView, data: Seq<u8>) -> Seq<u8> {
    secretbox::sealed(data, zero_nonce(), padded_key(c.uuid))
}

/// Whether data that the machine's identity does not open is tried with the public key too.
pub open spec fn falls_back_to_pk(c: CryptView) -> bool {
    &&& !(c.platform is Android || c.platform is Ios)
    &&& c.existing_pk matches Some(pk)
    &&& pk != c.uuid
}

/// Data decrypted under the machine's identity or, where that fails on a desktop, under the public
/// key that the installation has.
pub open spec fn uuid_decrypted(c: CryptView, data: Seq<u8>) -> Option<Seq<u8>> {
    match secretbox::opened(data, zero_nonce(), padded_key(c.uuid)) {
        Some(message) => Some(message),
        None => if falls_back_to_pk(c) {
            secretbox::opened(data, zero_nonce(), padded_key(c.existing_pk->0))
        } else {
            None
        },
    }
}

/// Data encrypted under the user's account.
pub open spec fn user_encrypted(c: CryptView, data: Seq<u8>, nonce: Seq<u8>) -> Result<
    Seq<u8>,
    CryptError,
> {
    if c.platform is Windows {
        match c.protected {
            Some(payload) => Ok(secret_store::magic_header() + payload),
            None => Err(CryptError::EncryptionFailed),
        }
    } else {
        match secret_store::raw_encrypted(data, c.master_key, nonce) {
            Ok(payload) => Ok(secret_store::magic_header() + payload),
            Err(e) => Err(e),
        }
    }
}

/// Data decrypted under the user's account.
pub open spec fn user_decrypted(c: CryptView, data: Seq<u8>) -> Result<Seq<u8>, CryptError> {
    if !secret_store::magic_header().is_prefix_of(data) {
        Err(CryptError::InvalidData)
    } else if c.platform is Windows {
        match c.unprotected {
            Some(message) => Ok(message),
            None => Err(CryptError::DecryptionFailed),
        }
    } else {
        secret_store::raw_decrypted(
            data.skip(secret_store::magic_header().len() as int),
            c.master_key,
        )
    }
}

/// Whether two contexts differ at most in what the user's account contributes.
pub open spec fn same_machine(a: CryptView, b: CryptView) -> bool {
    a.platform == b.platform && a.uuid == b.uuid && a.existing_pk == b.existing_pk
}

/// Whether what a cipher has made of data in the context `c` can be read in the context `d`: it is
/// the same machine and, where the user's account has encrypted, the same master key. On Windows
/// the Data Protection API must have made the data of the payload again.
pub open spec fn can_read(cipher: Cipher, data: Seq<u8>, c: CryptView, d: CryptView) -> bool {
    &&& same_machine(c, d)
    &&& cipher is User ==> if c.platform is Windows {
        d.unprotected == Some(data)
    } else {
        d.master_key == c.master_key
    }
}

/// A key of the length that the cipher wants.
fn pad_key(key: &[u8]) -> (out: Vec<u8>)
    ensures
        out@ == padded_key(key@),
{
    let mut keybuf = slice_to_vec(key);
    keybuf.resize(KEYBYTES, 0);
    proof {
        if KEYBYTES > key@.len() {
            assert forall|i: int| 0 <= i < key@.len() implies keybuf@[i] == key@[i] by {
                assert(keybuf@.subrange(0, key@.len() as int)[i] == keybuf@[i]);
            }
        }
    }
    assert(keybuf@ =~= padded_key(key@));
    keybuf
}

/// Encrypts or decrypts under the machine's identity.
pub fn symmetric_crypt_00_uuid(data: &[u8], encrypt: bool, context: &CryptContext) -> (out: Result<
    Vec<u8>,
    CryptError,
>)
    requires
        encrypt ==> data@.len() + MACBYTES <= isize::MAX,
    ensures
        encrypt ==> text::result_bytes(out) == Ok::<Seq<u8>, CryptError>(
            uuid_encrypted(context@, data@),
        ),
        encrypt ==> (out matches Ok(o) && o@.len() == data@.len() + MACBYTES),
        encrypt ==> uuid_decrypted(context@, uuid_encrypted(context@, data@)) == Some(data@),
        !encrypt ==> text::result_bytes(out) == (match uuid_decrypted(context@, data@) {
            Some(message) => Ok::<Seq<u8>, CryptError>(message),
            None => Err(CryptError::DecryptionFailed),
        }),
        !encrypt ==> (out matches Ok(o) ==> o@.len() + MACBYTES == data@.len()),
{
    let key = pad_key(context.uuid.as_slice());
    let mut nonce: Vec<u8> = Vec::new();
    nonce.resize(NONCEBYTES, 0);
    assert(nonce@ =~= zero_nonce());
    if encrypt {
        Ok(seal(data, nonce.as_slice(), key.as_slice()))
    } else {
        match open(data, nonce.as_slice(), key.as_slice()) {
            Some(message) => Ok(message),
            None => {
                let mobile: bool = context.platform == Platform::Android || context.platform
                    == Platform::Ios;
                if !mobile {
                    if let Some(pk) = &context.existing_pk {
                        if !bytes_eq(pk.as_slice(), context.uuid.as_slice()) {
                            let pk_key = pad_key(pk.as_slice());
                            return match open(data, nonce.as_slice(), pk_key.as_slice()) {
                                Some(message) => Ok(message),
                                None => Err(CryptError::DecryptionFailed),
                            };
                        }
                    }
                }
                Err(CryptError::DecryptionFailed)
            },
        }
    }
}

/// What holds of everything that the user's account has encrypted: it begins with the header, and
/// it decrypts to the data wherever it can be read.
pub open spec fn user_encrypted_well(c: CryptView, data: Seq<u8>, payload: Seq<u8>) -> bool {
    &&& secret_store::magic_header().is_prefix_of(payload)
    &&& forall|d: CryptView|
        can_read(Cipher::User, data, c, d) ==> #[trigger] user_decrypted(d, payload) == Ok::<
            Seq<u8>,
            CryptError,
        >(data)
}

/// Encrypts under the user's account and a given nonce.
pub fn encrypt_02_user_with_nonce(data: &[u8], context: &CryptContext, nonce: &[u8]) -> (out:
    Result<Vec<u8>, CryptError>)
    requires
        nonce@.len() == NONCEBYTES,
        data@.len() + NONCEBYTES + MACBYTES <= isize::MAX,
    ensures
        text::result_bytes(out) == user_encrypted(context@, data@, nonce@),
        out matches Ok(o) ==> user_encrypted_well(context@, data@, o@),
        out matches Ok(o) ==> o@.len() == 16 + (if context.platform is Windows {
            context@.protected->0.len()
        } else {
            (data@.len() + NONCEBYTES + MACBYTES) as nat
        }),
{
    let payload: Vec<u8> = if context.platform == Platform::Windows {
        match &context.protected {
            Some(payload) => slice_to_vec(payload.as_slice()),
            None => return Err(CryptError::EncryptionFailed),
        }
    } else {
        match secretbox_encrypt_user_data_with_nonce(data, &context.master_key, nonce) {
            Ok(payload) => payload,
            Err(e) => return Err(e),
        }
    };
    proof {
        secret_store::law_strip_inverts_add(payload@);
    }
    Ok(user_data_add_magic_header(payload))
}

/// What encrypting under the user's account gives, whatever nonce was drawn: the header, the nonce
/// and the sealed data, or on Windows the header and what the Data Protection API returned.
pub open spec fn data_encrypts_to(
    data: Seq<u8>,
    c: CryptView,
    out: Result<Seq<u8>, CryptError>,
) -> bool {
    &&& exists|nonce: Seq<u8>|
        nonce.len() == NONCEBYTES && out == #[trigger] user_encrypted(c, data, nonce)
    &&& out matches Ok(payload) ==> user_encrypted_well(c, data, payload)
    &&& !(c.platform is Windows) ==> (out matches Ok(payload) ==> payload.len()
        == secret_store::magic_header().len() + NONCEBYTES + MACBYTES + data.len())
}

/// What was encrypted under the user's account begins with the header and is read back wherever it
/// can be read. Off Windows its length follows from that of the data.
pub proof fn law_user_data_round_trip(
    data: Seq<u8>,
    c: CryptView,
    payload: Seq<u8>,
    d: CryptView,
)
    requires
        data_encrypts_to(data, c, Ok(payload)),
        can_read(Cipher::User, data, c, d),
    ensures
        user_decrypted(d, payload) == Ok::<Seq<u8>, CryptError>(data),
        secret_store::magic_header().is_prefix_of(payload),
        secret_store::magic_header().len() == 16,
        !(c.platform is Windows) ==> payload.len() == 16 + NONCEBYTES + MACBYTES + data.len(),
{
}

/// Encrypts or decrypts under the user's account. Only what was encrypted under it is decrypted.
pub fn symmetric_crypt_02_user(data: &[u8], encrypt: bool, context: &CryptContext) -> (out: Result<
    Vec<u8>,
    CryptError,
>)
    requires
        encrypt ==> data@.len() + NONCEBYTES + MACBYTES <= isize::MAX,
    ensures
        encrypt ==> data_encrypts_to(data@, context@, text::result_bytes(out)),
        !encrypt ==> text::result_bytes(out) == user_decrypted(context@, data@),
        !encrypt && !(context.platform is Windows) ==> (out matches Ok(o) ==> o@.len() + MACBYTES
            <= data@.len()),
{
    if encrypt {
        let nonce = gen_nonce();
        encrypt_02_user_with_nonce(data, context, nonce.as_slice())
    } else {
        let (payload, has_header) = user_data_strip_magic_header(data);
        if !has_header {
            return Err(CryptError::InvalidData);
        }
        if context.platform == Platform::Windows {
            match &context.unprotected {
                Some(message) => Ok(slice_to_vec(message.as_slice())),
                None => Err(CryptError::DecryptionFailed),
            }
        } else {
            secretbox_decrypt_user_data_raw(payload, &context.master_key)
        }
    }
}

/// A way to encrypt values before they are stored.
#[derive(Debug, Clone, Copy, PartialEq, Eq, Structural)]
pub enum Cipher {
    /// Keyed by the machine's identity.
    Uuid,
    /// Keyed by the user's account.
    User,
}

/// The version that stands before what a cipher has encrypted.
pub open spec fn cipher_version(cipher: Cipher) -> Seq<char> {
    match cipher {
        Cipher::Uuid => "00"@,
        Cipher::User => "02"@,
    }
}

/// The bytes of a cipher's version.
pub open spec fn version_bytes(cipher: Cipher) -> Seq<u8> {
    match cipher {
        Cipher::Uuid => seq![48, 48],
        Cipher::User => seq![48, 50],
    }
}

/// Whether a cipher's payload is base64 text; otherwise it is raw bytes.
pub open spec fn payload_is_text(cipher: Cipher, is_string: bool) -> bool {
    cipher is Uuid || is_string
}

/// The payload that a cipher makes of data.
pub open spec fn cipher_encrypted(
    cipher: Cipher,
    c: CryptView,
    data: Seq<u8>,
    is_string: bool,
    nonce: Seq<u8>,
) -> Result<Seq<u8>, CryptError> {
    match cipher {
        Cipher::Uuid => Ok(base64::base64(uuid_encrypted(c, data))),
        Cipher::User => match user_encrypted(c, data, nonce) {
            Ok(payload) => Ok(
                if is_string {
                    base64::base64(payload)
                } else {
                    payload
                },
            ),
            Err(e) => Err(e),
        },
    }
}

/// The data that a cipher makes of a payload. Where the payload is base64 text, `decoded` is what
/// it decodes to.
pub open spec fn cipher_decrypted(
    cipher: Cipher,
    c: CryptView,
    payload: Seq<u8>,
    is_string: bool,
    decoded: Option<Seq<u8>>,
) -> Result<Seq<u8>, CryptError> {
    if payload_is_text(cipher, is_string) && decoded is None {
        Err(CryptError::Base64Error)
    } else {
        match cipher {
            Cipher::Uuid => match uuid_decrypted(c, decoded->0) {
                Some(message) => Ok(message),
                None => Err(CryptError::DecryptionFailed),
            },
            Cipher::User => user_decrypted(
                c,
                if is_string {
                    decoded->0
                } else {
                    payload
                },
            ),
        }
    }
}

/// What a payload is decoded to: base64 text as it decodes, anything else not at all.
pub open spec fn payload_decodes_to(
    cipher: Cipher,
    payload: Seq<u8>,
    is_string: bool,
    decoded: Option<Seq<u8>>,
) -> bool {
    if payload_is_text(cipher, is_string) {
        base64::decodes_to(payload, decoded)
    } else {
        decoded is None
    }
}

/// Whether there is room for what any cipher makes of `n` bytes.
pub open spec fn encryption_fits(n: nat) -> bool {
    base64::base64_len((n + 56) as nat) + VERSION_LEN + 1 <= isize::MAX
}

/// Whether a context's user-scoped payload fits too: what the Data Protection API returned is not
/// the library's to bound.
pub open spec fn protected_fits(c: CryptView) -> bool {
    c.platform is Windows ==> (c.protected matches Some(p) ==> encryption_fits(p.len()))
}

impl Cipher {
    /// The version that stands before what the cipher has encrypted.
    pub fn version(&self) -> (version: &'static str)
        ensures
            version@ == cipher_version(*self),
    {
        match self {
            Cipher::Uuid => VERSION_00_UUID,
            Cipher::User => VERSION_02_USER,
        }
    }

    /// Encrypts data under a given nonce.
    pub fn encrypt_with_nonce(
        &self,
        data: &[u8],
        is_string: bool,
        context: &CryptContext,
        nonce: &[u8],
    ) -> (out: Result<Vec<u8>, CryptError>)
        requires
            nonce@.len() == NONCEBYTES,
            encryption_fits(data@.len()),
            protected_fits(context@),
        ensures
            text::result_bytes(out) == cipher_encrypted(
                *self,
                context@,
                data@,
                is_string,
                nonce@,
            ),
            out matches Ok(o) ==> encrypted_well(*self, context@, data@, is_string, o@),
            *self is Uuid ==> (out matches Ok(o) && o@.len() == base64::base64_len(
                (data@.len() + MACBYTES) as nat,
            )),
    {
        match self {
            Cipher::Uuid => match symmetric_crypt_00_uuid(data, true, context) {
                Ok(payload) => {
                    let out = slice_to_vec(encode(payload.as_slice()).as_str().as_bytes());
                    proof {
                        base64::law_base64_text(payload@);
                        assert forall|decoded: Option<Seq<u8>>| #[trigger]
                            payload_decodes_to(*self, out@, is_string, decoded) implies decoded
                            == Some(payload@) by {
                            base64::law_decode_inverts_encode(payload@, decoded);
                        }
                    }
                    Ok(out)
                },
                Err(_) => Err(CryptError::EncryptionFailed),
            },
            Cipher::User => match encrypt_02_user_with_nonce(data, context, nonce) {
                Ok(payload) => {
                    if is_string {
                        let out = slice_to_vec(encode(payload.as_slice()).as_str().as_bytes());
                        proof {
                            base64::law_base64_text(payload@);
                            assert forall|decoded: Option<Seq<u8>>| #[trigger]
                                payload_decodes_to(*self, out@, is_string, decoded) implies decoded
                                == Some(payload@) by {
                                base64::law_decode_inverts_encode(payload@, decoded);
                            }
                        }
                        Ok(out)
                    } else {
                        Ok(payload)
                    }
                },
                Err(e) => Err(e),
            },
        }
    }

    /// Encrypts data. Where a nonce is wanted it is drawn at random.
    pub fn encrypt(&self, data: &[u8], is_string: bool, context: &CryptContext) -> (out: Result<
        Vec<u8>,
        CryptError,
    >)
        requires
            encryption_fits(data@.len()),
            protected_fits(context@),
        ensures
            exists|nonce: Seq<u8>|
                nonce.len() == NONCEBYTES && text::result_bytes(out)
                    == #[trigger] cipher_encrypted(*self, context@, data@, is_string, nonce),
            out matches Ok(o) ==> encrypted_well(*self, context@, data@, is_string, o@),
    {
        let nonce = gen_nonce();
        self.encrypt_with_nonce(data, is_string, context, nonce.as_slice())
    }

    /// Decodes a payload that is base64 text.
    pub fn decode_payload(&self, payload: &[u8], is_string: bool) -> (decoded: Option<Vec<u8>>)
        ensures
            payload_decodes_to(*self, payload@, is_string, text::maybe_bytes(decoded)),
    {
        if *self == Cipher::Uuid || is_string {
            decode(payload)
        } else {
            None
        }
    }

    /// Decrypts a payload, given what it was decoded to.
    pub fn decrypt_decoded(
        &self,
        payload: &[u8],
        is_string: bool,
        decoded: &Option<Vec<u8>>,
        context: &CryptContext,
    ) -> (out: Result<Vec<u8>, CryptError>)
        ensures
            text::result_bytes(out) == cipher_decrypted(
                *self,
                context@,
                payload@,
                is_string,
                text::maybe_bytes(*decoded),
            ),
            out is Ok ==> payload_shape(
                *self,
                payload@,
                is_string,
                text::maybe_bytes(*decoded),
            ),
            !(*self is User && context.platform is Windows) ==> (out matches Ok(o) ==> o@.len()
                + MACBYTES <= (if payload_is_text(*self, is_string) {
                text::maybe_bytes(*decoded)->0.len()
            } else {
                payload@.len()
            })),
    {
        match self {
            Cipher::Uuid => match decoded {
                None => Err(CryptError::Base64Error),
                Some(data) => symmetric_crypt_00_uuid(data.as_slice(), false, context),
            },
            Cipher::User => {
                if is_string {
                    match decoded {
                        None => Err(CryptError::Base64Error),
                        Some(data) => symmetric_crypt_02_user(data.as_slice(), false, context),
                    }
                } else {
                    symmetric_crypt_02_user(payload, false, context)
                }
            },
        }
    }

    /// Decrypts a payload.
    pub fn decrypt(&self, payload: &[u8], is_string: bool, context: &CryptContext) -> (out: Result<
        Vec<u8>,
        CryptError,
    >)
        ensures
            exists|decoded: Option<Seq<u8>>|
                #[trigger] payload_decodes_to(*self, payload@, is_string, decoded)
                    && text::result_bytes(out) == cipher_decrypted(
                    *self,
                    context@,
                    payload@,
                    is_string,
                    decoded,
                ) && (out is Ok ==> payload_shape(*self, payload@, is_string, decoded)),
    {
        let decoded = self.decode_payload(payload, is_string);
        self.decrypt_decoded(payload, is_string, &decoded, context)
    }
}

/// Whether a payload has the shape of what the cipher encrypts.
pub open spec fn payload_shape(
    cipher: Cipher,
    payload: Seq<u8>,
    is_string: bool,
    decoded: Option<Seq<u8>>,
) -> bool {
    match cipher {
        Cipher::Uuid => decoded matches Some(d) && d.len() >= MACBYTES,
        Cipher::User => if is_string {
            decoded matches Some(d) && secret_store::magic_header().is_prefix_of(d)
        } else {
            secret_store::magic_header().is_prefix_of(payload)
        },
    }
}

/// What holds of every payload that a cipher has made: it has the shape of one, it is ASCII where
/// it is text, it is not much longer than the data, and it decrypts to the data wherever it can be
/// read. How long a payload of the Data Protection API is, that API decides.
pub open spec fn encrypted_well(
    cipher: Cipher,
    c: CryptView,
    data: Seq<u8>,
    is_string: bool,
    payload: Seq<u8>,
) -> bool {
    &&& payload.len() > 0
    &&& !(cipher is User && c.platform is Windows) ==> payload.len() <= base64::base64_len(
        (data.len() + 56) as nat,
    )
    &&& payload_is_text(cipher, is_string) ==> base64::is_ascii(payload)
    &&& forall|decoded: Option<Seq<u8>>| #[trigger]
        payload_decodes_to(cipher, payload, is_string, decoded) ==> payload_shape(
            cipher,
            payload,
            is_string,
            decoded,
        )
    &&& forall|d: CryptView, decoded: Option<Seq<u8>>|
        payload_decodes_to(cipher, payload, is_string, decoded) && can_read(cipher, data, c, d)
            ==> #[trigger] cipher_decrypted(cipher, d, payload, is_string, decoded) == Ok::<
            Seq<u8>,
            CryptError,
        >(data)
}

/// The cipher of a version.
pub open spec fn cipher_of_version(version: Seq<char>) -> Option<Cipher> {
    if version == "00"@ {
        Some(Cipher::Uuid)
    } else if version == "02"@ {
        Some(Cipher::User)
    } else {
        None
    }
}

/// The cipher of a stored value, by the version it begins with. Something must follow the version.
pub open spec fn cipher_of_value(value: Seq<u8>) -> Option<Cipher> {
    if value.len() <= VERSION_LEN {
        None
    } else if version_bytes(Cipher::Uuid).is_prefix_of(value) {
        Some(Cipher::Uuid)
    } else if version_bytes(Cipher::User).is_prefix_of(value) {
        Some(Cipher::User)
    } else {
        None
    }
}

/// The versions differ, and each is the text of its bytes.
pub proof fn lemma_versions()
    ensures
        "00"@ != "02"@,
        vstd::utf8::encode_utf8("00"@) == version_bytes(Cipher::Uuid),
        vstd::utf8::encode_utf8("02"@) == version_bytes(Cipher::User),
        "00"@.len() == 2,
        "02"@.len() == 2,
{
    reveal_strlit("00");
    reveal_strlit("02");
    assert("00"@[1] != "02"@[1]);
    vstd::utf8::is_ascii_chars_encode_utf8("00"@);
    vstd::utf8::is_ascii_chars_encode_utf8("02"@);
    assert(vstd::utf8::encode_utf8("00"@) =~= version_bytes(Cipher::Uuid));
    assert(vstd::utf8::encode_utf8("02"@) =~= version_bytes(Cipher::User));
}

/// The cipher of a version.
pub fn cipher_by_version(version: &str) -> (cipher: Option<Cipher>)
    ensures
        cipher == cipher_of_version(version@),
{
    if str_eq(version, VERSION_00_UUID) {
        Some(Cipher::Uuid)
    } else if str_eq(version, VERSION_02_USER) {
        Some(Cipher::User)
    } else {
        None
    }
}

/// The cipher of a stored value, by the version it begins with.
pub fn cipher_by_prefixed_data(v: &[u8]) -> (cipher: Option<Cipher>)
    ensures
        cipher == cipher_of_value(v@),
{
    proof {
        lemma_versions();
    }
    if v.len() <= VERSION_LEN {
        return None;
    }
    if bytes_start_with(v, VERSION_00_UUID.as_bytes()) {
        Some(Cipher::Uuid)
    } else if bytes_start_with(v, VERSION_02_USER.as_bytes()) {
        Some(Cipher::User)
    } else {
        None
    }
}

/// Whether the user's account can encrypt at all.
pub open spec fn user_scope_available(c: CryptView) -> bool {
    if c.platform is Windows {
        c.protected is Some
    } else {
        c.master_key matches Some(key) && key.len() == KEYBYTES
    }
}

/// Whether a value that was decrypted should be stored anew: its version is not the current one,
/// and it can be encrypted in the current one where that is version `02`.
pub open spec fn store_wanted(version: Seq<char>, current: Seq<char>, c: CryptView) -> bool {
    version != current && (current == "02"@ ==> user_scope_available(c))
}

/// Whether a value that was decrypted should be stored anew. On Windows the context holds what the
/// Data Protection API made of the decrypted data.
pub fn should_store_after_decrypt(
    version: &str,
    decrypted: &[u8],
    current_version: &str,
    is_string: bool,
    context: &CryptContext,
) -> (store: bool)
    requires
        version@ != current_version@ && current_version@ == "02"@ ==> encryption_fits(
            decrypted@.len(),
        ) && protected_fits(context@),
    ensures
        store == store_wanted(version@, current_version@, context@),
{
    if str_eq(version, current_version) {
        return false;
    }
    if str_eq(current_version, VERSION_02_USER) {
        proof {
            lemma_versions();
        }
        if let Some(cipher) = cipher_by_version(current_version) {
            return match cipher.encrypt(decrypted, is_string, context) {
                Ok(_) => true,
                Err(_) => false,
            };
        }
    }
    true
}

/// What the payload of a stored value is decoded to.
pub open spec fn value_decodes_to(
    value: Seq<u8>,
    is_string: bool,
    decoded: Option<Seq<u8>>,
) -> bool {
    match cipher_of_value(value) {
        Some(cipher) => payload_decodes_to(
            cipher,
            value.skip(VERSION_LEN as int),
            is_string,
            decoded,
        ),
        None => decoded is None,
    }
}

/// Whether a value looks encrypted: a known version, and a payload of the shape that goes with it.
pub open spec fn looks_encrypted(
    value: Seq<u8>,
    is_string: bool,
    decoded: Option<Seq<u8>>,
) -> bool {
    match cipher_of_value(value) {
        Some(cipher) => payload_shape(
            cipher,
            value.skip(VERSION_LEN as int),
            is_string,
            decoded,
        ),
        None => false,
    }
}

/// What a stored value decrypts to, if it does.
pub open spec fn value_decrypted(
    value: Seq<u8>,
    is_string: bool,
    c: CryptView,
    decoded: Option<Seq<u8>>,
) -> Option<Seq<u8>> {
    match cipher_of_value(value) {
        Some(cipher) => match cipher_decrypted(
            cipher,
            c,
            value.skip(VERSION_LEN as int),
            is_string,
            decoded,
        ) {
            Ok(message) => Some(message),
            Err(_) => None,
        },
        None => None,
    }
}

/// Whether a value that was read should be stored anew.
pub open spec fn store_after_read(
    value: Seq<u8>,
    is_string: bool,
    current: Seq<char>,
    c: CryptView,
    decoded: Option<Seq<u8>>,
) -> bool {
    match value_decrypted(value, is_string, c, decoded) {
        Some(_) => store_wanted(cipher_version(cipher_of_value(value)->0), current, c),
        None => value.len() > 0 && !looks_encrypted(value, is_string, decoded),
    }
}

/// Decodes the payload of a stored value.
pub fn decode_value(v: &[u8], is_string: bool) -> (decoded: Option<Vec<u8>>)
    ensures
        value_decodes_to(v@, is_string, text::maybe_bytes(decoded)),
{
    match cipher_by_prefixed_data(v) {
        Some(cipher) => {
            let payload = slice_subrange(v, VERSION_LEN, v.len());
            assert(payload@ =~= v@.skip(VERSION_LEN as int));
            cipher.decode_payload(payload, is_string)
        },
        None => None,
    }
}

/// Whether a value looks encrypted, given what its payload was decoded to.
pub fn is_encrypted_decoded(v: &[u8], is_string: bool, decoded: &Option<Vec<u8>>) -> (found: bool)
    ensures
        found == looks_encrypted(v@, is_string, text::maybe_bytes(*decoded)),
{
    match cipher_by_prefixed_data(v) {
        None => false,
        Some(Cipher::Uuid) => match decoded {
            Some(data) => data.len() >= MACBYTES,
            None => false,
        },
        Some(Cipher::User) => {
            if is_string {
                match decoded {
                    Some(data) => is_encrypted_user_data(data.as_slice()),
                    None => false,
                }
            } else {
                let payload = slice_subrange(v, VERSION_LEN, v.len());
                assert(payload@ =~= v@.skip(VERSION_LEN as int));
                is_encrypted_user_data(payload)
            }
        },
    }
}

/// Whether a value looks encrypted. Nothing is decrypted for this: a value under another key is
/// encrypted too.
pub fn is_encrypted(v: &[u8], is_string: bool) -> (found: bool)
    ensures
        exists|decoded: Option<Seq<u8>>|
            #[trigger] value_decodes_to(v@, is_string, decoded) && found == looks_encrypted(
                v@,
                is_string,
                decoded,
            ),
{
    let decoded = decode_value(v, is_string);
    is_encrypted_decoded(v, is_string, &decoded)
}

/// What a value becomes when it is encrypted. Where version `02` cannot be had, version `00` is
/// taken; of an unknown version the value stays as it is.
pub open spec fn value_encrypted(
    v: Seq<u8>,
    version: Seq<char>,
    is_string: bool,
    c: CryptView,
    nonce: Seq<u8>,
) -> Seq<u8> {
    match cipher_of_version(version) {
        None => v,
        Some(Cipher::Uuid) => version_bytes(Cipher::Uuid) + base64::base64(uuid_encrypted(c, v)),
        Some(Cipher::User) => match cipher_encrypted(Cipher::User, c, v, is_string, nonce) {
            Ok(payload) => version_bytes(Cipher::User) + payload,
            Err(_) => version_bytes(Cipher::Uuid) + base64::base64(uuid_encrypted(c, v)),
        },
    }
}

/// What is stored for a value of the length `len`, which is counted in characters for a text: a
/// value that looks encrypted or is empty as it is, nothing for one that is too long, and all
/// others encrypted.
pub open spec fn value_stored(
    v: Seq<u8>,
    len: nat,
    version: Seq<char>,
    max_len: usize,
    is_string: bool,
    c: CryptView,
    nonce: Seq<u8>,
    decoded: Option<Seq<u8>>,
) -> Seq<u8> {
    if looks_encrypted(v, is_string, decoded) || v.len() == 0 {
        v
    } else if len > max_len {
        seq![]
    } else {
        value_encrypted(v, version, is_string, c, nonce)
    }
}

/// What holds of every value that was encrypted: it begins with a version, it looks encrypted, it
/// is not much longer than the value it was made of, and it decrypts to that value wherever it can
/// be read.
pub open spec fn stored_well(value: Seq<u8>, v: Seq<u8>, is_string: bool, c: CryptView) -> bool {
    &&& cipher_of_value(value) matches Some(cipher)
    &&& !(cipher is User && c.platform is Windows) ==> value.len() <= VERSION_LEN
        + base64::base64_len((v.len() + 56) as nat)
    &&& forall|decoded: Option<Seq<u8>>| #[trigger]
        value_decodes_to(value, is_string, decoded) ==> looks_encrypted(value, is_string, decoded)
    &&& forall|d: CryptView, decoded: Option<Seq<u8>>|
        value_decodes_to(value, is_string, decoded) && can_read(cipher, v, c, d)
            ==> #[trigger] value_decrypted(value, is_string, d, decoded) == Some(v)
}

/// The cipher that is used for a version: where the user's account cannot encrypt, the machine's
/// identity does.
pub open spec fn chosen_cipher(version: Seq<char>, c: CryptView) -> Cipher {
    if version == "02"@ && user_scope_available(c) {
        Cipher::User
    } else {
        Cipher::Uuid
    }
}

/// What encrypting a value gives, under a given nonce and given what the value was decoded to. A
/// value that is encrypted by this, in a version that is known, is stored well.
pub open spec fn encrypted_to(
    v: Seq<u8>,
    len: nat,
    version: Seq<char>,
    max_len: usize,
    is_string: bool,
    c: CryptView,
    nonce: Seq<u8>,
    decoded: Option<Seq<u8>>,
    out: Seq<u8>,
) -> bool {
    &&& out == value_stored(v, len, version, max_len, is_string, c, nonce, decoded)
    &&& !looks_encrypted(v, is_string, decoded) && 0 < v.len() && len <= max_len
        && cipher_of_version(version) is Some ==> {
        &&& stored_well(out, v, is_string, c)
        &&& cipher_of_value(out) == Some(chosen_cipher(version, c))
    }
}

/// What encrypting a value gives, whatever nonce was drawn and whatever the value was decoded to.
pub open spec fn value_encrypts_to(
    v: Seq<u8>,
    len: nat,
    version: Seq<char>,
    max_len: usize,
    is_string: bool,
    c: CryptView,
    out: Seq<u8>,
) -> bool {
    exists|nonce: Seq<u8>, decoded: Option<Seq<u8>>|
        nonce.len() == NONCEBYTES && value_decodes_to(v, is_string, decoded)
            && #[trigger] encrypted_to(
            v,
            len,
            version,
            max_len,
            is_string,
            c,
            nonce,
            decoded,
            out,
        )
}

/// A version put before a payload is found again.
pub proof fn lemma_prefixed(cipher: Cipher, payload: Seq<u8>)
    requires
        payload.len() > 0,
    ensures
        cipher_of_value(version_bytes(cipher) + payload) == Some(cipher),
        (version_bytes(cipher) + payload).skip(VERSION_LEN as int) == payload,
{
    let value = version_bytes(cipher) + payload;
    assert(value[0] == 48);
    assert(value[1] == version_bytes(cipher)[1]);
    assert(value.skip(VERSION_LEN as int) =~= payload);
    assert(value.take(VERSION_LEN as int) =~= version_bytes(cipher));
    if version_bytes(Cipher::Uuid).is_prefix_of(value) {
        assert(version_bytes(Cipher::Uuid)[1] == value[1]);
    }
}

/// Encrypts a value under a given nonce: the cipher that did it, and the payload.
fn encrypt_value(
    v: &[u8],
    version: &str,
    is_string: bool,
    context: &CryptContext,
    nonce: &[u8],
) -> (out: Option<(Cipher, Vec<u8>)>)
    requires
        nonce@.len() == NONCEBYTES,
        encryption_fits(v@.len()),
        protected_fits(context@),
    ensures
        match out {
            Some((cipher, payload)) => {
                &&& value_encrypted(v@, version@, is_string, context@, nonce@) == version_bytes(
                    cipher,
                ) + payload@
                &&& stored_well(version_bytes(cipher) + payload@, v@, is_string, context@)
                &&& payload_is_text(cipher, is_string) ==> base64::is_ascii(payload@)
                &&& cipher_of_version(version@) is Some
                &&& cipher == chosen_cipher(version@, context@)
                &&& cipher_of_value(version_bytes(cipher) + payload@) == Some(cipher)
                &&& !(context.platform is Windows) ==> payload@.len() <= base64::base64_len(
                    (v@.len() + 56) as nat,
                )
                &&& cipher is Uuid ==> payload@.len() == base64::base64_len(
                    (v@.len() + MACBYTES) as nat,
                )
            },
            None => value_encrypted(v@, version@, is_string, context@, nonce@) == v@
                && cipher_of_version(version@) is None,
        },
{
    proof {
        lemma_versions();
    }
    match cipher_by_version(version) {
        None => None,
        Some(cipher) => {
            if let Ok(payload) = cipher.encrypt_with_nonce(v, is_string, context, nonce) {
                proof {
                    lemma_prefixed(cipher, payload@);
                    lemma_stored_well(cipher, context@, v@, is_string, payload@);
                }
                return Some((cipher, payload));
            }
            match Cipher::Uuid.encrypt_with_nonce(v, is_string, context, nonce) {
                Ok(payload) => {
                    proof {
                        lemma_prefixed(Cipher::Uuid, payload@);
                        lemma_stored_well(Cipher::Uuid, context@, v@, is_string, payload@);
                    }
                    Some((Cipher::Uuid, payload))
                },
                Err(_) => None,
            }
        },
    }
}

/// What a cipher has made, with its version before it, is a value that is stored well.
proof fn lemma_stored_well(
    cipher: Cipher,
    c: CryptView,
    data: Seq<u8>,
    is_string: bool,
    payload: Seq<u8>,
)
    requires
        encrypted_well(cipher, c, data, is_string, payload),
    ensures
        stored_well(version_bytes(cipher) + payload, data, is_string, c),
{
    let value = version_bytes(cipher) + payload;
    lemma_prefixed(cipher, payload);
    assert forall|decoded: Option<Seq<u8>>| #[trigger]
        value_decodes_to(value, is_string, decoded) implies looks_encrypted(
        value,
        is_string,
        decoded,
    ) by {
        assert(payload_decodes_to(cipher, payload, is_string, decoded));
    }
    assert forall|d: CryptView, decoded: Option<Seq<u8>>|
        value_decodes_to(value, is_string, decoded) && can_read(
            cipher,
            data,
            c,
            d,
        ) implies #[trigger] value_decrypted(value, is_string, d, decoded) == Some(data) by {
        assert(cipher_decrypted(cipher, d, payload, is_string, decoded) == Ok::<
            Seq<u8>,
            CryptError,
        >(data));
    }
}

/// Encrypts bytes before they are stored, under a given nonce and given what they were decoded to.
pub fn encrypt_vec_with(
    v: &[u8],
    version: &str,
    max_len: usize,
    context: &CryptContext,
    nonce: &[u8],
    decoded: &Option<Vec<u8>>,
) -> (out: Vec<u8>)
    requires
        nonce@.len() == NONCEBYTES,
        v@.len() <= max_len ==> encryption_fits(v@.len()),
        protected_fits(context@),
    ensures
        encrypted_to(
            v@,
            v@.len(),
            version@,
            max_len,
            false,
            context@,
            nonce@,
            text::maybe_bytes(*decoded),
            out@,
        ),
        !(context.platform is Windows) ==> out@.len() <= VERSION_LEN + base64::base64_len(
            (v@.len() + 56) as nat,
        ),
        cipher_of_version(version@) == Some(Cipher::Uuid) ==> out@.len() <= v@.len() || out@.len()
            == VERSION_LEN + base64::base64_len((v@.len() + MACBYTES) as nat),
{
    if is_encrypted_decoded(v, false, decoded) {
        return slice_to_vec(v);
    }
    if v.len() == 0 {
        return slice_to_vec(v);
    }
    if v.len() > max_len {
        return Vec::new();
    }
    match encrypt_value(v, version, false, context, nonce) {
        Some((cipher, payload)) => {
            proof {
                lemma_versions();
            }
            let mut payload = payload;
            let mut prefixed = slice_to_vec(cipher.version().as_bytes());
            prefixed.append(&mut payload);
            prefixed
        },
        None => slice_to_vec(v),
    }
}

/// Encrypts bytes before they are stored. What already looks encrypted, or cannot be encrypted in
/// the version asked for, is returned as it is; what is too long is dropped.
pub fn encrypt_vec_or_original(
    v: &[u8],
    version: &str,
    max_len: usize,
    context: &CryptContext,
) -> (out: Vec<u8>)
    requires
        v@.len() <= max_len ==> encryption_fits(v@.len()),
        protected_fits(context@),
    ensures
        value_encrypts_to(v@, v@.len(), version@, max_len, false, context@, out@),
        !(context.platform is Windows) ==> out@.len() <= VERSION_LEN + base64::base64_len(
            (v@.len() + 56) as nat,
        ),
{
    let nonce = gen_nonce();
    let decoded = decode_value(v, false);
    encrypt_vec_with(v, version, max_len, context, nonce.as_slice(), &decoded)
}

/// Encrypts a text before it is stored, under a given nonce and given what it was decoded to.
pub fn encrypt_str_with(
    s: &str,
    version: &str,
    max_len: usize,
    context: &CryptContext,
    nonce: &[u8],
    decoded: &Option<Vec<u8>>,
) -> (out: String)
    requires
        nonce@.len() == NONCEBYTES,
        s@.len() <= max_len ==> encryption_fits(s.spec_bytes().len()),
        protected_fits(context@),
    ensures
        encrypted_to(
            vstd::utf8::encode_utf8(s@),
            s@.len(),
            version@,
            max_len,
            true,
            context@,
            nonce@,
            text::maybe_bytes(*decoded),
            vstd::utf8::encode_utf8(out@),
        ),
        !(context.platform is Windows) ==> vstd::utf8::encode_utf8(out@).len() <= VERSION_LEN
            + base64::base64_len((vstd::utf8::encode_utf8(s@).len() + 56) as nat),
{
    let bytes = s.as_bytes();
    proof {
        text::lemma_empty_bytes(s@);
        text::lemma_empty_bytes(""@);
        reveal_strlit("");
    }
    if is_encrypted_decoded(bytes, true, decoded) {
        return s.to_owned();
    }
    if s.is_empty() {
        return s.to_owned();
    }
    if s.unicode_len() > max_len {
        let empty = String::new();
        proof {
            text::lemma_empty_bytes(empty@);
        }
        return empty;
    }
    if let Some((cipher, payload)) = encrypt_value(bytes, version, true, context, nonce) {
        let ghost payload_bytes = payload@;
        proof {
            text::lemma_ascii_is_utf8(payload@);
        }
        if let Some(encoded) = from_utf8(payload) {
            let mut out = cipher.version().to_owned();
            out.append(encoded.as_str());
            proof {
                lemma_versions();
                text::lemma_bytes_of_concat(cipher_version(cipher), encoded@);
                vstd::utf8::decode_utf8_encode_utf8(payload_bytes);
            }
            return out;
        }
    }
    s.to_owned()
}

/// Encrypts a text before it is stored. What already looks encrypted, or cannot be encrypted in
/// the version asked for, is returned as it is; what has too many characters is dropped.
pub fn encrypt_str_or_original(
    s: &str,
    version: &str,
    max_len: usize,
    context: &CryptContext,
) -> (out: String)
    requires
        s@.len() <= max_len ==> encryption_fits(s.spec_bytes().len()),
        protected_fits(context@),
    ensures
        value_encrypts_to(
            vstd::utf8::encode_utf8(s@),
            s@.len(),
            version@,
            max_len,
            true,
            context@,
            vstd::utf8::encode_utf8(out@),
        ),
        !(context.platform is Windows) ==> vstd::utf8::encode_utf8(out@).len() <= VERSION_LEN
            + base64::base64_len((vstd::utf8::encode_utf8(s@).len() + 56) as nat),
{
    let nonce = gen_nonce();
    let decoded = decode_value(s.as_bytes(), true);
    encrypt_str_with(s, version, max_len, context, nonce.as_slice(), &decoded)
}

/// What decrypting stored bytes gives, whatever they were decoded to: the bytes, whether they were
/// decrypted, and whether they should be stored anew. Only what looks encrypted is ever decrypted.
pub open spec fn bytes_decrypt_to(
    v: Seq<u8>,
    current: Seq<char>,
    c: CryptView,
    data: Seq<u8>,
    success: bool,
    store: bool,
) -> bool {
    exists|decoded: Option<Seq<u8>>|
        #[trigger] value_decodes_to(v, false, decoded) && (match value_decrypted(
            v,
            false,
            c,
            decoded,
        ) {
            Some(message) => data == message && success,
            None => data == v && !success,
        }) && store == store_after_read(v, false, current, c, decoded) && (success
            ==> looks_encrypted(v, false, decoded))
}

/// What decrypting a stored text gives, whatever it was decoded to: the text, whether it was
/// decrypted, and whether it should be stored anew. Only what looks encrypted is ever decrypted.
pub open spec fn text_decrypts_to(
    s: Seq<char>,
    current: Seq<char>,
    c: CryptView,
    text: Seq<char>,
    success: bool,
    store: bool,
) -> bool {
    exists|decoded: Option<Seq<u8>>|
        #[trigger] value_decodes_to(vstd::utf8::encode_utf8(s), true, decoded) && (
        match value_decrypted(vstd::utf8::encode_utf8(s), true, c, decoded) {
            Some(message) => text == text::text_of(message) && success,
            None => text == s && !success,
        }) && store == store_after_read(vstd::utf8::encode_utf8(s), true, current, c, decoded) && (
        success ==> looks_encrypted(vstd::utf8::encode_utf8(s), true, decoded))
}

/// Decrypts a stored value, given what it was decoded to, and says whether to store it anew.
fn decrypt_value(
    v: &[u8],
    is_string: bool,
    current_version: &str,
    decoded: &Option<Vec<u8>>,
    context: &CryptContext,
) -> (out: (Option<Vec<u8>>, bool))
    requires
        v@.len() + 64 <= isize::MAX,
        protected_fits(context@),
        value_decodes_to(v@, is_string, text::maybe_bytes(*decoded)),
    ensures
        text::maybe_bytes(out.0) == value_decrypted(
            v@,
            is_string,
            context@,
            text::maybe_bytes(*decoded),
        ),
        out.1 == store_after_read(
            v@,
            is_string,
            current_version@,
            context@,
            text::maybe_bytes(*decoded),
        ),
        out.0 is Some ==> looks_encrypted(v@, is_string, text::maybe_bytes(*decoded)),
        !(context.platform is Windows) ==> (out.0 matches Some(message) ==> message@.len()
            < v@.len()),
{
    if let Some(cipher) = cipher_by_prefixed_data(v) {
        let payload = slice_subrange(v, VERSION_LEN, v.len());
        assert(payload@ =~= v@.skip(VERSION_LEN as int));
        if let Ok(message) = cipher.decrypt_decoded(payload, is_string, decoded, context) {
            proof {
                lemma_versions();
            }
            let store: bool = should_store_after_decrypt(
                cipher.version(),
                message.as_slice(),
                current_version,
                is_string,
                context,
            );
            return (Some(message), store);
        }
    }
    (None, v.len() > 0 && !is_encrypted_decoded(v, is_string, decoded))
}

/// Decrypts stored bytes, given what they were decoded to.
pub fn decrypt_vec_decoded(
    v: &[u8],
    current_version: &str,
    decoded: &Option<Vec<u8>>,
    context: &CryptContext,
) -> (out: (Vec<u8>, bool, bool))
    requires
        v@.len() + 64 <= isize::MAX,
        protected_fits(context@),
        value_decodes_to(v@, false, text::maybe_bytes(*decoded)),
    ensures
        match value_decrypted(v@, false, context@, text::maybe_bytes(*decoded)) {
            Some(message) => out.0@ == message && out.1,
            None => out.0@ == v@ && !out.1,
        },
        out.2 == store_after_read(
            v@,
            false,
            current_version@,
            context@,
            text::maybe_bytes(*decoded),
        ),
        out.1 ==> looks_encrypted(v@, false, text::maybe_bytes(*decoded)),
        out.1 && !(context.platform is Windows) ==> out.0@.len() < v@.len(),
{
    match decrypt_value(v, false, current_version, decoded, context) {
        (Some(message), store) => (message, true, store),
        (None, store) => (slice_to_vec(v), false, store),
    }
}

/// Decrypts stored bytes. What does not decrypt is returned as it is. The first flag says whether
/// it was decrypted, the second whether it should be stored anew.
pub fn decrypt_vec_or_original(v: &[u8], current_version: &str, context: &CryptContext) -> (out: (
    Vec<u8>,
    bool,
    bool,
))
    requires
        v@.len() + 64 <= isize::MAX,
        protected_fits(context@),
    ensures
        bytes_decrypt_to(v@, current_version@, context@, out.0@, out.1, out.2),
        out.1 && !(context.platform is Windows) ==> out.0@.len() < v@.len(),
{
    let decoded = decode_value(v, false);
    decrypt_vec_decoded(v, current_version, &decoded, context)
}

/// Decrypts a stored text, given what it was decoded to.
pub fn decrypt_str_decoded(
    s: &str,
    current_version: &str,
    decoded: &Option<Vec<u8>>,
    context: &CryptContext,
) -> (out: (String, bool, bool))
    requires
        s.spec_bytes().len() + 64 <= isize::MAX,
        protected_fits(context@),
        value_decodes_to(s.spec_bytes(), true, text::maybe_bytes(*decoded)),
    ensures
        match value_decrypted(
            vstd::utf8::encode_utf8(s@),
            true,
            context@,
            text::maybe_bytes(*decoded),
        ) {
            Some(message) => out.0@ == text::text_of(message) && out.1,
            None => out.0@ == s@ && !out.1,
        },
        out.2 == store_after_read(
            vstd::utf8::encode_utf8(s@),
            true,
            current_version@,
            context@,
            text::maybe_bytes(*decoded),
        ),
        out.1 ==> looks_encrypted(vstd::utf8::encode_utf8(s@), true, text::maybe_bytes(*decoded)),
{
    match decrypt_value(s.as_bytes(), true, current_version, decoded, context) {
        (Some(message), store) => (from_utf8_lossy(message.as_slice()), true, store),
        (None, store) => (s.to_owned(), false, store),
    }
}

/// Decrypts a stored text. What does not decrypt is returned as it is. The first flag says whether
/// it was decrypted, the second whether it should be stored anew.
pub fn decrypt_str_or_original(s: &str, current_version: &str, context: &CryptContext) -> (out: (
    String,
    bool,
    bool,
))
    requires
        s.spec_bytes().len() + 64 <= isize::MAX,
        protected_fits(context@),
    ensures
        text_decrypts_to(s@, current_version@, context@, out.0@, out.1, out.2),
{
    let decoded = decode_value(s.as_bytes(), true);
    decrypt_str_decoded(s, current_version, &decoded, context)
}

/// Encrypts a file that is synchronised between the user's devices. On Android version `00` is
/// used, and only for data that can be read back.
pub fn encrypt_user_sync_file(data: &[u8], max_len: usize, context: &CryptContext) -> (out: Option<
    Vec<u8>,
>)
    requires
        base64::base64_len((data@.len() + 56) as nat) + 66 <= isize::MAX,
        protected_fits(context@),
    ensures
        file_encrypts_to(data@, max_len, context@, text::maybe_bytes(out)),
        !(context.platform is Windows) ==> (out matches Some(file) ==> file@.len() <= VERSION_LEN
            + base64::base64_len((data@.len() + 56) as nat)),
{
    if context.platform == Platform::Android {
        let nonce = gen_nonce();
        let seen = decode_value(data, false);
        let encrypted = encrypt_vec_with(
            data,
            VERSION_00_UUID,
            max_len,
            context,
            nonce.as_slice(),
            &seen,
        );
        proof {
            lemma_versions();
        }
        let (decrypted, success, _) = decrypt_vec_or_original(
            encrypted.as_slice(),
            VERSION_00_UUID,
            context,
        );
        if success && bytes_eq(decrypted.as_slice(), data) {
            Some(encrypted)
        } else {
            None
        }
    } else {
        match symmetric_crypt_02_user(data, true, context) {
            Ok(payload) => Some(payload),
            Err(_) => None,
        }
    }
}

/// What encrypting a file that is synchronised gives, whatever nonce was drawn and whatever the
/// data was decoded to. On Android data that is empty, too long or looks encrypted is refused. What
/// is not refused decrypts to the data wherever it can be read.
pub open spec fn file_encrypts_to(
    data: Seq<u8>,
    max_len: usize,
    c: CryptView,
    out: Option<Seq<u8>>,
) -> bool {
    &&& if c.platform is Android {
        exists|decoded: Option<Seq<u8>>|
            #[trigger] value_decodes_to(data, false, decoded) && out == (if !looks_encrypted(
                data,
                false,
                decoded,
            ) && 0 < data.len() <= max_len {
                Some(version_bytes(Cipher::Uuid) + base64::base64(uuid_encrypted(c, data)))
            } else {
                None
            })
    } else {
        exists|nonce: Seq<u8>|
            nonce.len() == NONCEBYTES && out == (match #[trigger] user_encrypted(c, data, nonce) {
                Ok(payload) => Some(payload),
                Err(_) => None,
            })
    }
    &&& out matches Some(file) ==> file_well(file, data, c)
}

/// The cipher that a file that is synchronised is encrypted with.
pub open spec fn file_cipher(c: CryptView) -> Cipher {
    if c.platform is Android {
        Cipher::Uuid
    } else {
        Cipher::User
    }
}

/// What holds of every file that was encrypted to be synchronised: it decrypts to the data wherever
/// it can be read.
pub open spec fn file_well(file: Seq<u8>, data: Seq<u8>, c: CryptView) -> bool {
    forall|d: CryptView, decoded: Option<Seq<u8>>|
        sync_file_decodes_to(file, d, decoded) && can_read(file_cipher(c), data, c, d)
            ==> #[trigger] sync_file_decrypted(file, d, decoded) == Some(data)
}

/// What a file that is synchronised is decoded to.
pub open spec fn sync_file_decodes_to(
    file: Seq<u8>,
    c: CryptView,
    decoded: Option<Seq<u8>>,
) -> bool {
    if c.platform is Android {
        value_decodes_to(file, false, decoded)
    } else {
        decoded is None
    }
}

/// What a file that is synchronised decrypts to, if it does.
pub open spec fn sync_file_decrypted(
    file: Seq<u8>,
    c: CryptView,
    decoded: Option<Seq<u8>>,
) -> Option<Seq<u8>> {
    if c.platform is Android {
        value_decrypted(file, false, c, decoded)
    } else {
        match user_decrypted(c, file) {
            Ok(message) => Some(message),
            Err(_) => None,
        }
    }
}

/// What decrypting a file that is synchronised gives, whatever it was decoded to. On Android only
/// what looks encrypted is ever decrypted.
pub open spec fn file_decrypts_to(file: Seq<u8>, c: CryptView, out: Option<Seq<u8>>) -> bool {
    exists|decoded: Option<Seq<u8>>|
        #[trigger] sync_file_decodes_to(file, c, decoded) && out == sync_file_decrypted(
            file,
            c,
            decoded,
        ) && (c.platform is Android && out is Some ==> looks_encrypted(file, false, decoded))
}

/// Decrypts a file that is synchronised between the user's devices.
pub fn decrypt_user_sync_file(data: &[u8], context: &CryptContext) -> (out: Option<Vec<u8>>)
    requires
        data@.len() + 64 <= isize::MAX,
        protected_fits(context@),
    ensures
        file_decrypts_to(data@, context@, text::maybe_bytes(out)),
{
    if context.platform == Platform::Android {
        let decoded = decode_value(data, false);
        let (decrypted, success, _) = decrypt_vec_decoded(
            data,
            VERSION_00_UUID,
            &decoded,
            context,
        );
        assert(sync_file_decodes_to(data@, context@, text::maybe_bytes(decoded)));
        if success {
            Some(decrypted)
        } else {
            None
        }
    } else {
        assert(sync_file_decodes_to(data@, context@, None));
        match symmetric_crypt_02_user(data, false, context) {
            Ok(message) => Some(message),
            Err(_) => None,
        }
    }
}

/// Whether what a value is decoded to is the same on all machines: all of it that is decoded is
/// ASCII.
pub open spec fn decodes_alike(value: Seq<u8>, is_string: bool) -> bool {
    cipher_of_value(value) matches Some(cipher) ==> payload_is_text(cipher, is_string)
        ==> base64::is_ascii(value.skip(VERSION_LEN as int))
}

/// Where all that is decoded of a value is ASCII, it is decoded in one way only.
pub proof fn law_ascii_values_decode_one_way(
    value: Seq<u8>,
    is_string: bool,
    one: Option<Seq<u8>>,
    other: Option<Seq<u8>>,
)
    requires
        decodes_alike(value, is_string),
        value_decodes_to(value, is_string, one),
        value_decodes_to(value, is_string, other),
    ensures
        one == other,
{
    if let Some(cipher) = cipher_of_value(value) {
        if payload_is_text(cipher, is_string) {
            base64::law_ascii_decodes_one_way(value.skip(VERSION_LEN as int), one, other);
        }
    }
}

/// A value that was encrypted, or that was found to look encrypted, looks encrypted and stays as it
/// is from then on, whatever is asked for: it is not encrypted again, and it is not dropped for its
/// length. Where it was left as it was, this holds as long as it is decoded as before, which it is
/// on one machine.
pub proof fn law_encrypted_value_stays(
    v: Seq<u8>,
    len: nat,
    version: Seq<char>,
    max_len: usize,
    is_string: bool,
    c: CryptView,
    nonce: Seq<u8>,
    decoded: Option<Seq<u8>>,
    value: Seq<u8>,
    again: Option<Seq<u8>>,
    len_again: nat,
    version_again: Seq<char>,
    max_len_again: usize,
    c_again: CryptView,
    nonce_again: Seq<u8>,
)
    requires
        0 < v.len(),
        len <= max_len,
        cipher_of_version(version) is Some,
        encrypted_to(v, len, version, max_len, is_string, c, nonce, decoded, value),
        value_decodes_to(value, is_string, again),
        value == v ==> again == decoded,
    ensures
        looks_encrypted(value, is_string, again),
        value_stored(
            value,
            len_again,
            version_again,
            max_len_again,
            is_string,
            c_again,
            nonce_again,
            again,
        ) == value,
{
}

/// A value is encrypted only once: encrypting what encrypting has given changes nothing, whatever
/// is asked for, and that looks encrypted however it is decoded. A value that was left as it was
/// must be decoded alike on all machines for this.
pub proof fn law_encryption_is_idempotent(
    v: Seq<u8>,
    len: nat,
    version: Seq<char>,
    max_len: usize,
    is_string: bool,
    c: CryptView,
    value: Seq<u8>,
    len_again: nat,
    version_again: Seq<char>,
    max_len_again: usize,
    c_again: CryptView,
    out: Seq<u8>,
)
    requires
        0 < v.len(),
        len <= max_len,
        cipher_of_version(version) is Some,
        value != v || decodes_alike(v, is_string),
        value_encrypts_to(v, len, version, max_len, is_string, c, value),
        value_encrypts_to(
            value,
            len_again,
            version_again,
            max_len_again,
            is_string,
            c_again,
            out,
        ),
    ensures
        out == value,
        forall|again: Option<Seq<u8>>| #[trigger]
            value_decodes_to(value, is_string, again) ==> looks_encrypted(value, is_string, again),
{
    let (nonce, decoded) = choose|nonce: Seq<u8>, decoded: Option<Seq<u8>>|
        nonce.len() == NONCEBYTES && value_decodes_to(v, is_string, decoded)
            && #[trigger] encrypted_to(
            v,
            len,
            version,
            max_len,
            is_string,
            c,
            nonce,
            decoded,
            value,
        );
    assert forall|again: Option<Seq<u8>>| #[trigger]
        value_decodes_to(value, is_string, again) implies looks_encrypted(
        value,
        is_string,
        again,
    ) by {
        if value == v {
            law_ascii_values_decode_one_way(v, is_string, decoded, again);
        }
    }
}

/// Whether a value is not taken for an encrypted one, however it is decoded.
pub open spec fn looks_plain(value: Seq<u8>, is_string: bool) -> bool {
    forall|decoded: Option<Seq<u8>>| #[trigger]
        value_decodes_to(value, is_string, decoded) ==> !looks_encrypted(value, is_string, decoded)
}

/// A value of version `00` that is too short for an authenticator is not taken for an encrypted
/// one: its payload would decode to fewer bytes than that has.
pub proof fn law_short_values_look_plain(value: Seq<u8>, is_string: bool)
    requires
        cipher_of_value(value) == Some(Cipher::Uuid),
        value.len() < VERSION_LEN + base64::base64_len(MACBYTES as nat),
    ensures
        looks_plain(value, is_string),
{
}

/// Bytes that are not taken for encrypted ones come back as they are, are not reported as
/// decrypted, and should be stored anew unless there are none.
pub proof fn law_plain_bytes_come_back(
    v: Seq<u8>,
    current: Seq<char>,
    c: CryptView,
    data: Seq<u8>,
    success: bool,
    store: bool,
)
    requires
        looks_plain(v, false),
        bytes_decrypt_to(v, current, c, data, success, store),
    ensures
        data == v,
        !success,
        store == (v.len() > 0),
{
}

/// A text that is not taken for an encrypted one comes back as it is, is not reported as decrypted,
/// and should be stored anew unless it is empty.
pub proof fn law_plain_text_comes_back(
    s: Seq<char>,
    current: Seq<char>,
    c: CryptView,
    text: Seq<char>,
    success: bool,
    store: bool,
)
    requires
        looks_plain(vstd::utf8::encode_utf8(s), true),
        text_decrypts_to(s, current, c, text, success, store),
    ensures
        text == s,
        !success,
        store == (s.len() > 0),
{
    text::lemma_empty_bytes(s);
}

/// Bytes that were encrypted are read back wherever they can be read, whatever version is current.
/// They should be stored anew if their version is not the current one; where version `02` is, only
/// if the user's account can encrypt.
pub proof fn law_bytes_round_trip(
    v: Seq<u8>,
    version: Seq<char>,
    max_len: usize,
    c: CryptView,
    value: Seq<u8>,
    current: Seq<char>,
    d: CryptView,
    data: Seq<u8>,
    success: bool,
    store: bool,
)
    requires
        0 < v.len() <= max_len,
        value != v || looks_plain(v, false),
        cipher_of_version(version) is Some,
        value_encrypts_to(v, v.len(), version, max_len, false, c, value),
        can_read(chosen_cipher(version, c), v, c, d),
        bytes_decrypt_to(value, current, d, data, success, store),
    ensures
        data == v,
        success,
        cipher_of_value(value) == Some(chosen_cipher(version, c)),
        store == store_wanted(cipher_version(chosen_cipher(version, c)), current, d),
        current == cipher_version(chosen_cipher(version, c)) ==> !store,
        current != "02"@ && current != cipher_version(chosen_cipher(version, c)) ==> store,
{
    let decoded = choose|decoded: Option<Seq<u8>>|
        #[trigger] value_decodes_to(value, false, decoded) && (match value_decrypted(
            value,
            false,
            d,
            decoded,
        ) {
            Some(message) => data == message && success,
            None => data == value && !success,
        }) && store == store_after_read(value, false, current, d, decoded);
    assert(value_decrypted(value, false, d, decoded) == Some(v));
}

/// A text that was encrypted is read back wherever it can be read, whatever version is current. It
/// should be stored anew if its version is not the current one; where version `02` is, only if the
/// user's account can encrypt.
pub proof fn law_text_round_trip(
    s: Seq<char>,
    version: Seq<char>,
    max_len: usize,
    c: CryptView,
    value: Seq<char>,
    current: Seq<char>,
    d: CryptView,
    text: Seq<char>,
    success: bool,
    store: bool,
)
    requires
        0 < s.len() <= max_len,
        value != s || looks_plain(vstd::utf8::encode_utf8(s), true),
        cipher_of_version(version) is Some,
        value_encrypts_to(
            vstd::utf8::encode_utf8(s),
            s.len(),
            version,
            max_len,
            true,
            c,
            vstd::utf8::encode_utf8(value),
        ),
        can_read(chosen_cipher(version, c), vstd::utf8::encode_utf8(s), c, d),
        text_decrypts_to(value, current, d, text, success, store),
    ensures
        text == s,
        success,
        cipher_of_value(vstd::utf8::encode_utf8(value)) == Some(chosen_cipher(version, c)),
        store == store_wanted(cipher_version(chosen_cipher(version, c)), current, d),
        current == cipher_version(chosen_cipher(version, c)) ==> !store,
        current != "02"@ && current != cipher_version(chosen_cipher(version, c)) ==> store,
{
    let bytes = vstd::utf8::encode_utf8(value);
    text::lemma_empty_bytes(s);
    text::law_text_of_bytes(s);
    vstd::utf8::encode_utf8_decode_utf8(s);
    vstd::utf8::encode_utf8_decode_utf8(value);
    let decoded = choose|decoded: Option<Seq<u8>>|
        #[trigger] value_decodes_to(bytes, true, decoded) && (match value_decrypted(
            bytes,
            true,
            d,
            decoded,
        ) {
            Some(message) => text == text::text_of(message) && success,
            None => text == value && !success,
        }) && store == store_after_read(bytes, true, current, d, decoded);
    assert(value_decrypted(bytes, true, d, decoded) == Some(vstd::utf8::encode_utf8(s)));
}

/// A file that was encrypted to be synchronised is read back wherever it can be read.
pub proof fn law_sync_file_round_trip(
    data: Seq<u8>,
    max_len: usize,
    c: CryptView,
    file: Seq<u8>,
    d: CryptView,
    out: Option<Seq<u8>>,
)
    requires
        file_encrypts_to(data, max_len, c, Some(file)),
        can_read(file_cipher(c), data, c, d),
        file_decrypts_to(file, d, out),
    ensures
        out == Some(data),
{
}

/// A value that looks encrypted in the current version is not stored again when it is read,
/// whether or not it decrypts.
pub proof fn law_current_version_is_not_stored_again(
    value: Seq<u8>,
    is_string: bool,
    current: Seq<char>,
    c: CryptView,
    decoded: Option<Seq<u8>>,
)
    requires
        looks_encrypted(value, is_string, decoded),
        cipher_of_value(value) matches Some(cipher) && cipher_version(cipher) == current,
    ensures
        !store_after_read(value, is_string, current, c, decoded),
{
}

/// A value that looks encrypted but does not decrypt is not stored again when it is read, whatever
/// version is current.
pub proof fn law_undecryptable_values_are_not_stored_again(
    value: Seq<u8>,
    is_string: bool,
    current: Seq<char>,
    c: CryptView,
    decoded: Option<Seq<u8>>,
)
    requires
        looks_encrypted(value, is_string, decoded),
        value_decrypted(value, is_string, c, decoded) is None,
    ensures
        !store_after_read(value, is_string, current, c, decoded),
{
}

/// A value of version `00` that decrypts is stored anew in version `02` as soon as the user's
/// account can encrypt, and not before.
pub proof fn law_old_values_migrate(
    value: Seq<u8>,
    is_string: bool,
    c: CryptView,
    decoded: Option<Seq<u8>>,
)
    requires
        cipher_of_value(value) == Some(Cipher::Uuid),
        value_decrypted(value, is_string, c, decoded) is Some,
    ensures
        store_after_read(value, is_string, "02"@, c, decoded) == user_scope_available(c),
        !store_after_read(value, is_string, "00"@, c, decoded),
{
    lemma_versions();
}

/// Whether encrypting a value takes what the user's account contributes.
pub open spec fn encrypting_takes_user_scope(
    v: Seq<u8>,
    len: nat,
    version: Seq<char>,
    max_len: usize,
    is_string: bool,
    decoded: Option<Seq<u8>>,
) -> bool {
    !looks_encrypted(v, is_string, decoded) && v.len() > 0 && len <= max_len && version == "02"@
}

/// What the user's account is asked for: on Windows the Data Protection API, elsewhere the master
/// key.
#[derive(Debug, PartialEq, Eq)]
pub enum UserScope {
    NotNeeded,
    /// To encrypt this data.
    Encrypt(Vec<u8>),
    /// To decrypt this payload.
    Decrypt(Vec<u8>),
}

/// What a `UserScope` holds.
pub enum UserScopeView {
    NotNeeded,
    Encrypt(Seq<u8>),
    Decrypt(Seq<u8>),
}

impl View for UserScope {
    type V = UserScopeView;

    open spec fn view(&self) -> UserScopeView {
        match self {
            UserScope::NotNeeded => UserScopeView::NotNeeded,
            UserScope::Encrypt(data) => UserScopeView::Encrypt(data@),
            UserScope::Decrypt(payload) => UserScopeView::Decrypt(payload@),
        }
    }
}

/// What the user's account is asked for to decrypt a value: to encrypt anew what the machine's
/// identity has decrypted, if version `02` is current, or to decrypt what it has encrypted.
pub open spec fn value_user_scope(
    value: Seq<u8>,
    is_string: bool,
    current: Seq<char>,
    c: CryptView,
    decoded: Option<Seq<u8>>,
) -> UserScopeView {
    match cipher_of_value(value) {
        None => UserScopeView::NotNeeded,
        Some(Cipher::Uuid) => match value_decrypted(value, is_string, c, decoded) {
            Some(message) => if current == "02"@ {
                UserScopeView::Encrypt(message)
            } else {
                UserScopeView::NotNeeded
            },
            None => UserScopeView::NotNeeded,
        },
        Some(Cipher::User) => match user_scope_payload(value, is_string, decoded) {
            Some(payload) => payload_user_scope(payload, c),
            None => UserScopeView::NotNeeded,
        },
    }
}

/// What the user's account is asked for to decrypt a payload: nothing where it is too short to be
/// decrypted. How short that is on Windows, the Data Protection API decides.
pub open spec fn payload_user_scope(payload: Seq<u8>, c: CryptView) -> UserScopeView {
    if c.platform is Windows || payload.len() >= NONCEBYTES + MACBYTES {
        UserScopeView::Decrypt(payload)
    } else {
        UserScopeView::NotNeeded
    }
}

/// What the user's account is asked for to encrypt or decrypt data of its own.
pub open spec fn data_user_scope(data: Seq<u8>, encrypt: bool, c: CryptView) -> UserScopeView {
    if encrypt {
        UserScopeView::Encrypt(data)
    } else if secret_store::magic_header().is_prefix_of(data) {
        payload_user_scope(data.skip(secret_store::magic_header().len() as int), c)
    } else {
        UserScopeView::NotNeeded
    }
}

/// The payload of a value that only the user's account can decrypt.
pub open spec fn user_scope_payload(
    value: Seq<u8>,
    is_string: bool,
    decoded: Option<Seq<u8>>,
) -> Option<Seq<u8>> {
    if cipher_of_value(value) == Some(Cipher::User) && looks_encrypted(value, is_string, decoded) {
        Some(
            (if is_string {
                decoded->0
            } else {
                value.skip(VERSION_LEN as int)
            }).skip(secret_store::magic_header().len() as int),
        )
    } else {
        None
    }
}

/// What the user's account is asked for to decrypt a file that is synchronised.
pub open spec fn file_user_scope(
    file: Seq<u8>,
    c: CryptView,
    decoded: Option<Seq<u8>>,
) -> UserScopeView {
    if c.platform is Android {
        value_user_scope(file, false, "00"@, c, decoded)
    } else {
        data_user_scope(file, false, c)
    }
}

/// Whether two contexts hold the same of what the user's account was asked for.
pub open spec fn same_answer(scope: UserScopeView, a: CryptView, b: CryptView) -> bool {
    match scope {
        UserScopeView::NotNeeded => true,
        UserScopeView::Encrypt(_) => a.master_key == b.master_key && a.protected == b.protected,
        UserScopeView::Decrypt(_) => a.master_key == b.master_key && a.unprotected
            == b.unprotected,
    }
}

/// Whether encrypting these bytes takes what the user's account contributes.
pub fn encrypt_vec_takes_user_scope(v: &[u8], version: &str, max_len: usize) -> (needed: bool)
    ensures
        exists|decoded: Option<Seq<u8>>|
            #[trigger] value_decodes_to(v@, false, decoded) && needed
                == encrypting_takes_user_scope(
                v@,
                v@.len(),
                version@,
                max_len,
                false,
                decoded,
            ),
{
    let encrypted: bool = is_encrypted(v, false);
    !encrypted && v.len() > 0 && v.len() <= max_len && str_eq(version, VERSION_02_USER)
}

/// Whether encrypting this text takes what the user's account contributes.
pub fn encrypt_str_takes_user_scope(s: &str, version: &str, max_len: usize) -> (needed: bool)
    ensures
        exists|decoded: Option<Seq<u8>>|
            #[trigger] value_decodes_to(vstd::utf8::encode_utf8(s@), true, decoded) && needed
                == encrypting_takes_user_scope(
                vstd::utf8::encode_utf8(s@),
                s@.len(),
                version@,
                max_len,
                true,
                decoded,
            ),
{
    proof {
        text::lemma_empty_bytes(s@);
    }
    let encrypted: bool = is_encrypted(s.as_bytes(), true);
    !encrypted && !s.is_empty() && s.unicode_len() <= max_len && str_eq(version, VERSION_02_USER)
}

/// What the user's account is asked for to decrypt this value.
pub fn decrypt_user_scope(
    v: &[u8],
    is_string: bool,
    current_version: &str,
    context: &CryptContext,
) -> (scope: UserScope)
    ensures
        exists|decoded: Option<Seq<u8>>|
            #[trigger] value_decodes_to(v@, is_string, decoded) && scope@ == value_user_scope(
                v@,
                is_string,
                current_version@,
                context@,
                decoded,
            ) && (!(scope is NotNeeded) ==> looks_encrypted(v@, is_string, decoded)),
{
    let decoded = decode_value(v, is_string);
    match cipher_by_prefixed_data(v) {
        None => UserScope::NotNeeded,
        Some(Cipher::Uuid) => {
            let payload = slice_subrange(v, VERSION_LEN, v.len());
            assert(payload@ =~= v@.skip(VERSION_LEN as int));
            match Cipher::Uuid.decrypt_decoded(payload, is_string, &decoded, context) {
                Ok(message) => {
                    if str_eq(current_version, VERSION_02_USER) {
                        UserScope::Encrypt(message)
                    } else {
                        UserScope::NotNeeded
                    }
                },
                Err(_) => UserScope::NotNeeded,
            }
        },
        Some(Cipher::User) => match payload_decoded(v, is_string, &decoded) {
            Some(payload) => decrypt_payload_user_scope(payload.as_slice(), context),
            None => UserScope::NotNeeded,
        },
    }
}

/// What the user's account is asked for to decrypt a payload.
fn decrypt_payload_user_scope(payload: &[u8], context: &CryptContext) -> (scope: UserScope)
    ensures
        scope@ == payload_user_scope(payload@, context@),
{
    if context.platform == Platform::Windows || payload.len() >= NONCEBYTES + MACBYTES {
        UserScope::Decrypt(slice_to_vec(payload))
    } else {
        UserScope::NotNeeded
    }
}

/// What the user's account is asked for by `symmetric_crypt_02_user`.
pub fn crypt_02_user_scope(data: &[u8], encrypt: bool, context: &CryptContext) -> (scope: UserScope)
    ensures
        scope@ == data_user_scope(data@, encrypt, context@),
{
    if encrypt {
        return UserScope::Encrypt(slice_to_vec(data));
    }
    let (payload, has_header) = user_data_strip_magic_header(data);
    if has_header {
        decrypt_payload_user_scope(payload, context)
    } else {
        UserScope::NotNeeded
    }
}

/// What the user's account is asked for to encrypt a file that is synchronised.
pub fn encrypt_sync_file_user_scope(data: &[u8], context: &CryptContext) -> (scope: UserScope)
    ensures
        scope@ == (if context.platform is Android {
            UserScopeView::NotNeeded
        } else {
            data_user_scope(data@, true, context@)
        }),
{
    if context.platform == Platform::Android {
        UserScope::NotNeeded
    } else {
        crypt_02_user_scope(data, true, context)
    }
}

/// What the user's account is asked for to decrypt a file that is synchronised.
pub fn decrypt_sync_file_user_scope(data: &[u8], context: &CryptContext) -> (scope: UserScope)
    ensures
        exists|decoded: Option<Seq<u8>>|
            #[trigger] sync_file_decodes_to(data@, context@, decoded) && scope@
                == file_user_scope(data@, context@, decoded),
{
    if context.platform == Platform::Android {
        let scope = decrypt_user_scope(data, false, VERSION_00_UUID, context);
        proof {
            let decoded = choose|decoded: Option<Seq<u8>>|
                #[trigger] value_decodes_to(data@, false, decoded) && scope@ == value_user_scope(
                    data@,
                    false,
                    "00"@,
                    context@,
                    decoded,
                );
            assert(sync_file_decodes_to(data@, context@, decoded));
        }
        scope
    } else {
        assert(sync_file_decodes_to(data@, context@, None));
        crypt_02_user_scope(data, false, context)
    }
}

/// The payload that is to be decrypted by the user's account, given what the value was decoded to.
fn payload_decoded(v: &[u8], is_string: bool, decoded: &Option<Vec<u8>>) -> (payload: Option<
    Vec<u8>,
>)
    ensures
        text::maybe_bytes(payload) == user_scope_payload(
            v@,
            is_string,
            text::maybe_bytes(*decoded),
        ),
{
    if !is_encrypted_decoded(v, is_string, decoded) {
        return None;
    }
    match (cipher_by_prefixed_data(v), decoded) {
        (Some(Cipher::User), Some(data)) if is_string => {
            let (payload, _) = user_data_strip_magic_header(data.as_slice());
            Some(slice_to_vec(payload))
        },
        (Some(Cipher::User), _) => {
            let data = slice_subrange(v, VERSION_LEN, v.len());
            assert(data@ =~= v@.skip(VERSION_LEN as int));
            let (payload, _) = user_data_strip_magic_header(data);
            Some(slice_to_vec(payload))
        },
        _ => None,
    }
}

/// Where encrypting does not take what the user's account contributes, that makes no difference.
pub proof fn law_encrypting_without_user_scope(
    v: Seq<u8>,
    len: nat,
    version: Seq<char>,
    max_len: usize,
    is_string: bool,
    a: CryptView,
    b: CryptView,
    nonce_a: Seq<u8>,
    nonce_b: Seq<u8>,
    decoded: Option<Seq<u8>>,
)
    requires
        same_machine(a, b),
        !encrypting_takes_user_scope(v, len, version, max_len, is_string, decoded),
    ensures
        value_stored(v, len, version, max_len, is_string, a, nonce_a, decoded) == value_stored(
            v,
            len,
            version,
            max_len,
            is_string,
            b,
            nonce_b,
            decoded,
        ),
{
}

/// What the user's account is asked for to decrypt a value is all that it has to contribute: on one
/// machine nothing else makes a difference.
pub proof fn law_value_user_scope_is_enough(
    value: Seq<u8>,
    is_string: bool,
    current: Seq<char>,
    a: CryptView,
    b: CryptView,
    decoded: Option<Seq<u8>>,
)
    requires
        same_machine(a, b),
        same_answer(value_user_scope(value, is_string, current, a, decoded), a, b),
    ensures
        value_decrypted(value, is_string, a, decoded) == value_decrypted(
            value,
            is_string,
            b,
            decoded,
        ),
        store_after_read(value, is_string, current, a, decoded) == store_after_read(
            value,
            is_string,
            current,
            b,
            decoded,
        ),
{
}

/// What the user's account is asked for to encrypt or decrypt data is all that it has to
/// contribute.
pub proof fn law_data_user_scope_is_enough(
    data: Seq<u8>,
    encrypt: bool,
    a: CryptView,
    b: CryptView,
    nonce: Seq<u8>,
)
    requires
        same_machine(a, b),
        same_answer(data_user_scope(data, encrypt, a), a, b),
    ensures
        encrypt ==> user_encrypted(a, data, nonce) == user_encrypted(b, data, nonce),
        !encrypt ==> user_decrypted(a, data) == user_decrypted(b, data),
{
}

/// What the user's account is asked for to decrypt a file that is synchronised is all that it has
/// to contribute.
pub proof fn law_file_user_scope_is_enough(
    file: Seq<u8>,
    a: CryptView,
    b: CryptView,
    decoded: Option<Seq<u8>>,
)
    requires
        same_machine(a, b),
        same_answer(file_user_scope(file, a, decoded), a, b),
    ensures
        sync_file_decrypted(file, a, decoded) == sync_file_decrypted(file, b, decoded),
{
}

/// Which passwords a connection may be opened with.
#[derive(Debug, Clone, Copy, PartialEq, Eq, Structural)]
pub enum VerificationMethod {
    OnlyUseTemporaryPassword,
    OnlyUsePermanentPassword,
    UseBothPasswords,
}

/// How a connection is approved.
#[derive(Debug, Clone, Copy, PartialEq, Eq, Structural)]
pub enum ApproveMode {
    Both,
    Password,
    Click,
}

/// The method that the option `verification-method` asks for.
pub open spec fn method_of(option: Seq<char>) -> VerificationMethod {
    if option == "use-temporary-password"@ {
        VerificationMethod::OnlyUseTemporaryPassword
    } else if option == "use-permanent-password"@ {
        VerificationMethod::OnlyUsePermanentPassword
    } else {
        VerificationMethod::UseBothPasswords
    }
}

/// The mode that the option `approve-mode` asks for.
pub open spec fn mode_of(option: Seq<char>) -> ApproveMode {
    if option == "password"@ {
        ApproveMode::Password
    } else if option == "click"@ {
        ApproveMode::Click
    } else {
        ApproveMode::Both
    }
}

/// The length that the option `temporary-password-length` asks for.
pub open spec fn length_of(option: Seq<char>) -> usize {
    if option == "8"@ {
        8
    } else if option == "10"@ {
        10
    } else {
        6
    }
}

/// A temporary password to be drawn at random.
#[derive(Debug, Clone, Copy, PartialEq, Eq, Structural)]
pub struct PasswordRequest {
    /// Whether it consists of digits only.
    pub numeric: bool,
    pub len: usize,
}

/// The temporary password of the moment.
pub struct TemporaryPassword {
    pub password: String,
}

/// The temporary password to be drawn, by the option `temporary-password-length` and by whether
/// numeric ones are allowed.
pub fn get_auto_password(length: &str, allow_numeric: bool) -> (request: PasswordRequest)
    ensures
        request == (PasswordRequest { numeric: allow_numeric, len: length_of(length@) }),
{
    PasswordRequest { numeric: allow_numeric, len: temporary_password_length(length) }
}

/// Replaces the temporary password by one that was drawn.
pub fn update_temporary_password(current: &mut TemporaryPassword, drawn: String)
    ensures
        final(current).password@ == drawn@,
{
    current.password = drawn;
}

/// The temporary password of the moment.
pub fn temporary_password(current: &TemporaryPassword) -> (password: String)
    ensures
        password@ == current.password@,
{
    current.password.clone()
}

/// The method that the option `verification-method` asks for.
pub fn verification_method(method: &str) -> (out: VerificationMethod)
    ensures
        out == method_of(method@),
{
    if str_eq(method, "use-temporary-password") {
        VerificationMethod::OnlyUseTemporaryPassword
    } else if str_eq(method, "use-permanent-password") {
        VerificationMethod::OnlyUsePermanentPassword
    } else {
        VerificationMethod::UseBothPasswords
    }
}

/// The length that the option `temporary-password-length` asks for.
pub fn temporary_password_length(length: &str) -> (n: usize)
    ensures
        n == length_of(length@),
{
    if str_eq(length, "8") {
        8
    } else if str_eq(length, "10") {
        10
    } else {
        6
    }
}

/// Whether temporary passwords are accepted.
pub fn temporary_enabled(method: &str) -> (enabled: bool)
    ensures
        enabled == !(method_of(method@) is OnlyUsePermanentPassword),
        enabled == (method@ != "use-permanent-password"@),
{
    proof {
        law_only_a_named_option_refuses_a_password(method@);
    }
    verification_method(method) != VerificationMethod::OnlyUsePermanentPassword
}

/// Whether the permanent password is accepted.
pub fn permanent_enabled(method: &str) -> (enabled: bool)
    ensures
        enabled == !(method_of(method@) is OnlyUseTemporaryPassword),
        enabled == (method@ != "use-temporary-password"@),
{
    proof {
        law_only_a_named_option_refuses_a_password(method@);
    }
    verification_method(method) != VerificationMethod::OnlyUseTemporaryPassword
}

/// Whether there is a password that would be accepted.
pub fn has_valid_password(
    method: &str,
    current: &TemporaryPassword,
    has_permanent_password: bool,
) -> (found: bool)
    ensures
        found == (!(method_of(method@) is OnlyUsePermanentPassword) && current.password@.len() > 0
            || !(method_of(method@) is OnlyUseTemporaryPassword) && has_permanent_password),
        found == (method@ != "use-permanent-password"@ && current.password@.len() > 0 || method@
            != "use-temporary-password"@ && has_permanent_password),
{
    let password = temporary_password(current);
    temporary_enabled(method) && !password.as_str().is_empty() || permanent_enabled(method)
        && has_permanent_password
}

/// The mode that the option `approve-mode` asks for.
pub fn approve_mode(mode: &str) -> (out: ApproveMode)
    ensures
        out == mode_of(mode@),
{
    if str_eq(mode, "password") {
        ApproveMode::Password
    } else if str_eq(mode, "click") {
        ApproveMode::Click
    } else {
        ApproveMode::Both
    }
}

/// Whether the connection manager is hidden: only where connections are approved by the permanent
/// password alone, and hiding is allowed.
pub fn hide_cm(mode: &str, method: &str, allow_hide_cm: bool) -> (hide: bool)
    ensures
        hide == (mode_of(mode@) is Password && method_of(method@) is OnlyUsePermanentPassword
            && allow_hide_cm),
        hide == (mode@ == "password"@ && method@ == "use-permanent-password"@ && allow_hide_cm),
{
    proof {
        law_only_a_named_option_refuses_a_password(method@);
    }
    approve_mode(mode) == ApproveMode::Password && verification_method(method)
        == VerificationMethod::OnlyUsePermanentPassword && allow_hide_cm
}

/// A kind of password is refused only by the one option value that names the other kind: with every
/// other value, be it empty, unknown or differently written, both are accepted.
pub proof fn law_only_a_named_option_refuses_a_password(option: Seq<char>)
    ensures
        method_of(option) is OnlyUseTemporaryPassword <==> option == "use-temporary-password"@,
        method_of(option) is OnlyUsePermanentPassword <==> option == "use-permanent-password"@,
        option != "use-temporary-password"@ && option != "use-permanent-password"@ ==> method_of(
            option,
        ) is UseBothPasswords,
{
    reveal_strlit("use-temporary-password");
    reveal_strlit("use-permanent-password");
    assert("use-temporary-password"@[4] != "use-permanent-password"@[4]);
}

/// A connection must be approved by a password alone, or by a click alone, only with the one option
/// value that says so; with every other value either will do.
pub proof fn law_only_a_named_option_restricts_approval(option: Seq<char>)
    ensures
        mode_of(option) is Password <==> option == "password"@,
        mode_of(option) is Click <==> option == "click"@,
        option != "password"@ && option != "click"@ ==> mode_of(option) is Both,
{
    reveal_strlit("password");
    reveal_strlit("click");
    assert("password"@.len() != "click"@.len());
}

/// A temporary password has six characters unless the option is one of the two other lengths.
pub proof fn law_temporary_passwords_have_six_characters(option: Seq<char>)
    ensures
        length_of(option) == 8 <==> option == "8"@,
        length_of(option) == 10 <==> option == "10"@,
        option != "8"@ && option != "10"@ ==> length_of(option) == 6,
{
    reveal_strlit("8");
    reveal_strlit("10");
    assert("8"@.len() != "10"@.len());
}

/// Some kind of password is always accepted.
pub proof fn law_some_password_is_enabled(option: Seq<char>)
    ensures
        !(method_of(option) is OnlyUsePermanentPassword) || !(method_of(
            option,
        ) is OnlyUseTemporaryPassword),
{
}

} // verus!
