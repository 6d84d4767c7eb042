//! What is promised of values that are encrypted before they are stored, in terms of the values
//! themselves: of their bytes, of the keys and of the cipher.
use crate::base64;
use crate::password_security;
use crate::password_security::{Cipher, CryptError};
use crate::platform::Platform;
use crate::secret_store;
use crate::secretbox;
use crate::text;
use vstd::prelude::*;

verus! {

/// Whether a value is taken for an encrypted one: two bytes of a version, and then a payload of the
/// shape that goes with it.
pub open spec fn reads_as_encrypted(v: Seq<u8>, is_string: bool) -> bool {
    &&& v.len() > 2
    &&& v[0] == 48
    &&& {
        ||| v[1] == 48 && exists|data: Seq<u8>|
            #[trigger] base64::base64(data) == v.skip(2) && data.len() >= 16
        ||| v[1] == 50 && is_string && exists|data: Seq<u8>|
            #[trigger] base64::base64(data) == v.skip(2)
                && secret_store::magic_header().is_prefix_of(data)
        ||| v[1] == 50 && !is_string && secret_store::magic_header().is_prefix_of(v.skip(2))
    }
}

/// Whether a value is taken for a plain one on all machines. Only of a value that begins with a
/// version and goes on with bytes outside ASCII that are to be decoded, machines may think
/// differently.
pub open spec fn reads_as_plain(v: Seq<u8>, is_string: bool) -> bool {
    ||| v.len() <= 2
    ||| v[0] != 48
    ||| v[1] != 48 && v[1] != 50
    ||| v[1] == 48 && v.len() < 26
    ||| (base64::is_ascii(v.skip(2)) || v[1] == 50 && !is_string) && !reads_as_encrypted(
        v,
        is_string,
    )
}

/// The header of what the user's account encrypts.
pub proof fn law_header_has_sixteen_bytes()
    ensures
        secret_store::magic_header().len() == 16,
        secret_store::magic_header() == seq![
            0xbeu8, 0xb6, 0x88, 0x39, 0x41, 0x15, 0x4b, 0xe7, 0x8d, 0x94, 0x10, 0x23, 0x59, 0x8f,
            0x8b, 0x24,
        ],
{
}

/// A key for the cipher has thirty-two bytes: as many of the identity's as there are, and zeros. Its
/// nonce is zero throughout.
pub proof fn law_identity_is_the_key(identity: Seq<u8>, i: int)
    ensures
        password_security::padded_key(identity).len() == 32,
        0 <= i < 32 && i < identity.len() ==> password_security::padded_key(identity)[i]
            == identity[i],
        identity.len() <= i < 32 ==> password_security::padded_key(identity)[i] == 0,
        password_security::zero_nonce().len() == 24,
        0 <= i < 24 ==> password_security::zero_nonce()[i] == 0,
{
}

/// What two bytes of a version say of a value.
proof fn lemma_prefix(v: Seq<u8>)
    ensures
        password_security::cipher_of_value(v) == (if v.len() > 2 && v[0] == 48 && v[1] == 48 {
            Some(Cipher::Uuid)
        } else if v.len() > 2 && v[0] == 48 && v[1] == 50 {
            Some(Cipher::User)
        } else {
            None
        }),
{
    let uuid = password_security::version_bytes(Cipher::Uuid);
    let user = password_security::version_bytes(Cipher::User);
    if v.len() > 2 {
        assert(uuid.is_prefix_of(v) <==> v[0] == 48 && v[1] == 48) by {
            if v[0] == 48 && v[1] == 48 {
                assert(v.take(2) =~= uuid);
            }
            if uuid.is_prefix_of(v) {
                assert(v.take(2)[0] == uuid[0] && v.take(2)[1] == uuid[1]);
            }
        }
        assert(user.is_prefix_of(v) <==> v[0] == 48 && v[1] == 50) by {
            if v[0] == 48 && v[1] == 50 {
                assert(v.take(2) =~= user);
            }
            if user.is_prefix_of(v) {
                assert(v.take(2)[0] == user[0] && v.take(2)[1] == user[1]);
            }
        }
    }
}

/// The version of a value is its first two bytes, `00` or `02`, with something behind them; a
/// cipher is found by these versions and by no other.
pub proof fn law_versions_are_two_digits(v: Seq<u8>, version: Seq<char>)
    ensures
        password_security::cipher_of_value(v) == Some(Cipher::Uuid) <==> v.len() > 2 && v[0] == 48
            && v[1] == 48,
        password_security::cipher_of_value(v) == Some(Cipher::User) <==> v.len() > 2 && v[0] == 48
            && v[1] == 50,
        password_security::cipher_of_version(version) == Some(Cipher::Uuid) <==> version
            == seq!['0', '0'],
        password_security::cipher_of_version(version) == Some(Cipher::User) <==> version
            == seq!['0', '2'],
        password_security::cipher_version(Cipher::Uuid) == seq!['0', '0'],
        password_security::cipher_version(Cipher::User) == seq!['0', '2'],
{
    lemma_prefix(v);
    reveal_strlit("00");
    reveal_strlit("02");
    assert("00"@ =~= seq!['0', '0']);
    assert("02"@ =~= seq!['0', '2']);
    assert(seq!['0', '0'][1] != seq!['0', '2'][1]);
}

/// However it is decoded, a value looks encrypted where it has a version and a payload of the right
/// shape, and it does not where it has none.
pub proof fn law_looks_go_by_version_and_shape(
    v: Seq<u8>,
    is_string: bool,
    decoded: Option<Seq<u8>>,
)
    requires
        password_security::value_decodes_to(v, is_string, decoded),
    ensures
        reads_as_encrypted(v, is_string) ==> password_security::looks_encrypted(
            v,
            is_string,
            decoded,
        ),
        reads_as_plain(v, is_string) ==> !password_security::looks_encrypted(
            v,
            is_string,
            decoded,
        ),
{
    lemma_prefix(v);
    if v.len() > 2 {
        let payload = v.skip(2);
        if reads_as_encrypted(v, is_string) && (v[1] == 48 || is_string) {
            let data = if v[1] == 48 {
                choose|data: Seq<u8>|
                    #[trigger] base64::base64(data) == v.skip(2) && data.len() >= 16
            } else {
                choose|data: Seq<u8>|
                    #[trigger] base64::base64(data) == v.skip(2)
                        && secret_store::magic_header().is_prefix_of(data)
            };
            base64::law_decode_inverts_encode(data, decoded);
        }
        if let Some(data) = decoded {
            if base64::is_ascii(payload) && v[0] == 48 && (v[1] == 48 || v[1] == 50) {
                assert(base64::base64(data) == payload || v[1] == 50 && !is_string);
            }
        }
    }
}

/// A cipher's payload for data under a nonce, where the user's account can encrypt: header, nonce
/// and sealed data, as base64 text for a text.
proof fn lemma_user_payload(
    data: Seq<u8>,
    is_string: bool,
    c: password_security::CryptView,
    nonce: Seq<u8>,
)
    requires
        !(c.platform is Windows),
        c.master_key matches Some(key) && key.len() == 32,
    ensures
        password_security::cipher_encrypted(Cipher::User, c, data, is_string, nonce) == Ok::<
            Seq<u8>,
            CryptError,
        >(
            if is_string {
                base64::base64(
                    secret_store::magic_header() + (nonce + secretbox::sealed(
                        data,
                        nonce,
                        c.master_key->0,
                    )),
                )
            } else {
                secret_store::magic_header() + (nonce + secretbox::sealed(
                    data,
                    nonce,
                    c.master_key->0,
                ))
            },
        ),
{
}

/// On every platform but Windows, with a master key of thirty-two bytes, a plain value that is not
/// empty and not too long becomes in version `02` the bytes `02` and then header, nonce and sealed
/// value; for a text these are written in base64.
pub proof fn law_account_encrypts_with_the_master_key(
    v: Seq<u8>,
    len: nat,
    max_len: usize,
    is_string: bool,
    c: password_security::CryptView,
    key: Seq<u8>,
    out: Seq<u8>,
) -> (nonce: Seq<u8>)
    requires
        reads_as_plain(v, is_string),
        v.len() > 0,
        len <= max_len,
        c.platform is Linux || c.platform is MacOs || c.platform is Android || c.platform is Ios,
        c.master_key == Some(key),
        key.len() == 32,
        password_security::value_encrypts_to(v, len, "02"@, max_len, is_string, c, out),
    ensures
        nonce.len() == 24,
        out.len() > 2,
        out[0] == 48,
        out[1] == 50,
        is_string ==> out.skip(2) == base64::base64(
            secret_store::magic_header() + (nonce + secretbox::sealed(v, nonce, key)),
        ),
        !is_string ==> out.skip(2) == secret_store::magic_header() + (nonce + secretbox::sealed(
            v,
            nonce,
            key,
        )),
{
    password_security::lemma_versions();
    let (nonce, decoded) = choose|nonce: Seq<u8>, decoded: Option<Seq<u8>>|
        nonce.len() == 24 && password_security::value_decodes_to(v, is_string, decoded)
            && #[trigger] password_security::encrypted_to(
            v,
            len,
            "02"@,
            max_len,
            is_string,
            c,
            nonce,
            decoded,
            out,
        );
    law_looks_go_by_version_and_shape(v, is_string, decoded);
    lemma_user_payload(v, is_string, c, nonce);
    let data = secret_store::magic_header() + (nonce + secretbox::sealed(v, nonce, key));
    base64::law_base64_text(data);
    let payload = if is_string {
        base64::base64(data)
    } else {
        data
    };
    assert(out == password_security::version_bytes(Cipher::User) + payload);
    assert(out.skip(2) =~= payload);
    nonce
}

/// On Windows, with what the Data Protection API made of the value, it becomes in version `02` the
/// bytes `02` and then the header and that; for a text these are written in base64.
pub proof fn law_account_encrypts_on_windows(
    v: Seq<u8>,
    len: nat,
    max_len: usize,
    is_string: bool,
    c: password_security::CryptView,
    protected: Seq<u8>,
    out: Seq<u8>,
)
    requires
        reads_as_plain(v, is_string),
        v.len() > 0,
        len <= max_len,
        c.platform is Windows,
        c.protected == Some(protected),
        password_security::value_encrypts_to(v, len, "02"@, max_len, is_string, c, out),
    ensures
        out.len() > 2,
        out[0] == 48,
        out[1] == 50,
        is_string ==> out.skip(2) == base64::base64(secret_store::magic_header() + protected),
        !is_string ==> out.skip(2) == secret_store::magic_header() + protected,
{
    password_security::lemma_versions();
    let (nonce, decoded) = choose|nonce: Seq<u8>, decoded: Option<Seq<u8>>|
        nonce.len() == 24 && password_security::value_decodes_to(v, is_string, decoded)
            && #[trigger] password_security::encrypted_to(
            v,
            len,
            "02"@,
            max_len,
            is_string,
            c,
            nonce,
            decoded,
            out,
        );
    law_looks_go_by_version_and_shape(v, is_string, decoded);
    let data = secret_store::magic_header() + protected;
    base64::law_base64_text(data);
    let payload = if is_string {
        base64::base64(data)
    } else {
        data
    };
    assert(out == password_security::version_bytes(Cipher::User) + payload);
    assert(out.skip(2) =~= payload);
}

/// In version `00`, and in version `02` where the user's account cannot encrypt, a plain value that
/// is not empty and not too long becomes the bytes `00` and then the base64 text of the value sealed
/// under the machine's identity. The account cannot encrypt without what the Data Protection API
/// makes on Windows, and elsewhere without a master key of thirty-two bytes.
pub proof fn law_machine_encrypts_with_its_identity(
    v: Seq<u8>,
    len: nat,
    version: Seq<char>,
    max_len: usize,
    is_string: bool,
    c: password_security::CryptView,
    out: Seq<u8>,
)
    requires
        reads_as_plain(v, is_string),
        v.len() > 0,
        len <= max_len,
        version == "00"@ || version == "02"@ && !(match c.platform {
            Platform::Windows => c.protected is Some,
            _ => c.master_key matches Some(key) && key.len() == 32,
        }),
        password_security::value_encrypts_to(v, len, version, max_len, is_string, c, out),
    ensures
        out.len() > 2,
        out[0] == 48,
        out[1] == 48,
        out.skip(2) == base64::base64(
            secretbox::sealed(
                v,
                Seq::new(24, |i: int| 0u8),
                Seq::new(
                    32,
                    |i: int|
                        if i < c.uuid.len() {
                            c.uuid[i]
                        } else {
                            0u8
                        },
                ),
            ),
        ),
{
    password_security::lemma_versions();
    let (nonce, decoded) = choose|nonce: Seq<u8>, decoded: Option<Seq<u8>>|
        nonce.len() == 24 && password_security::value_decodes_to(v, is_string, decoded)
            && #[trigger] password_security::encrypted_to(
            v,
            len,
            version,
            max_len,
            is_string,
            c,
            nonce,
            decoded,
            out,
        );
    law_looks_go_by_version_and_shape(v, is_string, decoded);
    let key = Seq::new(
        32,
        |i: int|
            if i < c.uuid.len() {
                c.uuid[i]
            } else {
                0u8
            },
    );
    assert(password_security::padded_key(c.uuid) =~= key);
    assert(password_security::zero_nonce() =~= Seq::new(24, |i: int| 0u8));
    let payload = base64::base64(password_security::uuid_encrypted(c, v));
    assert(out == password_security::version_bytes(Cipher::Uuid) + payload);
    assert(password_security::stored_well(out, v, is_string, c));
    assert(out.skip(2) =~= payload);
    assert(out[0] == 48 && out[1] == 48);
}

/// A value that is empty or reads as encrypted is stored as it is, in whichever version and however
/// long it is, and so is a plain one in a version that is not known. A plain value that is too long
/// is not stored at all.
pub proof fn law_some_values_are_not_encrypted(
    v: Seq<u8>,
    len: nat,
    version: Seq<char>,
    max_len: usize,
    is_string: bool,
    c: password_security::CryptView,
    out: Seq<u8>,
)
    requires
        password_security::value_encrypts_to(v, len, version, max_len, is_string, c, out),
    ensures
        v.len() == 0 || reads_as_encrypted(v, is_string) ==> out == v,
        len <= max_len && version != "00"@ && version != "02"@ ==> out == v,
        v.len() > 0 && reads_as_plain(v, is_string) && len > max_len ==> out.len() == 0,
{
    let (nonce, decoded) = choose|nonce: Seq<u8>, decoded: Option<Seq<u8>>|
        nonce.len() == 24 && password_security::value_decodes_to(v, is_string, decoded)
            && #[trigger] password_security::encrypted_to(
            v,
            len,
            version,
            max_len,
            is_string,
            c,
            nonce,
            decoded,
            out,
        );
    law_looks_go_by_version_and_shape(v, is_string, decoded);
}

/// What a value of version `00` is opened with: the machine's identity or, on a desktop, the public
/// key that the installation has instead.
proof fn lemma_opened_by_identity(c: password_security::CryptView, sealed: Seq<u8>)
    ensures
        password_security::uuid_decrypted(c, sealed) == (match secretbox::opened(
            sealed,
            password_security::zero_nonce(),
            password_security::padded_key(c.uuid),
        ) {
            Some(message) => Some(message),
            None => match (c.platform, c.existing_pk) {
                (Platform::Android, _) => None,
                (Platform::Ios, _) => None,
                (_, None) => None,
                (_, Some(pk)) => if pk == c.uuid {
                    None
                } else {
                    secretbox::opened(
                        sealed,
                        password_security::zero_nonce(),
                        password_security::padded_key(pk),
                    )
                },
            },
        }),
{
}

/// Bytes of version `00` are read with the machine's identity or, on a desktop, with the public key
/// that the installation has instead; what neither opens comes back as it is. What was read should
/// be stored anew in another version, for version `02` only where the user's account can encrypt;
/// what was not read should be only where it is too short to be encrypted.
pub proof fn law_identity_reads_bytes(
    v: Seq<u8>,
    sealed: Seq<u8>,
    current: Seq<char>,
    c: password_security::CryptView,
    data: Seq<u8>,
    success: bool,
    store: bool,
)
    requires
        v.len() > 2,
        v[0] == 48,
        v[1] == 48,
        base64::base64(sealed) == v.skip(2),
        password_security::bytes_decrypt_to(v, current, c, data, success, store),
    ensures
        match secretbox::opened(
            sealed,
            password_security::zero_nonce(),
            password_security::padded_key(c.uuid),
        ) {
            Some(message) => success && data == message,
            None => if !(c.platform is Android) && !(c.platform is Ios) && (
            c.existing_pk matches Some(pk) && pk != c.uuid && secretbox::opened(
                sealed,
                password_security::zero_nonce(),
                password_security::padded_key(pk),
            ) is Some) {
                success && Some(data) == secretbox::opened(
                    sealed,
                    password_security::zero_nonce(),
                    password_security::padded_key(c.existing_pk->0),
                )
            } else {
                !success && data == v
            },
        },
        success ==> store == (current != "00"@ && (current == "02"@ ==> (match c.platform {
            Platform::Windows => c.protected is Some,
            _ => c.master_key matches Some(key) && key.len() == 32,
        }))),
        !success ==> store == (sealed.len() < 16),
{
    lemma_prefix(v);
    let decoded = choose|decoded: Option<Seq<u8>>|
        #[trigger] password_security::value_decodes_to(v, false, decoded) && (
        match password_security::value_decrypted(v, false, c, decoded) {
            Some(message) => data == message && success,
            None => data == v && !success,
        }) && store == password_security::store_after_read(v, false, current, c, decoded) && (
        success ==> password_security::looks_encrypted(v, false, decoded));
    base64::law_decode_inverts_encode(sealed, decoded);
    lemma_opened_by_identity(c, sealed);
}

/// A text of version `00` is read with the machine's identity or, on a desktop, with the public key
/// that the installation has instead; what neither opens comes back as it is. It should be stored
/// anew where bytes should be.
pub proof fn law_identity_reads_text(
    s: Seq<char>,
    sealed: Seq<u8>,
    current: Seq<char>,
    c: password_security::CryptView,
    text: Seq<char>,
    success: bool,
    store: bool,
)
    requires
        vstd::utf8::encode_utf8(s).len() > 2,
        vstd::utf8::encode_utf8(s)[0] == 48,
        vstd::utf8::encode_utf8(s)[1] == 48,
        base64::base64(sealed) == vstd::utf8::encode_utf8(s).skip(2),
        password_security::text_decrypts_to(s, current, c, text, success, store),
    ensures
        match secretbox::opened(
            sealed,
            password_security::zero_nonce(),
            password_security::padded_key(c.uuid),
        ) {
            Some(message) => success && text == text::text_of(message),
            None => if !(c.platform is Android) && !(c.platform is Ios) && (
            c.existing_pk matches Some(pk) && pk != c.uuid && secretbox::opened(
                sealed,
                password_security::zero_nonce(),
                password_security::padded_key(pk),
            ) is Some) {
                success && text == text::text_of(
                    secretbox::opened(
                        sealed,
                        password_security::zero_nonce(),
                        password_security::padded_key(c.existing_pk->0),
                    )->0,
                )
            } else {
                !success && text == s
            },
        },
        success ==> store == (current != "00"@ && (current == "02"@ ==> (match c.platform {
            Platform::Windows => c.protected is Some,
            _ => c.master_key matches Some(key) && key.len() == 32,
        }))),
        !success ==> store == (sealed.len() < 16),
{
    let v = vstd::utf8::encode_utf8(s);
    lemma_prefix(v);
    let decoded = choose|decoded: Option<Seq<u8>>|
        #[trigger] password_security::value_decodes_to(v, true, decoded) && (
        match password_security::value_decrypted(v, true, c, decoded) {
            Some(message) => text == text::text_of(message) && success,
            None => text == s && !success,
        }) && store == password_security::store_after_read(v, true, current, c, decoded) && (success
            ==> password_security::looks_encrypted(v, true, decoded));
    base64::law_decode_inverts_encode(sealed, decoded);
    lemma_opened_by_identity(c, sealed);
}

/// What the user's account makes of data that it has encrypted: without the header it is not its
/// own, and what is too short, lacks a proper key or does not open is refused, each in its way. On
/// Windows the Data Protection API decides.
pub proof fn law_account_reads_its_own(data: Seq<u8>, c: password_security::CryptView)
    ensures
        !secret_store::magic_header().is_prefix_of(data) ==> password_security::user_decrypted(
            c,
            data,
        ) == Err::<Seq<u8>, CryptError>(CryptError::InvalidData),
        secret_store::magic_header().is_prefix_of(data) && c.platform is Windows
            ==> password_security::user_decrypted(c, data) == (match c.unprotected {
            Some(message) => Ok::<Seq<u8>, CryptError>(message),
            None => Err(CryptError::DecryptionFailed),
        }),
        secret_store::magic_header().is_prefix_of(data) && !(c.platform is Windows) && data.len()
            < 16 + 24 + 16 ==> password_security::user_decrypted(c, data) == Err::<
            Seq<u8>,
            CryptError,
        >(CryptError::InvalidData),
        secret_store::magic_header().is_prefix_of(data) && !(c.platform is Windows) && data.len()
            >= 16 + 24 + 16 ==> password_security::user_decrypted(c, data) == (match c.master_key {
            None => Err::<Seq<u8>, CryptError>(CryptError::DecryptionFailed),
            Some(key) => if key.len() != 32 {
                Err(CryptError::InvalidData)
            } else {
                match secretbox::opened(data.skip(40), data.subrange(16, 40), key) {
                    Some(message) => Ok(message),
                    None => Err(CryptError::DecryptionFailed),
                }
            },
        }),
{
    if secret_store::magic_header().is_prefix_of(data) && data.len() >= 56 {
        let rest = data.skip(16);
        assert(rest.take(24) =~= data.subrange(16, 40));
        assert(rest.skip(24) =~= data.skip(40));
    }
}

/// What the user's account makes of data to be encrypted: on every platform but Windows header, nonce
/// and sealed data, as long as there is a master key of thirty-two bytes; on Windows the header and
/// what the Data Protection API made of the data. Without these it fails, each in its way.
pub proof fn law_account_writes_its_own(
    data: Seq<u8>,
    c: password_security::CryptView,
    out: Result<Seq<u8>, CryptError>,
) -> (nonce: Seq<u8>)
    requires
        password_security::data_encrypts_to(data, c, out),
    ensures
        nonce.len() == 24,
        c.platform is Windows ==> out == (match c.protected {
            Some(protected) => Ok::<Seq<u8>, CryptError>(
                secret_store::magic_header() + protected,
            ),
            None => Err(CryptError::EncryptionFailed),
        }),
        c.platform is Linux || c.platform is MacOs || c.platform is Android || c.platform is Ios
            ==> out == (match c.master_key {
            None => Err::<Seq<u8>, CryptError>(CryptError::EncryptionFailed),
            Some(key) => if key.len() != 32 {
                Err(CryptError::InvalidData)
            } else {
                Ok(secret_store::magic_header() + (nonce + secretbox::sealed(data, nonce, key)))
            },
        }),
{
    choose|nonce: Seq<u8>|
        nonce.len() == 24 && out == #[trigger] password_security::user_encrypted(c, data, nonce)
}

/// What the machine's identity makes of data, and what it makes of it again: the data sealed under
/// it, and what it opens or, on a desktop, what the public key of the installation opens instead.
pub proof fn law_identity_seals_and_opens(data: Seq<u8>, c: password_security::CryptView)
    ensures
        password_security::uuid_encrypted(c, data) == secretbox::sealed(
            data,
            password_security::zero_nonce(),
            password_security::padded_key(c.uuid),
        ),
        secretbox::opened(
            data,
            password_security::zero_nonce(),
            password_security::padded_key(c.uuid),
        ) matches Some(message) ==> password_security::uuid_decrypted(c, data) == Some(message),
        secretbox::opened(
            data,
            password_security::zero_nonce(),
            password_security::padded_key(c.uuid),
        ) is None ==> {
            &&& c.platform is Android || c.platform is Ios || c.existing_pk is None || c.existing_pk
                == Some(c.uuid) ==> password_security::uuid_decrypted(c, data) is None
            &&& (c.platform is Windows || c.platform is Linux || c.platform is MacOs) && (
            c.existing_pk matches Some(pk) && pk != c.uuid) ==> password_security::uuid_decrypted(
                c,
                data,
            ) == secretbox::opened(
                data,
                password_security::zero_nonce(),
                password_security::padded_key(c.existing_pk->0),
            )
        },
{
}

/// Bytes of version `02` are read by the user's account where they begin with its header and it can
/// decrypt what follows; they should be stored anew in another version. What it cannot decrypt comes
/// back as it is and is left alone; bytes without the header are plain and should be stored.
pub proof fn law_account_reads_bytes(
    v: Seq<u8>,
    current: Seq<char>,
    c: password_security::CryptView,
    data: Seq<u8>,
    success: bool,
    store: bool,
)
    requires
        v.len() > 2,
        v[0] == 48,
        v[1] == 50,
        password_security::bytes_decrypt_to(v, current, c, data, success, store),
    ensures
        success <==> password_security::user_decrypted(c, v.skip(2)) is Ok,
        success ==> data == password_security::user_decrypted(c, v.skip(2))->Ok_0 && store == (
        current != "02"@),
        !success ==> data == v && store == !secret_store::magic_header().is_prefix_of(v.skip(2)),
{
    lemma_prefix(v);
}

/// A text of version `02` is read by the user's account where it is the base64 text of something
/// that begins with the header and that it can decrypt; it should be stored anew where bytes should
/// be. A text that is the base64 text of nothing is plain.
pub proof fn law_account_reads_text(
    s: Seq<char>,
    payload: Option<Seq<u8>>,
    current: Seq<char>,
    c: password_security::CryptView,
    text: Seq<char>,
    success: bool,
    store: bool,
)
    requires
        vstd::utf8::encode_utf8(s).len() > 2,
        vstd::utf8::encode_utf8(s)[0] == 48,
        vstd::utf8::encode_utf8(s)[1] == 50,
        match payload {
            Some(data) => base64::base64(data) == vstd::utf8::encode_utf8(s).skip(2),
            None => base64::is_ascii(vstd::utf8::encode_utf8(s).skip(2)) && forall|data: Seq<u8>|
                #[trigger] base64::base64(data) != vstd::utf8::encode_utf8(s).skip(2),
        },
        password_security::text_decrypts_to(s, current, c, text, success, store),
    ensures
        success <==> (payload matches Some(data) && password_security::user_decrypted(
            c,
            data,
        ) is Ok),
        success ==> text == text::text_of(
            password_security::user_decrypted(c, payload->0)->Ok_0,
        ) && store == (current != "02"@),
        !success ==> text == s && store == !(payload matches Some(data)
            && secret_store::magic_header().is_prefix_of(data)),
{
    let v = vstd::utf8::encode_utf8(s);
    lemma_prefix(v);
    let decoded = choose|decoded: Option<Seq<u8>>|
        #[trigger] password_security::value_decodes_to(v, true, decoded) && (
        match password_security::value_decrypted(v, true, c, decoded) {
            Some(message) => text == text::text_of(message) && success,
            None => text == s && !success,
        }) && store == password_security::store_after_read(v, true, current, c, decoded) && (success
            ==> password_security::looks_encrypted(v, true, decoded));
    if let Some(data) = payload {
        base64::law_decode_inverts_encode(data, decoded);
    } else {
        assert(decoded is None);
    }
}

/// What reads as plain comes back as it is, whatever the keys are, and should be stored unless it is
/// empty.
pub proof fn law_plain_values_come_back(
    v: Seq<u8>,
    s: Seq<char>,
    current: Seq<char>,
    c: password_security::CryptView,
    data: Seq<u8>,
    text: Seq<char>,
    success: (bool, bool),
    store: (bool, bool),
)
    requires
        reads_as_plain(v, false),
        reads_as_plain(vstd::utf8::encode_utf8(s), true),
        password_security::bytes_decrypt_to(v, current, c, data, success.0, store.0),
        password_security::text_decrypts_to(s, current, c, text, success.1, store.1),
    ensures
        data == v && !success.0 && store.0 == (v.len() > 0),
        text == s && !success.1 && store.1 == (s.len() > 0),
{
    let bytes = vstd::utf8::encode_utf8(s);
    assert forall|decoded: Option<Seq<u8>>| #[trigger]
        password_security::value_decodes_to(v, false, decoded) implies !password_security::looks_encrypted(
        v,
        false,
        decoded,
    ) by {
        law_looks_go_by_version_and_shape(v, false, decoded);
    }
    assert forall|decoded: Option<Seq<u8>>| #[trigger]
        password_security::value_decodes_to(bytes, true, decoded) implies !password_security::looks_encrypted(
        bytes,
        true,
        decoded,
    ) by {
        law_looks_go_by_version_and_shape(bytes, true, decoded);
    }
    password_security::law_plain_bytes_come_back(v, current, c, data, success.0, store.0);
    password_security::law_plain_text_comes_back(s, current, c, text, success.1, store.1);
}

/// A value that was decrypted should be stored anew where its version is not the current one; where
/// version `02` is current, only if the user's account can encrypt, which it can with what the Data
/// Protection API made on Windows, and elsewhere with a master key of thirty-two bytes.
pub proof fn law_values_are_stored_in_the_current_version(
    version: Seq<char>,
    current: Seq<char>,
    c: password_security::CryptView,
)
    ensures
        version == current ==> !password_security::store_wanted(version, current, c),
        version != current && current != "02"@ ==> password_security::store_wanted(
            version,
            current,
            c,
        ),
        version != current && current == "02"@ ==> password_security::store_wanted(
            version,
            current,
            c,
        ) == (match c.platform {
            Platform::Windows => c.protected is Some,
            _ => c.master_key matches Some(key) && key.len() == 32,
        }),
        password_security::user_scope_available(c) == (match c.platform {
            Platform::Windows => c.protected is Some,
            _ => c.master_key matches Some(key) && key.len() == 32,
        }),
{
}

/// A file to be synchronised is encrypted, and not refused, on every platform but Windows and Android
/// where there is a master key of thirty-two bytes, however long or short it is; on Windows where the
/// Data Protection API has encrypted it. Without these it is refused.
pub proof fn law_account_encrypts_files(
    data: Seq<u8>,
    max_len: usize,
    c: password_security::CryptView,
    out: Option<Seq<u8>>,
) -> (nonce: Seq<u8>)
    requires
        !(c.platform is Android),
        password_security::file_encrypts_to(data, max_len, c, out),
    ensures
        nonce.len() == 24,
        c.platform is Windows ==> out == (match c.protected {
            Some(protected) => Some(secret_store::magic_header() + protected),
            None => None,
        }),
        c.platform is Linux || c.platform is MacOs || c.platform is Ios ==> out == (
        match c.master_key {
            Some(key) => if key.len() == 32 {
                Some(secret_store::magic_header() + (nonce + secretbox::sealed(data, nonce, key)))
            } else {
                None
            },
            None => None,
        }),
{
    choose|nonce: Seq<u8>|
        nonce.len() == 24 && out == (match #[trigger] password_security::user_encrypted(
            c,
            data,
            nonce,
        ) {
            Ok(payload) => Some(payload),
            Err(_) => None,
        })
}

/// On Android a file to be synchronised becomes a value of version `00`, whatever keys there are,
/// unless it is empty, too long or reads as encrypted, in which case it is refused.
pub proof fn law_machine_encrypts_files_on_android(
    data: Seq<u8>,
    max_len: usize,
    c: password_security::CryptView,
    out: Option<Seq<u8>>,
)
    requires
        c.platform is Android,
        password_security::file_encrypts_to(data, max_len, c, out),
    ensures
        data.len() == 0 || data.len() > max_len || reads_as_encrypted(data, false) ==> out is None,
        0 < data.len() <= max_len && reads_as_plain(data, false) ==> out == Some(
            seq![48u8, 48u8] + base64::base64(
                secretbox::sealed(
                    data,
                    password_security::zero_nonce(),
                    password_security::padded_key(c.uuid),
                ),
            ),
        ),
{
    let decoded = choose|decoded: Option<Seq<u8>>|
        #[trigger] password_security::value_decodes_to(data, false, decoded) && out == (
        if !password_security::looks_encrypted(data, false, decoded) && 0 < data.len() <= max_len {
            Some(
                password_security::version_bytes(Cipher::Uuid) + base64::base64(
                    password_security::uuid_encrypted(c, data),
                ),
            )
        } else {
            None
        });
    law_looks_go_by_version_and_shape(data, false, decoded);
}

/// A file that was synchronised is read by the user's account; on Android it is read as stored bytes
/// are. What cannot be read is refused.
pub proof fn law_files_are_read_as_they_were_written(
    file: Seq<u8>,
    c: password_security::CryptView,
    out: Option<Seq<u8>>,
    data: Seq<u8>,
    success: bool,
    store: bool,
)
    requires
        password_security::file_decrypts_to(file, c, out),
        c.platform is Android ==> password_security::bytes_decrypt_to(
            file,
            "00"@,
            c,
            data,
            success,
            store,
        ),
        c.platform is Android ==> reads_as_encrypted(file, false) || reads_as_plain(file, false),
    ensures
        !(c.platform is Android) ==> out == (match password_security::user_decrypted(c, file) {
            Ok(message) => Some(message),
            Err(_) => None,
        }),
        c.platform is Android ==> out == (if success {
            Some(data)
        } else {
            None
        }),
{
    if c.platform is Android {
        let first = choose|decoded: Option<Seq<u8>>|
            #[trigger] password_security::sync_file_decodes_to(file, c, decoded) && out
                == password_security::sync_file_decrypted(file, c, decoded) && (out is Some
                ==> password_security::looks_encrypted(file, false, decoded));
        let second = choose|decoded: Option<Seq<u8>>|
            #[trigger] password_security::value_decodes_to(file, false, decoded) && (
            match password_security::value_decrypted(file, false, c, decoded) {
                Some(message) => data == message && success,
                None => data == file && !success,
            }) && store == password_security::store_after_read(file, false, "00"@, c, decoded) && (
            success ==> password_security::looks_encrypted(file, false, decoded));
        law_looks_go_by_version_and_shape(file, false, first);
        law_looks_go_by_version_and_shape(file, false, second);
        lemma_prefix(file);
        if reads_as_encrypted(file, false) {
            if file[1] == 48 {
                let x = choose|x: Seq<u8>|
                    #[trigger] base64::base64(x) == file.skip(2) && x.len() >= 16;
                base64::law_decode_inverts_encode(x, first);
                base64::law_decode_inverts_encode(x, second);
            }
        }
    }
}

/// What the user's account is asked for: to encrypt a value, only where one is encrypted in version
/// `02`; to decrypt one, its payload behind the header, or to encrypt anew what the machine's
/// identity has read, where version `02` is current.
pub proof fn law_account_is_asked_only_where_needed(
    v: Seq<u8>,
    len: nat,
    version: Seq<char>,
    max_len: usize,
    is_string: bool,
    c: password_security::CryptView,
    decoded: Option<Seq<u8>>,
)
    requires
        password_security::value_decodes_to(v, is_string, decoded),
    ensures
        reads_as_plain(v, is_string) ==> (password_security::encrypting_takes_user_scope(
            v,
            len,
            version,
            max_len,
            is_string,
            decoded,
        ) <==> v.len() > 0 && len <= max_len && version == "02"@),
        reads_as_encrypted(v, is_string) ==> !password_security::encrypting_takes_user_scope(
            v,
            len,
            version,
            max_len,
            is_string,
            decoded,
        ),
        v.len() <= 2 || v[0] != 48 || (v[1] != 48 && v[1] != 50)
            ==> password_security::value_user_scope(v, is_string, version, c, decoded) is NotNeeded,
        v.len() > 2 && v[0] == 48 && v[1] == 48 ==> password_security::value_user_scope(
            v,
            is_string,
            version,
            c,
            decoded,
        ) == (match password_security::value_decrypted(v, is_string, c, decoded) {
            Some(message) => if version == "02"@ {
                password_security::UserScopeView::Encrypt(message)
            } else {
                password_security::UserScopeView::NotNeeded
            },
            None => password_security::UserScopeView::NotNeeded,
        }),
        v.len() > 2 && v[0] == 48 && v[1] == 50 && !is_string
            ==> password_security::value_user_scope(v, is_string, version, c, decoded) == (
        if secret_store::magic_header().is_prefix_of(v.skip(2)) && (c.platform is Windows
            || v.len() >= 2 + 16 + 24 + 16) {
            password_security::UserScopeView::Decrypt(v.skip(18))
        } else {
            password_security::UserScopeView::NotNeeded
        }),
        v.len() > 2 && v[0] == 48 && v[1] == 50 && is_string
            ==> password_security::value_user_scope(v, is_string, version, c, decoded) == (
        if decoded matches Some(data) && secret_store::magic_header().is_prefix_of(data) && (
        c.platform is Windows || data.len() >= 16 + 24 + 16) {
            password_security::UserScopeView::Decrypt(decoded->0.skip(16))
        } else {
            password_security::UserScopeView::NotNeeded
        }),
{
    lemma_prefix(v);
    law_looks_go_by_version_and_shape(v, is_string, decoded);
    if v.len() > 18 {
        assert(v.skip(2).skip(16) =~= v.skip(18));
    }
    if v.len() > 2 && secret_store::magic_header().is_prefix_of(v.skip(2)) {
        assert(v.skip(2).len() >= 16);
        assert(v.skip(2).skip(16) =~= v.skip(18));
    }
}

/// What the user's account is asked for with data of its own: to encrypt all of it, or to decrypt
/// what stands behind the header. A file that is synchronised is such data, but on Android, where it
/// is read as bytes are that are kept in version `00`.
pub proof fn law_account_is_asked_for_its_data(
    data: Seq<u8>,
    c: password_security::CryptView,
    decoded: Option<Seq<u8>>,
)
    ensures
        password_security::data_user_scope(data, true, c)
            == password_security::UserScopeView::Encrypt(data),
        password_security::data_user_scope(data, false, c) == (
        if secret_store::magic_header().is_prefix_of(data) && (c.platform is Windows || data.len()
            >= 16 + 24 + 16) {
            password_security::UserScopeView::Decrypt(data.skip(16))
        } else {
            password_security::UserScopeView::NotNeeded
        }),
        !(c.platform is Android) ==> password_security::file_user_scope(data, c, decoded)
            == password_security::data_user_scope(data, false, c),
        c.platform is Android ==> password_security::file_user_scope(data, c, decoded)
            == password_security::value_user_scope(data, false, "00"@, c, decoded),
        !(c.platform is Android) ==> (password_security::sync_file_decodes_to(data, c, decoded)
            <==> decoded is None),
        c.platform is Android ==> (password_security::sync_file_decodes_to(data, c, decoded)
            <==> password_security::value_decodes_to(data, false, decoded)),
{
    law_header_has_sixteen_bytes();
}

/// What was encrypted can be read on the same machine; where the user's account has encrypted it,
/// with the same master key, and on Windows where the Data Protection API makes the data of it
/// again. The account encrypts in version `02` wherever it can, and every file but on Android.
pub proof fn law_readers_need_the_machine_and_the_key(
    version: Seq<char>,
    data: Seq<u8>,
    c: password_security::CryptView,
    d: password_security::CryptView,
)
    ensures
        password_security::can_read(password_security::Cipher::Uuid, data, c, d)
            <==> c.platform == d.platform && c.uuid == d.uuid && c.existing_pk == d.existing_pk,
        password_security::can_read(password_security::Cipher::User, data, c, d)
            <==> c.platform == d.platform && c.uuid == d.uuid && c.existing_pk == d.existing_pk && (
        if c.platform is Windows {
            d.unprotected == Some(data)
        } else {
            c.master_key == d.master_key
        }),
        password_security::chosen_cipher(version, c) is User <==> version == "02"@ && (
        if c.platform is Windows {
            c.protected is Some
        } else {
            c.master_key matches Some(key) && key.len() == 32
        }),
        password_security::file_cipher(c) is User <==> !(c.platform is Android),
{
}

} // verus!
