//! Node identities: the text forms of secret keys and node IDs.
use crate::clock::ask;
use crate::text::{lemma_trimmed_unspaced, text_of, trim, trimmed, white_space};
use vstd::prelude::*;

verus! {

/// The errors of `iroh_base`'s key parsers, carried as they are.
#[verifier::external_type_specification]
#[verifier::external_body]
pub struct ExKeyParsingError(iroh_base::KeyParsingError);

/// The bytes of the node ID that `text` stands for; `None` where it stands for none.
pub uninterp spec fn node_id_of(text: Seq<char>) -> Option<Seq<u8>>;

/// The bytes of the secret key that `text` stands for; `None` where it stands for none.
pub uninterp spec fn secret_key_of(text: Seq<char>) -> Option<Seq<u8>>;

/// `iroh_base::NodeId::from_str` reads a public key from its hexadecimal or base32 form, and
/// fails where the text is neither or the bytes are no point of the curve. Which texts those are,
/// and which bytes they give, is named `node_id_of`; the claim is that the text alone decides.
#[verifier::external_body]
pub(crate) fn parse_node_id(text: &str) -> (r: Result<[u8; 32], iroh_base::KeyParsingError>)
    ensures
        match r {
            Ok(bytes) => node_id_of(text@) == Some(bytes@),
            Err(_) => node_id_of(text@) is None,
        },
{
    text.parse::<iroh_base::NodeId>().map(|id| *id.as_bytes())
}

/// `iroh_base::SecretKey::from_str` reads a secret key from its hexadecimal or base32 form. Which
/// texts are one, and which bytes they give, is named `secret_key_of`; the claim is that the text
/// alone decides.
#[verifier::external_body]
fn parse_secret_key(text: &str) -> (r: Result<[u8; 32], iroh_base::KeyParsingError>)
    ensures
        match r {
            Ok(bytes) => secret_key_of(text@) == Some(bytes@),
            Err(_) => secret_key_of(text@) is None,
        },
{
    text.parse::<iroh_base::SecretKey>().map(|key| key.to_bytes())
}

/// The lower-case hexadecimal digit of `n`.
pub open spec fn hex_digit(n: int) -> char {
    if n < 10 {
        ('0' as int + n) as char
    } else {
        ('a' as int + (n - 10)) as char
    }
}

/// Two lower-case hexadecimal digits for each byte, the high half first.
pub open spec fn hex_lower(bytes: Seq<u8>) -> Seq<char> {
    Seq::new(
        2 * bytes.len(),
        |i: int|
            hex_digit(
                if i % 2 == 0 {
                    bytes[i / 2] as int / 16
                } else {
                    bytes[i / 2] as int % 16
                },
            ),
    )
}

/// `iroh_base::SecretKey`'s `Display` writes the key's bytes in lower-case hexadecimal, a form
/// that `iroh_base::SecretKey::from_str` reads back to the same bytes.
#[verifier::external_body]
fn secret_key_text(key: &[u8; 32]) -> (text: String)
    ensures
        text@ == hex_lower(key@),
        secret_key_of(text@) == Some(key@),
{
    iroh_base::SecretKey::from_bytes(key).to_string()
}

/// `iroh_base::SecretKey::generate` makes a key from the randomness of the operating system, of
/// which nothing is known in advance.
#[verifier::external_body]
fn generate_secret_key() -> (key: [u8; 32]) {
    iroh_base::SecretKey::generate(&mut rand::rngs::OsRng).to_bytes()
}

/// Whether `key` is one that was made from the randomness of the operating system.
pub closed spec fn is_generated(key: [u8; 32]) -> bool {
    call_ensures(generate_secret_key, (), key)
}

/// Nothing but the call that makes a key gives a generated key.
proof fn lemma_generated_keys_come_from_generator(key: [u8; 32])
    ensures
        is_generated(key) ==> call_ensures(generate_secret_key, (), key),
{
}

/// `iroh_base::PublicKey`'s `Display` writes the node ID's bytes in lower-case hexadecimal, a form
/// that `iroh_base::NodeId::from_str` reads back to the same bytes. `iroh_base::NodeId::from_bytes`
/// fails for the bytes whose hexadecimal form is no node ID.
#[verifier::external_body]
fn node_id_text(id: &[u8; 32]) -> (r: Option<String>)
    ensures
        match r {
            Some(text) => text@ == hex_lower(id@) && node_id_of(text@) == Some(id@),
            None => node_id_of(hex_lower(id@)) is None,
        },
{
    iroh_base::NodeId::from_bytes(id).ok().map(|id| id.to_string())
}

/// The text by which others can call the node, if there is such a node: they get its ID back from
/// the text.
pub fn shared_text(id: [u8; 32]) -> (r: Option<String>)
    ensures
        match r {
            Some(text) => text@ == hex_lower(id@) && node_id_of(trimmed(text@)) == Some(id@),
            None => node_id_of(hex_lower(id@)) is None,
        },
{
    proof {
        lemma_hex_is_unspaced(id@);
    }
    node_id_text(&id)
}

/// Why an identity could not be loaded.
#[derive(Debug)]
pub enum IdentityError {
    /// The saved text is no secret key.
    Malformed(iroh_base::KeyParsingError),
}

/// A secret key, and the text to save where the key is new.
pub struct Identity {
    pub key: [u8; 32],
    pub to_save: Option<String>,
}

/// A key in hexadecimal has no white space to trim: hexadecimal digits are none.
pub proof fn lemma_hex_is_unspaced(bytes: Seq<u8>)
    ensures
        trimmed(hex_lower(bytes)) == hex_lower(bytes),
{
    assert forall|i: int| 0 <= i < hex_lower(bytes).len() implies !white_space(
        #[trigger] hex_lower(bytes)[i],
    ) by {
        let n = if i % 2 == 0 {
            bytes[i / 2] as int / 16
        } else {
            bytes[i / 2] as int % 16
        };
        assert(0 <= n < 16);
    }
    lemma_trimmed_unspaced(hex_lower(bytes));
}

/// The identity that a key read from the saved text gives; there is nothing to save then.
pub fn loaded_identity(parsed: Result<[u8; 32], iroh_base::KeyParsingError>) -> (r: Result<
    Identity,
    IdentityError,
>)
    ensures
        match parsed {
            Ok(key) => r == Ok::<Identity, IdentityError>(Identity { key, to_save: None }),
            Err(e) => r == Err::<Identity, IdentityError>(IdentityError::Malformed(e)),
        },
{
    match parsed {
        Ok(key) => Ok(Identity { key, to_save: None }),
        Err(e) => Err(IdentityError::Malformed(e)),
    }
}

/// The identity of a key that was just made: its text is to be saved, and gives the key back when
/// it is loaded.
pub fn created_identity(key: [u8; 32]) -> (r: Identity)
    ensures
        r.key == key,
        text_of(r.to_save) == Some(hex_lower(key@)),
        secret_key_of(trimmed(hex_lower(key@))) == Some(key@),
{
    let text = secret_key_text(&key);
    proof {
        lemma_hex_is_unspaced(key@);
    }
    Identity { key, to_save: Some(text) }
}

/// The secret key that the saved text holds, white space around it aside, or a new key and the
/// text to save for it where nothing was saved yet. Loading the text that is to be saved gives
/// the new key again.
pub fn load_or_create_secret_key(saved: Option<&str>) -> (r: Result<Identity, IdentityError>)
    ensures
        saved matches Some(text) ==> match r {
            Ok(identity) => secret_key_of(trimmed(text@)) == Some(identity.key@)
                && identity.to_save is None,
            Err(_) => secret_key_of(trimmed(text@)) is None,
        },
        saved is None ==> match r {
            Ok(identity) => text_of(identity.to_save) == Some(hex_lower(identity.key@))
                && secret_key_of(trimmed(hex_lower(identity.key@))) == Some(identity.key@),
            Err(_) => false,
        },
        saved is None ==> (r matches Ok(identity) ==> is_generated(identity.key)),
{
    match saved {
        Some(text) => {
            let hex = trim(text);
            loaded_identity(parse_secret_key(hex.as_str()))
        },
        None => {
            let key = ask(generate_secret_key);
            Ok(created_identity(key))
        },
    }
}

/// The hexadecimal form has two digits for each byte, from which the byte can be told: different
/// bytes have different forms.
pub proof fn lemma_hex_tells_bytes_apart(one: Seq<u8>, other: Seq<u8>)
    ensures
        hex_lower(one).len() == 2 * one.len(),
        hex_lower(one) == hex_lower(other) ==> one == other,
{
    if hex_lower(one) == hex_lower(other) {
        assert(hex_lower(one).len() == hex_lower(other).len());
        assert forall|i: int| 0 <= i < one.len() implies one[i] == other[i] by {
            assert(hex_lower(one)[2 * i] == hex_lower(other)[2 * i]);
            assert(hex_lower(one)[2 * i + 1] == hex_lower(other)[2 * i + 1]);
            assert(2 * i / 2 == i && (2 * i + 1) / 2 == i);
            lemma_digits_differ(one[i] as int / 16, other[i] as int / 16);
            lemma_digits_differ(one[i] as int % 16, other[i] as int % 16);
        }
        assert(one =~= other);
    }
}

proof fn lemma_digits_differ(m: int, n: int)
    requires
        0 <= m < 16,
        0 <= n < 16,
        hex_digit(m) == hex_digit(n),
    ensures
        m == n,
{
}

} // verus!
