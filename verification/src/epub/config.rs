//! The configuration of the EPUB renderer.

use crate::config::{Config, FileIds, SharedConfig};
use uuid::Uuid;
use vstd::prelude::*;
use vstd::string::*;

verus! {

/// The lowercase hexadecimal digit of `d`.
pub open spec fn lower_hex(d: int) -> char {
    if d == 0 {
        '0'
    } else if d == 1 {
        '1'
    } else if d == 2 {
        '2'
    } else if d == 3 {
        '3'
    } else if d == 4 {
        '4'
    } else if d == 5 {
        '5'
    } else if d == 6 {
        '6'
    } else if d == 7 {
        '7'
    } else if d == 8 {
        '8'
    } else if d == 9 {
        '9'
    } else if d == 10 {
        'a'
    } else if d == 11 {
        'b'
    } else if d == 12 {
        'c'
    } else if d == 13 {
        'd'
    } else if d == 14 {
        'e'
    } else {
        'f'
    }
}

/// 16 to the power of `n`.
pub open spec fn sixteen_to(n: int) -> int
    decreases n,
{
    if n <= 0 {
        1
    } else {
        16 * sixteen_to(n - 1)
    }
}

/// The hexadecimal digits of a 128-bit value from place `from` up to place
/// `to`; the value has 32 places, the highest is place 0.
pub open spec fn uuid_digits(value: u128, from: int, to: int) -> Seq<char> {
    Seq::new(
        (to - from) as nat,
        |k: int| lower_hex(((value as int) / sixteen_to(31 - from - k)) % 16),
    )
}

/// The hyphenated lowercase text of the UUID with the 128-bit value
/// `value`: its 32 hexadecimal digits, the highest first, in groups of 8, 4,
/// 4, 4 and 12 with a hyphen between two groups.
pub open spec fn uuid_text(value: u128) -> Seq<char> {
    uuid_digits(value, 0, 8) + seq!['-'] + uuid_digits(value, 8, 12) + seq!['-'] + uuid_digits(
        value,
        12,
        16,
    ) + seq!['-'] + uuid_digits(value, 16, 20) + seq!['-'] + uuid_digits(value, 20, 32)
}

/// Makes a `uuid::Uuid` of `value` with `Uuid::from_u128`, which takes the
/// value's bytes from the highest on, and prints it, which gives the
/// hyphenated lowercase form that [`uuid_text`] writes out.
#[verifier::external_body]
fn uuid_string(value: u128) -> (text: String)
    ensures
        text@ == uuid_text(value),
{
    Uuid::from_u128(value).to_string()
}

/// The configuration of the EPUB renderer: the shared settings, and the
/// identifier of each package.
#[derive(Debug, Clone, PartialEq, Eq)]
pub struct EpubConfig {
    pub shared: SharedConfig,
    pub file_ids: FileIds<PackageId>,
}

impl Config for EpubConfig {
    open spec fn shared_settings(&self) -> SharedConfig {
        self.shared
    }

    fn shared(&self) -> (settings: &SharedConfig) {
        &self.shared
    }
}

impl Default for EpubConfig {
    fn default() -> (config: EpubConfig)
        ensures
            config.shared.output is None,
            config.shared.always_include@.len() == 0,
            !config.shared.save_temps,
            config.shared.output_files.full is None,
            config.shared.output_files.individual_files@.len() == 0,
            config.file_ids.full is None,
            config.file_ids.individual_files@.len() == 0,
    {
        EpubConfig { shared: SharedConfig::default(), file_ids: FileIds::default() }
    }
}

/// The keys with which a package is signed.
#[derive(Clone, Debug, Hash, PartialEq, Eq)]
pub struct SignatureKeyPair {
    pub private: String,
    pub public: SignaturePublicKey,
}

/// The public key of a signature, by the form it is given in.
#[derive(Clone, Debug, Hash, PartialEq, Eq)]
pub enum SignaturePublicKey {
    Regular(String),
    Pgp { pgp: String },
    Certificate { cert: String },
}

/// What identifies a package: a UUID, by its 128-bit value, an OID or an
/// ISBN.
#[derive(Clone, Debug, Hash, PartialEq, Eq)]
pub enum PackageId {
    Uuid { uuid: u128 },
    Oid { oid: String },
    Isbn { isbn: String },
}

impl PackageId {
    /// The identifier as a URN.
    pub open spec fn urn(&self) -> Seq<char> {
        match self {
            PackageId::Uuid { uuid } => "urn:uuid:"@ + uuid_text(*uuid),
            PackageId::Oid { oid } => "urn:oid:"@ + oid@,
            PackageId::Isbn { isbn } => "urn:isbn:"@ + isbn@,
        }
    }

    /// The identifier as a URN: `urn:uuid:`, `urn:oid:` or `urn:isbn:`
    /// before the identifier itself.
    pub fn to_string(&self) -> (text: String)
        ensures
            text@ == self.urn(),
    {
        match self {
            PackageId::Uuid { uuid } => {
                let mut text = String::from_str("urn:uuid:");
                let id = uuid_string(*uuid);
                text.append(id.as_str());
                text
            },
            PackageId::Oid { oid } => {
                let mut text = String::from_str("urn:oid:");
                text.append(oid.as_str());
                text
            },
            PackageId::Isbn { isbn } => {
                let mut text = String::from_str("urn:isbn:");
                text.append(isbn.as_str());
                text
            },
        }
    }
}

} // verus!
