//! Secrets as they come in: mnemonic phrases and account keys written in
//! bech32. The two codecs are outside code; what the library does with their
//! answers is verified here.

use vstd::prelude::*;
use crate::error::{Bech32Error, ControllerError, WalletError};

verus! {

/// The number of bytes of an account key.
pub const ACCOUNT_KEY_LENGTH: usize = 64;

/// The number of words of a mnemonic phrase.
#[derive(Clone, Copy, Debug, PartialEq, Eq)]
pub enum Type {
    Type12Words,
    Type15Words,
    Type18Words,
    Type21Words,
    Type24Words,
}

impl Type {
    pub open spec fn spec_words(&self) -> usize {
        match *self {
            Type::Type12Words => 12,
            Type::Type15Words => 15,
            Type::Type18Words => 18,
            Type::Type21Words => 21,
            Type::Type24Words => 24,
        }
    }

    /// How many words a phrase of this type has.
    #[verifier::when_used_as_spec(spec_words)]
    pub fn words(&self) -> (n: usize)
        ensures
            n == self.spec_words(),
    {
        match self {
            Type::Type12Words => 12,
            Type::Type15Words => 15,
            Type::Type18Words => 18,
            Type::Type21Words => 21,
            Type::Type24Words => 24,
        }
    }
}

/// The number of spaces in `text`.
pub open spec fn spaces(text: Seq<char>) -> nat
    decreases text.len(),
{
    if text.len() == 0 {
        0
    } else if text.last() == ' ' {
        1 + spaces(text.drop_last())
    } else {
        spaces(text.drop_last())
    }
}

/// Whether `phrase` is an English mnemonic: `Mnemonic::parse_in_normalized`
/// of the bip39 crate accepts it.
pub uninterp spec fn mnemonic_valid(phrase: Seq<char>) -> bool;

/// What `bech32::decode` makes of `text`: the human-readable part and the
/// data part as 5-bit values, or why the text is no bech32 string.
pub uninterp spec fn bech32_decoded(text: Seq<char>) -> Result<(Seq<char>, Seq<u8>), Bech32Error>;

/// The bytes that `Vec::<u8>::from_base32` regroups the 5-bit values `data`
/// into, or `None` where the bits left over are not zero padding.
pub uninterp spec fn base32_bytes(data: Seq<u8>) -> Option<Seq<u8>>;

/// Calls `bip39::Mnemonic::parse_in_normalized` with the English word list.
/// Trusted: the answer is what that parser says, which depends on the text
/// alone.
#[verifier::external_body]
fn parse_mnemonic(phrase: &str) -> (ok: bool)
    ensures
        ok == mnemonic_valid(phrase@),
{
    bip39::Mnemonic::parse_in_normalized(bip39::Language::English, phrase).is_ok()
}

/// Calls `bip39::Mnemonic::generate_in` with the English word list and writes
/// the words out with single spaces. Trusted: whatever entropy was drawn, the
/// phrase carries its checksum, so the parser accepts it, and it has as
/// many words as were asked for, none of which holds a space.
#[verifier::external_body]
fn generate_mnemonic(words: usize) -> (phrase: String)
    requires
        words == 12 || words == 15 || words == 18 || words == 21 || words == 24,
    ensures
        mnemonic_valid(phrase@),
        spaces(phrase@) + 1 == words,
{
    bip39::Mnemonic::generate_in(bip39::Language::English, words).unwrap().to_string()
}

/// Calls `bech32::decode`. Trusted: the answer depends on the text alone, and
/// every value of the data part is below 32.
#[verifier::external_body]
fn bech32_decode(text: &str) -> (res: Result<(String, Vec<u8>), Bech32Error>)
    ensures
        res matches Ok(d) ==> (bech32_decoded(text@) matches Ok(v) && v == (d.0@, d.1@)),
        res matches Ok(d) ==> forall|i: int| 0 <= i < d.1@.len() ==> d.1@[i] < 32,
        res matches Err(e) ==> (bech32_decoded(text@) matches Err(x) && x == e),
{
    match bech32::decode(text) {
        Ok((hrp, data)) => Ok((hrp, data.into_iter().map(|d| d.to_u8()).collect())),
        Err(bech32::Error::MissingSeparator) => Err(Bech32Error::MissingSeparator),
        Err(bech32::Error::InvalidChecksum) => Err(Bech32Error::InvalidChecksum),
        Err(bech32::Error::InvalidLength) => Err(Bech32Error::InvalidLength),
        Err(bech32::Error::InvalidChar(c)) => Err(Bech32Error::InvalidChar(c)),
        Err(bech32::Error::InvalidData(d)) => Err(Bech32Error::InvalidData(d)),
        Err(bech32::Error::InvalidPadding) => Err(Bech32Error::InvalidPadding),
        Err(bech32::Error::MixedCase) => Err(Bech32Error::MixedCase),
    }
}

/// Calls `Vec::<u8>::from_base32` of the bech32 crate. Trusted: the answer
/// depends on the values alone. The call fails only on bad padding.
#[verifier::external_body]
fn from_base32(data: &Vec<u8>) -> (res: Option<Vec<u8>>)
    requires
        forall|i: int| 0 <= i < data@.len() ==> data@[i] < 32,
    ensures
        res matches Some(bytes) ==> (base32_bytes(data@) matches Some(b) && b == bytes@),
        res is None ==> base32_bytes(data@) is None,
{
    let b32: Vec<bech32::u5> = data.iter().map(|d| bech32::u5::try_from_u8(*d).unwrap()).collect();
    <Vec<u8> as bech32::FromBase32>::from_base32(&b32).ok()
}

/// The first value of `data` that does not fit in 5 bits, if there is one.
pub open spec fn first_wide_value(data: Seq<u8>) -> Option<u8>
    decreases data.len(),
{
    if data.len() == 0 {
        None
    } else if data.first() > 31 {
        Some(data.first())
    } else {
        first_wide_value(data.drop_first())
    }
}

/// The bytes that 5-bit values stand for: a value that is too wide fails
/// first, then bad padding.
pub open spec fn base32_decoded(data: Seq<u8>) -> Result<Seq<u8>, Bech32Error> {
    match first_wide_value(data) {
        Some(value) => Err(Bech32Error::InvalidData(value)),
        None => match base32_bytes(data) {
            None => Err(Bech32Error::InvalidPadding),
            Some(bytes) => Ok(bytes),
        },
    }
}

/// The bytes that a decoded bech32 text stands for. The human-readable part
/// is left aside.
pub open spec fn decoded_bytes(decoded: Result<(Seq<char>, Seq<u8>), Bech32Error>) -> Result<
    Seq<u8>,
    ControllerError,
> {
    match decoded {
        Err(e) => Err(ControllerError::Bech32(e)),
        Ok((_, data)) => match base32_decoded(data) {
            Err(e) => Err(ControllerError::Bech32(e)),
            Ok(bytes) => Ok(bytes),
        },
    }
}

/// The bytes that a bech32 text stands for.
pub open spec fn bech32_bytes(text: Seq<char>) -> Result<Seq<u8>, ControllerError> {
    decoded_bytes(bech32_decoded(text))
}

/// Whether `phrase` is an English mnemonic with a matching checksum.
pub fn is_mnemonic(phrase: &str) -> (ok: bool)
    ensures
        ok == mnemonic_valid(phrase@),
{
    parse_mnemonic(phrase)
}

/// A fresh English mnemonic of the given number of words, with one space
/// between two words.
pub fn new_mnemonic(words_length: Type) -> (phrase: String)
    ensures
        mnemonic_valid(phrase@),
        spaces(phrase@) + 1 == words_length.words(),
{
    generate_mnemonic(words_length.words())
}

/// Regroups 5-bit values into bytes. A value above 31 is refused, and so are
/// bits left over that are not zero padding.
pub fn bytes_from_base32(data: &Vec<u8>) -> (res: Result<Vec<u8>, Bech32Error>)
    ensures
        res matches Ok(bytes) ==> (base32_decoded(data@) matches Ok(b) && b == bytes@),
        res matches Err(e) ==> (base32_decoded(data@) matches Err(x) && x == e),
{
    let n = data.len();
    let mut i: usize = 0;
    assert(data@.skip(0) =~= data@);
    while i < n
        invariant
            i <= n,
            n == data@.len(),
            first_wide_value(data@) == first_wide_value(data@.skip(i as int)),
            forall|j: int| 0 <= j < i ==> data@[j] < 32,
        decreases n - i,
    {
        assert(data@.skip(i as int).drop_first() =~= data@.skip(i + 1));
        if data[i] > 31 {
            return Err(Bech32Error::InvalidData(data[i]));
        }
        i += 1;
    }
    match from_base32(data) {
        None => Err(Bech32Error::InvalidPadding),
        Some(bytes) => Ok(bytes),
    }
}

/// The bytes of what a bech32 text was decoded to.
pub fn bytes_of_decoded(decoded: Result<(String, Vec<u8>), Bech32Error>) -> (res: Result<
    Vec<u8>,
    ControllerError,
>)
    ensures
        decoded matches Err(e) ==> (res matches Err(x) && x == ControllerError::Bech32(e)),
        decoded matches Ok(d) ==> (res matches Ok(bytes) ==> (base32_decoded(d.1@) matches Ok(b)
            && b == bytes@)),
        decoded matches Ok(d) ==> (res matches Err(x) ==> (base32_decoded(d.1@) matches Err(e)
            && x == ControllerError::Bech32(e))),
{
    match decoded {
        Err(e) => Err(ControllerError::Bech32(e)),
        Ok((_, data)) => match bytes_from_base32(&data) {
            Err(e) => Err(ControllerError::Bech32(e)),
            Ok(bytes) => Ok(bytes),
        },
    }
}

/// The bytes written in a bech32 text. The human-readable part is checked
/// and then left aside.
pub fn read_bech32(text: &str) -> (res: Result<Vec<u8>, ControllerError>)
    ensures
        res matches Ok(bytes) ==> (bech32_bytes(text@) matches Ok(b) && b == bytes@),
        res matches Err(e) ==> (bech32_bytes(text@) matches Err(x) && x == e),
{
    bytes_of_decoded(bech32_decode(text))
}

/// The account key that `bytes` holds: these bytes, if there are exactly 64.
pub open spec fn account_key(bytes: Seq<u8>) -> Result<Seq<u8>, WalletError> {
    if bytes.len() == ACCOUNT_KEY_LENGTH {
        Ok(bytes)
    } else {
        Err(WalletError::WrongKeyLength(bytes.len() as usize))
    }
}

/// Takes `bytes` as an account key, which has exactly 64 bytes.
pub fn account_key_from_bytes(bytes: &[u8]) -> (res: Result<[u8; 64], WalletError>)
    ensures
        res matches Ok(key) ==> (account_key(bytes@) matches Ok(k) && k == key@),
        res matches Err(e) ==> (account_key(bytes@) matches Err(x) && x == e),
{
    if bytes.len() != ACCOUNT_KEY_LENGTH {
        return Err(WalletError::WrongKeyLength(bytes.len()));
    }
    let mut key = [0u8; 64];
    let mut i: usize = 0;
    while i < 64
        invariant
            i <= 64,
            bytes@.len() == 64,
            forall|j: int| 0 <= j < i ==> key[j] == bytes@[j],
        decreases 64 - i,
    {
        key[i] = bytes[i];
        i += 1;
    }
    assert(key@ =~= bytes@);
    Ok(key)
}

} // verus!
