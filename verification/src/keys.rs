//! Keys and the addresses that belong to them.
//!
//! The curve arithmetic, the hashes and the derivation of keys from a seed
//! are done by the crates made for them; what they return is named here,
//! and the rest is put together from those names.

use crate::hexfmt::{
    hex_bytes, hex_encode, hex_lower, hex_value, is_hex, same_hex,
};
use crate::text::{trim, trimmed};
use crate::types::Address;
use crate::KeyPair;
use vstd::prelude::*;

verus! {

/// The derivation path of the first Ethereum account of a wallet.
pub const ETH_PATH: &'static str = "m/44'/60'/0'/0/0";

/// A private key of the curve secp256k1.
#[derive(Clone, Copy, Debug, PartialEq, Eq)]
pub struct SecretKey {
    /// The key as a number, most significant byte first.
    pub bytes: [u8; 32],
}

/// The number that `bytes` spell, most significant byte first.
pub open spec fn be_value(bytes: Seq<u8>) -> nat
    decreases bytes.len(),
{
    if bytes.len() == 0 {
        0
    } else {
        be_value(bytes.drop_last()) * 256 + bytes.last() as nat
    }
}

/// The order of the group of secp256k1.
pub open spec fn curve_order() -> nat {
    0xFFFF_FFFF_FFFF_FFFF_FFFF_FFFF_FFFF_FFFE_BAAE_DCE6_AF48_A03B_BFD2_5E8C_D036_4141nat
}

/// Whether `bytes` are a private key: thirty-two bytes that spell a number
/// above zero and below the order of the curve.
pub open spec fn valid_secret(bytes: Seq<u8>) -> bool {
    bytes.len() == 32 && 0 < be_value(bytes) < curve_order()
}

/// Whether `n` bytes of entropy make a mnemonic.
pub open spec fn entropy_len_ok(n: nat) -> bool {
    n == 16 || n == 20 || n == 24 || n == 28 || n == 32
}

/// The seed that BIP-39 derives from the English mnemonic of `entropy`
/// and a passphrase, as `bip0039` computes it.
pub uninterp spec fn bip39_seed(entropy: Seq<u8>, passphrase: Seq<char>) -> Seq<u8>;

/// The private key that BIP-32 derives from `seed` along `path`, as `bip32`
/// computes it; none where the path or the seed is refused or the
/// derivation fails.
pub uninterp spec fn bip32_private_key(seed: Seq<u8>, path: Seq<char>) -> Option<Seq<u8>>;

/// The uncompressed public key of the private key `secret`, sixty-five
/// bytes, as `libsecp256k1` computes it.
pub uninterp spec fn libsecp256k1_public(secret: Seq<u8>) -> Seq<u8>;

/// The uncompressed public key of the private key `secret`, sixty-five
/// bytes, as `secp256k1` computes it.
pub uninterp spec fn secp256k1_public(secret: Seq<u8>) -> Seq<u8>;

/// The Keccak-256 hash of `data`, as `sha3` computes it.
pub uninterp spec fn keccak256_of(data: Seq<u8>) -> Seq<u8>;

/// The mixed-case form of a lower-case address, as `eth_checksum` computes
/// it.
pub uninterp spec fn checksum_of(address: Seq<char>) -> Seq<char>;

/// `bip0039::Mnemonic::generate` for twelve words, and the entropy that the
/// mnemonic was made from: sixteen bytes of the system's randomness.
#[verifier::external_body]
fn random_entropy() -> (entropy: Vec<u8>)
    ensures
        entropy@.len() == 16,
{
    <bip0039::Mnemonic>::generate(bip0039::Count::Words12).into_entropy()
}

/// `bip0039::Mnemonic::from_entropy` and `to_seed`: the seed of the English
/// mnemonic of `entropy`. There is one for entropy of 16, 20, 24, 28 or 32
/// bytes and for no other.
#[verifier::external_body]
fn mnemonic_seed(entropy: &[u8], passphrase: &str) -> (seed: Option<[u8; 64]>)
    requires
        entropy@.len() <= 32,
    ensures
        seed is Some <==> entropy_len_ok(entropy@.len()),
        seed matches Some(s) ==> s@ == bip39_seed(entropy@, passphrase@),
{
    match <bip0039::Mnemonic>::from_entropy(entropy) {
        Ok(mnemonic) => Some(mnemonic.to_seed(passphrase)),
        Err(_) => None,
    }
}

/// `bip32::XPrv::derive_from_path` along the path that
/// `bip32::DerivationPath::from_str` reads from `path`, and the derived
/// key's bytes.
#[verifier::external_body]
fn derive_private_key(seed: &[u8], path: &str) -> (key: Option<[u8; 32]>)
    ensures
        match key {
            Some(k) => bip32_private_key(seed@, path@) == Some(k@),
            None => bip32_private_key(seed@, path@) is None,
        },
{
    match path.parse::<bip32::DerivationPath>() {
        Ok(p) => match bip32::XPrv::derive_from_path(seed, &p) {
            Ok(xprv) => Some(xprv.to_bytes()),
            Err(_) => None,
        },
        Err(_) => None,
    }
}

/// `libsecp256k1::SecretKey::parse_slice`, `PublicKey::from_secret_key`
/// and `serialize`: the uncompressed public key of `secret`. There is one
/// for each private key and for nothing else.
#[verifier::external_body]
fn libsecp256k1_public_key(secret: &[u8]) -> (public: Option<[u8; 65]>)
    ensures
        public is Some <==> valid_secret(secret@),
        public matches Some(p) ==> p@ == libsecp256k1_public(secret@),
{
    match libsecp256k1::SecretKey::parse_slice(secret) {
        Ok(key) => Some(libsecp256k1::PublicKey::from_secret_key(&key).serialize()),
        Err(_) => None,
    }
}

/// Whether `text` spells a private key: sixty-four hex digits, in either
/// case, whose bytes are one.
pub open spec fn spells_secret(text: Seq<char>) -> bool {
    text.len() == 64 && is_hex(text) && valid_secret(hex_bytes(text))
}

/// `secp256k1::SecretKey::from_str`: the private key that `text` spells in
/// hex. It is one where `text` is sixty-four hex digits that spell a
/// private key.
#[verifier::external_body]
fn secp256k1_secret(text: &str) -> (secret: Option<[u8; 32]>)
    ensures
        secret is Some <==> spells_secret(text@),
        secret matches Some(s) ==> s@ == hex_bytes(text@),
{
    match text.parse::<secp256k1::SecretKey>() {
        Ok(key) => Some(key.secret_bytes()),
        Err(_) => None,
    }
}

/// `secp256k1::SecretKey::from_slice`, `PublicKey::from_secret_key` with a
/// signing context and `serialize_uncompressed`: the uncompressed public
/// key of `secret`. There is one for each private key and for nothing
/// else.
#[verifier::external_body]
fn secp256k1_public_key(secret: &[u8]) -> (public: Option<[u8; 65]>)
    ensures
        public is Some <==> valid_secret(secret@),
        public matches Some(p) ==> p@ == secp256k1_public(secret@),
{
    match secp256k1::SecretKey::from_slice(secret) {
        Ok(key) => {
            let context = secp256k1::Secp256k1::signing_only();
            Some(secp256k1::PublicKey::from_secret_key(&context, &key).serialize_uncompressed())
        },
        Err(_) => None,
    }
}

/// `sha3::Keccak256::digest`: the Keccak-256 hash of `data`.
#[verifier::external_body]
fn keccak256(data: &[u8]) -> (hash: [u8; 32])
    ensures
        hash@ == keccak256_of(data@),
{
    <sha3::Keccak256 as sha3::Digest>::digest(data).into()
}

/// Whether `s` is an address in lower case: `0x` and forty hex digits, none
/// of them a capital letter.
pub open spec fn is_plain_address(s: Seq<char>) -> bool {
    &&& s.len() == 42
    &&& s[0] == '0'
    &&& s[1] == 'x'
    &&& forall|i: int|
        2 <= i < 42 ==> ('0' <= #[trigger] s[i] && s[i] <= '9') || ('a' <= s[i] && s[i] <= 'f')
}

/// `eth_checksum::checksum`: the address with some of its letters made
/// capitals, which ones being decided by a hash of the address.
#[verifier::external_body]
fn checksum(address: &str) -> (mixed: String)
    requires
        is_plain_address(address@),
    ensures
        mixed@ == checksum_of(address@),
        same_hex(mixed@, address@),
{
    eth_checksum::checksum(address)
}

/// Whether hex decoding passes over `c`.
pub open spec fn is_hex_space(c: char) -> bool {
    c == ' ' || c == '\r' || c == '\n' || c == '\t'
}

/// The hex digits of an address written as text: what follows a leading
/// `0x`, if there is one, without the blanks in it.
pub open spec fn address_digits(text: Seq<char>) -> Seq<char> {
    let body = if text.len() >= 2 && text[0] == '0' && text[1] == 'x' {
        text.skip(2)
    } else {
        text
    };
    body.filter(|c: char| !is_hex_space(c))
}

/// The address that `text` spells: forty hex digits in either case, after
/// `0x` or without it; blanks among them do not count.
pub open spec fn address_of(text: Seq<char>) -> Option<Seq<u8>> {
    let digits = address_digits(text);
    if digits.len() == 40 && is_hex(digits) {
        Some(hex_bytes(digits))
    } else {
        None
    }
}

/// `H160::from_str` of `web3::types`: the address that `text` spells.
#[verifier::external_body]
fn h160_from_str(text: &str) -> (bytes: Option<[u8; 20]>)
    ensures
        match bytes {
            Some(b) => address_of(text@) == Some(b@),
            None => address_of(text@) is None,
        },
{
    match text.parse::<web3::types::H160>() {
        Ok(h) => Some(h.0),
        Err(_) => None,
    }
}

/// The address of the account with the uncompressed public key `public`:
/// the last twenty bytes of the Keccak-256 hash of the key without its
/// first byte.
pub open spec fn address_bytes(public: Seq<u8>) -> Seq<u8> {
    keccak256_of(public.subrange(1, 65)).subrange(12, 32)
}

/// The address of a key as text in lower case.
pub open spec fn plain_address(address: Seq<u8>) -> Seq<char> {
    "0x"@ + hex_lower(address)
}

impl Address {
    /// The address that `text` spells: forty hex digits in either case,
    /// after `0x` or without it.
    pub fn parse(text: &str) -> (r: Option<Address>)
        ensures
            match r {
                Some(a) => address_of(text@) == Some(a.bytes@),
                None => address_of(text@) is None,
            },
    {
        match h160_from_str(text) {
            Some(bytes) => Some(Address { bytes }),
            None => None,
        }
    }

    /// The address as text in lower case: `0x` and forty hex digits.
    pub fn to_plain(&self) -> (text: String)
        ensures
            text@ == plain_address(self.bytes@),
    {
        let digits = hex_encode(self.bytes.as_slice());
        String::from_str("0x").concat(digits.as_str())
    }

    /// The address of the account with the uncompressed public key
    /// `public`.
    pub fn of_public_key(public: &[u8; 65]) -> (a: Address)
        ensures
            a.bytes@ == address_bytes(public@),
    {
        let mut point: Vec<u8> = Vec::new();
        let mut i: usize = 1;
        while i < 65
            invariant
                1 <= i <= 65,
                point@ == public@.subrange(1, i as int),
            decreases 65 - i,
        {
            point.push(public[i]);
            assert(public@.subrange(1, i as int).push(public@[i as int]) =~= public@.subrange(
                1,
                i + 1,
            ));
            i += 1;
        }
        let hash = keccak256(point.as_slice());
        let mut bytes = [0u8; 20];
        let mut j: usize = 0;
        while j < 20
            invariant
                j <= 20,
                forall|k: int| 0 <= k < j ==> bytes@[k] == hash@[12 + k],
            decreases 20 - j,
        {
            bytes[j] = hash[12 + j];
            j += 1;
        }
        assert(bytes@ =~= hash@.subrange(12, 32));
        Address { bytes }
    }
}

/// The hex digits of an address in lower case are digits and the letters
/// `a` to `f`.
proof fn lemma_plain_address(address: Seq<u8>)
    requires
        address.len() == 20,
    ensures
        is_plain_address(plain_address(address)),
{
    reveal_strlit("0x");
    let s = plain_address(address);
    assert(s.len() == 42);
    assert(s[0] == '0' && s[1] == 'x');
    assert forall|i: int| 2 <= i < 42 implies ('0' <= #[trigger] s[i] && s[i] <= '9') || ('a'
        <= s[i] && s[i] <= 'f') by {
        let k = i - 2;
        assert(s[i] == hex_lower(address)[k]);
        let n: u8 = if k % 2 == 0 {
            address[k / 2] / 16
        } else {
            address[k / 2] % 16
        };
        assert(n < 16);
    }
}

/// The pair of texts that stand for the private key `secret`, whose
/// uncompressed public key is `public`: the address in mixed case, and the
/// key in hex.
pub open spec fn key_pair_texts(secret: Seq<u8>, public: Seq<u8>) -> (Seq<char>, Seq<char>) {
    (checksum_of(plain_address(address_bytes(public))), hex_lower(secret))
}

/// The account of the private key `secret`, as texts and as the bytes of
/// its address; none where `secret` is no private key.
pub fn account_of_secret(secret: &[u8; 32]) -> (r: Option<(KeyPair, Address)>)
    ensures
        r is Some <==> valid_secret(secret@),
        r matches Some((pair, address)) ==> is_account_of(pair, address, secret@),
{
    match libsecp256k1_public_key(secret.as_slice()) {
        None => None,
        Some(public) => {
            let address = Address::of_public_key(&public);
            let plain = address.to_plain();
            proof {
                lemma_plain_address(address.bytes@);
            }
            let mixed = checksum(plain.as_str());
            let private = hex_encode(secret.as_slice());
            Some((KeyPair { address: mixed, private }, address))
        },
    }
}

/// The account of the private key `secret`; none where `secret` is no
/// private key.
pub fn keypair_of_secret(secret: &[u8; 32]) -> (r: Option<KeyPair>)
    ensures
        r is Some <==> valid_secret(secret@),
        r matches Some(pair) ==> is_pair_of(pair, secret@),
{
    match account_of_secret(secret) {
        None => None,
        Some((pair, _)) => Some(pair),
    }
}

/// The private key of a wallet with the seed `seed`: the one that BIP-32
/// derives along [`ETH_PATH`], where the derivation gives a private key.
pub open spec fn secret_of_seed(seed: Seq<u8>) -> Option<Seq<u8>> {
    match bip32_private_key(seed, ETH_PATH@) {
        Some(secret) => if valid_secret(secret) {
            Some(secret)
        } else {
            None
        },
        None => None,
    }
}

/// The private key of the wallet whose mnemonic is made from `entropy`,
/// with no passphrase.
pub open spec fn secret_of_entropy(entropy: Seq<u8>) -> Option<Seq<u8>> {
    if entropy_len_ok(entropy.len()) {
        secret_of_seed(bip39_seed(entropy, ""@))
    } else {
        None
    }
}

/// Whether `pair` holds the texts of the account of the private key
/// `secret`: the address as `0x` and forty hex digits in mixed case, the
/// key as sixty-four hex digits in lower case.
pub open spec fn is_pair_of(pair: KeyPair, secret: Seq<u8>) -> bool {
    &&& pair.address@.len() == 42
    &&& pair.private@.len() == 64
    &&& (pair.address@, pair.private@) == key_pair_texts(secret, libsecp256k1_public(secret))
    &&& same_hex(
        pair.address@,
        plain_address(address_bytes(libsecp256k1_public(secret))),
    )
}

/// Whether `pair` and `address` are the account of the private key
/// `secret`.
pub open spec fn is_account_of(pair: KeyPair, address: Address, secret: Seq<u8>) -> bool {
    &&& address.bytes@ == address_bytes(libsecp256k1_public(secret))
    &&& is_pair_of(pair, secret)
}

/// The account of a wallet with the seed `seed`; see [`secret_of_seed`].
pub fn account_of_seed(seed: &[u8]) -> (r: Option<(KeyPair, Address)>)
    ensures
        r is Some <==> secret_of_seed(seed@) is Some,
        r matches Some((pair, address)) ==> is_account_of(pair, address, secret_of_seed(seed@)->0),
{
    match derive_private_key(seed, ETH_PATH) {
        None => None,
        Some(secret) => account_of_secret(&secret),
    }
}

/// The account of the wallet whose mnemonic is made from `entropy`; see
/// [`secret_of_entropy`].
pub fn account_of_entropy(entropy: &[u8]) -> (r: Option<(KeyPair, Address)>)
    ensures
        r is Some <==> secret_of_entropy(entropy@) is Some,
        r matches Some((pair, address)) ==> is_account_of(
            pair,
            address,
            secret_of_entropy(entropy@)->0,
        ),
{
    if entropy.len() > 32 {
        return None;
    }
    match mnemonic_seed(entropy, "") {
        None => None,
        Some(seed) => account_of_seed(seed.as_slice()),
    }
}

/// The account of a wallet with the seed `seed`, as texts.
pub fn keypair_of_seed(seed: &[u8]) -> (r: Option<KeyPair>)
    ensures
        r is Some <==> secret_of_seed(seed@) is Some,
        r matches Some(pair) ==> is_pair_of(pair, secret_of_seed(seed@)->0),
{
    match account_of_seed(seed) {
        None => None,
        Some((pair, _)) => Some(pair),
    }
}

/// The account of the wallet whose mnemonic is made from `entropy`, as
/// texts.
pub fn keypair_of_entropy(entropy: &[u8]) -> (r: Option<KeyPair>)
    ensures
        r is Some <==> secret_of_entropy(entropy@) is Some,
        r matches Some(pair) ==> is_pair_of(pair, secret_of_entropy(entropy@)->0),
{
    match account_of_entropy(entropy) {
        None => None,
        Some((pair, _)) => Some(pair),
    }
}

/// Whether `r` is what the wallet of the mnemonic made from `entropy` gives
/// as its account: the account of its private key, or nothing where it has
/// none.
pub open spec fn is_account_from(r: Option<(KeyPair, Address)>, entropy: Seq<u8>) -> bool {
    match r {
        Some((pair, address)) => secret_of_entropy(entropy) is Some && is_account_of(
            pair,
            address,
            secret_of_entropy(entropy)->0,
        ),
        None => secret_of_entropy(entropy) is None,
    }
}

/// Whether `r` holds the texts of what the wallet of the mnemonic made from
/// `entropy` gives as its account, or nothing where it has none.
pub open spec fn is_pair_from(r: Option<KeyPair>, entropy: Seq<u8>) -> bool {
    match r {
        Some(pair) => secret_of_entropy(entropy) is Some && is_pair_of(
            pair,
            secret_of_entropy(entropy)->0,
        ),
        None => secret_of_entropy(entropy) is None,
    }
}

/// A new account, from a fresh mnemonic of twelve words, as texts and as
/// the bytes of its address: that of some sixteen bytes of entropy. None
/// comes back where the derivation from them fails, which is next to
/// impossible.
pub fn one_eth_account() -> (r: Option<(KeyPair, Address)>)
    ensures
        exists|entropy: Seq<u8>| entropy.len() == 16 && #[trigger] is_account_from(r, entropy),
{
    let entropy = random_entropy();
    let r = account_of_entropy(entropy.as_slice());
    assert(is_account_from(r, entropy@));
    r
}

/// A new account, from a fresh mnemonic of twelve words: that of some
/// sixteen bytes of entropy. None comes back where the derivation from
/// them fails, which is next to impossible.
pub fn one_eth_key() -> (r: Option<KeyPair>)
    ensures
        exists|entropy: Seq<u8>| entropy.len() == 16 && #[trigger] is_pair_from(r, entropy),
{
    let entropy = random_entropy();
    let r = keypair_of_entropy(entropy.as_slice());
    assert(is_pair_from(r, entropy@));
    r
}

impl KeyPair {
    /// The private key and the address that the pair's texts spell; none
    /// where one of them spells nothing.
    pub fn source(&self) -> (r: Option<(SecretKey, Address)>)
        ensures
            r is Some <==> spells_secret(self.private@) && address_of(self.address@) is Some,
            r matches Some((secret, address)) ==> secret.bytes@ == hex_bytes(self.private@)
                && address_of(self.address@) == Some(address.bytes@),
    {
        match secp256k1_secret(self.private.as_str()) {
            None => None,
            Some(bytes) => match Address::parse(self.address.as_str()) {
                None => None,
                Some(address) => Some((SecretKey { bytes }, address)),
            },
        }
    }
}

/// The private key that `text` spells in hex, and the address of its
/// account. Whitespace around the key does not count. There is none where
/// what is left is not sixty-four hex digits that spell a private key.
pub fn extract_keypair(text: &str) -> (r: Option<(SecretKey, Address)>)
    ensures
        r is Some <==> spells_secret(trimmed(text@)),
        r matches Some((secret, address)) ==> secret.bytes@ == hex_bytes(trimmed(text@))
            && address.bytes@ == address_bytes(secp256k1_public(secret.bytes@)),
{
    let inner = trim(text);
    match secp256k1_secret(inner) {
        None => None,
        Some(bytes) => match secp256k1_public_key(bytes.as_slice()) {
            None => None,
            Some(public) => Some((SecretKey { bytes }, Address::of_public_key(&public))),
        },
    }
}

/// Filtering keeps a text whose characters all pass.
proof fn lemma_filter_keeps_all(s: Seq<char>, pred: spec_fn(char) -> bool)
    requires
        forall|i: int| 0 <= i < s.len() ==> pred(#[trigger] s[i]),
    ensures
        s.filter(pred) == s,
    decreases s.len(),
{
    reveal(Seq::filter);
    if s.len() > 0 {
        let front = s.drop_last();
        assert forall|i: int| 0 <= i < front.len() implies pred(#[trigger] front[i]) by {
            assert(front[i] == s[i]);
        }
        lemma_filter_keeps_all(front, pred);
        assert(front.push(s.last()) =~= s);
    }
}

/// An address in mixed case is read as the address that it spells in lower
/// case.
pub proof fn lemma_mixed_address_reads_back(mixed: Seq<char>, address: Seq<u8>)
    requires
        address.len() == 20,
        same_hex(mixed, plain_address(address)),
    ensures
        address_of(mixed) == Some(address),
{
    reveal_strlit("0x");
    let plain = plain_address(address);
    let digits = hex_lower(address);
    crate::hexfmt::lemma_hex_round_trip(address);
    assert(plain.len() == 42);
    assert(plain[0] == '0' && plain[1] == 'x');
    assert(mixed[0] == '0') by {
        assert(hex_value(plain[0]) == Some(0u8));
    }
    assert(mixed[1] == 'x') by {
        assert(hex_value(plain[1]) is None);
    }
    let body = mixed.skip(2);
    assert(plain.skip(2) =~= digits);
    assert(same_hex(body, digits)) by {
        assert forall|i: int| 0 <= i < body.len() implies #[trigger] body[i] == digits[i] || (
        hex_value(body[i]) is Some && hex_value(body[i]) == hex_value(digits[i])) by {
            assert(body[i] == mixed[i + 2]);
            assert(digits[i] == plain[i + 2]);
        }
    }
    crate::hexfmt::lemma_same_hex_bytes(body, digits);
    let keep = |c: char| !is_hex_space(c);
    assert forall|i: int| 0 <= i < body.len() implies keep(#[trigger] body[i]) by {
        assert(hex_value(body[i]) is Some);
    }
    lemma_filter_keeps_all(body, keep);
    assert(address_digits(mixed) == body);
}

/// The texts of an account are read back as the key and the address that
/// they were written from.
pub proof fn lemma_pair_reads_back(pair: KeyPair, address: Address, secret: Seq<u8>)
    requires
        valid_secret(secret),
        is_account_of(pair, address, secret),
    ensures
        spells_secret(pair.private@),
        hex_bytes(pair.private@) == secret,
        address_of(pair.address@) == Some(address.bytes@),
{
    crate::hexfmt::lemma_hex_round_trip(secret);
    lemma_mixed_address_reads_back(pair.address@, address.bytes@);
}

} // verus!
