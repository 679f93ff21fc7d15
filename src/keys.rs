use vstd::prelude::*;
use crate::tx::{Tx, TxModel};

verus! {

/// Network parameters that signatures are bound to.
#[derive(Clone, Copy, Debug, PartialEq, Eq, Structural)]
pub struct Config {
    pub protocol_magic: u32,
}

/// Whether `k`'s codec recovers every path it encrypts under `seed`.
pub open spec fn recovers_paths<K: KeyScheme>(seed: Seq<u8>) -> bool {
    forall|p: Seq<u32>| #[trigger] K::decrypted_path(seed, K::encrypted_path(seed, p)) == Some(p)
}

/// Magic of the main network.
pub const MAINNET_MAGIC: u32 = 764824073;

impl Config {
    /// The main network's parameters.
    pub fn default_config() -> (r: Config)
        ensures
            r.protocol_magic == MAINNET_MAGIC,
    {
        Config { protocol_magic: MAINNET_MAGIC }
    }
}

/// The key-derivation, path-encryption and signing capability a wallet
/// runs on.
///
/// Each operation is a function of its arguments alone, named by a spec
/// function of the implementing type;
/// the path cipher is keyed by the seed, and decrypting what it encrypted
/// under the same seed gives the path back. The spec functions' default
/// bodies let an implementation written in plain Rust compile; generic code
/// never sees them, so nothing proved here rests on them.
pub trait KeyScheme {
    /// Public key of the key derived from `seed` along `path`.
    open spec fn public_key_of(seed: Seq<u8>, path: Seq<u32>) -> Seq<u8> {
        Seq::empty()
    }

    /// The opaque blob that `path` is encrypted to under `seed`'s codec.
    open spec fn encrypted_path(seed: Seq<u8>, path: Seq<u32>) -> Seq<u8> {
        Seq::empty()
    }

    /// The path that `blob` decrypts to under `seed`'s codec, if any.
    open spec fn decrypted_path(seed: Seq<u8>, blob: Seq<u8>) -> Option<Seq<u32>> {
        None
    }

    /// The witness that the key at `path` gives for `tx`.
    open spec fn witness_of(config: Config, seed: Seq<u8>, path: Seq<u32>, tx: TxModel) -> Seq<
        u8,
    > {
        Seq::empty()
    }

    fn public_key(&self, seed: &Vec<u8>, path: &Vec<u32>) -> (r: Vec<u8>)
        ensures
            r@ == Self::public_key_of(seed@, path@),
    ;

    fn encrypt_path(&self, seed: &Vec<u8>, path: &Vec<u32>) -> (r: Vec<u8>)
        ensures
            r@ == Self::encrypted_path(seed@, path@),
            Self::decrypted_path(seed@, r@) == Some(path@),
    ;

    fn decrypt_path(&self, seed: &Vec<u8>, blob: &Vec<u8>) -> (r: Option<Vec<u32>>)
        ensures
            r matches Some(p) ==> Self::decrypted_path(seed@, blob@) == Some(p@),
            r.is_none() ==> Self::decrypted_path(seed@, blob@).is_none(),
    ;

    fn sign(&self, config: &Config, seed: &Vec<u8>, path: &Vec<u32>, tx: &Tx) -> (r: Vec<u8>)
        ensures
            r@ == Self::witness_of(*config, seed@, path@, tx@),
    ;
}

} // verus!
