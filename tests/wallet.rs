use wallet_crypto::address::{bytes_eq, AddrKind, Address};
use wallet_crypto::addressing::{AddrType, Addressing, AddressingError, HARDENED};
use wallet_crypto::keys::{Config, KeyScheme};
use wallet_crypto::tx::{FeeAlgorithm, FeeError, Input, SelectionPolicy, Tx, TxIn, TxOut};
use wallet_crypto::wallet::{Error, Wallet};

/// A toy scheme: keys and ciphertexts mix the seed into the path bytes; a
/// ciphertext starts with a checksum of the seed, which decryption checks.
struct ToyScheme;

fn seed_sum(seed: &Vec<u8>) -> u8 {
    seed.iter().fold(7u8, |a, b| a.wrapping_mul(31).wrapping_add(*b))
}

fn path_bytes(path: &Vec<u32>) -> Vec<u8> {
    path.iter().flat_map(|c| c.to_le_bytes()).collect()
}

fn mix(seed: &Vec<u8>, bytes: &[u8], salt: u8) -> Vec<u8> {
    bytes
        .iter()
        .enumerate()
        .map(|(i, b)| b ^ seed[i % seed.len()] ^ salt)
        .collect()
}

impl KeyScheme for ToyScheme {
    fn public_key(&self, seed: &Vec<u8>, path: &Vec<u32>) -> Vec<u8> {
        mix(seed, &path_bytes(path), 0x5a)
    }

    fn encrypt_path(&self, seed: &Vec<u8>, path: &Vec<u32>) -> Vec<u8> {
        let mut r = vec![seed_sum(seed)];
        r.extend(mix(seed, &path_bytes(path), 0xa5));
        r
    }

    fn decrypt_path(&self, seed: &Vec<u8>, blob: &Vec<u8>) -> Option<Vec<u32>> {
        if blob.is_empty() || blob[0] != seed_sum(seed) || (blob.len() - 1) % 4 != 0 {
            return None;
        }
        let plain = mix(seed, &blob[1..], 0xa5);
        Some(
            plain
                .chunks(4)
                .map(|c| u32::from_le_bytes([c[0], c[1], c[2], c[3]]))
                .collect(),
        )
    }

    fn sign(&self, config: &Config, seed: &Vec<u8>, path: &Vec<u32>, tx: &Tx) -> Vec<u8> {
        let mut r = self.public_key(seed, path);
        r.push(config.protocol_magic as u8);
        r.push(tx.inputs.len() as u8);
        r.push(tx.outputs.len() as u8);
        r
    }
}

/// Takes inputs in order until they cover the outputs and a fee of 10 per
/// output of the final transaction.
struct ToyFee;

impl FeeAlgorithm for ToyFee {
    fn compute(
        &self,
        _policy: SelectionPolicy,
        inputs: &Vec<Input>,
        outputs: &Vec<TxOut>,
        _change_addr: &Address,
        _fee_addr: &Address,
    ) -> Result<(u64, Vec<Input>, u64), FeeError> {
        if inputs.is_empty() {
            return Err(FeeError::NoInputs);
        }
        if outputs.is_empty() {
            return Err(FeeError::NoOutputs);
        }
        let out: u64 = outputs.iter().map(|o| o.value).sum();
        let fee = 10 * (outputs.len() as u64 + 2);
        let mut selected = Vec::new();
        let mut total = 0u64;
        for i in inputs {
            selected.push(i.clone());
            total += i.value.value;
            if total >= out + fee {
                return Ok((fee, selected, total - out - fee));
            }
        }
        Err(FeeError::NotEnoughInput)
    }
}

fn wallet(seed: &[u8]) -> Wallet<ToyScheme> {
    Wallet::new_from_seed(seed.to_vec(), ToyScheme)
}

fn ext(index: u32) -> Addressing {
    Addressing { chain: AddrType::External, index }
}

fn chg(index: u32) -> Addressing {
    Addressing { chain: AddrType::Internal, index }
}

fn same(a: &Address, b: &Address) -> bool {
    a.same_as(b)
}

fn other_address() -> Address {
    Address { addr_type: AddrKind::PubKey, spending_key: vec![1, 2, 3], derivation_path: None }
}

#[test]
fn addressing_first_and_next() {
    let a = Addressing::first(AddrType::External);
    assert_eq!(a, ext(0));
    assert_eq!(a.next(), Ok(ext(1)));
    assert_eq!(chg(41).next(), Ok(chg(42)));
    assert_eq!(chg(3).address_type(), AddrType::Internal);
}

#[test]
fn addressing_boundary() {
    let last = ext(HARDENED - 1);
    assert_eq!(last.next(), Err(AddressingError::RangeExceeded));
    assert_eq!(ext(HARDENED - 2).next(), Ok(ext(HARDENED - 1)));
    assert_eq!(Addressing::new(HARDENED, AddrType::External), None);
    assert_eq!(Addressing::new(5, AddrType::Internal), Some(chg(5)));
}

#[test]
fn addressing_path_round_trip() {
    let p = chg(9).to_path();
    assert_eq!(p, vec![0x8000_002C, 0x8000_0717, 0x8000_0000, 1, 9]);
    assert_eq!(Addressing::from_path(&p), Some(chg(9)));
    assert_eq!(Addressing::from_path(&ext(0).to_path()), Some(ext(0)));
    assert_eq!(Addressing::from_path(&vec![1, 2, 3]), None);
    assert_eq!(Addressing::from_path(&vec![0x8000_002C, 0x8000_0717, 0x8000_0000, 2, 9]), None);
    assert_eq!(
        Addressing::from_path(&vec![0x8000_002C, 0x8000_0717, 0x8000_0000, 0, HARDENED]),
        None
    );
}

#[test]
fn byte_comparison() {
    assert!(bytes_eq(&vec![1, 2, 3], &vec![1, 2, 3]));
    assert!(!bytes_eq(&vec![1, 2, 3], &vec![1, 2, 4]));
    assert!(!bytes_eq(&vec![1, 2], &vec![1, 2, 3]));
    assert!(bytes_eq(&vec![], &vec![]));
}

#[test]
fn make_address_is_deterministic() {
    let w1 = wallet(b"seed one");
    let w2 = wallet(b"seed one");
    let a = w1.make_address(&ext(4));
    assert!(same(&a, &w1.make_address(&ext(4))));
    assert!(same(&a, &w2.make_address(&ext(4))));
    assert!(!same(&a, &w1.make_address(&ext(5))));
    assert_eq!(a.addr_type, AddrKind::PubKey);
    assert!(a.derivation_path.is_some());
}

#[test]
fn sequential_receiving_addresses() {
    let mut w = wallet(b"sequential");
    let a0 = w.new_address().unwrap();
    let a1 = w.new_address().unwrap();
    assert!(same(&a0, &w.make_address(&ext(0))));
    assert!(same(&a1, &w.make_address(&ext(1))));
    assert!(!same(&a0, &a1));
}

#[test]
fn change_addresses_use_their_own_cursor() {
    let mut w = wallet(b"change");
    let c0 = w.new_change().unwrap();
    assert!(same(&c0, &w.make_address(&chg(0))));
    let a0 = w.new_address().unwrap();
    assert!(same(&a0, &w.make_address(&ext(0))));
    let c1 = w.new_change().unwrap();
    assert!(same(&c1, &w.make_address(&chg(1))));
}

#[test]
fn generation_stops_at_boundary() {
    let mut w = wallet(b"boundary");
    w.force_last_known_address(ext(HARDENED - 1));
    assert_eq!(w.new_address().err(), Some(Error::RangeExceeded));
    w.force_last_known_change(chg(HARDENED - 2));
    assert!(same(&w.new_change().unwrap(), &w.make_address(&chg(HARDENED - 1))));
    assert_eq!(w.new_change().err(), Some(Error::RangeExceeded));
}

#[test]
fn recognition_round_trip() {
    let mut w = wallet(b"round trip");
    for a in [ext(0), ext(17), chg(3), chg(HARDENED - 1)] {
        let addr = w.make_address(&a);
        assert_eq!(w.recognize_address(&addr), Ok(a));
    }
}

#[test]
fn recognition_moves_cursor() {
    let mut w = wallet(b"catch up");
    let addr = w.make_address(&ext(7));
    assert_eq!(w.recognize_address(&addr), Ok(ext(7)));
    assert!(same(&w.new_address().unwrap(), &w.make_address(&ext(8))));
    let addr = w.make_address(&chg(2));
    assert_eq!(w.recognize_address(&addr), Ok(chg(2)));
    assert!(same(&w.new_change().unwrap(), &w.make_address(&chg(3))));
}

#[test]
fn cross_wallet_rejection() {
    let mut w1 = wallet(b"first wallet");
    let mut w2 = wallet(b"second wallet");
    let addr = w2.new_address().unwrap();
    let r = w1.recognize_address(&addr);
    assert!(matches!(
        r,
        Err(Error::NotMyAddress_CannotDecodePayload) | Err(Error::NotMyAddress_NotMyPublicKey)
    ));
    assert_eq!(w2.recognize_address(&addr), Ok(ext(0)));
}

#[test]
fn recognition_errors() {
    let mut w = wallet(b"errors");
    assert_eq!(w.recognize_address(&other_address()), Err(Error::NotMyAddress_NoPayload));

    let mut garbled = w.make_address(&ext(1));
    garbled.derivation_path = Some(vec![0, 1, 2]);
    assert_eq!(w.recognize_address(&garbled), Err(Error::NotMyAddress_CannotDecodePayload));

    let bad_path = ToyScheme.encrypt_path(&b"errors".to_vec(), &vec![1, 2, 3]);
    let mut invalid = w.make_address(&ext(1));
    invalid.derivation_path = Some(bad_path);
    assert_eq!(w.recognize_address(&invalid), Err(Error::NotMyAddress_InvalidAddressing));

    let mut foreign_key = w.make_address(&ext(1));
    foreign_key.spending_key[0] ^= 1;
    assert_eq!(w.recognize_address(&foreign_key), Err(Error::NotMyAddress_NotMyPublicKey));

    let mut script = w.make_address(&ext(1));
    script.addr_type = AddrKind::Script;
    assert_eq!(w.recognize_address(&script), Err(Error::NotMyAddress_NotMyPublicKey));
}

fn input(w: &Wallet<ToyScheme>, a: Addressing, id: u8, value: u64) -> Input {
    Input {
        ptr: TxIn { id: vec![id; 4], index: id as u32 },
        value: TxOut { address: w.make_address(&a), value },
    }
}

#[test]
fn transaction_shape() {
    let mut w = wallet(b"spender");
    let inputs = vec![input(&w, ext(0), 1, 50), input(&w, chg(4), 2, 70), input(&w, ext(9), 3, 500)];
    let outputs = vec![TxOut { address: other_address(), value: 60 }];
    let fee_addr = Address { addr_type: AddrKind::Redeem, spending_key: vec![9], derivation_path: None };
    let aux = w.new_transaction(&ToyFee, &inputs, &outputs, &fee_addr).unwrap();

    // two inputs cover 60 + a fee of 30
    assert_eq!(aux.tx.inputs.len(), 2);
    assert_eq!(aux.tx.inputs[0].id, vec![1; 4]);
    assert_eq!(aux.tx.inputs[1].id, vec![2; 4]);
    assert_eq!(aux.tx.outputs.len(), 3);
    assert!(same(&aux.tx.outputs[0].address, &other_address()));
    assert_eq!(aux.tx.outputs[0].value, 60);
    assert!(same(&aux.tx.outputs[1].address, &fee_addr));
    assert_eq!(aux.tx.outputs[1].value, 30);
    assert!(same(&aux.tx.outputs[2].address, &w.make_address(&chg(0))));
    assert_eq!(aux.tx.outputs[2].value, 30);

    assert_eq!(aux.witnesses.len(), 2);
    let seed = b"spender".to_vec();
    let config = Config::default_config();
    assert_eq!(aux.witnesses[0], ToyScheme.sign(&config, &seed, &ext(0).to_path(), &aux.tx));
    assert_eq!(aux.witnesses[1], ToyScheme.sign(&config, &seed, &chg(4).to_path(), &aux.tx));
}

#[test]
fn insufficient_funds() {
    let mut w = wallet(b"poor");
    let inputs = vec![input(&w, ext(0), 1, 10)];
    let outputs = vec![TxOut { address: other_address(), value: 60 }];
    let r = w.new_transaction(&ToyFee, &inputs, &outputs, &other_address());
    assert_eq!(r.err(), Some(Error::FeeCalculationError(FeeError::NotEnoughInput)));
}

#[test]
fn transaction_with_foreign_input_fails() {
    let mut w = wallet(b"spender");
    let stranger = wallet(b"stranger");
    let inputs = vec![input(&stranger, ext(0), 1, 500)];
    let outputs = vec![TxOut { address: other_address(), value: 60 }];
    let r = w.new_transaction(&ToyFee, &inputs, &outputs, &other_address());
    assert!(r.is_err());
}

#[test]
fn default_parameters() {
    assert_eq!(Config::default_config().protocol_magic, 764824073);
    assert_eq!(SelectionPolicy::default_policy(), SelectionPolicy::FirstMatchFirst);
}

#[test]
fn signing_a_failed_selection() {
    let mut w = wallet(b"selection");
    let outputs = vec![TxOut { address: other_address(), value: 5 }];
    let change = w.make_address(&chg(0));
    let r = w.sign_selection(Err(FeeError::NoInputs), &outputs, &other_address(), change);
    assert_eq!(r.err(), Some(Error::FeeCalculationError(FeeError::NoInputs)));
}

#[test]
fn signing_a_selection() {
    let mut w = wallet(b"selection");
    let outputs = vec![TxOut { address: other_address(), value: 5 }];
    let change = w.make_address(&chg(3));
    let picked = vec![input(&w, ext(2), 7, 40)];
    let aux = w
        .sign_selection(Ok((30, picked, 5)), &outputs, &other_address(), change)
        .unwrap();
    assert_eq!(aux.tx.inputs.len(), 1);
    assert_eq!(aux.tx.inputs[0].index, 7);
    assert_eq!(aux.tx.outputs.len(), 3);
    assert_eq!(aux.tx.outputs[1].value, 30);
    assert_eq!(aux.tx.outputs[2].value, 5);
    assert!(same(&aux.tx.outputs[2].address, &w.make_address(&chg(3))));
    let expected = ToyScheme.sign(&Config::default_config(), &b"selection".to_vec(), &ext(2).to_path(), &aux.tx);
    assert_eq!(aux.witnesses, vec![expected]);
    // recognising the input moved the receiving cursor to it
    assert!(same(&w.new_address().unwrap(), &w.make_address(&ext(3))));
}

#[test]
fn make_address_ignores_cursors() {
    let w1 = wallet(b"same seed");
    let mut w2 = wallet(b"same seed");
    w2.force_last_known_address(ext(40));
    w2.force_last_known_change(chg(12));
    assert!(same(&w1.make_address(&chg(5)), &w2.make_address(&chg(5))));
}

#[test]
fn transaction_moves_cursors() {
    let mut w = wallet(b"cursors");
    let inputs = vec![input(&w, ext(6), 1, 100), input(&w, chg(9), 2, 100)];
    let outputs = vec![TxOut { address: other_address(), value: 100 }];
    w.new_transaction(&ToyFee, &inputs, &outputs, &other_address()).unwrap();
    // the change cursor went to 0, then to the recognised change input
    assert!(same(&w.new_change().unwrap(), &w.make_address(&chg(10))));
    assert!(same(&w.new_address().unwrap(), &w.make_address(&ext(7))));
}

#[test]
fn failed_selection_still_moves_change_cursor() {
    let mut w = wallet(b"cursors");
    let inputs = vec![input(&w, ext(6), 1, 1)];
    let outputs = vec![TxOut { address: other_address(), value: 100 }];
    assert!(w.new_transaction(&ToyFee, &inputs, &outputs, &other_address()).is_err());
    assert!(same(&w.new_change().unwrap(), &w.make_address(&chg(1))));
}
