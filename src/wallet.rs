use vstd::prelude::*;
use crate::address::{Address, AddressModel, AddrKind};
use crate::addressing::{
    AddrType, Addressing, AddressingError, addressing_of_path, path_of, lemma_path_round_trip,
};
use crate::keys::{Config, KeyScheme, recovers_paths};
use crate::tx::{
    FeeAlgorithm, FeeError, Input, InputModel, SelectionPolicy, Tx, TxAux, TxModel, TxOut,
    TxOutModel, copy_outputs, input_pointers, inputs_model, total_input, total_output,
    txouts_model,
};

verus! {

/// What can go wrong in a wallet operation.
#[allow(non_camel_case_types)]
#[derive(Clone, Copy, Debug, PartialEq, Eq, Structural)]
pub enum Error {
    /// The address carries no encrypted derivation path.
    NotMyAddress_NoPayload,
    /// This wallet's codec cannot decrypt the address's path.
    NotMyAddress_CannotDecodePayload,
    /// The address was not derived from this wallet's keys.
    NotMyAddress_NotMyPublicKey,
    /// The decrypted path is not a valid addressing.
    NotMyAddress_InvalidAddressing,
    /// The selection algorithm failed.
    FeeCalculationError(FeeError),
    /// The next addressing would reach the hardened boundary.
    RangeExceeded,
}

impl From<FeeError> for Error {
    fn from(e: FeeError) -> (r: Error) {
        Error::FeeCalculationError(e)
    }
}

impl vstd::std_specs::convert::FromSpecImpl<FeeError> for Error {
    open spec fn obeys_from_spec() -> bool {
        true
    }

    open spec fn from_spec(e: FeeError) -> Error {
        Error::FeeCalculationError(e)
    }
}

/// A wallet: its seed, the last addressing used on each chain, its network
/// parameters, its selection policy, and the key scheme it derives with.
pub struct Wallet<K: KeyScheme> {
    seed: Vec<u8>,
    last_known_address: Option<Addressing>,
    last_known_change: Option<Addressing>,
    config: Config,
    selection_policy: SelectionPolicy,
    scheme: K,
}

/// The mathematical value of a wallet.
pub struct WalletModel<K> {
    pub seed: Seq<u8>,
    pub last_external: Option<Addressing>,
    pub last_internal: Option<Addressing>,
    pub config: Config,
    pub policy: SelectionPolicy,
    pub scheme: K,
}

impl<K: KeyScheme> View for Wallet<K> {
    type V = WalletModel<K>;

    closed spec fn view(&self) -> WalletModel<K> {
        WalletModel {
            seed: self.seed@,
            last_external: self.last_known_address,
            last_internal: self.last_known_change,
            config: self.config,
            policy: self.selection_policy,
            scheme: self.scheme,
        }
    }
}

pub open spec fn cursor_wf(c: Option<Addressing>) -> bool {
    c matches Some(a) ==> a.wf()
}

/// The addressing that follows a cursor on `chain`: index 0 where the cursor
/// is empty, the next index otherwise.
pub open spec fn next_of(c: Option<Addressing>, chain: AddrType) -> Result<Addressing, Error> {
    match c {
        None => Ok(Addressing { chain, index: 0 }),
        Some(a) => if a.index + 1 < crate::addressing::HARDENED {
            Ok(Addressing { chain: a.chain, index: (a.index + 1) as u32 })
        } else {
            Err(Error::RangeExceeded)
        },
    }
}

impl<K: KeyScheme> WalletModel<K> {
    pub open spec fn wf(self) -> bool {
        cursor_wf(self.last_external) && cursor_wf(self.last_internal)
    }

    /// The address this wallet makes for `a`.
    pub open spec fn address_for(self, a: Addressing) -> AddressModel {
        AddressModel {
            addr_type: AddrKind::PubKey,
            spending_key: K::public_key_of(self.seed, path_of(a)),
            derivation_path: Some(K::encrypted_path(self.seed, path_of(a))),
        }
    }

    /// The outcome of recognising `addr`, the checks taken in order.
    pub open spec fn recognition(self, addr: AddressModel) -> Result<Addressing, Error> {
        match addr.derivation_path {
            None => Err(Error::NotMyAddress_NoPayload),
            Some(blob) => match K::decrypted_path(self.seed, blob) {
                None => Err(Error::NotMyAddress_CannotDecodePayload),
                Some(p) => match addressing_of_path(p) {
                    None => Err(Error::NotMyAddress_InvalidAddressing),
                    Some(a) => if addr == self.address_for(a) {
                        Ok(a)
                    } else {
                        Err(Error::NotMyAddress_NotMyPublicKey)
                    },
                },
            },
        }
    }

    /// The wallet after `a` was seen: the cursor of `a`'s chain becomes `a`.
    pub open spec fn observed(self, a: Addressing) -> WalletModel<K> {
        if a.chain == AddrType::Internal {
            WalletModel { last_internal: Some(a), ..self }
        } else {
            WalletModel { last_external: Some(a), ..self }
        }
    }

    /// Whether `tx` and `witnesses` spend `selected` out of `inputs`, pay
    /// `outputs`, then `fee` to `fee_addr`, then `change` to `change_addr`,
    /// and hold one witness per spent input, in order, each by the key the
    /// input's address was recognised at; and whether `after` is `start`
    /// once each spent input's addressing has moved its chain's cursor.
    pub open spec fn bundle_with(
        self,
        inputs: Seq<InputModel>,
        outputs: Seq<TxOutModel>,
        fee_addr: AddressModel,
        change_addr: AddressModel,
        fee: u64,
        change: u64,
        selected: Seq<InputModel>,
        tx: TxModel,
        witnesses: Seq<Seq<u8>>,
        start: WalletModel<K>,
        after: WalletModel<K>,
    ) -> bool {
        &&& after == start.observe_prefix(selected, selected.len() as int)
        &&& forall|i: int|
            0 <= i < selected.len() ==> exists|j: int|
                0 <= j < inputs.len() && #[trigger] selected[i] == inputs[j]
        &&& total_input(selected) == total_output(outputs) + fee + change
        &&& tx.inputs == selected.map_values(|x: InputModel| x.ptr)
        &&& tx.outputs == outputs.push(TxOutModel { address: fee_addr, value: fee }).push(
            TxOutModel { address: change_addr, value: change },
        )
        &&& witnesses.len() == selected.len()
        &&& forall|i: int|
            0 <= i < selected.len() ==> {
                &&& #[trigger] self.recognition(selected[i].value.address) is Ok
                &&& witnesses[i] == K::witness_of(
                    self.config,
                    self.seed,
                    path_of(self.recognition(selected[i].value.address)->Ok_0),
                    tx,
                )
            }
    }

    /// Whether `tx` and `witnesses` form a bundle as `bundle_with` describes,
    /// for some fee, change and selection.
    pub open spec fn is_bundle(
        self,
        inputs: Seq<InputModel>,
        outputs: Seq<TxOutModel>,
        fee_addr: AddressModel,
        change_addr: AddressModel,
        tx: TxModel,
        witnesses: Seq<Seq<u8>>,
        start: WalletModel<K>,
        after: WalletModel<K>,
    ) -> bool {
        exists|fee: u64, change: u64, selected: Seq<InputModel>|
            #[trigger] self.bundle_with(
                inputs,
                outputs,
                fee_addr,
                change_addr,
                fee,
                change,
                selected,
                tx,
                witnesses,
                start,
                after,
            )
    }

    /// One witness per input of `sel`, in order, each by the key at which
    /// the input's address is recognised.
    pub open spec fn witnesses_for(self, sel: Seq<InputModel>, tx: TxModel) -> Seq<Seq<u8>> {
        Seq::new(
            sel.len(),
            |i: int|
                K::witness_of(
                    self.config,
                    self.seed,
                    path_of(self.recognition(sel[i].value.address)->Ok_0),
                    tx,
                ),
        )
    }

    /// The wallet after recognising the addresses of the first `n` inputs of
    /// `sel` in order: each recognised addressing moves its chain's cursor.
    pub open spec fn observe_prefix(self, sel: Seq<InputModel>, n: int) -> WalletModel<K>
        decreases n,
    {
        if n <= 0 {
            self
        } else {
            let w = self.observe_prefix(sel, n - 1);
            match self.recognition(sel[n - 1].value.address) {
                Ok(a) => w.observed(a),
                Err(_) => w,
            }
        }
    }

    /// The parts of the wallet that no operation changes.
    pub open spec fn same_keys(self, other: WalletModel<K>) -> bool {
        &&& self.seed == other.seed
        &&& self.config == other.config
        &&& self.policy == other.policy
        &&& self.scheme == other.scheme
    }
}

/// The transaction that spends `sel` and pays `outputs`, then `fee` to
/// `fee_addr`, then `change` to `change_addr`.
pub open spec fn selection_tx(
    sel: Seq<InputModel>,
    outputs: Seq<TxOutModel>,
    fee_addr: AddressModel,
    change_addr: AddressModel,
    fee: u64,
    change: u64,
) -> TxModel {
    TxModel {
        inputs: sel.map_values(|x: InputModel| x.ptr),
        outputs: outputs.push(TxOutModel { address: fee_addr, value: fee }).push(
            TxOutModel { address: change_addr, value: change },
        ),
    }
}

pub open spec fn witnesses_model(s: Seq<Vec<u8>>) -> Seq<Seq<u8>> {
    s.map_values(|w: Vec<u8>| w@)
}

impl<K: KeyScheme> Wallet<K> {
    /// A wallet on `seed` with empty cursors, the main network's parameters
    /// and the default selection policy.
    pub fn new_from_seed(seed: Vec<u8>, scheme: K) -> (r: Wallet<K>)
        ensures
            r@ == (WalletModel {
                seed: seed@,
                last_external: None,
                last_internal: None,
                config: Config { protocol_magic: crate::keys::MAINNET_MAGIC },
                policy: SelectionPolicy::FirstMatchFirst,
                scheme,
            }),
    {
        Wallet {
            seed,
            last_known_address: None,
            last_known_change: None,
            config: Config::default_config(),
            selection_policy: SelectionPolicy::default_policy(),
            scheme,
        }
    }

    /// Sets the last addressing used on the receiving chain.
    pub fn force_last_known_address(&mut self, addressing: Addressing)
        requires
            old(self)@.wf(),
            addressing.wf(),
        ensures
            final(self)@ == (WalletModel { last_external: Some(addressing), ..old(self)@ }),
            final(self)@.wf(),
    {
        self.last_known_address = Some(addressing);
    }

    /// Sets the last addressing used on the change chain.
    pub fn force_last_known_change(&mut self, addressing: Addressing)
        requires
            old(self)@.wf(),
            addressing.wf(),
        ensures
            final(self)@ == (WalletModel { last_internal: Some(addressing), ..old(self)@ }),
            final(self)@.wf(),
    {
        self.last_known_change = Some(addressing);
    }

    /// The address of `addressing`: its spending data commits to the derived
    /// public key and its attributes carry the encrypted path. The wallet
    /// recognises it at `addressing`.
    pub fn make_address(&self, addressing: &Addressing) -> (r: Address)
        ensures
            r@ == self@.address_for(*addressing),
            addressing.wf() ==> self@.recognition(r@) == Ok::<Addressing, Error>(*addressing),
    {
        let path = addressing.to_path();
        let pk = self.scheme.public_key(&self.seed, &path);
        let hdap = self.scheme.encrypt_path(&self.seed, &path);
        proof {
            if addressing.wf() {
                lemma_path_round_trip(*addressing);
            }
        }
        Address { addr_type: AddrKind::PubKey, spending_key: pk, derivation_path: Some(hdap) }
    }

    /// The addressing after `cursor` on `chain`.
    fn next_addressing(cursor: &Option<Addressing>, chain: AddrType) -> (r: Result<
        Addressing,
        Error,
    >)
        requires
            cursor_wf(*cursor),
        ensures
            r == next_of(*cursor, chain),
            r matches Ok(a) ==> a.wf(),
    {
        match cursor {
            None => Ok(Addressing::first(chain)),
            Some(lkp) => match lkp.next() {
                Ok(a) => Ok(a),
                Err(AddressingError::RangeExceeded) => Err(Error::RangeExceeded),
            },
        }
    }

    /// A fresh receiving address: the one after the receiving cursor, which
    /// moves to it.
    pub fn new_address(&mut self) -> (r: Result<Address, Error>)
        requires
            old(self)@.wf(),
        ensures
            final(self)@.wf(),
            match next_of(old(self)@.last_external, AddrType::External) {
                Ok(a) => {
                    &&& r matches Ok(addr) && addr@ == old(self)@.address_for(a)
                    &&& final(self)@ == (WalletModel { last_external: Some(a), ..old(self)@ })
                },
                Err(e) => r == Err::<Address, Error>(e) && final(self)@ == old(self)@,
            },
    {
        let addressing = Self::next_addressing(&self.last_known_address, AddrType::External)?;
        self.force_last_known_address(addressing);
        Ok(self.make_address(&addressing))
    }

    /// A fresh change address: the one after the change cursor, which moves
    /// to it.
    pub fn new_change(&mut self) -> (r: Result<Address, Error>)
        requires
            old(self)@.wf(),
        ensures
            final(self)@.wf(),
            match next_of(old(self)@.last_internal, AddrType::Internal) {
                Ok(a) => {
                    &&& r matches Ok(addr) && addr@ == old(self)@.address_for(a)
                    &&& final(self)@ == (WalletModel { last_internal: Some(a), ..old(self)@ })
                },
                Err(e) => r == Err::<Address, Error>(e) && final(self)@ == old(self)@,
            },
    {
        let addressing = Self::next_addressing(&self.last_known_change, AddrType::Internal)?;
        self.force_last_known_change(addressing);
        Ok(self.make_address(&addressing))
    }

    /// The addressing `addr` was made at, if this wallet made it; on success
    /// the cursor of its chain moves to it.
    pub fn recognize_address(&mut self, addr: &Address) -> (r: Result<Addressing, Error>)
        requires
            old(self)@.wf(),
        ensures
            r == old(self)@.recognition(addr@),
            final(self)@.wf(),
            match r {
                Ok(a) => final(self)@ == old(self)@.observed(a),
                Err(_) => final(self)@ == old(self)@,
            },
    {
        let hdpa = match &addr.derivation_path {
            Some(hdpa) => hdpa,
            None => return Err(Error::NotMyAddress_NoPayload),
        };
        let addressing = match self.scheme.decrypt_path(&self.seed, hdpa) {
            Some(path) => match Addressing::from_path(&path) {
                None => return Err(Error::NotMyAddress_InvalidAddressing),
                Some(addressing) => addressing,
            },
            None => return Err(Error::NotMyAddress_CannotDecodePayload),
        };
        proof {
            crate::addressing::lemma_path_of_addressing(
                K::decrypted_path(self.seed@, hdpa@).unwrap(),
            );
        }
        let addr2 = self.make_address(&addressing);
        if !addr.same_as(&addr2) {
            return Err(Error::NotMyAddress_NotMyPublicKey);
        }
        if addressing.address_type() == AddrType::Internal {
            self.force_last_known_change(addressing);
        } else {
            self.force_last_known_address(addressing);
        }
        Ok(addressing)
    }

    /// The addressing of the address a candidate input spends from.
    fn recognize_input(&mut self, input: &Input) -> (r: Result<Addressing, Error>)
        requires
            old(self)@.wf(),
        ensures
            r == old(self)@.recognition(input.value.address@),
            final(self)@.wf(),
            match r {
                Ok(a) => final(self)@ == old(self)@.observed(a),
                Err(_) => final(self)@ == old(self)@,
            },
    {
        self.recognize_address(&input.value.address)
    }

    /// A transaction ready to send: a fresh change address, the inputs and
    /// fee that `alg` selects, the requested outputs followed by the fee and
    /// the change, and one witness per selected input.
    pub fn new_transaction<F: FeeAlgorithm>(
        &mut self,
        alg: &F,
        inputs: &Vec<Input>,
        outputs: &Vec<TxOut>,
        fee_addr: &Address,
    ) -> (r: Result<TxAux, Error>)
        requires
            old(self)@.wf(),
        ensures
            final(self)@.wf(),
            final(self)@.same_keys(old(self)@),
            next_of(old(self)@.last_internal, AddrType::Internal) is Err ==> r == Err::<
                TxAux,
                Error,
            >(Error::RangeExceeded),
            r == Err::<TxAux, Error>(Error::RangeExceeded) ==> next_of(
                old(self)@.last_internal,
                AddrType::Internal,
            ) is Err && final(self)@ == old(self)@,
            r matches Err(Error::FeeCalculationError(_)) ==> final(self)@ == (WalletModel {
                last_internal: Some(next_of(old(self)@.last_internal, AddrType::Internal)->Ok_0),
                ..old(self)@
            }),
            next_of(old(self)@.last_internal, AddrType::Internal) is Ok && total_input(
                inputs_model(inputs@),
            ) < total_output(txouts_model(outputs@)) ==> r matches Err(
                Error::FeeCalculationError(_),
            ),
            r matches Ok(aux) ==> {
                &&& next_of(old(self)@.last_internal, AddrType::Internal) is Ok
                &&& old(self)@.is_bundle(
                    inputs_model(inputs@),
                    txouts_model(outputs@),
                    fee_addr@,
                    old(self)@.address_for(
                        next_of(old(self)@.last_internal, AddrType::Internal)->Ok_0,
                    ),
                    aux.tx@,
                    witnesses_model(aux.witnesses@),
                    WalletModel {
                        last_internal: Some(
                            next_of(old(self)@.last_internal, AddrType::Internal)->Ok_0,
                        ),
                        ..old(self)@
                    },
                    final(self)@,
                )
            },
    {
        let ghost w0 = self@;
        let change_addr = self.new_change()?;
        let ghost change_model = change_addr@;
        let selection = alg.compute(self.selection_policy, inputs, outputs, &change_addr, fee_addr);
        let ghost sel_result = selection;
        let ghost w1 = self@;
        let r = self.sign_selection(selection, outputs, fee_addr, change_addr);
        proof {
            assert forall|x: AddressModel| #[trigger] w1.recognition(x) == w0.recognition(x) by {
                lemma_same_keys_recognition(w1, w0, x);
            }
            if r is Ok {
                let aux = r->Ok_0;
                let (fee, selected, change) = sel_result->Ok_0;
                let sel = inputs_model(selected@);
                assert(witnesses_model(aux.witnesses@) == w1.witnesses_for(sel, aux.tx@));
                assert(w1.witnesses_for(sel, aux.tx@) =~= w0.witnesses_for(sel, aux.tx@));
                assert forall|i: int| 0 <= i < sel.len() implies #[trigger] w0.recognition(
                    sel[i].value.address,
                ) is Ok by {
                    assert(w1.recognition(sel[i].value.address) is Ok);
                }
                assert forall|i: int| 0 <= i < sel.len() implies exists|j: int|
                    0 <= j < inputs@.len() && #[trigger] sel[i] == inputs_model(inputs@)[j] by {
                    let j = choose|j: int|
                        0 <= j < inputs.len() && selected@[i]@ == inputs@[j]@;
                    assert(inputs_model(inputs@)[j] == inputs@[j]@);
                }
                assert(w0.bundle_with(
                    inputs_model(inputs@),
                    txouts_model(outputs@),
                    fee_addr@,
                    change_model,
                    fee,
                    change,
                    sel,
                    aux.tx@,
                    witnesses_model(aux.witnesses@),
                    w1,
                    self@,
                ));
            }
            if r is Err && sel_result is Ok {
                let (fee, selected, change) = sel_result->Ok_0;
                let sel = inputs_model(selected@);
                let i = choose|i: int|
                    0 <= i < sel.len() && #[trigger] w1.recognition(sel[i].value.address)
                        == Err::<Addressing, Error>(r->Err_0);
                lemma_recognition_errors(w1, sel[i].value.address);
            }
            if total_input(inputs_model(inputs@)) < total_output(txouts_model(outputs@)) {
                assert(sel_result is Err);
            }
        }
        r
    }

    /// The transaction for the outcome of coin selection: where the
    /// selection failed, its error; otherwise the chosen inputs, the
    /// requested outputs followed by the fee and the change, and one witness
    /// per chosen input in order, each by the key its address is recognised
    /// at; each recognised input moves its chain's cursor. Fails with the
    /// recognition error of the first chosen input whose address is not this
    /// wallet's, having moved the cursors for the inputs before it.
    pub fn sign_selection(
        &mut self,
        selection: Result<(u64, Vec<Input>, u64), FeeError>,
        outputs: &Vec<TxOut>,
        fee_addr: &Address,
        change_addr: Address,
    ) -> (r: Result<TxAux, Error>)
        requires
            old(self)@.wf(),
        ensures
            final(self)@.wf(),
            final(self)@.same_keys(old(self)@),
            selection is Err ==> r == Err::<TxAux, Error>(
                Error::FeeCalculationError(selection->Err_0),
            ) && final(self)@ == old(self)@,
            selection is Ok ==> {
                let (fee, selected, change) = selection->Ok_0;
                let sel = inputs_model(selected@);
                let tx = selection_tx(sel, txouts_model(outputs@), fee_addr@, change_addr@, fee, change);
                &&& r is Ok <==> forall|i: int|
                    0 <= i < sel.len() ==> (#[trigger] old(self)@.recognition(
                        sel[i].value.address,
                    )) is Ok
                &&& r matches Ok(aux) ==> {
                    &&& aux.tx@ == tx
                    &&& witnesses_model(aux.witnesses@) == old(self)@.witnesses_for(sel, tx)
                    &&& final(self)@ == old(self)@.observe_prefix(sel, sel.len() as int)
                }
                &&& r matches Err(e) ==> exists|i: int|
                    0 <= i < sel.len() && #[trigger] old(self)@.recognition(
                        sel[i].value.address,
                    ) == Err::<Addressing, Error>(e) && (forall|k: int|
                        0 <= k < i ==> (#[trigger] old(self)@.recognition(
                            sel[k].value.address,
                        )) is Ok) && final(self)@ == old(self)@.observe_prefix(sel, i)
            },
    {
        let ghost w0 = self@;
        let ghost sel_in = selection;
        let (fee, selected_inputs, change) = match selection {
            Ok(res) => res,
            Err(e) => return Err(Error::from(e)),
        };
        let ghost sel = inputs_model(selected_inputs@);
        let mut tx_outputs = copy_outputs(outputs);
        tx_outputs.push(TxOut { address: fee_addr.duplicate(), value: fee });
        let ghost change_model = change_addr@;
        tx_outputs.push(TxOut { address: change_addr, value: change });
        let tx = Tx { inputs: input_pointers(&selected_inputs), outputs: tx_outputs };
        assert(tx@.outputs =~= txouts_model(outputs@).push(
            TxOutModel { address: fee_addr@, value: fee },
        ).push(TxOutModel { address: change_model, value: change }));
        assert(tx@.inputs =~= sel.map_values(|x: InputModel| x.ptr));
        assert(tx@ == selection_tx(sel, txouts_model(outputs@), fee_addr@, change_model, fee, change));

        let mut witnesses: Vec<Vec<u8>> = Vec::new();
        let mut i: usize = 0;
        while i < selected_inputs.len()
            invariant
                i <= selected_inputs.len(),
                self@.wf(),
                self@.same_keys(w0),
                w0 == old(self)@,
                sel_in == selection,
                sel_in matches Ok((f, v, c)) && v == selected_inputs,
                sel == inputs_model(selected_inputs@),
                self@ == w0.observe_prefix(sel, i as int),
                witnesses@.len() == i,
                forall|k: int|
                    0 <= k < i ==> (#[trigger] w0.recognition(sel[k].value.address)) is Ok,
                forall|k: int|
                    0 <= k < i ==> #[trigger] witnesses@[k]@ == w0.witnesses_for(sel, tx@)[k],
            decreases selected_inputs.len() - i,
        {
            assert(sel[i as int] == selected_inputs@[i as int]@);
            let addressing = match self.recognize_input(&selected_inputs[i]) {
                Ok(a) => a,
                Err(e) => {
                    proof {
                        lemma_same_keys_recognition(self@, w0, sel[i as int].value.address);
                    }
                    return Err(e);
                },
            };
            proof {
                lemma_same_keys_recognition(
                    w0.observe_prefix(sel, i as int),
                    w0,
                    sel[i as int].value.address,
                );
            }
            let path = addressing.to_path();
            let witness = self.scheme.sign(&self.config, &self.seed, &path, &tx);
            witnesses.push(witness);
            i = i + 1;
        }
        assert(witnesses_model(witnesses@) =~= w0.witnesses_for(sel, tx@));
        Ok(TxAux { tx, witnesses })
    }
}

/// Recognition fails only with one of the four recognition errors.
proof fn lemma_recognition_errors<K: KeyScheme>(w: WalletModel<K>, x: AddressModel)
    ensures
        w.recognition(x) matches Err(e) ==> e != Error::RangeExceeded && !(
        e is FeeCalculationError),
{
}

/// Recognition depends on the seed and the key scheme alone.
proof fn lemma_same_keys_recognition<K: KeyScheme>(
    w1: WalletModel<K>,
    w2: WalletModel<K>,
    x: AddressModel,
)
    requires
        w1.same_keys(w2),
    ensures
        w1.recognition(x) == w2.recognition(x),
{
    if let Some(blob) = x.derivation_path {
        if let Some(p) = K::decrypted_path(w2.seed, blob) {
            if let Some(a) = addressing_of_path(p) {
                assert(w1.address_for(a) == w2.address_for(a));
            }
        }
    }
}

/// An address is a function of the seed and the addressing: two wallets on
/// the same seed make the same address, whatever their cursors.
pub proof fn lemma_make_address_deterministic<K: KeyScheme>(
    w1: WalletModel<K>,
    w2: WalletModel<K>,
    a: Addressing,
)
    requires
        w1.seed == w2.seed,
    ensures
        w1.address_for(a) == w2.address_for(a),
{
}

/// From an empty receiving cursor, the first fresh receiving address is the
/// one at index 0 of the external chain, the second the one at index 1, and,
/// where the codec recovers what it encrypts, the two differ.
pub proof fn lemma_sequential_generation<K: KeyScheme>(w: WalletModel<K>)
    requires
        w.last_external.is_none(),
        recovers_paths::<K>(w.seed),
    ensures
        next_of(w.last_external, AddrType::External) == Ok::<Addressing, Error>(
            Addressing { chain: AddrType::External, index: 0 },
        ),
        next_of(Some(Addressing { chain: AddrType::External, index: 0 }), AddrType::External)
            == Ok::<Addressing, Error>(Addressing { chain: AddrType::External, index: 1 }),
        w.address_for(Addressing { chain: AddrType::External, index: 0 }) != w.address_for(
            Addressing { chain: AddrType::External, index: 1 },
        ),
{
    let a0 = Addressing { chain: AddrType::External, index: 0 };
    let a1 = Addressing { chain: AddrType::External, index: 1 };
    assert(K::decrypted_path(w.seed, K::encrypted_path(w.seed, path_of(a0))) == Some(
        path_of(a0),
    ));
    assert(K::decrypted_path(w.seed, K::encrypted_path(w.seed, path_of(a1))) == Some(
        path_of(a1),
    ));
    assert(path_of(a0)[4] != path_of(a1)[4]);
}

/// Where the codec recovers what it encrypts, a wallet recognises every
/// address it makes, at the addressing it made it at.
pub proof fn lemma_recognize_round_trip<K: KeyScheme>(w: WalletModel<K>, a: Addressing)
    requires
        a.wf(),
        recovers_paths::<K>(w.seed),
    ensures
        w.recognition(w.address_for(a)) == Ok::<Addressing, Error>(a),
{
    assert(K::decrypted_path(w.seed, K::encrypted_path(w.seed, path_of(a))) == Some(
        path_of(a),
    ));
    lemma_path_round_trip(a);
}

/// A wallet accepts an address only where it would have made that very
/// address itself; in particular, it accepts another wallet's address only
/// where the two wallets make identical addresses, and never for want of a
/// payload.
pub proof fn lemma_cross_wallet<K: KeyScheme>(
    w1: WalletModel<K>,
    w2: WalletModel<K>,
    a2: Addressing,
)
    ensures
        w1.recognition(w2.address_for(a2)) matches Ok(a1) ==> a1.wf() && w1.address_for(a1)
            == w2.address_for(a2),
        w1.recognition(w2.address_for(a2)) != Err::<Addressing, Error>(
            Error::NotMyAddress_NoPayload,
        ),
{
    let addr = w2.address_for(a2);
    if let Some(p) = K::decrypted_path(w1.seed, addr.derivation_path.unwrap()) {
        if addressing_of_path(p).is_some() {
            crate::addressing::lemma_path_of_addressing(p);
        }
    }
}

} // verus!
