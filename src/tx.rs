use vstd::prelude::*;
use crate::address::{Address, AddressModel, copy_bytes};

verus! {

/// A reference to an output of an earlier transaction.
#[derive(Clone, Debug)]
pub struct TxIn {
    pub id: Vec<u8>,
    pub index: u32,
}

pub struct TxInModel {
    pub id: Seq<u8>,
    pub index: u32,
}

impl View for TxIn {
    type V = TxInModel;

    open spec fn view(&self) -> TxInModel {
        TxInModel { id: self.id@, index: self.index }
    }
}

/// An amount paid to an address.
#[derive(Clone, Debug)]
pub struct TxOut {
    pub address: Address,
    pub value: u64,
}

pub struct TxOutModel {
    pub address: AddressModel,
    pub value: u64,
}

impl View for TxOut {
    type V = TxOutModel;

    open spec fn view(&self) -> TxOutModel {
        TxOutModel { address: self.address@, value: self.value }
    }
}

/// A spendable candidate: the output it spends, and what that output holds.
#[derive(Clone, Debug)]
pub struct Input {
    pub ptr: TxIn,
    pub value: TxOut,
}

pub struct InputModel {
    pub ptr: TxInModel,
    pub value: TxOutModel,
}

impl View for Input {
    type V = InputModel;

    open spec fn view(&self) -> InputModel {
        InputModel { ptr: self.ptr@, value: self.value@ }
    }
}

/// A transaction: the outputs it spends and the outputs it creates.
#[derive(Clone, Debug)]
pub struct Tx {
    pub inputs: Vec<TxIn>,
    pub outputs: Vec<TxOut>,
}

pub struct TxModel {
    pub inputs: Seq<TxInModel>,
    pub outputs: Seq<TxOutModel>,
}

impl View for Tx {
    type V = TxModel;

    open spec fn view(&self) -> TxModel {
        TxModel { inputs: txins_model(self.inputs@), outputs: txouts_model(self.outputs@) }
    }
}

/// A transaction with one witness per input, in input order.
#[derive(Clone, Debug)]
pub struct TxAux {
    pub tx: Tx,
    pub witnesses: Vec<Vec<u8>>,
}

pub open spec fn txins_model(s: Seq<TxIn>) -> Seq<TxInModel> {
    s.map_values(|x: TxIn| x@)
}

pub open spec fn txouts_model(s: Seq<TxOut>) -> Seq<TxOutModel> {
    s.map_values(|x: TxOut| x@)
}

pub open spec fn inputs_model(s: Seq<Input>) -> Seq<InputModel> {
    s.map_values(|x: Input| x@)
}

/// Total value held by a sequence of candidate inputs.
pub open spec fn total_input(s: Seq<InputModel>) -> int
    decreases s.len(),
{
    if s.len() == 0 {
        0
    } else {
        total_input(s.drop_last()) + s.last().value.value
    }
}

/// Total value paid by a sequence of outputs.
pub open spec fn total_output(s: Seq<TxOutModel>) -> int
    decreases s.len(),
{
    if s.len() == 0 {
        0
    } else {
        total_output(s.drop_last()) + s.last().value
    }
}

/// How the selection algorithm picks inputs.
#[derive(Clone, Copy, Debug, PartialEq, Eq, Structural)]
pub enum SelectionPolicy {
    FirstMatchFirst,
}

impl SelectionPolicy {
    pub fn default_policy() -> (r: SelectionPolicy)
        ensures
            r == SelectionPolicy::FirstMatchFirst,
    {
        SelectionPolicy::FirstMatchFirst
    }
}

/// Why the selection algorithm could not cover the requested outputs.
#[derive(Clone, Copy, Debug, PartialEq, Eq, Structural)]
pub enum FeeError {
    NoInputs,
    NoOutputs,
    NotEnoughInput,
}

/// A coin-selection and fee algorithm.
///
/// On success it returns the fee, the chosen inputs and the change: every
/// chosen input is one of the candidates, the chosen inputs hold no more than
/// all the candidates together, and they pay exactly for the requested
/// outputs, the fee and the change.
pub trait FeeAlgorithm {
    fn compute(
        &self,
        policy: SelectionPolicy,
        inputs: &Vec<Input>,
        outputs: &Vec<TxOut>,
        change_addr: &Address,
        fee_addr: &Address,
    ) -> (r: Result<(u64, Vec<Input>, u64), FeeError>)
        ensures
            r matches Ok((fee, selected, change)) ==> {
                &&& forall|i: int|
                    0 <= i < selected.len() ==> exists|j: int|
                        0 <= j < inputs.len() && #[trigger] selected@[i]@ == inputs@[j]@
                &&& total_input(inputs_model(selected@)) <= total_input(inputs_model(inputs@))
                &&& total_input(inputs_model(selected@)) == total_output(txouts_model(outputs@))
                    + fee + change
            },
    ;
}

impl TxIn {
    /// A copy of this reference.
    pub fn duplicate(&self) -> (r: TxIn)
        ensures
            r@ == self@,
    {
        TxIn { id: copy_bytes(&self.id), index: self.index }
    }
}

impl TxOut {
    /// A copy of this output.
    pub fn duplicate(&self) -> (r: TxOut)
        ensures
            r@ == self@,
    {
        TxOut { address: self.address.duplicate(), value: self.value }
    }
}

/// The references of the chosen inputs, in order.
pub fn input_pointers(selected: &Vec<Input>) -> (r: Vec<TxIn>)
    ensures
        txins_model(r@) == inputs_model(selected@).map_values(|x: InputModel| x.ptr),
{
    let mut r: Vec<TxIn> = Vec::new();
    let mut i: usize = 0;
    while i < selected.len()
        invariant
            i <= selected.len(),
            r@.len() == i,
            forall|j: int| 0 <= j < i ==> #[trigger] r@[j]@ == selected@[j]@.ptr,
        decreases selected.len() - i,
    {
        r.push(selected[i].ptr.duplicate());
        i = i + 1;
    }
    assert(txins_model(r@) =~= inputs_model(selected@).map_values(|x: InputModel| x.ptr));
    r
}

/// A copy of a sequence of outputs.
pub fn copy_outputs(outputs: &Vec<TxOut>) -> (r: Vec<TxOut>)
    ensures
        txouts_model(r@) == txouts_model(outputs@),
{
    let mut r: Vec<TxOut> = Vec::new();
    let mut i: usize = 0;
    while i < outputs.len()
        invariant
            i <= outputs.len(),
            r@.len() == i,
            forall|j: int| 0 <= j < i ==> #[trigger] r@[j]@ == outputs@[j]@,
        decreases outputs.len() - i,
    {
        r.push(outputs[i].duplicate());
        i = i + 1;
    }
    assert(txouts_model(r@) =~= txouts_model(outputs@));
    r
}

} // verus!
