use vstd::prelude::*;

verus! {

/// First index of the hardened half of the derivation space; an addressing
/// index always stays below it.
pub const HARDENED: u32 = 0x8000_0000;

/// Hardened path components that precede the chain and the index.
pub const PURPOSE: u32 = 0x8000_002C;
pub const COIN_TYPE: u32 = 0x8000_0717;
pub const ACCOUNT: u32 = 0x8000_0000;

/// One of the two independent derivation chains.
#[derive(Clone, Copy, Debug, PartialEq, Eq, Structural)]
pub enum AddrType {
    /// Receiving addresses.
    External,
    /// Change addresses.
    Internal,
}

/// Failure of an addressing increment.
#[derive(Clone, Copy, Debug, PartialEq, Eq, Structural)]
pub enum AddressingError {
    /// The next index would reach the hardened boundary.
    RangeExceeded,
}

/// A position in one of the two chains.
#[derive(Clone, Copy, Debug, PartialEq, Eq, Structural)]
pub struct Addressing {
    pub chain: AddrType,
    pub index: u32,
}

/// The path component that stands for a chain.
pub open spec fn chain_component(c: AddrType) -> u32 {
    match c {
        AddrType::External => 0,
        AddrType::Internal => 1,
    }
}

/// The raw derivation path of an addressing.
pub open spec fn path_of(a: Addressing) -> Seq<u32> {
    seq![PURPOSE, COIN_TYPE, ACCOUNT, chain_component(a.chain), a.index]
}

impl Addressing {
    /// An addressing is valid when its index is below the hardened boundary.
    pub open spec fn wf(self) -> bool {
        self.index < HARDENED
    }

    /// The addressing at `index` on `chain`, if the index is below the boundary.
    pub fn new(index: u32, chain: AddrType) -> (r: Option<Addressing>)
        ensures
            index < HARDENED ==> r == Some(Addressing { chain, index }),
            index >= HARDENED ==> r.is_none(),
    {
        if index < HARDENED {
            Some(Addressing { chain, index })
        } else {
            None
        }
    }

    /// The addressing at index 0 of `chain`.
    pub fn first(chain: AddrType) -> (r: Addressing)
        ensures
            r == (Addressing { chain, index: 0 }),
            r.wf(),
    {
        Addressing { chain, index: 0 }
    }

    /// The chain this addressing lies on.
    pub fn address_type(&self) -> (r: AddrType)
        ensures
            r == self.chain,
    {
        self.chain
    }

    /// The next addressing on the same chain, or `RangeExceeded` where the
    /// index would reach the hardened boundary.
    pub fn next(&self) -> (r: Result<Addressing, AddressingError>)
        requires
            self.wf(),
        ensures
            self.index + 1 < HARDENED ==> r == Ok::<Addressing, AddressingError>(
                Addressing { chain: self.chain, index: (self.index + 1) as u32 },
            ),
            self.index + 1 >= HARDENED ==> r == Err::<Addressing, AddressingError>(
                AddressingError::RangeExceeded,
            ),
    {
        if self.index < HARDENED - 1 {
            Ok(Addressing { chain: self.chain, index: self.index + 1 })
        } else {
            Err(AddressingError::RangeExceeded)
        }
    }

    /// The raw derivation path: purpose, coin type, account, chain, index.
    pub fn to_path(&self) -> (r: Vec<u32>)
        ensures
            r@ == path_of(*self),
    {
        let c: u32 = match self.chain {
            AddrType::External => 0,
            AddrType::Internal => 1,
        };
        let r = vec![PURPOSE, COIN_TYPE, ACCOUNT, c, self.index];
        assert(r@ =~= path_of(*self));
        r
    }

    /// The addressing whose path is `path`, if there is one.
    pub fn from_path(path: &Vec<u32>) -> (r: Option<Addressing>)
        ensures
            r == addressing_of_path(path@),
    {
        if path.len() != 5 || path[0] != PURPOSE || path[1] != COIN_TYPE || path[2] != ACCOUNT
            || path[4] >= HARDENED {
            return None;
        }
        if path[3] == 0 {
            Some(Addressing { chain: AddrType::External, index: path[4] })
        } else if path[3] == 1 {
            Some(Addressing { chain: AddrType::Internal, index: path[4] })
        } else {
            None
        }
    }
}

/// The addressing that a raw path stands for, if any.
pub open spec fn addressing_of_path(p: Seq<u32>) -> Option<Addressing> {
    if p.len() == 5 && p[0] == PURPOSE && p[1] == COIN_TYPE && p[2] == ACCOUNT && p[4] < HARDENED
        && (p[3] == 0 || p[3] == 1) {
        Some(
            Addressing {
                chain: if p[3] == 0 {
                    AddrType::External
                } else {
                    AddrType::Internal
                },
                index: p[4],
            },
        )
    } else {
        None
    }
}

/// Converting a valid addressing to its path and back gives the same addressing.
pub proof fn lemma_path_round_trip(a: Addressing)
    requires
        a.wf(),
    ensures
        addressing_of_path(path_of(a)) == Some(a),
{
}

/// Every addressing read from a path is valid, and its path is that path.
pub proof fn lemma_path_of_addressing(p: Seq<u32>)
    requires
        addressing_of_path(p).is_some(),
    ensures
        addressing_of_path(p).unwrap().wf(),
        path_of(addressing_of_path(p).unwrap()) == p,
{
    assert(path_of(addressing_of_path(p).unwrap()) =~= p);
}

} // verus!
