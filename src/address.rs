use vstd::prelude::*;

verus! {

/// The kind of spending condition an address commits to.
#[derive(Clone, Copy, Debug, PartialEq, Eq, Structural)]
pub enum AddrKind {
    PubKey,
    Script,
    Redeem,
}

/// An address: its kind, the public key its spending data commits to, and
/// the optional encrypted derivation path among its attributes.
#[derive(Clone, Debug)]
pub struct Address {
    pub addr_type: AddrKind,
    pub spending_key: Vec<u8>,
    pub derivation_path: Option<Vec<u8>>,
}

/// The mathematical value of an address.
pub struct AddressModel {
    pub addr_type: AddrKind,
    pub spending_key: Seq<u8>,
    pub derivation_path: Option<Seq<u8>>,
}

pub open spec fn bytes_of_option(o: Option<Vec<u8>>) -> Option<Seq<u8>> {
    match o {
        Some(v) => Some(v@),
        None => None,
    }
}

impl View for Address {
    type V = AddressModel;

    open spec fn view(&self) -> AddressModel {
        AddressModel {
            addr_type: self.addr_type,
            spending_key: self.spending_key@,
            derivation_path: bytes_of_option(self.derivation_path),
        }
    }
}

/// Whether two byte strings are identical.
pub fn bytes_eq(a: &Vec<u8>, b: &Vec<u8>) -> (r: bool)
    ensures
        r == (a@ == b@),
{
    if a.len() != b.len() {
        return false;
    }
    let mut i: usize = 0;
    while i < a.len()
        invariant
            a.len() == b.len(),
            i <= a.len(),
            a@.subrange(0, i as int) == b@.subrange(0, i as int),
        decreases a.len() - i,
    {
        if a[i] != b[i] {
            assert(a@[i as int] != b@[i as int]);
            return false;
        }
        assert(a@.subrange(0, i + 1) =~= a@.subrange(0, i as int).push(a@[i as int]));
        assert(b@.subrange(0, i + 1) =~= b@.subrange(0, i as int).push(b@[i as int]));
        i = i + 1;
    }
    assert(a@ =~= a@.subrange(0, i as int));
    assert(b@ =~= b@.subrange(0, i as int));
    true
}

/// A copy of a byte string.
pub fn copy_bytes(a: &Vec<u8>) -> (r: Vec<u8>)
    ensures
        r@ == a@,
{
    let mut r: Vec<u8> = Vec::new();
    let mut i: usize = 0;
    while i < a.len()
        invariant
            i <= a.len(),
            r@ == a@.subrange(0, i as int),
        decreases a.len() - i,
    {
        r.push(a[i]);
        assert(a@.subrange(0, i + 1) =~= a@.subrange(0, i as int).push(a@[i as int]));
        i = i + 1;
    }
    assert(a@ =~= a@.subrange(0, i as int));
    r
}

impl Address {
    /// Whether two addresses are identical in kind, key and attributes.
    pub fn same_as(&self, other: &Address) -> (r: bool)
        ensures
            r == (self@ == other@),
    {
        if self.addr_type != other.addr_type || !bytes_eq(&self.spending_key, &other.spending_key) {
            return false;
        }
        match (&self.derivation_path, &other.derivation_path) {
            (None, None) => true,
            (Some(a), Some(b)) => bytes_eq(a, b),
            _ => false,
        }
    }

    /// A copy of this address.
    pub fn duplicate(&self) -> (r: Address)
        ensures
            r@ == self@,
    {
        let derivation_path = match &self.derivation_path {
            Some(p) => Some(copy_bytes(p)),
            None => None,
        };
        Address {
            addr_type: self.addr_type,
            spending_key: copy_bytes(&self.spending_key),
            derivation_path,
        }
    }
}

} // verus!
