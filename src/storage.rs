use vstd::prelude::*;

verus! {

/// Length in bytes of a pack or block hash.
pub const HASH_SIZE: usize = 32;

/// The kinds of file kept under a storage root, one directory each.
#[derive(Clone, Copy, Debug, PartialEq, Eq, Structural)]
pub enum StorageFileType {
    RefPack,
    Pack,
    Index,
    Blob,
    Tag,
    Epoch,
}

/// The directory, relative to the root, that holds files of kind `ft`.
pub open spec fn dir_name_of(ft: StorageFileType) -> Seq<char> {
    match ft {
        StorageFileType::RefPack => "refpack/"@,
        StorageFileType::Pack => "pack/"@,
        StorageFileType::Index => "index/"@,
        StorageFileType::Blob => "blob/"@,
        StorageFileType::Tag => "tag/"@,
        StorageFileType::Epoch => "epoch/"@,
    }
}

/// The directory, relative to the root, that holds files of kind `ft`.
pub fn dir_name(ft: StorageFileType) -> (r: &'static str)
    ensures
        r@ == dir_name_of(ft),
{
    match ft {
        StorageFileType::RefPack => "refpack/",
        StorageFileType::Pack => "pack/",
        StorageFileType::Index => "index/",
        StorageFileType::Blob => "blob/",
        StorageFileType::Tag => "tag/",
        StorageFileType::Epoch => "epoch/",
    }
}

/// The lower-case ASCII hex digit of a nibble.
pub open spec fn hex_digit_of(n: u8) -> u8 {
    if n < 10 {
        (48 + n) as u8
    } else {
        (87 + n) as u8
    }
}

/// The value of an ASCII hex digit of either case.
pub open spec fn hex_value_of(c: u8) -> Option<u8> {
    if 48 <= c <= 57 {
        Some((c - 48) as u8)
    } else if 97 <= c <= 102 {
        Some((c - 87) as u8)
    } else if 65 <= c <= 70 {
        Some((c - 55) as u8)
    } else {
        None
    }
}

/// Lower-case hex of `b`: two digits per byte, high nibble first.
pub open spec fn hex_of(b: Seq<u8>) -> Seq<u8> {
    Seq::new(
        2 * b.len(),
        |i: int|
            if i % 2 == 0 {
                hex_digit_of(b[i / 2] / 16)
            } else {
                hex_digit_of(b[i / 2] % 16)
            },
    )
}

/// The bytes that hex text `s` spells, if it has an even length and only
/// hex digits.
pub open spec fn unhex(s: Seq<u8>) -> Option<Seq<u8>> {
    if s.len() % 2 == 0 && forall|i: int| 0 <= i < s.len() ==> (#[trigger] hex_value_of(s[i])) is Some {
        Some(
            Seq::new(
                (s.len() / 2) as nat,
                |i: int|
                    (hex_value_of(s[2 * i])->Some_0 * 16 + hex_value_of(s[2 * i + 1])->Some_0) as u8,
            ),
        )
    } else {
        None
    }
}

/// The hash that a file name spells: 64 hex digits.
pub open spec fn hash_of_name(name: Seq<u8>) -> Option<Seq<u8>> {
    if name.len() == 2 * HASH_SIZE {
        unhex(name)
    } else {
        None
    }
}

/// The hashes spelled by the names in `names`, in order, others skipped.
pub open spec fn hashes_in(names: Seq<Seq<u8>>) -> Seq<Seq<u8>>
    decreases names.len(),
{
    if names.len() == 0 {
        Seq::empty()
    } else {
        match hash_of_name(names.last()) {
            Some(h) => hashes_in(names.drop_last()).push(h),
            None => hashes_in(names.drop_last()),
        }
    }
}

fn hex_digit(n: u8) -> (r: u8)
    requires
        n < 16,
    ensures
        r == hex_digit_of(n),
{
    if n < 10 {
        48 + n
    } else {
        87 + n
    }
}

fn hex_value(c: u8) -> (r: Option<u8>)
    ensures
        r == hex_value_of(c),
        r matches Some(v) ==> v < 16,
{
    if 48 <= c && c <= 57 {
        Some(c - 48)
    } else if 97 <= c && c <= 102 {
        Some(c - 87)
    } else if 65 <= c && c <= 70 {
        Some(c - 55)
    } else {
        None
    }
}

/// Lower-case hex of `b`.
pub fn hex_encode(b: &[u8]) -> (r: Vec<u8>)
    requires
        b@.len() * 2 <= usize::MAX,
    ensures
        r@ == hex_of(b@),
{
    let mut r: Vec<u8> = Vec::new();
    let mut i: usize = 0;
    while i < b.len()
        invariant
            i <= b@.len(),
            r@.len() == 2 * i,
            forall|j: int| 0 <= j < 2 * i ==> r@[j] == #[trigger] hex_of(b@)[j],
        decreases b@.len() - i,
    {
        r.push(hex_digit(b[i] / 16));
        r.push(hex_digit(b[i] % 16));
        i = i + 1;
    }
    assert(r@ =~= hex_of(b@));
    r
}

/// The bytes that hex text `s` spells, if it is hex text.
pub fn hex_decode(s: &[u8]) -> (r: Option<Vec<u8>>)
    ensures
        r matches Some(v) ==> unhex(s@) == Some(v@),
        r is None ==> unhex(s@) is None,
{
    if s.len() % 2 != 0 {
        return None;
    }
    let mut r: Vec<u8> = Vec::new();
    let mut i: usize = 0;
    while i < s.len() / 2
        invariant
            s@.len() % 2 == 0,
            i <= s@.len() / 2,
            r@.len() == i,
            forall|j: int| 0 <= j < 2 * i ==> (#[trigger] hex_value_of(s@[j])) is Some,
            forall|j: int|
                0 <= j < i ==> #[trigger] r@[j] == (hex_value_of(s@[2 * j])->Some_0 * 16
                    + hex_value_of(s@[2 * j + 1])->Some_0) as u8,
        decreases s@.len() / 2 - i,
    {
        let hi = match hex_value(s[2 * i]) {
            Some(v) => v,
            None => return None,
        };
        let lo = match hex_value(s[2 * i + 1]) {
            Some(v) => v,
            None => return None,
        };
        r.push(hi * 16 + lo);
        i = i + 1;
    }
    assert(r@ =~= unhex(s@)->Some_0);
    Some(r)
}

/// The hash that a file name spells, if it is 64 hex digits.
pub fn hash_of_file_name(name: &[u8]) -> (r: Option<Vec<u8>>)
    ensures
        r matches Some(v) ==> hash_of_name(name@) == Some(v@),
        r is None ==> hash_of_name(name@) is None,
{
    if name.len() != 2 * HASH_SIZE {
        return None;
    }
    hex_decode(name)
}

/// How many hashes a listing keeps at most: it stops once it holds
/// `limits` of them (having taken at least one) or `0xffff_ffff`.
pub open spec fn listing_cap(limits: Option<u32>) -> nat {
    match limits {
        None => 0xffff_ffff,
        Some(l) => if l == 0 {
            1
        } else {
            l as nat
        },
    }
}

pub open spec fn names_model(names: Seq<Vec<u8>>) -> Seq<Seq<u8>> {
    names.map_values(|n: Vec<u8>| n@)
}

/// The hashes of a prefix of the names are a prefix of the hashes of all.
pub proof fn lemma_hashes_in_prefix(names: Seq<Seq<u8>>, k: int)
    requires
        0 <= k <= names.len(),
    ensures
        hashes_in(names.take(k)).len() <= hashes_in(names).len(),
        hashes_in(names.take(k)) == hashes_in(names).take(hashes_in(names.take(k)).len() as int),
    decreases names.len() - k,
{
    if k < names.len() {
        lemma_hashes_in_prefix(names, k + 1);
        let t = names.take(k + 1);
        assert(t.drop_last() =~= names.take(k));
        let a = hashes_in(names.take(k));
        let b = hashes_in(t);
        match hash_of_name(t.last()) {
            Some(h) => {
                assert(b == a.push(h));
                assert(a =~= b.take(a.len() as int));
            },
            None => {
                assert(b == a);
            },
        }
        assert(a =~= hashes_in(names).take(a.len() as int));
    } else {
        assert(names.take(k) =~= names);
        assert(hashes_in(names) =~= hashes_in(names).take(hashes_in(names).len() as int));
    }
}

/// The hashes that the file names in `names` spell, in order, other names
/// skipped, up to the cap that `limits` sets.
pub fn collect_hashes(names: &Vec<Vec<u8>>, limits: Option<u32>) -> (r: Vec<Vec<u8>>)
    ensures
        names_model(r@) == hashes_in(names_model(names@)).take(
            vstd::math::min(
                hashes_in(names_model(names@)).len() as int,
                listing_cap(limits) as int,
            ),
        ),
{
    let ghost all = names_model(names@);
    let mut r: Vec<Vec<u8>> = Vec::new();
    let mut i: usize = 0;
    while i < names.len()
        invariant
            i <= names@.len(),
            all == names_model(names@),
            names_model(r@) == hashes_in(all.take(i as int)),
            r@.len() < listing_cap(limits),
        decreases names@.len() - i,
    {
        proof {
            assert(all.take(i + 1).drop_last() =~= all.take(i as int));
            assert(all.take(i + 1).last() == names@[i as int]@);
        }
        match hash_of_file_name(names[i].as_slice()) {
            Some(h) => {
                r.push(h);
                assert(names_model(r@) =~= hashes_in(all.take(i as int)).push(
                    hash_of_name(names@[i as int]@)->Some_0,
                ));
                i = i + 1;
                let full = match limits {
                    None => r.len() >= 0xffff_ffff,
                    Some(l) => r.len() >= l as usize,
                };
                if full {
                    proof {
                        lemma_hashes_in_prefix(all, i as int);
                    }
                    return r;
                }
            },
            None => {
                i = i + 1;
            },
        }
    }
    assert(all.take(i as int) =~= all);
    r
}

} // verus!
