//! The dependency hash: a fixed-width byte vector naming one concrete
//! compilation configuration, rendered as lowercase hexadecimal for use in
//! output directory names. The all-zero value stands for "no hash yet".

use vstd::prelude::*;

verus! {

/// The number of bytes in a dependency hash.
pub const DEPENDENCY_HASH_LENGTH: usize = 32;

/// A fixed-width byte vector identifying a compilation configuration.
#[derive(Debug, Clone, PartialEq)]
pub struct DependencyHash {
    pub bytes: Vec<u8>,
}

impl View for DependencyHash {
    type V = Seq<u8>;

    open spec fn view(&self) -> Seq<u8> {
        self.bytes@
    }
}

impl DeepView for DependencyHash {
    type V = Seq<u8>;

    open spec fn deep_view(&self) -> Seq<u8> {
        self.bytes@
    }
}

impl DependencyHash {
    /// A well-formed hash holds exactly `DEPENDENCY_HASH_LENGTH` bytes.
    pub open spec fn well_formed(&self) -> bool {
        self.bytes@.len() == DEPENDENCY_HASH_LENGTH
    }

    /// The bytes of the all-zero hash.
    pub open spec fn zero_bytes() -> Seq<u8> {
        Seq::new(DEPENDENCY_HASH_LENGTH as nat, |i: int| 0u8)
    }

    /// The all-zero hash, denoting "no hash yet".
    pub fn zero() -> (r: DependencyHash)
        ensures
            r.well_formed(),
            r.bytes@ == DependencyHash::zero_bytes(),
    {
        let mut bytes: Vec<u8> = Vec::new();
        let mut i: usize = 0;
        while i < DEPENDENCY_HASH_LENGTH
            invariant
                i <= DEPENDENCY_HASH_LENGTH,
                bytes@.len() == i,
                forall|k: int| 0 <= k < i ==> bytes@[k] == 0u8,
            decreases DEPENDENCY_HASH_LENGTH - i,
        {
            bytes.push(0u8);
            i = i + 1;
        }
        proof {
            assert(bytes@ =~= DependencyHash::zero_bytes());
        }
        DependencyHash { bytes }
    }
}

/// The lowercase hexadecimal digit for a value below sixteen.
pub open spec fn spec_hex_digit(v: int) -> char {
    if v == 0 {
        '0'
    } else if v == 1 {
        '1'
    } else if v == 2 {
        '2'
    } else if v == 3 {
        '3'
    } else if v == 4 {
        '4'
    } else if v == 5 {
        '5'
    } else if v == 6 {
        '6'
    } else if v == 7 {
        '7'
    } else if v == 8 {
        '8'
    } else if v == 9 {
        '9'
    } else if v == 10 {
        'a'
    } else if v == 11 {
        'b'
    } else if v == 12 {
        'c'
    } else if v == 13 {
        'd'
    } else if v == 14 {
        'e'
    } else {
        'f'
    }
}

/// The lowercase hexadecimal rendering of a byte sequence: two digits per
/// byte, high digit first.
pub open spec fn spec_hex_of(bytes: Seq<u8>) -> Seq<char>
    decreases bytes.len(),
{
    if bytes.len() == 0 {
        Seq::<char>::empty()
    } else {
        spec_hex_of(bytes.drop_last()) + seq![
            spec_hex_digit(bytes.last() as int / 16),
            spec_hex_digit(bytes.last() as int % 16),
        ]
    }
}

fn hex_digit(v: u8) -> (c: char)
    requires
        v < 16,
    ensures
        c == spec_hex_digit(v as int),
{
    match v {
        0 => '0',
        1 => '1',
        2 => '2',
        3 => '3',
        4 => '4',
        5 => '5',
        6 => '6',
        7 => '7',
        8 => '8',
        9 => '9',
        10 => 'a',
        11 => 'b',
        12 => 'c',
        13 => 'd',
        14 => 'e',
        _ => 'f',
    }
}

/// Renders a dependency hash as its lowercase hexadecimal string.
pub fn format_dependency_hash(hash: &DependencyHash) -> (r: String)
    ensures
        r@ == spec_hex_of(hash.bytes@),
{
    let mut out = String::new();
    let mut i: usize = 0;
    while i < hash.bytes.len()
        invariant
            i <= hash.bytes@.len(),
            out@ == spec_hex_of(hash.bytes@.take(i as int)),
        decreases hash.bytes@.len() - i,
    {
        let b = hash.bytes[i];
        crate::text::push_char(&mut out, hex_digit(b / 16));
        crate::text::push_char(&mut out, hex_digit(b % 16));
        proof {
            assert(hash.bytes@.take(i + 1 as int).drop_last() =~= hash.bytes@.take(i as int));
            assert(hash.bytes@.take(i + 1 as int).last() == hash.bytes@[i as int]);
            assert(out@ =~= spec_hex_of(hash.bytes@.take(i + 1 as int)));
        }
        i = i + 1;
    }
    proof {
        assert(hash.bytes@.take(hash.bytes@.len() as int) =~= hash.bytes@);
    }
    out
}

} // verus!
