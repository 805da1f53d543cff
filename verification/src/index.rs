//! Variables of a constraint system and the indices that identify them.
//!
//! Every variable belongs either to the public-input partition or to the
//! auxiliary (private-witness) partition. Indices are totally ordered with
//! every input index strictly below every auxiliary index; this order is what
//! keeps a linear combination's backing storage sorted and mergeable in
//! linear time.

use vstd::prelude::*;
use core::cmp::Ordering;

verus! {

/// The index of either a public-input variable or an auxiliary variable.
#[derive(Copy, Clone, PartialEq, Eq, Structural, Debug, Hash)]
pub enum Index {
    /// Index of a public-input variable.
    Input(usize),
    /// Index of an auxiliary (private) variable.
    Aux(usize),
}

/// The strict total order on indices: input indices come first, ordered by
/// their number, then auxiliary indices, ordered by their number.
pub open spec fn index_lt(a: Index, b: Index) -> bool {
    match (a, b) {
        (Index::Input(i), Index::Input(j)) => i < j,
        (Index::Input(_), Index::Aux(_)) => true,
        (Index::Aux(_), Index::Input(_)) => false,
        (Index::Aux(i), Index::Aux(j)) => i < j,
    }
}

/// Three-way comparison of indices, as a spec-level value.
pub open spec fn index_cmp(a: Index, b: Index) -> Ordering {
    if index_lt(a, b) {
        Ordering::Less
    } else if a == b {
        Ordering::Equal
    } else {
        Ordering::Greater
    }
}

/// `index_lt` is a strict total order, every input index is below every
/// auxiliary index, and within one partition the order is the integer order.
pub proof fn lemma_index_total_order(a: Index, b: Index, c: Index)
    ensures
        index_lt(a, b) && index_lt(b, c) ==> index_lt(a, c),
        index_lt(a, b) ==> !index_lt(b, a),
        index_lt(a, b) || index_lt(b, a) || a == b,
        !index_lt(a, a),
        (a is Input && b is Aux) ==> index_lt(a, b),
        (a is Input && b is Input) ==> (index_lt(a, b) <==> a->Input_0 < b->Input_0),
        (a is Aux && b is Aux) ==> (index_lt(a, b) <==> a->Aux_0 < b->Aux_0),
{
}

/// An error arising while decoding an index from bytes.
#[derive(Copy, Clone, PartialEq, Eq, Structural, Debug)]
pub enum SerializationError {
    /// The input ended before a whole encoding was read.
    UnexpectedEnd,
    /// A byte was read that no value encodes to.
    InvalidData,
}

/// Number of bytes in the fixed-width encoding of the integer part.
pub const WORD_BYTES: usize = 8;

/// Total number of bytes in the encoding of an `Index`: one tag byte plus
/// the fixed-width integer. Compressed and uncompressed encodings coincide,
/// as the type carries no variable-length content.
pub const INDEX_SERIALIZED_SIZE: usize = WORD_BYTES + 1;

/// The little-endian bytes of a 64-bit word.
pub open spec fn spec_le_bytes(v: u64) -> Seq<u8> {
    Seq::new(8, |k: int| (v >> ((8 * k) as u64)) as u8)
}

/// The 64-bit word read little-endian from the first eight bytes.
pub open spec fn spec_le_value(s: Seq<u8>) -> u64 {
    (s[0] as u64) | ((s[1] as u64) << 8u64) | ((s[2] as u64) << 16u64) | ((s[3] as u64) << 24u64)
        | ((s[4] as u64) << 32u64) | ((s[5] as u64) << 40u64) | ((s[6] as u64) << 48u64)
        | ((s[7] as u64) << 56u64)
}

/// Reading back the little-endian bytes of a word gives the word.
pub proof fn lemma_le_round_trip(v: u64)
    ensures
        spec_le_value(spec_le_bytes(v)) == v,
{
    let s = spec_le_bytes(v);
    let b0 = s[0];
    let b1 = s[1];
    let b2 = s[2];
    let b3 = s[3];
    let b4 = s[4];
    let b5 = s[5];
    let b6 = s[6];
    let b7 = s[7];
    assert(b0 == (v >> 0u64) as u8);
    assert((b0 as u64) | ((b1 as u64) << 8u64) | ((b2 as u64) << 16u64) | ((b3 as u64) << 24u64)
        | ((b4 as u64) << 32u64) | ((b5 as u64) << 40u64) | ((b6 as u64) << 48u64) | ((b7
        as u64) << 56u64) == v) by (bit_vector)
        requires
            b0 == (v >> 0u64) as u8,
            b1 == (v >> 8u64) as u8,
            b2 == (v >> 16u64) as u8,
            b3 == (v >> 24u64) as u8,
            b4 == (v >> 32u64) as u8,
            b5 == (v >> 40u64) as u8,
            b6 == (v >> 48u64) as u8,
            b7 == (v >> 56u64) as u8,
    ;
}

impl Index {
    /// The canonical encoding of an index: a tag byte (1 for `Input`,
    /// 0 for `Aux`) followed by the index number as a little-endian word.
    pub open spec fn spec_serialize(self) -> Seq<u8> {
        match self {
            Index::Input(n) => seq![1u8] + spec_le_bytes(n as u64),
            Index::Aux(n) => seq![0u8] + spec_le_bytes(n as u64),
        }
    }

    /// The index encoded in the first `INDEX_SERIALIZED_SIZE` bytes of `s`,
    /// or the error describing why there is none.
    pub open spec fn spec_deserialize(s: Seq<u8>) -> Result<Index, SerializationError> {
        if s.len() < 9 {
            Err(SerializationError::UnexpectedEnd)
        } else if s[0] != 0 && s[0] != 1 {
            Err(SerializationError::InvalidData)
        } else {
            let v = spec_le_value(s.subrange(1, 9));
            if v > usize::MAX as u64 {
                Err(SerializationError::InvalidData)
            } else if s[0] == 1 {
                Ok(Index::Input(v as usize))
            } else {
                Ok(Index::Aux(v as usize))
            }
        }
    }

    /// Appends the canonical encoding of `self` to `writer`.
    pub fn serialize(&self, writer: &mut Vec<u8>)
        ensures
            final(writer)@ == old(writer)@ + self.spec_serialize(),
    {
        let (tag, n): (u8, usize) = match *self {
            Index::Input(n) => (1u8, n),
            Index::Aux(n) => (0u8, n),
        };
        let v: u64 = n as u64;
        writer.push(tag);
        writer.push(#[verifier::truncate] (v as u8));
        writer.push(#[verifier::truncate] ((v >> 8u64) as u8));
        writer.push(#[verifier::truncate] ((v >> 16u64) as u8));
        writer.push(#[verifier::truncate] ((v >> 24u64) as u8));
        writer.push(#[verifier::truncate] ((v >> 32u64) as u8));
        writer.push(#[verifier::truncate] ((v >> 40u64) as u8));
        writer.push(#[verifier::truncate] ((v >> 48u64) as u8));
        writer.push(#[verifier::truncate] ((v >> 56u64) as u8));
        proof {
            assert(v >> 0u64 == v) by (bit_vector);
            let s = self.spec_serialize();
            assert(s[0] == tag);
            assert(forall|k: int| 0 <= k < 8 ==> s[k + 1] == spec_le_bytes(v)[k]);
            assert(writer@ =~= old(writer)@ + self.spec_serialize());
        }
    }

    /// The number of bytes `serialize` appends; constant for this type.
    pub fn serialized_size(&self) -> (r: usize)
        ensures
            r == self.spec_serialize().len(),
            r == INDEX_SERIALIZED_SIZE,
    {
        INDEX_SERIALIZED_SIZE
    }

    /// Decodes an index from the start of `bytes`; bytes past the fixed
    /// encoding are ignored.
    pub fn deserialize(bytes: &[u8]) -> (r: Result<Index, SerializationError>)
        ensures
            r == Index::spec_deserialize(bytes@),
    {
        if bytes.len() < 9 {
            return Err(SerializationError::UnexpectedEnd);
        }
        let tag: u8 = bytes[0];
        if tag != 0 && tag != 1 {
            return Err(SerializationError::InvalidData);
        }
        let v: u64 = (bytes[1] as u64) | ((bytes[2] as u64) << 8u64) | ((bytes[3] as u64) << 16u64)
            | ((bytes[4] as u64) << 24u64) | ((bytes[5] as u64) << 32u64)
            | ((bytes[6] as u64) << 40u64) | ((bytes[7] as u64) << 48u64)
            | ((bytes[8] as u64) << 56u64);
        proof {
            let sub = bytes@.subrange(1, 9);
            assert(sub[0] == bytes@[1] && sub[1] == bytes@[2] && sub[2] == bytes@[3] && sub[3]
                == bytes@[4] && sub[4] == bytes@[5] && sub[5] == bytes@[6] && sub[6] == bytes@[7]
                && sub[7] == bytes@[8]);
        }
        if v > usize::MAX as u64 {
            return Err(SerializationError::InvalidData);
        }
        if tag == 1 {
            Ok(Index::Input(v as usize))
        } else {
            Ok(Index::Aux(v as usize))
        }
    }
}

/// Round-trip law: decoding the canonical encoding of any index gives the
/// index back, with its partition tag intact.
pub proof fn lemma_index_round_trip(i: Index)
    ensures
        Index::spec_deserialize(i.spec_serialize()) == Ok::<Index, SerializationError>(i),
{
    let s = i.spec_serialize();
    let n: usize = match i {
        Index::Input(n) => n,
        Index::Aux(n) => n,
    };
    let v: u64 = n as u64;
    assert(s.subrange(1, 9) =~= spec_le_bytes(v));
    lemma_le_round_trip(v);
    assert(v as usize == n);
}

impl PartialOrd for Index {
    fn partial_cmp(&self, other: &Self) -> (r: Option<Ordering>) {
        let r = match (*self, *other) {
            (Index::Input(i), Index::Input(j)) => {
                if i < j {
                    Ordering::Less
                } else if i == j {
                    Ordering::Equal
                } else {
                    Ordering::Greater
                }
            },
            (Index::Input(_), Index::Aux(_)) => Ordering::Less,
            (Index::Aux(_), Index::Input(_)) => Ordering::Greater,
            (Index::Aux(i), Index::Aux(j)) => {
                if i < j {
                    Ordering::Less
                } else if i == j {
                    Ordering::Equal
                } else {
                    Ordering::Greater
                }
            },
        };
        Some(r)
    }
}

impl vstd::std_specs::cmp::PartialOrdSpecImpl for Index {
    open spec fn obeys_partial_cmp_spec() -> bool {
        true
    }

    open spec fn partial_cmp_spec(&self, other: &Self) -> Option<Ordering> {
        Some(index_cmp(*self, *other))
    }
}

/// A variable in a constraint system: an opaque handle around its `Index`.
/// It has identity only; ordering and equality are those of the index.
#[derive(Copy, Clone, PartialEq, Eq, Structural, Debug, Hash)]
pub struct Variable(pub Index);

impl Variable {
    /// Constructs a variable with an arbitrary index. This is an escape
    /// hatch for infrastructure code that bridges variable numbering
    /// schemes; circuit implementations are not recommended to use it.
    pub fn new_unchecked(idx: Index) -> (r: Variable)
        ensures
            r.0 == idx,
    {
        Variable(idx)
    }

    /// Returns the index underlying the variable. As with `new_unchecked`,
    /// circuit implementations are not recommended to use this.
    pub fn get_unchecked(&self) -> (r: Index)
        ensures
            r == self.0,
    {
        self.0
    }
}

/// The order on variables: the order of their indices.
pub open spec fn var_lt(a: Variable, b: Variable) -> bool {
    index_lt(a.0, b.0)
}

/// The order on variables is transitive.
pub proof fn lemma_var_lt_transitive()
    ensures
        forall|a: Variable, b: Variable, c: Variable|
            #[trigger] var_lt(a, b) && #[trigger] var_lt(b, c) ==> var_lt(a, c),
{
}

/// Any two variables compare: below, above, or equal.
pub proof fn lemma_var_lt_trichotomy(a: Variable, b: Variable)
    ensures
        var_lt(a, b) || var_lt(b, a) || a == b,
{
}

impl Variable {
    /// Three-way comparison, used by the linear-combination algorithms to
    /// keep term storage sorted.
    pub fn compare(&self, other: &Variable) -> (r: Ordering)
        ensures
            r == index_cmp(self.0, other.0),
            r is Less <==> var_lt(*self, *other),
            r is Greater <==> var_lt(*other, *self),
            r is Equal <==> *self == *other,
    {
        match (self.0, other.0) {
            (Index::Input(i), Index::Input(j)) => {
                if i < j {
                    Ordering::Less
                } else if i == j {
                    Ordering::Equal
                } else {
                    Ordering::Greater
                }
            },
            (Index::Input(_), Index::Aux(_)) => Ordering::Less,
            (Index::Aux(_), Index::Input(_)) => Ordering::Greater,
            (Index::Aux(i), Index::Aux(j)) => {
                if i < j {
                    Ordering::Less
                } else if i == j {
                    Ordering::Equal
                } else {
                    Ordering::Greater
                }
            },
        }
    }
}

impl PartialOrd for Variable {
    fn partial_cmp(&self, other: &Self) -> (r: Option<Ordering>) {
        self.0.partial_cmp(&other.0)
    }
}

impl vstd::std_specs::cmp::PartialOrdSpecImpl for Variable {
    open spec fn obeys_partial_cmp_spec() -> bool {
        true
    }

    open spec fn partial_cmp_spec(&self, other: &Self) -> Option<Ordering> {
        Some(index_cmp(self.0, other.0))
    }
}

} // verus!
