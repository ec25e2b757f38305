//! The element types a storage can keep, each seen as a raw number.
//!
//! A `Float32` element is kept as the 32 bits of an IEEE-754 single, a
//! `Float16` element as the 16 bits of a half, a `Uint8` element as itself.
//! Outside the typed storages every element travels widened to `u32`.

use vstd::prelude::*;
use crate::common::VectorStorageDatatype;

verus! {

/// Largest raw number that an element of `datatype` can take.
pub open spec fn max_raw(datatype: VectorStorageDatatype) -> u32 {
    match datatype {
        VectorStorageDatatype::Float32 => 0xffff_ffff,
        VectorStorageDatatype::Float16 => 0xffff,
        VectorStorageDatatype::Uint8 => 0xff,
    }
}

/// The raw number of the value one in `datatype`.
pub open spec fn one_raw(datatype: VectorStorageDatatype) -> u32 {
    match datatype {
        VectorStorageDatatype::Float32 => 0x3f80_0000,
        VectorStorageDatatype::Float16 => 0x3c00,
        VectorStorageDatatype::Uint8 => 1,
    }
}

/// Whether every number of `raw` is an element of `datatype`.
pub open spec fn all_fit(raw: Seq<u32>, datatype: VectorStorageDatatype) -> bool {
    forall|i: int| 0 <= i < raw.len() ==> #[trigger] raw[i] <= max_raw(datatype)
}

/// An element type of a typed storage.
pub trait PrimitiveVectorElement: Copy + Sized {
    /// The precision this type stands for.
    spec fn spec_datatype() -> VectorStorageDatatype;

    /// The element as a raw number.
    spec fn spec_raw(self) -> u32;

    /// The element with the given raw number.
    spec fn spec_from_raw(raw: u32) -> Self;

    fn datatype() -> (r: VectorStorageDatatype)
        ensures
            r == Self::spec_datatype(),
    ;

    fn to_raw(self) -> (r: u32)
        ensures
            r == self.spec_raw(),
    ;

    /// The element with the given raw number, where the precision has one.
    fn from_raw(raw: u32) -> (r: Option<Self>)
        ensures
            r == if raw <= max_raw(Self::spec_datatype()) {
                Some(Self::spec_from_raw(raw))
            } else {
                None
            },
    ;

    /// Raw numbers and elements stand one to one.
    proof fn lemma_raw(element: Self, raw: u32)
        ensures
            element.spec_raw() <= max_raw(Self::spec_datatype()),
            Self::spec_from_raw(element.spec_raw()) == element,
            raw <= max_raw(Self::spec_datatype()) ==> Self::spec_from_raw(raw).spec_raw() == raw,
    ;
}

impl PrimitiveVectorElement for u32 {
    open spec fn spec_datatype() -> VectorStorageDatatype {
        VectorStorageDatatype::Float32
    }

    open spec fn spec_raw(self) -> u32 {
        self
    }

    open spec fn spec_from_raw(raw: u32) -> Self {
        raw
    }

    fn datatype() -> (r: VectorStorageDatatype) {
        VectorStorageDatatype::Float32
    }

    fn to_raw(self) -> (r: u32) {
        self
    }

    fn from_raw(raw: u32) -> (r: Option<Self>) {
        Some(raw)
    }

    proof fn lemma_raw(element: Self, raw: u32) {
    }
}

impl PrimitiveVectorElement for u16 {
    open spec fn spec_datatype() -> VectorStorageDatatype {
        VectorStorageDatatype::Float16
    }

    open spec fn spec_raw(self) -> u32 {
        self as u32
    }

    open spec fn spec_from_raw(raw: u32) -> Self {
        raw as u16
    }

    fn datatype() -> (r: VectorStorageDatatype) {
        VectorStorageDatatype::Float16
    }

    fn to_raw(self) -> (r: u32) {
        self as u32
    }

    fn from_raw(raw: u32) -> (r: Option<Self>) {
        if raw <= 0xffff {
            Some(raw as u16)
        } else {
            None
        }
    }

    proof fn lemma_raw(element: Self, raw: u32) {
    }
}

impl PrimitiveVectorElement for u8 {
    open spec fn spec_datatype() -> VectorStorageDatatype {
        VectorStorageDatatype::Uint8
    }

    open spec fn spec_raw(self) -> u32 {
        self as u32
    }

    open spec fn spec_from_raw(raw: u32) -> Self {
        raw as u8
    }

    fn datatype() -> (r: VectorStorageDatatype) {
        VectorStorageDatatype::Uint8
    }

    fn to_raw(self) -> (r: u32) {
        self as u32
    }

    fn from_raw(raw: u32) -> (r: Option<Self>) {
        if raw <= 0xff {
            Some(raw as u8)
        } else {
            None
        }
    }

    proof fn lemma_raw(element: Self, raw: u32) {
    }
}

/// The raw number of the value one in `datatype`.
pub fn one_of(datatype: VectorStorageDatatype) -> (r: u32)
    ensures
        r == one_raw(datatype),
{
    match datatype {
        VectorStorageDatatype::Float32 => 0x3f80_0000,
        VectorStorageDatatype::Float16 => 0x3c00,
        VectorStorageDatatype::Uint8 => 1,
    }
}

/// `dim` elements of the value one in `datatype`.
pub fn ones(datatype: VectorStorageDatatype, dim: usize) -> (r: Vec<u32>)
    ensures
        r@ == Seq::new(dim as nat, |i: int| one_raw(datatype)),
{
    let one = one_of(datatype);
    let mut elements: Vec<u32> = Vec::new();
    let mut i: usize = 0;
    while i < dim
        invariant
            i <= dim,
            one == one_raw(datatype),
            elements@ == Seq::new(i as nat, |j: int| one_raw(datatype)),
        decreases dim - i,
    {
        elements.push(one);
        i += 1;
        assert(elements@ =~= Seq::new(i as nat, |j: int| one_raw(datatype)));
    }
    elements
}

/// The raw numbers of a sequence of elements.
pub open spec fn raw_of<T: PrimitiveVectorElement>(elements: Seq<T>) -> Seq<u32> {
    Seq::new(elements.len(), |i: int| elements[i].spec_raw())
}

/// The elements with the given raw numbers.
pub open spec fn elements_of<T: PrimitiveVectorElement>(raw: Seq<u32>) -> Seq<T> {
    Seq::new(raw.len(), |i: int| T::spec_from_raw(raw[i]))
}

/// `count` elements of raw number zero.
pub open spec fn zeros<T: PrimitiveVectorElement>(count: nat) -> Seq<T> {
    Seq::new(count, |i: int| T::spec_from_raw(0))
}

/// Elements and their raw numbers determine each other.
pub proof fn lemma_raw_of_elements<T: PrimitiveVectorElement>(
    elements: Seq<T>,
    raw: Seq<u32>,
)
    ensures
        all_fit(raw_of(elements), T::spec_datatype()),
        elements_of::<T>(raw_of(elements)) == elements,
        all_fit(raw, T::spec_datatype()) ==> raw_of(elements_of::<T>(raw)) == raw,
{
    assert forall|i: int| 0 <= i < elements.len() implies #[trigger] raw_of(elements)[i] <= max_raw(
        T::spec_datatype(),
    ) && T::spec_from_raw(elements[i].spec_raw()) == elements[i] by {
        T::lemma_raw(elements[i], 0);
    }
    assert(elements_of::<T>(raw_of(elements)) =~= elements);
    if all_fit(raw, T::spec_datatype()) {
        assert forall|i: int| 0 <= i < raw.len() implies T::spec_from_raw(raw[i]).spec_raw()
            == raw[i] by {
            T::lemma_raw(T::spec_from_raw(0), raw[i]);
        }
        assert(raw_of(elements_of::<T>(raw)) =~= raw);
    }
}

/// The elements of `slice` as raw numbers.
pub fn to_raw_vec<T: PrimitiveVectorElement>(slice: &[T]) -> (raw: Vec<u32>)
    ensures
        raw@ == raw_of(slice@),
{
    let mut raw: Vec<u32> = Vec::new();
    let mut i: usize = 0;
    while i < slice.len()
        invariant
            i <= slice.len(),
            raw@ == raw_of(slice@.take(i as int)),
        decreases slice.len() - i,
    {
        raw.push(slice[i].to_raw());
        i += 1;
        assert(raw@ =~= raw_of(slice@.take(i as int)));
    }
    assert(slice@.take(i as int) =~= slice@);
    raw
}

/// The elements with the raw numbers of `raw`, where each of them is an
/// element of the precision.
pub fn from_raw_vec<T: PrimitiveVectorElement>(raw: &[u32]) -> (elements: Option<Vec<T>>)
    ensures
        elements is Some <==> all_fit(raw@, T::spec_datatype()),
        elements is Some ==> elements.unwrap()@ == elements_of::<T>(raw@),
{
    let mut elements: Vec<T> = Vec::new();
    let mut i: usize = 0;
    while i < raw.len()
        invariant
            i <= raw.len(),
            all_fit(raw@.take(i as int), T::spec_datatype()),
            elements@ == elements_of::<T>(raw@.take(i as int)),
        decreases raw.len() - i,
    {
        match T::from_raw(raw[i]) {
            Some(element) => {
                elements.push(element);
            },
            None => {
                assert(!(raw@[i as int] <= max_raw(T::spec_datatype())));
                return None;
            },
        }
        i += 1;
        assert(elements@ =~= elements_of::<T>(raw@.take(i as int)));
        assert forall|j: int| 0 <= j < i implies #[trigger] raw@.take(i as int)[j] <= max_raw(
            T::spec_datatype(),
        ) by {
            if j < i - 1 {
                assert(raw@.take((i - 1) as int)[j] == raw@[j]);
            }
        }
    }
    assert(raw@.take(i as int) =~= raw@);
    Some(elements)
}

} // verus!
