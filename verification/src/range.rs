//! Memory ranges over any unsigned integer type, and the address bookkeeping
//! of an owned allocation.

use vstd::prelude::*;

verus! {

/// Unsigned integers that can describe a memory range: each has a value and
/// a largest value, and its arithmetic is exact within that bound.
pub trait CanRangeData: Copy + Sized {
    /// The number the integer stands for.
    spec fn value(self) -> nat;

    /// The largest number of the type.
    spec fn max_value() -> nat;

    proof fn lemma_value_injective(x: Self, y: Self)
        ensures
            x.value() == y.value() <==> x == y,
    ;

    fn zero() -> (r: Self)
        ensures
            r.value() == 0,
    ;

    fn plus(self, other: Self) -> (r: Self)
        requires
            self.value() + other.value() <= Self::max_value(),
        ensures
            r.value() == self.value() + other.value(),
    ;

    fn minus(self, other: Self) -> (r: Self)
        requires
            other.value() <= self.value(),
        ensures
            r.value() == self.value() - other.value(),
    ;

    fn less_than(self, other: Self) -> (r: bool)
        ensures
            r == (self.value() < other.value()),
    ;

    fn quotient(self, other: Self) -> (r: Self)
        requires
            other.value() > 0,
        ensures
            r.value() == self.value() / other.value(),
    ;

    fn remainder(self, other: Self) -> (r: Self)
        requires
            other.value() > 0,
        ensures
            r.value() == self.value() % other.value(),
    ;

    /// The integer with the value of `v`, if the type can hold it.
    fn from_usize(v: usize) -> (r: Option<Self>)
        ensures
            r is Some <==> v <= Self::max_value(),
            r matches Some(x) ==> x.value() == v,
    ;

    /// The value as a `usize`, if it fits.
    fn to_usize(self) -> (r: Option<usize>)
        ensures
            r is Some <==> self.value() <= usize::MAX,
            r matches Some(x) ==> x == self.value(),
    ;
}

impl CanRangeData for usize {
    open spec fn value(self) -> nat {
        self as nat
    }

    open spec fn max_value() -> nat {
        usize::MAX as nat
    }

    proof fn lemma_value_injective(x: Self, y: Self) {
    }

    fn zero() -> (r: Self) {
        0
    }

    fn plus(self, other: Self) -> (r: Self) {
        self + other
    }

    fn minus(self, other: Self) -> (r: Self) {
        self - other
    }

    fn less_than(self, other: Self) -> (r: bool) {
        self < other
    }

    fn quotient(self, other: Self) -> (r: Self) {
        self / other
    }

    fn remainder(self, other: Self) -> (r: Self) {
        self % other
    }

    fn from_usize(v: usize) -> (r: Option<Self>) {
        Some(v)
    }

    fn to_usize(self) -> (r: Option<usize>) {
        Some(self)
    }
}

impl CanRangeData for u8 {
    open spec fn value(self) -> nat {
        self as nat
    }

    open spec fn max_value() -> nat {
        u8::MAX as nat
    }

    proof fn lemma_value_injective(x: Self, y: Self) {
    }

    fn zero() -> (r: Self) {
        0
    }

    fn plus(self, other: Self) -> (r: Self) {
        self + other
    }

    fn minus(self, other: Self) -> (r: Self) {
        self - other
    }

    fn less_than(self, other: Self) -> (r: bool) {
        self < other
    }

    fn quotient(self, other: Self) -> (r: Self) {
        self / other
    }

    fn remainder(self, other: Self) -> (r: Self) {
        self % other
    }

    fn from_usize(v: usize) -> (r: Option<Self>) {
        if v <= 0xFF {
            Some(v as u8)
        } else {
            None
        }
    }

    fn to_usize(self) -> (r: Option<usize>) {
        Some(self as usize)
    }
}

impl CanRangeData for u16 {
    open spec fn value(self) -> nat {
        self as nat
    }

    open spec fn max_value() -> nat {
        u16::MAX as nat
    }

    proof fn lemma_value_injective(x: Self, y: Self) {
    }

    fn zero() -> (r: Self) {
        0
    }

    fn plus(self, other: Self) -> (r: Self) {
        self + other
    }

    fn minus(self, other: Self) -> (r: Self) {
        self - other
    }

    fn less_than(self, other: Self) -> (r: bool) {
        self < other
    }

    fn quotient(self, other: Self) -> (r: Self) {
        self / other
    }

    fn remainder(self, other: Self) -> (r: Self) {
        self % other
    }

    fn from_usize(v: usize) -> (r: Option<Self>) {
        if v <= 0xFFFF {
            Some(v as u16)
        } else {
            None
        }
    }

    fn to_usize(self) -> (r: Option<usize>) {
        Some(self as usize)
    }
}

impl CanRangeData for u32 {
    open spec fn value(self) -> nat {
        self as nat
    }

    open spec fn max_value() -> nat {
        u32::MAX as nat
    }

    proof fn lemma_value_injective(x: Self, y: Self) {
    }

    fn zero() -> (r: Self) {
        0
    }

    fn plus(self, other: Self) -> (r: Self) {
        self + other
    }

    fn minus(self, other: Self) -> (r: Self) {
        self - other
    }

    fn less_than(self, other: Self) -> (r: bool) {
        self < other
    }

    fn quotient(self, other: Self) -> (r: Self) {
        self / other
    }

    fn remainder(self, other: Self) -> (r: Self) {
        self % other
    }

    fn from_usize(v: usize) -> (r: Option<Self>) {
        if v as u64 <= 0xFFFF_FFFF {
            Some(v as u32)
        } else {
            None
        }
    }

    fn to_usize(self) -> (r: Option<usize>) {
        if self as u64 <= usize::MAX as u64 {
            Some(self as usize)
        } else {
            None
        }
    }
}

impl CanRangeData for u64 {
    open spec fn value(self) -> nat {
        self as nat
    }

    open spec fn max_value() -> nat {
        u64::MAX as nat
    }

    proof fn lemma_value_injective(x: Self, y: Self) {
    }

    fn zero() -> (r: Self) {
        0
    }

    fn plus(self, other: Self) -> (r: Self) {
        self + other
    }

    fn minus(self, other: Self) -> (r: Self) {
        self - other
    }

    fn less_than(self, other: Self) -> (r: bool) {
        self < other
    }

    fn quotient(self, other: Self) -> (r: Self) {
        self / other
    }

    fn remainder(self, other: Self) -> (r: Self) {
        self % other
    }

    fn from_usize(v: usize) -> (r: Option<Self>) {
        Some(v as u64)
    }

    fn to_usize(self) -> (r: Option<usize>) {
        if self <= usize::MAX as u64 {
            Some(self as usize)
        } else {
            None
        }
    }
}

impl CanRangeData for u128 {
    open spec fn value(self) -> nat {
        self as nat
    }

    open spec fn max_value() -> nat {
        u128::MAX as nat
    }

    proof fn lemma_value_injective(x: Self, y: Self) {
    }

    fn zero() -> (r: Self) {
        0
    }

    fn plus(self, other: Self) -> (r: Self) {
        self + other
    }

    fn minus(self, other: Self) -> (r: Self) {
        self - other
    }

    fn less_than(self, other: Self) -> (r: bool) {
        self < other
    }

    fn quotient(self, other: Self) -> (r: Self) {
        self / other
    }

    fn remainder(self, other: Self) -> (r: Self) {
        self % other
    }

    fn from_usize(v: usize) -> (r: Option<Self>) {
        Some(v as u128)
    }

    fn to_usize(self) -> (r: Option<usize>) {
        if self <= usize::MAX as u128 {
            Some(self as usize)
        } else {
            None
        }
    }
}

/// A memory range given by its start and its length.
#[derive(Debug, Clone, Copy, PartialEq, Eq)]
pub struct MemRangeData<T: CanRangeData> {
    start: T,
    len: T,
}

impl<T: CanRangeData> MemRangeData<T> {
    /// First address of the range.
    pub closed spec fn first(&self) -> T {
        self.start
    }

    /// Length of the range.
    pub closed spec fn length(&self) -> T {
        self.len
    }

    /// One past the last address of the range.
    pub open spec fn end_value(&self) -> nat {
        self.first().value() + self.length().value()
    }

    pub fn new(start: T, len: T) -> (r: MemRangeData<T>)
        ensures
            r.first() == start,
            r.length() == len,
    {
        MemRangeData { start, len }
    }

    /// The range from `start` up to `end`; none when `end` lies before
    /// `start`.
    pub fn new_start_end(start: T, end: T) -> (r: Option<MemRangeData<T>>)
        ensures
            r is Some <==> start.value() <= end.value(),
            r matches Some(m) ==> m.first() == start && m.length().value() == end.value()
                - start.value() && m.end_value() == end.value(),
    {
        if end.less_than(start) {
            return None;
        }
        Some(MemRangeData { start, len: end.minus(start) })
    }

    pub fn len(&self) -> (r: T)
        ensures
            r == self.length(),
    {
        self.len
    }

    pub fn start(&self) -> (r: T)
        ensures
            r == self.first(),
    {
        self.start
    }

    /// One past the last address.
    pub fn end(&self) -> (r: T)
        requires
            self.end_value() <= T::max_value(),
        ensures
            r.value() == self.end_value(),
    {
        self.start.plus(self.len)
    }

    pub fn set_start(&mut self, start: T)
        ensures
            final(self).first() == start,
            final(self).length() == old(self).length(),
    {
        self.start = start;
    }

    /// Moves the end to `end`, keeping the start; refused (and the range
    /// left as it is) when `end` lies before the start.
    pub fn set_end(&mut self, end: T) -> (r: bool)
        ensures
            r == (old(self).first().value() <= end.value()),
            final(self).first() == old(self).first(),
            r ==> final(self).end_value() == end.value(),
            !r ==> final(self).length() == old(self).length(),
    {
        if end.less_than(self.start) {
            return false;
        }
        self.len = end.minus(self.start);
        true
    }

    pub fn set_len(&mut self, len: T)
        ensures
            final(self).first() == old(self).first(),
            final(self).length() == len,
    {
        self.len = len;
    }
}

/// A range made from a start and an end has that end, and a range made from
/// a start and a length ends where the length says: both ways of building a
/// range describe the same addresses.
pub proof fn lemma_start_end_agree<T: CanRangeData>(a: MemRangeData<T>, b: MemRangeData<T>)
    requires
        a.first() == b.first(),
        a.end_value() == b.end_value(),
    ensures
        a.length() == b.length(),
{
    T::lemma_value_injective(a.length(), b.length());
}

/// Address bookkeeping of an owned allocation: where it starts, how long it
/// is and the alignment it was made with.
#[derive(Debug, PartialEq, Eq)]
pub struct SmartPtr<DT: CanRangeData> {
    pub range: MemRangeData<DT>,
    align: usize,
}

impl<DT: CanRangeData> SmartPtr<DT> {
    /// Addresses of the allocation.
    pub closed spec fn mem_range(&self) -> MemRangeData<DT> {
        self.range
    }

    /// Alignment the allocation was made with.
    pub closed spec fn alignment(&self) -> usize {
        self.align
    }

    /// Bookkeeping for `size` bytes at address `ptr` with alignment `align`;
    /// none for a null address, an empty allocation, or a start or size that
    /// `DT` cannot hold.
    pub fn new(ptr: usize, size: usize, align: usize) -> (r: Option<SmartPtr<DT>>)
        ensures
            r is Some <==> (ptr != 0 && size != 0 && ptr <= DT::max_value() && size <= DT::max_value()),
            r matches Some(p) ==> p.mem_range().first().value() == ptr && p.mem_range().length().value() == size
                && p.alignment() == align,
    {
        if ptr == 0 || size == 0 {
            return None;
        }
        let start = match DT::from_usize(ptr) {
            Some(s) => s,
            None => {
                return None;
            },
        };
        let len = match DT::from_usize(size) {
            Some(l) => l,
            None => {
                return None;
            },
        };
        Some(SmartPtr { range: MemRangeData::new(start, len), align })
    }

    /// Alignment the allocation was made with.
    pub fn align(&self) -> (r: usize)
        ensures
            r == self.alignment(),
    {
        self.align
    }

    /// Start address.
    pub fn get_addr(&self) -> (r: DT)
        ensures
            r == self.mem_range().first(),
    {
        self.range.start()
    }

    /// Start address as a machine address, if it fits in one.
    pub fn get_ptr(&self) -> (r: Option<usize>)
        ensures
            r is Some <==> self.mem_range().first().value() <= usize::MAX,
            r matches Some(a) ==> a == self.mem_range().first().value(),
    {
        self.range.start().to_usize()
    }

    /// Start address as a machine address.
    pub fn get_mut_ptr(&mut self) -> (r: usize)
        requires
            old(self).mem_range().first().value() <= usize::MAX,
        ensures
            r == old(self).mem_range().first().value(),
            *final(self) == *old(self),
    {
        match self.range.start().to_usize() {
            Some(a) => a,
            None => 0,
        }
    }

    /// Start address and number of `TY` elements of the allocation viewed as
    /// a slice; none for a zero-sized `TY`, a length that is no multiple of
    /// the element size, or values that do not fit in a `usize`.
    pub fn get_slice<TY>(&self) -> (r: Option<(usize, usize)>)
        ensures
            r is Some <==> {
                &&& vstd::layout::size_of::<TY>() != 0
                &&& vstd::layout::size_of::<TY>() <= DT::max_value()
                &&& self.mem_range().length().value() % vstd::layout::size_of::<TY>() == 0
                &&& self.mem_range().first().value() <= usize::MAX
                &&& self.mem_range().length().value() / vstd::layout::size_of::<TY>() <= usize::MAX
            },
            r matches Some(p) ==> p.0 == self.mem_range().first().value() && p.1
                == self.mem_range().length().value() / vstd::layout::size_of::<TY>(),
    {
        let tsiz_raw = core::mem::size_of::<TY>();
        if tsiz_raw == 0 {
            return None;
        }
        let size = match DT::from_usize(tsiz_raw) {
            Some(s) => s,
            None => {
                return None;
            },
        };
        let zero = DT::zero();
        let rem = self.range.len().remainder(size);
        if zero.less_than(rem) {
            return None;
        }
        let count = self.range.len().quotient(size);
        let addr = match self.range.start().to_usize() {
            Some(a) => a,
            None => {
                return None;
            },
        };
        match count.to_usize() {
            Some(c) => Some((addr, c)),
            None => None,
        }
    }
}

/// A memory region given by its start and its end.
#[derive(Debug, Clone, Copy, PartialEq, Eq)]
pub struct MemMap<T: CanRangeData = u64> {
    pub start: T,
    pub end: T,
}

/// A memory region given by its start and its length.
#[derive(Debug, Clone, Copy, PartialEq, Eq)]
pub struct MemData<T: CanRangeData = u64> {
    pub start: T,
    pub len: T,
}

impl<T: CanRangeData> MemMap<T> {
    /// The region of `value`, by its end.
    pub fn from_mem_data(value: MemData<T>) -> (r: MemMap<T>)
        requires
            value.start.value() + value.len.value() <= T::max_value(),
        ensures
            r.start == value.start,
            r.end.value() == value.start.value() + value.len.value(),
    {
        MemMap { start: value.start, end: value.start.plus(value.len) }
    }
}

impl<T: CanRangeData> MemData<T> {
    /// The region of `value`, by its length.
    pub fn from_mem_map(value: MemMap<T>) -> (r: MemData<T>)
        requires
            value.start.value() <= value.end.value(),
        ensures
            r.start == value.start,
            r.len.value() == value.end.value() - value.start.value(),
    {
        MemData { start: value.start, len: value.end.minus(value.start) }
    }
}

/// Converting a region from start and length to start and end and back gives
/// the same region, and the other way round.
pub proof fn lemma_mem_region_round_trip<T: CanRangeData>(d: MemData<T>, m: MemMap<T>, d2: MemData<T>, m2: MemMap<T>)
    requires
        m.start == d.start,
        m.end.value() == d.start.value() + d.len.value(),
        d2.start == m.start,
        d2.len.value() == m.end.value() - m.start.value(),
    ensures
        d2 == d,
{
    T::lemma_value_injective(d2.len, d.len);
}

} // verus!
