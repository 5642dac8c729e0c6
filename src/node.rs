use vstd::prelude::*;

verus! {

/// The byte image of `v` in the machine's native byte order.
pub uninterp spec fn ne_bytes_of(v: u64) -> Seq<u8>;

/// The integer whose native byte image is `b`.
pub uninterp spec fn ne_u64_of(b: Seq<u8>) -> u64;

/// Relies on `u64::to_ne_bytes`: the eight bytes of the integer in native
/// byte order, from which `u64::from_ne_bytes` gives the integer back.
#[verifier::external_body]
pub(crate) fn u64_to_ne_bytes(v: u64) -> (r: [u8; 8])
    ensures
        r@ == ne_bytes_of(v),
        ne_u64_of(r@) == v,
{
    v.to_ne_bytes()
}

/// Relies on `u64::from_ne_bytes`: the integer read from eight bytes in
/// native byte order.
#[verifier::external_body]
pub(crate) fn u64_from_ne_bytes(b: [u8; 8]) -> (r: u64)
    ensures
        r == ne_u64_of(b@),
{
    u64::from_ne_bytes(b)
}

/// Identifier of a tree node. The value zero is the null sentinel and is
/// never issued.
#[derive(Debug, Clone, Copy, PartialEq, Eq, Structural)]
pub struct Id(pub u64);

impl Id {
    /// The identifier that follows this one.
    pub fn next(self) -> (r: Id)
        requires
            self.0 < u64::MAX,
        ensures
            r.0 == self.0 + 1,
    {
        Id(self.0 + 1)
    }

    pub fn as_u64(self) -> (r: u64)
        ensures
            r == self.0,
    {
        self.0
    }

    /// The identifier as eight bytes in native byte order, as it is stored
    /// in the log.
    pub fn to_ne_bytes(self) -> (r: [u8; 8])
        ensures
            r@ == ne_bytes_of(self.0),
            ne_u64_of(r@) == self.0,
    {
        u64_to_ne_bytes(self.0)
    }
}

impl From<u64> for Id {
    fn from(val: u64) -> (r: Id)
        ensures
            r.0 == val,
    {
        Id(val)
    }
}

impl vstd::std_specs::convert::FromSpecImpl<u64> for Id {
    open spec fn obeys_from_spec() -> bool {
        true
    }

    open spec fn from_spec(v: u64) -> Id {
        Id(v)
    }
}

/// A counter that hands out node identifiers one after another, starting
/// from a non-null value.
#[derive(Debug)]
pub struct AtomicId {
    pub value: u64,
}

impl AtomicId {
    /// The identifier that `get_and_advance` hands out next.
    pub open spec fn next_value(&self) -> u64 {
        self.value
    }

    pub fn new(id: Id) -> (r: AtomicId)
        requires
            id.0 != 0,
        ensures
            r.value == id.0,
    {
        AtomicId { value: id.0 }
    }

    /// Returns the current value and advances the counter by one.
    pub fn get_and_advance(&mut self) -> (r: Id)
        requires
            old(self).value < u64::MAX,
        ensures
            r.0 == old(self).value,
            final(self).value == old(self).value + 1,
    {
        let result = Id(self.value);
        self.value = self.value + 1;
        result
    }
}

} // verus!
