use crate::table::Key;
use vstd::prelude::*;

verus! {

broadcast use vstd::array::group_array_axioms;

/// An amount of the native asset or of a token, in its smallest unit.
pub type Balance = u128;

/// A point in time. Schedules and execution histories hold seconds; the
/// clock of the chain counts milliseconds.
pub type Timestamp = u64;

/// Whether two arrays of 32 bytes hold the same bytes.
fn same_bytes(a: &[u8; 32], b: &[u8; 32]) -> (r: bool)
    ensures
        r == (*a == *b),
{
    let mut i: usize = 0;
    while i < 32
        invariant
            i <= 32,
            forall|j: int| 0 <= j < i ==> a[j] == b[j],
        decreases 32 - i,
    {
        if a[i] != b[i] {
            return false;
        }
        i = i + 1;
    }
    assert(*a =~= *b);
    true
}

/// The address of an account: 32 opaque bytes.
#[derive(Clone, Copy, Debug)]
pub struct AccountId {
    pub bytes: [u8; 32],
}

impl PartialEq for AccountId {
    fn eq(&self, other: &Self) -> (r: bool) {
        same_bytes(&self.bytes, &other.bytes)
    }
}

impl Eq for AccountId {

}

impl vstd::std_specs::cmp::PartialEqSpecImpl for AccountId {
    open spec fn obeys_eq_spec() -> bool {
        true
    }

    open spec fn eq_spec(&self, other: &Self) -> bool {
        *self == *other
    }
}

impl Key for AccountId {
    fn same(&self, other: &Self) -> (r: bool) {
        same_bytes(&self.bytes, &other.bytes)
    }
}

impl From<[u8; 32]> for AccountId {
    fn from(bytes: [u8; 32]) -> (id: Self) {
        AccountId { bytes }
    }
}

impl vstd::std_specs::convert::FromSpecImpl<[u8; 32]> for AccountId {
    open spec fn obeys_from_spec() -> bool {
        true
    }

    open spec fn from_spec(bytes: [u8; 32]) -> Self {
        AccountId { bytes }
    }
}

/// The identifier of a schedule: 32 opaque bytes, chosen by its creator.
#[derive(Clone, Copy, Debug)]
pub struct ScheduleId {
    pub bytes: [u8; 32],
}

impl PartialEq for ScheduleId {
    fn eq(&self, other: &Self) -> (r: bool) {
        same_bytes(&self.bytes, &other.bytes)
    }
}

impl Eq for ScheduleId {

}

impl vstd::std_specs::cmp::PartialEqSpecImpl for ScheduleId {
    open spec fn obeys_eq_spec() -> bool {
        true
    }

    open spec fn eq_spec(&self, other: &Self) -> bool {
        *self == *other
    }
}

impl Key for ScheduleId {
    fn same(&self, other: &Self) -> (r: bool) {
        same_bytes(&self.bytes, &other.bytes)
    }
}

impl From<[u8; 32]> for ScheduleId {
    fn from(bytes: [u8; 32]) -> (id: Self) {
        ScheduleId { bytes }
    }
}

impl vstd::std_specs::convert::FromSpecImpl<[u8; 32]> for ScheduleId {
    open spec fn obeys_from_spec() -> bool {
        true
    }

    open spec fn from_spec(bytes: [u8; 32]) -> Self {
        ScheduleId { bytes }
    }
}

} // verus!
