//! The byte strings that a contract works on: parameters, state, deltas and summaries.
//!
//! Each of them either borrows its bytes or owns them, and is seen as the sequence of its bytes.

use std::borrow::Cow;
use std::ops::{Deref, DerefMut};
use vstd::prelude::*;
use vstd::slice::slice_to_vec;
use vstd::std_specs::cmp::PartialEqSpec;
use crate::bytes::{bytes_eq, cow_into_vec, cow_slice, cow_to_mut};

verus! {

/// Data that forms part of a contract along with the WebAssembly code.
///
/// This is supplied to the contract as a parameter to the contract's functions. Parameters are
/// typically used to configure a contract, much like the parameters of a constructor function.
#[derive(Debug)]
pub struct Parameters<'a>(Cow<'a, [u8]>);

impl<'a> View for Parameters<'a> {
    type V = Seq<u8>;

    closed spec fn view(&self) -> Seq<u8> {
        self.0@
    }
}

impl<'a> Parameters<'a> {
    /// Whether the bytes are owned rather than borrowed.
    pub closed spec fn owned(&self) -> bool {
        self.0 is Owned
    }

    /// Gets the number of bytes of data stored in the `Parameters`.
    pub fn size(&self) -> (r: usize)
        ensures
            r == self@.len(),
    {
        cow_slice(&self.0).len()
    }

    /// Extracts the owned data as a `Vec<u8>`.
    pub fn into_bytes(self) -> (r: Vec<u8>)
        ensures
            r@ == self@,
    {
        cow_into_vec(self.0)
    }

    /// Copies the data if not owned and returns an owned version of self.
    pub fn into_owned(self) -> (r: Parameters<'static>)
        ensures
            r@ == self@,
            r.owned(),
    {
        Parameters(Cow::Owned(cow_into_vec(self.0)))
    }
}

impl<'a> From<Vec<u8>> for Parameters<'a> {
    fn from(data: Vec<u8>) -> (r: Self)
        ensures
            r@ == data@,
            r.owned(),
    {
        Parameters(Cow::Owned(data))
    }
}

impl<'a> vstd::std_specs::convert::FromSpecImpl<Vec<u8>> for Parameters<'a> {
    open spec fn obeys_from_spec() -> bool {
        true
    }

    closed spec fn from_spec(data: Vec<u8>) -> Self {
        Parameters(Cow::Owned(data))
    }
}

impl<'a> From<&'a [u8]> for Parameters<'a> {
    fn from(data: &'a [u8]) -> (r: Self)
        ensures
            r@ == data@,
            !r.owned(),
    {
        Parameters(Cow::Borrowed(data))
    }
}

impl<'a> vstd::std_specs::convert::FromSpecImpl<&'a [u8]> for Parameters<'a> {
    open spec fn obeys_from_spec() -> bool {
        true
    }

    closed spec fn from_spec(data: &'a [u8]) -> Self {
        Parameters(Cow::Borrowed(data))
    }
}

impl<'a> AsRef<[u8]> for Parameters<'a> {
    fn as_ref(&self) -> (r: &[u8])
        ensures
            r@ == self@,
    {
        cow_slice(&self.0)
    }
}

impl<'a> Clone for Parameters<'a> {
    fn clone(&self) -> (r: Self)
        ensures
            r@ == self@,
            r.owned() == self.owned(),
    {
        match &self.0 {
            Cow::Borrowed(s) => Parameters(Cow::Borrowed(s)),
            Cow::Owned(v) => Parameters(Cow::Owned(slice_to_vec(v.as_slice()))),
        }
    }
}

/// Data associated with a contract that can be retrieved by applications and components.
///
/// For efficiency and flexibility, contract state is represented as a simple byte array.
#[derive(Debug)]
pub struct State<'a>(Cow<'a, [u8]>);

impl<'a> View for State<'a> {
    type V = Seq<u8>;

    closed spec fn view(&self) -> Seq<u8> {
        self.0@
    }
}

impl<'a> State<'a> {
    /// Whether the bytes are owned rather than borrowed.
    pub closed spec fn owned(&self) -> bool {
        self.0 is Owned
    }

    /// Gets the number of bytes of data stored in the `State`.
    pub fn size(&self) -> (r: usize)
        ensures
            r == self@.len(),
    {
        cow_slice(&self.0).len()
    }

    /// Extracts the owned data as a `Vec<u8>`.
    pub fn into_bytes(self) -> (r: Vec<u8>)
        ensures
            r@ == self@,
    {
        cow_into_vec(self.0)
    }

    /// Copies the data if not owned and returns an owned version of self.
    pub fn into_owned(self) -> (r: State<'static>)
        ensures
            r@ == self@,
            r.owned(),
    {
        State(Cow::Owned(cow_into_vec(self.0)))
    }

    /// Acquires a mutable reference to the owned form of the `State` data.
    pub fn to_mut(&mut self) -> (r: &mut Vec<u8>)
        ensures
            r@ == old(self)@,
            final(self)@ == final(r)@,
            final(self).owned(),
    {
        cow_to_mut(&mut self.0)
    }

    /// Copies the bytes of the state, from the first one on, to the start of `buf`, as many as fit,
    /// and returns their number. The state is not consumed: the next call reads the same bytes.
    pub fn read(&self, buf: &mut [u8]) -> (n: usize)
        ensures
            n == if self@.len() <= old(buf)@.len() {
                self@.len()
            } else {
                old(buf)@.len()
            },
            final(buf)@ == self@.take(n as int) + old(buf)@.skip(n as int),
    {
        let data = cow_slice(&self.0);
        let n: usize = if data.len() <= buf.len() {
            data.len()
        } else {
            buf.len()
        };
        let mut i: usize = 0;
        while i < n
            invariant
                i <= n <= data@.len(),
                n <= buf@.len(),
                data@ == self@,
                buf@.len() == old(buf)@.len(),
                buf@ =~= data@.take(i as int) + old(buf)@.skip(i as int),
            decreases n - i,
        {
            buf[i] = data[i];
            i += 1;
        }
        n
    }
}

impl<'a> From<Vec<u8>> for State<'a> {
    fn from(data: Vec<u8>) -> (r: Self)
        ensures
            r@ == data@,
            r.owned(),
    {
        State(Cow::Owned(data))
    }
}

impl<'a> vstd::std_specs::convert::FromSpecImpl<Vec<u8>> for State<'a> {
    open spec fn obeys_from_spec() -> bool {
        true
    }

    closed spec fn from_spec(data: Vec<u8>) -> Self {
        State(Cow::Owned(data))
    }
}

impl<'a> From<&'a [u8]> for State<'a> {
    fn from(data: &'a [u8]) -> (r: Self)
        ensures
            r@ == data@,
            !r.owned(),
    {
        State(Cow::Borrowed(data))
    }
}

impl<'a> vstd::std_specs::convert::FromSpecImpl<&'a [u8]> for State<'a> {
    open spec fn obeys_from_spec() -> bool {
        true
    }

    closed spec fn from_spec(data: &'a [u8]) -> Self {
        State(Cow::Borrowed(data))
    }
}

impl<'a> AsRef<[u8]> for State<'a> {
    fn as_ref(&self) -> (r: &[u8])
        ensures
            r@ == self@,
    {
        cow_slice(&self.0)
    }
}

impl<'a> Clone for State<'a> {
    fn clone(&self) -> (r: Self)
        ensures
            r@ == self@,
            r.owned() == self.owned(),
    {
        match &self.0 {
            Cow::Borrowed(s) => State(Cow::Borrowed(s)),
            Cow::Owned(v) => State(Cow::Owned(slice_to_vec(v.as_slice()))),
        }
    }
}

impl<'a> Deref for State<'a> {
    type Target = Cow<'a, [u8]>;

    fn deref(&self) -> (r: &Cow<'a, [u8]>)
        ensures
            r@ == self@,
            (*r is Owned) == self.owned(),
    {
        &self.0
    }
}

impl<'a> DerefMut for State<'a> {
    fn deref_mut(&mut self) -> (r: &mut Cow<'a, [u8]>)
        ensures
            r@ == old(self)@,
            (*r is Owned) == old(self).owned(),
            final(self)@ == final(r)@,
            final(self).owned() == (*final(r) is Owned),
    {
        &mut self.0
    }
}

impl<'a> PartialEq for State<'a> {
    fn eq(&self, other: &Self) -> (r: bool)
        ensures
            r == (self@ == other@),
    {
        bytes_eq(cow_slice(&self.0), cow_slice(&other.0))
    }
}

impl<'a> vstd::std_specs::cmp::PartialEqSpecImpl for State<'a> {
    open spec fn obeys_eq_spec() -> bool {
        true
    }

    open spec fn eq_spec(&self, other: &Self) -> bool {
        self@ == other@
    }
}

impl<'a> Eq for State<'a> {

}

/// Represents a modification to some state, similar to a diff in source code.
///
/// The exact format of a delta is determined by the contract. A contract implementation determines
/// whether a delta is valid, perhaps by verifying that it is signed by someone authorized to modify
/// the contract state. A delta may be created in response to a [`StateSummary`] as part of the
/// state synchronization mechanism.
#[derive(Debug)]
pub struct StateDelta<'a>(Cow<'a, [u8]>);

impl<'a> View for StateDelta<'a> {
    type V = Seq<u8>;

    closed spec fn view(&self) -> Seq<u8> {
        self.0@
    }
}

impl<'a> StateDelta<'a> {
    /// Whether the bytes are owned rather than borrowed.
    pub closed spec fn owned(&self) -> bool {
        self.0 is Owned
    }

    /// Gets the number of bytes of data stored in the `StateDelta`.
    pub fn size(&self) -> (r: usize)
        ensures
            r == self@.len(),
    {
        cow_slice(&self.0).len()
    }

    /// Extracts the owned data as a `Vec<u8>`.
    pub fn into_bytes(self) -> (r: Vec<u8>)
        ensures
            r@ == self@,
    {
        cow_into_vec(self.0)
    }

    /// Copies the data if not owned and returns an owned version of self.
    pub fn into_owned(self) -> (r: StateDelta<'static>)
        ensures
            r@ == self@,
            r.owned(),
    {
        StateDelta(Cow::Owned(cow_into_vec(self.0)))
    }
}

impl<'a> From<Vec<u8>> for StateDelta<'a> {
    fn from(data: Vec<u8>) -> (r: Self)
        ensures
            r@ == data@,
            r.owned(),
    {
        StateDelta(Cow::Owned(data))
    }
}

impl<'a> vstd::std_specs::convert::FromSpecImpl<Vec<u8>> for StateDelta<'a> {
    open spec fn obeys_from_spec() -> bool {
        true
    }

    closed spec fn from_spec(data: Vec<u8>) -> Self {
        StateDelta(Cow::Owned(data))
    }
}

impl<'a> From<&'a [u8]> for StateDelta<'a> {
    fn from(data: &'a [u8]) -> (r: Self)
        ensures
            r@ == data@,
            !r.owned(),
    {
        StateDelta(Cow::Borrowed(data))
    }
}

impl<'a> vstd::std_specs::convert::FromSpecImpl<&'a [u8]> for StateDelta<'a> {
    open spec fn obeys_from_spec() -> bool {
        true
    }

    closed spec fn from_spec(data: &'a [u8]) -> Self {
        StateDelta(Cow::Borrowed(data))
    }
}

impl<'a> AsRef<[u8]> for StateDelta<'a> {
    fn as_ref(&self) -> (r: &[u8])
        ensures
            r@ == self@,
    {
        cow_slice(&self.0)
    }
}

impl<'a> Clone for StateDelta<'a> {
    fn clone(&self) -> (r: Self)
        ensures
            r@ == self@,
            r.owned() == self.owned(),
    {
        match &self.0 {
            Cow::Borrowed(s) => StateDelta(Cow::Borrowed(s)),
            Cow::Owned(v) => StateDelta(Cow::Owned(slice_to_vec(v.as_slice()))),
        }
    }
}

impl<'a> Deref for StateDelta<'a> {
    type Target = Cow<'a, [u8]>;

    fn deref(&self) -> (r: &Cow<'a, [u8]>)
        ensures
            r@ == self@,
            (*r is Owned) == self.owned(),
    {
        &self.0
    }
}

impl<'a> DerefMut for StateDelta<'a> {
    fn deref_mut(&mut self) -> (r: &mut Cow<'a, [u8]>)
        ensures
            r@ == old(self)@,
            (*r is Owned) == old(self).owned(),
            final(self)@ == final(r)@,
            final(self).owned() == (*final(r) is Owned),
    {
        &mut self.0
    }
}

impl<'a> PartialEq for StateDelta<'a> {
    fn eq(&self, other: &Self) -> (r: bool)
        ensures
            r == (self@ == other@),
    {
        bytes_eq(cow_slice(&self.0), cow_slice(&other.0))
    }
}

impl<'a> vstd::std_specs::cmp::PartialEqSpecImpl for StateDelta<'a> {
    open spec fn obeys_eq_spec() -> bool {
        true
    }

    open spec fn eq_spec(&self, other: &Self) -> bool {
        self@ == other@
    }
}

impl<'a> Eq for StateDelta<'a> {

}

/// Summary of `State` changes.
///
/// Given a contract state, this is a small piece of data that can be used to determine a delta
/// between two contracts as part of the state synchronization mechanism. The format of a state
/// summary is determined by the state's contract.
#[derive(Debug)]
pub struct StateSummary<'a>(Cow<'a, [u8]>);

impl<'a> View for StateSummary<'a> {
    type V = Seq<u8>;

    closed spec fn view(&self) -> Seq<u8> {
        self.0@
    }
}

impl<'a> StateSummary<'a> {
    /// Whether the bytes are owned rather than borrowed.
    pub closed spec fn owned(&self) -> bool {
        self.0 is Owned
    }

    /// Gets the number of bytes of data stored in the `StateSummary`.
    pub fn size(&self) -> (r: usize)
        ensures
            r == self@.len(),
    {
        cow_slice(&self.0).len()
    }

    /// Extracts the owned data as a `Vec<u8>`.
    pub fn into_bytes(self) -> (r: Vec<u8>)
        ensures
            r@ == self@,
    {
        cow_into_vec(self.0)
    }

    /// Copies the data if not owned and returns an owned version of self.
    pub fn into_owned(self) -> (r: StateSummary<'static>)
        ensures
            r@ == self@,
            r.owned(),
    {
        StateSummary(Cow::Owned(cow_into_vec(self.0)))
    }
}

impl<'a> From<Vec<u8>> for StateSummary<'a> {
    fn from(data: Vec<u8>) -> (r: Self)
        ensures
            r@ == data@,
            r.owned(),
    {
        StateSummary(Cow::Owned(data))
    }
}

impl<'a> vstd::std_specs::convert::FromSpecImpl<Vec<u8>> for StateSummary<'a> {
    open spec fn obeys_from_spec() -> bool {
        true
    }

    closed spec fn from_spec(data: Vec<u8>) -> Self {
        StateSummary(Cow::Owned(data))
    }
}

impl<'a> From<&'a [u8]> for StateSummary<'a> {
    fn from(data: &'a [u8]) -> (r: Self)
        ensures
            r@ == data@,
            !r.owned(),
    {
        StateSummary(Cow::Borrowed(data))
    }
}

impl<'a> vstd::std_specs::convert::FromSpecImpl<&'a [u8]> for StateSummary<'a> {
    open spec fn obeys_from_spec() -> bool {
        true
    }

    closed spec fn from_spec(data: &'a [u8]) -> Self {
        StateSummary(Cow::Borrowed(data))
    }
}

impl<'a> AsRef<[u8]> for StateSummary<'a> {
    fn as_ref(&self) -> (r: &[u8])
        ensures
            r@ == self@,
    {
        cow_slice(&self.0)
    }
}

impl<'a> Clone for StateSummary<'a> {
    fn clone(&self) -> (r: Self)
        ensures
            r@ == self@,
            r.owned() == self.owned(),
    {
        match &self.0 {
            Cow::Borrowed(s) => StateSummary(Cow::Borrowed(s)),
            Cow::Owned(v) => StateSummary(Cow::Owned(slice_to_vec(v.as_slice()))),
        }
    }
}

impl<'a> Deref for StateSummary<'a> {
    type Target = Cow<'a, [u8]>;

    fn deref(&self) -> (r: &Cow<'a, [u8]>)
        ensures
            r@ == self@,
            (*r is Owned) == self.owned(),
    {
        &self.0
    }
}

impl<'a> DerefMut for StateSummary<'a> {
    fn deref_mut(&mut self) -> (r: &mut Cow<'a, [u8]>)
        ensures
            r@ == old(self)@,
            (*r is Owned) == old(self).owned(),
            final(self)@ == final(r)@,
            final(self).owned() == (*final(r) is Owned),
    {
        &mut self.0
    }
}

/// Two states are equal exactly if they have the same bytes.
pub proof fn law_state_equality(a: State<'_>, b: State<'_>)
    ensures
        State::obeys_eq_spec(),
        a.eq_spec(&b) == (a@ == b@),
{
}

/// Two deltas are equal exactly if they have the same bytes.
pub proof fn law_delta_equality(a: StateDelta<'_>, b: StateDelta<'_>)
    ensures
        StateDelta::obeys_eq_spec(),
        a.eq_spec(&b) == (a@ == b@),
{
}

} // verus!
