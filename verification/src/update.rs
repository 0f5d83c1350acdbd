//! Updates of contract states.

use vstd::prelude::*;
use vstd::std_specs::cmp::PartialEqSpec;
use crate::digest::CONTRACT_KEY_SIZE;
use crate::key::ContractInstanceId;
use crate::msgpack;
use crate::msgpack::{find_field, str_eq, TryFromTsStd, Value, WsApiError};
use crate::related::{read_id, RelatedContract};
use crate::state::{State, StateDelta};

verus! {

/// An update to a contract state or any required related contracts to update that state.
#[non_exhaustive]
#[derive(Debug)]
pub struct UpdateModification<'a> {
    pub new_state: Option<State<'a>>,
    pub related: Vec<RelatedContract>,
}

impl<'a> UpdateModification<'a> {
    /// Constructor for self when the state is valid.
    pub fn valid(new_state: State<'a>) -> (r: Self)
        ensures
            r.new_state == Some(new_state),
            r.related@ == Seq::<RelatedContract>::empty(),
    {
        UpdateModification { new_state: Some(new_state), related: Vec::new() }
    }

    /// Constructor for self when this contract still is missing some [`RelatedContract`]
    /// to proceed with any verification or updates.
    pub fn requires_related(related: Vec<RelatedContract>) -> (r: Self)
        ensures
            r.new_state is None,
            r.related == related,
    {
        UpdateModification { new_state: None, related }
    }

    /// Unwraps self returning a [`State`].
    pub fn unwrap_valid(self) -> (r: State<'a>)
        requires
            self.new_state is Some,
        ensures
            self.new_state == Some(r),
    {
        self.new_state.unwrap()
    }

    /// Gets the pending related contracts.
    pub fn get_related(&self) -> (r: &[RelatedContract])
        ensures
            r@ == self.related@,
    {
        self.related.as_slice()
    }

    /// Copies the data if not owned and returns an owned version of self.
    pub fn into_owned(self) -> (r: UpdateModification<'static>)
        ensures
            crate::related::state_bytes(r.new_state) == crate::related::state_bytes(self.new_state),
            r.new_state matches Some(s) ==> s.owned(),
            r.related == self.related,
    {
        let UpdateModification { new_state, related } = self;
        UpdateModification {
            new_state: match new_state {
                Some(s) => Some(State::from(s.into_bytes())),
                None => None,
            },
            related,
        }
    }
}

/// The result of validating a state.
#[derive(Debug)]
pub enum ValidateResult {
    Valid,
    Invalid,
    /// The peer will attempt to retrieve the requested contract states
    /// and will call `validate_state` again when it retrieves them.
    RequestRelated(Vec<ContractInstanceId>),
}

/// What a [`ValidateResult`] holds, with the ids seen as their bytes.
pub enum ValidateResultView {
    Valid,
    Invalid,
    RequestRelated(Seq<Seq<u8>>),
}

impl View for ValidateResult {
    type V = ValidateResultView;

    open spec fn view(&self) -> ValidateResultView {
        match self {
            ValidateResult::Valid => ValidateResultView::Valid,
            ValidateResult::Invalid => ValidateResultView::Invalid,
            ValidateResult::RequestRelated(ids) => ValidateResultView::RequestRelated(
                ids@.map_values(|id: ContractInstanceId| id@),
            ),
        }
    }
}

/// Compares two lists of ids.
fn ids_eq(a: &Vec<ContractInstanceId>, b: &Vec<ContractInstanceId>) -> (r: bool)
    ensures
        r == (a@.map_values(|id: ContractInstanceId| id@) == b@.map_values(
            |id: ContractInstanceId| id@,
        )),
{
    let ghost x = a@.map_values(|id: ContractInstanceId| id@);
    let ghost y = b@.map_values(|id: ContractInstanceId| id@);
    if a.len() != b.len() {
        assert(x.len() != y.len());
        return false;
    }
    let mut i: usize = 0;
    while i < a.len()
        invariant
            i <= a@.len() == b@.len(),
            x == a@.map_values(|id: ContractInstanceId| id@),
            y == b@.map_values(|id: ContractInstanceId| id@),
            forall|j: int| 0 <= j < i ==> x[j] == y[j],
        decreases a@.len() - i,
    {
        if a[i] != b[i] {
            assert(x[i as int] != y[i as int]);
            return false;
        }
        i += 1;
    }
    assert(x =~= y);
    true
}

impl PartialEq for ValidateResult {
    fn eq(&self, other: &Self) -> (r: bool)
        ensures
            r == (self@ == other@),
    {
        match (self, other) {
            (ValidateResult::Valid, ValidateResult::Valid) => true,
            (ValidateResult::Invalid, ValidateResult::Invalid) => true,
            (ValidateResult::RequestRelated(a), ValidateResult::RequestRelated(b)) => ids_eq(a, b),
            _ => false,
        }
    }
}

impl vstd::std_specs::cmp::PartialEqSpecImpl for ValidateResult {
    open spec fn obeys_eq_spec() -> bool {
        true
    }

    open spec fn eq_spec(&self, other: &Self) -> bool {
        self@ == other@
    }
}

impl Eq for ValidateResult {

}

/// Update notifications for a contract or a related contract.
#[derive(Debug)]
pub enum UpdateData<'a> {
    State(State<'a>),
    Delta(StateDelta<'a>),
    StateAndDelta { state: State<'a>, delta: StateDelta<'a> },
    RelatedState { related_to: ContractInstanceId, state: State<'a> },
    RelatedDelta { related_to: ContractInstanceId, delta: StateDelta<'a> },
    RelatedStateAndDelta {
        related_to: ContractInstanceId,
        state: State<'a>,
        delta: StateDelta<'a>,
    },
}

/// What an [`UpdateData`] holds, with its parts seen as their bytes.
pub enum UpdateDataView {
    State(Seq<u8>),
    Delta(Seq<u8>),
    StateAndDelta { state: Seq<u8>, delta: Seq<u8> },
    RelatedState { related_to: Seq<u8>, state: Seq<u8> },
    RelatedDelta { related_to: Seq<u8>, delta: Seq<u8> },
    RelatedStateAndDelta { related_to: Seq<u8>, state: Seq<u8>, delta: Seq<u8> },
}

impl<'a> View for UpdateData<'a> {
    type V = UpdateDataView;

    open spec fn view(&self) -> UpdateDataView {
        match self {
            UpdateData::State(state) => UpdateDataView::State(state@),
            UpdateData::Delta(delta) => UpdateDataView::Delta(delta@),
            UpdateData::StateAndDelta { state, delta } => UpdateDataView::StateAndDelta {
                state: state@,
                delta: delta@,
            },
            UpdateData::RelatedState { related_to, state } => UpdateDataView::RelatedState {
                related_to: related_to@,
                state: state@,
            },
            UpdateData::RelatedDelta { related_to, delta } => UpdateDataView::RelatedDelta {
                related_to: related_to@,
                delta: delta@,
            },
            UpdateData::RelatedStateAndDelta { related_to, state, delta } =>
                UpdateDataView::RelatedStateAndDelta {
                related_to: related_to@,
                state: state@,
                delta: delta@,
            },
        }
    }
}

impl UpdateDataView {
    /// The number of bytes of all parts, the id of a related contract included.
    pub open spec fn size(self) -> nat {
        match self {
            UpdateDataView::State(state) => state.len(),
            UpdateDataView::Delta(delta) => delta.len(),
            UpdateDataView::StateAndDelta { state, delta } => state.len() + delta.len(),
            UpdateDataView::RelatedState { related_to, state } => state.len()
                + CONTRACT_KEY_SIZE as nat,
            UpdateDataView::RelatedDelta { related_to, delta } => delta.len()
                + CONTRACT_KEY_SIZE as nat,
            UpdateDataView::RelatedStateAndDelta { related_to, state, delta } => state.len()
                + delta.len() + CONTRACT_KEY_SIZE as nat,
        }
    }
}

impl<'a> UpdateData<'a> {
    /// All states and deltas are owned rather than borrowed.
    pub open spec fn owned(&self) -> bool {
        match self {
            UpdateData::State(state) => state.owned(),
            UpdateData::Delta(delta) => delta.owned(),
            UpdateData::StateAndDelta { state, delta } => state.owned() && delta.owned(),
            UpdateData::RelatedState { related_to, state } => state.owned(),
            UpdateData::RelatedDelta { related_to, delta } => delta.owned(),
            UpdateData::RelatedStateAndDelta { related_to, state, delta } => state.owned()
                && delta.owned(),
        }
    }

    /// All states and deltas are borrowed rather than owned.
    pub open spec fn borrowed(&self) -> bool {
        match self {
            UpdateData::State(state) => !state.owned(),
            UpdateData::Delta(delta) => !delta.owned(),
            UpdateData::StateAndDelta { state, delta } => !state.owned() && !delta.owned(),
            UpdateData::RelatedState { related_to, state } => !state.owned(),
            UpdateData::RelatedDelta { related_to, delta } => !delta.owned(),
            UpdateData::RelatedStateAndDelta { related_to, state, delta } => !state.owned()
                && !delta.owned(),
        }
    }

    /// The number of bytes of all parts, the id of a related contract included.
    pub fn size(&self) -> (r: usize)
        requires
            self@.size() <= usize::MAX,
        ensures
            r == self@.size(),
    {
        match self {
            UpdateData::State(state) => state.size(),
            UpdateData::Delta(delta) => delta.size(),
            UpdateData::StateAndDelta { state, delta } => state.size() + delta.size(),
            UpdateData::RelatedState { state, .. } => state.size() + CONTRACT_KEY_SIZE,
            UpdateData::RelatedDelta { delta, .. } => delta.size() + CONTRACT_KEY_SIZE,
            UpdateData::RelatedStateAndDelta { state, delta, .. } => {
                state.size() + delta.size() + CONTRACT_KEY_SIZE
            },
        }
    }

    /// The delta of an update that is one.
    pub fn unwrap_delta(&self) -> (r: &StateDelta<'a>)
        requires
            self is Delta,
        ensures
            *self == UpdateData::Delta(*r),
    {
        match self {
            UpdateData::Delta(delta) => delta,
            _ => vstd::pervasive::unreached(),
        }
    }

    /// Copies the data if not owned and returns an owned version of self.
    pub fn into_owned(self) -> (r: UpdateData<'static>)
        ensures
            r@ == self@,
            r.owned(),
    {
        match self {
            UpdateData::State(s) => UpdateData::State(State::from(s.into_bytes())),
            UpdateData::Delta(d) => UpdateData::Delta(StateDelta::from(d.into_bytes())),
            UpdateData::StateAndDelta { state, delta } => UpdateData::StateAndDelta {
                delta: StateDelta::from(delta.into_bytes()),
                state: State::from(state.into_bytes()),
            },
            UpdateData::RelatedState { related_to, state } => UpdateData::RelatedState {
                related_to,
                state: State::from(state.into_bytes()),
            },
            UpdateData::RelatedDelta { related_to, delta } => UpdateData::RelatedDelta {
                related_to,
                delta: StateDelta::from(delta.into_bytes()),
            },
            UpdateData::RelatedStateAndDelta { related_to, state, delta } =>
                UpdateData::RelatedStateAndDelta {
                related_to,
                state: State::from(state.into_bytes()),
                delta: StateDelta::from(delta.into_bytes()),
            },
        }
    }
}

impl<'a> From<StateDelta<'a>> for UpdateData<'a> {
    fn from(delta: StateDelta<'a>) -> (r: Self)
        ensures
            r == UpdateData::Delta(delta),
    {
        UpdateData::Delta(delta)
    }
}

impl<'a> vstd::std_specs::convert::FromSpecImpl<StateDelta<'a>> for UpdateData<'a> {
    open spec fn obeys_from_spec() -> bool {
        true
    }

    open spec fn from_spec(delta: StateDelta<'a>) -> Self {
        UpdateData::Delta(delta)
    }
}

impl<'a> Clone for UpdateData<'a> {
    fn clone(&self) -> (r: Self)
        ensures
            r@ == self@,
            r.owned() == self.owned(),
            r.borrowed() == self.borrowed(),
    {
        match self {
            UpdateData::State(state) => UpdateData::State(state.clone()),
            UpdateData::Delta(delta) => UpdateData::Delta(delta.clone()),
            UpdateData::StateAndDelta { state, delta } => UpdateData::StateAndDelta {
                state: state.clone(),
                delta: delta.clone(),
            },
            UpdateData::RelatedState { related_to, state } => UpdateData::RelatedState {
                related_to: *related_to,
                state: state.clone(),
            },
            UpdateData::RelatedDelta { related_to, delta } => UpdateData::RelatedDelta {
                related_to: *related_to,
                delta: delta.clone(),
            },
            UpdateData::RelatedStateAndDelta { related_to, state, delta } =>
                UpdateData::RelatedStateAndDelta {
                related_to: *related_to,
                state: state.clone(),
                delta: delta.clone(),
            },
        }
    }
}

impl<'a> PartialEq for UpdateData<'a> {
    fn eq(&self, other: &Self) -> (r: bool)
        ensures
            r == (self@ == other@),
    {
        match (self, other) {
            (UpdateData::State(a), UpdateData::State(b)) => a == b,
            (UpdateData::Delta(a), UpdateData::Delta(b)) => a == b,
            (
                UpdateData::StateAndDelta { state: a, delta: c },
                UpdateData::StateAndDelta { state: b, delta: d },
            ) => a == b && c == d,
            (
                UpdateData::RelatedState { related_to: i, state: a },
                UpdateData::RelatedState { related_to: j, state: b },
            ) => i == j && a == b,
            (
                UpdateData::RelatedDelta { related_to: i, delta: c },
                UpdateData::RelatedDelta { related_to: j, delta: d },
            ) => i == j && c == d,
            (
                UpdateData::RelatedStateAndDelta { related_to: i, state: a, delta: c },
                UpdateData::RelatedStateAndDelta { related_to: j, state: b, delta: d },
            ) => i == j && a == b && c == d,
            _ => false,
        }
    }
}

impl<'a> vstd::std_specs::cmp::PartialEqSpecImpl for UpdateData<'a> {
    open spec fn obeys_eq_spec() -> bool {
        true
    }

    open spec fn eq_spec(&self, other: &Self) -> bool {
        self@ == other@
    }
}

impl<'a> Eq for UpdateData<'a> {

}

/// The keys that the map of an update may have.
pub open spec fn is_update_key(key: Value) -> bool {
    ||| key.text() == Some("delta"@)
    ||| key.text() == Some("state"@)
    ||| key.text() == Some("relatedTo"@)
}

/// Every key is one that the map of an update may have.
pub open spec fn update_keys(entries: Seq<(Value, Value)>) -> bool {
    forall|i: int| 0 <= i < entries.len() ==> is_update_key((#[trigger] entries[i]).0)
}

/// The update in a value sent by a client; `None` where the value does not have the form of one.
///
/// The value is a map. It has a delta, a state or both, and nothing else, or a delta and the id of
/// a related contract. Where a state comes alone, its bytes are taken as a delta.
pub open spec fn update_of_value(value: Value) -> Option<UpdateDataView> {
    match value.entries() {
        None => None,
        Some(entries) => if !update_keys(entries) {
            None
        } else {
            update_of_fields(
                msgpack::field(entries, "delta"@),
                msgpack::field(entries, "state"@),
                msgpack::field(entries, "relatedTo"@),
            )
        },
    }
}

/// The update with the given fields.
pub open spec fn update_of_fields(
    delta: Option<Value>,
    state: Option<Value>,
    related_to: Option<Value>,
) -> Option<UpdateDataView> {
    match (delta, state, related_to) {
        (Some(delta), None, None) => match delta.bytes() {
            Some(delta) => Some(UpdateDataView::Delta(delta)),
            None => None,
        },
        (None, Some(state), None) => match state.bytes() {
            Some(state) => Some(UpdateDataView::Delta(state)),
            None => None,
        },
        (Some(delta), Some(state), None) => match (delta.bytes(), state.bytes()) {
            (Some(delta), Some(state)) => Some(UpdateDataView::StateAndDelta { state, delta }),
            _ => None,
        },
        (Some(delta), None, Some(related_to)) => match (
            delta.bytes(),
            crate::related::id_of_value(related_to),
        ) {
            (Some(delta), Some(related_to)) => Some(
                UpdateDataView::RelatedDelta { related_to, delta },
            ),
            _ => None,
        },
        _ => None,
    }
}

/// Whether every key is one that the map of an update may have.
fn has_update_keys(entries: &Vec<(Value, Value)>) -> (r: bool)
    ensures
        r == update_keys(entries@),
{
    let mut i: usize = 0;
    while i < entries.len()
        invariant
            i <= entries@.len(),
            forall|j: int| 0 <= j < i ==> is_update_key((#[trigger] entries@[j]).0),
        decreases entries@.len() - i,
    {
        let known = match entries[i].0.as_str() {
            Some(key) => str_eq(key, "delta") || str_eq(key, "state") || str_eq(key, "relatedTo"),
            None => false,
        };
        if !known {
            assert(!is_update_key(entries@[i as int].0));
            return false;
        }
        i += 1;
    }
    true
}

impl<'a> UpdateData<'a> {
    /// Decodes an update sent by a client; `None` where the value does not have the form of one.
    pub fn from_value(value: &'a Value) -> (r: Option<Self>)
        ensures
            update_of_value(*value) == match r {
                Some(update) => Some(update@),
                None => None,
            },
            r matches Some(update) ==> update.borrowed(),
    {
        let entries = match value.as_map() {
            Some(entries) => entries,
            None => {
                return None;
            },
        };
        if !has_update_keys(entries) {
            return None;
        }
        let delta = find_field(entries, "delta");
        let state = find_field(entries, "state");
        let related_to = find_field(entries, "relatedTo");
        match (delta, state, related_to) {
            (Some(delta), None, None) => match delta.as_slice() {
                Some(delta) => Some(UpdateData::Delta(StateDelta::from(delta))),
                None => None,
            },
            (None, Some(state), None) => match state.as_slice() {
                Some(state) => Some(UpdateData::Delta(StateDelta::from(state))),
                None => None,
            },
            (Some(delta), Some(state), None) => match (delta.as_slice(), state.as_slice()) {
                (Some(delta), Some(state)) => Some(
                    UpdateData::StateAndDelta {
                        state: State::from(state),
                        delta: StateDelta::from(delta),
                    },
                ),
                _ => None,
            },
            (Some(delta), None, Some(related_to)) => match (delta.as_slice(), read_id(related_to)) {
                (Some(delta), Some(related_to)) => Some(
                    UpdateData::RelatedDelta { related_to, delta: StateDelta::from(delta) },
                ),
                _ => None,
            },
            _ => None,
        }
    }
}

impl<'a> TryFromTsStd<&'a Value> for UpdateData<'a> {
    open spec fn decodable(value: &'a Value) -> bool {
        update_of_value(*value) is Some
    }

    fn try_decode(value: &'a Value) -> (r: Result<Self, WsApiError>)
        ensures
            r matches Ok(update) && update_of_value(*value) == Some(update@) && update.borrowed(),
    {
        Ok(UpdateData::from_value(value).unwrap())
    }
}

/// What decodes as an update is a delta, a state and a delta, or a delta of a related contract.
pub proof fn law_update_forms(value: Value)
    ensures
        update_of_value(value) matches Some(update) ==> (update is Delta || update is StateAndDelta
            || update is RelatedDelta),
{
}

/// Two results of validating a state are equal exactly if they are of the same kind and, where they
/// request related contracts, request the same ones in the same order.
pub proof fn law_validate_result_equality(a: ValidateResult, b: ValidateResult)
    ensures
        ValidateResult::obeys_eq_spec(),
        a.eq_spec(&b) == match (a, b) {
            (ValidateResult::Valid, ValidateResult::Valid) => true,
            (ValidateResult::Invalid, ValidateResult::Invalid) => true,
            (ValidateResult::RequestRelated(x), ValidateResult::RequestRelated(y)) => x@.len()
                == y@.len() && forall|i: int|
                0 <= i < x@.len() ==> (#[trigger] x@[i])@ == y@[i]@,
            _ => false,
        },
        a.eq_spec(&b) == (a@ == b@),
{
    if let (ValidateResult::RequestRelated(x), ValidateResult::RequestRelated(y)) = (a, b) {
        let p = x@.map_values(|id: ContractInstanceId| id@);
        let q = y@.map_values(|id: ContractInstanceId| id@);
        if p == q {
            assert(x@.len() == p.len() == q.len() == y@.len());
            assert forall|i: int| 0 <= i < x@.len() implies (#[trigger] x@[i])@ == y@[i]@ by {
                assert(p[i] == x@[i]@);
                assert(q[i] == y@[i]@);
            }
        } else if x@.len() == y@.len() {
            if forall|i: int| 0 <= i < x@.len() ==> (#[trigger] x@[i])@ == y@[i]@ {
                assert(p =~= q);
            }
        }
    }
}

/// An update is seen as its variant, with all of the bytes of each of its parts.
pub proof fn law_update_view<'a>(state: State<'a>, delta: StateDelta<'a>, related_to: ContractInstanceId)
    ensures
        UpdateData::State(state)@ == UpdateDataView::State(state@),
        UpdateData::Delta(delta)@ == UpdateDataView::Delta(delta@),
        (UpdateData::StateAndDelta { state, delta })@ == (UpdateDataView::StateAndDelta {
            state: state@,
            delta: delta@,
        }),
        (UpdateData::RelatedState { related_to, state })@ == (UpdateDataView::RelatedState {
            related_to: related_to@,
            state: state@,
        }),
        (UpdateData::RelatedDelta { related_to, delta })@ == (UpdateDataView::RelatedDelta {
            related_to: related_to@,
            delta: delta@,
        }),
        (UpdateData::RelatedStateAndDelta { related_to, state, delta })@ == (
        UpdateDataView::RelatedStateAndDelta {
            related_to: related_to@,
            state: state@,
            delta: delta@,
        }),
{
}

/// Two updates are equal exactly if they are of the same variant and their parts have the same bytes.
pub proof fn law_update_equality(a: UpdateData<'_>, b: UpdateData<'_>)
    ensures
        UpdateData::obeys_eq_spec(),
        a.eq_spec(&b) == match (a, b) {
            (UpdateData::State(x), UpdateData::State(y)) => x@ == y@,
            (UpdateData::Delta(x), UpdateData::Delta(y)) => x@ == y@,
            (
                UpdateData::StateAndDelta { state: x, delta: d },
                UpdateData::StateAndDelta { state: y, delta: e },
            ) => x@ == y@ && d@ == e@,
            (
                UpdateData::RelatedState { related_to: i, state: x },
                UpdateData::RelatedState { related_to: j, state: y },
            ) => i@ == j@ && x@ == y@,
            (
                UpdateData::RelatedDelta { related_to: i, delta: d },
                UpdateData::RelatedDelta { related_to: j, delta: e },
            ) => i@ == j@ && d@ == e@,
            (
                UpdateData::RelatedStateAndDelta { related_to: i, state: x, delta: d },
                UpdateData::RelatedStateAndDelta { related_to: j, state: y, delta: e },
            ) => i@ == j@ && x@ == y@ && d@ == e@,
            _ => false,
        },
{
}

/// The size of an update is the number of bytes of its state and of its delta, and that of an id
/// where it is of a related contract.
pub proof fn law_update_size(related_to: Seq<u8>, state: Seq<u8>, delta: Seq<u8>)
    ensures
        UpdateDataView::State(state).size() == state.len(),
        UpdateDataView::Delta(delta).size() == delta.len(),
        (UpdateDataView::StateAndDelta { state, delta }).size() == state.len() + delta.len(),
        (UpdateDataView::RelatedState { related_to, state }).size() == state.len() + 32,
        (UpdateDataView::RelatedDelta { related_to, delta }).size() == delta.len() + 32,
        (UpdateDataView::RelatedStateAndDelta { related_to, state, delta }).size() == state.len()
            + delta.len() + 32,
{
}

/// An update is owned, or borrowed, if each of its parts is.
pub proof fn law_update_owned<'a>(state: State<'a>, delta: StateDelta<'a>, related_to: ContractInstanceId)
    ensures
        UpdateData::State(state).owned() == state.owned(),
        UpdateData::Delta(delta).owned() == delta.owned(),
        (UpdateData::StateAndDelta { state, delta }).owned() == (state.owned() && delta.owned()),
        (UpdateData::RelatedState { related_to, state }).owned() == state.owned(),
        (UpdateData::RelatedDelta { related_to, delta }).owned() == delta.owned(),
        (UpdateData::RelatedStateAndDelta { related_to, state, delta }).owned() == (state.owned()
            && delta.owned()),
        UpdateData::State(state).borrowed() == !state.owned(),
        UpdateData::Delta(delta).borrowed() == !delta.owned(),
        (UpdateData::StateAndDelta { state, delta }).borrowed() == (!state.owned()
            && !delta.owned()),
        (UpdateData::RelatedState { related_to, state }).borrowed() == !state.owned(),
        (UpdateData::RelatedDelta { related_to, delta }).borrowed() == !delta.owned(),
        (UpdateData::RelatedStateAndDelta { related_to, state, delta }).borrowed() == (
        !state.owned() && !delta.owned()),
{
}

/// The keys `delta`, `state` and `relatedTo` are different.
proof fn lemma_update_keys_differ()
    ensures
        "delta"@ != "state"@,
        "delta"@ != "relatedTo"@,
        "state"@ != "relatedTo"@,
{
    reveal_strlit("delta");
    reveal_strlit("state");
    reveal_strlit("relatedTo");
    assert("delta"@[0] != "state"@[0]);
    assert("delta"@[0] != "relatedTo"@[0]);
    assert("state"@[0] != "relatedTo"@[0]);
}

/// A map that has no key but `delta` is decoded to the delta with all of the bytes that its last pair
/// holds.
pub proof fn law_update_delta(pairs: Vec<(Value, Value)>, delta: Seq<u8>)
    requires
        pairs@.len() > 0,
        forall|k: int| 0 <= k < pairs@.len() ==> (#[trigger] pairs@[k]).0.text() == Some("delta"@),
        pairs@.last().1.bytes() == Some(delta),
    ensures
        update_of_value(Value::Pairs(pairs)) == Some(UpdateDataView::Delta(delta)),
{
    lemma_update_keys_differ();
    let n = pairs@.len() - 1;
    assert(pairs@[n].0.text() == Some("delta"@));
    msgpack::law_field_is_last(pairs@, "delta"@, n);
    msgpack::law_field_absent(pairs@, "state"@);
    msgpack::law_field_absent(pairs@, "relatedTo"@);
}

/// A map that has no key but `state` is decoded to the delta with all of the bytes that its last pair
/// holds.
pub proof fn law_update_state(pairs: Vec<(Value, Value)>, state: Seq<u8>)
    requires
        pairs@.len() > 0,
        forall|k: int| 0 <= k < pairs@.len() ==> (#[trigger] pairs@[k]).0.text() == Some("state"@),
        pairs@.last().1.bytes() == Some(state),
    ensures
        update_of_value(Value::Pairs(pairs)) == Some(UpdateDataView::Delta(state)),
{
    lemma_update_keys_differ();
    let n = pairs@.len() - 1;
    assert(pairs@[n].0.text() == Some("state"@));
    msgpack::law_field_is_last(pairs@, "state"@, n);
    msgpack::law_field_absent(pairs@, "delta"@);
    msgpack::law_field_absent(pairs@, "relatedTo"@);
}

/// A map that has the keys `delta` and `state`, in any order, and no other is decoded to a state and
/// a delta, with all of the bytes that the last pair of each key holds.
pub proof fn law_update_state_and_delta(
    pairs: Vec<(Value, Value)>,
    i: int,
    j: int,
    delta: Seq<u8>,
    state: Seq<u8>,
)
    requires
        0 <= i < pairs@.len(),
        0 <= j < pairs@.len(),
        pairs@[i].0.text() == Some("delta"@),
        pairs@[j].0.text() == Some("state"@),
        forall|k: int|
            0 <= k < pairs@.len() ==> ((#[trigger] pairs@[k]).0.text() == Some("delta"@) && k <= i)
                || (pairs@[k].0.text() == Some("state"@) && k <= j),
        pairs@[i].1.bytes() == Some(delta),
        pairs@[j].1.bytes() == Some(state),
    ensures
        update_of_value(Value::Pairs(pairs)) == Some(UpdateDataView::StateAndDelta { state, delta }),
{
    lemma_update_keys_differ();
    msgpack::law_field_is_last(pairs@, "delta"@, i);
    msgpack::law_field_is_last(pairs@, "state"@, j);
    msgpack::law_field_absent(pairs@, "relatedTo"@);
}

/// A map that has the keys `delta` and `relatedTo`, in any order, and no other is decoded to a delta
/// of a related contract: the one whose id the last pair of `relatedTo` holds as text, with all of
/// the bytes that the last pair of `delta` holds.
pub proof fn law_update_related_delta(
    pairs: Vec<(Value, Value)>,
    i: int,
    j: int,
    delta: Seq<u8>,
    text: Seq<u8>,
    id: Seq<u8>,
)
    requires
        0 <= i < pairs@.len(),
        0 <= j < pairs@.len(),
        pairs@[i].0.text() == Some("delta"@),
        pairs@[j].0.text() == Some("relatedTo"@),
        forall|k: int|
            0 <= k < pairs@.len() ==> ((#[trigger] pairs@[k]).0.text() == Some("delta"@) && k <= i)
                || (pairs@[k].0.text() == Some("relatedTo"@) && k <= j),
        pairs@[i].1.bytes() == Some(delta),
        pairs@[j].1.bytes() == Some(text),
        crate::key::decode_key_bytes(text) == Ok::<Seq<u8>, crate::base58::Base58Error>(id),
    ensures
        update_of_value(Value::Pairs(pairs)) == Some(
            UpdateDataView::RelatedDelta { related_to: id, delta },
        ),
{
    lemma_update_keys_differ();
    msgpack::law_field_is_last(pairs@, "delta"@, i);
    msgpack::law_field_is_last(pairs@, "relatedTo"@, j);
    msgpack::law_field_absent(pairs@, "state"@);
}

/// A delta that is sent with the Base58 text of an id is decoded to the delta of that contract.
pub proof fn law_update_related_delta_read_back(
    pairs: Vec<(Value, Value)>,
    i: int,
    j: int,
    delta: Seq<u8>,
    id: Seq<u8>,
)
    requires
        0 <= i < pairs@.len(),
        0 <= j < pairs@.len(),
        pairs@[i].0.text() == Some("delta"@),
        pairs@[j].0.text() == Some("relatedTo"@),
        forall|k: int|
            0 <= k < pairs@.len() ==> ((#[trigger] pairs@[k]).0.text() == Some("delta"@) && k <= i)
                || (pairs@[k].0.text() == Some("relatedTo"@) && k <= j),
        pairs@[i].1.bytes() == Some(delta),
        id.len() == CONTRACT_KEY_SIZE,
        pairs@[j].1.bytes() == Some(
            vstd::utf8::encode_utf8(crate::base58::base58_text(id)),
        ),
    ensures
        update_of_value(Value::Pairs(pairs)) == Some(
            UpdateDataView::RelatedDelta { related_to: id, delta },
        ),
{
    crate::key::law_key_text_round_trip(id);
    let text = vstd::utf8::encode_utf8(crate::base58::base58_text(id));
    law_update_related_delta(pairs, i, j, delta, text, id);
}

/// An update is decoded only from a map whose keys are all among `delta`, `state` and `relatedTo`,
/// and only from fields that hold its parts: a delta from the field `delta`, or from the field
/// `state` where that comes alone.
pub proof fn law_update_came_from(value: Value, update: UpdateDataView)
    requires
        update_of_value(value) == Some(update),
    ensures
        value is Pairs,
        forall|k: int|
            0 <= k < value->Pairs_0@.len() ==> {
                ||| (#[trigger] value->Pairs_0@[k]).0.text() == Some("delta"@)
                ||| value->Pairs_0@[k].0.text() == Some("state"@)
                ||| value->Pairs_0@[k].0.text() == Some("relatedTo"@)
            },
        ({
            let delta = msgpack::field(value->Pairs_0@, "delta"@);
            let state = msgpack::field(value->Pairs_0@, "state"@);
            let related = msgpack::field(value->Pairs_0@, "relatedTo"@);
            match update {
                UpdateDataView::Delta(bytes) => related is None && ((state is None && delta is Some
                    && delta.unwrap().bytes() == Some(bytes)) || (delta is None && state is Some
                    && state.unwrap().bytes() == Some(bytes))),
                UpdateDataView::StateAndDelta { state: s, delta: d } => related is None
                    && state is Some && state.unwrap().bytes() == Some(s) && delta is Some
                    && delta.unwrap().bytes() == Some(d),
                UpdateDataView::RelatedDelta { related_to, delta: d } => state is None
                    && delta is Some && delta.unwrap().bytes() == Some(d) && related is Some
                    && related.unwrap().bytes() is Some && crate::key::decode_key_bytes(
                    related.unwrap().bytes().unwrap(),
                ) == Ok::<Seq<u8>, crate::base58::Base58Error>(related_to),
                _ => false,
            }
        }),
{
    let entries = value->Pairs_0@;
    assert forall|k: int| 0 <= k < entries.len() implies {
        ||| (#[trigger] entries[k]).0.text() == Some("delta"@)
        ||| entries[k].0.text() == Some("state"@)
        ||| entries[k].0.text() == Some("relatedTo"@)
    } by {
        assert(is_update_key(entries[k].0));
    }
}

/// Updates are decoded from the values that have the form of one.
pub proof fn law_update_decodable(value: &Value)
    ensures
        <UpdateData<'_> as TryFromTsStd<&Value>>::decodable(value) == (update_of_value(
            *value,
        ) is Some),
{
}

} // verus!
