//! Contracts that are related to another one.

use vstd::prelude::*;
use vstd::std_specs::cmp::PartialEqSpec;
use vstd::utf8;
use crate::base58;
use crate::digest;
use crate::key;
use crate::key::ContractInstanceId;
use crate::msgpack::{TryFromTsStd, Value, WsApiError};
use crate::state::State;

verus! {

/// A contract related to an other contract and the specification
/// of the kind of update notifications that should be received by this contract.
#[derive(Debug)]
pub struct RelatedContract {
    pub contract_instance_id: ContractInstanceId,
    pub mode: RelatedMode,
}

/// Specification of the notifications of interest from a related contract.
#[derive(Debug)]
pub enum RelatedMode {
    /// Retrieve the state once, not concerned with subsequent changes.
    StateOnce,
    /// Retrieve the state once, and then supply deltas from then on.
    StateOnceThenDeltas,
    /// Retrieve the state and then provide new states every time it updates.
    StateEvery,
    /// Retrieve the state and then provide new states and deltas every time it updates.
    StateThenStateAndDeltas,
}

/// The bytes of a state that may be missing.
pub open spec fn state_bytes(state: Option<State<'_>>) -> Option<Seq<u8>> {
    match state {
        Some(s) => Some(s@),
        None => None,
    }
}

/// No id occurs twice.
pub open spec fn distinct_ids(entries: Seq<(ContractInstanceId, Option<State<'_>>)>) -> bool {
    forall|i: int, j: int|
        0 <= i < j < entries.len() ==> (#[trigger] entries[i]).0@ != (#[trigger] entries[j]).0@
}

/// The entry at `i` is that of `id`.
pub open spec fn is_entry(
    entries: Seq<(ContractInstanceId, Option<State<'_>>)>,
    i: int,
    id: Seq<u8>,
) -> bool {
    0 <= i < entries.len() && entries[i].0@ == id
}

/// All states are owned rather than borrowed.
pub open spec fn all_owned(entries: Seq<(ContractInstanceId, Option<State<'_>>)>) -> bool {
    forall|i: int|
        0 <= i < entries.len() ==> match (#[trigger] entries[i]).1 {
            Some(state) => state.owned(),
            None => true,
        }
}

/// All states are borrowed rather than owned.
pub open spec fn all_borrowed(entries: Seq<(ContractInstanceId, Option<State<'_>>)>) -> bool {
    forall|i: int|
        0 <= i < entries.len() ==> match (#[trigger] entries[i]).1 {
            Some(state) => !state.owned(),
            None => true,
        }
}

/// The states by the bytes of the ids that they belong to.
pub open spec fn entries_map(entries: Seq<(ContractInstanceId, Option<State<'_>>)>) -> Map<
    Seq<u8>,
    Option<Seq<u8>>,
> {
    Map::new(
        |id: Seq<u8>| exists|i: int| is_entry(entries, i, id),
        |id: Seq<u8>| state_bytes(entries[choose|i: int| is_entry(entries, i, id)].1),
    )
}

/// The contracts related to a parent or root contract. Typically this means
/// contracts which state requires to be verified or integrated in some way with
/// the parent contract.
///
/// They are seen as a map from ids to states, some of which may be missing.
#[derive(Debug)]
pub struct RelatedContracts<'a> {
    map: Vec<(ContractInstanceId, Option<State<'a>>)>,
}

impl<'a> View for RelatedContracts<'a> {
    type V = Map<Seq<u8>, Option<Seq<u8>>>;

    closed spec fn view(&self) -> Map<Seq<u8>, Option<Seq<u8>>> {
        entries_map(self.map@)
    }
}

/// Where ids are distinct, the map has the state of each entry.
proof fn lemma_entries_map(entries: Seq<(ContractInstanceId, Option<State<'_>>)>, i: int)
    requires
        distinct_ids(entries),
        0 <= i < entries.len(),
    ensures
        entries_map(entries).dom().contains(entries[i].0@),
        entries_map(entries)[entries[i].0@] == state_bytes(entries[i].1),
{
    let id = entries[i].0@;
    assert(is_entry(entries, i, id));
    let k = choose|k: int| is_entry(entries, k, id);
    assert(is_entry(entries, k, id));
    assert(k == i);
}

/// Replacing the state of an entry updates the map.
proof fn lemma_entries_map_update<'a>(
    entries: Seq<(ContractInstanceId, Option<State<'a>>)>,
    i: int,
    state: Option<State<'a>>,
)
    requires
        distinct_ids(entries),
        0 <= i < entries.len(),
    ensures
        distinct_ids(entries.update(i, (entries[i].0, state))),
        entries_map(entries.update(i, (entries[i].0, state))) == entries_map(entries).insert(
            entries[i].0@,
            state_bytes(state),
        ),
{
    let id = entries[i].0@;
    let after = entries.update(i, (entries[i].0, state));
    let expected = entries_map(entries).insert(id, state_bytes(state));
    assert forall|j: int, k: int| 0 <= j < k < after.len() implies (#[trigger] after[j]).0@
        != (#[trigger] after[k]).0@ by {
        assert(after[j].0 == entries[j].0);
        assert(after[k].0 == entries[k].0);
    }
    assert forall|other: Seq<u8>|
        entries_map(after).dom().contains(other) == expected.dom().contains(other) by {
        if entries_map(after).dom().contains(other) {
            let k = choose|k: int| is_entry(after, k, other);
            assert(is_entry(after, k, other));
            assert(is_entry(entries, k, other));
        }
        if entries_map(entries).dom().contains(other) {
            let k = choose|k: int| is_entry(entries, k, other);
            assert(is_entry(entries, k, other));
            assert(is_entry(after, k, other));
        }
        assert(is_entry(after, i, id));
    }
    assert forall|other: Seq<u8>| entries_map(after).dom().contains(other) implies entries_map(
        after,
    )[other] == expected[other] by {
        let k = choose|k: int| is_entry(after, k, other);
        assert(is_entry(after, k, other));
        lemma_entries_map(after, k);
        lemma_entries_map(entries, k);
    }
    assert(entries_map(after) =~= expected);
}

/// Adding an entry with a new id inserts it in the map.
proof fn lemma_entries_map_push<'a>(
    entries: Seq<(ContractInstanceId, Option<State<'a>>)>,
    entry: (ContractInstanceId, Option<State<'a>>),
)
    requires
        distinct_ids(entries),
        forall|i: int| 0 <= i < entries.len() ==> (#[trigger] entries[i]).0@ != entry.0@,
    ensures
        distinct_ids(entries.push(entry)),
        entries_map(entries.push(entry)) == entries_map(entries).insert(
            entry.0@,
            state_bytes(entry.1),
        ),
{
    let after = entries.push(entry);
    let expected = entries_map(entries).insert(entry.0@, state_bytes(entry.1));
    assert forall|j: int, k: int| 0 <= j < k < after.len() implies (#[trigger] after[j]).0@
        != (#[trigger] after[k]).0@ by {
        assert(after[j] == entries[j]);
        if k < entries.len() {
            assert(after[k] == entries[k]);
        }
    }
    assert forall|other: Seq<u8>|
        entries_map(after).dom().contains(other) == expected.dom().contains(other) by {
        if entries_map(after).dom().contains(other) {
            let k = choose|k: int| is_entry(after, k, other);
            assert(is_entry(after, k, other));
            if k < entries.len() {
                assert(is_entry(entries, k, other));
            }
        }
        if entries_map(entries).dom().contains(other) {
            let k = choose|k: int| is_entry(entries, k, other);
            assert(is_entry(entries, k, other));
            assert(is_entry(after, k, other));
        }
        assert(is_entry(after, entries.len() as int, entry.0@));
    }
    assert forall|other: Seq<u8>| entries_map(after).dom().contains(other) implies entries_map(
        after,
    )[other] == expected[other] by {
        let k = choose|k: int| is_entry(after, k, other);
        assert(is_entry(after, k, other));
        lemma_entries_map(after, k);
        if k < entries.len() {
            lemma_entries_map(entries, k);
            assert(after[k] == entries[k]);
        }
    }
    assert(entries_map(after) =~= expected);
}

/// Two lists of entries with distinct ids and the same ids and states in the same order.
proof fn lemma_entries_map_same(
    a: Seq<(ContractInstanceId, Option<State<'_>>)>,
    b: Seq<(ContractInstanceId, Option<State<'_>>)>,
)
    requires
        distinct_ids(a),
        a.len() == b.len(),
        forall|i: int|
            0 <= i < a.len() ==> (#[trigger] a[i]).0@ == b[i].0@ && state_bytes(a[i].1)
                == state_bytes(b[i].1),
    ensures
        distinct_ids(b),
        entries_map(a) == entries_map(b),
{
    assert forall|j: int, k: int| 0 <= j < k < b.len() implies (#[trigger] b[j]).0@
        != (#[trigger] b[k]).0@ by {
        assert(a[j].0@ != a[k].0@);
    }
    assert forall|id: Seq<u8>|
        entries_map(a).dom().contains(id) == entries_map(b).dom().contains(id) by {
        if entries_map(a).dom().contains(id) {
            let k = choose|k: int| is_entry(a, k, id);
            assert(is_entry(a, k, id));
            assert(is_entry(b, k, id));
        }
        if entries_map(b).dom().contains(id) {
            let k = choose|k: int| is_entry(b, k, id);
            assert(is_entry(b, k, id));
            assert(a[k].0@ == b[k].0@);
            assert(is_entry(a, k, id));
        }
    }
    assert forall|id: Seq<u8>| entries_map(a).dom().contains(id) implies entries_map(a)[id]
        == entries_map(b)[id] by {
        let k = choose|k: int| is_entry(a, k, id);
        assert(is_entry(a, k, id));
        lemma_entries_map(a, k);
        lemma_entries_map(b, k);
    }
    assert(entries_map(a) =~= entries_map(b));
}

impl<'a> RelatedContracts<'a> {
    #[verifier::type_invariant]
    spec fn inv(self) -> bool {
        distinct_ids(self.map@)
    }

    /// All states are owned rather than borrowed.
    pub closed spec fn owned(&self) -> bool {
        all_owned(self.map@)
    }

    /// All states are borrowed rather than owned.
    pub closed spec fn borrowed(&self) -> bool {
        all_borrowed(self.map@)
    }

    /// No related contracts.
    pub fn new() -> (r: Self)
        ensures
            r@ == Map::<Seq<u8>, Option<Seq<u8>>>::empty(),
    {
        let r = RelatedContracts { map: Vec::new() };
        proof {
            lemma_entries_map_empty(r.map@);
        }
        r
    }

    /// The entries, in the order in which their ids came.
    pub fn entries(&self) -> (r: &Vec<(ContractInstanceId, Option<State<'a>>)>)
        ensures
            distinct_ids(r@),
            self@ == entries_map(r@),
            self.owned() == all_owned(r@),
            self.borrowed() == all_borrowed(r@),
    {
        proof {
            use_type_invariant(self);
        }
        &self.map
    }

    /// Collects entries; the last one counts where an id occurs more than once.
    pub fn from_entries(entries: Vec<(ContractInstanceId, Option<State<'a>>)>) -> (r: Self)
        ensures
            r@ == collected(entries@),
            all_owned(entries@) ==> r.owned(),
            all_borrowed(entries@) ==> r.borrowed(),
    {
        let mut map: Vec<(ContractInstanceId, Option<State<'a>>)> = Vec::new();
        assert(entries_map(map@) =~= collected(entries@.take(0))) by {
            lemma_entries_map_empty(map@);
        }
        for entry in it: entries
            invariant
                it.seq() == entries@,
                distinct_ids(map@),
                entries_map(map@) == collected(entries@.take(it.index() as int)),
                all_owned(entries@) ==> all_owned(map@),
                all_borrowed(entries@) ==> all_borrowed(map@),
        {
            let ghost i = it.index() as int;
            assert(entries@.take(i + 1).drop_last() =~= entries@.take(i));
            put(&mut map, entry.0, entry.1);
        }
        assert(entries@.take(entries@.len() as int) =~= entries@);
        RelatedContracts { map }
    }

    /// Copies the data if not owned and returns an owned version of self.
    pub fn into_owned(self) -> (r: RelatedContracts<'static>)
        ensures
            r@ == self@,
            r.owned(),
    {
        proof {
            use_type_invariant(&self);
        }
        let ghost before = self.map@;
        let mut map: Vec<(ContractInstanceId, Option<State<'static>>)> = Vec::new();
        for entry in it: self.map
            invariant
                it.seq() == before,
                map@.len() == it.index(),
                forall|i: int|
                    0 <= i < map@.len() ==> before[i].0@ == (#[trigger] map@[i]).0@ && state_bytes(
                        before[i].1,
                    ) == state_bytes(map@[i].1),
                all_owned(map@),
        {
            let (k, v) = entry;
            let owned = match v {
                Some(s) => Some(s.into_owned()),
                None => None,
            };
            map.push((k, owned));
        }
        proof {
            lemma_entries_map_same(before, map@);
        }
        RelatedContracts { map }
    }
}

/// The map that entries amount to: the last one counts where an id occurs more than once.
pub open spec fn collected(entries: Seq<(ContractInstanceId, Option<State<'_>>)>) -> Map<
    Seq<u8>,
    Option<Seq<u8>>,
>
    decreases entries.len(),
{
    if entries.len() == 0 {
        Map::empty()
    } else {
        collected(entries.drop_last()).insert(entries.last().0@, state_bytes(entries.last().1))
    }
}

/// No entries amount to the empty map.
proof fn lemma_entries_map_empty(entries: Seq<(ContractInstanceId, Option<State<'_>>)>)
    requires
        entries.len() == 0,
    ensures
        entries_map(entries) == Map::<Seq<u8>, Option<Seq<u8>>>::empty(),
{
    assert forall|id: Seq<u8>| !entries_map(entries).dom().contains(id) by {
        if entries_map(entries).dom().contains(id) {
            let k = choose|k: int| is_entry(entries, k, id);
            assert(is_entry(entries, k, id));
        }
    }
    assert(entries_map(entries) =~= Map::<Seq<u8>, Option<Seq<u8>>>::empty());
}

/// Entries with distinct ids amount to the map that has the state of each: collecting the entries of
/// related contracts again gives the same related contracts.
pub proof fn law_collected_distinct(entries: Seq<(ContractInstanceId, Option<State<'_>>)>)
    requires
        distinct_ids(entries),
    ensures
        collected(entries) == entries_map(entries),
    decreases entries.len(),
{
    if entries.len() == 0 {
        lemma_entries_map_empty(entries);
    } else {
        let rest = entries.drop_last();
        assert forall|i: int, j: int| 0 <= i < j < rest.len() implies (#[trigger] rest[i]).0@
            != (#[trigger] rest[j]).0@ by {
            assert(entries[i].0@ != entries[j].0@);
        }
        law_collected_distinct(rest);
        assert forall|i: int| 0 <= i < rest.len() implies (#[trigger] rest[i]).0@
            != entries.last().0@ by {
            assert(entries[i].0@ != entries[entries.len() - 1].0@);
        }
        lemma_entries_map_push(rest, entries.last());
        assert(rest.push(entries.last()) =~= entries);
    }
}

/// Sets the state of `id`, in its entry if there is one and in a new one if not.
fn put<'a>(
    entries: &mut Vec<(ContractInstanceId, Option<State<'a>>)>,
    id: ContractInstanceId,
    state: Option<State<'a>>,
)
    requires
        distinct_ids(old(entries)@),
    ensures
        distinct_ids(final(entries)@),
        entries_map(final(entries)@) == entries_map(old(entries)@).insert(id@, state_bytes(state)),
        all_owned(old(entries)@) && (state matches Some(s) ==> s.owned()) ==> all_owned(
            final(entries)@,
        ),
        all_borrowed(old(entries)@) && (state matches Some(s) ==> !s.owned()) ==> all_borrowed(
            final(entries)@,
        ),
{
    let mut i: usize = 0;
    while i < entries.len()
        invariant
            i <= entries@.len(),
            entries@ == old(entries)@,
            distinct_ids(entries@),
            forall|j: int| 0 <= j < i ==> (#[trigger] entries@[j]).0@ != id@,
        decreases entries@.len() - i,
    {
        if entries[i].0 == id {
            let kept = entries[i].0;
            proof {
                lemma_entries_map_update(entries@, i as int, state);
            }
            entries[i] = (kept, state);
            return;
        }
        i += 1;
    }
    proof {
        lemma_entries_map_push(entries@, (id, state));
    }
    entries.push((id, state));
}

impl<'a> Default for RelatedContracts<'a> {
    fn default() -> (r: Self)
        ensures
            r@ == Map::<Seq<u8>, Option<Seq<u8>>>::empty(),
    {
        RelatedContracts::new()
    }
}

/// Both states are missing, both are owned, or both are borrowed.
spec fn same_holder(a: Option<State<'_>>, b: Option<State<'_>>) -> bool {
    match (a, b) {
        (Some(x), Some(y)) => x.owned() == y.owned(),
        (None, None) => true,
        _ => false,
    }
}

impl<'a> Clone for RelatedContracts<'a> {
    fn clone(&self) -> (r: Self)
        ensures
            r@ == self@,
            r.owned() == self.owned(),
            r.borrowed() == self.borrowed(),
    {
        proof {
            use_type_invariant(self);
        }
        let mut map: Vec<(ContractInstanceId, Option<State<'a>>)> = Vec::new();
        let mut i: usize = 0;
        while i < self.map.len()
            invariant
                i <= self.map@.len(),
                map@.len() == i,
                forall|j: int|
                    0 <= j < i ==> self.map@[j].0@ == (#[trigger] map@[j]).0@ && state_bytes(
                        self.map@[j].1,
                    ) == state_bytes(map@[j].1),
                forall|j: int|
                    0 <= j < i ==> same_holder(self.map@[j].1, (#[trigger] map@[j]).1),
            decreases self.map@.len() - i,
        {
            let state = match &self.map[i].1 {
                Some(s) => Some(s.clone()),
                None => None,
            };
            map.push((self.map[i].0, state));
            i += 1;
        }
        proof {
            lemma_entries_map_same(self.map@, map@);
            assert forall|j: int| 0 <= j < map@.len() implies same_holder(
                #[trigger] self.map@[j].1,
                map@[j].1,
            ) by {
                assert(same_holder(self.map@[j].1, map@[j].1));
            }
        }
        RelatedContracts { map }
    }
}

/// Compares two states that may be missing.
fn state_eq(a: &Option<State<'_>>, b: &Option<State<'_>>) -> (r: bool)
    ensures
        r == (state_bytes(*a) == state_bytes(*b)),
{
    match (a, b) {
        (Some(x), Some(y)) => x == y,
        (None, None) => true,
        _ => false,
    }
}

/// Whether `entries` holds `id` with `state`.
fn holds(
    entries: &Vec<(ContractInstanceId, Option<State<'_>>)>,
    id: &ContractInstanceId,
    state: &Option<State<'_>>,
) -> (r: bool)
    requires
        distinct_ids(entries@),
    ensures
        r == (entries_map(entries@).dom().contains(id@) && entries_map(entries@)[id@] == state_bytes(
            *state,
        )),
{
    let mut i: usize = 0;
    while i < entries.len()
        invariant
            i <= entries@.len(),
            distinct_ids(entries@),
            forall|j: int| 0 <= j < i ==> (#[trigger] entries@[j]).0@ != id@,
        decreases entries@.len() - i,
    {
        if entries[i].0 == *id {
            proof {
                lemma_entries_map(entries@, i as int);
            }
            return state_eq(&entries[i].1, state);
        }
        i += 1;
    }
    proof {
        if entries_map(entries@).dom().contains(id@) {
            let k = choose|k: int| is_entry(entries@, k, id@);
            assert(is_entry(entries@, k, id@));
        }
    }
    false
}

/// Whether every entry of `a` is in `b`.
fn all_held(
    a: &Vec<(ContractInstanceId, Option<State<'_>>)>,
    b: &Vec<(ContractInstanceId, Option<State<'_>>)>,
) -> (r: bool)
    requires
        distinct_ids(a@),
        distinct_ids(b@),
    ensures
        r == entries_map(a@).submap_of(entries_map(b@)),
{
    let mut i: usize = 0;
    while i < a.len()
        invariant
            i <= a@.len(),
            distinct_ids(a@),
            distinct_ids(b@),
            forall|j: int|
                0 <= j < i ==> entries_map(b@).dom().contains((#[trigger] a@[j]).0@) && entries_map(
                    b@,
                )[a@[j].0@] == state_bytes(a@[j].1),
        decreases a@.len() - i,
    {
        if !holds(b, &a[i].0, &a[i].1) {
            proof {
                lemma_entries_map(a@, i as int);
            }
            return false;
        }
        i += 1;
    }
    assert forall|id: Seq<u8>| entries_map(a@).dom().contains(id) implies entries_map(
        b@,
    ).dom().contains(id) && entries_map(a@)[id] == entries_map(b@)[id] by {
        let k = choose|k: int| is_entry(a@, k, id);
        assert(is_entry(a@, k, id));
        lemma_entries_map(a@, k);
    }
    true
}

impl<'a> PartialEq for RelatedContracts<'a> {
    fn eq(&self, other: &Self) -> (r: bool)
        ensures
            r == (self@ == other@),
    {
        proof {
            use_type_invariant(self);
            use_type_invariant(other);
        }
        let forth = all_held(&self.map, &other.map);
        let back = all_held(&other.map, &self.map);
        proof {
            if forth && back {
                assert forall|id: Seq<u8>| self@.dom().contains(id) == other@.dom().contains(id) by {
                    assert(self@.dom().contains(id) ==> other@.dom().contains(id));
                }
                assert(self@ =~= other@);
            }
        }
        forth && back
    }
}

impl<'a> vstd::std_specs::cmp::PartialEqSpecImpl for RelatedContracts<'a> {
    open spec fn obeys_eq_spec() -> bool {
        true
    }

    open spec fn eq_spec(&self, other: &Self) -> bool {
        self@ == other@
    }
}

impl<'a> Eq for RelatedContracts<'a> {

}

/// The id that a value holds as Base58 text.
pub open spec fn id_of_value(value: Value) -> Option<Seq<u8>> {
    match value.bytes() {
        Some(text) => match crate::key::decode_key_bytes(text) {
            Ok(id) => Some(id),
            Err(_) => None,
        },
        None => None,
    }
}

/// The related contracts in the pairs of a map sent by a client: every key is an id as Base58 text
/// and every value the bytes of a state; `None` where a pair is not of that form.
pub open spec fn related_of_entries(entries: Seq<(Value, Value)>) -> Option<
    Map<Seq<u8>, Option<Seq<u8>>>,
>
    decreases entries.len(),
{
    if entries.len() == 0 {
        Some(Map::empty())
    } else {
        let (key, state) = entries.last();
        match (related_of_entries(entries.drop_last()), id_of_value(key), state.bytes()) {
            (Some(map), Some(id), Some(bytes)) => Some(map.insert(id, Some(bytes))),
            _ => None,
        }
    }
}

/// The related contracts in a value sent by a client; `None` where the value does not have their
/// form.
pub open spec fn related_of_value(value: Value) -> Option<Map<Seq<u8>, Option<Seq<u8>>>> {
    match value.entries() {
        Some(entries) => related_of_entries(entries),
        None => None,
    }
}

/// A map with a pair that is not of the right form does not hold related contracts.
proof fn lemma_related_of_prefix(entries: Seq<(Value, Value)>, n: int)
    requires
        0 <= n <= entries.len(),
        related_of_entries(entries.take(n)) is None,
    ensures
        related_of_entries(entries) is None,
    decreases entries.len() - n,
{
    if n < entries.len() {
        assert(entries.take(n + 1).drop_last() =~= entries.take(n));
        lemma_related_of_prefix(entries, n + 1);
    } else {
        assert(entries.take(n) =~= entries);
    }
}

/// Reads an id that a value holds as Base58 text.
pub(crate) fn read_id(value: &Value) -> (r: Option<ContractInstanceId>)
    ensures
        id_of_value(*value) == match r {
            Some(id) => Some(id@),
            None => None,
        },
{
    match value.as_slice() {
        Some(text) => match ContractInstanceId::from_base58(text) {
            Ok(id) => Some(id),
            Err(_) => None,
        },
        None => None,
    }
}

impl<'a> RelatedContracts<'a> {
    /// Decodes related contracts sent by a client; `None` where the value does not have their form.
    pub fn from_value(value: &'a Value) -> (r: Option<Self>)
        ensures
            related_of_value(*value) == match r {
                Some(related) => Some(related@),
                None => None,
            },
            r matches Some(related) ==> related.borrowed(),
    {
        let entries = match value.as_map() {
            Some(entries) => entries,
            None => {
                return None;
            },
        };
        let mut map: Vec<(ContractInstanceId, Option<State<'a>>)> = Vec::new();
        let mut i: usize = 0;
        proof {
            lemma_entries_map_empty(map@);
        }
        while i < entries.len()
            invariant
                i <= entries@.len(),
                distinct_ids(map@),
                related_of_entries(entries@.take(i as int)) == Some(entries_map(map@)),
                all_borrowed(map@),
                value.entries() == Some(entries@),
            decreases entries@.len() - i,
        {
            let ghost next = entries@.take(i + 1);
            assert(next.drop_last() =~= entries@.take(i as int));
            assert(next.last() == entries@[i as int]);
            let id = read_id(&entries[i].0);
            let state = entries[i].1.as_slice();
            match (id, state) {
                (Some(id), Some(state)) => {
                    put(&mut map, id, Some(State::from(state)));
                },
                _ => {
                    proof {
                        lemma_related_of_prefix(entries@, i + 1);
                    }
                    return None;
                },
            }
            i += 1;
        }
        assert(entries@.take(entries@.len() as int) =~= entries@);
        Some(RelatedContracts { map })
    }

    /// Decodes related contracts sent by a client.
    pub fn try_from(value: &'a Value) -> (r: Result<Self, String>)
        requires
            related_of_value(*value) is Some,
        ensures
            r matches Ok(related) && related_of_value(*value) == Some(related@) && related.borrowed(),
    {
        Ok(RelatedContracts::from_value(value).unwrap())
    }
}

impl<'a> TryFromTsStd<&'a Value> for RelatedContracts<'a> {
    open spec fn decodable(value: &'a Value) -> bool {
        related_of_value(*value) is Some
    }

    fn try_decode(value: &'a Value) -> (r: Result<Self, WsApiError>)
        ensures
            r matches Ok(related) && related_of_value(*value) == Some(related@) && related.borrowed(),
    {
        Ok(RelatedContracts::from_value(value).unwrap())
    }
}

/// A value that holds the Base58 text of an id is read as the id.
pub proof fn law_id_of_text(value: Value, id: Seq<u8>)
    requires
        id.len() == digest::CONTRACT_KEY_SIZE,
        value.bytes() == Some(utf8::encode_utf8(base58::base58_text(id))),
    ensures
        id_of_value(value) == Some(id),
{
    key::law_key_text_round_trip(id);
}

/// The id at `i` does not occur again behind it.
pub open spec fn is_last(ids: Seq<Seq<u8>>, i: int) -> bool {
    forall|j: int| i < j < ids.len() ==> #[trigger] ids[j] != ids[i]
}

/// The pair holds the Base58 text of `id` and the bytes of `state`.
pub open spec fn is_pair_of(pair: (Value, Value), id: Seq<u8>, state: Seq<u8>) -> bool {
    &&& pair.0.bytes() == Some(utf8::encode_utf8(base58::base58_text(id)))
    &&& pair.1.bytes() == Some(state)
}

/// Related contracts that are sent as pairs of the Base58 text of an id and the bytes of a state are
/// read back: exactly the ids that were sent, each with the last state that was sent for it.
pub proof fn law_related_read_back(
    entries: Seq<(Value, Value)>,
    ids: Seq<Seq<u8>>,
    states: Seq<Seq<u8>>,
)
    requires
        entries.len() == ids.len() == states.len(),
        forall|i: int| 0 <= i < ids.len() ==> (#[trigger] ids[i]).len() == digest::CONTRACT_KEY_SIZE,
        forall|i: int|
            0 <= i < entries.len() ==> is_pair_of(#[trigger] entries[i], ids[i], states[i]),
    ensures
        related_of_entries(entries) is Some,
        forall|id: Seq<u8>| #[trigger]
            related_of_entries(entries).unwrap().dom().contains(id) == ids.contains(id),
        forall|i: int|
            0 <= i < ids.len() && #[trigger] is_last(ids, i) ==> related_of_entries(
                entries,
            ).unwrap()[ids[i]] == Some(states[i]),
    decreases entries.len(),
{
    if entries.len() > 0 {
        let n = entries.len() - 1;
        let rest = ids.drop_last();
        let last = ids[n];
        assert(is_pair_of(entries[n], last, states[n]));
        law_id_of_text(entries[n].0, last);
        law_related_read_back(entries.drop_last(), rest, states.drop_last());
        let before = related_of_entries(entries.drop_last()).unwrap();
        let after = related_of_entries(entries).unwrap();
        assert(after == before.insert(last, Some(states[n])));
        assert forall|id: Seq<u8>| #[trigger] after.dom().contains(id) == ids.contains(id) by {
            lemma_contains_drop_last(ids, id);
            assert(before.dom().contains(id) == rest.contains(id));
        }
        assert forall|i: int| 0 <= i < ids.len() && #[trigger] is_last(ids, i) implies after[ids[i]]
            == Some(states[i]) by {
            if i < n {
                assert(ids[n] != ids[i]);
                assert forall|j: int| i < j < rest.len() implies #[trigger] rest[j] != rest[i] by {
                    assert(ids[j] != ids[i]);
                }
                assert(is_last(rest, i));
            }
        }
    } else {
        assert forall|id: Seq<u8>| !ids.contains(id) by {}
    }
}

/// An id is in a list if it is the last one or is in the rest of the list.
proof fn lemma_contains_drop_last(ids: Seq<Seq<u8>>, id: Seq<u8>)
    requires
        ids.len() > 0,
    ensures
        ids.contains(id) == (id == ids.last() || ids.drop_last().contains(id)),
{
    let rest = ids.drop_last();
    if rest.contains(id) {
        let k = choose|k: int| 0 <= k < rest.len() && rest[k] == id;
        assert(ids[k] == id);
    }
    if ids.contains(id) && id != ids.last() {
        let k = choose|k: int| 0 <= k < ids.len() && ids[k] == id;
        assert(rest[k] == id);
    }
}

/// A state that is there is seen as its bytes.
pub proof fn law_state_bytes(state: State<'_>)
    ensures
        state_bytes(Some(state)) == Some(state@),
        state_bytes(None) == None::<Seq<u8>>,
{
}

/// Ids are distinct if no two entries have the same one; states are owned, or borrowed, if each of
/// those that are there is.
pub proof fn law_entries(entries: Seq<(ContractInstanceId, Option<State<'_>>)>)
    ensures
        distinct_ids(entries) == (forall|i: int, j: int|
            0 <= i < j < entries.len() ==> (#[trigger] entries[i]).0@ != (
            #[trigger] entries[j]).0@),
        all_owned(entries) == (forall|i: int|
            0 <= i < entries.len() && (#[trigger] entries[i]).1 is Some
                ==> entries[i].1.unwrap().owned()),
        all_borrowed(entries) == (forall|i: int|
            0 <= i < entries.len() && (#[trigger] entries[i]).1 is Some
                ==> !entries[i].1.unwrap().owned()),
{
    if all_owned(entries) {
        assert forall|i: int|
            0 <= i < entries.len() && (#[trigger] entries[i]).1 is Some implies entries[i].1.unwrap().owned() by {}
    }
    if all_borrowed(entries) {
        assert forall|i: int|
            0 <= i < entries.len() && (#[trigger] entries[i]).1 is Some implies !entries[i].1.unwrap().owned() by {}
    }
}

/// Entries with distinct ids are seen as the map that has the id of each, with its state, and no
/// other id.
pub proof fn law_entries_map(entries: Seq<(ContractInstanceId, Option<State<'_>>)>)
    requires
        distinct_ids(entries),
    ensures
        forall|i: int|
            0 <= i < entries.len() ==> entries_map(entries).dom().contains(
                (#[trigger] entries[i]).0@,
            ) && entries_map(entries)[entries[i].0@] == match entries[i].1 {
                Some(state) => Some(state@),
                None => None,
            },
        forall|id: Seq<u8>| #[trigger]
            entries_map(entries).dom().contains(id) ==> exists|i: int|
                0 <= i < entries.len() && (#[trigger] entries[i]).0@ == id,
{
    assert forall|i: int| 0 <= i < entries.len() implies entries_map(entries).dom().contains(
        (#[trigger] entries[i]).0@,
    ) && entries_map(entries)[entries[i].0@] == match entries[i].1 {
        Some(state) => Some(state@),
        None => None,
    } by {
        lemma_entries_map(entries, i);
    }
    assert forall|id: Seq<u8>| #[trigger] entries_map(entries).dom().contains(id) implies exists|
        i: int,
    |
        0 <= i < entries.len() && (#[trigger] entries[i]).0@ == id by {
        let k = choose|k: int| is_entry(entries, k, id);
        assert(is_entry(entries, k, id));
        assert(entries[k].0@ == id);
    }
}

/// Collecting entries gives exactly the ids of all of them. The state of an id is that of its last
/// entry.
pub proof fn law_collected(entries: Seq<(ContractInstanceId, Option<State<'_>>)>, i: int)
    ensures
        forall|k: int|
            0 <= k < entries.len() ==> collected(entries).dom().contains(
                (#[trigger] entries[k]).0@,
            ),
        forall|id: Seq<u8>| #[trigger]
            collected(entries).dom().contains(id) ==> exists|k: int|
                0 <= k < entries.len() && (#[trigger] entries[k]).0@ == id,
        0 <= i < entries.len() && (forall|j: int|
            i < j < entries.len() ==> (#[trigger] entries[j]).0@ != entries[i].0@) ==> collected(
            entries,
        )[entries[i].0@] == match entries[i].1 {
            Some(state) => Some(state@),
            None => None,
        },
    decreases entries.len(),
{
    if entries.len() > 0 {
        let n = entries.len() - 1;
        let rest = entries.drop_last();
        law_collected(rest, i);
        assert(collected(entries) == collected(rest).insert(
            entries[n].0@,
            state_bytes(entries[n].1),
        ));
        assert forall|k: int| 0 <= k < entries.len() implies collected(entries).dom().contains(
            (#[trigger] entries[k]).0@,
        ) by {
            if k < n {
                assert(rest[k] == entries[k]);
            }
        }
        assert forall|id: Seq<u8>| #[trigger] collected(entries).dom().contains(id) implies exists|
            k: int,
        |
            0 <= k < entries.len() && (#[trigger] entries[k]).0@ == id by {
            if id == entries[n].0@ {
            } else {
                assert(collected(rest).dom().contains(id));
                let k = choose|k: int| 0 <= k < rest.len() && (#[trigger] rest[k]).0@ == id;
                assert(entries[k] == rest[k]);
            }
        }
        if 0 <= i < entries.len() && (forall|j: int|
            i < j < entries.len() ==> (#[trigger] entries[j]).0@ != entries[i].0@) {
            if i < n {
                assert(entries[n].0@ != entries[i].0@);
                assert(rest[i] == entries[i]);
                assert forall|j: int| i < j < rest.len() implies (#[trigger] rest[j]).0@
                    != rest[i].0@ by {
                    assert(entries[j].0@ != entries[i].0@);
                }
            }
        }
    }
}

/// Two values of related contracts are equal exactly if they have the same ids with the same states.
pub proof fn law_related_equality(a: RelatedContracts<'_>, b: RelatedContracts<'_>)
    ensures
        RelatedContracts::obeys_eq_spec(),
        a.eq_spec(&b) == (a@ == b@),
{
}

/// A value is read as an id exactly if its bytes are the text of one.
pub proof fn law_id_of_value(value: Value, id: Seq<u8>)
    ensures
        (id_of_value(value) == Some(id)) == (value.bytes() is Some && key::decode_key_bytes(
            value.bytes().unwrap(),
        ) == Ok::<Seq<u8>, base58::Base58Error>(id)),
{
}

/// The pairs that are read one after the other: every id that a pair holds, with the last state.
proof fn lemma_related_of_entries(
    entries: Seq<(Value, Value)>,
    ids: Seq<Seq<u8>>,
    states: Seq<Seq<u8>>,
    i: int,
)
    requires
        entries.len() == ids.len() == states.len(),
        forall|k: int|
            0 <= k < entries.len() ==> id_of_value((#[trigger] entries[k]).0) == Some(ids[k])
                && entries[k].1.bytes() == Some(states[k]),
    ensures
        related_of_entries(entries) is Some,
        forall|id: Seq<u8>| #[trigger]
            related_of_entries(entries).unwrap().dom().contains(id) == ids.contains(id),
        0 <= i < ids.len() && is_last(ids, i) ==> related_of_entries(entries).unwrap()[ids[i]]
            == Some(states[i]),
    decreases entries.len(),
{
    if entries.len() > 0 {
        let n = entries.len() - 1;
        let rest = ids.drop_last();
        let init = entries.drop_last();
        assert(id_of_value(entries[n].0) == Some(ids[n]));
        assert forall|k: int| 0 <= k < init.len() implies id_of_value((#[trigger] init[k]).0)
            == Some(rest[k]) && init[k].1.bytes() == Some(states.drop_last()[k]) by {
            assert(init[k] == entries[k]);
        }
        lemma_related_of_entries(init, rest, states.drop_last(), i);
        let before = related_of_entries(init).unwrap();
        let after = related_of_entries(entries).unwrap();
        assert(after == before.insert(ids[n], Some(states[n])));
        assert forall|id: Seq<u8>| #[trigger] after.dom().contains(id) == ids.contains(id) by {
            lemma_contains_drop_last(ids, id);
            assert(before.dom().contains(id) == rest.contains(id));
        }
        if 0 <= i < n && is_last(ids, i) {
            assert(ids[n] != ids[i]);
            assert forall|j: int| i < j < rest.len() implies #[trigger] rest[j] != rest[i] by {
                assert(ids[j] != ids[i]);
            }
        }
    }
}

/// A map is decoded to related contracts if each of its pairs holds the text of an id and the bytes
/// of a state. All of its pairs count: the ids are exactly those that some pair holds, and the state
/// of an id is that of its last pair.
pub proof fn law_related_of_value(
    pairs: Vec<(Value, Value)>,
    ids: Seq<Seq<u8>>,
    states: Seq<Seq<u8>>,
    i: int,
)
    requires
        pairs@.len() == ids.len() == states.len(),
        forall|k: int|
            0 <= k < pairs@.len() ==> (#[trigger] pairs@[k]).0.bytes() is Some
                && key::decode_key_bytes(pairs@[k].0.bytes().unwrap()) == Ok::<
                Seq<u8>,
                base58::Base58Error,
            >(ids[k]) && pairs@[k].1.bytes() == Some(states[k]),
    ensures
        related_of_value(Value::Pairs(pairs)) is Some,
        forall|id: Seq<u8>| #[trigger]
            related_of_value(Value::Pairs(pairs)).unwrap().dom().contains(id) == ids.contains(id),
        0 <= i < ids.len() && (forall|j: int| i < j < ids.len() ==> #[trigger] ids[j] != ids[i])
            ==> related_of_value(Value::Pairs(pairs)).unwrap()[ids[i]] == Some(states[i]),
{
    assert forall|k: int| 0 <= k < pairs@.len() implies id_of_value((#[trigger] pairs@[k]).0)
        == Some(ids[k]) && pairs@[k].1.bytes() == Some(states[k]) by {
        law_id_of_value(pairs@[k].0, ids[k]);
    }
    lemma_related_of_entries(pairs@, ids, states, i);
}

/// A map that was sent with the Base58 text of an id and the bytes of a state in each of its pairs is
/// read back as a whole: exactly the ids of all of its pairs, each with the last state that was sent
/// for it.
pub proof fn law_related_value_read_back(
    pairs: Vec<(Value, Value)>,
    ids: Seq<Seq<u8>>,
    states: Seq<Seq<u8>>,
    i: int,
)
    requires
        pairs@.len() == ids.len() == states.len(),
        forall|k: int| 0 <= k < ids.len() ==> (#[trigger] ids[k]).len() == 32,
        forall|k: int|
            0 <= k < pairs@.len() ==> (#[trigger] pairs@[k]).0.bytes() == Some(
                utf8::encode_utf8(base58::base58_text(ids[k])),
            ) && pairs@[k].1.bytes() == Some(states[k]),
    ensures
        related_of_value(Value::Pairs(pairs)) is Some,
        forall|id: Seq<u8>| #[trigger]
            related_of_value(Value::Pairs(pairs)).unwrap().dom().contains(id) == ids.contains(id),
        0 <= i < ids.len() && (forall|j: int| i < j < ids.len() ==> #[trigger] ids[j] != ids[i])
            ==> related_of_value(Value::Pairs(pairs)).unwrap()[ids[i]] == Some(states[i]),
{
    assert forall|k: int| 0 <= k < pairs@.len() implies (#[trigger] pairs@[k]).0.bytes() is Some
        && key::decode_key_bytes(pairs@[k].0.bytes().unwrap()) == Ok::<
        Seq<u8>,
        base58::Base58Error,
    >(ids[k]) && pairs@[k].1.bytes() == Some(states[k]) by {
        assert(ids[k].len() == 32);
        key::law_key_text_round_trip(ids[k]);
    }
    law_related_of_value(pairs, ids, states, i);
}

/// A value that is not a map, and a map with a pair that does not hold the text of an id and the
/// bytes of a state, is not decoded to related contracts.
pub proof fn law_related_refused(value: Value, k: int)
    requires
        value matches Value::Pairs(pairs) ==> 0 <= k < pairs@.len() && (pairs@[k].0.bytes() is None
            || key::decode_key_bytes(pairs@[k].0.bytes().unwrap()) is Err
            || pairs@[k].1.bytes() is None),
    ensures
        related_of_value(value) is None,
{
    if let Value::Pairs(pairs) = value {
        let next = pairs@.take(k + 1);
        assert(next.last() == pairs@[k]);
        lemma_related_of_prefix(pairs@, k + 1);
    }
}

/// Related contracts are decoded from the values that have their form.
pub proof fn law_related_decodable(value: &Value)
    ensures
        <RelatedContracts<'_> as TryFromTsStd<&Value>>::decodable(value) == (related_of_value(
            *value,
        ) is Some),
{
}

} // verus!
