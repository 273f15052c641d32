//! The group catalog: the groups of a bridge, each under its identifier.

use vstd::prelude::*;
use vstd::string::*;
use crate::error::DecodeError;
use crate::group::{
    decoded, exact_group, group_json, group_of, lemma_group_reencoded, lemma_group_round_trip,
    member, Group, GroupActionView, GroupState, GroupStateView, GroupView,
};
use crate::json::{
    lemma_member_value_is_member, lemma_object_view, member_value, members_view, same_json, Json,
    JsonView, Member, MemberView,
};

verus! {

/// One group of a catalog with the identifier under which the bridge
/// lists it.
#[derive(Clone, Debug, PartialEq, Eq)]
pub struct Entry {
    pub id: String,
    pub group: Group,
}

/// The mathematical content of an [`Entry`].
pub struct EntryView {
    pub id: Seq<char>,
    pub group: GroupView,
}

impl View for Entry {
    type V = EntryView;

    open spec fn view(&self) -> EntryView {
        EntryView { id: self.id@, group: self.group@ }
    }
}

/// The views of a sequence of entries.
pub open spec fn entries_view(entries: Seq<Entry>) -> Seq<EntryView> {
    Seq::new(entries.len(), |i: int| entries[i]@)
}

/// Whether some entry carries the identifier.
pub open spec fn has_id(entries: Seq<EntryView>, id: Seq<char>) -> bool {
    exists|i: int| 0 <= i < entries.len() && (#[trigger] entries[i]).id == id
}

/// The place of an entry that carries the identifier, where there is one.
pub open spec fn index_of(entries: Seq<EntryView>, id: Seq<char>) -> int {
    choose|i: int| 0 <= i < entries.len() && (#[trigger] entries[i]).id == id
}

/// No identifier occurs twice.
pub open spec fn distinct_ids(entries: Seq<EntryView>) -> bool {
    forall|i: int, j: int|
        0 <= i < j < entries.len() ==> (#[trigger] entries[i]).id != (#[trigger] entries[j]).id
}

/// The group listed under an identifier.
pub open spec fn lookup(entries: Seq<EntryView>, id: Seq<char>) -> Option<GroupView> {
    if has_id(entries, id) {
        Some(entries[index_of(entries, id)].group)
    } else {
        None
    }
}

/// The entries after a group was put under an identifier: it takes the
/// place of the group that was listed there, or else comes last.
pub open spec fn put(entries: Seq<EntryView>, id: Seq<char>, group: GroupView) -> Seq<EntryView> {
    if has_id(entries, id) {
        entries.update(index_of(entries, id), EntryView { id, group })
    } else {
        entries.push(EntryView { id, group })
    }
}

/// Putting a group keeps the identifiers distinct.
pub proof fn lemma_put_distinct(entries: Seq<EntryView>, id: Seq<char>, group: GroupView)
    requires
        distinct_ids(entries),
    ensures
        distinct_ids(put(entries, id, group)),
        has_id(put(entries, id, group), id),
        lookup(put(entries, id, group), id) == Some(group),
{
    let after = put(entries, id, group);
    if has_id(entries, id) {
        let at = index_of(entries, id);
        assert(after[at].id == id);
        assert forall|i: int, j: int| 0 <= i < j < after.len() implies (#[trigger] after[i]).id != (
        #[trigger] after[j]).id by {
            assert(entries[i].id != entries[j].id);
        }
    } else {
        assert(after[entries.len() as int].id == id);
        assert forall|i: int, j: int| 0 <= i < j < after.len() implies (#[trigger] after[i]).id != (
        #[trigger] after[j]).id by {
            if j < entries.len() {
                assert(entries[i].id != entries[j].id);
            } else {
                assert(entries[i].id != id);
            }
        }
    }
    let found = index_of(after, id);
    assert(after[found].id == id);
}

/// The entries that the members of a catalog object describe: each member
/// is a group under its name, put in the order of the members. The first
/// member that is no group is the error.
pub open spec fn entries_of(members: Seq<MemberView>) -> Result<Seq<EntryView>, DecodeError>
    decreases members.len(),
{
    if members.len() == 0 {
        Ok(Seq::empty())
    } else {
        match entries_of(members.drop_last()) {
            Err(error) => Err(error),
            Ok(before) => match group_of(members.last().value) {
                Err(error) => Err(error),
                Ok(group) => Ok(put(before, members.last().name, group)),
            },
        }
    }
}

/// The reading of a catalog from a JSON value, which must be an object.
pub open spec fn catalog_of(payload: JsonView) -> Result<Seq<EntryView>, DecodeError> {
    match payload {
        JsonView::Object(members) => entries_of(members),
        _ => Err(DecodeError::NotAnObject),
    }
}

/// The members of the object that stands for a catalog.
pub open spec fn catalog_members(entries: Seq<EntryView>) -> Seq<MemberView> {
    Seq::new(entries.len(), |i: int| member(entries[i].id, group_json(entries[i].group)))
}

/// The JSON object that stands for a catalog: one member for each group,
/// named by its identifier.
pub open spec fn catalog_json(entries: Seq<EntryView>) -> JsonView {
    JsonView::Object(catalog_members(entries))
}

/// A group as the bridge reports it once it has accepted a power change:
/// the action carries the new power state, and the summary follows it.
pub open spec fn powered(group: GroupView, on: bool) -> GroupView {
    GroupView {
        state: GroupStateView { all_on: on, any_on: on },
        action: GroupActionView { on, ..group.action },
        ..group
    }
}

/// The entries after the group under an identifier has accepted a power
/// change; unchanged where no group carries the identifier.
pub open spec fn with_power(entries: Seq<EntryView>, id: Seq<char>, on: bool) -> Seq<EntryView> {
    if has_id(entries, id) {
        let at = index_of(entries, id);
        entries.update(at, EntryView { id: entries[at].id, group: powered(entries[at].group, on) })
    } else {
        entries
    }
}

/// An error among the first members of a catalog object is the error of
/// the whole.
pub proof fn lemma_entries_error_stays(members: Seq<MemberView>, k: int)
    requires
        0 <= k <= members.len(),
        entries_of(members.take(k)) is Err,
    ensures
        entries_of(members) == entries_of(members.take(k)),
    decreases members.len() - k,
{
    if k == members.len() {
        assert(members.take(k) =~= members);
    } else {
        assert(members.drop_last().take(k) =~= members.take(k));
        lemma_entries_error_stays(members.drop_last(), k);
    }
}

/// The entries that a catalog object describes carry distinct identifiers.
pub proof fn lemma_entries_distinct(members: Seq<MemberView>)
    requires
        entries_of(members) is Ok,
    ensures
        distinct_ids(entries_of(members)->Ok_0),
    decreases members.len(),
{
    if members.len() > 0 {
        lemma_entries_distinct(members.drop_last());
        lemma_put_distinct(
            entries_of(members.drop_last())->Ok_0,
            members.last().name,
            group_of(members.last().value)->Ok_0,
        );
    }
}

/// After a group was put under an identifier, that identifier leads to
/// the group, and every other identifier leads to what it led to.
pub proof fn lemma_put_lookup(
    entries: Seq<EntryView>,
    id: Seq<char>,
    group: GroupView,
    other: Seq<char>,
)
    requires
        distinct_ids(entries),
    ensures
        lookup(put(entries, id, group), other) == if other == id {
            Some(group)
        } else {
            lookup(entries, other)
        },
{
    lemma_put_distinct(entries, id, group);
    let after = put(entries, id, group);
    if other != id {
        if has_id(entries, other) {
            let place = index_of(entries, other);
            assert(after[place].id == other);
            let again = index_of(after, other);
            if again < place {
                assert(after[again].id != after[place].id);
            } else if place < again {
                assert(after[place].id != after[again].id);
            }
        } else if has_id(after, other) {
            let again = index_of(after, other);
            if again < entries.len() {
                assert(entries[again].id == other);
            }
        }
    }
}

/// The group that a decoded catalog lists under an identifier is the one
/// decoded from the value that the catalog object holds under it.
pub proof fn lemma_entries_lookup(members: Seq<MemberView>, name: Seq<char>)
    requires
        entries_of(members) is Ok,
    ensures
        lookup(entries_of(members)->Ok_0, name) == match member_value(members, name) {
            Some(value) => Some(group_of(value)->Ok_0),
            None => None,
        },
        member_value(members, name) matches Some(value) ==> group_of(value) is Ok,
    decreases members.len(),
{
    if members.len() == 0 {
        assert(!has_id(Seq::<EntryView>::empty(), name));
    } else {
        lemma_entries_lookup(members.drop_last(), name);
        lemma_entries_distinct(members.drop_last());
        lemma_put_lookup(
            entries_of(members.drop_last())->Ok_0,
            members.last().name,
            group_of(members.last().value)->Ok_0,
            name,
        );
    }
}

/// The value that the object written from a catalog holds under an
/// identifier is the object written from the group listed under it.
pub proof fn lemma_catalog_member_value(entries: Seq<EntryView>, name: Seq<char>)
    requires
        distinct_ids(entries),
    ensures
        member_value(catalog_members(entries), name) == match lookup(entries, name) {
            Some(group) => Some(group_json(group)),
            None => None,
        },
    decreases entries.len(),
{
    if entries.len() == 0 {
        assert(!has_id(entries, name));
    } else {
        let before = entries.drop_last();
        let last = entries.last();
        assert(distinct_ids(before)) by {
            assert forall|i: int, j: int| 0 <= i < j < before.len() implies (
            #[trigger] before[i]).id != (#[trigger] before[j]).id by {
                assert(entries[i].id != entries[j].id);
            }
        }
        lemma_catalog_member_value(before, name);
        assert(catalog_members(entries).drop_last() =~= catalog_members(before));
        assert(catalog_members(entries).last() == member(last.id, group_json(last.group)));
        assert(!has_id(before, last.id)) by {
            if has_id(before, last.id) {
                let at = index_of(before, last.id);
                assert(entries[at].id != entries[entries.len() - 1].id);
            }
        }
        assert(put(before, last.id, last.group) =~= entries);
        lemma_put_lookup(before, last.id, last.group, name);
    }
}

/// Every group object of a catalog object has exactly the members of the
/// schema.
pub open spec fn exact_catalog(payload: JsonView) -> bool {
    &&& payload matches JsonView::Object(members)
    &&& forall|i: int| 0 <= i < members.len() ==> exact_group((#[trigger] members[i]).value)
}

/// No two members carry one name.
pub open spec fn distinct_names(members: Seq<MemberView>) -> bool {
    forall|i: int, j: int|
        0 <= i < j < members.len() ==> (#[trigger] members[i]).name != (#[trigger] members[j]).name
}

/// A catalog object whose members carry distinct names decodes to one
/// entry for each member, in the order of the members.
pub proof fn lemma_entries_in_order(members: Seq<MemberView>)
    requires
        entries_of(members) is Ok,
        distinct_names(members),
    ensures
        entries_of(members)->Ok_0.len() == members.len(),
        forall|i: int|
            0 <= i < members.len() ==> (#[trigger] entries_of(members)->Ok_0[i]) == (EntryView {
                id: members[i].name,
                group: group_of(members[i].value)->Ok_0,
            }),
    decreases members.len(),
{
    if members.len() > 0 {
        let before = members.drop_last();
        assert(distinct_names(before)) by {
            assert forall|i: int, j: int| 0 <= i < j < before.len() implies (
            #[trigger] before[i]).name != (#[trigger] before[j]).name by {
                assert(members[i].name != members[j].name);
            }
        }
        lemma_entries_in_order(before);
        let listed = entries_of(before)->Ok_0;
        assert(!has_id(listed, members.last().name)) by {
            if has_id(listed, members.last().name) {
                let at = index_of(listed, members.last().name);
                assert(listed[at].id == before[at].name);
                assert(members[at].name != members[members.len() - 1].name);
            }
        }
    }
}

/// A catalog payload whose groups have exactly the members of the schema
/// and its re-encoding are equal as JSON values: the same identifiers,
/// and under each the same group, member for member.
pub proof fn lemma_catalog_reencoded(payload: JsonView, depth: nat)
    requires
        catalog_of(payload) is Ok,
        exact_catalog(payload),
        depth >= 4,
    ensures
        same_json(catalog_json(catalog_of(payload)->Ok_0), payload, depth),
{
    let members = payload->Object_0;
    let entries = catalog_of(payload)->Ok_0;
    let written = catalog_members(entries);
    lemma_entries_distinct(members);
    assert forall|name: Seq<char>|
        match (#[trigger] member_value(written, name), member_value(members, name)) {
            (None, None) => true,
            (Some(u), Some(v)) => same_json(u, v, (depth - 1) as nat),
            _ => false,
        } by {
        lemma_catalog_member_value(entries, name);
        lemma_entries_lookup(members, name);
        if member_value(members, name) is Some {
            let at = lemma_member_value_is_member(members, name);
            lemma_group_reencoded(members[at].value, (depth - 1) as nat);
        }
    }
}

/// A catalog that lists a value which is no group is no catalog: the
/// reading fails whatever the other members hold.
pub proof fn lemma_defective_group_rejected(members: Seq<MemberView>, k: int)
    requires
        0 <= k < members.len(),
        group_of(members[k].value) is Err,
    ensures
        entries_of(members) is Err,
        catalog_of(JsonView::Object(members)) is Err,
{
    let upto = members.take(k + 1);
    assert(upto.last() == members[k]);
    assert(entries_of(upto) is Err);
    lemma_entries_error_stays(members, k + 1);
}

/// Every group has a coherent summary.
pub open spec fn all_coherent(entries: Seq<EntryView>) -> bool {
    forall|i: int| 0 <= i < entries.len() ==> (#[trigger] entries[i]).group.state.coherent()
}

/// Decoding the object that was encoded from a catalog gives the catalog
/// back, group for group.
pub proof fn lemma_catalog_round_trip(entries: Seq<EntryView>)
    requires
        distinct_ids(entries),
        all_coherent(entries),
    ensures
        catalog_of(catalog_json(entries)) == Ok::<Seq<EntryView>, DecodeError>(entries),
    decreases entries.len(),
{
    if entries.len() == 0 {
        assert(entries =~= Seq::<EntryView>::empty());
    } else {
        let before = entries.drop_last();
        let last = entries.last();
        assert(distinct_ids(before)) by {
            assert forall|i: int, j: int| 0 <= i < j < before.len() implies (
            #[trigger] before[i]).id != (#[trigger] before[j]).id by {
                assert(entries[i].id != entries[j].id);
            }
        }
        assert(all_coherent(before)) by {
            assert forall|i: int| 0 <= i < before.len() implies (
            #[trigger] before[i]).group.state.coherent() by {
                assert(entries[i].group.state.coherent());
            }
        }
        lemma_catalog_round_trip(before);
        lemma_group_round_trip(last.group);
        assert(catalog_members(entries).drop_last() =~= catalog_members(before));
        assert(!has_id(before, last.id)) by {
            if has_id(before, last.id) {
                let at = index_of(before, last.id);
                assert(entries[at].id != entries[entries.len() - 1].id);
            }
        }
        assert(put(before, last.id, last.group) =~= entries);
    }
}

/// A power change followed by a listing: once the bridge has accepted the
/// change for a group that it lists, the catalog read from its next listing
/// is the changed catalog, the group's action carries the new power state,
/// its summary reports a member on exactly if the group was turned on, every
/// other group is as before, and the same change made once more alters
/// nothing.
pub proof fn lemma_power_then_fetch(entries: Seq<EntryView>, id: Seq<char>, on: bool)
    requires
        distinct_ids(entries),
        all_coherent(entries),
        has_id(entries, id),
    ensures
        distinct_ids(with_power(entries, id, on)),
        all_coherent(with_power(entries, id, on)),
        catalog_of(catalog_json(with_power(entries, id, on))) == Ok::<Seq<EntryView>, DecodeError>(
            with_power(entries, id, on),
        ),
        lookup(with_power(entries, id, on), id) == Some(powered(lookup(entries, id)->0, on)),
        lookup(with_power(entries, id, on), id)->0.action.on == on,
        lookup(with_power(entries, id, on), id)->0.state.any_on == on,
        forall|other: Seq<char>|
            other != id ==> lookup(with_power(entries, id, on), other) == lookup(entries, other),
        with_power(with_power(entries, id, on), id, on) == with_power(entries, id, on),
{
    let at = index_of(entries, id);
    let after = with_power(entries, id, on);
    assert(after[at].id == id);
    assert(distinct_ids(after)) by {
        assert forall|i: int, j: int| 0 <= i < j < after.len() implies (#[trigger] after[i]).id != (
        #[trigger] after[j]).id by {
            assert(entries[i].id != entries[j].id);
        }
    }
    assert(all_coherent(after)) by {
        assert forall|i: int| 0 <= i < after.len() implies (
        #[trigger] after[i]).group.state.coherent() by {
            assert(entries[i].group.state.coherent());
        }
    }
    lemma_catalog_round_trip(after);
    assert(has_id(after, id));
    let found = index_of(after, id);
    assert(found == at) by {
        if found < at {
            assert(after[found].id != after[at].id);
        } else if at < found {
            assert(after[at].id != after[found].id);
        }
    }
    assert forall|other: Seq<char>| other != id implies lookup(after, other) == lookup(
        entries,
        other,
    ) by {
        if has_id(entries, other) {
            let place = index_of(entries, other);
            assert(after[place].id == other);
            let again = index_of(after, other);
            if again < place {
                assert(entries[again].id != entries[place].id);
            } else if place < again {
                assert(entries[place].id != entries[again].id);
            }
        } else if has_id(after, other) {
            let again = index_of(after, other);
            assert(entries[again].id == other);
        }
    }
    assert(with_power(after, id, on) =~= after);
}

/// The groups of a bridge, each under its identifier, in the order in
/// which they were put. No identifier occurs twice.
#[derive(Debug, PartialEq, Eq)]
pub struct Catalog {
    entries: Vec<Entry>,
}

impl View for Catalog {
    type V = Seq<EntryView>;

    closed spec fn view(&self) -> Seq<EntryView> {
        entries_view(self.entries@)
    }
}

impl Catalog {
    #[verifier::type_invariant]
    spec fn identifiers_distinct(self) -> bool {
        distinct_ids(entries_view(self.entries@))
    }

    /// A catalog without groups.
    pub fn new() -> (catalog: Catalog)
        ensures
            catalog@ == Seq::<EntryView>::empty(),
    {
        let catalog = Catalog { entries: Vec::new() };
        assert(catalog@ =~= Seq::<EntryView>::empty());
        catalog
    }

    /// The number of groups.
    pub fn len(&self) -> (count: usize)
        ensures
            count == self@.len(),
            distinct_ids(self@),
    {
        proof {
            use_type_invariant(self);
        }
        self.entries.len()
    }

    pub fn is_empty(&self) -> (empty: bool)
        ensures
            empty == (self@.len() == 0),
    {
        self.entries.len() == 0
    }

    /// The entries in their order.
    pub fn entries(&self) -> (entries: &Vec<Entry>)
        ensures
            entries_view(entries@) == self@,
            distinct_ids(self@),
    {
        proof {
            use_type_invariant(self);
        }
        &self.entries
    }

    fn position(&self, id: &str) -> (place: Option<usize>)
        ensures
            distinct_ids(self@),
            match place {
                Some(at) => at < self@.len() && self@[at as int].id == id@ && has_id(self@, id@)
                    && index_of(self@, id@) == at,
                None => !has_id(self@, id@),
            },
    {
        proof {
            use_type_invariant(self);
        }
        let key = String::from_str(id);
        let mut i: usize = 0;
        while i < self.entries.len()
            invariant
                i <= self.entries.len(),
                key@ == id@,
                distinct_ids(self@),
                forall|j: int| 0 <= j < i ==> (#[trigger] self@[j]).id != id@,
            decreases self.entries.len() - i,
        {
            if self.entries[i].id == key {
                assert(self@[i as int].id == id@);
                return Some(i);
            }
            i += 1;
        }
        None
    }

    /// The group listed under an identifier.
    pub fn get(&self, id: &str) -> (found: Option<&Group>)
        ensures
            match found {
                Some(group) => lookup(self@, id@) == Some(group@),
                None => lookup(self@, id@) is None,
            },
    {
        match self.position(id) {
            Some(at) => Some(&self.entries[at].group),
            None => None,
        }
    }

    /// Puts a group under an identifier, in place of the group that was
    /// listed there if there was one.
    pub fn insert(self, id: String, group: Group) -> (next: Catalog)
        ensures
            next@ == put(self@, id@, group@),
    {
        proof {
            use_type_invariant(&self);
            lemma_put_distinct(self@, id@, group@);
        }
        let place = self.position(id.as_str());
        let ghost before = self@;
        let mut entries = self.entries;
        match place {
            Some(at) => {
                entries.set(at, Entry { id, group });
            },
            None => {
                entries.push(Entry { id, group });
            },
        }
        assert(entries_view(entries@) =~= put(before, id@, group@));
        Catalog { entries }
    }

    /// Reads a catalog from a JSON value.
    pub fn from_json(payload: &Json) -> (reading: Result<Catalog, DecodeError>)
        ensures
            decoded(reading) == catalog_of(payload@),
    {
        let members = match payload {
            Json::Object(members) => members,
            _ => {
                return Err(DecodeError::NotAnObject);
            },
        };
        proof {
            lemma_object_view(*members);
        }
        let ghost all = members_view(members@);
        let mut catalog = Catalog::new();
        let mut i: usize = 0;
        while i < members.len()
            invariant
                i <= members.len(),
                all == members_view(members@),
                payload@ == JsonView::Object(all),
                entries_of(all.take(i as int)) == Ok::<Seq<EntryView>, DecodeError>(catalog@),
            decreases members.len() - i,
        {
            proof {
                assert(all.take(i + 1).drop_last() =~= all.take(i as int));
                assert(all.take(i + 1).last() == all[i as int]);
            }
            let group = match Group::from_json(&members[i].value) {
                Ok(group) => group,
                Err(error) => {
                    proof {
                        lemma_entries_error_stays(all, i + 1);
                    }
                    return Err(error);
                },
            };
            catalog = catalog.insert(members[i].name.clone(), group);
            i += 1;
        }
        proof {
            assert(all.take(i as int) =~= all);
        }
        Ok(catalog)
    }

    /// Writes the catalog as a JSON object.
    pub fn to_json(&self) -> (object: Json)
        ensures
            object@ == catalog_json(self@),
    {
        let mut members: Vec<Member> = Vec::new();
        let mut i: usize = 0;
        while i < self.entries.len()
            invariant
                i <= self.entries.len(),
                members@.len() == i,
                forall|j: int|
                    0 <= j < i ==> (#[trigger] members@[j]).name@ == self@[j].id
                        && members@[j].value@ == group_json(self@[j].group),
            decreases self.entries.len() - i,
        {
            let entry = &self.entries[i];
            members.push(Member { name: entry.id.clone(), value: entry.group.to_json() });
            i += 1;
        }
        proof {
            lemma_object_view(members);
            assert(members_view(members@) =~= catalog_members(self@));
        }
        Json::Object(members)
    }

    /// The catalog that the bridge reports once the group under `id` has
    /// accepted a power change. A catalog without such a group stays as it
    /// is.
    pub fn with_power(self, id: &str, on: bool) -> (next: Catalog)
        ensures
            next@ == with_power(self@, id@, on),
    {
        proof {
            use_type_invariant(&self);
        }
        let place = self.position(id);
        let ghost before = self@;
        let mut entries = self.entries;
        match place {
            Some(at) => {
                entries[at].group.state = GroupState::uniform(on);
                entries[at].group.action.on = on;
            },
            None => {},
        }
        assert(entries_view(entries@) =~= with_power(before, id@, on));
        assert(distinct_ids(entries_view(entries@))) by {
            assert forall|i: int, j: int| 0 <= i < j < entries@.len() implies (
            #[trigger] entries_view(entries@)[i]).id != (#[trigger] entries_view(entries@)[j]).id by {
                assert(before[i].id != before[j].id);
            }
        }
        Catalog { entries }
    }
}

} // verus!
