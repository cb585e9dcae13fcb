//! The key info store: what the provider remembers of each key.
//!
//! A key is known by the application that owns it and by the name that the
//! application gave it. Two applications may use the same name for different
//! keys; one application cannot have two keys of one name.

use crate::error::OperationError;
use crate::key_attributes::KeyAttributes;
use vstd::prelude::*;

verus! {

/// The identity of an application, as the authentication layer established it.
#[derive(Clone, Debug, PartialEq, Eq)]
pub struct ApplicationIdentity {
    name: String,
}

impl View for ApplicationIdentity {
    type V = Seq<char>;

    closed spec fn view(&self) -> Seq<char> {
        self.name@
    }
}

impl ApplicationIdentity {
    /// The identity of the application called `name`.
    pub fn new(name: String) -> (identity: ApplicationIdentity)
        ensures
            identity@ == name@,
    {
        ApplicationIdentity { name }
    }

    /// The name of the application.
    pub fn name(&self) -> (name: &String)
        ensures
            name@ == self@,
    {
        &self.name
    }
}

/// What identifies a key: the application that owns it and its name.
pub struct KeyId {
    /// The name of the application.
    pub application: Seq<char>,
    /// The name of the key.
    pub key_name: Seq<char>,
}

/// The identifier of the key that `application` calls `key_name`.
pub open spec fn key_id(application: Seq<char>, key_name: Seq<char>) -> KeyId {
    KeyId { application, key_name }
}

/// Whether `application` owns at least one key of `store`.
pub open spec fn owns_a_key(store: Map<KeyId, KeyRecordView>, application: Seq<char>) -> bool {
    exists|key_name: Seq<char>| store.dom().contains(#[trigger] key_id(application, key_name))
}

/// What is kept of a key: its attributes and its context, the wrapped key
/// material together with its authorization value, which only the device
/// that made it can interpret.
#[derive(Clone, Debug, PartialEq, Eq)]
pub struct KeyRecord {
    /// The attributes of the key.
    pub attributes: KeyAttributes,
    /// The context of the key.
    pub context: Vec<u8>,
}

/// The mathematical value of a `KeyRecord`.
pub struct KeyRecordView {
    /// The attributes of the key.
    pub attributes: KeyAttributes,
    /// The context of the key.
    pub context: Seq<u8>,
}

impl View for KeyRecord {
    type V = KeyRecordView;

    open spec fn view(&self) -> KeyRecordView {
        KeyRecordView { attributes: self.attributes, context: self.context@ }
    }
}

/// One line of a key listing.
#[derive(Clone, Debug, PartialEq, Eq)]
pub struct KeyInfo {
    /// The name of the key.
    pub name: String,
    /// The attributes of the key.
    pub attributes: KeyAttributes,
}

/// The mathematical value of a `KeyInfo`.
pub struct KeyInfoView {
    /// The name of the key.
    pub name: Seq<char>,
    /// The attributes of the key.
    pub attributes: KeyAttributes,
}

impl View for KeyInfo {
    type V = KeyInfoView;

    open spec fn view(&self) -> KeyInfoView {
        KeyInfoView { name: self.name@, attributes: self.attributes }
    }
}

/// One entry of the store: a key identifier and the record kept under it.
pub struct KeyEntryView {
    /// The identifier of the key.
    pub id: KeyId,
    /// The record of the key.
    pub record: KeyRecordView,
}

struct KeyEntry {
    application: String,
    key_name: String,
    record: KeyRecord,
}

impl View for KeyEntry {
    type V = KeyEntryView;

    closed spec fn view(&self) -> KeyEntryView {
        KeyEntryView {
            id: KeyId { application: self.application@, key_name: self.key_name@ },
            record: self.record@,
        }
    }
}

/// The key info store of one provider.
///
/// The store keeps its entries in the order in which they were recorded. Its
/// value as a sequence is that list of entries; its value as a map, its view,
/// forgets the order.
pub struct KeyInfoManagerClient {
    entries: Vec<KeyEntry>,
}

/// Whether an entry of `entries` has the identifier `id`.
pub open spec fn holds(entries: Seq<KeyEntryView>, id: KeyId) -> bool {
    exists|i: int| 0 <= i < entries.len() && (#[trigger] entries[i]).id == id
}

/// The place in `entries` of an entry with the identifier `id`.
pub open spec fn position(entries: Seq<KeyEntryView>, id: KeyId) -> int {
    choose|i: int| 0 <= i < entries.len() && (#[trigger] entries[i]).id == id
}

/// Whether no two entries of `entries` have the same identifier.
pub open spec fn distinct_ids(entries: Seq<KeyEntryView>) -> bool {
    forall|i: int, j: int|
        0 <= i < j < entries.len() ==> (#[trigger] entries[i]).id != (#[trigger] entries[j]).id
}

/// The map from the identifiers of `entries` to their records.
#[verifier::opaque]
pub open spec fn map_of(entries: Seq<KeyEntryView>) -> Map<KeyId, KeyRecordView> {
    Map::new(|id: KeyId| holds(entries, id), |id: KeyId| entries[position(entries, id)].record)
}

/// The listing of the keys of `application` among `entries`: the name and the
/// attributes of each of its keys, in the order of the entries.
pub open spec fn keys_of(entries: Seq<KeyEntryView>, application: Seq<char>) -> Seq<KeyInfoView>
    decreases entries.len(),
{
    if entries.len() == 0 {
        Seq::empty()
    } else {
        let before = keys_of(entries.drop_last(), application);
        let last = entries.last();
        if last.id.application == application {
            before.push(
                KeyInfoView { name: last.id.key_name, attributes: last.record.attributes },
            )
        } else {
            before
        }
    }
}

/// The listing of the applications that own an entry of `entries`: each of
/// them once, in the order of their first entries.
pub open spec fn owners_of(entries: Seq<KeyEntryView>) -> Seq<Seq<char>>
    decreases entries.len(),
{
    if entries.len() == 0 {
        Seq::empty()
    } else {
        let before = owners_of(entries.drop_last());
        let owner = entries.last().id.application;
        if before.contains(owner) {
            before
        } else {
            before.push(owner)
        }
    }
}

/// The map of some entries is defined on the identifiers that they hold.
pub proof fn lemma_domain(entries: Seq<KeyEntryView>)
    ensures
        forall|id: KeyId| #[trigger] map_of(entries).dom().contains(id) <==> holds(entries, id),
{
    reveal(map_of);
}

/// Among entries of distinct identifiers, each entry is found under its
/// identifier, at its own place.
pub proof fn lemma_entry(entries: Seq<KeyEntryView>, i: int)
    requires
        distinct_ids(entries),
        0 <= i < entries.len(),
    ensures
        map_of(entries).dom().contains(entries[i].id),
        map_of(entries)[entries[i].id] == entries[i].record,
        position(entries, entries[i].id) == i,
{
    reveal(map_of);
    let id = entries[i].id;
    assert(holds(entries, id));
    let p = position(entries, id);
    assert(0 <= p < entries.len() && entries[p].id == id);
    if p < i {
        assert(entries[p].id != entries[i].id);
    } else if i < p {
        assert(entries[i].id != entries[p].id);
    }
}

/// An entry with a new identifier, put at the end, adds its record to the map
/// and leaves the identifiers distinct.
pub proof fn lemma_push(entries: Seq<KeyEntryView>, entry: KeyEntryView)
    requires
        distinct_ids(entries),
        !holds(entries, entry.id),
    ensures
        distinct_ids(entries.push(entry)),
        map_of(entries.push(entry)) == map_of(entries).insert(entry.id, entry.record),
{
    reveal(map_of);
    let after = entries.push(entry);
    assert forall|i: int, j: int| 0 <= i < j < after.len() implies (#[trigger] after[i]).id != (
    #[trigger] after[j]).id by {
        if j < entries.len() {
            assert(entries[i].id != entries[j].id);
        } else {
            assert(after[i] == entries[i]);
            if entries[i].id == entry.id {
                assert(holds(entries, entry.id));
            }
        }
    }
    let expected = map_of(entries).insert(entry.id, entry.record);
    assert forall|id: KeyId| map_of(after).dom().contains(id) <==> expected.dom().contains(
        id,
    ) by {
        if holds(after, id) {
            let p = position(after, id);
            if p < entries.len() {
                assert(entries[p].id == id);
            }
        }
        if holds(entries, id) {
            let p = position(entries, id);
            assert(after[p].id == id);
        }
        if id == entry.id {
            assert(after[entries.len() as int].id == id);
        }
    }
    assert forall|id: KeyId| map_of(after).dom().contains(id) implies map_of(after)[id]
        == expected[id] by {
        let p = position(after, id);
        lemma_entry(after, p);
        if p < entries.len() {
            assert(after[p] == entries[p]);
            lemma_entry(entries, p);
        }
    }
    assert(map_of(after) =~= expected);
}

/// Taking an entry out takes its record out of the map, and leaves the
/// identifiers distinct.
pub proof fn lemma_remove(entries: Seq<KeyEntryView>, at: int)
    requires
        distinct_ids(entries),
        0 <= at < entries.len(),
    ensures
        distinct_ids(entries.remove(at)),
        map_of(entries.remove(at)) == map_of(entries).remove(entries[at].id),
{
    reveal(map_of);
    let after = entries.remove(at);
    let gone = entries[at].id;
    assert forall|i: int, j: int| 0 <= i < j < after.len() implies (#[trigger] after[i]).id != (
    #[trigger] after[j]).id by {
        let si = if i < at { i } else { i + 1 };
        let sj = if j < at { j } else { j + 1 };
        assert(after[i] == entries[si]);
        assert(after[j] == entries[sj]);
        assert(entries[si].id != entries[sj].id);
    }
    let expected = map_of(entries).remove(gone);
    assert forall|id: KeyId| map_of(after).dom().contains(id) <==> expected.dom().contains(
        id,
    ) by {
        if holds(after, id) {
            let p = position(after, id);
            let sp = if p < at { p } else { p + 1 };
            assert(after[p] == entries[sp]);
            assert(entries[sp].id == id);
            if sp < at {
                assert(entries[sp].id != entries[at].id);
            } else {
                assert(entries[at].id != entries[sp].id);
            }
        }
        if holds(entries, id) && id != gone {
            let p = position(entries, id);
            let tp = if p < at { p } else { p - 1 };
            assert(after[tp] == entries[p]);
            assert(after[tp].id == id);
        }
    }
    assert forall|id: KeyId| map_of(after).dom().contains(id) implies map_of(after)[id]
        == expected[id] by {
        let p = position(after, id);
        lemma_entry(after, p);
        let sp = if p < at { p } else { p + 1 };
        assert(after[p] == entries[sp]);
        lemma_entry(entries, sp);
    }
    assert(map_of(after) =~= expected);
}

/// All entries but the last have distinct identifiers if all entries have,
/// and none of them has the identifier of the last.
proof fn lemma_drop_last(entries: Seq<KeyEntryView>)
    requires
        distinct_ids(entries),
        entries.len() > 0,
    ensures
        distinct_ids(entries.drop_last()),
        !holds(entries.drop_last(), entries.last().id),
        entries == entries.drop_last().push(entries.last()),
{
    let before = entries.drop_last();
    let last = entries.last();
    assert(entries =~= before.push(last));
    assert forall|i: int, j: int| 0 <= i < j < before.len() implies (#[trigger] before[i]).id != (
    #[trigger] before[j]).id by {
        assert(entries[i].id != entries[j].id);
    }
    if holds(before, last.id) {
        let p = position(before, last.id);
        assert(entries[p].id != entries[entries.len() - 1].id);
    }
}

/// The identifiers held after an entry is put at the end are those held
/// before and that of the new entry.
proof fn lemma_holds_of_push(before: Seq<KeyEntryView>, last: KeyEntryView)
    ensures
        forall|id: KeyId|
            holds(before.push(last), id) <==> (holds(before, id) || id == last.id),
{
    let entries = before.push(last);
    assert forall|id: KeyId| holds(entries, id) <==> (holds(before, id) || id == last.id) by {
        if holds(entries, id) {
            let p = position(entries, id);
            if p < before.len() {
                assert(before[p].id == id);
            }
        }
        if holds(before, id) {
            let p = position(before, id);
            assert(entries[p].id == id);
        }
        if id == last.id {
            assert(entries[before.len() as int].id == id);
        }
    }
}

/// The map of entries of distinct identifiers is the map of all but the last,
/// with the record of the last put under its identifier, which is new.
proof fn lemma_last(entries: Seq<KeyEntryView>)
    requires
        distinct_ids(entries),
        entries.len() > 0,
    ensures
        distinct_ids(entries.drop_last()),
        !map_of(entries.drop_last()).dom().contains(entries.last().id),
        map_of(entries) == map_of(entries.drop_last()).insert(
            entries.last().id,
            entries.last().record,
        ),
{
    lemma_drop_last(entries);
    lemma_domain(entries.drop_last());
    lemma_push(entries.drop_last(), entries.last());
}

/// Each line of the listing of an application is a key of that application,
/// with its attributes.
proof fn lemma_keys_of_belong(entries: Seq<KeyEntryView>, application: Seq<char>, i: int)
    requires
        distinct_ids(entries),
        0 <= i < keys_of(entries, application).len(),
    ensures
        map_of(entries).dom().contains(key_id(application, keys_of(entries, application)[i].name)),
        map_of(entries)[key_id(application, keys_of(entries, application)[i].name)].attributes
            == keys_of(entries, application)[i].attributes,
    decreases entries.len(),
{
    let before = entries.drop_last();
    let last = entries.last();
    lemma_last(entries);
    if i < keys_of(before, application).len() {
        lemma_keys_of_belong(before, application, i);
    } else {
        assert(key_id(application, last.id.key_name) == last.id);
    }
}

/// Each key of an application has a line in its listing.
proof fn lemma_keys_of_complete(
    entries: Seq<KeyEntryView>,
    application: Seq<char>,
    key_name: Seq<char>,
) -> (i: int)
    requires
        distinct_ids(entries),
        map_of(entries).dom().contains(key_id(application, key_name)),
    ensures
        0 <= i < keys_of(entries, application).len(),
        keys_of(entries, application)[i].name == key_name,
    decreases entries.len(),
{
    if entries.len() == 0 {
        lemma_domain(entries);
        0
    } else {
        let before = entries.drop_last();
        let last = entries.last();
        lemma_last(entries);
        if key_id(application, key_name) == last.id {
            keys_of(entries, application).len() - 1
        } else {
            lemma_keys_of_complete(before, application, key_name)
        }
    }
}

/// No two lines of the listing of an application bear the same name.
proof fn lemma_keys_of_distinct(
    entries: Seq<KeyEntryView>,
    application: Seq<char>,
    i: int,
    j: int,
)
    requires
        distinct_ids(entries),
        0 <= i < j < keys_of(entries, application).len(),
    ensures
        keys_of(entries, application)[i].name != keys_of(entries, application)[j].name,
    decreases entries.len(),
{
    let before = entries.drop_last();
    let last = entries.last();
    lemma_last(entries);
    if j < keys_of(before, application).len() {
        lemma_keys_of_distinct(before, application, i, j);
    } else {
        lemma_keys_of_belong(before, application, i);
        if keys_of(before, application)[i].name == last.id.key_name {
            assert(key_id(application, keys_of(before, application)[i].name) == last.id);
        }
    }
}

/// The listing of the keys of an application holds each of its keys once,
/// with its attributes, and no key of another application.
pub proof fn lemma_keys_of(entries: Seq<KeyEntryView>, application: Seq<char>)
    requires
        distinct_ids(entries),
    ensures
        forall|i: int|
            0 <= i < keys_of(entries, application).len() ==> {
                &&& map_of(entries).dom().contains(
                    key_id(application, (#[trigger] keys_of(entries, application)[i]).name),
                )
                &&& map_of(entries)[key_id(
                    application,
                    keys_of(entries, application)[i].name,
                )].attributes == keys_of(entries, application)[i].attributes
            },
        forall|key_name: Seq<char>|
            map_of(entries).dom().contains(#[trigger] key_id(application, key_name))
                ==> exists|i: int|
                0 <= i < keys_of(entries, application).len() && (#[trigger] keys_of(
                    entries,
                    application,
                )[i]).name == key_name,
        forall|i: int, j: int|
            0 <= i < j < keys_of(entries, application).len() ==> (#[trigger] keys_of(
                entries,
                application,
            )[i]).name != (#[trigger] keys_of(entries, application)[j]).name,
{
    let listing = keys_of(entries, application);
    assert forall|i: int| 0 <= i < listing.len() implies {
        &&& map_of(entries).dom().contains(key_id(application, (#[trigger] listing[i]).name))
        &&& map_of(entries)[key_id(application, listing[i].name)].attributes
            == listing[i].attributes
    } by {
        lemma_keys_of_belong(entries, application, i);
    }
    assert forall|key_name: Seq<char>|
        map_of(entries).dom().contains(#[trigger] key_id(application, key_name)) implies exists|
        i: int,
    | 0 <= i < listing.len() && (#[trigger] listing[i]).name == key_name by {
        let i = lemma_keys_of_complete(entries, application, key_name);
        assert(listing[i].name == key_name);
    }
    assert forall|i: int, j: int| 0 <= i < j < listing.len() implies (#[trigger] listing[i]).name
        != (#[trigger] listing[j]).name by {
        lemma_keys_of_distinct(entries, application, i, j);
    }
}

/// The listing of the owners holds each application that owns a key once,
/// and no other.
pub proof fn lemma_owners_of(entries: Seq<KeyEntryView>)
    ensures
        forall|i: int|
            0 <= i < owners_of(entries).len() ==> owns_a_key(
                map_of(entries),
                #[trigger] owners_of(entries)[i],
            ),
        forall|application: Seq<char>| #[trigger]
            owns_a_key(map_of(entries), application) ==> owners_of(entries).contains(
                application,
            ),
        forall|i: int, j: int|
            0 <= i < j < owners_of(entries).len() ==> #[trigger] owners_of(entries)[i]
                != #[trigger] owners_of(entries)[j],
    decreases entries.len(),
{
    reveal(map_of);
    let owners = owners_of(entries);
    if entries.len() > 0 {
        let before = entries.drop_last();
        let last = entries.last();
        let owner = last.id.application;
        let known = owners_of(before);
        lemma_owners_of(before);
        assert(entries =~= before.push(last));
        lemma_holds_of_push(before, last);
        assert forall|i: int| 0 <= i < owners.len() implies owns_a_key(
            map_of(entries),
            #[trigger] owners[i],
        ) by {
            if i < known.len() {
                assert(owners[i] == known[i]);
                assert(owns_a_key(map_of(before), known[i]));
                let key_name = choose|key_name: Seq<char>|
                    map_of(before).dom().contains(#[trigger] key_id(known[i], key_name));
                assert(map_of(entries).dom().contains(key_id(owners[i], key_name)));
            } else {
                assert(key_id(owner, last.id.key_name) == last.id);
                assert(map_of(entries).dom().contains(key_id(owners[i], last.id.key_name)));
            }
        }
        assert forall|application: Seq<char>| #[trigger]
            owns_a_key(map_of(entries), application) implies owners.contains(application) by {
            let key_name = choose|key_name: Seq<char>|
                map_of(entries).dom().contains(#[trigger] key_id(application, key_name));
            if holds(before, key_id(application, key_name)) {
                assert(map_of(before).dom().contains(key_id(application, key_name)));
                assert(owns_a_key(map_of(before), application));
                let i = choose|i: int| 0 <= i < known.len() && known[i] == application;
                assert(owners[i] == application);
            } else {
                assert(application == owner);
                if known.contains(owner) {
                    let i = choose|i: int| 0 <= i < known.len() && known[i] == owner;
                    assert(owners[i] == application);
                } else {
                    assert(owners[owners.len() - 1] == application);
                }
            }
        }
        assert forall|i: int, j: int| 0 <= i < j < owners.len() implies #[trigger] owners[i]
            != #[trigger] owners[j] by {
            assert(owners[i] == known[i]);
            if j < known.len() {
                assert(owners[j] == known[j]);
            } else {
                assert(!known.contains(owner));
            }
        }
    }
}

impl View for KeyInfoManagerClient {
    type V = Map<KeyId, KeyRecordView>;

    open spec fn view(&self) -> Map<KeyId, KeyRecordView> {
        map_of(self.sequence())
    }
}

impl KeyInfoManagerClient {
    /// The entries of the store, in the order in which they were recorded.
    pub closed spec fn sequence(&self) -> Seq<KeyEntryView> {
        Seq::new(self.entries@.len(), |i: int| self.entries@[i]@)
    }

    #[verifier::type_invariant]
    spec fn well_formed(self) -> bool {
        distinct_ids(self.sequence())
    }

    /// A store that holds no key.
    pub fn new() -> (store: KeyInfoManagerClient)
        ensures
            store.sequence() == Seq::<KeyEntryView>::empty(),
            store@ == Map::<KeyId, KeyRecordView>::empty(),
    {
        let store = KeyInfoManagerClient { entries: Vec::new() };
        proof {
            reveal(map_of);
        }
        assert(store.sequence() =~= Seq::<KeyEntryView>::empty());
        assert(store@ =~= Map::<KeyId, KeyRecordView>::empty());
        store
    }

    fn find(&self, application: &ApplicationIdentity, key_name: &String) -> (r: Option<usize>)
        ensures
            match r {
                Some(i) => {
                    &&& i < self.sequence().len()
                    &&& self.sequence()[i as int].id == key_id(application@, key_name@)
                },
                None => !holds(self.sequence(), key_id(application@, key_name@)),
            },
    {
        let ghost id = key_id(application@, key_name@);
        let mut i: usize = 0;
        while i < self.entries.len()
            invariant
                i <= self.entries@.len(),
                self.sequence().len() == self.entries@.len(),
                id == key_id(application@, key_name@),
                forall|j: int| 0 <= j < i ==> (#[trigger] self.sequence()[j]).id != id,
            decreases self.entries@.len() - i,
        {
            assert(self.sequence()[i as int] == self.entries@[i as int]@);
            if self.entries[i].application == application.name && self.entries[i].key_name
                == *key_name {
                return Some(i);
            }
            i = i + 1;
        }
        None
    }

    /// Whether `application` has a key called `key_name`.
    pub fn contains(&self, application: &ApplicationIdentity, key_name: &String) -> (b: bool)
        ensures
            b == self@.dom().contains(key_id(application@, key_name@)),
    {
        proof {
            lemma_domain(self.sequence());
        }
        self.find(application, key_name).is_some()
    }

    /// The record of the key that `application` calls `key_name`, if it has
    /// such a key.
    pub fn get(&self, application: &ApplicationIdentity, key_name: &String) -> (r: Option<
        &KeyRecord,
    >)
        ensures
            match r {
                Some(record) => {
                    &&& self@.dom().contains(key_id(application@, key_name@))
                    &&& self@[key_id(application@, key_name@)] == record@
                },
                None => !self@.dom().contains(key_id(application@, key_name@)),
            },
    {
        proof {
            use_type_invariant(self);
            lemma_domain(self.sequence());
        }
        match self.find(application, key_name) {
            Some(i) => {
                proof {
                    lemma_entry(self.sequence(), i as int);
                }
                Some(&self.entries[i].record)
            },
            None => None,
        }
    }

    /// Records a new key of `application` under `key_name`, after the entries
    /// that the store holds already.
    ///
    /// The store is left as it was, and a conflict is reported, when the
    /// application already has a key of that name.
    pub fn insert(
        &mut self,
        application: &ApplicationIdentity,
        key_name: String,
        record: KeyRecord,
    ) -> (r: Result<(), OperationError>)
        ensures
            old(self)@.dom().contains(key_id(application@, key_name@)) ==> {
                &&& r == Err::<(), OperationError>(OperationError::Conflict)
                &&& final(self).sequence() == old(self).sequence()
            },
            !old(self)@.dom().contains(key_id(application@, key_name@)) ==> {
                &&& r == Ok::<(), OperationError>(())
                &&& final(self).sequence() == old(self).sequence().push(
                    KeyEntryView { id: key_id(application@, key_name@), record: record@ },
                )
                &&& final(self)@ == old(self)@.insert(key_id(application@, key_name@), record@)
            },
    {
        proof {
            use_type_invariant(&*self);
            lemma_domain(self.sequence());
        }
        if self.find(application, &key_name).is_some() {
            return Err(OperationError::Conflict);
        }
        let entry = KeyEntry { application: application.name.clone(), key_name, record };
        let ghost before = self.sequence();
        proof {
            lemma_push(before, entry@);
        }
        let mut entries: Vec<KeyEntry> = Vec::new();
        core::mem::swap(&mut self.entries, &mut entries);
        assert(self.sequence() =~= Seq::<KeyEntryView>::empty());
        entries.push(entry);
        assert(Seq::new(entries@.len(), |i: int| entries@[i]@) =~= before.push(entry@));
        core::mem::swap(&mut self.entries, &mut entries);
        assert(self.sequence() =~= before.push(entry@));
        Ok(())
    }

    /// Forgets the key that `application` calls `key_name`, and hands back
    /// its record. The entries that stay keep their order.
    ///
    /// The store is left as it was when the application has no such key. The
    /// records of all other keys stay as they were in either case.
    pub fn remove(&mut self, application: &ApplicationIdentity, key_name: &String) -> (r: Result<
        KeyRecord,
        OperationError,
    >)
        ensures
            match r {
                Ok(record) => {
                    &&& old(self)@.dom().contains(key_id(application@, key_name@))
                    &&& record@ == old(self)@[key_id(application@, key_name@)]
                    &&& final(self).sequence() == old(self).sequence().remove(
                        position(old(self).sequence(), key_id(application@, key_name@)),
                    )
                    &&& final(self)@ == old(self)@.remove(key_id(application@, key_name@))
                },
                Err(e) => {
                    &&& e == OperationError::NotFound
                    &&& !old(self)@.dom().contains(key_id(application@, key_name@))
                    &&& final(self).sequence() == old(self).sequence()
                },
            },
    {
        proof {
            use_type_invariant(&*self);
            lemma_domain(self.sequence());
        }
        match self.find(application, key_name) {
            Some(i) => {
                let ghost before = self.sequence();
                proof {
                    lemma_entry(before, i as int);
                    lemma_remove(before, i as int);
                }
                let mut entries: Vec<KeyEntry> = Vec::new();
                core::mem::swap(&mut self.entries, &mut entries);
                assert(self.sequence() =~= Seq::<KeyEntryView>::empty());
                let entry = entries.remove(i);
                assert(Seq::new(entries@.len(), |j: int| entries@[j]@) =~= before.remove(i as int));
                core::mem::swap(&mut self.entries, &mut entries);
                assert(self.sequence() =~= before.remove(i as int));
                assert(entry@ == before[i as int]);
                Ok(entry.record)
            },
            None => Err(OperationError::NotFound),
        }
    }

    /// The keys of `application`, as the store has them: the name and the
    /// attributes of each, in the order in which they were recorded.
    pub fn list_keys(&self, application: &ApplicationIdentity) -> (keys: Vec<KeyInfo>)
        ensures
            keys@.len() == keys_of(self.sequence(), application@).len(),
            forall|i: int|
                0 <= i < keys@.len() ==> (#[trigger] keys@[i])@ == keys_of(
                    self.sequence(),
                    application@,
                )[i],
            distinct_ids(self.sequence()),
    {
        proof {
            use_type_invariant(self);
        }
        let ghost entries = self.sequence();
        let mut keys: Vec<KeyInfo> = Vec::new();
        let mut k: usize = 0;
        while k < self.entries.len()
            invariant
                k <= self.entries@.len(),
                entries == self.sequence(),
                entries.len() == self.entries@.len(),
                keys@.len() == keys_of(entries.take(k as int), application@).len(),
                forall|i: int|
                    0 <= i < keys@.len() ==> (#[trigger] keys@[i])@ == keys_of(
                        entries.take(k as int),
                        application@,
                    )[i],
            decreases self.entries@.len() - k,
        {
            proof {
                assert(entries.take(k + 1).drop_last() =~= entries.take(k as int));
                assert(entries.take(k + 1).last() == entries[k as int]);
                assert(entries[k as int] == self.entries@[k as int]@);
            }
            if self.entries[k].application == application.name {
                keys.push(
                    KeyInfo {
                        name: self.entries[k].key_name.clone(),
                        attributes: self.entries[k].record.attributes,
                    },
                );
            }
            k = k + 1;
        }
        assert(entries.take(k as int) =~= entries);
        keys
    }

    /// The applications that own a key, as the store has them: each of them
    /// once, in the order in which their first keys were recorded.
    pub fn list_clients(&self) -> (clients: Vec<ApplicationIdentity>)
        ensures
            clients@.len() == owners_of(self.sequence()).len(),
            forall|i: int|
                0 <= i < clients@.len() ==> (#[trigger] clients@[i])@ == owners_of(
                    self.sequence(),
                )[i],
    {
        let ghost entries = self.sequence();
        let mut clients: Vec<ApplicationIdentity> = Vec::new();
        let mut k: usize = 0;
        while k < self.entries.len()
            invariant
                k <= self.entries@.len(),
                entries == self.sequence(),
                entries.len() == self.entries@.len(),
                clients@.len() == owners_of(entries.take(k as int)).len(),
                forall|i: int|
                    0 <= i < clients@.len() ==> (#[trigger] clients@[i])@ == owners_of(
                        entries.take(k as int),
                    )[i],
            decreases self.entries@.len() - k,
        {
            let ghost known = owners_of(entries.take(k as int));
            let ghost owner = entries[k as int].id.application;
            proof {
                assert(entries.take(k + 1).drop_last() =~= entries.take(k as int));
                assert(entries.take(k + 1).last() == entries[k as int]);
                assert(entries[k as int] == self.entries@[k as int]@);
            }
            let mut listed = false;
            let mut c: usize = 0;
            while c < clients.len()
                invariant
                    c <= clients@.len(),
                    k < self.entries@.len(),
                    owner == self.entries@[k as int].application@,
                    listed <==> exists|i: int| 0 <= i < c && (#[trigger] clients@[i])@ == owner,
                decreases clients@.len() - c,
            {
                if clients[c].name == self.entries[k].application {
                    listed = true;
                }
                c = c + 1;
            }
            proof {
                if listed {
                    let i = choose|i: int| 0 <= i < clients@.len() && (#[trigger] clients@[i])@
                        == owner;
                    assert(known[i] == owner);
                }
                if known.contains(owner) {
                    let i = choose|i: int| 0 <= i < known.len() && known[i] == owner;
                    assert(clients@[i]@ == owner);
                }
                assert(listed == known.contains(owner));
            }
            if !listed {
                clients.push(ApplicationIdentity::new(self.entries[k].application.clone()));
            }
            k = k + 1;
        }
        assert(entries.take(k as int) =~= entries);
        clients
    }
}

} // verus!
