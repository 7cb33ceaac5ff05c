//! Attribute-type identifiers and the registry that owns the attribute types.

use bevy::platform::collections::HashMap;
use bevy::platform::hash::FixedHasher;
use vstd::prelude::*;

verus! {

/// `bevy::platform::hash::FixedHasher`, the hasher that the registry's map
/// is built with. Nothing is claimed of it.
#[verifier::external_type_specification]
#[verifier::external_body]
pub struct ExFixedHasher(FixedHasher);

/// `bevy::platform::collections::HashMap`, the map that holds the registry.
/// What a map holds is named by [`registry_entries`]; the functions below
/// say what each call does to it.
#[verifier::external_type_specification]
#[verifier::external_body]
#[verifier::reject_recursive_types(K)]
#[verifier::reject_recursive_types(V)]
#[verifier::reject_recursive_types(S)]
pub struct ExHashMap<K, V, S>(HashMap<K, V, S>);

/// Identifier of an attribute type: 128 bits, compared by value.
#[derive(Clone, Copy, Debug, PartialEq, Eq, Hash, Structural)]
pub struct StateId {
    bits: u128,
}

impl View for StateId {
    type V = u128;

    closed spec fn view(&self) -> u128 {
        self.bits
    }
}

/// `rand::random` at `u128`: 128 bits from the thread's generator. Any value
/// may come back, so nothing is promised of it.
#[verifier::external_body]
fn random_bits() -> u128 {
    rand::random()
}

impl StateId {
    /// A new identifier from 128 random bits. Two calls may return the same
    /// value, though with 128 bits that is improbable.
    pub fn generate() -> StateId {
        StateId { bits: random_bits() }
    }

    /// The identifier that has these 128 bits.
    pub fn from_bits(bits: u128) -> (id: StateId)
        ensures
            id@ == bits,
    {
        StateId { bits }
    }

    /// The 128 bits of the identifier.
    pub fn bits(&self) -> (bits: u128)
        ensures
            bits == self@,
    {
        self.bits
    }

    /// Two identifiers with the same bits are the same identifier.
    pub proof fn lemma_view_injective(a: StateId, b: StateId)
        ensures
            a@ == b@ <==> a == b,
    {
    }
}

/// The kind of value that an attribute type carries.
#[derive(Clone, Copy, Debug, PartialEq, Eq, Structural)]
pub enum StateType {
    Bool,
}

/// An attribute type: its identifier, its display name and the kind of its values.
#[derive(Debug, PartialEq, Eq)]
pub struct StateTypeData {
    pub id: StateId,
    pub name: String,
    pub state_type: StateType,
}

/// An attribute type with its name as a sequence of characters.
pub struct StateTypeView {
    pub id: u128,
    pub name: Seq<char>,
    pub state_type: StateType,
}

impl View for StateTypeData {
    type V = StateTypeView;

    open spec fn view(&self) -> StateTypeView {
        StateTypeView { id: self.id@, name: self.name@, state_type: self.state_type }
    }
}

impl StateTypeData {
    /// An attribute type with the given name and kind under a new random identifier.
    pub fn new(name: &str, state_type: StateType) -> (data: StateTypeData)
        ensures
            data.name@ == name@,
            data.state_type == state_type,
    {
        StateTypeData::with_id(StateId::generate(), name, state_type)
    }

    /// An attribute type with the given identifier, name and kind.
    pub fn with_id(id: StateId, name: &str, state_type: StateType) -> (data: StateTypeData)
        ensures
            data.id == id,
            data.name@ == name@,
            data.state_type == state_type,
    {
        StateTypeData { id, name: name.to_owned(), state_type }
    }
}

/// Notice that an attribute type was stored in the registry.
#[derive(Clone, Copy, Debug, PartialEq, Eq, Structural)]
pub struct StateTypeAdded {
    pub state_type: StateId,
}

/// Notice that an attribute type got a new name.
#[derive(Debug, PartialEq, Eq)]
pub struct StateTypeNameChanged {
    pub state_type: StateId,
    pub name: String,
}

/// Notice that an attribute type left the registry.
#[derive(Clone, Copy, Debug, PartialEq, Eq, Structural)]
pub struct StateTypeRemoved {
    pub state_type: StateId,
}

/// Why the registry refused a request.
#[derive(Clone, Copy, Debug, PartialEq, Eq, Structural)]
pub enum RegistryError {
    /// No attribute type is stored under the identifier.
    NotFound,
}

/// The registry's contents when it holds no attribute type.
pub open spec fn no_types() -> Map<u128, StateTypeView> {
    Map::empty()
}

/// The attribute type `entry` under another name.
pub open spec fn renamed(entry: StateTypeView, name: Seq<char>) -> StateTypeView {
    StateTypeView { id: entry.id, name: name, state_type: entry.state_type }
}

/// The entries of a registry map, each attribute type seen through its view.
pub uninterp spec fn registry_entries(map: HashMap<u128, StateTypeData>) -> Map<
    u128,
    StateTypeView,
>;

/// `HashMap::new`: the map it returns holds no entry.
#[verifier::external_body]
fn map_new() -> (fresh: HashMap<u128, StateTypeData>)
    ensures
        registry_entries(fresh) == no_types(),
{
    HashMap::new()
}

/// `HashMap::insert`: the value is stored under the key in place of what was
/// there, every other entry stays, and the value that was replaced comes back.
#[verifier::external_body]
fn map_insert(
    map: &mut HashMap<u128, StateTypeData>,
    key: u128,
    value: StateTypeData,
) -> (previous: Option<StateTypeData>)
    ensures
        registry_entries(*final(map)) == registry_entries(*old(map)).insert(key, value@),
        previous is Some == registry_entries(*old(map)).contains_key(key),
        previous matches Some(p) ==> p@ == registry_entries(*old(map))[key],
{
    map.insert(key, value)
}

/// `HashMap::get`: a reference to the value stored under the key, if there is one.
#[verifier::external_body]
fn map_get(map: &HashMap<u128, StateTypeData>, key: u128) -> (found: Option<&StateTypeData>)
    ensures
        found is Some == registry_entries(*map).contains_key(key),
        found matches Some(data) ==> data@ == registry_entries(*map)[key],
{
    map.get(&key)
}

/// `HashMap::remove`: the entry under the key leaves the map, every other
/// entry stays, and the value that left comes back.
#[verifier::external_body]
fn map_remove(map: &mut HashMap<u128, StateTypeData>, key: u128) -> (removed: Option<
    StateTypeData,
>)
    ensures
        registry_entries(*final(map)) == registry_entries(*old(map)).remove(key),
        removed is Some == registry_entries(*old(map)).contains_key(key),
        removed matches Some(r) ==> r@ == registry_entries(*old(map))[key],
{
    map.remove(&key)
}

/// The registry of attribute types, keyed by identifier.
pub struct StateTypes {
    map: HashMap<u128, StateTypeData>,
}

impl View for StateTypes {
    type V = Map<u128, StateTypeView>;

    closed spec fn view(&self) -> Map<u128, StateTypeView> {
        registry_entries(self.map)
    }
}

impl Default for StateTypes {
    fn default() -> (types: StateTypes)
        ensures
            types@ == no_types(),
            types.wf(),
    {
        StateTypes::new()
    }
}

impl StateTypes {
    /// Every attribute type is stored under its own identifier.
    pub open spec fn wf(&self) -> bool {
        forall|key: u128| #[trigger] self@.contains_key(key) ==> self@[key].id == key
    }

    /// A registry without attribute types.
    pub fn new() -> (types: StateTypes)
        ensures
            types@ == no_types(),
            types.wf(),
    {
        StateTypes { map: map_new() }
    }

    /// Stores the attribute type under its identifier, in place of any type
    /// that was stored there, and announces it.
    pub fn insert(&mut self, state_type: StateTypeData) -> (added: StateTypeAdded)
        ensures
            final(self)@ == old(self)@.insert(state_type.id@, state_type@),
            added.state_type == state_type.id,
            old(self).wf() ==> final(self).wf(),
    {
        let id = state_type.id;
        let _ = map_insert(&mut self.map, id.bits, state_type);
        StateTypeAdded { state_type: id }
    }

    /// The attribute type stored under the identifier, if there is one.
    pub fn get(&self, id: StateId) -> (found: Option<&StateTypeData>)
        ensures
            found is Some == self@.contains_key(id@),
            found matches Some(data) ==> data@ == self@[id@],
    {
        map_get(&self.map, id.bits)
    }

    /// Whether an attribute type is stored under the identifier.
    pub fn contains(&self, id: StateId) -> (known: bool)
        ensures
            known == self@.contains_key(id@),
    {
        map_get(&self.map, id.bits).is_some()
    }

    /// Gives the attribute type a new name. An unknown identifier is an error.
    /// An empty name, or the name that the type already has, changes nothing
    /// and announces nothing. Any other name is stored and announced.
    pub fn rename(&mut self, id: StateId, new_name: &str) -> (outcome: Result<
        Option<StateTypeNameChanged>,
        RegistryError,
    >)
        ensures
            (match outcome {
                Err(error) => error == RegistryError::NotFound && !old(self)@.contains_key(id@)
                    && final(self)@ == old(self)@,
                Ok(None) => old(self)@.contains_key(id@) && !rename_takes_effect(
                    old(self)@[id@].name,
                    new_name@,
                ) && final(self)@ == old(self)@,
                Ok(Some(changed)) => old(self)@.contains_key(id@) && rename_takes_effect(
                    old(self)@[id@].name,
                    new_name@,
                ) && changed.state_type == id && changed.name@ == new_name@ && final(self)@
                    == old(self)@.insert(id@, renamed(old(self)@[id@], new_name@)),
            }),
            old(self).wf() ==> final(self).wf(),
    {
        let name = new_name.to_owned();
        let (stored_id, state_type) = match map_get(&self.map, id.bits) {
            None => {
                return Err(RegistryError::NotFound);
            },
            Some(data) => {
                if new_name.is_empty() || data.name == name {
                    return Ok(None);
                }
                (data.id, data.state_type)
            },
        };
        let updated = StateTypeData { id: stored_id, name: name.clone(), state_type };
        let _ = map_insert(&mut self.map, id.bits, updated);
        Ok(Some(StateTypeNameChanged { state_type: id, name }))
    }

    /// Takes the attribute type out of the registry and announces that it
    /// left. An unknown identifier changes nothing and announces nothing.
    pub fn remove(&mut self, id: StateId) -> (removed: Option<StateTypeRemoved>)
        ensures
            final(self)@ == old(self)@.remove(id@),
            removed is Some == old(self)@.contains_key(id@),
            removed matches Some(event) ==> event.state_type == id,
            old(self).wf() ==> final(self).wf(),
    {
        match map_remove(&mut self.map, id.bits) {
            Some(_) => Some(StateTypeRemoved { state_type: id }),
            None => None,
        }
    }
}

/// A rename is stored when the new name is not empty and differs from the current one.
pub open spec fn rename_takes_effect(current: Seq<char>, new_name: Seq<char>) -> bool {
    new_name.len() > 0 && new_name != current
}

/// A rename settles: once a name is stored, asking for the same name again
/// stores nothing and announces nothing, so a notice that is fed back into
/// the registry does not breed further notices.
pub proof fn lemma_rename_settles(entry: StateTypeView, name: Seq<char>)
    ensures
        !rename_takes_effect(renamed(entry, name).name, name),
{
}

/// An empty name never replaces the stored name.
pub proof fn lemma_empty_name_is_not_stored(current: Seq<char>)
    ensures
        !rename_takes_effect(current, Seq::<char>::empty()),
{
}

} // verus!
