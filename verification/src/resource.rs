use vstd::prelude::*;
use std::collections::HashMap;
use crate::value::Value;

verus! {

broadcast use vstd::std_specs::hash::group_hash_axioms;

/// Error returned when a resource of an already-registered type is pushed a
/// second time.  Registration simply does not occur; the registry is left
/// unchanged and the passed-in value is dropped.
#[derive(Debug, PartialEq, Eq, Structural)]
pub struct DuplicateResource;

/// The capability a type needs so the registry and the entity store can hold
/// it: a stable type key, and an encoding into the dynamic [`Value`]
/// representation whose decode provably undoes it.
///
/// The key plays the role of a runtime type identity.  Keys are chosen by the
/// implementor; two distinct implementing types must choose distinct keys,
/// exactly as distinct types never share a runtime type identifier.
pub trait Resource: Sized {
    /// The type key, as a specification-level constant.
    spec fn type_key_spec() -> u64;

    /// What the encoding of `self` is.
    spec fn to_value_spec(self) -> Value;

    /// What decoding yields on an arbitrary dynamic value; `None` on a value
    /// that no `self` encodes to.
    spec fn from_value_spec(v: Value) -> Option<Self>;

    /// The type key.
    fn type_key() -> (k: u64)
        ensures
            k == Self::type_key_spec(),
    ;

    /// Encode `self` as a dynamic value.
    fn to_value(self) -> (v: Value)
        ensures
            v == self.to_value_spec(),
    ;

    /// Decode a dynamic value; the inverse of [`Resource::to_value`].
    fn from_value(v: &Value) -> (r: Option<Self>)
        ensures
            r == Self::from_value_spec(*v),
    ;

    /// Decoding recovers exactly the encoded value: the "downcast" of a value
    /// stored under this type's key cannot fail, by construction.
    proof fn lemma_round_trip(self)
        ensures
            Self::from_value_spec(self.to_value_spec()) == Some(self),
    ;
}

/// A shared-read handle to a resource: a snapshot taken from the registry at
/// extraction time.
pub struct Res<T> {
    pub value: T,
}

impl<T> View for Res<T> {
    type V = T;

    open spec fn view(&self) -> T {
        self.value
    }
}

impl<T> Res<T> {
    /// Wrap a value in a shared handle.
    pub fn new(value: T) -> (r: Res<T>)
        ensures
            r@ == value,
    {
        Res { value }
    }

    /// Read the held value.
    pub fn get(&self) -> (r: &T)
        ensures
            *r == self@,
    {
        &self.value
    }
}

/// An exclusive, mutable handle to a resource.
///
/// While the handle is live the resource is absent from the registry, so a
/// second exclusive handle to the same type cannot be obtained: the
/// "no two live exclusive handles" rule is enforced by the registry state
/// itself rather than left as a calling convention.  Releasing the handle
/// (see [`ResManager::release`]) stores the current — possibly mutated —
/// value back.
pub struct ResMut<T> {
    pub value: T,
}

impl<T> View for ResMut<T> {
    type V = T;

    open spec fn view(&self) -> T {
        self.value
    }
}

impl<T> ResMut<T> {
    /// Wrap a value in an exclusive handle.
    pub fn new(value: T) -> (r: ResMut<T>)
        ensures
            r@ == value,
    {
        ResMut { value }
    }

    /// Read the held value.
    pub fn get(&self) -> (r: &T)
        ensures
            *r == self@,
    {
        &self.value
    }

    /// Replace the held value.
    pub fn set(&mut self, value: T)
        ensures
            final(self)@ == value,
    {
        self.value = value;
    }

    /// Unwrap the handle.
    pub fn into_inner(self) -> (r: T)
        ensures
            r == self@,
    {
        self.value
    }
}

/// The resource registry: a type-keyed store of process-wide singletons.
///
/// At most one value per type key is ever held; registering a key twice is
/// refused, never silently overwritten.
pub struct ResManager {
    resources: HashMap<u64, Value>,
}

impl View for ResManager {
    type V = Map<u64, Value>;

    closed spec fn view(&self) -> Map<u64, Value> {
        self.resources@
    }
}

impl ResManager {
    /// An empty registry.
    pub fn new() -> (r: ResManager)
        ensures
            r@ == Map::<u64, Value>::empty(),
    {
        ResManager { resources: HashMap::new() }
    }

    /// Whether a resource of type `T` is currently stored.
    pub fn contains<T: Resource>(&self) -> (b: bool)
        ensures
            b == self@.contains_key(T::type_key_spec()),
    {
        let key = T::type_key();
        self.resources.contains_key(&key)
    }

    /// Register a resource.  Fails with [`DuplicateResource`] — leaving the
    /// registry unchanged — exactly when a value of the same type identity is
    /// already stored.
    pub fn push_res<T: Resource>(&mut self, it: T) -> (r: Result<(), DuplicateResource>)
        ensures
            old(self)@.contains_key(T::type_key_spec()) ==> r is Err && final(self)@ == old(self)@,
            !old(self)@.contains_key(T::type_key_spec()) ==> r is Ok && final(self)@ == old(self)@.insert(
                T::type_key_spec(),
                it.to_value_spec(),
            ),
    {
        let key = T::type_key();
        if self.resources.contains_key(&key) {
            Err(DuplicateResource)
        } else {
            self.resources.insert(key, it.to_value());
            Ok(())
        }
    }

    /// Shared read access: a snapshot of the stored `T`, or `None` exactly
    /// when no `T` is registered.  Absence is a normal outcome, not an error.
    pub fn get_res<T: Resource>(&self) -> (r: Option<Res<T>>)
        ensures
            match r {
                Some(h) => self@.contains_key(T::type_key_spec()) && T::from_value_spec(
                    self@[T::type_key_spec()],
                ) == Some(h@),
                None => !self@.contains_key(T::type_key_spec()) || T::from_value_spec(
                    self@[T::type_key_spec()],
                ) is None,
            },
    {
        let key = T::type_key();
        match self.resources.get(&key) {
            None => None,
            Some(v) => match T::from_value(v) {
                None => None,
                Some(t) => Some(Res::new(t)),
            },
        }
    }

    /// Exclusive access: takes the stored `T` out of the registry and hands
    /// it over as a mutable handle, or returns `None` — with the registry
    /// unchanged — exactly when no `T` is registered.  Pair with
    /// [`ResManager::release`] to store the mutated value back.
    pub fn get_res_mut<T: Resource>(&mut self) -> (r: Option<ResMut<T>>)
        ensures
            match r {
                Some(h) => {
                    &&& old(self)@.contains_key(T::type_key_spec())
                    &&& T::from_value_spec(old(self)@[T::type_key_spec()]) == Some(h@)
                    &&& final(self)@ == old(self)@.remove(T::type_key_spec())
                },
                None => {
                    &&& (!old(self)@.contains_key(T::type_key_spec()) || T::from_value_spec(
                        old(self)@[T::type_key_spec()],
                    ) is None)
                    &&& final(self)@ == old(self)@
                },
            },
    {
        let key = T::type_key();
        let decodable = match self.resources.get(&key) {
            None => false,
            Some(v) => T::from_value(v).is_some(),
        };
        if !decodable {
            return None;
        }
        match self.resources.remove(&key) {
            Some(v) => match T::from_value(&v) {
                Some(t) => Some(ResMut::new(t)),
                None => {
                    proof {
                        assert(false);
                    }
                    None
                },
            },
            None => {
                proof {
                    assert(false);
                }
                None
            },
        }
    }

    /// Read the raw dynamic value stored under a type key, if any.
    pub fn get_raw(&self, key: u64) -> (r: Option<&Value>)
        ensures
            match r {
                Some(v) => self@.contains_key(key) && *v == self@[key],
                None => !self@.contains_key(key),
            },
    {
        self.resources.get(&key)
    }

    /// Store a raw dynamic value under a type key, replacing any previous
    /// one: the setup-time escape hatch scripted systems interpret with.
    pub fn put_raw(&mut self, key: u64, value: Value)
        ensures
            final(self)@ == old(self)@.insert(key, value),
    {
        self.resources.insert(key, value);
    }

    /// Release an exclusive handle: store its current value back under the
    /// type's key.
    pub fn release<T: Resource>(&mut self, handle: ResMut<T>)
        ensures
            final(self)@ == old(self)@.insert(T::type_key_spec(), handle@.to_value_spec()),
    {
        let key = T::type_key();
        let value = handle.into_inner().to_value();
        self.resources.insert(key, value);
    }
}

/// Uniqueness: once a `T` has been registered into a registry state without
/// one, its key is occupied — so a second registration of the same type is
/// refused by [`ResManager::push_res`] — and a shared read still decodes
/// exactly the first value, unchanged.
pub proof fn lemma_register_unique<T: Resource>(m0: Map<u64, Value>, v1: T)
    requires
        !m0.contains_key(T::type_key_spec()),
    ensures
        m0.insert(T::type_key_spec(), v1.to_value_spec()).contains_key(T::type_key_spec()),
        T::from_value_spec(
            m0.insert(T::type_key_spec(), v1.to_value_spec())[T::type_key_spec()],
        ) == Some(v1),
{
    v1.lemma_round_trip();
}

/// Mutation visibility: after taking the exclusive handle to `T` out of the
/// registry, mutating it, and releasing it, a shared read observes exactly
/// the new value.
pub proof fn lemma_mutation_visible<T: Resource>(m0: Map<u64, Value>, new_val: T)
    ensures
        T::from_value_spec(
            m0.remove(T::type_key_spec()).insert(
                T::type_key_spec(),
                new_val.to_value_spec(),
            )[T::type_key_spec()],
        ) == Some(new_val),
{
    new_val.lemma_round_trip();
}

impl Resource for i32 {
    open spec fn type_key_spec() -> u64 {
        1
    }

    open spec fn to_value_spec(self) -> Value {
        Value::I64(self as i64)
    }

    open spec fn from_value_spec(v: Value) -> Option<i32> {
        match v {
            Value::I64(x) => if i32::MIN <= x <= i32::MAX {
                Some(x as i32)
            } else {
                None
            },
            _ => None,
        }
    }

    fn type_key() -> u64 {
        1
    }

    fn to_value(self) -> Value {
        Value::I64(self as i64)
    }

    fn from_value(v: &Value) -> Option<i32> {
        match v {
            Value::I64(x) => if i32::MIN as i64 <= *x && *x <= i32::MAX as i64 {
                Some(*x as i32)
            } else {
                None
            },
            _ => None,
        }
    }

    proof fn lemma_round_trip(self) {
    }
}

impl Resource for i64 {
    open spec fn type_key_spec() -> u64 {
        2
    }

    open spec fn to_value_spec(self) -> Value {
        Value::I64(self)
    }

    open spec fn from_value_spec(v: Value) -> Option<i64> {
        match v {
            Value::I64(x) => Some(x),
            _ => None,
        }
    }

    fn type_key() -> u64 {
        2
    }

    fn to_value(self) -> Value {
        Value::I64(self)
    }

    fn from_value(v: &Value) -> Option<i64> {
        match v {
            Value::I64(x) => Some(*x),
            _ => None,
        }
    }

    proof fn lemma_round_trip(self) {
    }
}

impl Resource for u64 {
    open spec fn type_key_spec() -> u64 {
        3
    }

    open spec fn to_value_spec(self) -> Value {
        Value::U64(self)
    }

    open spec fn from_value_spec(v: Value) -> Option<u64> {
        match v {
            Value::U64(x) => Some(x),
            _ => None,
        }
    }

    fn type_key() -> u64 {
        3
    }

    fn to_value(self) -> Value {
        Value::U64(self)
    }

    fn from_value(v: &Value) -> Option<u64> {
        match v {
            Value::U64(x) => Some(*x),
            _ => None,
        }
    }

    proof fn lemma_round_trip(self) {
    }
}

impl Resource for bool {
    open spec fn type_key_spec() -> u64 {
        4
    }

    open spec fn to_value_spec(self) -> Value {
        Value::Bool(self)
    }

    open spec fn from_value_spec(v: Value) -> Option<bool> {
        match v {
            Value::Bool(b) => Some(b),
            _ => None,
        }
    }

    fn type_key() -> u64 {
        4
    }

    fn to_value(self) -> Value {
        Value::Bool(self)
    }

    fn from_value(v: &Value) -> Option<bool> {
        match v {
            Value::Bool(b) => Some(*b),
            _ => None,
        }
    }

    proof fn lemma_round_trip(self) {
    }
}

impl Resource for String {
    open spec fn type_key_spec() -> u64 {
        5
    }

    open spec fn to_value_spec(self) -> Value {
        Value::Text(self)
    }

    open spec fn from_value_spec(v: Value) -> Option<String> {
        match v {
            Value::Text(s) => Some(s),
            _ => None,
        }
    }

    fn type_key() -> u64 {
        5
    }

    fn to_value(self) -> Value {
        Value::Text(self)
    }

    fn from_value(v: &Value) -> Option<String> {
        match v {
            Value::Text(s) => Some(s.clone()),
            _ => None,
        }
    }

    proof fn lemma_round_trip(self) {
    }
}

} // verus!
