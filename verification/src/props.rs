//! Keys and properties that widgets resolve against the application state.
use vstd::prelude::*;

verus! {

/// Key to look up dynamic properties.
#[derive(Copy, Clone, Debug, PartialEq, Eq, Hash, Structural)]
pub struct PropKey {
    value: u32,
}

/// Makes the property key with the given value.
#[allow(non_snake_case)]
pub fn PropKey(value: u32) -> (r: PropKey)
    ensures
        r == PropKey::spec_new(value),
{
    PropKey { value }
}

impl PropKey {
    /// The key with the given value.
    pub closed spec fn spec_new(value: u32) -> PropKey {
        PropKey { value }
    }

    /// The underlying value of the key.
    pub proof fn lemma_new_value(value: u32)
        ensures
            PropKey::spec_new(value).spec_value() == value,
    {
    }

    /// The underlying value of the key.
    pub closed spec fn spec_value(self) -> u32 {
        self.value
    }

    /// Returns the underlying value of the key.
    pub fn value(&self) -> (r: u32)
        ensures
            r == self.spec_value(),
    {
        self.value
    }

    /// Keys with the same value are the same key.
    pub proof fn lemma_value_identifies(a: PropKey, b: PropKey)
        requires
            a.spec_value() == b.spec_value(),
        ensures
            a == b,
    {
    }
}

/// Key to look up resources.
#[derive(Copy, Clone, Debug, PartialEq, Eq, Hash, Structural)]
pub struct ResourceKey {
    value: u32,
}

/// Makes the resource key with the given value.
#[allow(non_snake_case)]
pub fn ResourceKey(value: u32) -> (r: ResourceKey)
    ensures
        r.spec_value() == value,
{
    ResourceKey { value }
}

impl ResourceKey {
    /// The underlying value of the key.
    pub closed spec fn spec_value(self) -> u32 {
        self.value
    }

    /// Returns the underlying value of the key.
    pub fn value(&self) -> (r: u32)
        ensures
            r == self.spec_value(),
    {
        self.value
    }
}

/// Resource key of the font used by the system widgets.
pub fn font_key() -> (r: ResourceKey)
    ensures
        r.spec_value() == 0,
{
    ResourceKey(0)
}

/// Resource key of the flat-colour shader used by the system widgets.
pub fn color_shader_key() -> (r: ResourceKey)
    ensures
        r.spec_value() == 1,
{
    ResourceKey(1)
}

/// Property storing a basic value.
#[derive(Copy, Clone, Debug, PartialEq, Eq)]
pub enum Property<T> {
    /// Resolves the value from the application state under this key.
    Key(PropKey),
    /// Stores the value directly on the widget.
    Value(T),
}

impl<T: Copy> Property<T> {
    /// The value of the property, given what the application state holds under its
    /// key (`looked_up`; it is only read for a [`Property::Key`]).
    pub open spec fn resolved(self, looked_up: Option<T>) -> Option<T> {
        match self {
            Property::Key(_) => looked_up,
            Property::Value(v) => Some(v),
        }
    }

    /// The key the application state must be asked for, if any.
    pub fn key(&self) -> (r: Option<PropKey>)
        ensures
            r == match *self {
                Property::Key(k) => Some(k),
                Property::Value(_) => None::<PropKey>,
            },
    {
        match self {
            Property::Key(k) => Some(*k),
            Property::Value(_) => None,
        }
    }

    /// Resolves the property by copying the value.
    pub fn copied(&self, looked_up: Option<T>) -> (r: Option<T>)
        ensures
            r == self.resolved(looked_up),
    {
        match self {
            Property::Key(_) => looked_up,
            Property::Value(v) => Some(*v),
        }
    }

    /// Resolves the property by copying the value, or returns `default` if unavailable.
    pub fn copied_or(&self, looked_up: Option<T>, default: T) -> (r: T)
        ensures
            r == match self.resolved(looked_up) {
                Some(v) => v,
                None => default,
            },
    {
        match self.copied(looked_up) {
            Some(v) => v,
            None => default,
        }
    }
}

/// Property storing an owned or static string.
#[derive(Clone, Debug, PartialEq, Eq)]
pub enum OwnedProp {
    /// Resolves the value from the application state under this key.
    Key(PropKey),
    /// Uses a static value.
    Static(&'static str),
    /// Owns the value.
    Owned(String),
}

/// Property storing a string value.
pub type StringProperty = OwnedProp;

impl OwnedProp {
    /// The key the application state must be asked for, if any.
    pub fn key(&self) -> (r: Option<PropKey>)
        ensures
            r == match *self {
                OwnedProp::Key(k) => Some(k),
                _ => None::<PropKey>,
            },
    {
        match self {
            OwnedProp::Key(k) => Some(*k),
            _ => None,
        }
    }

    /// The text held directly by the property, if it is not looked up by key.
    pub fn text(&self) -> (r: Option<&str>)
        ensures
            match *self {
                OwnedProp::Key(_) => r is None,
                OwnedProp::Static(s) => r == Some(s),
                OwnedProp::Owned(s) => r matches Some(t) && t@ == s@,
            },
    {
        match self {
            OwnedProp::Key(_) => None,
            OwnedProp::Static(s) => Some(*s),
            OwnedProp::Owned(s) => Some(s.as_str()),
        }
    }
}

} // verus!
