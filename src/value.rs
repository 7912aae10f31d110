use vstd::prelude::*;
use vstd::string::StringExecFns;

verus! {

/// The kind of a [`Value`], without its data.
#[derive(Clone, Copy, PartialEq, Eq, Structural, Debug)]
pub enum ValueKind {
    Null,
    Boolean,
    Integer,
    NegativeInteger,
    Float,
    String,
    Sequence,
    Object,
}

/// A node of parsed but untyped data.
///
/// A float is carried as its IEEE 754 binary64 bit pattern. A map is a list of
/// entries, in the order in which its source yields them; where two entries
/// share a key, readers say which one counts.
#[derive(Debug)]
pub enum Value {
    Null,
    Boolean(bool),
    Integer(u64),
    NegativeInteger(i64),
    Float(u64),
    String(String),
    Sequence(Vec<Value>),
    Object(Vec<(String, Value)>),
}

pub open spec fn kind_of(v: Value) -> ValueKind {
    match v {
        Value::Null => ValueKind::Null,
        Value::Boolean(_) => ValueKind::Boolean,
        Value::Integer(_) => ValueKind::Integer,
        Value::NegativeInteger(_) => ValueKind::NegativeInteger,
        Value::Float(_) => ValueKind::Float,
        Value::String(_) => ValueKind::String,
        Value::Sequence(_) => ValueKind::Sequence,
        Value::Object(_) => ValueKind::Object,
    }
}

/// The name of a value kind.
pub open spec fn kind_name(k: ValueKind) -> Seq<char> {
    match k {
        ValueKind::Null => "Null"@,
        ValueKind::Boolean => "Boolean"@,
        ValueKind::Integer => "Integer"@,
        ValueKind::NegativeInteger => "NegativeInteger"@,
        ValueKind::Float => "Float"@,
        ValueKind::String => "String"@,
        ValueKind::Sequence => "Sequence"@,
        ValueKind::Object => "Object"@,
    }
}

impl ValueKind {
    /// The name of this kind, as in `NegativeInteger`.
    pub fn name(&self) -> (r: &'static str)
        ensures
            r@ == kind_name(*self),
    {
        match self {
            ValueKind::Null => "Null",
            ValueKind::Boolean => "Boolean",
            ValueKind::Integer => "Integer",
            ValueKind::NegativeInteger => "NegativeInteger",
            ValueKind::Float => "Float",
            ValueKind::String => "String",
            ValueKind::Sequence => "Sequence",
            ValueKind::Object => "Object",
        }
    }
}

/// The keys of a list of map entries, in order.
pub open spec fn entry_keys(entries: Seq<(String, Value)>) -> Seq<Seq<char>> {
    entries.map_values(|e: (String, Value)| e.0@)
}

/// Index of the first entry whose key is `key`, if any.
pub open spec fn find_key(entries: Seq<(String, Value)>, key: Seq<char>) -> Option<int>
    decreases entries.len(),
{
    if entries.len() == 0 {
        None
    } else if entries.last().0@ == key {
        match find_key(entries.drop_last(), key) {
            Some(i) => Some(i),
            None => Some(entries.len() - 1),
        }
    } else {
        find_key(entries.drop_last(), key)
    }
}

impl Value {
    pub fn kind(&self) -> (r: ValueKind)
        ensures
            r == kind_of(*self),
    {
        match self {
            Value::Null => ValueKind::Null,
            Value::Boolean(_) => ValueKind::Boolean,
            Value::Integer(_) => ValueKind::Integer,
            Value::NegativeInteger(_) => ValueKind::NegativeInteger,
            Value::Float(_) => ValueKind::Float,
            Value::String(_) => ValueKind::String,
            Value::Sequence(_) => ValueKind::Sequence,
            Value::Object(_) => ValueKind::Object,
        }
    }
}


/// One step of a path within a value, as a mathematical object.
pub enum PathStep {
    Key(Seq<char>),
    Index(nat),
}

/// The last key on a path, if it holds one.
pub open spec fn last_key(path: Seq<PathStep>) -> Option<Seq<char>>
    decreases path.len(),
{
    if path.len() == 0 {
        None
    } else {
        match path.last() {
            PathStep::Key(k) => Some(k),
            PathStep::Index(_) => last_key(path.drop_last()),
        }
    }
}

/// A location within a [`Value`]: the steps that lead from the root to a
/// sub-value.
///
/// It is an immutable chain that borrows its predecessor, so extending it
/// costs no allocation and leaves the shorter chain untouched. Use
/// [`ValuePointerRef::to_owned`] to keep a location beyond the current call.
#[derive(Clone, Copy)]
pub enum ValuePointerRef<'a> {
    Origin,
    Key { key: &'a str, prev: &'a ValuePointerRef<'a> },
    Index { index: usize, prev: &'a ValuePointerRef<'a> },
}

impl<'a> ValuePointerRef<'a> {
    /// The steps from the root to this location.
    pub open spec fn path(&self) -> Seq<PathStep>
        decreases self,
    {
        match *self {
            ValuePointerRef::Origin => Seq::empty(),
            ValuePointerRef::Key { key, prev } => prev.path().push(PathStep::Key(key@)),
            ValuePointerRef::Index { index, prev } => prev.path().push(
                PathStep::Index(index as nat),
            ),
        }
    }

    /// Extend `self` so that it points to the sub-value at `key`.
    pub fn push_key(&'a self, key: &'a str) -> (r: ValuePointerRef<'a>)
        ensures
            r.path() == self.path().push(PathStep::Key(key@)),
    {
        ValuePointerRef::Key { key, prev: self }
    }

    /// Extend `self` so that it points to the sub-value at `index`.
    pub fn push_index(&'a self, index: usize) -> (r: ValuePointerRef<'a>)
        ensures
            r.path() == self.path().push(PathStep::Index(index as nat)),
    {
        ValuePointerRef::Index { index, prev: self }
    }

    /// Whether this is the root location.
    pub fn is_origin(&self) -> (r: bool)
        ensures
            r == (self.path().len() == 0),
    {
        match self {
            ValuePointerRef::Origin => true,
            _ => false,
        }
    }

    /// The last key on the path, if there is one.
    pub fn last_field(&self) -> (r: Option<&str>)
        ensures
            match r {
                Some(k) => last_key(self.path()) == Some(k@),
                None => last_key(self.path()) is None,
            },
        decreases self,
    {
        match self {
            ValuePointerRef::Origin => None,
            ValuePointerRef::Key { key, .. } => Some(key),
            ValuePointerRef::Index { prev, .. } => {
                proof {
                    assert(self.path().drop_last() =~= prev.path());
                }
                prev.last_field()
            },
        }
    }

    /// The owned form of this location, its steps from root to leaf.
    pub fn to_owned(&self) -> (r: ValuePointer)
        ensures
            r.steps() == self.path(),
        decreases self,
    {
        match self {
            ValuePointerRef::Origin => ValuePointer { path: Vec::new() },
            ValuePointerRef::Key { key, prev } => {
                let mut owned = ValuePointerRef::to_owned(*prev);
                let k = String::from_str(key);
                owned.path.push(ValuePointerComponent::Key(k));
                proof {
                    assert(owned.steps() =~= self.path());
                }
                owned
            },
            ValuePointerRef::Index { index, prev } => {
                let mut owned = ValuePointerRef::to_owned(*prev);
                owned.path.push(ValuePointerComponent::Index(*index));
                proof {
                    assert(owned.steps() =~= self.path());
                }
                owned
            },
        }
    }
}

impl<'a> Default for ValuePointerRef<'a> {
    fn default() -> (r: ValuePointerRef<'a>)
        ensures
            r.path().len() == 0,
    {
        ValuePointerRef::Origin
    }
}

/// One step of a [`ValuePointer`].
#[derive(Clone, Debug, PartialEq, Eq)]
pub enum ValuePointerComponent {
    Key(String),
    Index(usize),
}

impl ValuePointerComponent {
    pub open spec fn step(self) -> PathStep {
        match self {
            ValuePointerComponent::Key(k) => PathStep::Key(k@),
            ValuePointerComponent::Index(i) => PathStep::Index(i as nat),
        }
    }
}

/// The owned form of a [`ValuePointerRef`].
#[derive(Clone, Debug, PartialEq, Eq)]
pub struct ValuePointer {
    pub path: Vec<ValuePointerComponent>,
}

impl ValuePointer {
    pub open spec fn steps(self) -> Seq<PathStep> {
        self.path@.map_values(|c: ValuePointerComponent| c.step())
    }
}

} // verus!
