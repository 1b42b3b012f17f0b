//! What recipes read out of parsed documents.
//!
//! Parsing is done outside; a document arrives here as a tree of plain
//! values. Structured data (JSON, TOML) is a tree of `DataNode`s; XML is a
//! tree of `XmlNode`s that is walked by element name.

use crate::text::{append_str, from_chars, opt_view, str_eq};
use crate::textmap::{spec_get, TextMap};
use vstd::prelude::*;
use vstd::string::StringSliceAdditionalSpecFns;

verus! {

/// A value of structured data.
#[derive(Debug)]
pub enum DataValue {
    Null,
    Bool(bool),
    /// A number, in the notation of the document.
    Number(String),
    Text(String),
    Array(Vec<DataNode>),
    /// The members of an object, in the order of the document; no key
    /// occurs twice.
    Object(Vec<(String, DataNode)>),
}

/// A node of structured data: the value, and the value in the notation of
/// the document.
#[derive(Debug)]
pub struct DataNode {
    pub value: DataValue,
    pub rendered: String,
}

/// The position of the first member called `key`.
pub open spec fn spec_member(members: Seq<(String, DataNode)>, key: Seq<char>) -> Option<int> {
    if exists|i: int| 0 <= i < members.len() && (#[trigger] members[i]).0@ == key {
        Some(
            choose|i: int|
                0 <= i < members.len() && (#[trigger] members[i]).0@ == key && forall|j: int|
                    0 <= j < i ==> (#[trigger] members[j]).0@ != key,
        )
    } else {
        None
    }
}

/// The text of a node: a text as it is, a number in its notation, a truth
/// value as `true` or `false`, anything else in the notation of the
/// document.
pub open spec fn spec_node_text(n: DataNode) -> Seq<char> {
    match n.value {
        DataValue::Text(s) => s@,
        DataValue::Number(r) => r@,
        DataValue::Bool(b) => if b {
            "true"@
        } else {
            "false"@
        },
        _ => n.rendered@,
    }
}

/// The text of a member: a text as it is, anything else in the notation of
/// the document.
pub open spec fn spec_member_text(n: DataNode) -> Seq<char> {
    match n.value {
        DataValue::Text(s) => s@,
        _ => n.rendered@,
    }
}

/// The length of a node: the number of elements of an array, of members
/// of an object, of bytes of a text; zero for anything else.
pub open spec fn spec_node_length(n: DataNode) -> int {
    match n.value {
        DataValue::Array(a) => a@.len() as int,
        DataValue::Object(m) => m@.len() as int,
        DataValue::Text(s) => (vstd::utf8::encode_utf8(s@).len() as usize) as int,
        _ => 0,
    }
}

/// What to step into a node with.
#[derive(Debug, Clone)]
pub enum DataIndex {
    Position(i32),
    Key(String),
}

/// Why a node cannot be stepped into.
#[derive(Debug, Clone, Copy, PartialEq, Eq, Structural)]
pub enum DataError {
    /// The node is neither an array nor an object.
    NotIndexable,
    /// An array is stepped into with a key, or an object with a position.
    WrongIndex,
    /// The position is outside the array.
    OutOfBounds,
    /// The object has no member of that key.
    KeyNotFound,
    /// The node is neither an array nor an object.
    NotIterable,
    /// The path query does not parse.
    InvalidQuery,
    /// The notation of the node cannot be read back as a document.
    Unreadable,
}

/// The document that an empty text stands for: an object without
/// members. Any other text has to be parsed.
pub fn blank_document(content: &str) -> (r: Option<DataNode>)
    ensures
        (r is Some) == (content@.len() == 0),
        r matches Some(n) ==> n.rendered@ == "{}"@ && (n.value matches DataValue::Object(m)
            && m@.len() == 0),
{
    if content.unicode_len() == 0 {
        Some(DataNode { value: DataValue::Object(Vec::new()), rendered: String::from_str("{}") })
    } else {
        None
    }
}

impl DataNode {
    fn find_member<'a>(members: &'a Vec<(String, DataNode)>, key: &str) -> (r: Option<usize>)
        ensures
            match r {
                Some(i) => i < members.len() && spec_member(members@, key@) == Some(i as int)
                    && members@[i as int].0@ == key@,
                None => spec_member(members@, key@) is None,
            },
    {
        let mut i: usize = 0;
        while i < members.len()
            invariant
                i <= members.len(),
                forall|j: int| 0 <= j < i ==> (#[trigger] members@[j]).0@ != key@,
            decreases members.len() - i,
        {
            if str_eq(members[i].0.as_str(), key) {
                return Some(i);
            }
            i += 1;
        }
        None
    }

    /// The member `key` of an object; `None` when the node is no object or
    /// has no such member.
    pub fn get(&self, key: &str) -> (r: Option<&DataNode>)
        ensures
            match self.value {
                DataValue::Object(m) => match spec_member(m@, key@) {
                    Some(i) => r == Some(&m@[i].1),
                    None => r is None,
                },
                _ => r is None,
            },
    {
        match &self.value {
            DataValue::Object(m) => match Self::find_member(m, key) {
                Some(i) => Some(&m[i].1),
                None => None,
            },
            _ => None,
        }
    }

    /// The text of the member `name` of an object.
    pub fn attribute(&self, name: &str) -> (r: Option<String>)
        ensures
            match self.value {
                DataValue::Object(m) => match spec_member(m@, name@) {
                    Some(i) => opt_view(r) == Some(spec_member_text(m@[i].1)),
                    None => r is None,
                },
                _ => r is None,
            },
    {
        match self.get(name) {
            Some(n) => match &n.value {
                DataValue::Text(s) => Some(s.clone()),
                _ => Some(n.rendered.clone()),
            },
            None => None,
        }
    }

    /// The text of the node.
    pub fn text(&self) -> (r: String)
        ensures
            r@ == spec_node_text(*self),
    {
        match &self.value {
            DataValue::Text(s) => s.clone(),
            DataValue::Number(n) => n.clone(),
            DataValue::Bool(b) => if *b {
                String::from_str("true")
            } else {
                String::from_str("false")
            },
            _ => self.rendered.clone(),
        }
    }

    /// The length of the node.
    pub fn length(&self) -> (r: usize)
        ensures
            r == spec_node_length(*self),
    {
        match &self.value {
            DataValue::Array(a) => a.len(),
            DataValue::Object(m) => m.len(),
            DataValue::Text(s) => s.as_str().len(),
            _ => 0,
        }
    }

    /// Steps into the node: into an array with a position, into an object
    /// with a key.
    pub fn at(&self, index: &DataIndex) -> (r: Result<&DataNode, DataError>)
        ensures
            match (self.value, *index) {
                (DataValue::Array(a), DataIndex::Position(i)) => if 0 <= i < a@.len() {
                    r == Ok::<&DataNode, DataError>(&a@[i as int])
                } else {
                    r == Err::<&DataNode, DataError>(DataError::OutOfBounds)
                },
                (DataValue::Array(a), DataIndex::Key(_)) => r == Err::<&DataNode, DataError>(
                    DataError::WrongIndex,
                ),
                (DataValue::Object(m), DataIndex::Key(k)) => match spec_member(m@, k@) {
                    Some(i) => r == Ok::<&DataNode, DataError>(&m@[i].1),
                    None => r == Err::<&DataNode, DataError>(DataError::KeyNotFound),
                },
                (DataValue::Object(m), DataIndex::Position(_)) => r == Err::<&DataNode, DataError>(
                    DataError::WrongIndex,
                ),
                _ => r == Err::<&DataNode, DataError>(DataError::NotIndexable),
            },
    {
        match &self.value {
            DataValue::Array(a) => match index {
                DataIndex::Position(i) => {
                    if *i < 0 {
                        return Err(DataError::OutOfBounds);
                    }
                    let p: usize = *i as usize;
                    if p >= a.len() {
                        Err(DataError::OutOfBounds)
                    } else {
                        Ok(&a[p])
                    }
                },
                DataIndex::Key(_) => Err(DataError::WrongIndex),
            },
            DataValue::Object(m) => match index {
                DataIndex::Key(k) => match Self::find_member(m, k.as_str()) {
                    Some(i) => Ok(&m[i].1),
                    None => Err(DataError::KeyNotFound),
                },
                DataIndex::Position(_) => Err(DataError::WrongIndex),
            },
            _ => Err(DataError::NotIndexable),
        }
    }

    /// The keys of an object, in the order of the document.
    pub fn keys(&self) -> (r: Result<Vec<String>, DataError>)
        ensures
            match self.value {
                DataValue::Object(m) => r is Ok && r.unwrap().len() == m@.len() && forall|i: int|
                    0 <= i < m@.len() ==> (#[trigger] r.unwrap()@[i])@ == m@[i].0@,
                _ => r == Err::<Vec<String>, DataError>(DataError::NotIterable),
            },
    {
        match &self.value {
            DataValue::Object(m) => {
                let mut out: Vec<String> = Vec::new();
                let mut i: usize = 0;
                while i < m.len()
                    invariant
                        i <= m.len(),
                        out.len() == i,
                        forall|j: int| 0 <= j < i ==> (#[trigger] out@[j])@ == m@[j].0@,
                    decreases m.len() - i,
                {
                    out.push(m[i].0.clone());
                    i += 1;
                }
                Ok(out)
            },
            _ => Err(DataError::NotIterable),
        }
    }

    /// The elements of an array, in order.
    pub fn elements(&self) -> (r: Result<Vec<&DataNode>, DataError>)
        ensures
            match self.value {
                DataValue::Array(a) => r is Ok && r.unwrap().len() == a@.len() && forall|i: int|
                    0 <= i < a@.len() ==> *(#[trigger] r.unwrap()@[i]) == a@[i],
                _ => r == Err::<Vec<&DataNode>, DataError>(DataError::NotIterable),
            },
    {
        match &self.value {
            DataValue::Array(a) => {
                let mut out: Vec<&DataNode> = Vec::new();
                let mut i: usize = 0;
                while i < a.len()
                    invariant
                        i <= a.len(),
                        out.len() == i,
                        forall|j: int| 0 <= j < i ==> *(#[trigger] out@[j]) == a@[j],
                    decreases a.len() - i,
                {
                    out.push(&a[i]);
                    i += 1;
                }
                Ok(out)
            },
            _ => Err(DataError::NotIterable),
        }
    }

    /// What going through the node gives: the elements of an array, the
    /// keys of an object. Anything else cannot be gone through.
    pub fn iterate(&self) -> (r: Result<Iterated<'_>, DataError>)
        ensures
            match self.value {
                DataValue::Array(a) => r matches Ok(Iterated::Elements(v)) && v@.len() == a@.len()
                    && forall|i: int| 0 <= i < a@.len() ==> *(#[trigger] v@[i]) == a@[i],
                DataValue::Object(m) => r matches Ok(Iterated::Keys(k)) && k@.len() == m@.len()
                    && forall|i: int| 0 <= i < m@.len() ==> (#[trigger] k@[i])@ == m@[i].0@,
                _ => r matches Err(e) && e == DataError::NotIterable,
            },
    {
        match &self.value {
            DataValue::Array(_) => match self.elements() {
                Ok(v) => Ok(Iterated::Elements(v)),
                Err(e) => Err(e),
            },
            _ => match self.keys() {
                Ok(k) => Ok(Iterated::Keys(k)),
                Err(e) => Err(e),
            },
        }
    }
}

/// What going through a node of structured data gives.
#[derive(Debug)]
pub enum Iterated<'a> {
    /// The elements of an array.
    Elements(Vec<&'a DataNode>),
    /// The keys of an object.
    Keys(Vec<String>),
}

/// What an XML element holds.
#[derive(Debug)]
pub enum XmlChild {
    Element(XmlNode),
    /// Text or character data.
    Text(String),
    /// A comment or a processing instruction.
    Other,
}

/// An XML element.
#[derive(Debug)]
pub struct XmlNode {
    /// The name of the element, without a name space.
    pub name: String,
    pub attributes: TextMap,
    pub children: Vec<XmlChild>,
}

/// The child elements called `name`, in order.
pub open spec fn spec_named_children(children: Seq<XmlChild>, name: Seq<char>) -> Seq<XmlNode>
    decreases children.len(),
{
    if children.len() == 0 {
        Seq::empty()
    } else {
        let before = spec_named_children(children.drop_last(), name);
        match children.last() {
            XmlChild::Element(e) => if e.name@ == name {
                before.push(e)
            } else {
                before
            },
            _ => before,
        }
    }
}

/// The texts among the children, joined in order.
pub open spec fn spec_inner_text(children: Seq<XmlChild>) -> Seq<char>
    decreases children.len(),
{
    if children.len() == 0 {
        Seq::empty()
    } else {
        let before = spec_inner_text(children.drop_last());
        match children.last() {
            XmlChild::Text(t) => before + t@,
            _ => before,
        }
    }
}

/// The elements behind a list of references.
pub open spec fn spec_targets(refs: Seq<&XmlNode>) -> Seq<XmlNode> {
    Seq::new(refs.len(), |i: int| *refs[i])
}

impl XmlNode {
    /// The name of the element.
    pub fn tag(&self) -> (r: String)
        ensures
            r@ == self.name@,
    {
        self.name.clone()
    }

    /// The value of the attribute `name`.
    pub fn attribute(&self, name: &str) -> (r: Option<String>)
        requires
            self.attributes.wf(),
        ensures
            opt_view(r) == spec_get(self.attributes@, name@),
    {
        self.attributes.get_text(name)
    }

    /// The text of the element: its text children joined; empty when it
    /// has none.
    pub fn text(&self) -> (r: String)
        ensures
            r@ == spec_inner_text(self.children@),
    {
        let mut out: Vec<char> = Vec::new();
        let mut i: usize = 0;
        let ghost all = self.children@;
        assert(all.subrange(0, 0) =~= Seq::<XmlChild>::empty());
        while i < self.children.len()
            invariant
                i <= self.children.len(),
                all == self.children@,
                out@ == spec_inner_text(all.subrange(0, i as int)),
            decreases self.children.len() - i,
        {
            assert(all.subrange(0, i + 1).drop_last() =~= all.subrange(0, i as int));
            assert(all.subrange(0, i + 1).last() == all[i as int]);
            if let XmlChild::Text(t) = &self.children[i] {
                append_str(&mut out, t.as_str());
            }
            i += 1;
        }
        assert(all.subrange(0, all.len() as int) =~= all);
        from_chars(&out)
    }

    /// The child elements called `name`, in order.
    pub fn select(&self, name: &str) -> (r: Vec<&XmlNode>)
        ensures
            spec_targets(r@) == spec_named_children(self.children@, name@),
    {
        let mut out: Vec<&XmlNode> = Vec::new();
        let mut i: usize = 0;
        let ghost all = self.children@;
        assert(all.subrange(0, 0) =~= Seq::<XmlChild>::empty());
        assert(spec_targets(out@) =~= Seq::<XmlNode>::empty());
        while i < self.children.len()
            invariant
                i <= self.children.len(),
                all == self.children@,
                spec_targets(out@) == spec_named_children(all.subrange(0, i as int), name@),
            decreases self.children.len() - i,
        {
            assert(all.subrange(0, i + 1).drop_last() =~= all.subrange(0, i as int));
            assert(all.subrange(0, i + 1).last() == all[i as int]);
            if let XmlChild::Element(e) = &self.children[i] {
                if str_eq(e.name.as_str(), name) {
                    let ghost before = spec_targets(out@);
                    out.push(e);
                    assert(spec_targets(out@) =~= before.push(*e));
                }
            }
            i += 1;
        }
        assert(all.subrange(0, all.len() as int) =~= all);
        out
    }

    /// The first child element called `name`.
    pub fn select_one(&self, name: &str) -> (r: Option<&XmlNode>)
        ensures
            match r {
                Some(e) => spec_named_children(self.children@, name@).len() > 0 && *e
                    == spec_named_children(self.children@, name@)[0],
                None => spec_named_children(self.children@, name@).len() == 0,
            },
    {
        let found = self.select(name);
        if found.len() > 0 {
            assert(spec_targets(found@)[0] == *found@[0]);
            Some(found[0])
        } else {
            assert(spec_targets(found@).len() == 0);
            None
        }
    }
}

} // verus!
