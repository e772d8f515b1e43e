use vstd::prelude::*;

verus! {

/// A JSON document as the synchroniser reads it: scalars are carried through
/// untouched, arrays keep their order, and objects are ordered lists of
/// members.
#[derive(Debug, PartialEq, Eq)]
pub enum JsonValue {
    Null,
    Bool(bool),
    /// A number, kept as the text it is written with.
    Number(String),
    Text(String),
    Array(Vec<JsonValue>),
    Object(Vec<(String, JsonValue)>),
}

/// The mathematical value of a [`JsonValue`].
pub enum JsonTree {
    Null,
    Bool(bool),
    Number(Seq<char>),
    Text(Seq<char>),
    Array(Seq<JsonTree>),
    Object(Seq<(Seq<char>, JsonTree)>),
}

/// The value of a document.
pub open spec fn tree_of(value: JsonValue) -> JsonTree
    decreases value,
{
    match value {
        JsonValue::Null => JsonTree::Null,
        JsonValue::Bool(b) => JsonTree::Bool(b),
        JsonValue::Number(n) => JsonTree::Number(n@),
        JsonValue::Text(s) => JsonTree::Text(s@),
        JsonValue::Array(items) => JsonTree::Array(
            Seq::new(
                items@.len(),
                |i: int|
                    if 0 <= i < items@.len() {
                        tree_of(items@[i])
                    } else {
                        JsonTree::Null
                    },
            ),
        ),
        JsonValue::Object(members) => JsonTree::Object(
            Seq::new(
                members@.len(),
                |i: int|
                    if 0 <= i < members@.len() {
                        (members@[i].0@, tree_of(members@[i].1))
                    } else {
                        (Seq::empty(), JsonTree::Null)
                    },
            ),
        ),
    }
}

impl View for JsonValue {
    type V = JsonTree;

    open spec fn view(&self) -> JsonTree {
        tree_of(*self)
    }
}

/// The values of a list of documents.
pub open spec fn trees(items: Seq<JsonValue>) -> Seq<JsonTree> {
    Seq::new(items.len(), |i: int| items[i]@)
}

/// The values of a list of object members.
pub open spec fn member_trees(members: Seq<(String, JsonValue)>) -> Seq<(Seq<char>, JsonTree)> {
    Seq::new(members.len(), |i: int| (members[i].0@, members[i].1@))
}

/// The member of the given key among the members of an object; the last
/// one, where several have the key.
pub open spec fn member_of(members: Seq<(Seq<char>, JsonTree)>, key: Seq<char>) -> Option<JsonTree>
    decreases members.len(),
{
    if members.len() == 0 {
        None
    } else if members.last().0 == key {
        Some(members.last().1)
    } else {
        member_of(members.drop_last(), key)
    }
}

/// An array's value is the list of its elements' values.
pub proof fn lemma_array_view(items: Vec<JsonValue>)
    ensures
        JsonValue::Array(items)@ == JsonTree::Array(trees(items@)),
{
    assert(JsonValue::Array(items)@->Array_0 =~= trees(items@));
}

/// An object's value is the list of its members' keys and values.
pub proof fn lemma_object_view(members: Vec<(String, JsonValue)>)
    ensures
        JsonValue::Object(members)@ == JsonTree::Object(member_trees(members@)),
{
    assert(JsonValue::Object(members)@->Object_0 =~= member_trees(members@));
}

impl JsonValue {
    /// A copy of the document.
    pub fn deep_copy(&self) -> (r: JsonValue)
        ensures
            r@ == self@,
        decreases self, 1int,
    {
        match self {
            JsonValue::Null => JsonValue::Null,
            JsonValue::Bool(b) => JsonValue::Bool(*b),
            JsonValue::Number(n) => JsonValue::Number(n.clone()),
            JsonValue::Text(s) => JsonValue::Text(s.clone()),
            JsonValue::Array(items) => {
                let out = copy_items(items);
                proof {
                    lemma_array_view(*items);
                    lemma_array_view(out);
                }
                JsonValue::Array(out)
            },
            JsonValue::Object(members) => {
                let out = copy_members(members);
                proof {
                    lemma_object_view(*members);
                    lemma_object_view(out);
                }
                JsonValue::Object(out)
            },
        }
    }
}

fn copy_items(items: &Vec<JsonValue>) -> (out: Vec<JsonValue>)
    ensures
        trees(out@) == trees(items@),
    decreases items, 0int,
{
    let mut out: Vec<JsonValue> = Vec::new();
    let mut i: usize = 0;
    while i < items.len()
        invariant
            i <= items.len(),
            out@.len() == i,
            forall|k: int| 0 <= k < i ==> (#[trigger] out@[k])@ == items@[k]@,
        decreases items.len() - i,
    {
        out.push(items[i].deep_copy());
        i += 1;
    }
    assert(trees(out@) =~= trees(items@));
    out
}

fn copy_members(members: &Vec<(String, JsonValue)>) -> (out: Vec<(String, JsonValue)>)
    ensures
        member_trees(out@) == member_trees(members@),
    decreases members, 0int,
{
    let mut out: Vec<(String, JsonValue)> = Vec::new();
    let mut i: usize = 0;
    while i < members.len()
        invariant
            i <= members.len(),
            out@.len() == i,
            forall|k: int|
                0 <= k < i ==> (#[trigger] out@[k]).0@ == members@[k].0@ && out@[k].1@
                    == members@[k].1@,
        decreases members.len() - i,
    {
        out.push((members[i].0.clone(), members[i].1.deep_copy()));
        i += 1;
    }
    assert(member_trees(out@) =~= member_trees(members@));
    out
}

impl Clone for JsonValue {
    fn clone(&self) -> (r: Self)
        ensures
            r@ == self@,
    {
        self.deep_copy()
    }
}

} // verus!
