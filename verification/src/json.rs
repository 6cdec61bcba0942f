//! JSON values as the library reads and builds them.

use vstd::prelude::*;

verus! {

/// One member of a JSON object.
#[derive(Debug, PartialEq, Eq)]
pub struct Member {
    pub name: String,
    pub value: Json,
}

/// A JSON value. A number is kept as its text; an object as its members
/// in order.
#[derive(Debug, PartialEq, Eq)]
pub enum Json {
    Null,
    Bool(bool),
    Number(String),
    Text(String),
    Array(Vec<Json>),
    Object(Vec<Member>),
}

/// The mathematical value of a [`Member`].
pub ghost struct MemberSpec {
    pub name: Seq<char>,
    pub value: JsonSpec,
}

/// The mathematical value of a [`Json`].
pub ghost enum JsonSpec {
    Null,
    Bool(bool),
    Number(Seq<char>),
    Text(Seq<char>),
    Array(Seq<JsonSpec>),
    Object(Seq<MemberSpec>),
}

impl View for Json {
    type V = JsonSpec;

    open spec fn view(&self) -> JsonSpec
        decreases self,
    {
        match self {
            Json::Null => JsonSpec::Null,
            Json::Bool(b) => JsonSpec::Bool(*b),
            Json::Number(n) => JsonSpec::Number(n@),
            Json::Text(t) => JsonSpec::Text(t@),
            Json::Array(items) => JsonSpec::Array(
                Seq::new(
                    items@.len(),
                    |i: int|
                        if 0 <= i < items@.len() {
                            items@[i].view()
                        } else {
                            JsonSpec::Null
                        },
                ),
            ),
            Json::Object(members) => JsonSpec::Object(
                Seq::new(
                    members@.len(),
                    |i: int|
                        if 0 <= i < members@.len() {
                            MemberSpec { name: members@[i].name@, value: members@[i].value.view() }
                        } else {
                            MemberSpec { name: Seq::empty(), value: JsonSpec::Null }
                        },
                ),
            ),
        }
    }
}

/// The value of the first member called `key`, if `j` is an object that
/// has one.
pub open spec fn member_of(j: JsonSpec, key: Seq<char>) -> Option<JsonSpec> {
    match j {
        JsonSpec::Object(members) => first_named(members, key),
        _ => None,
    }
}

/// The value of the first of `members` called `key`.
pub open spec fn first_named(members: Seq<MemberSpec>, key: Seq<char>) -> Option<JsonSpec>
    decreases members.len(),
{
    if members.len() == 0 {
        None
    } else if members[0].name == key {
        Some(members[0].value)
    } else {
        first_named(members.drop_first(), key)
    }
}

/// What indexing `j` by `key` gives: the member's value, or `null` where
/// `j` is no object or has no such member.
pub open spec fn at_key(j: JsonSpec, key: Seq<char>) -> JsonSpec {
    match member_of(j, key) {
        Some(v) => v,
        None => JsonSpec::Null,
    }
}

/// What indexing `j` by a position gives: the item there, or `null`
/// where `j` is no array or is too short.
pub open spec fn at_pos(j: JsonSpec, i: int) -> JsonSpec {
    match j {
        JsonSpec::Array(items) => if 0 <= i < items.len() {
            items[i]
        } else {
            JsonSpec::Null
        },
        _ => JsonSpec::Null,
    }
}

/// The items of `j`, if it is an array.
pub open spec fn items_of(j: JsonSpec) -> Option<Seq<JsonSpec>> {
    match j {
        JsonSpec::Array(items) => Some(items),
        _ => None,
    }
}

/// The number that `j` holds, if it is a number written as a whole number
/// that is not negative and fits into 64 bits.
pub open spec fn count_of(j: JsonSpec) -> Option<u64> {
    match j {
        JsonSpec::Number(text) => crate::text::parse_u64(text),
        _ => None,
    }
}

/// The text of `j`, if it is a string.
pub open spec fn text_of(j: JsonSpec) -> Option<Seq<char>> {
    match j {
        JsonSpec::Text(t) => Some(t),
        _ => None,
    }
}

/// The views of a sequence of JSON values.
pub open spec fn json_views(items: Seq<Json>) -> Seq<JsonSpec> {
    Seq::new(items.len(), |i: int| items[i]@)
}

/// The views of a sequence of members.
pub open spec fn member_views(members: Seq<Member>) -> Seq<MemberSpec> {
    Seq::new(members.len(), |i: int| MemberSpec { name: members[i].name@, value: members[i].value@ })
}

/// The view of an array is the views of its items.
pub proof fn lemma_array_view(items: Vec<Json>)
    ensures
        Json::Array(items)@ == JsonSpec::Array(json_views(items@)),
{
    assert(Json::Array(items)@->Array_0 =~= json_views(items@));
}

/// The view of an object is the views of its members.
pub proof fn lemma_object_view(members: Vec<Member>)
    ensures
        Json::Object(members)@ == JsonSpec::Object(member_views(members@)),
{
    assert(Json::Object(members)@->Object_0 =~= member_views(members@));
}

impl Json {
    /// A JSON string.
    pub fn text(s: &str) -> (j: Json)
        ensures
            j@ == JsonSpec::Text(s@),
    {
        Json::Text(s.to_owned())
    }

    /// A JSON array of the given items.
    pub fn array(items: Vec<Json>) -> (j: Json)
        ensures
            j@ == JsonSpec::Array(json_views(items@)),
    {
        proof {
            lemma_array_view(items);
        }
        Json::Array(items)
    }

    /// A JSON object of the given members.
    pub fn object(members: Vec<Member>) -> (j: Json)
        ensures
            j@ == JsonSpec::Object(member_views(members@)),
    {
        proof {
            lemma_object_view(members);
        }
        Json::Object(members)
    }

    /// A copy of the value.
    #[verifier::loop_isolation(false)]
    pub fn copy(&self) -> (r: Json)
        ensures
            r@ == self@,
        decreases self,
    {
        match self {
            Json::Null => Json::Null,
            Json::Bool(b) => Json::Bool(*b),
            Json::Number(n) => Json::Number(n.clone()),
            Json::Text(t) => Json::Text(t.clone()),
            Json::Array(items) => {
                let mut out: Vec<Json> = Vec::new();
                let mut i: usize = 0;
                while i < items.len()
                    invariant
                        i <= items@.len(),
                        out@.len() == i,
                        forall|k: int| 0 <= k < i ==> (#[trigger] out@[k])@ == items@[k]@,
                    decreases items@.len() - i,
                {
                    out.push(items[i].copy());
                    i += 1;
                }
                proof {
                    lemma_array_view(*items);
                    assert(json_views(out@) =~= json_views(items@));
                }
                Json::array(out)
            },
            Json::Object(members) => {
                let mut out: Vec<Member> = Vec::new();
                let mut i: usize = 0;
                while i < members.len()
                    invariant
                        i <= members@.len(),
                        out@.len() == i,
                        forall|k: int|
                            0 <= k < i ==> (#[trigger] out@[k]).name@ == members@[k].name@
                                && out@[k].value@ == members@[k].value@,
                    decreases members@.len() - i,
                {
                    out.push(
                        Member { name: members[i].name.clone(), value: members[i].value.copy() },
                    );
                    i += 1;
                }
                proof {
                    lemma_object_view(*members);
                    assert(member_views(out@) =~= member_views(members@));
                }
                Json::object(out)
            },
        }
    }

    /// The value of the first member called `key`, if this is an object
    /// that has one.
    pub fn get(&self, key: &str) -> (r: Option<&Json>)
        ensures
            match r {
                Some(v) => member_of(self@, key@) == Some(v@),
                None => member_of(self@, key@).is_none(),
            },
    {
        match self {
            Json::Object(members) => {
                proof {
                    lemma_object_view(*members);
                    assert(member_views(members@).skip(0) == member_views(members@));
                }
                let mut i: usize = 0;
                while i < members.len()
                    invariant
                        i <= members@.len(),
                        self@ == JsonSpec::Object(member_views(members@)),
                        first_named(member_views(members@), key@) == first_named(
                            member_views(members@).skip(i as int),
                            key@,
                        ),
                    decreases members@.len() - i,
                {
                    proof {
                        let rest = member_views(members@).skip(i as int);
                        assert(rest[0] == member_views(members@)[i as int]);
                        assert(rest.drop_first() == member_views(members@).skip(i + 1));
                    }
                    if crate::text::same_text(members[i].name.as_str(), key) {
                        return Some(&members[i].value);
                    }
                    i += 1;
                }
                None
            },
            _ => None,
        }
    }

    /// The text of the value, if it is a string.
    pub fn as_str(&self) -> (r: Option<&str>)
        ensures
            match r {
                Some(t) => text_of(self@) == Some(t@),
                None => text_of(self@).is_none(),
            },
    {
        match self {
            Json::Text(t) => Some(t.as_str()),
            _ => None,
        }
    }

    /// What indexing by a position gives: the item there, if this is an
    /// array that is long enough.
    pub fn item(&self, i: usize) -> (r: Option<&Json>)
        ensures
            match r {
                Some(v) => v@ == at_pos(self@, i as int) && items_of(self@).is_some() && i
                    < items_of(self@)->0.len(),
                None => at_pos(self@, i as int) == JsonSpec::Null && (items_of(self@).is_none()
                    || i >= items_of(self@)->0.len()),
            },
    {
        match self {
            Json::Array(items) => {
                proof {
                    lemma_array_view(*items);
                }
                if i < items.len() {
                    Some(&items[i])
                } else {
                    None
                }
            },
            _ => None,
        }
    }

    /// The items of the value, if it is an array.
    pub fn as_array(&self) -> (r: Option<&Vec<Json>>)
        ensures
            match r {
                Some(items) => items_of(self@) == Some(json_views(items@)),
                None => items_of(self@).is_none(),
            },
    {
        match self {
            Json::Array(items) => {
                proof {
                    lemma_array_view(*items);
                }
                Some(items)
            },
            _ => None,
        }
    }

    /// The number that the value holds, if it is a whole number that is
    /// not negative and fits into 64 bits.
    pub fn as_u64(&self) -> (r: Option<u64>)
        ensures
            r == count_of(self@),
    {
        match self {
            Json::Number(text) => crate::text::read_u64(&crate::text::chars_of(text.as_str())),
            _ => None,
        }
    }

    /// A copy of what indexing by `key` gives: the member's value, or
    /// `null`.
    pub fn at(&self, key: &str) -> (r: Json)
        ensures
            r@ == at_key(self@, key@),
    {
        match self.get(key) {
            Some(v) => v.copy(),
            None => Json::Null,
        }
    }
}

impl Clone for Json {
    fn clone(&self) -> (r: Json)
        ensures
            r@ == self@,
    {
        self.copy()
    }
}

impl Clone for Member {
    fn clone(&self) -> (r: Member)
        ensures
            r.name@ == self.name@,
            r.value@ == self.value@,
    {
        Member { name: self.name.clone(), value: self.value.copy() }
    }
}

/// A member of an object.
pub fn member(name: &str, value: Json) -> (m: Member)
    ensures
        m.name@ == name@,
        m.value@ == value@,
{
    Member { name: name.to_owned(), value }
}

} // verus!
