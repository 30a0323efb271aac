//! Values that can be written into a request body, and the flat object of
//! text fields that most callers pass.

use vstd::prelude::*;
use vstd::string::*;

verus! {

/// `s` between double quotes, with nothing escaped.
pub open spec fn quoted(s: Seq<char>) -> Seq<char> {
    "\""@ + s + "\""@
}

/// A member of an object: the quoted name, a colon, and the value as it is.
pub open spec fn member(name: Seq<char>, value: Seq<char>) -> Seq<char> {
    quoted(name) + ":"@ + value
}

/// The parts one after the other, with a comma between neighbours.
pub open spec fn comma_separated(parts: Seq<Seq<char>>) -> Seq<char>
    decreases parts.len(),
{
    if parts.len() == 0 {
        Seq::empty()
    } else if parts.len() == 1 {
        parts[0]
    } else {
        comma_separated(parts.drop_last()) + ","@ + parts.last()
    }
}

/// The members between braces.
pub open spec fn object_text(members: Seq<Seq<char>>) -> Seq<char> {
    "{"@ + comma_separated(members) + "}"@
}

/// A value that writes itself as the text of a JSON value. The text goes
/// into a body as it is, so it has to be JSON already.
pub trait ToJsonString {
    fn to_json_string(&self) -> (text: String);
}

/// What `value` may write itself as: `text` is a possible result of its
/// [`ToJsonString::to_json_string`], and there is a text just when there is a value.
pub open spec fn written_as<J: ToJsonString>(value: Option<J>, text: Option<Seq<char>>) -> bool {
    match value {
        Some(v) => exists|t: String| #[trigger]
            call_ensures(J::to_json_string, (&v,), t) && text == Some(t@),
        None => text.is_none(),
    }
}

/// A string stands for itself: it is taken to hold a JSON value already.
impl ToJsonString for String {
    fn to_json_string(&self) -> (text: String)
        ensures
            text@ == self@,
    {
        self.clone()
    }
}

/// Appends `s` between double quotes.
pub(crate) fn push_quoted(out: &mut String, s: &str)
    ensures
        final(out)@ == old(out)@ + quoted(s@),
{
    out.append("\"");
    out.append(s);
    out.append("\"");
    assert(out@ =~= old(out)@ + quoted(s@));
}

/// Appends a member whose value is JSON text already.
pub(crate) fn push_member(out: &mut String, name: &str, value: &str)
    ensures
        final(out)@ == old(out)@ + member(name@, value@),
{
    push_quoted(out, name);
    out.append(":");
    out.append(value);
    assert(out@ =~= old(out)@ + member(name@, value@));
}

/// Appends a member whose value is a string, which is put between quotes.
pub(crate) fn push_text_member(out: &mut String, name: &str, value: &str)
    ensures
        final(out)@ == old(out)@ + member(name@, quoted(value@)),
{
    push_quoted(out, name);
    out.append(":");
    push_quoted(out, value);
    assert(out@ =~= old(out)@ + member(name@, quoted(value@)));
}

/// One more part behind a comma-separated text: the comma is there unless the part is the first.
pub proof fn lemma_comma_separated_push(parts: Seq<Seq<char>>, part: Seq<char>)
    ensures
        comma_separated(parts.push(part)) == (if parts.len() == 0 {
            part
        } else {
            comma_separated(parts) + ","@ + part
        }),
{
    assert(parts.push(part).drop_last() =~= parts);
}

/// The name and the value of each field, as plain text.
pub type Fields = Seq<(Seq<char>, Seq<char>)>;

/// Whether some field has this name.
pub open spec fn has_key(fields: Fields, key: Seq<char>) -> bool {
    exists|i: int| 0 <= i < fields.len() && #[trigger] fields[i].0 == key
}

/// No two fields share a name.
pub open spec fn distinct_keys(fields: Fields) -> bool {
    forall|i: int, j: int|
        0 <= i < fields.len() && 0 <= j < fields.len() && i != j ==> #[trigger] fields[i].0
            != #[trigger] fields[j].0
}

/// The members that the fields are written as, each value between quotes.
pub open spec fn field_members(fields: Fields) -> Seq<Seq<char>> {
    Seq::new(fields.len(), |i: int| member(fields[i].0, quoted(fields[i].1)))
}

/// A flat object of text fields. No name occurs twice; the fields keep the
/// order in which their names were first inserted.
pub struct JsonObject {
    entries: Vec<(String, String)>,
}

impl View for JsonObject {
    type V = Fields;

    closed spec fn view(&self) -> Fields {
        Seq::new(self.entries@.len(), |i: int| (self.entries@[i].0@, self.entries@[i].1@))
    }
}

impl JsonObject {
    /// The invariant of an object: no two fields share a name.
    pub open spec fn wf(&self) -> bool {
        distinct_keys(self@)
    }

    /// The text of the object: its fields between braces, in their order, as
    /// `"name":"value"` with commas between them.
    pub open spec fn json(&self) -> Seq<char> {
        object_text(field_members(self@))
    }

    /// The object without fields.
    pub fn new() -> (object: Self)
        ensures
            object.wf(),
            object@ == Fields::empty(),
    {
        let object = JsonObject { entries: Vec::new() };
        assert(object@ =~= Fields::empty());
        object
    }

    /// How many fields the object has.
    pub fn len(&self) -> (n: usize)
        ensures
            n == self@.len(),
    {
        self.entries.len()
    }

    /// Where the field of this name stands, if there is one.
    fn find(&self, key: &String) -> (found: Option<usize>)
        ensures
            match found {
                Some(i) => i < self@.len() && self@[i as int].0 == key@,
                None => !has_key(self@, key@),
            },
    {
        let mut i: usize = 0;
        while i < self.entries.len()
            invariant
                i <= self.entries@.len(),
                forall|j: int| 0 <= j < i ==> (#[trigger] self@[j]).0 != key@,
            decreases self.entries@.len() - i,
        {
            if self.entries[i].0 == *key {
                return Some(i);
            }
            i = i + 1;
        }
        None
    }

    /// Sets the field `key` to `value`. A field of that name keeps its place
    /// and has its value replaced, and the value it had is returned; a new
    /// name goes behind the others.
    pub fn insert(&mut self, key: &str, value: &str) -> (previous: Option<String>)
        requires
            old(self).wf(),
        ensures
            final(self).wf(),
            previous.is_some() == has_key(old(self)@, key@),
            !has_key(old(self)@, key@) ==> final(self)@ == old(self)@.push((key@, value@)),
            forall|i: int|
                0 <= i < old(self)@.len() && (#[trigger] old(self)@[i]).0 == key@ ==> {
                    &&& previous.is_some() && previous.unwrap()@ == old(self)@[i].1
                    &&& final(self)@ == old(self)@.update(i, (key@, value@))
                },
    {
        let name = key.to_owned();
        let text = value.to_owned();
        match self.find(&name) {
            Some(at) => {
                let (kept, previous) = self.entries.remove(at);
                self.entries.insert(at, (name, text));
                assert(self@ =~= old(self)@.update(at as int, (key@, value@)));
                Some(previous)
            },
            None => {
                self.entries.push((name, text));
                assert(self@ =~= old(self)@.push((key@, value@)));
                None
            },
        }
    }
}

impl ToJsonString for JsonObject {
    fn to_json_string(&self) -> (text: String)
        ensures
            text@ == self.json(),
    {
        let mut text = String::new();
        text.append("{");
        let mut i: usize = 0;
        proof {
            assert(field_members(self@).take(0) =~= Seq::<Seq<char>>::empty());
            assert(text@ =~= "{"@ + comma_separated(field_members(self@).take(0)));
        }
        while i < self.entries.len()
            invariant
                i <= self.entries@.len(),
                self@.len() == self.entries@.len(),
                text@ == "{"@ + comma_separated(field_members(self@).take(i as int)),
            decreases self.entries@.len() - i,
        {
            let ghost before = text@;
            if i > 0 {
                text.append(",");
            }
            push_text_member(&mut text, self.entries[i].0.as_str(), self.entries[i].1.as_str());
            proof {
                let members = field_members(self@);
                lemma_comma_separated_push(members.take(i as int), members[i as int]);
                assert(members.take(i as int).push(members[i as int]) =~= members.take(i + 1));
                assert(text@ =~= "{"@ + comma_separated(members.take(i + 1)));
            }
            i = i + 1;
        }
        text.append("}");
        proof {
            assert(field_members(self@).take(i as int) =~= field_members(self@));
        }
        text
    }
}

} // verus!
