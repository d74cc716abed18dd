//! A JSON document as plain values, for the job descriptions that the caller supplies.
use vstd::prelude::*;

verus! {

/// A JSON value. An object keeps its entries in order; `Number` holds the number's JSON text.
#[derive(Debug)]
pub enum JsonValue {
    Null,
    Bool(bool),
    Number(String),
    Str(String),
    Array(Vec<JsonValue>),
    Object(Vec<(String, JsonValue)>),
}

/// A JSON value with its text as sequences of characters.
pub enum JsonView {
    Null,
    Bool(bool),
    Number(Seq<char>),
    Str(Seq<char>),
    Array(Seq<JsonView>),
    Object(Seq<(Seq<char>, JsonView)>),
}

impl JsonValue {
    /// The value with every `String` replaced by its characters.
    pub open spec fn view_of(self) -> JsonView
        decreases self,
    {
        match self {
            JsonValue::Null => JsonView::Null,
            JsonValue::Bool(b) => JsonView::Bool(b),
            JsonValue::Number(s) => JsonView::Number(s@),
            JsonValue::Str(s) => JsonView::Str(s@),
            JsonValue::Array(items) => JsonView::Array(
                Seq::new(items@.len(), |i: int| if 0 <= i < items@.len() { items[i].view_of() } else { JsonView::Null }),
            ),
            JsonValue::Object(entries) => JsonView::Object(
                Seq::new(entries@.len(), |i: int| if 0 <= i < entries@.len() { (entries[i].0@, entries[i].1.view_of()) } else { (Seq::empty(), JsonView::Null) }),
            ),
        }
    }

    /// A copy of the value, entry by entry.
    pub fn duplicate(&self) -> (r: JsonValue)
        ensures
            r.view_of() == self.view_of(),
        decreases self,
    {
        match self {
            JsonValue::Null => JsonValue::Null,
            JsonValue::Bool(b) => JsonValue::Bool(*b),
            JsonValue::Number(s) => JsonValue::Number(s.clone()),
            JsonValue::Str(s) => JsonValue::Str(s.clone()),
            JsonValue::Array(items) => {
                let mut out: Vec<JsonValue> = Vec::new();
                let mut i: usize = 0;
                while i < items.len()
                    invariant
                        *self == JsonValue::Array(*items),
                        i <= items@.len(),
                        out@.len() == i,
                        forall|j: int| 0 <= j < i ==> out@[j].view_of() == items@[j].view_of(),
                    decreases items@.len() - i,
                {
                    
                    proof {
                        assert(decreases_to!(*self => self->Array_0));
                        assert(decreases_to!(*items => items@));
                        assert(decreases_to!(items@ => items@[i as int]));
                    }
                    out.push(items[i].duplicate());
                    i = i + 1;
                }
                let r = JsonValue::Array(out);
                assert(r.view_of() == self.view_of()) by {
                    assert(r.view_of()->Array_0 =~= self.view_of()->Array_0);
                }
                r
            },
            JsonValue::Object(entries) => {
                let mut out: Vec<(String, JsonValue)> = Vec::new();
                let mut i: usize = 0;
                while i < entries.len()
                    invariant
                        *self == JsonValue::Object(*entries),
                        i <= entries@.len(),
                        out@.len() == i,
                        forall|j: int| 0 <= j < i ==> out@[j].0@ == entries@[j].0@ && out@[j].1.view_of() == entries@[j].1.view_of(),
                    decreases entries@.len() - i,
                {
                    
                    let k = entries[i].0.clone();
                    proof {
                        assert(decreases_to!(*self => self->Object_0));
                        assert(decreases_to!(*entries => entries@));
                        assert(decreases_to!(entries@ => entries@[i as int]));
                        assert(decreases_to!(entries@[i as int] => entries@[i as int].1));
                    }
                    let v = entries[i].1.duplicate();
                    out.push((k, v));
                    i = i + 1;
                }
                let r = JsonValue::Object(out);
                assert(r.view_of() == self.view_of()) by {
                    assert(r.view_of()->Object_0 =~= self.view_of()->Object_0);
                }
                r
            },
        }
    }
}

impl View for JsonValue {
    type V = JsonView;

    open spec fn view(&self) -> JsonView {
        self.view_of()
    }
}

/// The entries of an object, with their keys as characters.
pub open spec fn entries_view(e: Seq<(String, JsonValue)>) -> Seq<(Seq<char>, JsonView)> {
    Seq::new(e.len(), |i: int| (e[i].0@, e[i].1@))
}

pub proof fn lemma_object_view(e: Vec<(String, JsonValue)>)
    ensures
        JsonValue::Object(e)@ == JsonView::Object(entries_view(e@)),
{
    assert(JsonValue::Object(e)@->Object_0 =~= entries_view(e@));
}

/// The value of the first entry with key `key`.
pub open spec fn lookup(entries: Seq<(Seq<char>, JsonView)>, key: Seq<char>) -> Option<JsonView>
    decreases entries.len(),
{
    if entries.len() == 0 {
        None
    } else if entries[0].0 == key {
        Some(entries[0].1)
    } else {
        lookup(entries.drop_first(), key)
    }
}

/// What `value.get(key)` finds: an entry of an object, nothing in any other value.
pub open spec fn get_field(v: JsonView, key: Seq<char>) -> Option<JsonView> {
    match v {
        JsonView::Object(entries) => lookup(entries, key),
        _ => None,
    }
}

impl JsonValue {
    /// The value stored under `key`, when `self` is an object that has one.
    pub fn get(&self, key: &str) -> (r: Option<&JsonValue>)
        ensures
            match (r, get_field(self@, key@)) {
                (Some(x), Some(v)) => x@ == v,
                (None, None) => true,
                _ => false,
            },
    {
        match self {
            JsonValue::Object(entries) => {
                let ghost ev = self@->Object_0;
                assert(ev.subrange(0, ev.len() as int) =~= ev);
                let wanted = String::from_str(key);
                let mut i: usize = 0;
                while i < entries.len()
                    invariant
                        wanted@ == key@,
                        *self == JsonValue::Object(*entries),
                        ev == self@->Object_0,
                        ev.len() == entries@.len(),
                        i <= entries@.len(),
                        lookup(ev, key@) == lookup(ev.subrange(i as int, ev.len() as int), key@),
                    decreases entries@.len() - i,
                {
                    let ghost tail = ev.subrange(i as int, ev.len() as int);
                    assert(tail[0] == ev[i as int]);
                    assert(ev[i as int] == (entries@[i as int].0@, entries@[i as int].1@));
                    if entries[i].0 == wanted {
                        return Some(&entries[i].1);
                    }
                    assert(tail.drop_first() =~= ev.subrange(i + 1, ev.len() as int));
                    i = i + 1;
                }
                None
            },
            _ => None,
        }
    }

    pub fn is_null(&self) -> (r: bool)
        ensures
            r == (self@ == JsonView::Null),
    {
        match self {
            JsonValue::Null => true,
            _ => false,
        }
    }

    /// The text of a string value.
    pub fn as_str(&self) -> (r: Option<&str>)
        ensures
            match (r, self@) {
                (Some(s), JsonView::Str(t)) => s@ == t,
                (None, JsonView::Str(_)) => false,
                (Some(_), _) => false,
                (None, _) => true,
            },
    {
        match self {
            JsonValue::Str(s) => Some(s.as_str()),
            _ => None,
        }
    }
}

} // verus!
