//! A JSON document model: the values the capability parser reads, held as
//! plain data (numbers keep their textual form).

use vstd::prelude::*;

use crate::text::str_eq;

verus! {

/// A JSON value. Object members keep the order they were given in.
pub enum JsonValue {
    Null,
    Bool(bool),
    Number(String),
    Str(String),
    Array(Vec<JsonValue>),
    Object(Vec<(String, JsonValue)>),
}

/// The mathematical view of a [`JsonValue`].
pub enum JsonView {
    Null,
    Bool(bool),
    Number(Seq<char>),
    Str(Seq<char>),
    Array(Seq<JsonView>),
    Object(Seq<(Seq<char>, JsonView)>),
}

impl JsonValue {
    pub open spec fn jview(&self) -> JsonView
        decreases self,
    {
        match self {
            JsonValue::Null => JsonView::Null,
            JsonValue::Bool(b) => JsonView::Bool(*b),
            JsonValue::Number(n) => JsonView::Number(n@),
            JsonValue::Str(s) => JsonView::Str(s@),
            JsonValue::Array(a) => JsonView::Array(
                Seq::new(
                    a.len() as nat,
                    |i: int|
                        if 0 <= i < a.len() {
                            proof {
                                broadcast use vstd::std_specs::vec::axiom_vec_index_decreases;
                            }
                            a@[i].jview()
                        } else {
                            JsonView::Null
                        },
                ),
            ),
            JsonValue::Object(o) => JsonView::Object(
                Seq::new(
                    o.len() as nat,
                    |i: int|
                        if 0 <= i < o.len() {
                            proof {
                                broadcast use vstd::std_specs::vec::axiom_vec_index_decreases;
                            }
                            (o@[i].0@, o@[i].1.jview())
                        } else {
                            (Seq::empty(), JsonView::Null)
                        },
                ),
            ),
        }
    }
}

/// The value of the LAST member named `k` in an object's member list.
pub open spec fn obj_last(s: Seq<(Seq<char>, JsonView)>, k: Seq<char>) -> Option<JsonView>
    decreases s.len(),
{
    if s.len() == 0 {
        None
    } else if s.last().0 == k {
        Some(s.last().1)
    } else {
        obj_last(s.drop_last(), k)
    }
}

impl JsonView {
    /// Member lookup: `None` on anything but an object.
    pub open spec fn get(self, k: Seq<char>) -> Option<JsonView> {
        match self {
            JsonView::Object(s) => obj_last(s, k),
            _ => None,
        }
    }

    /// Follows a path of member names from this value.
    pub open spec fn pointer(self, path: Seq<Seq<char>>) -> Option<JsonView>
        decreases path.len(),
    {
        if path.len() == 0 {
            Some(self)
        } else {
            match self.get(path[0]) {
                Some(v) => v.pointer(path.drop_first()),
                None => None,
            }
        }
    }

    pub open spec fn as_bool(self) -> Option<bool> {
        match self {
            JsonView::Bool(b) => Some(b),
            _ => None,
        }
    }

    pub open spec fn as_array(self) -> Option<Seq<JsonView>> {
        match self {
            JsonView::Array(a) => Some(a),
            _ => None,
        }
    }

    pub open spec fn as_str(self) -> Option<Seq<char>> {
        match self {
            JsonView::Str(s) => Some(s),
            _ => None,
        }
    }
}

impl JsonValue {
    /// A deep copy.
    pub fn deep_clone(&self) -> (r: JsonValue)
        ensures
            r.jview() == self.jview(),
        decreases self,
    {
        match self {
            JsonValue::Null => JsonValue::Null,
            JsonValue::Bool(b) => JsonValue::Bool(*b),
            JsonValue::Number(n) => JsonValue::Number(n.clone()),
            JsonValue::Str(s) => JsonValue::Str(s.clone()),
            JsonValue::Array(a) => {
                let mut out: Vec<JsonValue> = Vec::new();
                let mut i: usize = 0;
                while i < a.len()
                    invariant
                        *self == JsonValue::Array(*a),
                        i <= a.len(),
                        out.len() == i,
                        forall|j: int| 0 <= j < i ==> #[trigger] out@[j].jview() == a@[j].jview(),
                    decreases a.len() - i,
                {
                    proof {
                        broadcast use vstd::std_specs::vec::axiom_vec_decreases_to_view;
                        assert(self->Array_0 == *a);
                        assert(decreases_to!(*self => self->Array_0));
                        assert(decreases_to!(*a => a@));
                        assert(decreases_to!(a@ => a@[i as int]));
                        assert(decreases_to!(*self => a@[i as int]));
                    }
                    let c = a[i].deep_clone();
                    out.push(c);
                    i += 1;
                }
                let ghost outv = out@;
                let r = JsonValue::Array(out);
                assert(r.jview() == self.jview()) by {
                    let x = match r.jview() { JsonView::Array(x) => x, _ => Seq::empty() };
                    let y = match self.jview() { JsonView::Array(y) => y, _ => Seq::empty() };
                    assert(r.jview() == JsonView::Array(x));
                    assert(self.jview() == JsonView::Array(y));
                    assert(x.len() == y.len());
                    assert forall|j: int| 0 <= j < x.len() implies x[j] == y[j] by {
                        assert(outv[j].jview() == a@[j].jview());
                    }
                    assert(x =~= y);
                }
                r
            },
            JsonValue::Object(o) => {
                let mut out: Vec<(String, JsonValue)> = Vec::new();
                let mut i: usize = 0;
                while i < o.len()
                    invariant
                        *self == JsonValue::Object(*o),
                        i <= o.len(),
                        out.len() == i,
                        forall|j: int|
                            0 <= j < i ==> #[trigger] out@[j].0@ == o@[j].0@ && out@[j].1.jview()
                                == o@[j].1.jview(),
                    decreases o.len() - i,
                {
                    proof {
                        broadcast use vstd::std_specs::vec::axiom_vec_decreases_to_view;
                        assert(self->Object_0 == *o);
                        assert(decreases_to!(*self => self->Object_0));
                        assert(decreases_to!(*o => o@));
                        assert(decreases_to!(o@ => o@[i as int]));
                        assert(decreases_to!(o@[i as int] => o@[i as int].1));
                        assert(decreases_to!(*self => o@[i as int].1));
                    }
                    let k = o[i].0.clone();
                    let v = o[i].1.deep_clone();
                    out.push((k, v));
                    i += 1;
                }
                let ghost outv = out@;
                let r = JsonValue::Object(out);
                assert(r.jview() == self.jview()) by {
                    let x = match r.jview() { JsonView::Object(x) => x, _ => Seq::empty() };
                    let y = match self.jview() { JsonView::Object(y) => y, _ => Seq::empty() };
                    assert(r.jview() == JsonView::Object(x));
                    assert(self.jview() == JsonView::Object(y));
                    assert(x.len() == y.len());
                    assert forall|j: int| 0 <= j < x.len() implies x[j] == y[j] by {
                        assert(outv[j].0@ == o@[j].0@ && outv[j].1.jview() == o@[j].1.jview());
                    }
                    assert(x =~= y);
                }
                r
            },
        }
    }

    /// Member lookup (the last member of that name wins).
    pub fn get(&self, k: &str) -> (r: Option<&JsonValue>)
        ensures
            match r {
                Some(v) => self.jview().get(k@) == Some(v.jview()),
                None => self.jview().get(k@) is None,
            },
    {
        match self {
            JsonValue::Object(o) => {
                let ghost s = match self.jview() { JsonView::Object(s) => s, _ => Seq::empty() };
                assert(self.jview() == JsonView::Object(s));
                assert(s.len() == o.len());
                assert(forall|j: int| 0 <= j < o.len() ==> #[trigger] s[j] == (o@[j].0@, o@[j].1.jview()));
                let mut found: Option<&JsonValue> = None;
                let mut i: usize = 0;
                while i < o.len()
                    invariant
                        i <= o.len(),
                        s.len() == o.len(),
                        forall|j: int| 0 <= j < o.len() ==> #[trigger] s[j] == (o@[j].0@, o@[j].1.jview()),
                        match found {
                            Some(v) => obj_last(s.take(i as int), k@) == Some(v.jview()),
                            None => obj_last(s.take(i as int), k@) is None,
                        },
                    decreases o.len() - i,
                {
                    assert(s.take(i + 1).drop_last() =~= s.take(i as int));
                    if str_eq(o[i].0.as_str(), k) {
                        found = Some(&o[i].1);
                    }
                    i += 1;
                }
                assert(s.take(o.len() as int) =~= s);
                found
            },
            _ => None,
        }
    }

    pub fn as_bool(&self) -> (r: Option<bool>)
        ensures
            r == self.jview().as_bool(),
    {
        match self {
            JsonValue::Bool(b) => Some(*b),
            _ => None,
        }
    }

    pub fn as_str(&self) -> (r: Option<&str>)
        ensures
            match r {
                Some(s) => self.jview().as_str() == Some(s@),
                None => self.jview().as_str() is None,
            },
    {
        match self {
            JsonValue::Str(s) => Some(s.as_str()),
            _ => None,
        }
    }

    /// The elements, when this is an array.
    pub fn as_array(&self) -> (r: Option<&Vec<JsonValue>>)
        ensures
            match r {
                Some(a) => self.jview().as_array() == Some(
                    Seq::new(a@.len(), |i: int| a@[i].jview()),
                ),
                None => self.jview().as_array() is None,
            },
    {
        match self {
            JsonValue::Array(a) => {
                proof {
                    let x = Seq::new(a@.len(), |i: int| a@[i].jview());
                    let y = self.jview().as_array().unwrap();
                    assert(x =~= y);
                }
                Some(a)
            },
            _ => None,
        }
    }

    /// The members, when this is an object.
    pub fn as_object(&self) -> (r: Option<&Vec<(String, JsonValue)>>)
        ensures
            match r {
                Some(o) => self.jview() == JsonView::Object(
                    Seq::new(o@.len(), |i: int| (o@[i].0@, o@[i].1.jview())),
                ),
                None => self.jview() !is Object,
            },
    {
        match self {
            JsonValue::Object(o) => {
                proof {
                    let x = Seq::new(o@.len(), |i: int| (o@[i].0@, o@[i].1.jview()));
                    let y = match self.jview() {
                        JsonView::Object(y) => y,
                        _ => Seq::empty(),
                    };
                    assert(x =~= y);
                }
                Some(o)
            },
            _ => None,
        }
    }
}

} // verus!
