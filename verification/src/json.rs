//! JSON values as the protocol exchanges them, with the lookups that the
//! dashboard performs on them.
//!
//! An object is held as its members in order; values that arrive from the
//! wire carry each key once. Two values are equal (`same_value`) where they
//! agree as JSON: objects map the same names to equal values, whatever the
//! order of their members, and a name's value is its first member. A number keeps the distinction the wire format
//! makes between non-negative integers, negative integers and other numbers;
//! the last are held by the bits of their IEEE-754 double, so that they can be
//! carried through and compared without arithmetic on them.
use crate::dup::Duplicate;
use crate::text::str_eq;
use vstd::prelude::*;

verus! {

/// A JSON number.
#[derive(Clone, Copy, Debug, PartialEq, Eq, Structural)]
pub enum JsonNumber {
    /// An integer that is zero or more.
    PosInt(u64),
    /// An integer below zero.
    NegInt(i64),
    /// Any other number, by the bits of its double.
    Float(u64),
}

impl JsonNumber {
    /// A negative integer is held as `NegInt` only.
    pub open spec fn wf(self) -> bool {
        self matches JsonNumber::NegInt(n) ==> n < 0
    }

    /// The number as an `i64`, where it is an integer in range.
    pub open spec fn spec_as_i64(self) -> Option<i64> {
        match self {
            JsonNumber::PosInt(n) => if n <= i64::MAX {
                Some(n as i64)
            } else {
                None
            },
            JsonNumber::NegInt(n) => Some(n),
            JsonNumber::Float(_) => None,
        }
    }

    /// The number as a `u64`, where it is a non-negative integer.
    pub open spec fn spec_as_u64(self) -> Option<u64> {
        match self {
            JsonNumber::PosInt(n) => Some(n),
            _ => None,
        }
    }

    pub fn as_i64(&self) -> (r: Option<i64>)
        ensures
            r == self.spec_as_i64(),
    {
        match *self {
            JsonNumber::PosInt(n) => if n <= 0x7fff_ffff_ffff_ffffu64 {
                Some(n as i64)
            } else {
                None
            },
            JsonNumber::NegInt(n) => Some(n),
            JsonNumber::Float(_) => None,
        }
    }

    pub fn as_u64(&self) -> (r: Option<u64>)
        ensures
            r == self.spec_as_u64(),
    {
        match *self {
            JsonNumber::PosInt(n) => Some(n),
            _ => None,
        }
    }

    /// The number with negative zero taken as zero: the two are equal as
    /// doubles, and so are equal as JSON values.
    pub open spec fn normal(self) -> JsonNumber {
        if self == JsonNumber::Float(NEGATIVE_ZERO_BITS) {
            JsonNumber::Float(0)
        } else {
            self
        }
    }

    pub fn normalized(&self) -> (r: JsonNumber)
        ensures
            r == self.normal(),
    {
        match *self {
            JsonNumber::Float(b) => if b == NEGATIVE_ZERO_BITS {
                JsonNumber::Float(0)
            } else {
                JsonNumber::Float(b)
            },
            n => n,
        }
    }
}

/// The bits of the double negative zero.
pub const NEGATIVE_ZERO_BITS: u64 = 0x8000_0000_0000_0000u64;

/// The mathematical value of a JSON document.
pub enum JsonView {
    Null,
    Bool(bool),
    Number(JsonNumber),
    String(Seq<char>),
    Array(Seq<JsonView>),
    Object(Seq<(Seq<char>, JsonView)>),
}

/// The value of the first member of `members` named `key`.
pub open spec fn member(members: Seq<(Seq<char>, JsonView)>, key: Seq<char>) -> Option<JsonView>
    decreases members.len(),
{
    if members.len() == 0 {
        None
    } else if members[0].0 == key {
        Some(members[0].1)
    } else {
        member(members.drop_first(), key)
    }
}

/// No member of `members` before position `i` has the name of the member at
/// `i`: that member gives the value of its name.
pub open spec fn first_named(members: Seq<(Seq<char>, JsonView)>, i: int) -> bool {
    forall|k: int| 0 <= k < i ==> members[k].0 != members[i].0
}

/// Whether `a` and `b` are equal as JSON values: arrays element by element,
/// objects as maps from names to values, whatever the order of their members.
pub open spec fn same_value(a: JsonView, b: JsonView) -> bool
    decreases a,
{
    match a {
        JsonView::Array(x) => match b {
            JsonView::Array(y) => x.len() == y.len() && forall|i: int|
                #![trigger x[i]]
                0 <= i < x.len() ==> same_value(x[i], y[i]),
            _ => false,
        },
        JsonView::Object(x) => match b {
            JsonView::Object(y) => (forall|i: int|
                #![trigger x[i]]
                0 <= i < x.len() && first_named(x, i) ==> (member(y, x[i].0) matches Some(v)
                    && same_value(x[i].1, v))) && (forall|j: int|
                #![trigger y[j]]
                0 <= j < y.len() ==> member(x, y[j].0) is Some),
            _ => false,
        },
        _ => a == b,
    }
}

impl JsonView {
    /// The member `key` of an object; `None` for a value that is no object.
    pub open spec fn get(self, key: Seq<char>) -> Option<JsonView> {
        match self {
            JsonView::Object(m) => member(m, key),
            _ => None,
        }
    }

    pub open spec fn as_str(self) -> Option<Seq<char>> {
        match self {
            JsonView::String(s) => Some(s),
            _ => None,
        }
    }

    pub open spec fn as_bool(self) -> Option<bool> {
        match self {
            JsonView::Bool(b) => Some(b),
            _ => None,
        }
    }

    pub open spec fn as_number(self) -> Option<JsonNumber> {
        match self {
            JsonView::Number(n) => Some(n),
            _ => None,
        }
    }

    pub open spec fn as_i64(self) -> Option<i64> {
        match self {
            JsonView::Number(n) => n.spec_as_i64(),
            _ => None,
        }
    }

    pub open spec fn as_u64(self) -> Option<u64> {
        match self {
            JsonView::Number(n) => n.spec_as_u64(),
            _ => None,
        }
    }

    pub open spec fn as_array(self) -> Option<Seq<JsonView>> {
        match self {
            JsonView::Array(a) => Some(a),
            _ => None,
        }
    }
}

/// `o.get(key)` on an optional value.
pub open spec fn opt_get(o: Option<JsonView>, key: Seq<char>) -> Option<JsonView> {
    match o {
        Some(v) => v.get(key),
        None => None,
    }
}

/// `o.as_str()` on an optional value.
pub open spec fn opt_str(o: Option<JsonView>) -> Option<Seq<char>> {
    match o {
        Some(v) => v.as_str(),
        None => None,
    }
}

/// `o.as_i64()` on an optional value.
pub open spec fn opt_i64(o: Option<JsonView>) -> Option<i64> {
    match o {
        Some(v) => v.as_i64(),
        None => None,
    }
}

/// `o.as_bool()` on an optional value.
pub open spec fn opt_bool(o: Option<JsonView>) -> Option<bool> {
    match o {
        Some(v) => v.as_bool(),
        None => None,
    }
}

/// `o.as_number()` on an optional value.
pub open spec fn opt_number(o: Option<JsonView>) -> Option<JsonNumber> {
    match o {
        Some(v) => v.as_number(),
        None => None,
    }
}

/// `o.as_array()` on an optional value.
pub open spec fn opt_array(o: Option<JsonView>) -> Option<Seq<JsonView>> {
    match o {
        Some(v) => v.as_array(),
        None => None,
    }
}

/// The string `o`, or `default` where `o` is absent.
pub open spec fn str_or(o: Option<Seq<char>>, default: Seq<char>) -> Seq<char> {
    match o {
        Some(s) => s,
        None => default,
    }
}

/// A JSON value.
#[derive(Debug, PartialEq)]
pub enum Json {
    Null,
    Bool(bool),
    Number(JsonNumber),
    String(String),
    Array(Vec<Json>),
    Object(Vec<(String, Json)>),
}

impl Json {
    pub open spec fn view_of(self) -> JsonView
        decreases self,
    {
        match self {
            Json::Null => JsonView::Null,
            Json::Bool(b) => JsonView::Bool(b),
            Json::Number(n) => JsonView::Number(n.normal()),
            Json::String(s) => JsonView::String(s@),
            Json::Array(a) => JsonView::Array(
                Seq::new(
                    a@.len(),
                    |i: int|
                        if 0 <= i < a@.len() {
                            a@[i].view_of()
                        } else {
                            JsonView::Null
                        },
                ),
            ),
            Json::Object(o) => JsonView::Object(
                Seq::new(
                    o@.len(),
                    |i: int|
                        if 0 <= i < o@.len() {
                            (o@[i].0@, o@[i].1.view_of())
                        } else {
                            (Seq::empty(), JsonView::Null)
                        },
                ),
            ),
        }
    }
}

impl View for Json {
    type V = JsonView;

    open spec fn view(&self) -> JsonView {
        self.view_of()
    }
}

impl DeepView for Json {
    type V = JsonView;

    open spec fn deep_view(&self) -> JsonView {
        self.view_of()
    }
}

/// The views of a sequence of values.
pub open spec fn views(a: Seq<Json>) -> Seq<JsonView> {
    Seq::new(a.len(), |i: int| a[i]@)
}

/// The views of a sequence of members.
pub open spec fn member_views(o: Seq<(String, Json)>) -> Seq<(Seq<char>, JsonView)> {
    Seq::new(o.len(), |i: int| (o[i].0@, o[i].1@))
}

/// The view of an optional reference to a value.
pub open spec fn opt_view(o: Option<&Json>) -> Option<JsonView> {
    match o {
        Some(v) => Some(v@),
        None => None,
    }
}

pub proof fn lemma_array_view(a: Vec<Json>)
    ensures
        Json::Array(a)@ == JsonView::Array(views(a@)),
{
    assert(Json::Array(a)@->Array_0 =~= views(a@));
}

pub proof fn lemma_object_view(o: Vec<(String, Json)>)
    ensures
        Json::Object(o)@ == JsonView::Object(member_views(o@)),
{
    assert(Json::Object(o)@->Object_0 =~= member_views(o@));
}

proof fn lemma_member_skip(m: Seq<(Seq<char>, JsonView)>, i: int, key: Seq<char>)
    requires
        0 <= i < m.len(),
        m[i].0 != key,
    ensures
        member(m.skip(i), key) == member(m.skip(i + 1), key),
{
    assert(m.skip(i).drop_first() =~= m.skip(i + 1));
}

/// The value of a name is that of its first member.
proof fn lemma_member_first(m: Seq<(Seq<char>, JsonView)>, key: Seq<char>)
    ensures
        match member(m, key) {
            Some(v) => exists|i: int|
                0 <= i < m.len() && first_named(m, i) && m[i].0 == key && m[i].1 == v,
            None => forall|i: int| 0 <= i < m.len() ==> m[i].0 != key,
        },
    decreases m.len(),
{
    if m.len() > 0 {
        if m[0].0 == key {
            assert(first_named(m, 0));
        } else {
            let t = m.drop_first();
            lemma_member_first(t, key);
            match member(t, key) {
                Some(v) => {
                    let i = choose|i: int|
                        0 <= i < t.len() && first_named(t, i) && t[i].0 == key && t[i].1 == v;
                    assert(first_named(m, i + 1)) by {
                        assert forall|k: int| 0 <= k < i + 1 implies (#[trigger] m[k]).0 != m[i + 1].0 by {
                            if k > 0 {
                                assert(m[k] == t[k - 1]);
                            }
                        }
                    }
                },
                None => {
                    assert forall|i: int| 0 <= i < m.len() implies m[i].0 != key by {
                        if i > 0 {
                            assert(m[i] == t[i - 1]);
                        }
                    }
                },
            }
        }
    }
}

/// The first member of a name gives its value.
proof fn lemma_member_at(m: Seq<(Seq<char>, JsonView)>, i: int)
    requires
        0 <= i < m.len(),
        first_named(m, i),
    ensures
        member(m, m[i].0) == Some(m[i].1),
    decreases i,
{
    if i > 0 {
        let t = m.drop_first();
        assert(m[0].0 != m[i].0);
        assert(t[i - 1] == m[i]);
        assert(first_named(t, i - 1)) by {
            assert forall|k: int| 0 <= k < i - 1 implies (#[trigger] t[k]).0 != t[i - 1].0 by {
                assert(t[k] == m[k + 1]);
            }
        }
        lemma_member_at(t, i - 1);
    }
}

/// Every JSON value equals itself.
pub proof fn lemma_same_value_reflexive(a: JsonView)
    ensures
        same_value(a, a),
    decreases a,
{
    match a {
        JsonView::Array(x) => {
            assert forall|i: int| #![trigger x[i]] 0 <= i < x.len() implies same_value(x[i], x[i]) by {
                lemma_same_value_reflexive(x[i]);
            }
        },
        JsonView::Object(x) => {
            assert forall|i: int| #![trigger x[i]] 0 <= i < x.len() && first_named(x, i) implies (member(
                x,
                x[i].0,
            ) matches Some(v) && same_value(x[i].1, v)) by {
                lemma_member_at(x, i);
                lemma_same_value_reflexive(x[i].1);
            }
            assert forall|j: int| #![trigger x[j]] 0 <= j < x.len() implies member(x, x[j].0) is Some by {
                lemma_member_first(x, x[j].0);
            }
        },
        _ => {},
    }
}

/// Equality of JSON values does not depend on the order of its arguments.
pub proof fn lemma_same_value_symmetric(a: JsonView, b: JsonView)
    requires
        same_value(a, b),
    ensures
        same_value(b, a),
    decreases a,
{
    match a {
        JsonView::Array(x) => match b {
            JsonView::Array(y) => {
                assert forall|i: int| #![trigger y[i]] 0 <= i < y.len() implies same_value(y[i], x[i]) by {
                    assert(same_value(x[i], y[i]));
                    lemma_same_value_symmetric(x[i], y[i]);
                }
            },
            _ => {},
        },
        JsonView::Object(x) => match b {
            JsonView::Object(y) => {
                assert forall|j: int| #![trigger y[j]] 0 <= j < y.len() && first_named(y, j) implies (member(
                    x,
                    y[j].0,
                ) matches Some(u) && same_value(y[j].1, u)) by {
                    assert(member(x, y[j].0) is Some);
                    lemma_member_first(x, y[j].0);
                    let u = member(x, y[j].0)->0;
                    let i = choose|i: int|
                        0 <= i < x.len() && first_named(x, i) && x[i].0 == y[j].0 && x[i].1 == u;
                    lemma_member_at(y, j);
                    assert(same_value(x[i].1, y[j].1));
                    lemma_same_value_symmetric(x[i].1, y[j].1);
                }
                assert forall|i: int| #![trigger x[i]] 0 <= i < x.len() implies member(y, x[i].0) is Some by {
                    lemma_member_first(x, x[i].0);
                    let u = member(x, x[i].0)->0;
                    let f = choose|f: int|
                        0 <= f < x.len() && first_named(x, f) && x[f].0 == x[i].0 && x[f].1 == u;
                    assert(member(y, x[f].0) is Some);
                }
            },
            _ => {},
        },
        _ => {},
    }
}

/// A copy of `j`.
fn copy_json(j: &Json) -> (r: Json)
    ensures
        r@ == j@,
    decreases j,
{
    match j {
        Json::Null => Json::Null,
        Json::Bool(b) => Json::Bool(*b),
        Json::Number(n) => Json::Number(*n),
        Json::String(s) => Json::String(s.clone()),
        Json::Array(a) => {
            let mut v: Vec<Json> = Vec::new();
            let mut i: usize = 0;
            while i < a.len()
                invariant
                    *j == Json::Array(*a),
                    i <= a@.len(),
                    v@.len() == i,
                    forall|k: int| 0 <= k < i ==> (#[trigger] v@[k])@ == a@[k]@,
                decreases a@.len() - i,
            {
                proof {
                    vstd::std_specs::vec::axiom_vec_index_decreases(*a, i as int);
                    assert(decreases_to!(*j => (*j)->Array_0));
                    assert(decreases_to!(*j => a@[i as int]));
                }
                let c = copy_json(&a[i]);
                v.push(c);
                i = i + 1;
            }
            proof {
                lemma_array_view(*a);
                lemma_array_view(v);
                assert(views(v@) =~= views(a@));
            }
            Json::Array(v)
        },
        Json::Object(o) => {
            let mut v: Vec<(String, Json)> = Vec::new();
            let mut i: usize = 0;
            while i < o.len()
                invariant
                    *j == Json::Object(*o),
                    i <= o@.len(),
                    v@.len() == i,
                    forall|k: int|
                        0 <= k < i ==> (#[trigger] v@[k]).0@ == o@[k].0@ && v@[k].1@ == o@[k].1@,
                decreases o@.len() - i,
            {
                proof {
                    vstd::std_specs::vec::axiom_vec_index_decreases(*o, i as int);
                    assert(decreases_to!(*j => (*j)->Object_0));
                    assert(decreases_to!(*j => o@[i as int].1));
                }
                let c = copy_json(&o[i].1);
                v.push((o[i].0.clone(), c));
                i = i + 1;
            }
            proof {
                lemma_object_view(*o);
                lemma_object_view(v);
                assert(member_views(v@) =~= member_views(o@));
            }
            Json::Object(v)
        },
    }
}

impl Clone for Json {
    fn clone(&self) -> (r: Self)
        ensures
            r@ == self@,
    {
        copy_json(self)
    }
}

impl Duplicate for Json {
    fn duplicate(&self) -> (r: Self) {
        copy_json(self)
    }
}

/// Whether some member of `members` before position `i` has the name of the
/// member at `i`.
fn named_earlier(members: &Vec<(String, Json)>, i: usize) -> (r: bool)
    requires
        i < members@.len(),
    ensures
        r == !first_named(member_views(members@), i as int),
{
    let ghost m = member_views(members@);
    let mut k: usize = 0;
    while k < i
        invariant
            m == member_views(members@),
            i < members@.len(),
            k <= i,
            forall|j: int| 0 <= j < k ==> (#[trigger] m[j]).0 != m[i as int].0,
        decreases i - k,
    {
        if str_eq(members[k].0.as_str(), members[i].0.as_str()) {
            assert(m[k as int].0 == m[i as int].0);
            return true;
        }
        k = k + 1;
    }
    false
}

/// Whether `a` and `b` are the same value: arrays are compared element by
/// element, objects as maps from names to values.
pub fn json_eq(a: &Json, b: &Json) -> (r: bool)
    ensures
        r == same_value(a@, b@),
    decreases a,
{
    match (a, b) {
        (Json::Null, Json::Null) => true,
        (Json::Bool(x), Json::Bool(y)) => *x == *y,
        (Json::Number(x), Json::Number(y)) => x.normalized() == y.normalized(),
        (Json::String(x), Json::String(y)) => str_eq(x.as_str(), y.as_str()),
        (Json::Array(x), Json::Array(y)) => {
            proof {
                lemma_array_view(*x);
                lemma_array_view(*y);
            }
            if x.len() != y.len() {
                return false;
            }
            let ghost vx = views(x@);
            let ghost vy = views(y@);
            let mut i: usize = 0;
            while i < x.len()
                invariant
                    *a == Json::Array(*x),
                    a@ == JsonView::Array(vx),
                    b@ == JsonView::Array(vy),
                    vx == views(x@),
                    vy == views(y@),
                    x@.len() == y@.len(),
                    i <= x@.len(),
                    forall|k: int| #![trigger vx[k]] 0 <= k < i ==> same_value(vx[k], vy[k]),
                decreases x@.len() - i,
            {
                proof {
                    vstd::std_specs::vec::axiom_vec_index_decreases(*x, i as int);
                }
                if !json_eq(&x[i], &y[i]) {
                    assert(vx[i as int] == x@[i as int]@);
                    return false;
                }
                i = i + 1;
            }
            true
        },
        (Json::Object(x), Json::Object(y)) => {
            proof {
                lemma_object_view(*x);
                lemma_object_view(*y);
            }
            let ghost mx = member_views(x@);
            let ghost my = member_views(y@);
            let mut i: usize = 0;
            while i < x.len()
                invariant
                    *a == Json::Object(*x),
                    a@ == JsonView::Object(mx),
                    b@ == JsonView::Object(my),
                    mx == member_views(x@),
                    my == member_views(y@),
                    i <= x@.len(),
                    forall|k: int|
                        #![trigger mx[k]]
                        0 <= k < i && first_named(mx, k) ==> (member(my, mx[k].0) matches Some(v)
                            && same_value(mx[k].1, v)),
                decreases x@.len() - i,
            {
                if !named_earlier(x, i) {
                    proof {
                        vstd::std_specs::vec::axiom_vec_index_decreases(*x, i as int);
                    }
                    assert(mx[i as int] == (x@[i as int].0@, x@[i as int].1@));
                    match b.get(x[i].0.as_str()) {
                        None => {
                            return false;
                        },
                        Some(v) => {
                            if !json_eq(&x[i].1, v) {
                                return false;
                            }
                        },
                    }
                }
                i = i + 1;
            }
            let mut j: usize = 0;
            while j < y.len()
                invariant
                    a@ == JsonView::Object(mx),
                    b@ == JsonView::Object(my),
                    mx == member_views(x@),
                    my == member_views(y@),
                    j <= y@.len(),
                    forall|k: int|
                        #![trigger mx[k]]
                        0 <= k < x@.len() && first_named(mx, k) ==> (member(my, mx[k].0) matches Some(v)
                            && same_value(mx[k].1, v)),
                    forall|k: int| #![trigger my[k]] 0 <= k < j ==> member(mx, my[k].0) is Some,
                decreases y@.len() - j,
            {
                assert(my[j as int].0 == y@[j as int].0@);
                if a.get(y[j].0.as_str()).is_none() {
                    return false;
                }
                j = j + 1;
            }
            true
        },
        _ => false,
    }
}

impl Json {
    /// The member `key` of an object; `None` for a value that is no object.
    pub fn get(&self, key: &str) -> (r: Option<&Json>)
        ensures
            opt_view(r) == self@.get(key@),
    {
        match self {
            Json::Object(o) => {
                proof {
                    lemma_object_view(*o);
                }
                let ghost m = member_views(o@);
                let mut i: usize = 0;
                assert(m.skip(0) =~= m);
                while i < o.len()
                    invariant
                        m == member_views(o@),
                        self@ == JsonView::Object(m),
                        i <= o@.len(),
                        member(m, key@) == member(m.skip(i as int), key@),
                    decreases o@.len() - i,
                {
                    if str_eq(o[i].0.as_str(), key) {
                        assert(m.skip(i as int)[0] == m[i as int]);
                        return Some(&o[i].1);
                    }
                    proof {
                        lemma_member_skip(m, i as int, key@);
                    }
                    i = i + 1;
                }
                None
            },
            _ => None,
        }
    }

    pub fn as_str(&self) -> (r: Option<&str>)
        ensures
            match r {
                Some(s) => self@.as_str() == Some(s@),
                None => self@.as_str() is None,
            },
    {
        match self {
            Json::String(s) => Some(s.as_str()),
            _ => None,
        }
    }

    pub fn as_bool(&self) -> (r: Option<bool>)
        ensures
            r == self@.as_bool(),
    {
        match self {
            Json::Bool(b) => Some(*b),
            _ => None,
        }
    }

    /// The number, as it was written; its value is `self@.as_number()`.
    pub fn as_number(&self) -> (r: Option<JsonNumber>)
        ensures
            match r {
                Some(n) => self@.as_number() == Some(n.normal()),
                None => self@.as_number() is None,
            },
    {
        match self {
            Json::Number(n) => Some(*n),
            _ => None,
        }
    }

    pub fn as_i64(&self) -> (r: Option<i64>)
        ensures
            r == self@.as_i64(),
    {
        match self {
            Json::Number(n) => n.as_i64(),
            _ => None,
        }
    }

    pub fn as_u64(&self) -> (r: Option<u64>)
        ensures
            r == self@.as_u64(),
    {
        match self {
            Json::Number(n) => n.as_u64(),
            _ => None,
        }
    }

    pub fn as_array(&self) -> (r: Option<&Vec<Json>>)
        ensures
            match r {
                Some(a) => self@.as_array() == Some(views(a@)),
                None => self@.as_array() is None,
            },
    {
        match self {
            Json::Array(a) => {
                proof {
                    lemma_array_view(*a);
                }
                Some(a)
            },
            _ => None,
        }
    }

    pub fn is_null(&self) -> (r: bool)
        ensures
            r == (self@ == JsonView::Null),
    {
        match self {
            Json::Null => true,
            _ => false,
        }
    }

    /// A string value.
    pub fn string(s: &str) -> (r: Json)
        ensures
            r@ == JsonView::String(s@),
    {
        Json::String(s.to_owned())
    }
}

/// An object built from the members `members`, in order.
pub fn object(members: Vec<(String, Json)>) -> (r: Json)
    ensures
        r@ == JsonView::Object(member_views(members@)),
{
    proof {
        lemma_object_view(members);
    }
    Json::Object(members)
}

/// An array of the values `items`, in order.
pub fn array(items: Vec<Json>) -> (r: Json)
    ensures
        r@ == JsonView::Array(views(items@)),
{
    proof {
        lemma_array_view(items);
    }
    Json::Array(items)
}

} // verus!

verus! {

/// The member `key` of the value `o`, if there is a value.
pub fn member_of<'a>(o: Option<&'a Json>, key: &str) -> (r: Option<&'a Json>)
    ensures
        opt_view(r) == opt_get(opt_view(o), key@),
{
    match o {
        Some(v) => v.get(key),
        None => None,
    }
}

/// The string that `o` holds, if it is a string.
pub fn str_of<'a>(o: Option<&'a Json>) -> (r: Option<&'a str>)
    ensures
        match r {
            Some(s) => opt_str(opt_view(o)) == Some(s@),
            None => opt_str(opt_view(o)) is None,
        },
{
    match o {
        Some(v) => v.as_str(),
        None => None,
    }
}

/// The string that `o` holds, or `default`.
pub fn string_or(o: Option<&Json>, default: &str) -> (r: String)
    ensures
        r@ == str_or(opt_str(opt_view(o)), default@),
{
    match str_of(o) {
        Some(s) => s.to_owned(),
        None => default.to_owned(),
    }
}

/// The string that `o` holds, if it is a string, as an owned string.
pub fn owned_str_of(o: Option<&Json>) -> (r: Option<String>)
    ensures
        r.deep_view() == opt_str(opt_view(o)),
{
    match str_of(o) {
        Some(s) => Some(s.to_owned()),
        None => None,
    }
}

/// The integer that `o` holds, if it is one that fits in an `i64`.
pub fn i64_of(o: Option<&Json>) -> (r: Option<i64>)
    ensures
        r == opt_i64(opt_view(o)),
{
    match o {
        Some(v) => v.as_i64(),
        None => None,
    }
}

/// The boolean that `o` holds, if it is one.
pub fn bool_of(o: Option<&Json>) -> (r: Option<bool>)
    ensures
        r == opt_bool(opt_view(o)),
{
    match o {
        Some(v) => v.as_bool(),
        None => None,
    }
}

/// The number that `o` holds, if it is one.
pub fn number_of(o: Option<&Json>) -> (r: Option<JsonNumber>)
    ensures
        match r {
            Some(n) => opt_number(opt_view(o)) == Some(n.normal()),
            None => opt_number(opt_view(o)) is None,
        },
{
    match o {
        Some(v) => v.as_number(),
        None => None,
    }
}

/// The array that `o` holds, if it is one.
pub fn array_of<'a>(o: Option<&'a Json>) -> (r: Option<&'a Vec<Json>>)
    ensures
        match r {
            Some(a) => opt_array(opt_view(o)) == Some(views(a@)),
            None => opt_array(opt_view(o)) is None,
        },
{
    match o {
        Some(v) => v.as_array(),
        None => None,
    }
}

} // verus!
