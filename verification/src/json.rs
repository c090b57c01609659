//! JSON values as the agent reads them, and the accessors that its logic uses.

use vstd::prelude::*;

use crate::outside;
use crate::text;

verus! {

/// A JSON value. A number that is not an integer is kept in its textual form.
#[derive(Debug)]
pub enum Json {
    Null,
    Bool(bool),
    Unsigned(u64),
    Negative(i64),
    Float(String),
    Text(String),
    List(Vec<Json>),
    Table(Vec<(String, Json)>),
}

/// What a JSON value says.
pub ghost enum JsonText {
    Null,
    Bool(bool),
    Unsigned(u64),
    Negative(i64),
    Float(Seq<char>),
    Text(Seq<char>),
    List(Seq<JsonText>),
    Table(Seq<(Seq<char>, JsonText)>),
}

impl Json {
    /// What the value says, and all that is in it.
    pub open spec fn said(self) -> JsonText
        decreases self,
    {
        match self {
            Json::Null => JsonText::Null,
            Json::Bool(b) => JsonText::Bool(b),
            Json::Unsigned(n) => JsonText::Unsigned(n),
            Json::Negative(n) => JsonText::Negative(n),
            Json::Float(s) => JsonText::Float(s@),
            Json::Text(s) => JsonText::Text(s@),
            Json::List(v) => JsonText::List(
                Seq::new(
                    v@.len(),
                    |i: int|
                        if 0 <= i < v@.len() {
                            v@[i].said()
                        } else {
                            JsonText::Null
                        },
                ),
            ),
            Json::Table(v) => JsonText::Table(
                Seq::new(
                    v@.len(),
                    |i: int|
                        if 0 <= i < v@.len() {
                            (v@[i].0@, v@[i].1.said())
                        } else {
                            (Seq::empty(), JsonText::Null)
                        },
                ),
            ),
        }
    }
}

impl View for Json {
    type V = JsonText;

    open spec fn view(&self) -> JsonText {
        self.said()
    }
}

/// What some values say.
pub open spec fn values(v: Seq<Json>) -> Seq<JsonText> {
    v.map_values(|j: Json| j@)
}

/// What the members of an object say.
pub open spec fn members(v: Seq<(String, Json)>) -> Seq<(Seq<char>, JsonText)> {
    v.map_values(|m: (String, Json)| (m.0@, m.1@))
}

pub open spec fn opt_value(o: Option<Json>) -> Option<JsonText> {
    match o {
        Some(j) => Some(j@),
        None => None,
    }
}

/// The value stored under `key` among the members of an object.
pub open spec fn lookup(members: Seq<(Seq<char>, JsonText)>, key: Seq<char>) -> Option<JsonText>
    decreases members.len(),
{
    if members.len() == 0 {
        None
    } else if members.last().0 == key {
        Some(members.last().1)
    } else {
        lookup(members.drop_last(), key)
    }
}

impl JsonText {
    /// The member `key` of an object; nothing for any other value.
    pub open spec fn member(self, key: Seq<char>) -> Option<JsonText> {
        match self {
            JsonText::Table(members) => lookup(members, key),
            _ => None,
        }
    }

    /// The text of a string value.
    pub open spec fn text(self) -> Option<Seq<char>> {
        match self {
            JsonText::Text(s) => Some(s),
            _ => None,
        }
    }

    /// The text of the member `key`, when there is one and it is a string.
    pub open spec fn member_text(self, key: Seq<char>) -> Option<Seq<char>> {
        match self.member(key) {
            Some(j) => j.text(),
            None => None,
        }
    }

    pub open spec fn member_text_or(self, key: Seq<char>, default: Seq<char>) -> Seq<char> {
        match self.member_text(key) {
            Some(s) => s,
            None => default,
        }
    }

    /// The items of an array.
    pub open spec fn items(self) -> Option<Seq<JsonText>> {
        match self {
            JsonText::List(v) => Some(v),
            _ => None,
        }
    }

    pub open spec fn member_items(self, key: Seq<char>) -> Option<Seq<JsonText>> {
        match self.member(key) {
            Some(j) => j.items(),
            None => None,
        }
    }

    /// The members of an object.
    pub open spec fn entries(self) -> Option<Seq<(Seq<char>, JsonText)>> {
        match self {
            JsonText::Table(v) => Some(v),
            _ => None,
        }
    }

    pub open spec fn unsigned(self) -> Option<u64> {
        match self {
            JsonText::Unsigned(n) => Some(n),
            _ => None,
        }
    }

    pub open spec fn member_unsigned(self, key: Seq<char>) -> Option<u64> {
        match self.member(key) {
            Some(j) => j.unsigned(),
            None => None,
        }
    }

    /// An integer that fits in sixty-four signed bits.
    pub open spec fn signed(self) -> Option<i64> {
        match self {
            JsonText::Unsigned(n) => if n <= i64::MAX {
                Some(n as i64)
            } else {
                None
            },
            JsonText::Negative(n) => Some(n),
            _ => None,
        }
    }

    pub open spec fn member_signed(self, key: Seq<char>) -> Option<i64> {
        match self.member(key) {
            Some(j) => j.signed(),
            None => None,
        }
    }

    pub open spec fn boolean(self) -> Option<bool> {
        match self {
            JsonText::Bool(b) => Some(b),
            _ => None,
        }
    }

    pub open spec fn member_boolean(self, key: Seq<char>) -> Option<bool> {
        match self.member(key) {
            Some(j) => j.boolean(),
            None => None,
        }
    }
}

pub proof fn lemma_list(v: Vec<Json>)
    ensures
        Json::List(v)@ == JsonText::List(values(v@)),
{
    assert(Json::List(v)@->List_0 =~= values(v@));
}

pub proof fn lemma_table(v: Vec<(String, Json)>)
    ensures
        Json::Table(v)@ == JsonText::Table(members(v@)),
{
    assert(Json::Table(v)@->Table_0 =~= members(v@));
}

impl Json {
    /// The member `key` of an object.
    pub fn get(&self, key: &str) -> (r: Option<&Json>)
        ensures
            match r {
                Some(j) => self@.member(key@) == Some(j@),
                None => self@.member(key@) is None,
            },
    {
        match self {
            Json::Table(v) => {
                let ghost all = members(v@);
                let mut i: usize = v.len();
                proof {
                    lemma_table(*v);
                    assert(all.take(i as int) =~= all);
                }
                while i > 0
                    invariant
                        i <= v.len(),
                        all == members(v@),
                        self@ == JsonText::Table(all),
                        lookup(all, key@) == lookup(all.take(i as int), key@),
                    decreases i,
                {
                    assert(all.take(i as int).drop_last() =~= all.take(i - 1));
                    assert(all.take(i as int).last() == (v@[i - 1].0@, v@[i - 1].1@));
                    i = i - 1;
                    if text::same(&v[i].0, key) {
                        return Some(&v[i].1);
                    }
                }
                None
            },
            _ => None,
        }
    }

    /// The text of a string value.
    pub fn as_str(&self) -> (r: Option<String>)
        ensures
            text::opt_text(r) == self@.text(),
    {
        match self {
            Json::Text(s) => Some(s.clone()),
            _ => None,
        }
    }

    /// The text of the member `key`, when there is one and it is a string.
    pub fn get_str(&self, key: &str) -> (r: Option<String>)
        ensures
            text::opt_text(r) == self@.member_text(key@),
    {
        match self.get(key) {
            Some(j) => j.as_str(),
            None => None,
        }
    }

    /// The text of the member `key`, or a default.
    pub fn get_str_or(&self, key: &str, default: &str) -> (r: String)
        ensures
            r@ == self@.member_text_or(key@, default@),
    {
        match self.get_str(key) {
            Some(s) => s,
            None => default.to_owned(),
        }
    }

    pub fn as_u64(&self) -> (r: Option<u64>)
        ensures
            r == self@.unsigned(),
    {
        match self {
            Json::Unsigned(n) => Some(*n),
            _ => None,
        }
    }

    pub fn get_u64(&self, key: &str) -> (r: Option<u64>)
        ensures
            r == self@.member_unsigned(key@),
    {
        match self.get(key) {
            Some(j) => j.as_u64(),
            None => None,
        }
    }

    /// An integer that fits in sixty-four signed bits.
    pub fn as_i64(&self) -> (r: Option<i64>)
        ensures
            r == self@.signed(),
    {
        match self {
            Json::Unsigned(n) => if *n <= i64::MAX as u64 {
                Some(*n as i64)
            } else {
                None
            },
            Json::Negative(n) => Some(*n),
            _ => None,
        }
    }

    pub fn get_i64(&self, key: &str) -> (r: Option<i64>)
        ensures
            r == self@.member_signed(key@),
    {
        match self.get(key) {
            Some(j) => j.as_i64(),
            None => None,
        }
    }

    pub fn as_bool(&self) -> (r: Option<bool>)
        ensures
            r == self@.boolean(),
    {
        match self {
            Json::Bool(b) => Some(*b),
            _ => None,
        }
    }

    pub fn get_bool(&self, key: &str) -> (r: Option<bool>)
        ensures
            r == self@.member_boolean(key@),
    {
        match self.get(key) {
            Some(j) => j.as_bool(),
            None => None,
        }
    }

    /// The items of an array.
    pub fn as_array(&self) -> (r: Option<&Vec<Json>>)
        ensures
            match r {
                Some(v) => self@.items() == Some(values(v@)),
                None => self@.items() is None,
            },
    {
        match self {
            Json::List(v) => {
                proof {
                    lemma_list(*v);
                }
                Some(v)
            },
            _ => None,
        }
    }

    pub fn get_array(&self, key: &str) -> (r: Option<&Vec<Json>>)
        ensures
            match r {
                Some(v) => self@.member_items(key@) == Some(values(v@)),
                None => self@.member_items(key@) is None,
            },
    {
        match self.get(key) {
            Some(j) => j.as_array(),
            None => None,
        }
    }

    /// The members of an object.
    pub fn as_object(&self) -> (r: Option<&Vec<(String, Json)>>)
        ensures
            match r {
                Some(v) => self@.entries() == Some(members(v@)),
                None => self@.entries() is None,
            },
    {
        match self {
            Json::Table(v) => {
                proof {
                    lemma_table(*v);
                }
                Some(v)
            },
            _ => None,
        }
    }
}

/// A text as a value.
pub fn word(s: &str) -> (r: Json)
    ensures
        r@ == JsonText::Text(s@),
{
    Json::Text(s.to_owned())
}

/// Some values as one.
pub fn list(v: Vec<Json>) -> (r: Json)
    ensures
        r@ == JsonText::List(values(v@)),
{
    proof {
        lemma_list(v);
    }
    Json::List(v)
}

/// An object.
pub fn table(v: Vec<(String, Json)>) -> (r: Json)
    ensures
        r@ == JsonText::Table(members(v@)),
{
    proof {
        lemma_table(v);
    }
    Json::Table(v)
}

/// An object of two members.
pub fn table2(a: &str, x: Json, b: &str, y: Json) -> (r: Json)
    ensures
        r@ == JsonText::Table(seq![(a@, x@), (b@, y@)]),
{
    let v = vec![(a.to_owned(), x), (b.to_owned(), y)];
    assert(members(v@) =~= seq![(a@, x@), (b@, y@)]);
    table(v)
}

/// An object of one member.
pub fn table1(a: &str, x: Json) -> (r: Json)
    ensures
        r@ == JsonText::Table(seq![(a@, x@)]),
{
    let v = vec![(a.to_owned(), x)];
    assert(members(v@) =~= seq![(a@, x@)]);
    table(v)
}

/// An object of three members.
pub fn table3(a: &str, x: Json, b: &str, y: Json, c: &str, z: Json) -> (r: Json)
    ensures
        r@ == JsonText::Table(seq![(a@, x@), (b@, y@), (c@, z@)]),
{
    let v = vec![(a.to_owned(), x), (b.to_owned(), y), (c.to_owned(), z)];
    assert(members(v@) =~= seq![(a@, x@), (b@, y@), (c@, z@)]);
    table(v)
}

/// An object of four members.
pub fn table4(
    a: &str,
    x: Json,
    b: &str,
    y: Json,
    c: &str,
    z: Json,
    d: &str,
    w: Json,
) -> (r: Json)
    ensures
        r@ == JsonText::Table(seq![(a@, x@), (b@, y@), (c@, z@), (d@, w@)]),
{
    let v = vec![(a.to_owned(), x), (b.to_owned(), y), (c.to_owned(), z), (d.to_owned(), w)];
    assert(members(v@) =~= seq![(a@, x@), (b@, y@), (c@, z@), (d@, w@)]);
    table(v)
}

/// The texts among some values.
pub open spec fn strings_in(v: Seq<JsonText>) -> Seq<Seq<char>>
    decreases v.len(),
{
    if v.len() == 0 {
        Seq::empty()
    } else {
        match v.last().text() {
            Some(s) => strings_in(v.drop_last()).push(s),
            None => strings_in(v.drop_last()),
        }
    }
}

/// The texts under a name in some values.
pub open spec fn member_strings(v: Seq<JsonText>, key: Seq<char>) -> Seq<Seq<char>>
    decreases v.len(),
{
    if v.len() == 0 {
        Seq::empty()
    } else {
        match v.last().member_text(key) {
            Some(s) => member_strings(v.drop_last(), key).push(s),
            None => member_strings(v.drop_last(), key),
        }
    }
}

/// The texts among some values.
pub fn strings_of(v: &Vec<Json>) -> (r: Vec<String>)
    ensures
        text::texts(r@) == strings_in(values(v@)),
{
    let ghost all = values(v@);
    let mut r: Vec<String> = Vec::new();
    let mut i: usize = 0;
    assert(text::texts(r@) =~= strings_in(all.take(0)));
    while i < v.len()
        invariant
            i <= v.len(),
            all == values(v@),
            text::texts(r@) == strings_in(all.take(i as int)),
        decreases v.len() - i,
    {
        assert(all.take(i + 1).drop_last() =~= all.take(i as int));
        assert(all.take(i + 1).last() == v@[i as int]@);
        match v[i].as_str() {
            Some(s) => {
                proof {
                    text::lemma_texts_push(r@, s);
                }
                r.push(s);
            },
            None => {},
        }
        i = i + 1;
    }
    assert(all.take(i as int) =~= all);
    r
}

/// The texts under a name in some values.
pub fn member_strings_of(v: &Vec<Json>, key: &str) -> (r: Vec<String>)
    ensures
        text::texts(r@) == member_strings(values(v@), key@),
{
    let ghost all = values(v@);
    let mut r: Vec<String> = Vec::new();
    let mut i: usize = 0;
    assert(text::texts(r@) =~= member_strings(all.take(0), key@));
    while i < v.len()
        invariant
            i <= v.len(),
            all == values(v@),
            text::texts(r@) == member_strings(all.take(i as int), key@),
        decreases v.len() - i,
    {
        assert(all.take(i + 1).drop_last() =~= all.take(i as int));
        assert(all.take(i + 1).last() == v@[i as int]@);
        match v[i].get_str(key) {
            Some(s) => {
                proof {
                    text::lemma_texts_push(r@, s);
                }
                r.push(s);
            },
            None => {},
        }
        i = i + 1;
    }
    assert(all.take(i as int) =~= all);
    r
}

/// A value as compact JSON.
pub open spec fn written(j: JsonText) -> Seq<char>
    decreases j, 0int,
{
    match j {
        JsonText::Null => "null"@,
        JsonText::Bool(b) => if b {
            "true"@
        } else {
            "false"@
        },
        JsonText::Unsigned(n) => text::decimal(n as nat),
        JsonText::Negative(n) => text::decimal_int(n as int),
        JsonText::Float(s) => s,
        JsonText::Text(s) => outside::json_quoted(s),
        JsonText::List(v) => "["@ + written_items(v, v.len() as int) + "]"@,
        JsonText::Table(v) => "{"@ + written_members(v, v.len() as int) + "}"@,
    }
}

/// The first `n` items of an array as compact JSON.
pub open spec fn written_items(v: Seq<JsonText>, n: int) -> Seq<char>
    decreases v, n,
{
    if n <= 0 || n > v.len() {
        Seq::empty()
    } else if n == 1 {
        written(v[0])
    } else {
        written_items(v, n - 1) + ","@ + written(v[n - 1])
    }
}

/// The first `n` members of an object as compact JSON.
pub open spec fn written_members(v: Seq<(Seq<char>, JsonText)>, n: int) -> Seq<char>
    decreases v, n,
{
    if n <= 0 || n > v.len() {
        Seq::empty()
    } else if n == 1 {
        outside::json_quoted(v[0].0) + ":"@ + written(v[0].1)
    } else {
        written_members(v, n - 1) + ","@ + outside::json_quoted(v[n - 1].0) + ":"@ + written(
            v[n - 1].1,
        )
    }
}

impl Json {
    /// The value as compact JSON.
    pub fn write(&self) -> (r: String)
        ensures
            r@ == written(self@),
        decreases self,
    {
        match self {
            Json::Null => "null".to_owned(),
            Json::Bool(b) => if *b {
                "true".to_owned()
            } else {
                "false".to_owned()
            },
            Json::Unsigned(n) => text::number(*n),
            Json::Negative(n) => text::signed_number(*n),
            Json::Float(s) => s.clone(),
            Json::Text(s) => outside::json_quote(s),
            Json::List(v) => {
                proof {
                    lemma_list(*v);
                }
                let ghost all = values(v@);
                let mut out: String = "[".to_owned();
                let ghost head = out@;
                let mut i: usize = 0;
                assert(head + written_items(all, 0) =~= head);
                while i < v.len()
                    invariant
                        i <= v.len(),
                        *self == Json::List(*v),
                        all == values(v@),
                        out@ == head + written_items(all, i as int),
                    decreases v.len() - i,
                {
                    assert(all[i as int] == v@[i as int]@);
                    let ghost before = written_items(all, i as int);
                    if i > 0 {
                        out.push_str(",");
                    }
                    proof {
                        let inner = self->List_0;
                        assert(decreases_to!(*self => inner));
                        assert(decreases_to!(inner => inner[i as int]));
                        assert(decreases_to!(*self => inner[i as int]));
                        assert(inner[i as int] == v@[i as int]);
                    }
                    let item = v[i].write();
                    out.push_str(&item);
                    assert(out@ =~= head + written_items(all, i + 1));
                    i = i + 1;
                }
                out.push_str("]");
                out
            },
            Json::Table(v) => {
                proof {
                    lemma_table(*v);
                }
                let ghost all = members(v@);
                let mut out: String = "{".to_owned();
                let ghost head = out@;
                let mut i: usize = 0;
                assert(head + written_members(all, 0) =~= head);
                while i < v.len()
                    invariant
                        i <= v.len(),
                        *self == Json::Table(*v),
                        all == members(v@),
                        out@ == head + written_members(all, i as int),
                    decreases v.len() - i,
                {
                    assert(all[i as int] == (v@[i as int].0@, v@[i as int].1@));
                    let ghost before = written_members(all, i as int);
                    if i > 0 {
                        out.push_str(",");
                    }
                    let key = outside::json_quote(&v[i].0);
                    out.push_str(&key);
                    out.push_str(":");
                    proof {
                        let inner = self->Table_0;
                        assert(decreases_to!(*self => inner));
                        assert(decreases_to!(inner => inner[i as int]));
                        assert(decreases_to!(inner[i as int] => inner[i as int].1));
                        assert(decreases_to!(*self => inner[i as int].1));
                        assert(inner[i as int] == v@[i as int]);
                    }
                    let item = v[i].1.write();
                    out.push_str(&item);
                    assert(out@ =~= head + written_members(all, i + 1));
                    i = i + 1;
                }
                out.push_str("}");
                out
            },
        }
    }
}

impl Json {
    /// The same value once more.
    pub fn copy(&self) -> (r: Json)
        ensures
            r@ == self@,
        decreases self,
    {
        match self {
            Json::Null => Json::Null,
            Json::Bool(b) => Json::Bool(*b),
            Json::Unsigned(n) => Json::Unsigned(*n),
            Json::Negative(n) => Json::Negative(*n),
            Json::Float(s) => Json::Float(s.clone()),
            Json::Text(s) => Json::Text(s.clone()),
            Json::List(v) => {
                let mut out: Vec<Json> = Vec::new();
                let mut i: usize = 0;
                while i < v.len()
                    invariant
                        i <= v.len(),
                        *self == Json::List(*v),
                        out.len() == i,
                        forall|k: int| 0 <= k < i ==> (#[trigger] out@[k])@ == v@[k]@,
                    decreases v.len() - i,
                {
                    proof {
                        let inner = self->List_0;
                        assert(decreases_to!(*self => inner));
                        assert(decreases_to!(inner => inner[i as int]));
                        assert(decreases_to!(*self => inner[i as int]));
                        assert(inner[i as int] == v@[i as int]);
                    }
                    out.push(v[i].copy());
                    i = i + 1;
                }
                proof {
                    lemma_list(*v);
                    assert(values(out@) =~= values(v@));
                }
                list(out)
            },
            Json::Table(v) => {
                let mut out: Vec<(String, Json)> = Vec::new();
                let mut i: usize = 0;
                while i < v.len()
                    invariant
                        i <= v.len(),
                        *self == Json::Table(*v),
                        out.len() == i,
                        forall|k: int|
                            0 <= k < i ==> (#[trigger] out@[k]).0@ == v@[k].0@ && out@[k].1@
                                == v@[k].1@,
                    decreases v.len() - i,
                {
                    proof {
                        let inner = self->Table_0;
                        assert(decreases_to!(*self => inner));
                        assert(decreases_to!(inner => inner[i as int]));
                        assert(decreases_to!(inner[i as int] => inner[i as int].1));
                        assert(decreases_to!(*self => inner[i as int].1));
                        assert(inner[i as int] == v@[i as int]);
                    }
                    let key = v[i].0.clone();
                    let value = v[i].1.copy();
                    out.push((key, value));
                    i = i + 1;
                }
                proof {
                    lemma_table(*v);
                    assert(members(out@) =~= members(v@));
                }
                table(out)
            },
        }
    }

    /// A copy of the member `key`, or null.
    pub fn get_or_null(&self, key: &str) -> (r: Json)
        ensures
            r@ == self@.member_or_null(key@),
    {
        match self.get(key) {
            Some(j) => j.copy(),
            None => Json::Null,
        }
    }
}

impl JsonText {
    pub open spec fn member_or_null(self, key: Seq<char>) -> JsonText {
        match self.member(key) {
            Some(j) => j,
            None => JsonText::Null,
        }
    }
}

/// The same values once more, behind some others.
pub fn add_copies(out: &mut Vec<Json>, v: &Vec<Json>)
    ensures
        values(final(out)@) == values(old(out)@) + values(v@),
{
    let ghost start = values(out@);
    let ghost all = values(v@);
    let mut i: usize = 0;
    assert(start + all.take(0) =~= start);
    while i < v.len()
        invariant
            i <= v.len(),
            all == values(v@),
            values(out@) == start + all.take(i as int),
        decreases v.len() - i,
    {
        let ghost before = out@;
        let item = v[i].copy();
        out.push(item);
        proof {
            assert(values(out@) =~= values(before).push(item@));
            assert(all[i as int] == v@[i as int]@);
            assert(start + all.take(i + 1) =~= (start + all.take(i as int)).push(all[i as int]));
        }
        i = i + 1;
    }
    assert(all.take(i as int) =~= all);
}

// ---------------------------------------------------------------------------
// Pointers
// ---------------------------------------------------------------------------

/// A step of a pointer, as it is written, and what it stands for.
pub open spec fn unescaped(s: Seq<char>) -> Seq<char> {
    text::replaced(text::replaced(s, "~1"@, "/"@), "~0"@, "~"@)
}

/// The position in an array that a step names.
pub open spec fn position(s: Seq<char>) -> Option<nat> {
    if s.len() > 0 && (s[0] == '+' || (s[0] == '0' && s.len() != 1)) {
        None
    } else {
        text::parsed(s, u64::MAX as nat)
    }
}

/// What one step leads to.
pub open spec fn stepped(j: JsonText, s: Seq<char>) -> Option<JsonText> {
    match j {
        JsonText::Table(v) => lookup(v, unescaped(s)),
        JsonText::List(v) => match position(unescaped(s)) {
            Some(i) => if i < v.len() {
                Some(v[i as int])
            } else {
                None
            },
            None => None,
        },
        _ => None,
    }
}

/// What some steps lead to, one after the other.
pub open spec fn walked(j: JsonText, steps: Seq<Seq<char>>) -> Option<JsonText>
    decreases steps.len(),
{
    if steps.len() == 0 {
        Some(j)
    } else {
        match walked(j, steps.drop_last()) {
            Some(k) => stepped(k, steps.last()),
            None => None,
        }
    }
}

/// What a path, whose steps are separated by slashes, leads to.
pub open spec fn pointed(j: JsonText, path: Seq<char>) -> Option<JsonText> {
    walked(j, text::split(path, '/'))
}

impl Json {
    fn step(&self, s: &str) -> (r: Option<&Json>)
        ensures
            match r {
                Some(j) => stepped(self@, s@) == Some(j@),
                None => stepped(self@, s@) is None,
            },
    {
        proof {
            reveal_strlit("~1");
            reveal_strlit("~0");
        }
        let name = text::replace(&text::replace(s, "~1", "/"), "~0", "~");
        match self {
            Json::Table(v) => {
                proof {
                    lemma_table(*v);
                }
                self.get(&name)
            },
            Json::List(v) => {
                proof {
                    lemma_list(*v);
                }
                let c = text::chars(&name);
                if c.len() > 0 && (c[0] == '+' || (c[0] == '0' && c.len() != 1)) {
                    return None;
                }
                match text::parse_number(&name, u64::MAX) {
                    Some(i) => {
                        if i < v.len() as u64 {
                            let k: usize = i as usize;
                            assert(values(v@)[k as int] == v@[k as int]@);
                            Some(&v[k])
                        } else {
                            None
                        }
                    },
                    None => None,
                }
            },
            _ => None,
        }
    }

    /// What a path, whose steps are separated by slashes, leads to.
    pub fn pointer(&self, path: &str) -> (r: Option<&Json>)
        ensures
            match r {
                Some(j) => pointed(self@, path@) == Some(j@),
                None => pointed(self@, path@) is None,
            },
    {
        let steps = text::split_char(path, '/');
        let ghost all = text::texts(steps@);
        let mut at: &Json = self;
        let mut i: usize = 0;
        assert(all.take(0) =~= Seq::<Seq<char>>::empty());
        while i < steps.len()
            invariant
                i <= steps.len(),
                all == text::texts(steps@),
                all == text::split(path@, '/'),
                walked(self@, all.take(i as int)) == Some(at@),
            decreases steps.len() - i,
        {
            assert(all.take(i + 1).drop_last() =~= all.take(i as int));
            assert(all.take(i + 1).last() == steps@[i as int]@);
            match at.step(&steps[i]) {
                Some(j) => {
                    at = j;
                },
                None => {
                    proof {
                        lemma_lost(self@, all, i + 1);
                    }
                    return None;
                },
            }
            i = i + 1;
        }
        assert(all.take(i as int) =~= all);
        Some(at)
    }
}

proof fn lemma_lost(j: JsonText, steps: Seq<Seq<char>>, i: int)
    requires
        0 <= i <= steps.len(),
        walked(j, steps.take(i)) is None,
    ensures
        walked(j, steps) is None,
    decreases steps.len() - i,
{
    if i < steps.len() {
        assert(steps.take(i + 1).drop_last() =~= steps.take(i));
        lemma_lost(j, steps, i + 1);
    } else {
        assert(steps.take(i) =~= steps);
    }
}

// ---------------------------------------------------------------------------
// Laws
// ---------------------------------------------------------------------------

/// Looking up a name in the members of an object finds its last value, and
/// nothing where no member has the name.
pub proof fn law_lookup(v: Seq<(Seq<char>, JsonText)>, key: Seq<char>, i: int)
    ensures
        0 <= i < v.len() && v[i].0 == key && (forall|k: int|
            i < k < v.len() ==> (#[trigger] v[k]).0 != key) ==> lookup(v, key) == Some(v[i].1),
        (forall|k: int| 0 <= k < v.len() ==> (#[trigger] v[k]).0 != key) ==> lookup(v, key) is None,
    decreases v.len(),
{
    if v.len() > 0 {
        let d = v.drop_last();
        law_lookup(d, key, i);
        assert(v[v.len() - 1] == v.last());
        assert(forall|k: int| 0 <= k < d.len() ==> d[k] == v[k]);
    }
}

/// Looking up a name in two lists of members one after the other.
pub proof fn lemma_lookup_add(
    a: Seq<(Seq<char>, JsonText)>,
    b: Seq<(Seq<char>, JsonText)>,
    key: Seq<char>,
)
    ensures
        lookup(a + b, key) == match lookup(b, key) {
            Some(x) => Some(x),
            None => lookup(a, key),
        },
    decreases b.len(),
{
    if b.len() == 0 {
        assert(a + b =~= a);
    } else {
        assert((a + b).drop_last() =~= a + b.drop_last());
        lemma_lookup_add(a, b.drop_last(), key);
    }
}

/// The members of an object are read by their names and their kinds; a value
/// that is no object has none.
pub proof fn law_members(v: Seq<(Seq<char>, JsonText)>, key: Seq<char>, j: JsonText)
    ensures
        JsonText::Table(v).member(key) == lookup(v, key),
        !(j is Table) ==> j.member(key) is None && j.member_text(key) is None,
        lookup(v, key) matches Some(JsonText::Text(s)) ==> JsonText::Table(v).member_text(key)
            == Some(s),
        lookup(v, key) matches Some(x) ==> (!(x is Text) ==> JsonText::Table(v).member_text(key) is None),
        lookup(v, key) matches Some(JsonText::List(w)) ==> JsonText::Table(v).member_items(key)
            == Some(w),
        lookup(v, key) matches Some(JsonText::Unsigned(n)) ==> JsonText::Table(v).member_unsigned(
            key,
        ) == Some(n) && (n <= i64::MAX ==> JsonText::Table(v).member_signed(key) == Some(n as i64)),
        lookup(v, key) matches Some(JsonText::Negative(n)) ==> JsonText::Table(v).member_signed(key)
            == Some(n) && JsonText::Table(v).member_unsigned(key) is None,
        lookup(v, key) matches Some(JsonText::Bool(b)) ==> JsonText::Table(v).member_boolean(key)
            == Some(b),
{
}

/// A path of one step leads to the member of its name or to the item at its
/// place; a longer one is walked step by step.
pub proof fn law_pointers(j: JsonText, a: Seq<char>, b: Seq<char>, n: nat)
    requires
        !b.contains('/') && !b.contains('~'),
        n <= u64::MAX,
    ensures
        pointed(j, b) == (match j {
            JsonText::Table(v) => lookup(v, b),
            JsonText::List(v) => stepped(j, b),
            _ => None,
        }),
        pointed(j, a.push('/') + b) == match pointed(j, a) {
            Some(k) => pointed(k, b),
            None => None,
        },
        j matches JsonText::List(v) ==> pointed(j, text::decimal(n)) == (if n < v.len() {
            Some(v[n as int])
        } else {
            None
        }),
{
    reveal_strlit("~1");
    reveal_strlit("~0");
    lemma_single(j, b);
    text::law_split_at(a, '/', b);
    let parts = text::split(a, '/');
    text::law_split_at(b, '/', Seq::empty());
    assert(text::split(a.push('/') + b, '/') =~= parts.push(b));
    assert(parts.push(b).drop_last() =~= parts);
    match pointed(j, a) {
        Some(k) => lemma_single(k, b),
        None => {},
    }
    if let JsonText::List(v) = j {
        let d = text::decimal(n);
        text::law_decimal(n);
        text::law_numbers_are_read_back(n, u64::MAX as nat);
        assert forall|i: int| 0 <= i < d.len() implies text::is_digit(#[trigger] d[i]) by {}
        assert(!d.contains('/')) by {
            if d.contains('/') {
                let k = choose|k: int| 0 <= k < d.len() && d[k] == '/';
                assert(text::is_digit(d[k]));
            }
        }
        assert(!d.contains('~')) by {
            if d.contains('~') {
                let k = choose|k: int| 0 <= k < d.len() && d[k] == '~';
                assert(text::is_digit(d[k]));
            }
        }
        lemma_single(j, d);
        lemma_plain_step(d);
        assert(text::is_digit(d[0]));
        assert(position(d) == Some(n)) by {
            if n == 0 {
                assert(d.len() == 1);
            }
        }
    }
}

proof fn lemma_plain_step(b: Seq<char>)
    requires
        !b.contains('~'),
    ensures
        unescaped(b) == b,
{
    reveal_strlit("~1");
    reveal_strlit("~0");
    assert("~1"@.len() == 2 && "~0"@.len() == 2 && "~1"@[0] == '~' && "~0"@[0] == '~');
    lemma_nothing_replaced(b, "~1"@, "/"@);
    lemma_nothing_replaced(b, "~0"@, "~"@);
}

proof fn lemma_nothing_replaced(b: Seq<char>, p: Seq<char>, q: Seq<char>)
    requires
        p.len() > 0,
        p[0] == '~',
        !b.contains('~'),
    ensures
        text::replaced(b, p, q) == b,
{
    text::lemma_first_at(b, p, 0);
    match text::first_at(b, p, 0) {
        Some(i) => {
            assert(b.subrange(i, i + p.len())[0] == b[i]);
            assert(b.contains(b[i]));
        },
        None => {},
    }
}

proof fn lemma_single(j: JsonText, b: Seq<char>)
    requires
        !b.contains('/') && !b.contains('~'),
    ensures
        pointed(j, b) == stepped(j, b),
        unescaped(b) == b,
{
    text::law_split_at(b, '/', Seq::empty());
    lemma_plain_step(b);
    let steps = seq![b];
    assert(steps.drop_last() =~= Seq::<Seq<char>>::empty());
    assert(walked(j, steps.drop_last()) == Some(j));
    assert(walked(j, steps) == stepped(j, b));
}

/// What is written of a value: words for the simple ones, the digits of a
/// number, a text in quotes, and the parts of a list or an object between
/// brackets with commas between them.
pub proof fn law_written(a: JsonText, b: JsonText, s: Seq<char>, t: Seq<char>, n: u64)
    ensures
        written(JsonText::Null) == "null"@,
        written(JsonText::Bool(true)) == "true"@,
        written(JsonText::Bool(false)) == "false"@,
        written(JsonText::Unsigned(n)) == text::decimal(n as nat),
        written(JsonText::Text(s)) == outside::json_quoted(s),
        written(JsonText::List(Seq::empty())) == "["@ + Seq::empty() + "]"@,
        written(JsonText::List(seq![a, b])) == "["@ + (written(a) + ","@ + written(b)) + "]"@,
        written(JsonText::Table(seq![(s, a), (t, b)])) == "{"@ + (outside::json_quoted(s) + ":"@
            + written(a) + ","@ + outside::json_quoted(t) + ":"@ + written(b)) + "}"@,
{
    reveal_with_fuel(written_items, 3);
    reveal_with_fuel(written_members, 3);
    let l = seq![a, b];
    assert(written_items(l, 2) == written(a) + ","@ + written(b));
    let m = seq![(s, a), (t, b)];
    assert(written_members(m, 1) == outside::json_quoted(s) + ":"@ + written(a));
    assert(written_members(m, 2) == outside::json_quoted(s) + ":"@ + written(a) + ","@
        + outside::json_quoted(t) + ":"@ + written(b));
}

/// The texts among some values are those that are texts, in their order.
pub proof fn law_strings(v: Seq<JsonText>, j: JsonText)
    ensures
        strings_in(Seq::empty()).len() == 0,
        j matches JsonText::Text(s) ==> strings_in(v.push(j)) == strings_in(v).push(s),
        !(j is Text) ==> strings_in(v.push(j)) == strings_in(v),
{
    assert(v.push(j).drop_last() =~= v);
}

/// A text among some values is among their texts.
pub proof fn lemma_string_in(v: Seq<JsonText>, i: int)
    requires
        0 <= i < v.len(),
        v[i] is Text,
    ensures
        strings_in(v).contains(v[i]->Text_0),
    decreases v.len(),
{
    let d = v.drop_last();
    if i < d.len() {
        assert(d[i] == v[i]);
        lemma_string_in(d, i);
        let k = choose|k: int| 0 <= k < strings_in(d).len() && strings_in(d)[k] == v[i]->Text_0;
        assert(strings_in(v)[k] == strings_in(d)[k]);
    } else {
        assert(strings_in(v).last() == v[i]->Text_0);
    }
}

} // verus!
