//! A JSON document model: the values the node reads from requests and
//! database rows and the values it answers with.

use vstd::prelude::*;

use crate::text::str_eq;

verus! {

/// A JSON number as the parser classifies it: a non-negative integer, a
/// negative integer, or a floating-point number held by its IEEE-754 bits.
#[derive(Debug, Clone, Copy, PartialEq, Eq, Structural)]
pub enum JsonNumber {
    PosInt(u64),
    NegInt(i64),
    Float(u64),
}

/// A JSON value. Object members keep their order; lookups find the first
/// member with the key.
#[derive(Debug, PartialEq, Eq)]
pub enum JsonValue {
    Null,
    Bool(bool),
    Number(JsonNumber),
    String(String),
    Array(Vec<JsonValue>),
    Object(Vec<(String, JsonValue)>),
}

/// The value of the first member named `key`.
pub open spec fn members_get(ms: Seq<(String, JsonValue)>, key: Seq<char>) -> Option<JsonValue>
    decreases ms.len(),
{
    if ms.len() == 0 {
        None
    } else if ms[0].0@ == key {
        Some(ms[0].1)
    } else {
        members_get(ms.drop_first(), key)
    }
}

/// Members after setting `key` to `value`: the first member with the key
/// gets the value, or a member is added at the end.
pub open spec fn members_insert(ms: Seq<(String, JsonValue)>, key: String, value: JsonValue) -> Seq<(String, JsonValue)>
    decreases ms.len(),
{
    if ms.len() == 0 {
        seq![(key, value)]
    } else if ms[0].0@ == key@ {
        ms.update(0, (ms[0].0, value))
    } else {
        seq![ms[0]] + members_insert(ms.drop_first(), key, value)
    }
}

/// `Value::get` with a string key: the member of an object, nothing otherwise.
pub open spec fn json_get(v: JsonValue, key: Seq<char>) -> Option<JsonValue> {
    match v {
        JsonValue::Object(ms) => members_get(ms@, key),
        _ => None,
    }
}

/// `Value::as_str`.
pub open spec fn json_str(v: Option<JsonValue>) -> Option<Seq<char>> {
    match v {
        Some(JsonValue::String(s)) => Some(s@),
        _ => None,
    }
}

/// `Value::as_u64`.
pub open spec fn json_u64(v: Option<JsonValue>) -> Option<u64> {
    match v {
        Some(JsonValue::Number(JsonNumber::PosInt(n))) => Some(n),
        _ => None,
    }
}

/// `Value::as_i64`.
pub open spec fn json_i64(v: Option<JsonValue>) -> Option<i64> {
    match v {
        Some(JsonValue::Number(JsonNumber::PosInt(n))) => if n <= i64::MAX {
            Some(n as i64)
        } else {
            None
        },
        Some(JsonValue::Number(JsonNumber::NegInt(n))) => Some(n),
        _ => None,
    }
}

/// `Value::as_bool`.
pub open spec fn json_bool(v: Option<JsonValue>) -> Option<bool> {
    match v {
        Some(JsonValue::Bool(b)) => Some(b),
        _ => None,
    }
}

/// `Value::as_array`.
pub open spec fn json_array(v: Option<JsonValue>) -> Option<Seq<JsonValue>> {
    match v {
        Some(JsonValue::Array(a)) => Some(a@),
        _ => None,
    }
}

/// The member named `key` among object members.
pub fn members_lookup<'a>(ms: &'a Vec<(String, JsonValue)>, key: &str) -> (r: Option<&'a JsonValue>)
    ensures
        match r {
            Some(v) => members_get(ms@, key@) == Some(*v),
            None => members_get(ms@, key@) is None,
        },
{
    let n: usize = ms.len();
    let mut i: usize = 0;
    assert(ms@.subrange(0, n as int) =~= ms@);
    while i < n
        invariant
            n == ms@.len(),
            i <= n,
            members_get(ms@, key@) == members_get(ms@.subrange(i as int, n as int), key@),
        decreases n - i,
    {
        assert(ms@.subrange(i as int, n as int).drop_first() =~= ms@.subrange(i + 1, n as int));
        if str_eq(ms[i].0.as_str(), key) {
            return Some(&ms[i].1);
        }
        i = i + 1;
    }
    None
}

impl JsonValue {
    /// The member named `key` of an object; nothing for other values.
    pub fn get(&self, key: &str) -> (r: Option<&JsonValue>)
        ensures
            match r {
                Some(v) => json_get(*self, key@) == Some(*v),
                None => json_get(*self, key@) is None,
            },
    {
        match self {
            JsonValue::Object(ms) => members_lookup(ms, key),
            _ => None,
        }
    }

    pub fn as_str(&self) -> (r: Option<&str>)
        ensures
            match r {
                Some(s) => json_str(Some(*self)) == Some(s@),
                None => json_str(Some(*self)) is None,
            },
    {
        match self {
            JsonValue::String(s) => Some(s.as_str()),
            _ => None,
        }
    }

    pub fn as_u64(&self) -> (r: Option<u64>)
        ensures
            r == json_u64(Some(*self)),
    {
        match self {
            JsonValue::Number(JsonNumber::PosInt(n)) => Some(*n),
            _ => None,
        }
    }

    pub fn as_i64(&self) -> (r: Option<i64>)
        ensures
            r == json_i64(Some(*self)),
    {
        match self {
            JsonValue::Number(JsonNumber::PosInt(n)) => if *n <= i64::MAX as u64 {
                Some(*n as i64)
            } else {
                None
            },
            JsonValue::Number(JsonNumber::NegInt(n)) => Some(*n),
            _ => None,
        }
    }

    pub fn as_bool(&self) -> (r: Option<bool>)
        ensures
            r == json_bool(Some(*self)),
    {
        match self {
            JsonValue::Bool(b) => Some(*b),
            _ => None,
        }
    }

    pub fn as_array(&self) -> (r: Option<&Vec<JsonValue>>)
        ensures
            match r {
                Some(a) => json_array(Some(*self)) == Some(a@),
                None => json_array(Some(*self)) is None,
            },
    {
        match self {
            JsonValue::Array(a) => Some(a),
            _ => None,
        }
    }
}

/// The string of `v[key]`, if it is one.
pub fn get_str<'a>(v: &'a JsonValue, key: &str) -> (r: Option<&'a str>)
    ensures
        match r {
            Some(s) => json_str(json_get(*v, key@)) == Some(s@),
            None => json_str(json_get(*v, key@)) is None,
        },
{
    match v.get(key) {
        Some(x) => x.as_str(),
        None => None,
    }
}

/// A non-negative integer value (`Value::from(u64)`).
pub fn ju64(n: u64) -> (v: JsonValue)
    ensures
        v == JsonValue::Number(JsonNumber::PosInt(n)),
{
    JsonValue::Number(JsonNumber::PosInt(n))
}

/// The JSON number of a signed integer (`Value::from(i64)`).
pub open spec fn i64_number(n: i64) -> JsonNumber {
    if n >= 0 {
        JsonNumber::PosInt(n as u64)
    } else {
        JsonNumber::NegInt(n)
    }
}

/// A signed integer value.
pub fn ji64(n: i64) -> (v: JsonValue)
    ensures
        v == JsonValue::Number(i64_number(n)),
{
    if n >= 0 {
        JsonValue::Number(JsonNumber::PosInt(n as u64))
    } else {
        JsonValue::Number(JsonNumber::NegInt(n))
    }
}

/// An object member.
pub fn member(key: &str, value: JsonValue) -> (m: (String, JsonValue))
    ensures
        m.0@ == key@,
        m.1 == value,
{
    (String::from_str(key), value)
}

/// Sets `key` to `value` among object members.
pub fn members_set(ms: &mut Vec<(String, JsonValue)>, key: String, value: JsonValue)
    ensures
        final(ms)@ == members_insert(old(ms)@, key, value),
{
    let n: usize = ms.len();
    let mut i: usize = 0;
    while i < n
        invariant
            n == ms@.len(),
            i <= n,
            ms@ == old(ms)@,
            forall|j: int| 0 <= j < i ==> ms@[j].0@ != key@,
        decreases n - i,
    {
        if str_eq(ms[i].0.as_str(), key.as_str()) {
            let k = ms[i].0.clone();
            ms.set(i, (k, value));
            proof {
                lemma_members_insert_at(old(ms)@, key, value, i as int);
            }
            return;
        }
        i = i + 1;
    }
    proof {
        lemma_members_insert_absent(old(ms)@, key, value);
    }
    ms.push((key, value));
}

proof fn lemma_members_insert_at(ms: Seq<(String, JsonValue)>, key: String, value: JsonValue, i: int)
    requires
        0 <= i < ms.len(),
        ms[i].0@ == key@,
        forall|j: int| 0 <= j < i ==> ms[j].0@ != key@,
    ensures
        members_insert(ms, key, value) == ms.update(i, (ms[i].0, value)),
    decreases i,
{
    if i > 0 {
        lemma_members_insert_at(ms.drop_first(), key, value, i - 1);
        assert(seq![ms[0]] + ms.drop_first().update(i - 1, (ms[i].0, value)) =~= ms.update(i, (ms[i].0, value)));
    }
}

proof fn lemma_members_insert_absent(ms: Seq<(String, JsonValue)>, key: String, value: JsonValue)
    requires
        forall|j: int| 0 <= j < ms.len() ==> ms[j].0@ != key@,
    ensures
        members_insert(ms, key, value) == ms.push((key, value)),
    decreases ms.len(),
{
    if ms.len() > 0 {
        lemma_members_insert_absent(ms.drop_first(), key, value);
        assert(seq![ms[0]] + ms.drop_first().push((key, value)) =~= ms.push((key, value)));
    }
}

} // verus!

verus! {

/// The mathematical form of a JSON value: strings as character sequences.
pub enum JsonView {
    Null,
    Bool(bool),
    Number(JsonNumber),
    Str(Seq<char>),
    Array(Seq<JsonView>),
    Object(Seq<(Seq<char>, JsonView)>),
}

/// The mathematical form of a JSON value.
pub open spec fn jview(v: JsonValue) -> JsonView
    decreases v, 0nat,
{
    match v {
        JsonValue::Null => JsonView::Null,
        JsonValue::Bool(b) => JsonView::Bool(b),
        JsonValue::Number(n) => JsonView::Number(n),
        JsonValue::String(s) => JsonView::Str(s@),
        JsonValue::Array(a) => JsonView::Array(jviews(a@)),
        JsonValue::Object(ms) => JsonView::Object(jmembers(ms@)),
    }
}

/// The mathematical forms of a list of values.
pub open spec fn jviews(s: Seq<JsonValue>) -> Seq<JsonView>
    decreases s, s.len(),
{
    if s.len() == 0 {
        Seq::empty()
    } else {
        jviews(s.drop_last()).push(jview(s.last()))
    }
}

/// The mathematical forms of object members.
pub open spec fn jmembers(ms: Seq<(String, JsonValue)>) -> Seq<(Seq<char>, JsonView)>
    decreases ms, ms.len(),
{
    if ms.len() == 0 {
        Seq::empty()
    } else {
        jmembers(ms.drop_last()).push((ms.last().0@, jview(ms.last().1)))
    }
}

} // verus!

verus! {

pub proof fn lemma_jmembers_push(ms: Seq<(String, JsonValue)>, m: (String, JsonValue))
    ensures
        jmembers(ms.push(m)) == jmembers(ms).push((m.0@, jview(m.1))),
{
    assert(ms.push(m).drop_last() =~= ms);
}

/// An object built from members given in order.
pub open spec fn jobject(ms: Seq<(Seq<char>, JsonView)>) -> JsonView {
    JsonView::Object(ms)
}

/// JSON of an optional string: the string, or null.
pub open spec fn jopt_str(s: Option<Seq<char>>) -> JsonView {
    match s {
        Some(t) => JsonView::Str(t),
        None => JsonView::Null,
    }
}

/// JSON of an optional string.
pub fn opt_string_json(s: Option<String>) -> (v: JsonValue)
    ensures
        jview(v) == jopt_str(match s { Some(t) => Some(t@), None => None }),
{
    match s {
        Some(t) => JsonValue::String(t),
        None => JsonValue::Null,
    }
}

/// Object members built one at a time.
pub struct ObjectBuilder {
    members: Vec<(String, JsonValue)>,
}

impl ObjectBuilder {
    pub closed spec fn view(self) -> Seq<(Seq<char>, JsonView)> {
        jmembers(self.members@)
    }

    pub fn new() -> (b: Self)
        ensures
            b.view() == Seq::<(Seq<char>, JsonView)>::empty(),
    {
        ObjectBuilder { members: Vec::new() }
    }

    /// Adds a member at the end.
    pub fn add(&mut self, key: &str, value: JsonValue)
        ensures
            final(self).view() == old(self).view().push((key@, jview(value))),
    {
        let m = member(key, value);
        proof {
            lemma_jmembers_push(self.members@, m);
        }
        self.members.push(m);
    }

    /// The object.
    pub fn build(self) -> (v: JsonValue)
        ensures
            jview(v) == JsonView::Object(self.view()),
    {
        JsonValue::Object(self.members)
    }
}

} // verus!

verus! {

/// The value of the first member named `key` (views).
pub open spec fn jget(ms: Seq<(Seq<char>, JsonView)>, key: Seq<char>) -> Option<JsonView>
    decreases ms.len(),
{
    if ms.len() == 0 {
        None
    } else if ms[0].0 == key {
        Some(ms[0].1)
    } else {
        jget(ms.drop_first(), key)
    }
}

/// Members after setting `key` to `value` (views): the first member with the
/// key gets the value, or a member is added at the end.
pub open spec fn jput(ms: Seq<(Seq<char>, JsonView)>, key: Seq<char>, value: JsonView) -> Seq<(Seq<char>, JsonView)>
    decreases ms.len(),
{
    if ms.len() == 0 {
        seq![(key, value)]
    } else if ms[0].0 == key {
        ms.update(0, (key, value))
    } else {
        seq![ms[0]] + jput(ms.drop_first(), key, value)
    }
}

/// `v.get(key)` on an optional value (views).
pub open spec fn jmember(v: Option<JsonView>, key: Seq<char>) -> Option<JsonView> {
    match v {
        Some(JsonView::Object(ms)) => jget(ms, key),
        _ => None,
    }
}

/// `Value::as_bool` (views).
pub open spec fn jbool(v: Option<JsonView>) -> Option<bool> {
    match v {
        Some(JsonView::Bool(b)) => Some(b),
        _ => None,
    }
}

/// `Value::as_str` (views).
pub open spec fn jstring(v: Option<JsonView>) -> Option<Seq<char>> {
    match v {
        Some(JsonView::Str(s)) => Some(s),
        _ => None,
    }
}

/// The view of an optional value.
pub open spec fn opt_jview(v: Option<JsonValue>) -> Option<JsonView> {
    match v {
        Some(x) => Some(jview(x)),
        None => None,
    }
}

/// The views of members, one by one.
pub proof fn lemma_jmembers_index(ms: Seq<(String, JsonValue)>)
    ensures
        jmembers(ms).len() == ms.len(),
        forall|j: int| 0 <= j < ms.len() ==> #[trigger] jmembers(ms)[j] == (ms[j].0@, jview(ms[j].1)),
    decreases ms.len(),
{
    if ms.len() > 0 {
        lemma_jmembers_index(ms.drop_last());
    }
}

/// The views of values, one by one.
pub proof fn lemma_jviews_index(s: Seq<JsonValue>)
    ensures
        jviews(s).len() == s.len(),
        forall|j: int| 0 <= j < s.len() ==> #[trigger] jviews(s)[j] == jview(s[j]),
    decreases s.len(),
{
    if s.len() > 0 {
        lemma_jviews_index(s.drop_last());
    }
}

/// Setting a member commutes with taking views.
pub proof fn lemma_jmembers_insert(ms: Seq<(String, JsonValue)>, key: String, value: JsonValue)
    ensures
        jmembers(members_insert(ms, key, value)) == jput(jmembers(ms), key@, jview(value)),
    decreases ms.len(),
{
    let r = members_insert(ms, key, value);
    lemma_jmembers_index(ms);
    lemma_jmembers_index(r);
    if ms.len() == 0 {
        assert(jmembers(r) =~= seq![(key@, jview(value))]);
    } else if ms[0].0@ == key@ {
        assert(jmembers(r) =~= jmembers(ms).update(0, (key@, jview(value))));
    } else {
        let rest = ms.drop_first();
        let rr = members_insert(rest, key, value);
        lemma_jmembers_insert(rest, key, value);
        lemma_jmembers_index(rest);
        lemma_jmembers_index(rr);
        assert(jmembers(ms).drop_first() =~= jmembers(rest));
        assert(jmembers(r) =~= seq![jmembers(ms)[0]] + jmembers(rr));
    }
}

/// Looking a member up commutes with taking views.
pub proof fn lemma_jmembers_get(ms: Seq<(String, JsonValue)>, key: Seq<char>)
    ensures
        jget(jmembers(ms), key) == opt_jview(members_get(ms, key)),
    decreases ms.len(),
{
    lemma_jmembers_index(ms);
    if ms.len() > 0 {
        let rest = ms.drop_first();
        lemma_jmembers_get(rest, key);
        lemma_jmembers_index(rest);
        assert(jmembers(ms).drop_first() =~= jmembers(rest));
    }
}

/// A member reads back what was set under its key; other keys are unaffected.
pub proof fn lemma_jget_jput(ms: Seq<(Seq<char>, JsonView)>, key: Seq<char>, value: JsonView, q: Seq<char>)
    ensures
        jget(jput(ms, key, value), q) == if q == key { Some(value) } else { jget(ms, q) },
    decreases ms.len(),
{
    let p = jput(ms, key, value);
    if ms.len() == 0 {
        assert(p.drop_first() =~= Seq::<(Seq<char>, JsonView)>::empty());
        assert(jget(p.drop_first(), q) is None);
    } else if ms[0].0 == key {
        assert(p == ms.update(0, (key, value)));
        assert(p[0] == (key, value));
        assert(p.drop_first() =~= ms.drop_first());
    } else {
        let t = jput(ms.drop_first(), key, value);
        lemma_jget_jput(ms.drop_first(), key, value, q);
        assert(p == seq![ms[0]] + t);
        assert(p[0] == ms[0]);
        assert(p.drop_first() =~= t);
    }
}

} // verus!

verus! {

use crate::text::{hex_char, hex_digit, push_char};

/// The JSON escape of one character, as `serde_json` writes it: `"` and `\`
/// and the control characters below U+0020 are escaped, the common ones by
/// their short forms, the others as `\u00XX` in lower-case hexadecimal.
pub open spec fn escape_char(c: char) -> Seq<char> {
    if c == '"' {
        seq!['\\', '"']
    } else if c == '\\' {
        seq!['\\', '\\']
    } else if c == '\x08' {
        seq!['\\', 'b']
    } else if c == '\x0c' {
        seq!['\\', 'f']
    } else if c == '\n' {
        seq!['\\', 'n']
    } else if c == '\r' {
        seq!['\\', 'r']
    } else if c == '\t' {
        seq!['\\', 't']
    } else if (c as u32) < 0x20 {
        seq!['\\', 'u', '0', '0', hex_digit(((c as u32) / 16) as nat), hex_digit(((c as u32) % 16) as nat)]
    } else {
        seq![c]
    }
}

/// The escaped characters of a JSON string, without the quotes.
pub open spec fn json_escape(s: Seq<char>) -> Seq<char>
    decreases s.len(),
{
    if s.len() == 0 {
        Seq::empty()
    } else {
        json_escape(s.drop_last()) + escape_char(s.last())
    }
}

/// The JSON text of a string: the escaped characters between quotes.
pub open spec fn json_string_text(s: Seq<char>) -> Seq<char> {
    seq!['"'] + json_escape(s) + seq!['"']
}

fn push_escaped(out: &mut String, c: char)
    ensures
        final(out)@ == old(out)@ + escape_char(c),
{
    let code: u32 = c as u32;
    if c == '"' {
        push_char(out, '\\');
        push_char(out, '"');
    } else if c == '\\' {
        push_char(out, '\\');
        push_char(out, '\\');
    } else if c == '\x08' {
        push_char(out, '\\');
        push_char(out, 'b');
    } else if c == '\x0c' {
        push_char(out, '\\');
        push_char(out, 'f');
    } else if c == '\n' {
        push_char(out, '\\');
        push_char(out, 'n');
    } else if c == '\r' {
        push_char(out, '\\');
        push_char(out, 'r');
    } else if c == '\t' {
        push_char(out, '\\');
        push_char(out, 't');
    } else if code < 0x20 {
        push_char(out, '\\');
        push_char(out, 'u');
        push_char(out, '0');
        push_char(out, '0');
        push_char(out, hex_char((code / 16) as u8));
        push_char(out, hex_char((code % 16) as u8));
    } else {
        push_char(out, c);
    }
    assert(final(out)@ =~= old(out)@ + escape_char(c));
}

/// Appends the JSON text of a string.
pub fn push_json_string(out: &mut String, s: &str)
    ensures
        final(out)@ == old(out)@ + json_string_text(s@),
{
    let ghost start = out@;
    let cs = crate::text::chars_of(s);
    push_char(out, '"');
    let n: usize = cs.len();
    let mut i: usize = 0;
    while i < n
        invariant
            n == cs@.len(),
            cs@ == s@,
            i <= n,
            out@ == start + seq!['"'] + json_escape(cs@.subrange(0, i as int)),
        decreases n - i,
    {
        assert(cs@.subrange(0, i + 1).drop_last() =~= cs@.subrange(0, i as int));
        push_escaped(out, cs[i]);
        i = i + 1;
    }
    assert(cs@.subrange(0, n as int) =~= cs@);
    push_char(out, '"');
    assert(out@ =~= start + json_string_text(s@));
}

} // verus!

verus! {

/// Escaping at most multiplies the length by six.
pub proof fn lemma_json_escape_len(s: Seq<char>)
    ensures
        json_escape(s).len() <= 6 * s.len(),
    decreases s.len(),
{
    if s.len() > 0 {
        lemma_json_escape_len(s.drop_last());
    }
}

} // verus!
