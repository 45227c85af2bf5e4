//! A JSON value as the Herdr replies carry it, with the lookups that the
//! reply handling uses: member access, array indexing and JSON Pointer.

use vstd::prelude::*;

use crate::text::{own, split_char, split_on, str_eq};

verus! {

/// A JSON value. Numbers keep their text; object members keep their order.
pub enum Json {
    Null,
    Bool(bool),
    Number(String),
    Str(String),
    Array(Vec<Json>),
    Object(JsonObject),
}

/// The members of a JSON object, in order; no two members share a key.
pub struct JsonObject {
    entries: Vec<(String, Json)>,
}

/// The index of the member named `key`.
pub open spec fn key_index(entries: Seq<(String, Json)>, key: Seq<char>) -> Option<int> {
    if exists|i: int| 0 <= i < entries.len() && #[trigger] entries[i].0@ == key {
        Some(choose|i: int| 0 <= i < entries.len() && #[trigger] entries[i].0@ == key)
    } else {
        None
    }
}

/// The members after setting `key` to `value`: the member of that name gets
/// the new value in its place, or a new member is added at the end.
pub open spec fn insert_member(entries: Seq<(String, Json)>, key: String, value: Json) -> Seq<
    (String, Json),
> {
    match key_index(entries, key@) {
        Some(i) => entries.update(i, (key, value)),
        None => entries.push((key, value)),
    }
}

/// No two members share a key.
pub open spec fn keys_unique(entries: Seq<(String, Json)>) -> bool {
    forall|i: int, j: int|
        0 <= i < j < entries.len() ==> #[trigger] entries[i].0@ != #[trigger] entries[j].0@
}

impl JsonObject {
    /// The members, in order.
    pub closed spec fn members(self) -> Seq<(String, Json)> {
        self.entries@
    }

    #[verifier::type_invariant]
    spec fn wf(self) -> bool {
        keys_unique(self.entries@)
    }

    /// An object without members.
    pub fn new() -> (o: JsonObject)
        ensures
            o.members() == Seq::<(String, Json)>::empty(),
    {
        JsonObject { entries: Vec::new() }
    }

    /// Sets the member `key` to `value` (`Map::insert`).
    pub fn insert(&mut self, key: String, value: Json)
        ensures
            final(self).members() == insert_member(old(self).members(), key, value),
    {
        proof {
            use_type_invariant(&*self);
        }
        let mut i: usize = 0;
        while i < self.entries.len()
            invariant
                i <= self.entries.len(),
                self.entries@ == old(self).entries@,
                keys_unique(self.entries@),
                forall|j: int| 0 <= j < i ==> #[trigger] self.entries@[j].0@ != key@,
            decreases self.entries.len() - i,
        {
            if crate::text::str_eq(self.entries[i].0.as_str(), key.as_str()) {
                proof {
                    assert(key_index(self.entries@, key@) is Some);
                    let k = key_index(self.entries@, key@).unwrap();
                    assert(k == i) by {
                        if k != i {
                            assert(self.entries@[k].0@ == key@);
                        }
                    }
                }
                let ghost before = self.entries@;
                let mut entries = Vec::new();
                std::mem::swap(&mut entries, &mut self.entries);
                entries.set(i, (key, value));
                assert(keys_unique(entries@)) by {
                    assert forall|a: int, b: int| 0 <= a < b < entries@.len() implies #[trigger] entries@[a].0@
                        != #[trigger] entries@[b].0@ by {
                        if a != i && b != i {
                            assert(entries@[a] == before[a] && entries@[b] == before[b]);
                        } else if a == i {
                            assert(before[a].0@ == key@);
                            assert(entries@[b] == before[b]);
                        } else {
                            assert(before[b].0@ == key@);
                            assert(entries@[a] == before[a]);
                        }
                    }
                }
                self.entries = entries;
                return;
            }
            i = i + 1;
        }
        assert(key_index(self.entries@, key@) is None);
        let ghost before = self.entries@;
        let mut entries = Vec::new();
        std::mem::swap(&mut entries, &mut self.entries);
        entries.push((key, value));
        assert(keys_unique(entries@)) by {
            assert forall|a: int, b: int| 0 <= a < b < entries@.len() implies #[trigger] entries@[a].0@
                != #[trigger] entries@[b].0@ by {
                if b < before.len() {
                    assert(entries@[a] == before[a] && entries@[b] == before[b]);
                } else {
                    assert(entries@[a] == before[a]);
                }
            }
        }
        self.entries = entries;
    }

    /// The members, in order; no two share a key.
    pub fn entries(&self) -> (r: &Vec<(String, Json)>)
        ensures
            r@ == self.members(),
            keys_unique(r@),
    {
        proof {
            use_type_invariant(self);
        }
        &self.entries
    }
}

/// The value of the first member named `key`.
pub open spec fn member(entries: Seq<(String, Json)>, key: Seq<char>) -> Option<Json>
    decreases entries.len(),
{
    if entries.len() == 0 {
        None
    } else if entries[0].0@ == key {
        Some(entries[0].1)
    } else {
        member(entries.drop_first(), key)
    }
}

/// `Value::get` with a string key: the member of an object, none otherwise.
pub open spec fn spec_get(v: Json, key: Seq<char>) -> Option<Json> {
    match v {
        Json::Object(o) => member(o.members(), key),
        _ => None,
    }
}

/// `Value::as_str`.
pub open spec fn spec_as_str(v: Json) -> Option<Seq<char>> {
    match v {
        Json::Str(s) => Some(s@),
        _ => None,
    }
}

/// `Value::as_bool`.
pub open spec fn spec_as_bool(v: Json) -> Option<bool> {
    match v {
        Json::Bool(b) => Some(b),
        _ => None,
    }
}

/// `Value::as_array`.
pub open spec fn spec_as_array(v: Json) -> Option<Seq<Json>> {
    match v {
        Json::Array(items) => Some(items@),
        _ => None,
    }
}

/// The character is an ASCII digit.
pub open spec fn is_digit(c: char) -> bool {
    '0' <= c && c <= '9'
}

/// The number that a string of decimal digits denotes.
pub open spec fn digits_value(s: Seq<char>) -> nat
    decreases s.len(),
{
    if s.len() == 0 {
        0
    } else {
        digits_value(s.drop_last()) * 10 + ((s.last() as u32 - '0' as u32) as nat)
    }
}

/// How JSON Pointer reads an array index: decimal digits without a sign
/// and without a leading zero (but `0` itself), fitting in `usize`.
pub open spec fn spec_parse_index(t: Seq<char>) -> Option<nat> {
    if t.len() == 0 || t[0] == '+' || (t[0] == '0' && t.len() != 1) {
        None
    } else if (forall|i: int| 0 <= i < t.len() ==> #[trigger] is_digit(t[i])) && digits_value(t)
        <= usize::MAX {
        Some(digits_value(t))
    } else {
        None
    }
}

/// One step of a JSON Pointer: a member of an object, an element of an array.
pub open spec fn spec_step(v: Json, token: Seq<char>) -> Option<Json> {
    match v {
        Json::Object(o) => member(o.members(), token),
        Json::Array(items) => match spec_parse_index(token) {
            Some(i) => if i < items@.len() {
                Some(items@[i as int])
            } else {
                None
            },
            None => None,
        },
        _ => None,
    }
}

/// Follows the reference tokens from `v`.
pub open spec fn spec_walk(v: Json, tokens: Seq<Seq<char>>) -> Option<Json>
    decreases tokens.len(),
{
    if tokens.len() == 0 {
        Some(v)
    } else {
        match spec_step(v, tokens[0]) {
            Some(next) => spec_walk(next, tokens.drop_first()),
            None => None,
        }
    }
}

/// `s` with each `a b` pair, read left to right, replaced by `rep`
/// (`str::replace` with a two-character pattern and a one-character replacement).
pub open spec fn replace_pair(s: Seq<char>, a: char, b: char, rep: char) -> Seq<char>
    decreases s.len(),
{
    if s.len() < 2 {
        s
    } else if s[0] == a && s[1] == b {
        seq![rep] + replace_pair(s.subrange(2, s.len() as int), a, b, rep)
    } else {
        seq![s[0]] + replace_pair(s.drop_first(), a, b, rep)
    }
}

/// A reference token with `~1` read as `/`, then `~0` as `~`.
pub open spec fn unescape(t: Seq<char>) -> Seq<char> {
    replace_pair(replace_pair(t, '~', '1', '/'), '~', '0', '~')
}

/// `Value::pointer`: the empty pointer names the value itself; any other
/// pointer starts with `/` and lists reference tokens separated by `/`.
pub open spec fn spec_pointer(v: Json, pointer: Seq<char>) -> Option<Json> {
    if pointer.len() == 0 {
        Some(v)
    } else if pointer[0] != '/' {
        None
    } else {
        spec_walk(v, split_on(pointer, '/').drop_first().map_values(|t: Seq<char>| unescape(t)))
    }
}

fn replace_pair_exec(s: &str, a: char, b: char, rep: &str) -> (r: String)
    requires
        rep@.len() == 1,
    ensures
        r@ == replace_pair(s@, a, b, rep@[0]),
{
    let n: usize = s.unicode_len();
    let mut r = String::new();
    let mut i: usize = 0;
    assert(s@.subrange(0, n as int) =~= s@);
    while i < n
        invariant
            i <= n,
            n == s@.len(),
            rep@.len() == 1,
            replace_pair(s@, a, b, rep@[0]) == r@ + replace_pair(
                s@.subrange(i as int, n as int),
                a,
                b,
                rep@[0],
            ),
        decreases n - i,
    {
        let ghost rest = s@.subrange(i as int, n as int);
        if i + 1 < n && s.get_char(i) == a && s.get_char(i + 1) == b {
            proof {
                assert(rest.subrange(2, rest.len() as int) =~= s@.subrange(i + 2, n as int));
                assert(rep@ =~= seq![rep@[0]]);
                assert(r@ + rep@ + replace_pair(s@.subrange(i + 2, n as int), a, b, rep@[0])
                    =~= r@ + (seq![rep@[0]] + replace_pair(s@.subrange(i + 2, n as int), a, b, rep@[0])));
            }
            r.append(rep);
            i = i + 2;
        } else {
            let one = s.substring_char(i, i + 1);
            proof {
                assert(one@ =~= seq![s@[i as int]]);
                if rest.len() >= 2 {
                    assert(rest.drop_first() =~= s@.subrange(i + 1, n as int));
                    assert(r@ + one@ + replace_pair(s@.subrange(i + 1, n as int), a, b, rep@[0])
                        =~= r@ + (seq![rest[0]] + replace_pair(rest.drop_first(), a, b, rep@[0])));
                } else {
                    assert(rest =~= one@);
                    assert(s@.subrange(i + 1, n as int) =~= Seq::<char>::empty());
                    assert(r@ + one@ + replace_pair(s@.subrange(i + 1, n as int), a, b, rep@[0])
                        =~= r@ + rest);
                }
            }
            r.append(one);
            i = i + 1;
        }
    }
    assert(s@.subrange(n as int, n as int) =~= Seq::<char>::empty());
    assert(r@ + Seq::<char>::empty() =~= r@);
    r
}

/// Reads a reference token: `~1` becomes `/`, then `~0` becomes `~`.
pub fn unescape_token(t: &str) -> (r: String)
    ensures
        r@ == unescape(t@),
{
    proof {
        reveal_strlit("/");
        reveal_strlit("~");
    }
    let once = replace_pair_exec(t, '~', '1', "/");
    replace_pair_exec(once.as_str(), '~', '0', "~")
}

proof fn lemma_digits_value_grows(s: Seq<char>, i: int)
    requires
        0 <= i <= s.len(),
        forall|j: int| 0 <= j < s.len() ==> #[trigger] is_digit(s[j]),
    ensures
        digits_value(s.subrange(0, i)) <= digits_value(s),
    decreases s.len() - i,
{
    if i < s.len() {
        lemma_digits_value_grows(s, i + 1);
        let p = s.subrange(0, i + 1);
        assert(p.drop_last() =~= s.subrange(0, i));
    } else {
        assert(s.subrange(0, i) =~= s);
    }
}

/// Reads an array index as JSON Pointer does.
pub fn parse_index(t: &str) -> (r: Option<usize>)
    ensures
        match r {
            Some(i) => spec_parse_index(t@) == Some(i as nat),
            None => spec_parse_index(t@) is None,
        },
{
    let n: usize = t.unicode_len();
    if n == 0 {
        return None;
    }
    let first = t.get_char(0);
    if first == '+' || (first == '0' && n != 1) {
        return None;
    }
    let mut v: usize = 0;
    let mut i: usize = 0;
    assert(t@.subrange(0, 0) =~= Seq::<char>::empty());
    while i < n
        invariant
            i <= n,
            n == t@.len(),
            forall|j: int| 0 <= j < i ==> #[trigger] is_digit(t@[j]),
            v as nat == digits_value(t@.subrange(0, i as int)),
        decreases n - i,
    {
        let c = t.get_char(i);
        if !('0' <= c && c <= '9') {
            assert(!is_digit(t@[i as int]));
            return None;
        }
        let d: usize = (c as u32 - '0' as u32) as usize;
        proof {
            let p = t@.subrange(0, i + 1);
            assert(p.drop_last() =~= t@.subrange(0, i as int));
            assert(p.last() == c);
        }
        match v.checked_mul(10) {
            Some(m) => match m.checked_add(d) {
                Some(next) => {
                    v = next;
                },
                None => {
                    proof {
                        if forall|j: int| 0 <= j < n ==> #[trigger] is_digit(t@[j]) {
                            lemma_digits_value_grows(t@, i + 1);
                        }
                    }
                    return None;
                },
            },
            None => {
                proof {
                    if forall|j: int| 0 <= j < n ==> #[trigger] is_digit(t@[j]) {
                        lemma_digits_value_grows(t@, i + 1);
                    }
                }
                return None;
            },
        }
        i = i + 1;
    }
    assert(t@.subrange(0, n as int) =~= t@);
    Some(v)
}

impl Json {
    /// `Value::get` with a string key.
    pub fn get(&self, key: &str) -> (r: Option<&Json>)
        ensures
            match r {
                Some(x) => spec_get(*self, key@) == Some(*x),
                None => spec_get(*self, key@) is None,
            },
    {
        match self {
            Json::Object(o) => member_exec(o.entries(), key),
            _ => None,
        }
    }

    /// `Value::as_str`.
    pub fn as_str(&self) -> (r: Option<&str>)
        ensures
            match r {
                Some(s) => spec_as_str(*self) == Some(s@),
                None => spec_as_str(*self) is None,
            },
    {
        match self {
            Json::Str(s) => Some(s.as_str()),
            _ => None,
        }
    }

    /// `Value::as_bool`.
    pub fn as_bool(&self) -> (r: Option<bool>)
        ensures
            r == spec_as_bool(*self),
    {
        match self {
            Json::Bool(b) => Some(*b),
            _ => None,
        }
    }

    /// `Value::as_array`.
    pub fn as_array(&self) -> (r: Option<&Vec<Json>>)
        ensures
            match r {
                Some(a) => spec_as_array(*self) == Some(a@),
                None => spec_as_array(*self) is None,
            },
    {
        match self {
            Json::Array(items) => Some(items),
            _ => None,
        }
    }

    /// `Value::pointer`.
    pub fn pointer(&self, pointer: &str) -> (r: Option<&Json>)
        ensures
            match r {
                Some(x) => spec_pointer(*self, pointer@) == Some(*x),
                None => spec_pointer(*self, pointer@) is None,
            },
    {
        let n: usize = pointer.unicode_len();
        if n == 0 {
            return Some(self);
        }
        if pointer.get_char(0) != '/' {
            return None;
        }
        let pieces = split_char(pointer, '/');
        proof {
            lemma_split_nonempty(pointer@);
        }
        let ghost tokens = split_on(pointer@, '/').drop_first().map_values(
            |t: Seq<char>| unescape(t),
        );
        let mut cur: &Json = self;
        let mut i: usize = 1;
        assert(tokens.subrange(0, tokens.len() as int) =~= tokens);
        while i < pieces.len()
            invariant
                1 <= i <= pieces.len(),
                pieces.deep_view() == split_on(pointer@, '/'),
                tokens == pieces.deep_view().drop_first().map_values(|t: Seq<char>| unescape(t)),
                spec_walk(*self, tokens) == spec_walk(*cur, tokens.subrange(i - 1, tokens.len() as int)),
            decreases pieces.len() - i,
        {
            let token = unescape_token(pieces[i].as_str());
            let ghost rest = tokens.subrange(i - 1, tokens.len() as int);
            proof {
                assert(rest[0] == token@);
                assert(rest.drop_first() =~= tokens.subrange(i as int, tokens.len() as int));
            }
            match step_exec(cur, token.as_str()) {
                Some(next) => {
                    cur = next;
                },
                None => {
                    return None;
                },
            }
            i = i + 1;
        }
        assert(tokens.subrange(i - 1, tokens.len() as int) =~= Seq::<Seq<char>>::empty());
        Some(cur)
    }
}

proof fn lemma_split_nonempty(s: Seq<char>)
    ensures
        split_on(s, '/').len() >= 1,
    decreases s.len(),
{
    if s.len() > 0 {
        lemma_split_nonempty(s.drop_last());
    }
}

fn member_exec<'a>(entries: &'a Vec<(String, Json)>, key: &str) -> (r: Option<&'a Json>)
    ensures
        match r {
            Some(x) => member(entries@, key@) == Some(*x),
            None => member(entries@, key@) is None,
        },
{
    let mut i: usize = 0;
    assert(entries@.subrange(0, entries@.len() as int) =~= entries@);
    while i < entries.len()
        invariant
            i <= entries.len(),
            member(entries@, key@) == member(entries@.subrange(i as int, entries@.len() as int), key@),
        decreases entries.len() - i,
    {
        let ghost rest = entries@.subrange(i as int, entries@.len() as int);
        if str_eq(entries[i].0.as_str(), key) {
            return Some(&entries[i].1);
        }
        assert(rest.drop_first() =~= entries@.subrange(i + 1, entries@.len() as int));
        i = i + 1;
    }
    None
}

fn step_exec<'a>(v: &'a Json, token: &str) -> (r: Option<&'a Json>)
    ensures
        match r {
            Some(x) => spec_step(*v, token@) == Some(*x),
            None => spec_step(*v, token@) is None,
        },
{
    match v {
        Json::Object(o) => member_exec(o.entries(), token),
        Json::Array(items) => match parse_index(token) {
            Some(i) => if i < items.len() {
                Some(&items[i])
            } else {
                None
            },
            None => None,
        },
        _ => None,
    }
}

} // verus!
