//! Translation tables: nested objects of strings addressed by dotted keys,
//! and templates with `{name}` placeholders.

use vstd::prelude::*;

use crate::text::{
    append_chars, append_str, chars_eq, chars_of, owned, push_char, split_chars,
    split_spec, views,
};

verus! {

/// A JSON value as far as translation lookups read it.
#[derive(Debug)]
pub enum JsonValue {
    /// An object: its members, in order, with distinct names.
    Object(Vec<(String, JsonValue)>),
    /// A string.
    String(String),
    /// Any other value (number, boolean, null, array).
    Other,
}

/// The first member of `entries` named `name`.
pub open spec fn find_entry(entries: Seq<(String, JsonValue)>, name: Seq<char>) -> Option<JsonValue>
    decreases entries.len(),
{
    if entries.len() == 0 {
        None
    } else if entries[0].0@ == name {
        Some(entries[0].1)
    } else {
        find_entry(entries.drop_first(), name)
    }
}

/// The value reached from the members `entries` along the names in `path`.
pub open spec fn resolve_path(entries: Seq<(String, JsonValue)>, path: Seq<Seq<char>>) -> Option<
    JsonValue,
>
    decreases path.len(),
{
    if path.len() == 0 {
        None
    } else {
        match find_entry(entries, path[0]) {
            None => None,
            Some(v) => if path.len() == 1 {
                Some(v)
            } else {
                match v {
                    JsonValue::Object(m) => resolve_path(m@, path.drop_first()),
                    _ => None,
                }
            },
        }
    }
}

/// What a lookup of `key` gives: the string at the dotted path, `[missing: key]`
/// when the path leads nowhere, `[invalid: key]` when it ends at a non-string.
pub open spec fn lookup_text(entries: Seq<(String, JsonValue)>, key: Seq<char>) -> Seq<char> {
    match resolve_path(entries, split_spec(key, '.')) {
        Some(JsonValue::String(s)) => s@,
        Some(_) => "[invalid: "@ + key + "]"@,
        None => "[missing: "@ + key + "]"@,
    }
}

/// The names and values of parameters, as text.
pub open spec fn pair_views(params: Seq<(String, String)>) -> Seq<(Seq<char>, Seq<char>)> {
    params.map_values(|p: (String, String)| (p.0@, p.1@))
}

/// The value of the first parameter named `name`.
pub open spec fn param_value(params: Seq<(Seq<char>, Seq<char>)>, name: Seq<char>) -> Option<
    Seq<char>,
>
    decreases params.len(),
{
    if params.len() == 0 {
        None
    } else if params[0].0 == name {
        Some(params[0].1)
    } else {
        param_value(params.drop_first(), name)
    }
}

/// Number of characters of `s` before its first `c`, or its length.
pub open spec fn index_of(s: Seq<char>, c: char) -> nat
    decreases s.len(),
{
    if s.len() == 0 {
        0
    } else if s[0] == c {
        0
    } else {
        1 + index_of(s.drop_first(), c)
    }
}

/// A template filled in: `{}` stays, `{name}` becomes the parameter's value or
/// stays as it is when there is no such parameter; an opening brace without a
/// closing one reads to the end of the text.
pub open spec fn fill_template(t: Seq<char>, params: Seq<(Seq<char>, Seq<char>)>) -> Seq<char>
    decreases t.len(),
{
    if t.len() == 0 {
        Seq::<char>::empty()
    } else if t[0] != '{' {
        seq![t[0]] + fill_template(t.drop_first(), params)
    } else if t.len() >= 2 && t[1] == '}' {
        "{}"@ + fill_template(t.skip(2), params)
    } else {
        let rest = t.drop_first();
        let k = index_of(rest, '}');
        let name = rest.take(k as int);
        let after = if k < rest.len() {
            rest.skip((k + 1) as int)
        } else {
            Seq::<char>::empty()
        };
        let piece = if name.len() == 0 {
            "{}"@
        } else {
            match param_value(params, name) {
                Some(v) => v,
                None => "{"@ + name + "}"@,
            }
        };
        piece + fill_template(after, params)
    }
}

/// Translation data: the members of the top-level object of a translation file.
#[derive(Debug)]
pub struct Translations {
    data: Vec<(String, JsonValue)>,
}

fn find_index(entries: &Vec<(String, JsonValue)>, name: &Vec<char>) -> (r: Option<usize>)
    ensures
        match r {
            Some(j) => j < entries@.len() && find_entry(entries@, name@) == Some(entries@[j as int].1),
            None => find_entry(entries@, name@) is None,
        },
{
    let mut j: usize = 0;
    assert(entries@.skip(0) =~= entries@);
    while j < entries.len()
        invariant
            j <= entries@.len(),
            find_entry(entries@, name@) == find_entry(entries@.skip(j as int), name@),
        decreases entries.len() - j,
    {
        assert(entries@.skip(j as int)[0] == entries@[j as int]);
        assert(entries@.skip(j as int).drop_first() =~= entries@.skip(j + 1));
        let key = chars_of(entries[j].0.as_str());
        if chars_eq(&key, name) {
            return Some(j);
        }
        j = j + 1;
    }
    None
}

fn bracketed(prefix: &str, key: &str) -> (r: String)
    ensures
        r@ == prefix@ + key@ + "]"@,
{
    let mut r = owned(prefix);
    append_str(&mut r, key);
    append_str(&mut r, "]");
    r
}

impl Translations {
    /// Translation data with the given top-level members.
    pub fn from_entries(data: Vec<(String, JsonValue)>) -> (t: Translations)
        ensures
            t.entries() == data@,
    {
        Translations { data }
    }

    /// The top-level members.
    pub closed spec fn entries(&self) -> Seq<(String, JsonValue)> {
        self.data@
    }

    /// The translation of `key`, a dotted path into nested objects.
    pub fn get(&self, key: &str) -> (r: String)
        ensures
            r@ == lookup_text(self.entries(), key@),
    {
        let key_chars = chars_of(key);
        let path = split_chars(&key_chars, '.');
        let ghost spath = split_spec(key@, '.');
        proof {
            crate::text::lemma_split_nonempty(key@, '.');
        }
        assert(views(path@) =~= spath);
        let mut entries: &Vec<(String, JsonValue)> = &self.data;
        let mut i: usize = 0;
        assert(spath.skip(0) =~= spath);
        loop
            invariant
                i < path@.len(),
                views(path@) == spath,
                spath == split_spec(key@, '.'),
                resolve_path(self.data@, spath) == resolve_path(entries@, spath.skip(i as int)),
            decreases path@.len() - i,
        {
            assert(spath.skip(i as int)[0] == path@[i as int]@);
            assert(spath.skip(i as int).len() > 0);
            match find_index(entries, &path[i]) {
                None => {
                    assert(resolve_path(entries@, spath.skip(i as int)) is None);
                    assert(resolve_path(self.data@, spath) is None);
                    return bracketed("[missing: ", key);
                },
                Some(j) => {
                    let value = &entries[j].1;
                    if path.len() - i == 1 {
                        return match value {
                            JsonValue::String(s) => s.clone(),
                            _ => bracketed("[invalid: ", key),
                        };
                    }
                    match value {
                        JsonValue::Object(members) => {
                            assert(spath.skip(i as int).drop_first() =~= spath.skip(i + 1));
                            entries = members;
                            i = i + 1;
                        },
                        _ => {
                            return bracketed("[missing: ", key);
                        },
                    }
                },
            }
        }
    }

    /// The translation of `key` with its `{name}` placeholders filled from
    /// `params`.
    pub fn format(&self, key: &str, params: &Vec<(String, String)>) -> (r: String)
        ensures
            r@ == fill_template(lookup_text(self.entries(), key@), pair_views(params@)),
    {
        let template = self.get(key);
        fill(template.as_str(), params)
    }
}

fn lookup_param(params: &Vec<(String, String)>, name: &Vec<char>) -> (r: Option<Vec<char>>)
    ensures
        match param_value(pair_views(params@), name@) {
            Some(v) => r matches Some(x) && x@ == v,
            None => r is None,
        },
{
    let mut j: usize = 0;
    assert(pair_views(params@).skip(0) =~= pair_views(params@));
    while j < params.len()
        invariant
            j <= params@.len(),
            param_value(pair_views(params@), name@) == param_value(pair_views(params@).skip(j as int), name@),
        decreases params.len() - j,
    {
        assert(pair_views(params@).skip(j as int)[0] == pair_views(params@)[j as int]);
        assert(pair_views(params@).skip(j as int).drop_first() =~= pair_views(params@).skip(j + 1));
        let key = chars_of(params[j].0.as_str());
        if chars_eq(&key, name) {
            return Some(chars_of(params[j].1.as_str()));
        }
        j = j + 1;
    }
    None
}

proof fn lemma_index_of(s: Seq<char>, c: char)
    ensures
        index_of(s, c) <= s.len(),
        forall|m: int| 0 <= m < index_of(s, c) ==> s[m] != c,
        index_of(s, c) < s.len() ==> s[index_of(s, c) as int] == c,
    decreases s.len(),
{
    if s.len() > 0 && s[0] != c {
        lemma_index_of(s.drop_first(), c);
        assert forall|m: int| 0 <= m < index_of(s, c) implies s[m] != c by {
            if m > 0 {
                assert(s[m] == s.drop_first()[m - 1]);
            }
        }
    }
}

/// Fills the placeholders of `template` from `params`.
pub fn fill(template: &str, params: &Vec<(String, String)>) -> (r: String)
    ensures
        r@ == fill_template(template@, pair_views(params@)),
{
    let t = chars_of(template);
    let mut out = String::new();
    let mut i: usize = 0;
    assert(t@.skip(0) =~= template@);
    assert(out@ + fill_template(t@.skip(0), pair_views(params@)) =~= fill_template(template@, pair_views(params@)));
    while i < t.len()
        invariant
            i <= t@.len(),
            fill_template(template@, pair_views(params@)) == out@ + fill_template(t@.skip(i as int), pair_views(params@)),
            t@ == template@,
        decreases t.len() - i,
    {
        let ghost rest_t = t@.skip(i as int);
        let ghost old_out = out@;
        if t[i] != '{' {
            push_char(&mut out, t[i]);
            assert(rest_t.drop_first() =~= t@.skip(i + 1));
            i = i + 1;
            assert(old_out + fill_template(rest_t, pair_views(params@)) =~= out@ + fill_template(
                t@.skip(i as int),
                pair_views(params@),
            ));
        } else if i + 1 < t.len() && t[i + 1] == '}' {
            append_str(&mut out, "{}");
            assert(rest_t.skip(2) =~= t@.skip(i + 2));
            i = i + 2;
            assert(old_out + fill_template(rest_t, pair_views(params@)) =~= out@ + fill_template(
                t@.skip(i as int),
                pair_views(params@),
            ));
        } else {
            let ghost rest = rest_t.drop_first();
            proof {
                lemma_index_of(rest, '}');
            }
            let mut name: Vec<char> = Vec::new();
            let mut k: usize = i + 1;
            while k < t.len() && t[k] != '}'
                invariant
                    i + 1 <= k <= t@.len(),
                    rest == t@.skip(i + 1),
                    name@ == rest.take(k - i - 1),
                    forall|m: int| 0 <= m < k - i - 1 ==> rest[m] != '}',
                    index_of(rest, '}') <= rest.len(),
                    forall|m: int| 0 <= m < index_of(rest, '}') ==> rest[m] != '}',
                    index_of(rest, '}') < rest.len() ==> rest[index_of(rest, '}') as int] == '}',
                decreases t.len() - k,
            {
                name.push(t[k]);
                k = k + 1;
                assert(name@ =~= rest.take(k - i - 1));
            }
            proof {
                let j = (k - i - 1) as int;
                let x = index_of(rest, '}') as int;
                if x < j {
                    assert(rest[x] != '}');
                }
                if j < x {
                    assert(rest[j] == t@[k as int]);
                    assert(rest[j] != '}');
                }
            }
            assert(k - i - 1 == index_of(rest, '}'));
            if name.len() == 0 {
                append_str(&mut out, "{}");
            } else {
                match lookup_param(params, &name) {
                    Some(v) => append_chars(&mut out, &v),
                    None => {
                        proof {
                            reveal_strlit("{");
                            reveal_strlit("}");
                        }
                        push_char(&mut out, '{');
                        append_chars(&mut out, &name);
                        push_char(&mut out, '}');
                    },
                }
            }
            if k < t.len() {
                assert(rest.skip((k - i - 1 + 1) as int) =~= t@.skip(k + 1));
                i = k + 1;
            } else {
                assert(t@.skip(k as int) =~= Seq::<char>::empty());
                i = k;
            }
            assert(old_out + fill_template(rest_t, pair_views(params@)) =~= out@ + fill_template(
                t@.skip(i as int),
                pair_views(params@),
            ));
        }
    }
    assert(t@.skip(i as int) =~= Seq::<char>::empty());
    assert(out@ + Seq::<char>::empty() =~= out@);
    out
}

} // verus!
