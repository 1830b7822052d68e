//! Transport-agnostic HTTP message model: header maps, requests and
//! responses as the filters see them.

use vstd::prelude::*;
use vstd::string::*;
use crate::text::{lower_seq, str_eq, to_ascii_lower};

verus! {

/// A token character as allowed in an HTTP header field name.
pub open spec fn token_char(c: char) -> bool {
    ('a' <= c && c <= 'z') || ('A' <= c && c <= 'Z') || ('0' <= c && c <= '9') || c == '!' || c
        == '#' || c == '$' || c == '%' || c == '&' || c == '\'' || c == '*' || c == '+' || c == '-'
        || c == '.' || c == '^' || c == '_' || c == '`' || c == '|' || c == '~'
}

/// A valid header field name: non-empty, at most 65535 characters, all tokens.
pub open spec fn valid_header_name(s: Seq<char>) -> bool {
    0 < s.len() <= 65535 && forall|i: int| 0 <= i < s.len() ==> #[trigger] token_char(s[i])
}

/// A character allowed in a header field value.
pub open spec fn value_char(c: char) -> bool {
    c == '\t' || ((c as u32) >= 32 && (c as u32) != 127)
}

/// A valid header field value.
pub open spec fn valid_header_value(s: Seq<char>) -> bool {
    forall|i: int| 0 <= i < s.len() ==> #[trigger] value_char(s[i])
}

/// A visible-ASCII character (or tab): what a header value must hold to be read as text.
pub open spec fn visible_char(c: char) -> bool {
    c == '\t' || (32 <= (c as u32) && (c as u32) < 127)
}

/// A header value that can be read back as text.
pub open spec fn visible_text(s: Seq<char>) -> bool {
    forall|i: int| 0 <= i < s.len() ==> #[trigger] visible_char(s[i])
}

fn is_token_char(c: char) -> (r: bool)
    ensures
        r == token_char(c),
{
    ('a' <= c && c <= 'z') || ('A' <= c && c <= 'Z') || ('0' <= c && c <= '9') || c == '!' || c
        == '#' || c == '$' || c == '%' || c == '&' || c == '\'' || c == '*' || c == '+' || c == '-'
        || c == '.' || c == '^' || c == '_' || c == '`' || c == '|' || c == '~'
}

/// Whether `s` is a valid header field name.
pub fn is_valid_header_name(s: &str) -> (r: bool)
    ensures
        r == valid_header_name(s@),
{
    let n = s.unicode_len();
    if n == 0 || n > 65535 {
        return false;
    }
    let mut i: usize = 0;
    while i < n
        invariant
            n == s@.len(),
            i <= n,
            forall|j: int| 0 <= j < i ==> token_char(s@[j]),
        decreases n - i,
    {
        if !is_token_char(s.get_char(i)) {
            return false;
        }
        i = i + 1;
    }
    true
}

/// Whether `s` is a valid header field value.
pub fn is_valid_header_value(s: &str) -> (r: bool)
    ensures
        r == valid_header_value(s@),
{
    let n = s.unicode_len();
    let mut i: usize = 0;
    while i < n
        invariant
            n == s@.len(),
            i <= n,
            forall|j: int| 0 <= j < i ==> value_char(s@[j]),
        decreases n - i,
    {
        let c = s.get_char(i);
        if !(c == '\t' || ((c as u32) >= 32 && (c as u32) != 127)) {
            assert(!value_char(s@[i as int]));
            return false;
        }
        i = i + 1;
    }
    true
}

/// Whether the value `s` can be read back as text.
pub fn is_visible_text(s: &str) -> (r: bool)
    ensures
        r == visible_text(s@),
{
    let n = s.unicode_len();
    let mut i: usize = 0;
    while i < n
        invariant
            n == s@.len(),
            i <= n,
            forall|j: int| 0 <= j < i ==> visible_char(s@[j]),
        decreases n - i,
    {
        let c = s.get_char(i);
        if !(c == '\t' || (32 <= (c as u32) && (c as u32) < 127)) {
            assert(!visible_char(s@[i as int]));
            return false;
        }
        i = i + 1;
    }
    true
}

/// The values held under (normalized) name `n`, in order.
pub open spec fn values_of(es: Seq<(Seq<char>, Seq<char>)>, n: Seq<char>) -> Seq<Seq<char>>
    decreases es.len(),
{
    if es.len() == 0 {
        Seq::empty()
    } else {
        let rest = values_of(es.drop_last(), n);
        if es.last().0 == n {
            rest.push(es.last().1)
        } else {
            rest
        }
    }
}

/// The entries of `es` whose name is not `n`.
pub open spec fn without_name(es: Seq<(Seq<char>, Seq<char>)>, n: Seq<char>) -> Seq<
    (Seq<char>, Seq<char>),
>
    decreases es.len(),
{
    if es.len() == 0 {
        Seq::empty()
    } else {
        let rest = without_name(es.drop_last(), n);
        if es.last().0 == n {
            rest
        } else {
            rest.push(es.last())
        }
    }
}

/// A multi-valued, case-insensitive HTTP header map. Names are stored
/// lower-cased; entries keep the order in which they were added.
#[derive(Debug)]
pub struct HeaderMap {
    entries: Vec<(String, String)>,
}

impl View for HeaderMap {
    type V = Seq<(Seq<char>, Seq<char>)>;

    closed spec fn view(&self) -> Seq<(Seq<char>, Seq<char>)> {
        self.entries@.map_values(|e: (String, String)| (e.0@, e.1@))
    }
}

impl HeaderMap {
    /// Every stored name is a valid, lower-case header name.
    pub open spec fn wf(&self) -> bool {
        forall|i: int|
            0 <= i < self@.len() ==> valid_header_name(#[trigger] self@[i].0) && lower_seq(
                self@[i].0,
            ) == self@[i].0
    }

    /// The values held under `name` (looked up case-insensitively).
    pub open spec fn values(&self, name: Seq<char>) -> Seq<Seq<char>> {
        if valid_header_name(name) {
            values_of(self@, lower_seq(name))
        } else {
            Seq::empty()
        }
    }

    /// The first value held under `name`, if any.
    pub open spec fn first(&self, name: Seq<char>) -> Option<Seq<char>> {
        if self.values(name).len() > 0 {
            Some(self.values(name)[0])
        } else {
            None
        }
    }

    /// An empty header map.
    pub fn new() -> (r: Self)
        ensures
            r@ == Seq::<(Seq<char>, Seq<char>)>::empty(),
            r.wf(),
    {
        let r = HeaderMap { entries: Vec::new() };
        assert(r@ =~= Seq::<(Seq<char>, Seq<char>)>::empty());
        r
    }

    /// Number of stored values.
    pub fn len(&self) -> (r: usize)
        ensures
            r == self@.len(),
    {
        self.entries.len()
    }

    /// The `i`-th stored entry.
    pub fn entry(&self, i: usize) -> (r: (&str, &str))
        requires
            i < self@.len(),
        ensures
            r.0@ == self@[i as int].0,
            r.1@ == self@[i as int].1,
    {
        let e = &self.entries[i];
        (e.0.as_str(), e.1.as_str())
    }

    /// Append a value under `name`, keeping existing values.
    pub fn append(&mut self, name: &str, value: &str)
        requires
            old(self).wf(),
            valid_header_name(name@),
        ensures
            final(self).wf(),
            final(self)@ == old(self)@.push((lower_seq(name@), value@)),
    {
        let ghost pre = self@;
        let n = to_ascii_lower(name);
        proof {
            lemma_lower_valid(name@);
            lemma_lower_idem(name@);
        }
        self.entries.push((n, value.to_owned()));
        assert(self@ =~= pre.push((lower_seq(name@), value@)));
    }

    /// All values under `name`, in order.
    pub fn get_all(&self, name: &str) -> (r: Vec<String>)
        ensures
            r@.map_values(|s: String| s@) == self.values(name@),
    {
        let mut out: Vec<String> = Vec::new();
        if !is_valid_header_name(name) {
            assert(out@.map_values(|s: String| s@) =~= Seq::<Seq<char>>::empty());
            return out;
        }
        let key = to_ascii_lower(name);
        let mut i: usize = 0;
        while i < self.entries.len()
            invariant
                i <= self@.len(),
                self@.len() == self.entries@.len(),
                key@ == lower_seq(name@),
                valid_header_name(name@),
                out@.map_values(|s: String| s@) == values_of(self@.subrange(0, i as int), key@),
            decreases self@.len() - i,
        {
            let e = &self.entries[i];
            proof {
                assert(self@.subrange(0, i + 1).drop_last() =~= self@.subrange(0, i as int));
                assert(self@[i as int] == (e.0@, e.1@));
            }
            if str_eq(e.0.as_str(), key.as_str()) {
                out.push(e.1.clone());
                assert(out@.map_values(|s: String| s@) =~= values_of(
                    self@.subrange(0, i as int),
                    key@,
                ).push(e.1@));
            }
            i = i + 1;
        }
        assert(self@.subrange(0, self@.len() as int) =~= self@);
        out
    }

    /// The first value under `name`, if any.
    pub fn get(&self, name: &str) -> (r: Option<String>)
        ensures
            r matches Some(v) ==> self.first(name@) == Some(v@),
            r is None ==> self.first(name@) is None,
    {
        let all = self.get_all(name);
        if all.len() > 0 {
            assert(all@.map_values(|s: String| s@)[0] == all@[0]@);
            Some(all[0].clone())
        } else {
            None
        }
    }

    /// Whether any value is held under `name`.
    pub fn contains_key(&self, name: &str) -> (r: bool)
        ensures
            r == (self.values(name@).len() > 0),
    {
        let all = self.get_all(name);
        all.len() > 0
    }

    /// Remove every value under `name`; returns whether any was removed.
    pub fn remove(&mut self, name: &str) -> (r: bool)
        requires
            old(self).wf(),
        ensures
            final(self).wf(),
            r == (old(self).values(name@).len() > 0),
            valid_header_name(name@) ==> final(self)@ == without_name(old(self)@, lower_seq(name@)),
            !valid_header_name(name@) ==> final(self)@ == old(self)@,
    {
        let present = self.contains_key(name);
        if !is_valid_header_name(name) {
            return present;
        }
        let key = to_ascii_lower(name);
        let ghost pre = self@;
        let mut kept: Vec<(String, String)> = Vec::new();
        let mut i: usize = 0;
        while i < self.entries.len()
            invariant
                i <= pre.len(),
                pre == self@,
                pre.len() == self.entries@.len(),
                key@ == lower_seq(name@),
                kept@.map_values(|e: (String, String)| (e.0@, e.1@)) == without_name(
                    pre.subrange(0, i as int),
                    key@,
                ),
                forall|j: int|
                    0 <= j < kept@.len() ==> exists|k: int|
                        0 <= k < i && (#[trigger] kept@[j].0)@ == pre[k].0,
            decreases pre.len() - i,
        {
            let e = &self.entries[i];
            proof {
                assert(pre.subrange(0, i + 1).drop_last() =~= pre.subrange(0, i as int));
                assert(pre[i as int] == (e.0@, e.1@));
            }
            if !str_eq(e.0.as_str(), key.as_str()) {
                let ghost before = kept@;
                kept.push((e.0.clone(), e.1.clone()));
                proof {
                    assert(kept@.map_values(|e: (String, String)| (e.0@, e.1@)) =~= before.map_values(
                        |e: (String, String)| (e.0@, e.1@),
                    ).push(pre[i as int]));
                    assert forall|j: int| 0 <= j < kept@.len() implies exists|k: int|
                        0 <= k < i + 1 && (#[trigger] kept@[j].0)@ == pre[k].0 by {
                        if j == kept@.len() - 1 {
                            assert(kept@[j].0@ == pre[i as int].0);
                        } else {
                            assert(kept@[j] == before[j]);
                        }
                    }
                }
            }
            i = i + 1;
        }
        assert(pre.subrange(0, pre.len() as int) =~= pre);
        self.entries = kept;
        proof {
            assert forall|j: int| 0 <= j < self@.len() implies valid_header_name(
                #[trigger] self@[j].0,
            ) && lower_seq(self@[j].0) == self@[j].0 by {
                assert(self@[j].0 == self.entries@[j].0@);
                let k = choose|k: int| 0 <= k < pre.len() && self.entries@[j].0@ == pre[k].0;
            }
        }
        present
    }

    /// Replace all values under `name` with the single value `value`.
    pub fn insert(&mut self, name: &str, value: &str)
        requires
            old(self).wf(),
            valid_header_name(name@),
        ensures
            final(self).wf(),
            final(self)@ == without_name(old(self)@, lower_seq(name@)).push(
                (lower_seq(name@), value@),
            ),
    {
        self.remove(name);
        self.append(name, value);
    }
}

/// Lower-casing keeps a name valid.
pub proof fn lemma_lower_valid(s: Seq<char>)
    requires
        valid_header_name(s),
    ensures
        valid_header_name(lower_seq(s)),
{
    assert forall|i: int| 0 <= i < lower_seq(s).len() implies #[trigger] token_char(
        lower_seq(s)[i],
    ) by {
        assert(token_char(s[i]));
    }
}

/// Lower-casing twice is lower-casing once.
pub proof fn lemma_lower_idem(s: Seq<char>)
    ensures
        lower_seq(lower_seq(s)) == lower_seq(s),
{
    assert(lower_seq(lower_seq(s)) =~= lower_seq(s));
}

/// Dropping a name leaves no value under it and every other name's values
/// as they were.
pub proof fn lemma_without_name_values(es: Seq<(Seq<char>, Seq<char>)>, n: Seq<char>, m: Seq<char>)
    ensures
        values_of(without_name(es, n), m) == if m == n { Seq::<Seq<char>>::empty() } else { values_of(es, m) },
    decreases es.len(),
{
    if es.len() > 0 {
        lemma_without_name_values(es.drop_last(), n, m);
        let rest = without_name(es.drop_last(), n);
        if es.last().0 != n {
            assert(rest.push(es.last()).drop_last() =~= rest);
        }
    }
}

/// Reading a header right after it was set gives exactly the value set,
/// and headers of every other name keep their values.
pub proof fn insert_then_read(before: HeaderMap, after: HeaderMap, name: Seq<char>, v: Seq<char>, other: Seq<char>)
    requires
        valid_header_name(name),
        after@ == without_name(before@, lower_seq(name)).push((lower_seq(name), v)),
    ensures
        after.values(name) == seq![v],
        after.first(name) == Some(v),
        !(valid_header_name(other) && lower_seq(other) == lower_seq(name)) ==> after.values(other)
            == before.values(other),
{
    lemma_lower_valid(name);
    let w = without_name(before@, lower_seq(name));
    lemma_without_name_values(before@, lower_seq(name), lower_seq(name));
    assert(after@.drop_last() =~= w);
    assert(values_of(after@, lower_seq(name)) =~= seq![v]);
    if valid_header_name(other) && lower_seq(other) != lower_seq(name) {
        lemma_without_name_values(before@, lower_seq(name), lower_seq(other));
    }
}

/// After a header is removed no value is held under its name, and headers
/// of every other name keep their values.
pub proof fn remove_then_absent(before: HeaderMap, after: HeaderMap, name: Seq<char>, other: Seq<char>)
    requires
        valid_header_name(name),
        after@ == without_name(before@, lower_seq(name)),
    ensures
        after.values(name).len() == 0,
        after.first(name) is None,
        !(valid_header_name(other) && lower_seq(other) == lower_seq(name)) ==> after.values(other)
            == before.values(other),
{
    lemma_without_name_values(before@, lower_seq(name), lower_seq(name));
    if valid_header_name(other) && lower_seq(other) != lower_seq(name) {
        lemma_without_name_values(before@, lower_seq(name), lower_seq(other));
    }
}

/// Appending keeps the earlier values of the name and adds the new one
/// last.
pub proof fn append_then_read(before: HeaderMap, after: HeaderMap, name: Seq<char>, v: Seq<char>)
    requires
        valid_header_name(name),
        after@ == before@.push((lower_seq(name), v)),
    ensures
        after.values(name) == before.values(name).push(v),
{
    assert(after@.drop_last() =~= before@);
}

/// A request as seen by filters: method, target and headers.
#[derive(Debug)]
pub struct Request {
    /// The request method, e.g. `GET`.
    pub method: String,
    /// The URI path (without query).
    pub path: String,
    /// The query string, if the URI has one.
    pub query: Option<String>,
    /// The URI scheme, when the URI is absolute.
    pub scheme: Option<String>,
    /// The URI authority, when the URI is absolute.
    pub authority: Option<String>,
    /// Request headers.
    pub headers: HeaderMap,
}

/// An upstream response as seen by filters: status and headers.
#[derive(Debug)]
pub struct Response {
    /// HTTP status code.
    pub status: u16,
    /// Response headers.
    pub headers: HeaderMap,
}

impl Request {
    /// A request with the given method and path, no query and no headers.
    pub fn new(method: &str, path: &str) -> (r: Self)
        ensures
            r.method@ == method@,
            r.path@ == path@,
            r.query is None,
            r.scheme is None,
            r.authority is None,
            r.headers@.len() == 0,
            r.headers.wf(),
    {
        Request {
            method: method.to_owned(),
            path: path.to_owned(),
            query: None,
            scheme: None,
            authority: None,
            headers: HeaderMap::new(),
        }
    }
}

} // verus!
