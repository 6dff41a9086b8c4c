//! HTTP exchange contracts carried between the proxy, the orchestrator and
//! the UI.

use vstd::prelude::*;
use crate::text::str_equal;
use crate::assoc::{assoc_map, distinct_keys, lemma_assoc_lookup, lemma_assoc_update, lemma_assoc_push};

verus! {

/// HTTP request methods the workbench distinguishes.
#[derive(Debug, Clone, Copy, PartialEq, Eq, Structural)]
pub enum HttpMethod {
    Get,
    Post,
    Put,
    Patch,
    Delete,
    Head,
    Options,
    Trace,
    Connect,
}

impl HttpMethod {
    /// The method's token as it appears on the wire.
    pub open spec fn spec_name(self) -> Seq<char> {
        match self {
            HttpMethod::Get => "GET"@,
            HttpMethod::Post => "POST"@,
            HttpMethod::Put => "PUT"@,
            HttpMethod::Patch => "PATCH"@,
            HttpMethod::Delete => "DELETE"@,
            HttpMethod::Head => "HEAD"@,
            HttpMethod::Options => "OPTIONS"@,
            HttpMethod::Trace => "TRACE"@,
            HttpMethod::Connect => "CONNECT"@,
        }
    }

    /// The method's token as it appears on the wire (its display form).
    pub fn as_str(&self) -> (s: &'static str)
        ensures
            s@ == self.spec_name(),
    {
        match self {
            HttpMethod::Get => "GET",
            HttpMethod::Post => "POST",
            HttpMethod::Put => "PUT",
            HttpMethod::Patch => "PATCH",
            HttpMethod::Delete => "DELETE",
            HttpMethod::Head => "HEAD",
            HttpMethod::Options => "OPTIONS",
            HttpMethod::Trace => "TRACE",
            HttpMethod::Connect => "CONNECT",
        }
    }
}

/// The method named by a wire token; any other token maps to `Get`.
pub open spec fn method_for_name(name: Seq<char>) -> HttpMethod {
    if name == "GET"@ {
        HttpMethod::Get
    } else if name == "POST"@ {
        HttpMethod::Post
    } else if name == "PUT"@ {
        HttpMethod::Put
    } else if name == "PATCH"@ {
        HttpMethod::Patch
    } else if name == "DELETE"@ {
        HttpMethod::Delete
    } else if name == "HEAD"@ {
        HttpMethod::Head
    } else if name == "OPTIONS"@ {
        HttpMethod::Options
    } else if name == "TRACE"@ {
        HttpMethod::Trace
    } else if name == "CONNECT"@ {
        HttpMethod::Connect
    } else {
        HttpMethod::Get
    }
}

/// Maps a method token to [`HttpMethod`]; unknown tokens become `Get`.
pub fn method_from_name(name: &str) -> (m: HttpMethod)
    ensures
        m == method_for_name(name@),
{
    if str_equal(name, "GET") {
        HttpMethod::Get
    } else if str_equal(name, "POST") {
        HttpMethod::Post
    } else if str_equal(name, "PUT") {
        HttpMethod::Put
    } else if str_equal(name, "PATCH") {
        HttpMethod::Patch
    } else if str_equal(name, "DELETE") {
        HttpMethod::Delete
    } else if str_equal(name, "HEAD") {
        HttpMethod::Head
    } else if str_equal(name, "OPTIONS") {
        HttpMethod::Options
    } else if str_equal(name, "TRACE") {
        HttpMethod::Trace
    } else if str_equal(name, "CONNECT") {
        HttpMethod::Connect
    } else {
        HttpMethod::Get
    }
}

/// The method names differ in length or in their first letter.
proof fn lemma_method_names()
    ensures
        "GET"@.len() == 3 && "GET"@[0] == 'G',
        "POST"@.len() == 4 && "POST"@[0] == 'P',
        "PUT"@.len() == 3 && "PUT"@[0] == 'P',
        "PATCH"@.len() == 5 && "PATCH"@[0] == 'P',
        "DELETE"@.len() == 6 && "DELETE"@[0] == 'D',
        "HEAD"@.len() == 4 && "HEAD"@[0] == 'H',
        "OPTIONS"@.len() == 7 && "OPTIONS"@[0] == 'O',
        "TRACE"@.len() == 5 && "TRACE"@[0] == 'T',
        "CONNECT"@.len() == 7 && "CONNECT"@[0] == 'C',
{
    reveal_strlit("GET");
    reveal_strlit("POST");
    reveal_strlit("PUT");
    reveal_strlit("PATCH");
    reveal_strlit("DELETE");
    reveal_strlit("HEAD");
    reveal_strlit("OPTIONS");
    reveal_strlit("TRACE");
    reveal_strlit("CONNECT");
}

/// Each method's wire token is its own RFC 9110 name (GET, POST, PUT,
/// PATCH, DELETE, HEAD, OPTIONS, TRACE, CONNECT), and reading a token back
/// gives the method it names.
pub proof fn law_method_tokens(m: HttpMethod)
    ensures
        m == HttpMethod::Get ==> m.spec_name() == "GET"@,
        m == HttpMethod::Post ==> m.spec_name() == "POST"@,
        m == HttpMethod::Put ==> m.spec_name() == "PUT"@,
        m == HttpMethod::Patch ==> m.spec_name() == "PATCH"@,
        m == HttpMethod::Delete ==> m.spec_name() == "DELETE"@,
        m == HttpMethod::Head ==> m.spec_name() == "HEAD"@,
        m == HttpMethod::Options ==> m.spec_name() == "OPTIONS"@,
        m == HttpMethod::Trace ==> m.spec_name() == "TRACE"@,
        m == HttpMethod::Connect ==> m.spec_name() == "CONNECT"@,
        method_for_name(m.spec_name()) == m,
{
    lemma_method_names();
}

/// A token that is none of the nine method names is read as GET; a method
/// name is read as that method.
pub proof fn law_method_from_token(name: Seq<char>)
    ensures
        name == "GET"@ ==> method_for_name(name) == HttpMethod::Get,
        name == "POST"@ ==> method_for_name(name) == HttpMethod::Post,
        name == "PUT"@ ==> method_for_name(name) == HttpMethod::Put,
        name == "PATCH"@ ==> method_for_name(name) == HttpMethod::Patch,
        name == "DELETE"@ ==> method_for_name(name) == HttpMethod::Delete,
        name == "HEAD"@ ==> method_for_name(name) == HttpMethod::Head,
        name == "OPTIONS"@ ==> method_for_name(name) == HttpMethod::Options,
        name == "TRACE"@ ==> method_for_name(name) == HttpMethod::Trace,
        name == "CONNECT"@ ==> method_for_name(name) == HttpMethod::Connect,
        name != "GET"@ && name != "POST"@ && name != "PUT"@ && name != "PATCH"@ && name != "DELETE"@
            && name != "HEAD"@ && name != "OPTIONS"@ && name != "TRACE"@ && name != "CONNECT"@
            ==> method_for_name(name) == HttpMethod::Get,
{
    lemma_method_names();
}

/// The (name, value) texts of a list of header pairs.
pub open spec fn pair_texts(pairs: Seq<(String, String)>) -> Seq<(Seq<char>, Seq<char>)> {
    pairs.map_values(|p: (String, String)| (p.0@, p.1@))
}

/// Header fields of a message: text names mapped to text values, with no
/// name present twice.
#[derive(Debug)]
pub struct Headers {
    pairs: Vec<(String, String)>,
}

impl View for Headers {
    type V = Map<Seq<char>, Seq<char>>;

    closed spec fn view(&self) -> Map<Seq<char>, Seq<char>> {
        assoc_map(pair_texts(self.pairs@))
    }
}

impl Headers {
    /// The fields in the order in which they were first inserted.
    pub closed spec fn entries(&self) -> Seq<(String, String)> {
        self.pairs@
    }

    /// Internal consistency: every name occurs once.
    pub closed spec fn wf(&self) -> bool {
        distinct_keys(pair_texts(self.pairs@))
    }

    /// The view is the map of the entries, and every entry's name is in it.
    pub proof fn lemma_entries(&self)
        requires
            self.wf(),
        ensures
            self@ == assoc_map(pair_texts(self.entries())),
            distinct_keys(pair_texts(self.entries())),
            forall|i: int| 0 <= i < self.entries().len() ==> #[trigger] self@[self.entries()[i].0@] == self.entries()[i].1@,
            forall|k: Seq<char>| self@.contains_key(k) <==> exists|i: int| 0 <= i < self.entries().len() && #[trigger] self.entries()[i].0@ == k,
    {
        lemma_assoc_lookup(pair_texts(self.pairs@));
        assert forall|i: int| 0 <= i < self.entries().len() implies #[trigger] self@[self.entries()[i].0@] == self.entries()[i].1@ by {
            assert(pair_texts(self.pairs@)[i] == (self.pairs@[i].0@, self.pairs@[i].1@));
        }
        assert forall|k: Seq<char>| self@.contains_key(k) implies exists|i: int| 0 <= i < self.entries().len() && #[trigger] self.entries()[i].0@ == k by {
            let i = choose|i: int| 0 <= i < pair_texts(self.pairs@).len() && #[trigger] pair_texts(self.pairs@)[i].0 == k;
            assert(self.entries()[i].0@ == k);
        }
        assert forall|k: Seq<char>| (exists|i: int| 0 <= i < self.entries().len() && #[trigger] self.entries()[i].0@ == k) implies self@.contains_key(k) by {
            let i = choose|i: int| 0 <= i < self.entries().len() && #[trigger] self.entries()[i].0@ == k;
            assert(pair_texts(self.pairs@)[i].0 == k);
        }
    }

    /// No fields.
    pub fn new() -> (h: Self)
        ensures
            h.wf(),
            h@ == Map::<Seq<char>, Seq<char>>::empty(),
            h.entries().len() == 0,
    {
        Headers { pairs: Vec::new() }
    }

    /// Number of distinct field names.
    pub fn len(&self) -> (n: usize)
        requires
            self.wf(),
        ensures
            n == self.entries().len(),
    {
        self.pairs.len()
    }

    /// The fields in insertion order, for iteration.
    pub fn as_pairs(&self) -> (r: &Vec<(String, String)>)
        ensures
            r@ == self.entries(),
    {
        &self.pairs
    }

    /// Index of the field called `name`, if any.
    fn position(&self, name: &str) -> (r: Option<usize>)
        requires
            self.wf(),
        ensures
            match r {
                Some(i) => i < self.entries().len() && self.entries()[i as int].0@ == name@,
                None => forall|i: int| 0 <= i < self.entries().len() ==> #[trigger] self.entries()[i].0@ != name@,
            },
    {
        let mut i: usize = 0;
        while i < self.pairs.len()
            invariant
                i <= self.pairs@.len(),
                forall|j: int| 0 <= j < i ==> #[trigger] self.pairs@[j].0@ != name@,
            decreases self.pairs@.len() - i,
        {
            if str_equal(self.pairs[i].0.as_str(), name) {
                return Some(i);
            }
            i = i + 1;
        }
        None
    }

    /// The value of the field called `name`.
    pub fn get(&self, name: &str) -> (r: Option<&String>)
        requires
            self.wf(),
        ensures
            match r {
                Some(v) => self@.contains_key(name@) && self@[name@] == v@,
                None => !self@.contains_key(name@),
            },
    {
        proof { self.lemma_entries(); }
        match self.position(name) {
            Some(i) => Some(&self.pairs[i].1),
            None => None,
        }
    }

    /// Sets the field `name` to `value`, replacing an earlier value.
    pub fn insert(&mut self, name: String, value: String)
        requires
            old(self).wf(),
        ensures
            final(self).wf(),
            final(self)@ == old(self)@.insert(name@, value@),
            old(self)@.contains_key(name@) ==> final(self).entries().len() == old(self).entries().len(),
            !old(self)@.contains_key(name@) ==> final(self).entries().len() == old(self).entries().len() + 1,
    {
        proof { self.lemma_entries(); }
        match self.position(name.as_str()) {
            Some(i) => {
                let ghost before = self.pairs@;
                let p = (name, value);
                self.pairs.set(i, p);
                proof {
                    assert(self.pairs@ == before.update(i as int, p));
                    assert(pair_texts(self.pairs@) =~= pair_texts(before).update(i as int, (p.0@, p.1@)));
                    lemma_assoc_update(pair_texts(before), i as int, (p.0@, p.1@));
                }
            },
            None => {
                let ghost before = self.pairs@;
                let ghost key = name@;
                let ghost val = value@;
                self.pairs.push((name, value));
                proof {
                    assert(pair_texts(self.pairs@) =~= pair_texts(before).push((key, val)));
                    lemma_assoc_push(pair_texts(before), (key, val));
                }
            },
        }
    }

    /// A copy with the same fields in the same order.
    pub fn duplicate(&self) -> (r: Self)
        ensures
            r.entries() == self.entries(),
            r@ == self@,
            r.wf() == self.wf(),
    {
        let mut pairs: Vec<(String, String)> = Vec::new();
        let mut i: usize = 0;
        while i < self.pairs.len()
            invariant
                i <= self.pairs@.len(),
                pairs@ == self.pairs@.subrange(0, i as int),
            decreases self.pairs@.len() - i,
        {
            let p = &self.pairs[i];
            pairs.push((p.0.clone(), p.1.clone()));
            proof {
                assert(pairs@ =~= self.pairs@.subrange(0, i + 1));
            }
            i = i + 1;
        }
        assert(pairs@ =~= self.pairs@);
        Headers { pairs }
    }
}

impl Clone for Headers {
    fn clone(&self) -> (r: Self)
        ensures
            r@ == self@,
            r.entries() == self.entries(),
    {
        self.duplicate()
    }
}

impl Clone for HttpRequest {
    fn clone(&self) -> (r: Self)
        ensures
            r@ == self@,
    {
        self.duplicate()
    }
}

impl Clone for HttpResponse {
    fn clone(&self) -> (r: Self)
        ensures
            r@ == self@,
    {
        self.duplicate()
    }
}

/// A copy of a byte buffer.
pub fn copy_bytes(v: &Vec<u8>) -> (r: Vec<u8>)
    ensures
        r@ == v@,
{
    let mut out: Vec<u8> = Vec::new();
    let mut i: usize = 0;
    while i < v.len()
        invariant
            i <= v@.len(),
            out@ == v@.subrange(0, i as int),
        decreases v@.len() - i,
    {
        out.push(v[i]);
        proof { assert(out@ =~= v@.subrange(0, i + 1)); }
        i = i + 1;
    }
    assert(out@ =~= v@);
    out
}

/// An intercepted HTTP request.
#[derive(Debug)]
pub struct HttpRequest {
    pub method: HttpMethod,
    pub url: String,
    pub headers: Headers,
    pub body: Vec<u8>,
}

/// An intercepted HTTP response.
#[derive(Debug)]
pub struct HttpResponse {
    pub status: u16,
    pub headers: Headers,
    pub body: Vec<u8>,
}

/// Mathematical value of an [`HttpRequest`].
pub struct HttpRequestView {
    pub method: HttpMethod,
    pub url: Seq<char>,
    pub headers: Map<Seq<char>, Seq<char>>,
    pub body: Seq<u8>,
}

/// Mathematical value of an [`HttpResponse`].
pub struct HttpResponseView {
    pub status: u16,
    pub headers: Map<Seq<char>, Seq<char>>,
    pub body: Seq<u8>,
}

impl View for HttpRequest {
    type V = HttpRequestView;

    open spec fn view(&self) -> HttpRequestView {
        HttpRequestView { method: self.method, url: self.url@, headers: self.headers@, body: self.body@ }
    }
}

impl View for HttpResponse {
    type V = HttpResponseView;

    open spec fn view(&self) -> HttpResponseView {
        HttpResponseView { status: self.status, headers: self.headers@, body: self.body@ }
    }
}

impl HttpRequest {
    /// Internal consistency of the header fields.
    pub open spec fn wf(&self) -> bool {
        self.headers.wf()
    }

    /// A copy of the request.
    pub fn duplicate(&self) -> (r: Self)
        ensures
            r@ == self@,
            r.wf() == self.wf(),
            r.headers.entries() == self.headers.entries(),
    {
        HttpRequest {
            method: self.method,
            url: self.url.clone(),
            headers: self.headers.duplicate(),
            body: copy_bytes(&self.body),
        }
    }
}

impl HttpResponse {
    /// Internal consistency of the header fields.
    pub open spec fn wf(&self) -> bool {
        self.headers.wf()
    }

    /// A copy of the response.
    pub fn duplicate(&self) -> (r: Self)
        ensures
            r@ == self@,
            r.wf() == self.wf(),
            r.headers.entries() == self.headers.entries(),
    {
        HttpResponse { status: self.status, headers: self.headers.duplicate(), body: copy_bytes(&self.body) }
    }
}

} // verus!
