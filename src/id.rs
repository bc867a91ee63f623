//! Benchmark identifiers.

use vstd::prelude::*;

use crate::text::{
    chars_of, copy_range, extend_chars, find_char, first_from, lemma_first_from,
    lemma_first_from_found, string_from_chars,
};

verus! {

/// Model of an id: name, optional arguments label, optional capture label.
pub type IdView = (Seq<char>, Option<Seq<char>>, Option<Seq<char>>);

/// Benchmark identifier: a name, optional arguments and an optional capture label. The source
/// location serves diagnostics only; equality ignores it.
#[derive(Debug, Clone)]
pub struct BenchmarkId {
    name: String,
    args: Option<String>,
    capture: Option<String>,
    file: String,
    line: u32,
}

pub open spec fn opt_seq(o: Option<String>) -> Option<Seq<char>> {
    match o {
        Some(s) => Some(s@),
        None => None,
    }
}

impl View for BenchmarkId {
    type V = IdView;

    closed spec fn view(&self) -> IdView {
        (self.name@, opt_seq(self.args), opt_seq(self.capture))
    }
}

/// `s` preceded by a slash.
pub open spec fn slash_part(s: Option<Seq<char>>) -> Seq<char> {
    match s {
        Some(p) => seq!['/'] + p,
        None => seq![],
    }
}

/// Canonical text of an id: `name`, `name/args`, `name/args/capture` or `name/capture`.
pub open spec fn id_text(id: IdView) -> Seq<char> {
    id.0 + slash_part(id.1) + slash_part(id.2)
}

/// The id that a canonical text names: up to the first slash the name, up to the next one the
/// arguments, and the rest the capture label.
pub open spec fn id_of_text(s: Seq<char>) -> IdView {
    let n = s.len() as int;
    let a = first_from(s, '/', 0);
    if a >= n {
        (s, None, None)
    } else {
        let b = first_from(s, '/', a + 1);
        if b >= n {
            (s.subrange(0, a), Some(s.subrange(a + 1, n)), None)
        } else {
            (s.subrange(0, a), Some(s.subrange(a + 1, b)), Some(s.subrange(b + 1, n)))
        }
    }
}

pub open spec fn no_slash(s: Seq<char>) -> bool {
    forall|j: int| 0 <= j < s.len() ==> s[j] != '/'
}

/// The canonical text of an id reads back as the same id, where neither the name nor the
/// arguments hold a slash, and a capture label comes with arguments.
pub proof fn lemma_id_text_round_trip(id: IdView)
    requires
        no_slash(id.0),
        id.1 is Some ==> no_slash(id.1->0),
        id.2 is Some ==> id.1 is Some,
    ensures
        id_of_text(id_text(id)) == id,
{
    let t = id_text(id);
    let n = t.len() as int;
    let a = id.0.len() as int;
    assert(forall|j: int| 0 <= j < a ==> t[j] == id.0[j]);
    match id.1 {
        None => {
            assert(t =~= id.0);
            lemma_first_from_found(t, '/', 0, n);
        },
        Some(args) => {
            assert(t[a] == '/');
            lemma_first_from_found(t, '/', 0, a);
            let b = a + 1 + args.len();
            assert(forall|j: int| a + 1 <= j < b ==> t[j] == args[j - a - 1]);
            assert(t.subrange(0, a) =~= id.0);
            assert(t.subrange(a + 1, b) =~= args);
            match id.2 {
                None => {
                    assert(b == n);
                    lemma_first_from_found(t, '/', a + 1, n);
                },
                Some(cap) => {
                    assert(t[b] == '/');
                    lemma_first_from_found(t, '/', a + 1, b);
                    assert(t.subrange(b + 1, n) =~= cap);
                },
            }
        },
    }
}

fn copy_opt(o: &Option<String>) -> (r: Option<String>)
    ensures
        opt_seq(r) == opt_seq(*o),
{
    match o {
        Some(s) => Some(s.clone()),
        None => None,
    }
}

fn opt_eq(a: &Option<String>, b: &Option<String>) -> (r: bool)
    ensures
        r == (opt_seq(*a) == opt_seq(*b)),
{
    match (a, b) {
        (Some(x), Some(y)) => x.eq(y),
        (None, None) => true,
        _ => false,
    }
}

impl PartialEq for BenchmarkId {
    fn eq(&self, other: &BenchmarkId) -> bool {
        self.name == other.name && opt_eq(&self.args, &other.args) && opt_eq(
            &self.capture,
            &other.capture,
        )
    }
}

impl vstd::std_specs::cmp::PartialEqSpecImpl for BenchmarkId {
    open spec fn obeys_eq_spec() -> bool {
        true
    }

    open spec fn eq_spec(&self, other: &BenchmarkId) -> bool {
        self@ == other@
    }
}

impl BenchmarkId {
    /// An id with a name only.
    pub fn named(name: &str) -> (r: Self)
        ensures
            r@ == (name@, None::<Seq<char>>, None::<Seq<char>>),
    {
        BenchmarkId { name: name.to_owned(), args: None, capture: None, file: String::new(), line: 0 }
    }

    /// An id with a name and an arguments label.
    pub fn new(name: &str, args: &str) -> (r: Self)
        ensures
            r@ == (name@, Some(args@), None::<Seq<char>>),
    {
        BenchmarkId {
            name: name.to_owned(),
            args: Some(args.to_owned()),
            capture: None,
            file: String::new(),
            line: 0,
        }
    }

    pub closed spec fn spec_file(&self) -> Seq<char> {
        self.file@
    }

    pub closed spec fn spec_line(&self) -> u32 {
        self.line
    }

    /// This id with the source location where the benchmark was defined.
    pub fn at(self, file: &str, line: u32) -> (r: Self)
        ensures
            r@ == self@,
            r.spec_file() == file@,
            r.spec_line() == line,
    {
        BenchmarkId { file: file.to_owned(), line, ..self }
    }

    /// This id with a capture label.
    pub fn with_capture(&self, capture: &str) -> (r: Self)
        ensures
            r@ == (self@.0, self@.1, Some(capture@)),
    {
        BenchmarkId {
            name: self.name.clone(),
            args: copy_opt(&self.args),
            capture: Some(capture.to_owned()),
            file: self.file.clone(),
            line: self.line,
        }
    }

    /// A copy of this id.
    pub fn duplicate(&self) -> (r: Self)
        ensures
            r@ == self@,
    {
        BenchmarkId {
            name: self.name.clone(),
            args: copy_opt(&self.args),
            capture: copy_opt(&self.capture),
            file: self.file.clone(),
            line: self.line,
        }
    }

    /// Name of the benchmark.
    pub fn name(&self) -> (r: &str)
        ensures
            r@ == self@.0,
    {
        self.name.as_str()
    }

    /// Arguments label, if any.
    pub fn args(&self) -> (r: Option<&str>)
        ensures
            match r {
                Some(a) => self@.1 == Some(a@),
                None => self@.1 is None,
            },
    {
        match &self.args {
            Some(a) => Some(a.as_str()),
            None => None,
        }
    }

    /// Capture label, if any.
    pub fn capture(&self) -> (r: Option<&str>)
        ensures
            match r {
                Some(c) => self@.2 == Some(c@),
                None => self@.2 is None,
            },
    {
        match &self.capture {
            Some(c) => Some(c.as_str()),
            None => None,
        }
    }

    /// Source file where the benchmark was defined; empty where it was not given.
    pub fn file(&self) -> (r: &str)
        ensures
            r@ == self.spec_file(),
    {
        self.file.as_str()
    }

    /// Source line where the benchmark was defined; zero where it was not given.
    pub fn line(&self) -> (r: u32)
        ensures
            r == self.spec_line(),
    {
        self.line
    }

    /// Canonical text of this id.
    pub fn to_text(&self) -> (r: String)
        ensures
            r@ == id_text(self@),
    {
        let mut chars = chars_of(self.name.as_str());
        let ghost base = chars@;
        match &self.args {
            Some(a) => {
                chars.push('/');
                extend_chars(&mut chars, &chars_of(a.as_str()));
            },
            None => {},
        }
        assert(chars@ =~= base + slash_part(self@.1));
        let ghost mid = chars@;
        match &self.capture {
            Some(c) => {
                chars.push('/');
                extend_chars(&mut chars, &chars_of(c.as_str()));
            },
            None => {},
        }
        assert(chars@ =~= mid + slash_part(self@.2));
        string_from_chars(&chars)
    }

    /// Whether `s` is the canonical text of this id.
    pub fn matches_text(&self, s: &str) -> (r: bool)
        ensures
            r == (id_text(self@) == s@),
    {
        let text = self.to_text();
        let other = s.to_owned();
        text == other
    }

    /// Reads an id from its canonical text (see [`id_of_text`]).
    pub fn parse(s: &str) -> (r: Self)
        ensures
            r@ == id_of_text(s@),
    {
        let chars = chars_of(s);
        let n = chars.len();
        let a = find_char(&chars, '/', 0);
        proof {
            lemma_first_from(chars@, '/', 0);
        }
        if a >= n {
            return BenchmarkId::named(s);
        }
        let name = string_from_chars(&copy_range(&chars, 0, a));
        let b = find_char(&chars, '/', a + 1);
        proof {
            lemma_first_from(chars@, '/', a + 1);
        }
        if b >= n {
            let args = string_from_chars(&copy_range(&chars, a + 1, n));
            return BenchmarkId { name, args: Some(args), capture: None, file: String::new(), line: 0 };
        }
        let args = string_from_chars(&copy_range(&chars, a + 1, b));
        let capture = string_from_chars(&copy_range(&chars, b + 1, n));
        BenchmarkId { name, args: Some(args), capture: Some(capture), file: String::new(), line: 0 }
    }
}

/// Id of the capture labelled `label` of benchmark `id`: the id itself for an unnamed capture.
pub open spec fn capture_id(id: IdView, label: Seq<char>) -> IdView {
    if label.len() == 0 {
        id
    } else {
        (id.0, id.1, Some(label))
    }
}

/// Ids of the captures of one benchmark: the id itself for an unnamed capture, else the id with
/// the capture's label.
pub fn capture_ids(id: &BenchmarkId, capture_names: &Vec<String>) -> (r: Vec<BenchmarkId>)
    ensures
        r@.len() == capture_names@.len(),
        forall|k: int| 0 <= k < r@.len() ==> #[trigger] r@[k]@ == capture_id(id@, capture_names@[k]@),
{
    let mut out: Vec<BenchmarkId> = Vec::new();
    let mut k: usize = 0;
    while k < capture_names.len()
        invariant
            k <= capture_names.len(),
            out@.len() == k,
            forall|j: int| 0 <= j < k ==> #[trigger] out@[j]@ == capture_id(id@, capture_names@[j]@),
        decreases capture_names.len() - k,
    {
        let label = &capture_names[k];
        let next = if label.as_str().is_empty() {
            id.duplicate()
        } else {
            id.with_capture(label.as_str())
        };
        out.push(next);
        k = k + 1;
    }
    out
}

/// The capture that a child runs: the first of the benchmark's capture ids whose text is
/// `target`, if any.
pub fn active_capture(id: &BenchmarkId, capture_names: &Vec<String>, target: &str) -> (r: Option<usize>)
    ensures
        match r {
            Some(k) => k < capture_names@.len() && id_text(capture_id(id@, capture_names@[k as int]@))
                == target@ && forall|j: int|
                0 <= j < k ==> id_text(capture_id(id@, #[trigger] capture_names@[j]@)) != target@,
            None => forall|j: int|
                0 <= j < capture_names@.len() ==> id_text(capture_id(id@, #[trigger] capture_names@[j]@))
                    != target@,
        },
{
    let ids = capture_ids(id, capture_names);
    let mut k: usize = 0;
    while k < ids.len()
        invariant
            k <= ids.len(),
            ids@.len() == capture_names@.len(),
            forall|j: int| 0 <= j < ids@.len() ==> #[trigger] ids@[j]@ == capture_id(id@, capture_names@[j]@),
            forall|j: int| 0 <= j < k ==> id_text(capture_id(id@, #[trigger] capture_names@[j]@)) != target@,
        decreases ids.len() - k,
    {
        assert(ids@[k as int]@ == capture_id(id@, capture_names@[k as int]@));
        if ids[k].matches_text(target) {
            return Some(k);
        }
        k = k + 1;
    }
    None
}

} // verus!
