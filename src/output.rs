//! Simulator output: functions, per-run records and the parser of the simulator's text format.

use vstd::prelude::*;

use crate::stats::{CachegrindDataPoint, CachegrindStats, FullCachegrindStats};
use crate::text::{
    chars_eq, chars_of, has_prefix, lines, lines_from, parse_u64, parse_u64_exec, split_whitespace,
    string_from_chars, strip_cr_exec, strip_prefix, tokens, trim, trim_exec, views,
};

verus! {

/// Model of a function: its file name, if known, and its name.
pub type FunctionKey = (Option<Seq<char>>, Seq<char>);

/// Function associated with captured stats.
#[derive(Debug, Clone, Eq, Hash)]
pub struct CachegrindFunction {
    filename: Option<String>,
    name: String,
}

pub open spec fn opt_view(o: Option<String>) -> Option<Seq<char>> {
    match o {
        Some(s) => Some(s@),
        None => None,
    }
}

impl View for CachegrindFunction {
    type V = FunctionKey;

    closed spec fn view(&self) -> FunctionKey {
        (opt_view(self.filename), self.name@)
    }
}

fn clone_opt_string(o: &Option<String>) -> (r: Option<String>)
    ensures
        opt_view(r) == opt_view(*o),
{
    match o {
        Some(s) => Some(s.clone()),
        None => None,
    }
}

fn opt_string_eq(a: &Option<String>, b: &Option<String>) -> (r: bool)
    ensures
        r == (opt_view(*a) == opt_view(*b)),
{
    match (a, b) {
        (Some(x), Some(y)) => x.eq(y),
        (None, None) => true,
        _ => false,
    }
}

impl PartialEq for CachegrindFunction {
    fn eq(&self, other: &CachegrindFunction) -> bool {
        self.name == other.name && opt_string_eq(&self.filename, &other.filename)
    }
}

impl vstd::std_specs::cmp::PartialEqSpecImpl for CachegrindFunction {
    open spec fn obeys_eq_spec() -> bool {
        true
    }

    open spec fn eq_spec(&self, other: &CachegrindFunction) -> bool {
        self@ == other@
    }
}

/// Canonical text of a function: `name`, or `name@filename`.
pub open spec fn function_text(f: FunctionKey) -> Seq<char> {
    match f.0 {
        Some(file) => f.1 + seq!['@'] + file,
        None => f.1,
    }
}

/// Index of the last `@` in `s` before position `n`, or -1.
pub open spec fn last_at(s: Seq<char>, n: int) -> int
    decreases n,
{
    if n <= 0 {
        -1
    } else if s[n - 1] == '@' {
        n - 1
    } else {
        last_at(s, n - 1)
    }
}

/// The function that a canonical text names: split at the last `@`, if there is one.
pub open spec fn function_of_text(s: Seq<char>) -> FunctionKey {
    let k = last_at(s, s.len() as int);
    if k < 0 {
        (None, s)
    } else {
        (Some(s.subrange(k + 1, s.len() as int)), s.subrange(0, k))
    }
}

proof fn lemma_last_at_none(s: Seq<char>, n: int)
    requires
        0 <= n <= s.len(),
        forall|j: int| 0 <= j < n ==> s[j] != '@',
    ensures
        last_at(s, n) == -1,
    decreases n,
{
    if n > 0 {
        lemma_last_at_none(s, n - 1);
    }
}

proof fn lemma_last_at_found(s: Seq<char>, k: int, n: int)
    requires
        0 <= k < n <= s.len(),
        s[k] == '@',
        forall|j: int| k < j < n ==> s[j] != '@',
    ensures
        last_at(s, n) == k,
    decreases n,
{
    if n - 1 > k {
        lemma_last_at_found(s, k, n - 1);
    }
}

/// The canonical text of a function reads back as the same function, where the name holds no
/// `@` if there is no file name, and the file name holds no `@` if there is one.
pub proof fn lemma_function_text_round_trip(f: FunctionKey)
    requires
        match f.0 {
            Some(file) => forall|j: int| 0 <= j < file.len() ==> file[j] != '@',
            None => forall|j: int| 0 <= j < f.1.len() ==> f.1[j] != '@',
        },
    ensures
        function_of_text(function_text(f)) == f,
{
    let t = function_text(f);
    match f.0 {
        Some(file) => {
            let k = f.1.len() as int;
            assert(t[k] == '@');
            assert forall|j: int| k < j < t.len() implies t[j] != '@' by {
                assert(t[j] == file[j - k - 1]);
            }
            lemma_last_at_found(t, k, t.len() as int);
            assert(t.subrange(k + 1, t.len() as int) =~= file);
            assert(t.subrange(0, k) =~= f.1);
        },
        None => {
            lemma_last_at_none(t, t.len() as int);
        },
    }
}

impl CachegrindFunction {
    /// Creates a function without a file name, as Rust functions are reported.
    pub fn rust(name: &str) -> (r: Self)
        ensures
            r@ == (None::<Seq<char>>, name@),
    {
        CachegrindFunction { filename: None, name: name.to_owned() }
    }

    /// Creates a function with the given file name.
    pub fn with_file(name: &str, filename: &str) -> (r: Self)
        ensures
            r@ == (Some(filename@), name@),
    {
        CachegrindFunction { filename: Some(filename.to_owned()), name: name.to_owned() }
    }

    /// Returns the name of this function.
    pub fn name(&self) -> (r: &str)
        ensures
            r@ == self@.1,
    {
        self.name.as_str()
    }

    /// Returns the file name of this function; Rust functions usually have none.
    pub fn filename(&self) -> (r: Option<&str>)
        ensures
            match r {
                Some(f) => self@.0 == Some(f@),
                None => self@.0 is None,
            },
    {
        match &self.filename {
            Some(f) => Some(f.as_str()),
            None => None,
        }
    }

    /// Canonical text: `name`, or `name@filename`.
    pub fn to_text(&self) -> (r: String)
        ensures
            r@ == function_text(self@),
    {
        match &self.filename {
            None => self.name.clone(),
            Some(file) => {
                let mut chars = chars_of(self.name.as_str());
                chars.push('@');
                let file_chars = chars_of(file.as_str());
                let mut i: usize = 0;
                let ghost start = chars@;
                while i < file_chars.len()
                    invariant
                        i <= file_chars.len(),
                        chars@ == start + file_chars@.subrange(0, i as int),
                    decreases file_chars.len() - i,
                {
                    chars.push(file_chars[i]);
                    i = i + 1;
                    assert(chars@ =~= start + file_chars@.subrange(0, i as int));
                }
                assert(file_chars@.subrange(0, i as int) =~= file_chars@);
                string_from_chars(&chars)
            },
        }
    }

    /// Reads a function from its canonical text, splitting at the last `@`.
    pub fn from_text(s: &str) -> (r: Self)
        ensures
            r@ == function_of_text(s@),
    {
        let chars = chars_of(s);
        let mut k: usize = chars.len();
        while k > 0 && chars[k - 1] != '@'
            invariant
                k <= chars.len(),
                last_at(chars@, k as int) == last_at(chars@, chars@.len() as int),
            decreases k,
        {
            k = k - 1;
        }
        if k == 0 {
            return CachegrindFunction { filename: None, name: s.to_owned() };
        }
        let at = k - 1;
        let mut name: Vec<char> = Vec::new();
        let mut i: usize = 0;
        while i < at
            invariant
                at < chars.len(),
                i <= at,
                name@ == chars@.subrange(0, i as int),
            decreases at - i,
        {
            name.push(chars[i]);
            i = i + 1;
            assert(name@ =~= chars@.subrange(0, i as int));
        }
        let mut file: Vec<char> = Vec::new();
        let mut j: usize = at + 1;
        while j < chars.len()
            invariant
                at < j <= chars.len(),
                file@ == chars@.subrange(at + 1, j as int),
            decreases chars.len() - j,
        {
            file.push(chars[j]);
            j = j + 1;
            assert(file@ =~= chars@.subrange(at + 1, j as int));
        }
        CachegrindFunction {
            filename: Some(string_from_chars(&file)),
            name: string_from_chars(&name),
        }
    }
}

/// Content errors in the simulator's output.
#[derive(Debug, Clone, Copy, PartialEq, Eq, Structural)]
pub enum ParseError {
    /// A second `events:` line.
    EventsRedefined,
    /// No `events:` line.
    NoEvents,
    /// No `summary:` line.
    NoSummary,
    /// A data row whose number of values does not match the events.
    StatsMismatch,
    /// A data row value that is not a `u64`.
    InvalidStat,
    /// A summary value that is not a `u64`.
    InvalidSummary,
    /// A summary whose number of values does not match the events.
    SummaryMismatch,
    /// An event that the stats need is missing.
    MissingEvent,
    /// Summing the rows of one function overflows a counter.
    StatsOverflow,
}

/// Model of a per-function breakdown: functions with their stats, in order of first appearance.
pub type BreakdownView = Seq<(FunctionKey, CachegrindStats)>;

/// Output of one simulator run: its summary and its per-function breakdown.
///
/// The breakdown is a `Vec` of entries, one per function, in order of first appearance (see
/// [`CachegrindOutput::wf`]), rather than a `HashMap`: the keys hold strings, and over such keys
/// vstd's map specifications let Verus prove nothing about lookups or inserts.
#[derive(Debug, Clone)]
pub struct CachegrindOutput {
    pub summary: CachegrindStats,
    pub breakdown: Vec<(CachegrindFunction, CachegrindStats)>,
}

pub open spec fn breakdown_view(b: Seq<(CachegrindFunction, CachegrindStats)>) -> BreakdownView {
    Seq::new(b.len(), |i: int| (b[i].0@, b[i].1))
}

/// Index of the first entry for `key` in `b` at or after `j`, or -1.
pub open spec fn find_from(b: BreakdownView, key: FunctionKey, j: int) -> int
    decreases b.len() - j,
{
    if j < 0 || j >= b.len() {
        -1
    } else if b[j].0 == key {
        j
    } else {
        find_from(b, key, j + 1)
    }
}

/// Stats recorded for `key` in `b`, if any.
pub open spec fn lookup_function(b: BreakdownView, key: FunctionKey) -> Option<CachegrindStats> {
    let i = find_from(b, key, 0);
    if i >= 0 && i < b.len() {
        Some(b[i].1)
    } else {
        None
    }
}

/// Each function has at most one entry.
pub open spec fn keys_unique(b: BreakdownView) -> bool {
    forall|i: int, j: int| 0 <= i < j < b.len() ==> b[i].0 != b[j].0
}

proof fn lemma_find_from(b: BreakdownView, key: FunctionKey, j: int)
    requires
        0 <= j <= b.len(),
    ensures
        find_from(b, key, j) == -1 || (j <= find_from(b, key, j) < b.len() && b[find_from(
            b,
            key,
            j,
        )].0 == key),
        find_from(b, key, j) == -1 ==> forall|k: int| j <= k < b.len() ==> b[k].0 != key,
        find_from(b, key, j) >= 0 ==> forall|k: int| j <= k < find_from(b, key, j) ==> b[k].0
            != key,
    decreases b.len() - j,
{
    if j < b.len() && b[j].0 != key {
        lemma_find_from(b, key, j + 1);
    }
}

impl CachegrindOutput {
    pub open spec fn breakdown_model(&self) -> BreakdownView {
        breakdown_view(self.breakdown@)
    }

    /// The breakdown has at most one entry per function. The parser, subtraction and baseline
    /// pruning keep this; the fields are public, so values built by hand may not.
    pub open spec fn wf(&self) -> bool {
        keys_unique(self.breakdown_model())
    }

    /// Stats of one function in the breakdown.
    pub fn get(&self, function: &CachegrindFunction) -> (r: Option<CachegrindStats>)
        ensures
            r == lookup_function(self.breakdown_model(), function@),
    {
        let ghost b = self.breakdown_model();
        proof {
            lemma_find_from(b, function@, 0);
        }
        let mut j: usize = 0;
        while j < self.breakdown.len()
            invariant
                j <= self.breakdown.len(),
                b == self.breakdown_model(),
                forall|k: int| 0 <= k < j ==> b[k].0 != function@,
            decreases self.breakdown.len() - j,
        {
            assert(b[j as int].0 == self.breakdown@[j as int].0@);
            if self.breakdown[j].0 == *function {
                assert(b[j as int].0 == function@);
                proof {
                    lemma_find_from(b, function@, 0);
                }
                return Some(self.breakdown[j].1);
            }
            j = j + 1;
        }
        None
    }
}

/// Event names of the simulator, in the order in which the stats read them.
pub open spec fn ev_ir() -> Seq<char> { seq!['I', 'r'] }
pub open spec fn ev_i1mr() -> Seq<char> { seq!['I', '1', 'm', 'r'] }
pub open spec fn ev_ilmr() -> Seq<char> { seq!['I', 'L', 'm', 'r'] }
pub open spec fn ev_dr() -> Seq<char> { seq!['D', 'r'] }
pub open spec fn ev_d1mr() -> Seq<char> { seq!['D', '1', 'm', 'r'] }
pub open spec fn ev_dlmr() -> Seq<char> { seq!['D', 'L', 'm', 'r'] }
pub open spec fn ev_dw() -> Seq<char> { seq!['D', 'w'] }
pub open spec fn ev_d1mw() -> Seq<char> { seq!['D', '1', 'm', 'w'] }
pub open spec fn ev_dlmw() -> Seq<char> { seq!['D', 'L', 'm', 'w'] }

/// Value of the last column among the first `n` that is named `key`.
pub open spec fn lookup_event(ev: Seq<Seq<char>>, vals: Seq<u64>, key: Seq<char>, n: int) -> Option<u64>
    decreases n,
{
    if n <= 0 {
        None
    } else if ev[n - 1] == key {
        Some(vals[n - 1])
    } else {
        lookup_event(ev, vals, key, n - 1)
    }
}

/// Value of the column named `key`; where a name repeats, the last column counts.
pub open spec fn event_value(ev: Seq<Seq<char>>, vals: Seq<u64>, key: Seq<char>) -> Option<u64> {
    lookup_event(ev, vals, key, ev.len() as int)
}

/// All columns carry one and the same event name.
pub open spec fn single_event(ev: Seq<Seq<char>>) -> bool {
    ev.len() > 0 && forall|k: int| 0 <= k < ev.len() ==> #[trigger] ev[k] == ev[0]
}

pub open spec fn point_of(
    ev: Seq<Seq<char>>,
    vals: Seq<u64>,
    total: Seq<char>,
    l1: Seq<char>,
    l3: Seq<char>,
) -> Option<CachegrindDataPoint> {
    match (event_value(ev, vals, total), event_value(ev, vals, l1), event_value(ev, vals, l3)) {
        (Some(t), Some(m1), Some(m3)) => Some(
            CachegrindDataPoint { total: t, l1_misses: m1, l3_misses: m3 },
        ),
        _ => None,
    }
}

/// Stats from named columns: `Simple` where one event name is present, else `Full` from the
/// nine well-known events.
pub open spec fn stats_of(ev: Seq<Seq<char>>, vals: Seq<u64>) -> Result<CachegrindStats, ParseError> {
    if single_event(ev) {
        match event_value(ev, vals, ev_ir()) {
            Some(v) => Ok(CachegrindStats::Simple { instructions: v }),
            None => Err(ParseError::MissingEvent),
        }
    } else {
        match (
            point_of(ev, vals, ev_ir(), ev_i1mr(), ev_ilmr()),
            point_of(ev, vals, ev_dr(), ev_d1mr(), ev_dlmr()),
            point_of(ev, vals, ev_dw(), ev_d1mw(), ev_dlmw()),
        ) {
            (Some(i), Some(r), Some(w)) => Ok(
                CachegrindStats::Full(
                    FullCachegrindStats { instructions: i, data_reads: r, data_writes: w },
                ),
            ),
            _ => Err(ParseError::MissingEvent),
        }
    }
}

/// The `u64` values of all tokens, where each of them is one.
pub open spec fn parse_all(toks: Seq<Seq<char>>) -> Option<Seq<u64>> {
    if forall|k: int| 0 <= k < toks.len() ==> (#[trigger] parse_u64(toks[k])) is Some {
        Some(Seq::new(toks.len(), |k: int| parse_u64(toks[k])->0))
    } else {
        None
    }
}

/// `b` with `stats` added to the entry of `key`, or a new entry at the end; `None` where the
/// sum overflows.
pub open spec fn accumulate(b: BreakdownView, key: FunctionKey, stats: CachegrindStats) -> Option<
    BreakdownView,
> {
    let i = find_from(b, key, 0);
    if i < 0 || i >= b.len() {
        Some(b.push((key, stats)))
    } else if b[i].1.can_add(stats) {
        Some(b.update(i, (key, b[i].1.spec_plus(stats))))
    } else {
        None
    }
}

/// What the parser has read so far.
pub struct ParseState {
    pub events: Option<Seq<Seq<char>>>,
    pub filename: Option<Seq<char>>,
    pub function: Option<Seq<char>>,
    pub breakdown: BreakdownView,
    pub summary: Option<Seq<char>>,
}

pub open spec fn initial_state() -> ParseState {
    ParseState { events: None, filename: None, function: None, breakdown: seq![], summary: None }
}

pub open spec fn with_breakdown(st: ParseState, b: BreakdownView) -> ParseState {
    ParseState {
        events: st.events,
        filename: st.filename,
        function: st.function,
        breakdown: b,
        summary: st.summary,
    }
}

/// A data row: the source offset, then one value per event.
pub open spec fn data_row(st: ParseState, line: Seq<char>) -> Result<ParseState, ParseError> {
    let toks = tokens(line);
    let ev = st.events->0;
    if toks.len() != ev.len() + 1 {
        Err(ParseError::StatsMismatch)
    } else {
        match parse_all(toks.drop_first()) {
            None => Err(ParseError::InvalidStat),
            Some(vals) => match stats_of(ev, vals) {
                Err(e) => Err(e),
                Ok(stats) => match accumulate(st.breakdown, (st.filename, st.function->0), stats) {
                    None => Err(ParseError::StatsOverflow),
                    Some(b) => Ok(with_breakdown(st, b)),
                },
            },
        }
    }
}

pub open spec fn events_prefix() -> Seq<char> { seq!['e', 'v', 'e', 'n', 't', 's', ':'] }
pub open spec fn summary_prefix() -> Seq<char> { seq!['s', 'u', 'm', 'm', 'a', 'r', 'y', ':'] }
pub open spec fn fl_prefix() -> Seq<char> { seq!['f', 'l', '='] }
pub open spec fn fn_prefix() -> Seq<char> { seq!['f', 'n', '='] }
pub open spec fn unknown_file() -> Seq<char> { seq!['?', '?', '?'] }

/// Reads one line.
pub open spec fn step(st: ParseState, line: Seq<char>) -> Result<ParseState, ParseError> {
    let n = line.len() as int;
    if has_prefix(line, events_prefix()) {
        if st.events is Some {
            Err(ParseError::EventsRedefined)
        } else {
            Ok(ParseState { events: Some(tokens(line.subrange(7, n))), ..st })
        }
    } else if has_prefix(line, summary_prefix()) {
        Ok(ParseState { summary: Some(line.subrange(8, n)), ..st })
    } else if has_prefix(line, fl_prefix()) {
        let f = line.subrange(3, n);
        Ok(ParseState { filename: if f == unknown_file() { None } else { Some(trim(f)) }, ..st })
    } else if has_prefix(line, fn_prefix()) {
        Ok(ParseState { function: Some(line.subrange(3, n)), ..st })
    } else if st.events is Some && st.function is Some {
        data_row(st, line)
    } else {
        Ok(st)
    }
}

/// Reads lines until the first error or the summary line.
pub open spec fn run(st: ParseState, ls: Seq<Seq<char>>) -> Result<ParseState, ParseError>
    decreases ls.len(),
{
    if ls.len() == 0 {
        Ok(st)
    } else {
        match step(st, ls[0]) {
            Err(e) => Err(e),
            Ok(next) => if next.summary is Some {
                Ok(next)
            } else {
                run(next, ls.drop_first())
            },
        }
    }
}

/// Reads the summary once all lines are read.
pub open spec fn finish(st: ParseState) -> Result<(CachegrindStats, BreakdownView), ParseError> {
    match st.events {
        None => Err(ParseError::NoEvents),
        Some(ev) => match st.summary {
            None => Err(ParseError::NoSummary),
            Some(line) => match parse_all(tokens(line)) {
                None => Err(ParseError::InvalidSummary),
                Some(vals) => if ev.len() != vals.len() {
                    Err(ParseError::SummaryMismatch)
                } else {
                    match stats_of(ev, vals) {
                        Ok(s) => Ok((s, st.breakdown)),
                        Err(e) => Err(e),
                    }
                },
            },
        },
    }
}

/// The summary and breakdown that the simulator's output `text` holds, or the first error.
pub open spec fn parse_output(text: Seq<char>) -> Result<(CachegrindStats, BreakdownView), ParseError> {
    match run(initial_state(), lines(text)) {
        Err(e) => Err(e),
        Ok(st) => finish(st),
    }
}

pub open spec fn opt_views(o: Option<Vec<Vec<char>>>) -> Option<Seq<Seq<char>>> {
    match o {
        Some(v) => Some(views(v@)),
        None => None,
    }
}

pub open spec fn opt_chars(o: Option<Vec<char>>) -> Option<Seq<char>> {
    match o {
        Some(v) => Some(v@),
        None => None,
    }
}

struct Parser {
    events: Option<Vec<Vec<char>>>,
    filename: Option<String>,
    function: Option<String>,
    breakdown: Vec<(CachegrindFunction, CachegrindStats)>,
    summary: Option<Vec<char>>,
}

impl Parser {
    closed spec fn model(&self) -> ParseState {
        ParseState {
            events: opt_views(self.events),
            filename: opt_view(self.filename),
            function: opt_view(self.function),
            breakdown: breakdown_view(self.breakdown@),
            summary: opt_chars(self.summary),
        }
    }
}

fn event_value_exec(ev: &Vec<Vec<char>>, vals: &Vec<u64>, key: &Vec<char>) -> (r: Option<u64>)
    requires
        ev.len() == vals.len(),
    ensures
        r == event_value(views(ev@), vals@, key@),
{
    let mut n: usize = ev.len();
    while n > 0
        invariant
            n <= ev.len() == vals.len(),
            lookup_event(views(ev@), vals@, key@, n as int) == event_value(views(ev@), vals@, key@),
        decreases n,
    {
        if chars_eq(&ev[n - 1], key) {
            return Some(vals[n - 1]);
        }
        n = n - 1;
    }
    None
}

fn point_of_exec(
    ev: &Vec<Vec<char>>,
    vals: &Vec<u64>,
    total: &Vec<char>,
    l1: &Vec<char>,
    l3: &Vec<char>,
) -> (r: Option<CachegrindDataPoint>)
    requires
        ev.len() == vals.len(),
    ensures
        r == point_of(views(ev@), vals@, total@, l1@, l3@),
{
    match (event_value_exec(ev, vals, total), event_value_exec(ev, vals, l1), event_value_exec(ev, vals, l3)) {
        (Some(t), Some(m1), Some(m3)) => Some(
            CachegrindDataPoint { total: t, l1_misses: m1, l3_misses: m3 },
        ),
        _ => None,
    }
}

fn stats_of_exec(ev: &Vec<Vec<char>>, vals: &Vec<u64>) -> (r: Result<CachegrindStats, ParseError>)
    requires
        ev.len() == vals.len(),
    ensures
        r == stats_of(views(ev@), vals@),
{
    let ghost evv = views(ev@);
    let mut single = ev.len() > 0;
    let mut k: usize = 1;
    while single && k < ev.len()
        invariant
            1 <= k <= ev.len() || ev.len() == 0,
            evv == views(ev@),
            single ==> ev.len() > 0 && forall|j: int| 0 <= j < k ==> #[trigger] evv[j] == evv[0],
            !single ==> !single_event(evv),
        decreases ev.len() - k,
    {
        assert(evv[k as int] == ev@[k as int]@ && evv[0] == ev@[0]@);
        if !chars_eq(&ev[k], &ev[0]) {
            single = false;
        }
        k = k + 1;
    }
    let ir = vec!['I', 'r'];
    assert(ir@ == ev_ir());
    if single {
        return match event_value_exec(ev, vals, &ir) {
            Some(v) => Ok(CachegrindStats::Simple { instructions: v }),
            None => Err(ParseError::MissingEvent),
        };
    }
    let i1mr = vec!['I', '1', 'm', 'r'];
    let ilmr = vec!['I', 'L', 'm', 'r'];
    let dr = vec!['D', 'r'];
    let d1mr = vec!['D', '1', 'm', 'r'];
    let dlmr = vec!['D', 'L', 'm', 'r'];
    let dw = vec!['D', 'w'];
    let d1mw = vec!['D', '1', 'm', 'w'];
    let dlmw = vec!['D', 'L', 'm', 'w'];
    assert(i1mr@ == ev_i1mr() && ilmr@ == ev_ilmr() && dr@ == ev_dr() && d1mr@ == ev_d1mr());
    assert(dlmr@ == ev_dlmr() && dw@ == ev_dw() && d1mw@ == ev_d1mw() && dlmw@ == ev_dlmw());
    match (
        point_of_exec(ev, vals, &ir, &i1mr, &ilmr),
        point_of_exec(ev, vals, &dr, &d1mr, &dlmr),
        point_of_exec(ev, vals, &dw, &d1mw, &dlmw),
    ) {
        (Some(i), Some(r), Some(w)) => Ok(
            CachegrindStats::Full(
                FullCachegrindStats { instructions: i, data_reads: r, data_writes: w },
            ),
        ),
        _ => Err(ParseError::MissingEvent),
    }
}

/// Values of `toks[from..]`, where each is a `u64`.
fn parse_values(toks: &Vec<Vec<char>>, from: usize) -> (r: Option<Vec<u64>>)
    requires
        from <= toks.len(),
    ensures
        match parse_all(views(toks@).subrange(from as int, toks@.len() as int)) {
            Some(vals) => r is Some && r->0@ == vals,
            None => r is None,
        },
{
    let ghost ts = views(toks@).subrange(from as int, toks@.len() as int);
    let mut out: Vec<u64> = Vec::new();
    let mut k: usize = from;
    while k < toks.len()
        invariant
            from <= k <= toks.len(),
            ts == views(toks@).subrange(from as int, toks@.len() as int),
            out@.len() == k - from,
            forall|j: int| 0 <= j < k - from ==> (#[trigger] parse_u64(ts[j])) is Some && out@[j]
                == parse_u64(ts[j])->0,
        decreases toks.len() - k,
    {
        match parse_u64_exec(&toks[k]) {
            None => {
                assert(parse_u64(ts[k - from]) is None);
                return None;
            },
            Some(v) => {
                out.push(v);
            },
        }
        k = k + 1;
    }
    assert(out@ =~= Seq::new(ts.len(), |j: int| parse_u64(ts[j])->0));
    Some(out)
}

fn accumulate_exec(
    b: &mut Vec<(CachegrindFunction, CachegrindStats)>,
    key: CachegrindFunction,
    stats: CachegrindStats,
) -> (r: bool)
    ensures
        match accumulate(breakdown_view(old(b)@), key@, stats) {
            Some(nb) => r && breakdown_view(final(b)@) == nb,
            None => !r,
        },
{
    let ghost bv = breakdown_view(b@);
    let ghost kv = key@;
    proof {
        lemma_find_from(bv, kv, 0);
    }
    let mut j: usize = 0;
    while j < b.len()
        invariant
            j <= b.len(),
            bv == breakdown_view(b@),
            kv == key@,
            b@ == old(b)@,
            forall|k: int| 0 <= k < j ==> bv[k].0 != kv,
        decreases b.len() - j,
    {
        assert(bv[j as int].0 == b@[j as int].0@);
        if b[j].0 == key {
            proof {
                lemma_find_from(bv, kv, 0);
            }
            assert(find_from(bv, kv, 0) == j);
            match b[j].1.checked_plus(stats) {
                None => {
                    return false;
                },
                Some(sum) => {
                    b.set(j, (key, sum));
                    assert(breakdown_view(b@) =~= bv.update(j as int, (kv, sum)));
                    return true;
                },
            }
        }
        j = j + 1;
    }
    assert(find_from(bv, kv, 0) == -1);
    b.push((key, stats));
    assert(breakdown_view(b@) =~= bv.push((kv, stats)));
    true
}

impl Parser {
    fn new() -> (r: Self)
        ensures
            r.model() == initial_state(),
    {
        let r = Parser {
            events: None,
            filename: None,
            function: None,
            breakdown: Vec::new(),
            summary: None,
        };
        assert(r.model().breakdown =~= seq![]);
        r
    }

    fn data_row(&mut self, line: &Vec<char>) -> (r: Result<(), ParseError>)
        requires
            old(self).model().events is Some,
            old(self).model().function is Some,
        ensures
            match data_row(old(self).model(), line@) {
                Ok(st) => r is Ok && final(self).model() == st,
                Err(e) => r is Err && r->Err_0 == e,
            },
    {
        let toks = split_whitespace(line);
        let ghost st = self.model();
        let stats = match &self.events {
            None => {
                return Ok(());
            },
            Some(ev) => {
                if toks.len() == 0 || toks.len() - 1 != ev.len() {
                    return Err(ParseError::StatsMismatch);
                }
                assert(tokens(line@).drop_first() =~= views(toks@).subrange(1, toks@.len() as int));
                let vals = match parse_values(&toks, 1) {
                    None => {
                        return Err(ParseError::InvalidStat);
                    },
                    Some(v) => v,
                };
                match stats_of_exec(ev, &vals) {
                    Err(e) => {
                        return Err(e);
                    },
                    Ok(s) => s,
                }
            },
        };
        let name = match &self.function {
            Some(f) => f.clone(),
            None => String::new(),
        };
        let key = CachegrindFunction { filename: clone_opt_string(&self.filename), name };
        assert(key@ == (st.filename, st.function->0));
        if accumulate_exec(&mut self.breakdown, key, stats) {
            Ok(())
        } else {
            Err(ParseError::StatsOverflow)
        }
    }

    fn step(&mut self, line: &Vec<char>) -> (r: Result<(), ParseError>)
        ensures
            match step(old(self).model(), line@) {
                Ok(st) => r is Ok && final(self).model() == st,
                Err(e) => r is Err && r->Err_0 == e,
            },
    {
        let events_p = vec!['e', 'v', 'e', 'n', 't', 's', ':'];
        let summary_p = vec!['s', 'u', 'm', 'm', 'a', 'r', 'y', ':'];
        let fl_p = vec!['f', 'l', '='];
        let fn_p = vec!['f', 'n', '='];
        assert(events_p@ == events_prefix() && summary_p@ == summary_prefix());
        assert(fl_p@ == fl_prefix() && fn_p@ == fn_prefix());
        if let Some(rest) = strip_prefix(line, &events_p) {
            if self.events.is_some() {
                return Err(ParseError::EventsRedefined);
            }
            self.events = Some(split_whitespace(&rest));
            return Ok(());
        }
        if let Some(rest) = strip_prefix(line, &summary_p) {
            self.summary = Some(rest);
            return Ok(());
        }
        if let Some(rest) = strip_prefix(line, &fl_p) {
            let unknown = vec!['?', '?', '?'];
            assert(unknown@ == unknown_file());
            if chars_eq(&rest, &unknown) {
                self.filename = None;
            } else {
                self.filename = Some(string_from_chars(&trim_exec(&rest)));
            }
            return Ok(());
        }
        if let Some(rest) = strip_prefix(line, &fn_p) {
            self.function = Some(string_from_chars(&rest));
            return Ok(());
        }
        if self.events.is_some() && self.function.is_some() {
            return self.data_row(line);
        }
        Ok(())
    }

    fn finish(self) -> (r: Result<CachegrindOutput, ParseError>)
        ensures
            match finish(self.model()) {
                Ok(v) => r is Ok && r->Ok_0.summary == v.0 && r->Ok_0.breakdown_model() == v.1,
                Err(e) => r is Err && r->Err_0 == e,
            },
    {
        let ghost st = self.model();
        let ev = match self.events {
            None => {
                return Err(ParseError::NoEvents);
            },
            Some(ev) => ev,
        };
        let line = match self.summary {
            None => {
                return Err(ParseError::NoSummary);
            },
            Some(line) => line,
        };
        let toks = split_whitespace(&line);
        assert(views(toks@).subrange(0, toks@.len() as int) =~= tokens(line@));
        let vals = match parse_values(&toks, 0) {
            None => {
                return Err(ParseError::InvalidSummary);
            },
            Some(v) => v,
        };
        if ev.len() != vals.len() {
            return Err(ParseError::SummaryMismatch);
        }
        match stats_of_exec(&ev, &vals) {
            Err(e) => Err(e),
            Ok(summary) => Ok(CachegrindOutput { summary, breakdown: self.breakdown }),
        }
    }
}

impl CachegrindOutput {
    /// Parses the simulator's output text (see [`parse_output`]).
    pub fn read(text: &str) -> (r: Result<CachegrindOutput, ParseError>)
        ensures
            match parse_output(text@) {
                Ok(v) => r is Ok && r->Ok_0.summary == v.0 && r->Ok_0.breakdown_model() == v.1,
                Err(e) => r is Err && r->Err_0 == e,
            },
            r is Ok ==> r->Ok_0.wf(),
    {
        proof {
            if parse_output(text@) is Ok {
                lemma_parse_keys_unique(text@);
            }
        }
        let chars = chars_of(text);
        let mut p = Parser::new();
        let mut cur: Vec<char> = Vec::new();
        let mut i: usize = 0;
        let mut stopped = false;
        while i < chars.len() && !stopped
            invariant
                i <= chars.len(),
                chars@ == text@,
                stopped ==> run(initial_state(), lines(chars@)) == Ok::<ParseState, ParseError>(
                    p.model(),
                ),
                !stopped ==> p.model().summary is None && run(initial_state(), lines(chars@))
                    == run(p.model(), lines_from(chars@, i as int, cur@)),
            decreases chars.len() - i,
        {
            let c = chars[i];
            if c == '\n' {
                let ghost rest = lines_from(chars@, i + 1, seq![]);
                let line = strip_cr_exec(cur);
                let ghost ls = seq![line@] + rest;
                assert(lines_from(chars@, i as int, cur@) == ls);
                assert(ls[0] == line@);
                assert(ls.drop_first() =~= rest);
                match p.step(&line) {
                    Err(e) => {
                        return Err(e);
                    },
                    Ok(()) => {},
                }
                cur = Vec::new();
                if p.summary.is_some() {
                    stopped = true;
                }
            } else {
                cur.push(c);
            }
            i = i + 1;
        }
        if !stopped {
            if cur.len() > 0 {
                assert(lines_from(chars@, i as int, cur@) == seq![cur@]);
                assert(seq![cur@].drop_first() =~= Seq::<Seq<char>>::empty());
                match p.step(&cur) {
                    Err(e) => {
                        return Err(e);
                    },
                    Ok(()) => {},
                }
                assert(run(p.model(), Seq::<Seq<char>>::empty()) == Ok::<ParseState, ParseError>(
                    p.model(),
                ));
            } else {
                assert(lines_from(chars@, i as int, cur@) == Seq::<Seq<char>>::empty());
            }
        }
        assert(run(initial_state(), lines(text@)) == Ok::<ParseState, ParseError>(p.model()));
        p.finish()
    }
}

/// Entry `e` of a breakdown less the entry of its function in `r`, where `r` has one.
pub open spec fn entry_diff(e: (FunctionKey, CachegrindStats), r: BreakdownView) -> CachegrindStats {
    match lookup_function(r, e.0) {
        Some(rs) => e.1.spec_minus(rs),
        None => e.1,
    }
}

/// The first `n` entries of `l`, each less its counterpart in `r`, without those that become
/// zero.
pub open spec fn breakdown_diff(l: BreakdownView, r: BreakdownView, n: int) -> BreakdownView
    decreases n,
{
    if n <= 0 {
        seq![]
    } else {
        let prev = breakdown_diff(l, r, n - 1);
        let d = entry_diff(l[n - 1], r);
        if d.spec_is_zero() {
            prev
        } else {
            prev.push((l[n - 1].0, d))
        }
    }
}

/// The first `n` entries of `b` whose instruction count is at least `threshold`.
pub open spec fn entries_at_least(b: BreakdownView, threshold: u64, n: int) -> BreakdownView
    decreases n,
{
    if n <= 0 {
        seq![]
    } else {
        let prev = entries_at_least(b, threshold, n - 1);
        if b[n - 1].1.spec_total_instructions() >= threshold {
            prev.push(b[n - 1])
        } else {
            prev
        }
    }
}

impl CachegrindFunction {
    /// A copy of this function.
    pub fn duplicate(&self) -> (r: Self)
        ensures
            r@ == self@,
    {
        CachegrindFunction { filename: clone_opt_string(&self.filename), name: self.name.clone() }
    }
}

impl CachegrindOutput {
    /// Subtracts `rhs`: the summaries are subtracted, and so is each function's stats where
    /// `rhs` has that function; functions whose stats become zero are dropped.
    pub fn minus(&self, rhs: &CachegrindOutput) -> (r: CachegrindOutput)
        ensures
            r.summary == self.summary.spec_minus(rhs.summary),
            r.breakdown_model() == breakdown_diff(
                self.breakdown_model(),
                rhs.breakdown_model(),
                self.breakdown_model().len() as int,
            ),
            self.wf() ==> r.wf(),
    {
        let ghost l = self.breakdown_model();
        let ghost rv = rhs.breakdown_model();
        proof {
            if keys_unique(l) {
                lemma_minus_keys_unique(l, rv);
            }
        }
        let mut out: Vec<(CachegrindFunction, CachegrindStats)> = Vec::new();
        let mut i: usize = 0;
        while i < self.breakdown.len()
            invariant
                i <= self.breakdown.len(),
                l == self.breakdown_model(),
                rv == rhs.breakdown_model(),
                breakdown_view(out@) == breakdown_diff(l, rv, i as int),
            decreases self.breakdown.len() - i,
        {
            let stats = self.breakdown[i].1;
            let diff = match rhs.get(&self.breakdown[i].0) {
                Some(rs) => stats.minus(rs),
                None => stats,
            };
            assert(l[i as int] == (self.breakdown@[i as int].0@, stats));
            if !diff.is_zero() {
                let ghost prev = breakdown_view(out@);
                let key = self.breakdown[i].0.duplicate();
                out.push((key, diff));
                assert(breakdown_view(out@) =~= prev.push((l[i as int].0, diff)));
            }
            i = i + 1;
        }
        CachegrindOutput { summary: self.summary.minus(rhs.summary), breakdown: out }
    }

    /// The record as a named baseline keeps it: without breakdown, or where `breakdown` is set,
    /// with only the functions that account for at least 0.1% of all instructions.
    pub fn for_baseline(&self, breakdown: bool) -> (r: CachegrindOutput)
        ensures
            kept_for_baseline(r, *self, breakdown),
            self.wf() ==> r.wf(),
    {
        proof {
            if self.wf() {
                lemma_baseline_keys_unique(
                    self.breakdown_model(),
                    (self.summary.spec_total_instructions() / 1000) as u64,
                );
            }
        }
        let mut out: Vec<(CachegrindFunction, CachegrindStats)> = Vec::new();
        if !breakdown {
            assert(breakdown_view(out@) =~= seq![]);
            return CachegrindOutput { summary: self.summary, breakdown: out };
        }
        let threshold = self.summary.total_instructions() / 1000;
        let ghost l = self.breakdown_model();
        let mut i: usize = 0;
        while i < self.breakdown.len()
            invariant
                i <= self.breakdown.len(),
                l == self.breakdown_model(),
                threshold == self.summary.spec_total_instructions() / 1000,
                breakdown_view(out@) == entries_at_least(l, threshold, i as int),
            decreases self.breakdown.len() - i,
        {
            let stats = self.breakdown[i].1;
            assert(l[i as int] == (self.breakdown@[i as int].0@, stats));
            if stats.total_instructions() >= threshold {
                let ghost prev = breakdown_view(out@);
                let key = self.breakdown[i].0.duplicate();
                out.push((key, stats));
                assert(breakdown_view(out@) =~= prev.push(l[i as int]));
            }
            i = i + 1;
        }
        CachegrindOutput { summary: self.summary, breakdown: out }
    }
}

/// `kept` is what a named baseline keeps of `output`: the summary, and where `breakdown` is set
/// the functions that account for at least 0.1% of all instructions.
pub open spec fn kept_for_baseline(kept: CachegrindOutput, output: CachegrindOutput, breakdown: bool) -> bool {
    &&& kept.summary == output.summary
    &&& !breakdown ==> kept.breakdown_model() == Seq::<(FunctionKey, CachegrindStats)>::empty()
    &&& breakdown ==> kept.breakdown_model() == entries_at_least(
        output.breakdown_model(),
        (output.summary.spec_total_instructions() / 1000) as u64,
        output.breakdown_model().len() as int,
    )
}

/// Output produced for a single benchmark.
#[derive(Debug, Clone)]
pub struct BenchmarkOutput {
    /// Latest / current stats for the benchmark.
    pub stats: CachegrindOutput,
    /// Previous stats for the benchmark.
    pub prev_stats: Option<CachegrindOutput>,
}

proof fn lemma_accumulate_unique(b: BreakdownView, key: FunctionKey, stats: CachegrindStats)
    requires
        keys_unique(b),
        accumulate(b, key, stats) is Some,
    ensures
        keys_unique(accumulate(b, key, stats)->0),
{
    lemma_find_from(b, key, 0);
    let nb = accumulate(b, key, stats)->0;
    let i = find_from(b, key, 0);
    if i < 0 || i >= b.len() {
        assert forall|p: int, q: int| 0 <= p < q < nb.len() implies nb[p].0 != nb[q].0 by {
            assert(nb[p] == b[p]);
            if q < b.len() {
                assert(nb[q] == b[q]);
            }
        }
    } else {
        assert forall|p: int, q: int| 0 <= p < q < nb.len() implies nb[p].0 != nb[q].0 by {
            assert(nb[p].0 == b[p].0 && nb[q].0 == b[q].0);
        }
    }
}

proof fn lemma_step_unique(st: ParseState, line: Seq<char>)
    requires
        keys_unique(st.breakdown),
        step(st, line) is Ok,
    ensures
        keys_unique(step(st, line)->Ok_0.breakdown),
{
    let n = line.len() as int;
    if !has_prefix(line, events_prefix()) && !has_prefix(line, summary_prefix()) && !has_prefix(
        line,
        fl_prefix(),
    ) && !has_prefix(line, fn_prefix()) && st.events is Some && st.function is Some {
        let toks = tokens(line);
        let ev = st.events->0;
        let vals = parse_all(toks.drop_first())->0;
        let stats = stats_of(ev, vals)->Ok_0;
        lemma_accumulate_unique(st.breakdown, (st.filename, st.function->0), stats);
    }
}

proof fn lemma_run_unique(st: ParseState, ls: Seq<Seq<char>>)
    requires
        keys_unique(st.breakdown),
        run(st, ls) is Ok,
    ensures
        keys_unique(run(st, ls)->Ok_0.breakdown),
    decreases ls.len(),
{
    if ls.len() > 0 {
        lemma_step_unique(st, ls[0]);
        let next = step(st, ls[0])->Ok_0;
        if next.summary is None {
            lemma_run_unique(next, ls.drop_first());
        }
    }
}

/// The breakdown of a parsed output has one entry per function: rows of one function are
/// summed into its entry.
pub proof fn lemma_parse_keys_unique(text: Seq<char>)
    requires
        parse_output(text) is Ok,
    ensures
        keys_unique(parse_output(text)->Ok_0.1),
{
    assert(keys_unique(initial_state().breakdown));
    lemma_run_unique(initial_state(), lines(text));
}

proof fn lemma_diff_unique(l: BreakdownView, r: BreakdownView, n: int)
    requires
        keys_unique(l),
        0 <= n <= l.len(),
    ensures
        keys_unique(breakdown_diff(l, r, n)),
        forall|p: int|
            0 <= p < breakdown_diff(l, r, n).len() ==> exists|k: int|
                0 <= k < n && #[trigger] breakdown_diff(l, r, n)[p].0 == l[k].0,
    decreases n,
{
    if n > 0 {
        lemma_diff_unique(l, r, n - 1);
        let prev = breakdown_diff(l, r, n - 1);
        let cur = breakdown_diff(l, r, n);
        if cur != prev {
            assert(cur == prev.push((l[n - 1].0, entry_diff(l[n - 1], r))));
            assert forall|p: int| 0 <= p < prev.len() implies cur[p].0 != l[n - 1].0 by {
                assert(cur[p] == prev[p]);
                let k = choose|k: int| 0 <= k < n - 1 && prev[p].0 == l[k].0;
            }
            assert forall|p: int|
                0 <= p < cur.len() implies exists|k: int| 0 <= k < n && #[trigger] cur[p].0 == l[k].0 by {
                if p < prev.len() {
                    assert(cur[p] == prev[p]);
                    let k = choose|k: int| 0 <= k < n - 1 && prev[p].0 == l[k].0;
                    assert(cur[p].0 == l[k].0);
                } else {
                    assert(cur[p].0 == l[n - 1].0);
                }
            }
            assert forall|p: int, q: int| 0 <= p < q < cur.len() implies cur[p].0 != cur[q].0 by {
                if q < prev.len() {
                    assert(cur[p] == prev[p] && cur[q] == prev[q]);
                }
            }
        }
    }
}

proof fn lemma_at_least_unique(b: BreakdownView, t: u64, n: int)
    requires
        keys_unique(b),
        0 <= n <= b.len(),
    ensures
        keys_unique(entries_at_least(b, t, n)),
        forall|p: int|
            0 <= p < entries_at_least(b, t, n).len() ==> exists|k: int|
                0 <= k < n && #[trigger] entries_at_least(b, t, n)[p].0 == b[k].0,
    decreases n,
{
    if n > 0 {
        lemma_at_least_unique(b, t, n - 1);
        let prev = entries_at_least(b, t, n - 1);
        let cur = entries_at_least(b, t, n);
        if cur != prev {
            assert(cur == prev.push(b[n - 1]));
            assert forall|p: int| 0 <= p < prev.len() implies cur[p].0 != b[n - 1].0 by {
                assert(cur[p] == prev[p]);
                let k = choose|k: int| 0 <= k < n - 1 && prev[p].0 == b[k].0;
            }
            assert forall|p: int|
                0 <= p < cur.len() implies exists|k: int| 0 <= k < n && #[trigger] cur[p].0 == b[k].0 by {
                if p < prev.len() {
                    assert(cur[p] == prev[p]);
                    let k = choose|k: int| 0 <= k < n - 1 && prev[p].0 == b[k].0;
                    assert(cur[p].0 == b[k].0);
                } else {
                    assert(cur[p].0 == b[n - 1].0);
                }
            }
            assert forall|p: int, q: int| 0 <= p < q < cur.len() implies cur[p].0 != cur[q].0 by {
                if q < prev.len() {
                    assert(cur[p] == prev[p] && cur[q] == prev[q]);
                }
            }
        }
    }
}

/// Subtracting records keeps one entry per function.
pub proof fn lemma_minus_keys_unique(l: BreakdownView, r: BreakdownView)
    requires
        keys_unique(l),
    ensures
        keys_unique(breakdown_diff(l, r, l.len() as int)),
{
    lemma_diff_unique(l, r, l.len() as int);
}

/// Pruning a record for a baseline keeps one entry per function.
pub proof fn lemma_baseline_keys_unique(b: BreakdownView, t: u64)
    requires
        keys_unique(b),
    ensures
        keys_unique(entries_at_least(b, t, b.len() as int)),
{
    lemma_at_least_unique(b, t, b.len() as int);
}

} // verus!
