//! Options of the benchmark executable: the private marker between parent and child, the
//! decisions drawn from command-line options, and the benchmark id filter.

use vstd::prelude::*;

use crate::id::{id_text, BenchmarkId};
use crate::text::{chars_of, decimal_value, is_digit, parse_u64, parse_u64_exec};
use crate::BenchMode;

verus! {

#[verifier::external_type_specification]
#[verifier::external_body]
pub struct ExRegex(regex::Regex);

#[verifier::external_type_specification]
#[verifier::external_body]
pub struct ExRegexError(regex::Error);

/// Whether the regular expression `pattern` matches somewhere in `haystack`.
pub uninterp spec fn regex_matches(pattern: Seq<char>, haystack: Seq<char>) -> bool;

/// Whether `pattern` is a regular expression that compiles within the default size limits.
pub uninterp spec fn regex_compiles(pattern: Seq<char>) -> bool;

/// Relies on `regex::Regex::new`: compiles `pattern`, or reports why it cannot. Whether it
/// succeeds depends on the pattern alone, as the builder's default limits are constants.
#[verifier::external_body]
fn compile_regex(pattern: &str) -> (r: Result<regex::Regex, regex::Error>)
    ensures
        (r is Ok) == regex_compiles(pattern@),
{
    regex::Regex::new(pattern)
}

/// A compiled regular expression together with its source text.
#[derive(Debug)]
pub struct RegexFilter {
    pattern: String,
    regex: regex::Regex,
}

/// Relies on `regex::Regex::is_match`: whether the regex matches anywhere in `haystack`. The
/// regex of a `RegexFilter` is compiled from its pattern, as `RegexFilter::new` is the only
/// place that builds one.
#[verifier::external_body]
fn regex_is_match(filter: &RegexFilter, haystack: &str) -> (r: bool)
    ensures
        r == regex_matches(filter.pattern@, haystack@),
{
    filter.regex.is_match(haystack)
}

impl RegexFilter {
    pub closed spec fn spec_pattern(&self) -> Seq<char> {
        self.pattern@
    }

    /// Compiles `pattern`.
    pub fn new(pattern: &str) -> (r: Result<Self, regex::Error>)
        ensures
            (r is Ok) == regex_compiles(pattern@),
            r is Ok ==> r->Ok_0.spec_pattern() == pattern@,
    {
        match compile_regex(pattern) {
            Ok(regex) => Ok(RegexFilter { pattern: pattern.to_owned(), regex }),
            Err(e) => Err(e),
        }
    }

    /// Source text of the regular expression.
    pub fn pattern(&self) -> (r: &str)
        ensures
            r@ == self.spec_pattern(),
    {
        self.pattern.as_str()
    }

    /// Whether the pattern matches somewhere in `haystack`.
    pub fn is_match(&self, haystack: &str) -> (r: bool)
        ensures
            r == regex_matches(self.spec_pattern(), haystack@),
    {
        regex_is_match(self, haystack)
    }
}

/// Filter on benchmark ids, applied to their canonical text.
#[derive(Debug)]
pub enum IdMatcher {
    /// Every id.
    Any,
    /// The id whose text is exactly this.
    Exact(String),
    /// Ids whose text the regular expression matches somewhere.
    Regex(RegexFilter),
}

impl IdMatcher {
    /// The filter for the positional `FILTER` option: none matches everything, `exact` asks for
    /// an exact match, and otherwise the filter is a regular expression.
    pub fn from_filter(filter: Option<&str>, exact: bool) -> (r: Result<IdMatcher, regex::Error>)
        ensures
            filter is None ==> r is Ok && r->Ok_0 is Any,
            filter is Some && exact ==> r is Ok && r->Ok_0 is Exact && r->Ok_0->Exact_0@
                == filter->0@,
            filter is Some && !exact ==> (r is Ok) == regex_compiles(filter->0@),
            filter is Some && !exact && r is Ok ==> r->Ok_0 is Regex
                && r->Ok_0->Regex_0.spec_pattern() == filter->0@,
    {
        match filter {
            None => Ok(IdMatcher::Any),
            Some(s) => if exact {
                Ok(IdMatcher::Exact(s.to_owned()))
            } else {
                match RegexFilter::new(s) {
                    Ok(re) => Ok(IdMatcher::Regex(re)),
                    Err(e) => Err(e),
                }
            },
        }
    }

    /// Whether the filter accepts `id`.
    pub fn matches(&self, id: &BenchmarkId) -> (r: bool)
        ensures
            match self {
                IdMatcher::Any => r,
                IdMatcher::Exact(s) => r == (s@ == id_text(id@)),
                IdMatcher::Regex(re) => r == regex_matches(re.spec_pattern(), id_text(id@)),
            },
    {
        match self {
            IdMatcher::Any => true,
            IdMatcher::Exact(s) => {
                let text = id.to_text();
                *s == text
            },
            IdMatcher::Regex(re) => {
                let text = id.to_text();
                re.is_match(text.as_str())
            },
        }
    }
}

/// The first text argument of the private marker between parent and child.
pub open spec fn marker() -> Seq<char> {
    seq![
        '-', '-', 'c', 'a', 'c', 'h', 'e', 'g', 'r', 'i', 'n', 'd', '-', 'i', 'n', 's', 't', 'r', 'u',
        'm', 'e', 'n', 't',
    ]
}

fn marker_chars() -> (r: Vec<char>)
    ensures
        r@ == marker(),
{
    let r = vec![
        '-', '-', 'c', 'a', 'c', 'h', 'e', 'g', 'r', 'i', 'n', 'd', '-', 'i', 'n', 's', 't', 'r', 'u',
        'm', 'e', 'n', 't',
    ];
    assert(r@ =~= marker());
    r
}

/// Errors in the private marker.
#[derive(Debug, Clone, Copy, PartialEq, Eq, Structural)]
pub enum OptionsError {
    /// Fewer than three values follow the marker.
    TooFewArgs,
    /// The iteration count is not a `u64`.
    Iterations,
    /// The baseline flag is neither `+` nor `-`.
    IsBaseline,
}

/// What a child process is asked to do: run the benchmark `id` `iterations` times, stopping
/// before the last benchmark body (`is_baseline`) or after it.
#[derive(Debug, Clone)]
pub struct CachegrindOptions {
    pub iterations: u64,
    pub is_baseline: bool,
    pub id: String,
}

/// Model of the child's options: iterations, baseline flag, id text.
pub type ChildView = (u64, bool, Seq<char>);

/// The options that the command-line arguments `args` (the executable first) ask for: none
/// unless the marker comes second.
pub open spec fn child_options(args: Seq<Seq<char>>) -> Result<Option<ChildView>, OptionsError> {
    if args.len() < 2 || args[1] != marker() {
        Ok(None)
    } else if args.len() < 3 {
        Err(OptionsError::TooFewArgs)
    } else {
        match parse_u64(args[2]) {
            None => Err(OptionsError::Iterations),
            Some(n) => if args.len() < 4 {
                Err(OptionsError::TooFewArgs)
            } else if args[3] != seq!['+'] && args[3] != seq!['-'] {
                Err(OptionsError::IsBaseline)
            } else if args.len() < 5 {
                Err(OptionsError::TooFewArgs)
            } else {
                Ok(Some((n, args[3] == seq!['+'], args[4])))
            },
        }
    }
}

pub open spec fn string_views(v: Seq<String>) -> Seq<Seq<char>> {
    Seq::new(v.len(), |i: int| v[i]@)
}

/// Decimal digits of `n`, most significant first, without leading zeros.
pub open spec fn decimal_of(n: nat) -> Seq<char>
    decreases n,
{
    if n < 10 {
        seq![digit_char(n)]
    } else {
        decimal_of(n / 10).push(digit_char(n % 10))
    }
}

pub open spec fn digit_char(d: nat) -> char {
    if d == 0 { '0' } else if d == 1 { '1' } else if d == 2 { '2' } else if d == 3 { '3' }
    else if d == 4 { '4' } else if d == 5 { '5' } else if d == 6 { '6' } else if d == 7 { '7' }
    else if d == 8 { '8' } else { '9' }
}

fn digit_char_exec(d: u64) -> (r: char)
    requires
        d < 10,
    ensures
        r == digit_char(d as nat),
{
    if d == 0 { '0' } else if d == 1 { '1' } else if d == 2 { '2' } else if d == 3 { '3' }
    else if d == 4 { '4' } else if d == 5 { '5' } else if d == 6 { '6' } else if d == 7 { '7' }
    else if d == 8 { '8' } else { '9' }
}

proof fn lemma_digit_char(d: nat)
    requires
        d < 10,
    ensures
        is_digit(digit_char(d)),
        crate::text::digit_value(digit_char(d)) == d,
        digit_char(d) != '+',
{
}

proof fn lemma_decimal_of(n: nat)
    ensures
        decimal_of(n).len() > 0,
        decimal_of(n)[0] != '+',
        forall|k: int| 0 <= k < decimal_of(n).len() ==> is_digit(#[trigger] decimal_of(n)[k]),
        decimal_value(decimal_of(n)) == n,
    decreases n,
{
    lemma_digit_char(n % 10);
    let d = decimal_of(n);
    if n < 10 {
        assert(d.drop_last() =~= Seq::<char>::empty());
        assert(decimal_value(d) == decimal_value(d.drop_last()) * 10 + crate::text::digit_value(
            d.last(),
        ));
    } else {
        lemma_decimal_of(n / 10);
        assert(n == (n / 10) * 10 + n % 10);
        let p = decimal_of(n / 10);
        assert(d.drop_last() =~= p);
        assert(d.last() == digit_char(n % 10));
        assert(decimal_value(d) == decimal_value(p) * 10 + crate::text::digit_value(d.last()));
        assert forall|k: int| 0 <= k < d.len() implies is_digit(#[trigger] d[k]) by {
            if k < p.len() {
                assert(d[k] == p[k]);
            }
        }
    }
}

/// Decimal text of `n`.
pub fn decimal_text(n: u64) -> (r: Vec<char>)
    ensures
        r@ == decimal_of(n as nat),
    decreases n,
{
    if n < 10 {
        let c = digit_char_exec(n);
        let r = vec![c];
        assert(r@ =~= seq![c]);
        r
    } else {
        let mut r = decimal_text(n / 10);
        let c = digit_char_exec(n % 10);
        r.push(c);
        r
    }
}

/// Decimal text of `n` reads back as `n`.
pub proof fn lemma_decimal_round_trip(n: u64)
    ensures
        parse_u64(decimal_of(n as nat)) == Some(n),
{
    lemma_decimal_of(n as nat);
}

impl CachegrindOptions {
    pub open spec fn spec_view(&self) -> ChildView {
        (self.iterations, self.is_baseline, self.id@)
    }

    /// The arguments that hand these options to a child, after the executable:
    /// `--cachegrind-instrument ITERATIONS (+|-) ID`.
    pub fn to_args(&self) -> (r: Vec<String>)
        ensures
            string_views(r@) == seq![
                marker(),
                decimal_of(self.iterations as nat),
                if self.is_baseline {
                    seq!['+']
                } else {
                    seq!['-']
                },
                self.id@,
            ],
    {
        let flag = if self.is_baseline {
            vec!['+']
        } else {
            vec!['-']
        };
        assert(flag@ =~= (if self.is_baseline {
            seq!['+']
        } else {
            seq!['-']
        }));
        let mut r: Vec<String> = Vec::new();
        r.push(crate::text::string_from_chars(&marker_chars()));
        r.push(crate::text::string_from_chars(&decimal_text(self.iterations)));
        r.push(crate::text::string_from_chars(&flag));
        r.push(self.id.clone());
        assert(string_views(r@) =~= seq![
            marker(),
            decimal_of(self.iterations as nat),
            flag@,
            self.id@,
        ]);
        r
    }

    /// Reads the options from the command-line arguments, the executable first (see
    /// [`child_options`]).
    pub fn parse_args(args: &Vec<String>) -> (r: Result<Option<Self>, OptionsError>)
        ensures
            match child_options(string_views(args@)) {
                Ok(Some(v)) => r is Ok && r->Ok_0 is Some && r->Ok_0->0.spec_view() == v,
                Ok(None) => r is Ok && r->Ok_0 is None,
                Err(e) => r is Err && r->Err_0 == e,
            },
    {
        let ghost a = string_views(args@);
        if args.len() < 2 {
            return Ok(None);
        }
        let second = chars_of(args[1].as_str());
        assert(second@ == a[1]);
        if !crate::text::chars_eq(&second, &marker_chars()) {
            return Ok(None);
        }
        if args.len() < 3 {
            return Err(OptionsError::TooFewArgs);
        }
        let third = chars_of(args[2].as_str());
        assert(third@ == a[2]);
        let iterations = match parse_u64_exec(&third) {
            None => {
                return Err(OptionsError::Iterations);
            },
            Some(n) => n,
        };
        if args.len() < 4 {
            return Err(OptionsError::TooFewArgs);
        }
        let fourth = chars_of(args[3].as_str());
        assert(fourth@ == a[3]);
        let plus = vec!['+'];
        let minus = vec!['-'];
        assert(plus@ =~= seq!['+']);
        assert(minus@ =~= seq!['-']);
        assert(seq!['+'] != seq!['-']) by {
            assert(seq!['+'][0] != seq!['-'][0]);
        }
        let is_baseline = if crate::text::chars_eq(&fourth, &plus) {
            true
        } else if crate::text::chars_eq(&fourth, &minus) {
            false
        } else {
            return Err(OptionsError::IsBaseline);
        };
        if args.len() < 5 {
            return Err(OptionsError::TooFewArgs);
        }
        assert(args@[4]@ == a[4]);
        Ok(Some(CachegrindOptions { iterations, is_baseline, id: args[4].clone() }))
    }
}

/// The arguments that a parent hands to a child read back as the same options.
pub proof fn lemma_child_args_round_trip(o: ChildView, exe: Seq<char>)
    ensures
        child_options(
            seq![
                exe,
                marker(),
                decimal_of(o.0 as nat),
                if o.1 {
                    seq!['+']
                } else {
                    seq!['-']
                },
                o.2,
            ],
        ) == Ok::<Option<ChildView>, OptionsError>(Some(o)),
{
    lemma_decimal_round_trip(o.0);
    assert(seq!['+'] != seq!['-']) by {
        assert(seq!['+'][0] != seq!['-'][0]);
    }
}

/// Output verbosity.
#[derive(Debug, Clone, Copy, PartialEq, Eq, Structural)]
pub enum Verbosity {
    Quiet,
    Normal,
    Verbose,
}

/// Where a named baseline is stored.
#[derive(Debug, Clone, PartialEq, Eq)]
pub enum BaselineLocation {
    /// Tracked with the sources, under `benches/<bench-binary>/`; the name had a `pub:` prefix.
    Public(String),
    /// Under `<out-dir>/_baselines/`.
    Local(String),
}

/// Configuration errors found before any benchmark runs.
#[derive(Debug, Clone, Copy, PartialEq, Eq, Structural)]
pub enum ConfigError {
    /// The warm-up target is zero.
    ZeroWarmUp,
    /// The cap on iterations is zero, or too large to add one to.
    BadMaxIterations,
}

/// Options of the parent process, as plain values.
#[derive(Debug, Clone)]
pub struct BenchOptions {
    pub bench: bool,
    pub bench_name: String,
    pub cachegrind_wrapper: Vec<String>,
    pub warm_up_instructions: u64,
    pub max_iterations: u64,
    pub cachegrind_out_dir: String,
    pub jobs: usize,
    pub verbose: bool,
    pub quiet: bool,
    pub breakdown: bool,
    pub save_baseline: Option<String>,
    pub baseline: Option<String>,
    /// Regression threshold in parts per million of the previous instruction count.
    pub threshold_ppm: u64,
    pub list: bool,
    pub print: Option<Option<String>>,
    pub exact: bool,
    pub filter: Option<String>,
}

pub open spec fn pub_prefix() -> Seq<char> {
    seq!['p', 'u', 'b', ':']
}

/// `loc` is where the baseline named `name` is stored: a `pub:` prefix selects the tracked
/// directory and is dropped from the name.
pub open spec fn location_of(loc: BaselineLocation, name: Seq<char>) -> bool {
    if crate::text::has_prefix(name, pub_prefix()) {
        loc is Public && loc->Public_0@ == name.subrange(4, name.len() as int)
    } else {
        loc is Local && loc->Local_0@ == name
    }
}

/// `r` is the location of the baseline named by `name`, where there is one.
pub open spec fn opt_location_of(r: Option<BaselineLocation>, name: Option<String>) -> bool {
    match name {
        Some(n) => r is Some && location_of(r->0, n@),
        None => r is None,
    }
}

/// Location of the baseline named `name` (see [`location_of`]).
pub fn resolve_baseline(name: &str) -> (r: BaselineLocation)
    ensures
        location_of(r, name@),
{
    let chars = chars_of(name);
    let prefix = vec!['p', 'u', 'b', ':'];
    assert(prefix@ == pub_prefix());
    match crate::text::strip_prefix(&chars, &prefix) {
        Some(rest) => BaselineLocation::Public(crate::text::string_from_chars(&rest)),
        None => BaselineLocation::Local(name.to_owned()),
    }
}

impl BenchOptions {
    /// The mode these options ask for: `--list` first, then `--print`, then `--bench`; tests
    /// otherwise.
    pub fn mode(&self) -> (r: BenchMode)
        ensures
            r == (if self.list {
                BenchMode::List
            } else if self.print is Some {
                BenchMode::PrintResults
            } else if self.bench {
                BenchMode::Bench
            } else {
                BenchMode::Test
            }),
    {
        if self.list {
            BenchMode::List
        } else if self.print.is_some() {
            BenchMode::PrintResults
        } else if self.bench {
            BenchMode::Bench
        } else {
            BenchMode::Test
        }
    }

    /// Output verbosity: `--quiet` wins over `--verbose`.
    pub fn verbosity(&self) -> (r: Verbosity)
        ensures
            r == (if self.quiet {
                Verbosity::Quiet
            } else if self.verbose {
                Verbosity::Verbose
            } else {
                Verbosity::Normal
            }),
    {
        if self.quiet {
            Verbosity::Quiet
        } else if self.verbose {
            Verbosity::Verbose
        } else {
            Verbosity::Normal
        }
    }

    /// Checks the values that the protocol needs.
    pub fn validate(&self) -> (r: Result<(), ConfigError>)
        ensures
            self.warm_up_instructions == 0 ==> r == Err::<(), ConfigError>(ConfigError::ZeroWarmUp),
            self.warm_up_instructions != 0 && (self.max_iterations == 0 || self.max_iterations
                == u64::MAX) ==> r == Err::<(), ConfigError>(ConfigError::BadMaxIterations),
            self.warm_up_instructions != 0 && 1 <= self.max_iterations < u64::MAX ==> r is Ok,
    {
        if self.warm_up_instructions == 0 {
            Err(ConfigError::ZeroWarmUp)
        } else if self.max_iterations == 0 || self.max_iterations == u64::MAX {
            Err(ConfigError::BadMaxIterations)
        } else {
            Ok(())
        }
    }

    /// The id filter.
    pub fn id_matcher(&self) -> (r: Result<IdMatcher, regex::Error>)
        ensures
            self.filter is None ==> r is Ok && r->Ok_0 is Any,
            self.filter is Some && self.exact ==> r is Ok && r->Ok_0 is Exact
                && r->Ok_0->Exact_0@ == self.filter->0@,
            self.filter is Some && !self.exact ==> (r is Ok) == regex_compiles(self.filter->0@),
            self.filter is Some && !self.exact && r is Ok ==> r->Ok_0 is Regex
                && r->Ok_0->Regex_0.spec_pattern() == self.filter->0@,
    {
        match &self.filter {
            None => IdMatcher::from_filter(None, self.exact),
            Some(f) => IdMatcher::from_filter(Some(f.as_str()), self.exact),
        }
    }

    /// Where to save the results as a named baseline, if asked.
    pub fn save_baseline_location(&self) -> (r: Option<BaselineLocation>)
        ensures
            opt_location_of(r, self.save_baseline),
    {
        match &self.save_baseline {
            Some(name) => Some(resolve_baseline(name.as_str())),
            None => None,
        }
    }

    /// The named baseline to compare against, if any.
    pub fn baseline_location(&self) -> (r: Option<BaselineLocation>)
        ensures
            opt_location_of(r, self.baseline),
    {
        match &self.baseline {
            Some(name) => Some(resolve_baseline(name.as_str())),
            None => None,
        }
    }

    /// Whether `--print` names a baseline.
    pub fn has_print_baseline(&self) -> (r: bool)
        ensures
            r == (self.print is Some && self.print->0 is Some),
    {
        match &self.print {
            Some(Some(_)) => true,
            _ => false,
        }
    }

    /// The named baseline that `--print` shows, if it names one.
    pub fn print_baseline_location(&self) -> (r: Option<BaselineLocation>)
        ensures
            match self.print {
                Some(name) => opt_location_of(r, name),
                None => r is None,
            },
    {
        match &self.print {
            Some(Some(name)) => Some(resolve_baseline(name.as_str())),
            _ => None,
        }
    }

    /// The regression threshold, in parts per million; active only when comparing against a
    /// named baseline.
    pub fn regression_threshold_ppm(&self) -> (r: Option<u64>)
        ensures
            r == (if self.baseline is Some {
                Some(self.threshold_ppm)
            } else {
                None::<u64>
            }),
    {
        if self.baseline.is_some() {
            Some(self.threshold_ppm)
        } else {
            None
        }
    }
}

pub open spec fn out_file_prefix() -> Seq<char> {
    seq![
        '-', '-', 'c', 'a', 'c', 'h', 'e', 'g', 'r', 'i', 'n', 'd', '-', 'o', 'u', 't', '-', 'f',
        'i', 'l', 'e', '=',
    ]
}

/// Arguments that hand `o` to a child, after the executable.
pub open spec fn child_args(o: ChildView) -> Seq<Seq<char>> {
    seq![marker(), decimal_of(o.0 as nat), if o.1 {
        seq!['+']
    } else {
        seq!['-']
    }, o.2]
}

/// The command line of a child run: the simulator wrapper, the option naming the output file,
/// this executable, and the marker with the child's options.
pub open spec fn child_command_line(
    wrapper: Seq<Seq<char>>,
    out_file: Seq<char>,
    executable: Seq<char>,
    o: ChildView,
) -> Seq<Seq<char>> {
    wrapper + seq![out_file_prefix() + out_file, executable] + child_args(o)
}

/// Which previous stats a report compares against.
#[derive(Debug, Clone, PartialEq, Eq)]
pub enum PreviousSource {
    /// The named baseline at this location.
    Named(BaselineLocation),
    /// The backups of the previous run's files.
    Files,
    /// None: the printed stats come from a named baseline.
    Nothing,
}

impl BenchOptions {
    /// Command line of a child run: program first. `None` where the wrapper is empty.
    pub fn child_command(&self, out_file: &str, executable: &str, child: &CachegrindOptions) -> (r:
        Option<Vec<String>>)
        ensures
            self.cachegrind_wrapper@.len() == 0 ==> r is None,
            self.cachegrind_wrapper@.len() > 0 ==> r is Some && string_views(r->0@)
                == child_command_line(
                string_views(self.cachegrind_wrapper@),
                out_file@,
                executable@,
                child.spec_view(),
            ),
    {
        if self.cachegrind_wrapper.len() == 0 {
            return None;
        }
        let mut line: Vec<String> = Vec::new();
        let mut k: usize = 0;
        while k < self.cachegrind_wrapper.len()
            invariant
                k <= self.cachegrind_wrapper.len(),
                string_views(line@) == string_views(self.cachegrind_wrapper@).subrange(0, k as int),
            decreases self.cachegrind_wrapper.len() - k,
        {
            let ghost old_line = line@;
            assert(string_views(old_line).len() == old_line.len());
            assert(old_line.len() == k);
            let c = self.cachegrind_wrapper[k].clone();
            assert(c@ == self.cachegrind_wrapper@[k as int]@);
            line.push(c);
            assert(line@ == old_line.push(c));
            k = k + 1;
            assert forall|i: int| 0 <= i < k implies #[trigger] string_views(line@)[i]
                == string_views(self.cachegrind_wrapper@)[i] by {
                if i < k - 1 {
                    assert(line@[i] == old_line[i]);
                    assert(string_views(old_line)[i] == old_line[i]@);
                }
            }
            assert(string_views(line@) =~= string_views(self.cachegrind_wrapper@).subrange(
                0,
                k as int,
            ));
        }
        let mut out_arg = vec![
            '-', '-', 'c', 'a', 'c', 'h', 'e', 'g', 'r', 'i', 'n', 'd', '-', 'o', 'u', 't', '-', 'f',
            'i', 'l', 'e', '=',
        ];
        assert(out_arg@ =~= out_file_prefix());
        crate::text::extend_chars(&mut out_arg, &chars_of(out_file));
        line.push(crate::text::string_from_chars(&out_arg));
        line.push(executable.to_owned());
        let rest = child.to_args();
        let ghost head = string_views(line@);
        let mut j: usize = 0;
        while j < rest.len()
            invariant
                j <= rest.len(),
                string_views(line@) == head + string_views(rest@).subrange(0, j as int),
            decreases rest.len() - j,
        {
            let ghost old_line = line@;
            assert(string_views(old_line).len() == old_line.len());
            let c = rest[j].clone();
            assert(c@ == rest@[j as int]@);
            line.push(c);
            assert(line@ == old_line.push(c));
            j = j + 1;
            assert forall|i: int| 0 <= i < line@.len() implies #[trigger] string_views(line@)[i]
                == (head + string_views(rest@).subrange(0, j as int))[i] by {
                if i < line@.len() - 1 {
                    assert(line@[i] == old_line[i]);
                    assert(string_views(old_line)[i] == old_line[i]@);
                }
            }
            assert(string_views(line@) =~= head + string_views(rest@).subrange(0, j as int));
        }
        assert(string_views(rest@).subrange(0, j as int) =~= string_views(rest@));
        assert(string_views(self.cachegrind_wrapper@).subrange(
            0,
            self.cachegrind_wrapper@.len() as int,
        ) =~= string_views(self.cachegrind_wrapper@));
        assert(head =~= string_views(self.cachegrind_wrapper@) + seq![
            out_file_prefix() + out_file@,
            executable@,
        ]);
        Some(line)
    }

    /// What a report compares against: the named baseline where one is given, nothing where
    /// the printed stats come from a named baseline, else the previous run's files.
    pub fn previous_source(&self) -> (r: PreviousSource)
        ensures
            match self.baseline {
                Some(name) => r is Named && location_of(r->Named_0, name@),
                None => if self.print is Some && self.print->0 is Some {
                    r is Nothing
                } else {
                    r is Files
                },
            },
    {
        match &self.baseline {
            Some(name) => PreviousSource::Named(resolve_baseline(name.as_str())),
            None => if self.has_print_baseline() {
                PreviousSource::Nothing
            } else {
                PreviousSource::Files
            },
        }
    }
}

} // verus!
