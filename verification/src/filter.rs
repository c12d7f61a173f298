//! The filter patterns: regular expressions, compiled once at startup.
//!
//! Compiling and matching are done by the `regex` crate. What this module
//! states of them is believed, not proved; everything built on top is proved
//! from it.

use regex::Regex;
use vstd::prelude::*;
use vstd::string::StringExecFns;

verus! {

/// A compiled regular expression of the `regex` crate. Nothing inside it is
/// visible here: it is made by `Regex::new` and handed to `Regex::is_match`.
#[verifier::external_type_specification]
#[verifier::external_body]
pub struct ExRegex(regex::Regex);

/// The error of the `regex` crate for a pattern that cannot be compiled.
#[verifier::external_type_specification]
#[verifier::external_body]
pub struct ExRegexError(regex::Error);

/// What `Regex::new` makes of `pattern`: the compiled expression, or `None`
/// where the pattern is refused.
pub uninterp spec fn regex_new(pattern: Seq<char>) -> Option<Regex>;

/// What `Regex::is_match` answers for the compiled expression `re` on `text`.
pub uninterp spec fn regex_is_match(re: Regex, text: Seq<char>) -> bool;

/// `regex::Regex::new` compiles a pattern with the crate's default options.
/// Believed: whether it succeeds and what it yields are determined by the
/// pattern's text alone.
pub assume_specification[ Regex::new ](re: &str) -> (r: Result<Regex, regex::Error>)
    ensures
        match r {
            Ok(compiled) => regex_new(re@) == Some(compiled),
            Err(_) => regex_new(re@) is None,
        },
;

/// `regex::Regex::is_match` tells whether the expression matches anywhere in
/// the text. Believed: the answer is determined by the compiled expression
/// and the text, and the call returns for every text.
pub assume_specification[ Regex::is_match ](re: &Regex, haystack: &str) -> (b: bool)
    ensures
        b == regex_is_match(*re, haystack@),
;

/// Whether `pattern` is a regular expression that can be compiled.
pub open spec fn pattern_compiles(pattern: Seq<char>) -> bool {
    regex_new(pattern) is Some
}

/// Whether `pattern`, a regular expression, matches somewhere in `text`.
/// False for a pattern that cannot be compiled.
pub open spec fn pattern_matches(pattern: Seq<char>, text: Seq<char>) -> bool {
    regex_new(pattern) matches Some(re) && regex_is_match(re, text)
}

/// The pattern that is compiled for the pattern `source` as the user wrote it:
/// with the flag that turns off case sensitivity in front, where asked for.
pub open spec fn effective_pattern(source: Seq<char>, case_insensitive: bool) -> Seq<char> {
    if case_insensitive {
        "(?i)"@ + source
    } else {
        source
    }
}

/// The patterns that are compiled for `sources`, in order.
pub open spec fn effective_patterns(sources: Seq<String>, case_insensitive: bool) -> Seq<
    Seq<char>,
> {
    sources.map_values(|source: String| effective_pattern(source@, case_insensitive))
}

/// Whether every pattern of `patterns` can be compiled.
pub open spec fn all_compile(patterns: Seq<Seq<char>>) -> bool {
    forall|i: int| 0 <= i < patterns.len() ==> pattern_compiles(#[trigger] patterns[i])
}

/// Whether the pattern at position `at` is the first of `patterns` that
/// cannot be compiled.
pub open spec fn first_refused(patterns: Seq<Seq<char>>, at: int) -> bool {
    &&& 0 <= at < patterns.len()
    &&& !pattern_compiles(patterns[at])
    &&& forall|i: int| 0 <= i < at ==> pattern_compiles(#[trigger] patterns[i])
}

/// Why a filter set could not be built.
#[derive(Debug)]
pub struct FilterError {
    /// The position, among the patterns given, of the first one that was refused.
    pub index: usize,
    /// What the `regex` crate said of it.
    pub cause: regex::Error,
}

/// An ordered list of compiled patterns, fixed once built.
pub struct FilterSet {
    patterns: Vec<String>,
    compiled: Vec<Regex>,
    case_insensitive: bool,
}

impl View for FilterSet {
    type V = Seq<Seq<char>>;

    /// The patterns as they were compiled, in order.
    closed spec fn view(&self) -> Seq<Seq<char>> {
        self.patterns@.map_values(|p: String| p@)
    }
}

impl FilterSet {
    #[verifier::type_invariant]
    spec fn well_formed(self) -> bool {
        &&& self.patterns@.len() == self.compiled@.len()
        &&& forall|i: int|
            0 <= i < self.patterns@.len() ==> regex_new(#[trigger] self.patterns@[i]@) == Some(
                self.compiled@[i],
            )
    }

    /// Whether the patterns were compiled to ignore case.
    pub closed spec fn ignores_case(&self) -> bool {
        self.case_insensitive
    }

    /// Compiles `sources`, in order. Succeeds if every pattern can be
    /// compiled, and fails at the first that cannot.
    pub fn new(sources: Vec<String>, case_insensitive: bool) -> (r: Result<FilterSet, FilterError>)
        ensures
            match r {
                Ok(set) => {
                    &&& set@ == effective_patterns(sources@, case_insensitive)
                    &&& set.ignores_case() == case_insensitive
                    &&& all_compile(set@)
                },
                Err(e) => first_refused(
                    effective_patterns(sources@, case_insensitive),
                    e.index as int,
                ),
            },
    {
        let ghost wanted = effective_patterns(sources@, case_insensitive);
        let mut patterns: Vec<String> = Vec::new();
        let mut compiled: Vec<Regex> = Vec::new();
        let mut i: usize = 0;
        while i < sources.len()
            invariant
                i <= sources@.len(),
                wanted == effective_patterns(sources@, case_insensitive),
                patterns@.len() == i,
                compiled@.len() == i,
                forall|j: int|
                    0 <= j < i ==> (#[trigger] patterns@[j])@ == wanted[j] && regex_new(wanted[j])
                        == Some(compiled@[j]),
            decreases sources@.len() - i,
        {
            let pattern = if case_insensitive {
                String::from_str("(?i)").concat(sources[i].as_str())
            } else {
                sources[i].clone()
            };
            assert(pattern@ == wanted[i as int]);
            match Regex::new(pattern.as_str()) {
                Ok(re) => {
                    patterns.push(pattern);
                    compiled.push(re);
                },
                Err(cause) => {
                    assert forall|j: int| 0 <= j < i implies pattern_compiles(
                        #[trigger] wanted[j],
                    ) by {
                        assert(patterns@[j]@ == wanted[j]);
                    }
                    return Err(FilterError { index: i, cause });
                },
            }
            i += 1;
        }
        let set = FilterSet { patterns, compiled, case_insensitive };
        assert(set@ =~= wanted);
        assert forall|j: int| 0 <= j < wanted.len() implies pattern_compiles(#[trigger] wanted[j]) by {
            assert(patterns@[j]@ == wanted[j]);
        }
        Ok(set)
    }

    /// The number of patterns.
    pub fn len(&self) -> (n: usize)
        ensures
            n == self@.len(),
    {
        self.patterns.len()
    }

    /// The pattern at position `i`, as it was compiled; `None` past the end.
    pub fn pattern(&self, i: usize) -> (p: Option<&str>)
        ensures
            match p {
                Some(text) => i < self@.len() && text@ == self@[i as int],
                None => i >= self@.len(),
            },
    {
        if i < self.patterns.len() {
            Some(self.patterns[i].as_str())
        } else {
            None
        }
    }

    /// Whether the patterns were compiled to ignore case.
    pub fn case_insensitive(&self) -> (b: bool)
        ensures
            b == self.ignores_case(),
    {
        self.case_insensitive
    }

    /// Tests the pattern at position `i` against `text`.
    pub(crate) fn is_match_at(&self, i: usize, text: &str) -> (b: bool)
        requires
            i < self@.len(),
        ensures
            b == pattern_matches(self@[i as int], text@),
    {
        proof {
            use_type_invariant(self);
        }
        self.compiled[i].is_match(text)
    }
}

} // verus!
