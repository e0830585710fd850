use vstd::prelude::*;

verus! {

/// `regex::Regex`, a compiled expression, carried opaquely.
#[verifier::external_type_specification]
#[verifier::external_body]
pub struct ExRegex(regex::Regex);

/// `regex::Error`, why an expression did not compile, carried opaquely.
#[verifier::external_type_specification]
#[verifier::external_body]
pub struct ExRegexError(regex::Error);

/// Relies on `regex::Regex`'s `Clone`, which copies a compiled expression;
/// nothing is claimed of the copy beyond its type.
pub assume_specification[ <regex::Regex as Clone>::clone ](r: &regex::Regex) -> regex::Regex;

/// Whether `regex::Regex::new` accepts the given source.
pub uninterp spec fn regex_accepts(source: Seq<char>) -> bool;

/// The groups that the expression compiled from `source` captures on its
/// first match in `text`, or `None` where it does not match.
pub uninterp spec fn captures_of(source: Seq<char>, text: Seq<char>) -> Option<
    Seq<Option<Seq<char>>>,
>;

/// The view of a list of captured groups.
pub open spec fn groups_view(g: Option<Vec<Option<String>>>) -> Option<Seq<Option<Seq<char>>>> {
    match g {
        Some(v) => Some(v@.map_values(|s: Option<String>| option_str_view(s))),
        None => None,
    }
}

pub open spec fn option_str_view(s: Option<String>) -> Option<Seq<char>> {
    match s {
        Some(t) => Some(t@),
        None => None,
    }
}

/// Relies on `regex::Regex::new`: whether compilation succeeds depends on
/// the source text alone.
#[verifier::external_body]
fn compile_regex(source: &str) -> (r: Result<regex::Regex, regex::Error>)
    ensures
        r is Ok <==> regex_accepts(source@),
{
    regex::Regex::new(source)
}

/// Relies on `regex::Regex::captures` and `regex::Captures::iter`: the groups
/// of the first match, each as an owned string, depend on the expression's
/// source and the text alone.
#[verifier::external_body]
fn regex_captures(p: &RegexPattern, text: &str) -> (r: Option<Vec<Option<String>>>)
    ensures
        groups_view(r) == captures_of(p@, text@),
{
    p.compiled.captures(text).map(
        |c| c.iter().map(|g| g.map(|m| m.as_str().to_string())).collect(),
    )
}

/// A compiled regular expression together with the source it came from.
#[derive(Clone, Debug)]
pub struct RegexPattern {
    source: String,
    compiled: regex::Regex,
}

impl View for RegexPattern {
    type V = Seq<char>;

    closed spec fn view(&self) -> Seq<char> {
        self.source@
    }
}

/// Why a pattern could not be built.
#[derive(Debug)]
pub enum PatternError {
    /// The regular expression did not compile.
    Compile(regex::Error),
}

impl RegexPattern {
    /// Compile `source`; fails exactly where the regex engine refuses it.
    pub fn new(source: &str) -> (r: Result<RegexPattern, PatternError>)
        ensures
            r is Ok <==> regex_accepts(source@),
            r matches Ok(p) ==> p@ == source@,
    {
        match compile_regex(source) {
            Ok(compiled) => Ok(RegexPattern { source: source.to_owned(), compiled }),
            Err(e) => Err(PatternError::Compile(e)),
        }
    }

    /// The source text of the expression.
    pub fn as_str(&self) -> (r: &str)
        ensures
            r@ == self@,
    {
        self.source.as_str()
    }

    /// The groups captured by the first match in `text`, if any.
    pub fn captures(&self, text: &str) -> (r: Captures)
        ensures
            r@ == captures_of(self@, text@),
    {
        Captures { groups: regex_captures(self, text) }
    }
}

/// How a command is matched against a chat line.
#[derive(Clone, Debug)]
pub enum Pattern {
    /// By its name, the first word of the line.
    Name,
    /// By a regular expression over the whole line.
    Regex { pattern: RegexPattern },
}

impl View for Pattern {
    /// `None` for matching by name, else the expression's source.
    type V = Option<Seq<char>>;

    open spec fn view(&self) -> Option<Seq<char>> {
        match self {
            Pattern::Name => None,
            Pattern::Regex { pattern } => Some(pattern@),
        }
    }
}

impl Pattern {
    /// A copy of this pattern.
    pub fn duplicate(&self) -> (r: Pattern)
        ensures
            r@ == self@,
    {
        match self {
            Pattern::Name => Pattern::Name,
            Pattern::Regex { pattern } => Pattern::Regex {
                pattern: RegexPattern { source: pattern.source.clone(), compiled: pattern.compiled.clone() },
            },
        }
    }

    /// Build a pattern from an optional regular expression source: none
    /// means matching by name.
    pub fn from_db(pattern: Option<&str>) -> (r: Result<Pattern, PatternError>)
        ensures
            pattern is None ==> r matches Ok(Pattern::Name),
            pattern matches Some(s) ==> (r is Ok <==> regex_accepts(s@)),
            pattern matches Some(s) ==> (r matches Ok(p) ==> p matches Pattern::Regex { pattern } && pattern@
                == s@),
    {
        match pattern {
            Some(s) => match RegexPattern::new(s) {
                Ok(p) => Ok(Pattern::Regex { pattern: p }),
                Err(e) => Err(e),
            },
            None => Ok(Pattern::Name),
        }
    }

    /// A human readable form: `*name*` or the expression's source.
    pub fn describe(&self) -> (r: String)
        ensures
            self is Name ==> r@ == "*name*"@,
            self matches Pattern::Regex { pattern } ==> r@ == pattern@,
    {
        match self {
            Pattern::Name => "*name*".to_owned(),
            Pattern::Regex { pattern } => pattern.as_str().to_owned(),
        }
    }
}

/// The groups captured by a regular expression match: none for a match by
/// name, otherwise each numbered group, the whole match first.
#[derive(Debug)]
pub struct Captures {
    groups: Option<Vec<Option<String>>>,
}

impl View for Captures {
    type V = Option<Seq<Option<Seq<char>>>>;

    closed spec fn view(&self) -> Option<Seq<Option<Seq<char>>>> {
        groups_view(self.groups)
    }
}

impl Captures {
    /// Captures of a match that has no groups.
    pub fn empty() -> (r: Captures)
        ensures
            r@ is None,
    {
        Captures { groups: None }
    }

    /// Whether these come from a regular expression match.
    pub fn is_match(&self) -> (r: bool)
        ensures
            r == self@ is Some,
    {
        self.groups.is_some()
    }

    /// The number of groups, zero where there was no regular expression.
    pub fn len(&self) -> (r: usize)
        ensures
            r == match self@ {
                Some(g) => g.len(),
                None => 0,
            },
    {
        match &self.groups {
            Some(g) => g.len(),
            None => 0,
        }
    }

    /// The text of group `i`, if the group exists and took part in the match.
    pub fn get(&self, i: usize) -> (r: Option<&str>)
        ensures
            match self@ {
                Some(g) => if i < g.len() && g[i as int] is Some {
                    r matches Some(s) && Some(s@) == g[i as int]
                } else {
                    r is None
                },
                None => r is None,
            },
    {
        match &self.groups {
            Some(g) => if i < g.len() {
                match &g[i] {
                    Some(s) => Some(s.as_str()),
                    None => None,
                }
            } else {
                None
            },
            None => None,
        }
    }
}

} // verus!
