//! Regular expressions, through the `regex` crate.
//!
//! A [`Pattern`] keeps the text it was compiled from, which is what the
//! contracts speak of: matching and replacing are named results of the
//! pattern text and the haystack.
use vstd::prelude::*;
use regex::Regex;

verus! {

#[verifier::external_type_specification]
#[verifier::external_body]
pub struct ExRegex(Regex);

/// What `regex::Regex::new` gives for a pattern: nothing when it accepts the
/// pattern (valid syntax, within the default size limit), else the text that
/// its error displays.
pub uninterp spec fn regex_new_error(pattern: Seq<char>) -> Option<Seq<char>>;

/// Whether `regex::Regex::new` accepts the pattern.
pub open spec fn regex_compiles(pattern: Seq<char>) -> bool {
    regex_new_error(pattern) is None
}

/// Whether the pattern matches somewhere in the haystack.
pub uninterp spec fn regex_is_match(pattern: Seq<char>, haystack: Seq<char>) -> bool;

/// The haystack with every non-overlapping match of the pattern replaced by
/// the replacement, `$name` references in it expanded.
pub uninterp spec fn regex_replace_all(pattern: Seq<char>, haystack: Seq<char>, replacement: Seq<char>) -> Seq<char>;

/// The patterns of the HTML-to-Markdown cleaner.
pub open spec fn cleaner_patterns() -> Seq<Seq<char>> {
    seq![
        "(?is)<script[^>]*>.*?</script>"@,
        "(?is)<style[^>]*>.*?</style>"@,
        "(?is)<head[^>]*>.*?</head>"@,
        "(?i)<h1[^>]*>(.*?)</h1>"@,
        "(?i)<h2[^>]*>(.*?)</h2>"@,
        "(?i)<h3[^>]*>(.*?)</h3>"@,
        "(?i)<p[^>]*>(.*?)</p>"@,
        "(?i)<br\\s*/?>"@,
        "(?i)<li[^>]*>(.*?)</li>"@,
        "(?i)<a[^>]*href=[\"']([^\"']+)[\"'][^>]*>(.*?)</a>"@,
        "<[^>]*>"@,
        "[ \\t]+"@,
        "\\n\\s*\\n\\s*\\n+"@,
    ]
}

/// A compiled regular expression together with its pattern text.
#[derive(Debug)]
pub struct Pattern {
    regex: Regex,
    source: String,
}

impl View for Pattern {
    type V = Seq<char>;

    closed spec fn view(&self) -> Seq<char> {
        self.source@
    }
}

/// Compiles a pattern with `regex::Regex::new`; the error is the text that
/// the crate's error displays.
///
/// Besides the named outcome, the contract states that the fixed patterns of
/// the HTML cleaner are accepted (they are valid syntax of modest size).
#[verifier::external_body]
pub(crate) fn compile(pattern: &str) -> (r: Result<Pattern, String>)
    ensures
        r is Ok <==> regex_compiles(pattern@),
        r matches Ok(p) ==> p@ == pattern@,
        r matches Err(e) ==> regex_new_error(pattern@) == Some(e@),
        cleaner_patterns().contains(pattern@) ==> r is Ok,
{
    match Regex::new(pattern) {
        Ok(regex) => Ok(Pattern { regex, source: pattern.to_string() }),
        Err(e) => Err(e.to_string()),
    }
}

/// Calls `regex::Regex::is_match`: whether the pattern matches anywhere in
/// the haystack.
#[verifier::external_body]
pub(crate) fn is_match(p: &Pattern, haystack: &str) -> (r: bool)
    ensures
        r == regex_is_match(p@, haystack@),
{
    p.regex.is_match(haystack)
}

/// Calls `regex::Regex::replace_all` with a replacement string; the crate
/// documents that a haystack without a match comes back unchanged.
#[verifier::external_body]
pub(crate) fn replace_all(p: &Pattern, haystack: &str, replacement: &str) -> (r: String)
    ensures
        r@ == regex_replace_all(p@, haystack@, replacement@),
        !regex_is_match(p@, haystack@) ==> r@ == haystack@,
{
    p.regex.replace_all(haystack, replacement).into_owned()
}

} // verus!
