//! The `fetch_url` tool: fetch a web page and turn its HTML into Markdown.
use vstd::prelude::*;
use vstd::string::StringExecFns;
use crate::json::{JsonModel, JsonValue, members_model};
use crate::pattern::{Pattern, cleaner_patterns, compile, regex_replace_all, replace_all};
use crate::protocol::{ToolCallResult, ToolDefinition};
use crate::text::{chars_of, concat, digit_char, owned, push_char, trim, trim_spec};
use super::{Tool, object_schema, object_schema_value, string_property, string_property_value};

verus! {

pub open spec fn fetch_url_schema() -> JsonModel {
    object_schema(
        seq![("url"@, string_property("The URL to fetch, e.g. 'https://news.ycombinator.com'"@))],
        seq!["url"@],
    )
}

/// The definition of `fetch_url`: its name, description and input schema.
pub open spec fn fetch_url_definition() -> (Seq<char>, Option<Seq<char>>, JsonModel) {
    ("fetch_url"@, Some("Fetch content from a web URL and convert it to clean readable Markdown text."@), fetch_url_schema())
}

// ---------------------------------------------------------------------------
// Literal replacement
// ---------------------------------------------------------------------------

/// `s` with every occurrence of `from` replaced by `to`, occurrences taken
/// left to right without overlap.
pub open spec fn replace_spec(s: Seq<char>, from: Seq<char>, to: Seq<char>) -> Seq<char>
    decreases s.len(),
{
    if from.len() == 0 || s.len() < from.len() {
        s
    } else if s.take(from.len() as int) == from {
        to + replace_spec(s.skip(from.len() as int), from, to)
    } else {
        seq![s[0]] + replace_spec(s.drop_first(), from, to)
    }
}

/// Whether `f` occurs in `v` at position `i`.
fn occurs_at(v: &Vec<char>, i: usize, f: &Vec<char>) -> (r: bool)
    requires
        i <= v@.len(),
    ensures
        r == (f@.len() <= v@.len() - i && v@.skip(i as int).take(f@.len() as int) == f@),
{
    if f.len() > v.len() - i {
        return false;
    }
    let ghost rest = v@.skip(i as int);
    let mut k: usize = 0;
    while k < f.len()
        invariant
            i + f@.len() <= v@.len(),
            v@.len() <= usize::MAX,
            rest == v@.skip(i as int),
            k <= f@.len(),
            forall|j: int| 0 <= j < k ==> rest[j] == f@[j],
        decreases f@.len() - k,
    {
        assert(i + k < v@.len());
        if v[i + k] != f[k] {
            assert(rest[k as int] == v@[i + k]);
            assert(rest.take(f@.len() as int)[k as int] != f@[k as int]);
            return false;
        }
        k = k + 1;
    }
    assert(rest.take(f@.len() as int) =~= f@);
    true
}

/// Replaces every occurrence of `from` by `to`, as `str::replace` does.
pub fn replace_literal(s: &str, from: &str, to: &str) -> (r: String)
    requires
        from@.len() > 0,
    ensures
        r@ == replace_spec(s@, from@, to@),
{
    let v = chars_of(s);
    let f = chars_of(from);
    let mut out = String::new();
    let mut i: usize = 0;
    proof {
        assert(s@.skip(0) == s@);
        assert(replace_spec(s@, from@, to@) == out@ + replace_spec(s@.skip(0), from@, to@));
    }
    while i < v.len()
        invariant
            v@ == s@,
            f@ == from@,
            f@.len() > 0,
            i <= v@.len(),
            replace_spec(s@, from@, to@) == out@ + replace_spec(s@.skip(i as int), from@, to@),
        decreases v@.len() - i,
    {
        let ghost rest = s@.skip(i as int);
        if occurs_at(&v, i, &f) {
            let ghost before = out@;
            out.append(to);
            proof {
                assert(rest.skip(from@.len() as int) == s@.skip(i + f@.len()));
                assert(before + (to@ + replace_spec(rest.skip(from@.len() as int), from@, to@))
                    == before + to@ + replace_spec(s@.skip(i + f@.len()), from@, to@));
            }
            i = i + f.len();
        } else {
            let ghost before = out@;
            push_char(&mut out, v[i]);
            proof {
                assert(rest.drop_first() == s@.skip(i + 1));
                assert(rest[0] == v@[i as int]);
                if rest.len() < from@.len() {
                    assert(rest == seq![rest[0]] + rest.drop_first());
                    assert(replace_spec(rest.drop_first(), from@, to@) == rest.drop_first());
                }
                assert(before + (seq![rest[0]] + replace_spec(rest.drop_first(), from@, to@))
                    == before.push(v@[i as int]) + replace_spec(s@.skip(i + 1), from@, to@));
            }
            i = i + 1;
        }
    }
    proof {
        assert(s@.skip(v@.len() as int) == Seq::<char>::empty());
        assert(out@ + Seq::<char>::empty() == out@);
    }
    out
}

// ---------------------------------------------------------------------------
// HTML to Markdown
// ---------------------------------------------------------------------------

/// The Markdown text of a page: scripts, styles and the head dropped;
/// headings, paragraphs, line breaks, list items and links rewritten; other
/// tags dropped; common entities decoded; runs of blanks and of blank lines
/// collapsed; surrounding white space trimmed.
pub open spec fn markdown_spec(html: Seq<char>) -> Seq<char> {
    let p = cleaner_patterns();
    let t = regex_replace_all(p[0], html, ""@);
    let t = regex_replace_all(p[1], t, ""@);
    let t = regex_replace_all(p[2], t, ""@);
    let t = regex_replace_all(p[3], t, "\n# $1\n"@);
    let t = regex_replace_all(p[4], t, "\n## $1\n"@);
    let t = regex_replace_all(p[5], t, "\n### $1\n"@);
    let t = regex_replace_all(p[6], t, "\n$1\n"@);
    let t = regex_replace_all(p[7], t, "\n"@);
    let t = regex_replace_all(p[8], t, "\n- $1"@);
    let t = regex_replace_all(p[9], t, " [$2]($1) "@);
    let t = regex_replace_all(p[10], t, ""@);
    let t = replace_spec(t, "&nbsp;"@, " "@);
    let t = replace_spec(t, "&lt;"@, "<"@);
    let t = replace_spec(t, "&gt;"@, ">"@);
    let t = replace_spec(t, "&amp;"@, "&"@);
    let t = replace_spec(t, "&quot;"@, "\""@);
    let t = replace_spec(t, "&#39;"@, "'"@);
    let t = regex_replace_all(p[11], t, " "@);
    let t = regex_replace_all(p[12], t, "\n\n"@);
    trim_spec(t)
}

/// The pattern of an HTML heading of level `n` (1 to 3): `<hN ...>`, its
/// text, `</hN>`, letters in either case.
pub open spec fn heading_pattern(n: nat) -> Seq<char> {
    "(?i)<h"@ + seq![digit_char(n)] + "[^>]*>(.*?)</h"@ + seq![digit_char(n)] + ">"@
}

/// The Markdown heading of level `n`: on a line of its own, `n` times `#`,
/// a space, then the heading's text.
pub open spec fn heading_template(n: nat) -> Seq<char> {
    "\n"@ + Seq::new(n, |i: int| '#') + " $1\n"@
}

/// Rewrites every HTML heading of level `n` as a Markdown heading of the
/// same level.
pub open spec fn heading_step(n: nat, t: Seq<char>) -> Seq<char> {
    regex_replace_all(heading_pattern(n), t, heading_template(n))
}

/// The steps of the conversion before the headings: scripts, styles and the
/// head dropped.
pub open spec fn markdown_before_headings(html: Seq<char>) -> Seq<char> {
    let p = cleaner_patterns();
    let t = regex_replace_all(p[0], html, ""@);
    let t = regex_replace_all(p[1], t, ""@);
    regex_replace_all(p[2], t, ""@)
}

/// The steps of the conversion after the headings.
pub open spec fn markdown_after_headings(t: Seq<char>) -> Seq<char> {
    let p = cleaner_patterns();
    let t = regex_replace_all(p[6], t, "\n$1\n"@);
    let t = regex_replace_all(p[7], t, "\n"@);
    let t = regex_replace_all(p[8], t, "\n- $1"@);
    let t = regex_replace_all(p[9], t, " [$2]($1) "@);
    let t = regex_replace_all(p[10], t, ""@);
    let t = replace_spec(t, "&nbsp;"@, " "@);
    let t = replace_spec(t, "&lt;"@, "<"@);
    let t = replace_spec(t, "&gt;"@, ">"@);
    let t = replace_spec(t, "&amp;"@, "&"@);
    let t = replace_spec(t, "&quot;"@, "\""@);
    let t = replace_spec(t, "&#39;"@, "'"@);
    let t = regex_replace_all(p[11], t, " "@);
    let t = regex_replace_all(p[12], t, "\n\n"@);
    trim_spec(t)
}

/// Each HTML heading keeps its level: the conversion rewrites `<h1>`,
/// `<h2>` and `<h3>`, in that order, each as a Markdown heading of exactly
/// as many `#` as its level (so different levels never share a Markdown
/// level), between the steps before and after the headings.
pub proof fn lemma_headings_keep_their_level(html: Seq<char>)
    ensures
        markdown_spec(html) == markdown_after_headings(
            heading_step(3, heading_step(2, heading_step(1, markdown_before_headings(html)))),
        ),
        forall|n: nat| 1 <= n <= 3 ==> #[trigger] heading_pattern(n) == cleaner_patterns()[n + 2int],
        forall|n: nat, k: int| 0 <= k < n ==> #[trigger] heading_template(n)[k + 1] == '#',
        forall|n: nat| #[trigger] heading_template(n).len() == n + 5,
        forall|n: nat| #[trigger] heading_template(n)[n + 1int] == ' ',
        forall|n: nat, m: nat| n != m ==> #[trigger] heading_template(n) != #[trigger] heading_template(m),
{
    reveal_strlit("(?i)<h");
    reveal_strlit("[^>]*>(.*?)</h");
    reveal_strlit(">");
    reveal_strlit("(?i)<h1[^>]*>(.*?)</h1>");
    reveal_strlit("(?i)<h2[^>]*>(.*?)</h2>");
    reveal_strlit("(?i)<h3[^>]*>(.*?)</h3>");
    reveal_strlit("\n# $1\n");
    reveal_strlit("\n## $1\n");
    reveal_strlit("\n### $1\n");
    reveal_strlit("\n");
    reveal_strlit(" $1\n");
    assert(digit_char(1) == '1' && digit_char(2) == '2' && digit_char(3) == '3');
    assert(heading_pattern(1) =~= "(?i)<h1[^>]*>(.*?)</h1>"@);
    assert(heading_pattern(2) =~= "(?i)<h2[^>]*>(.*?)</h2>"@);
    assert(heading_pattern(3) =~= "(?i)<h3[^>]*>(.*?)</h3>"@);
    assert(heading_template(1) =~= "\n# $1\n"@);
    assert(heading_template(2) =~= "\n## $1\n"@);
    assert(heading_template(3) =~= "\n### $1\n"@);
    assert forall|n: nat| 1 <= n <= 3 implies #[trigger] heading_pattern(n) == cleaner_patterns()[n + 2int] by {
        if n == 1 {} else if n == 2 {} else {}
    }
    assert forall|n: nat, m: nat| n != m implies #[trigger] heading_template(n) != #[trigger] heading_template(m) by {
        assert(heading_template(n).len() != heading_template(m).len());
    }
}

/// The fetcher's compiled cleaning patterns.
#[derive(Debug)]
pub struct FetchUrlTool {
    re_script: Pattern,
    re_style: Pattern,
    re_head: Pattern,
    re_h1: Pattern,
    re_h2: Pattern,
    re_h3: Pattern,
    re_p: Pattern,
    re_br: Pattern,
    re_li: Pattern,
    re_a: Pattern,
    re_tags: Pattern,
    re_whitespace: Pattern,
    re_newlines: Pattern,
}

/// Compiles one of the cleaner's fixed patterns.
fn fixed_pattern(source: &str) -> (r: Pattern)
    requires
        cleaner_patterns().contains(source@),
    ensures
        r@ == source@,
{
    match compile(source) {
        Ok(p) => p,
        Err(_) => vstd::pervasive::unreached(),
    }
}

impl FetchUrlTool {
    pub closed spec fn wf(self) -> bool {
        let p = cleaner_patterns();
        &&& self.re_script@ == p[0]
        &&& self.re_style@ == p[1]
        &&& self.re_head@ == p[2]
        &&& self.re_h1@ == p[3]
        &&& self.re_h2@ == p[4]
        &&& self.re_h3@ == p[5]
        &&& self.re_p@ == p[6]
        &&& self.re_br@ == p[7]
        &&& self.re_li@ == p[8]
        &&& self.re_a@ == p[9]
        &&& self.re_tags@ == p[10]
        &&& self.re_whitespace@ == p[11]
        &&& self.re_newlines@ == p[12]
    }

    pub fn new() -> (r: Self)
        ensures
            r.wf(),
    {
        let ghost p = cleaner_patterns();
        assert(p[0] == "(?is)<script[^>]*>.*?</script>"@);
        assert(p[1] == "(?is)<style[^>]*>.*?</style>"@);
        assert(p[2] == "(?is)<head[^>]*>.*?</head>"@);
        assert(p[3] == "(?i)<h1[^>]*>(.*?)</h1>"@);
        assert(p[4] == "(?i)<h2[^>]*>(.*?)</h2>"@);
        assert(p[5] == "(?i)<h3[^>]*>(.*?)</h3>"@);
        assert(p[6] == "(?i)<p[^>]*>(.*?)</p>"@);
        assert(p[7] == "(?i)<br\\s*/?>"@);
        assert(p[8] == "(?i)<li[^>]*>(.*?)</li>"@);
        assert(p[9] == "(?i)<a[^>]*href=[\"']([^\"']+)[\"'][^>]*>(.*?)</a>"@);
        assert(p[10] == "<[^>]*>"@);
        assert(p[11] == "[ \\t]+"@);
        assert(p[12] == "\\n\\s*\\n\\s*\\n+"@);
        FetchUrlTool {
            re_script: fixed_pattern("(?is)<script[^>]*>.*?</script>"),
            re_style: fixed_pattern("(?is)<style[^>]*>.*?</style>"),
            re_head: fixed_pattern("(?is)<head[^>]*>.*?</head>"),
            re_h1: fixed_pattern("(?i)<h1[^>]*>(.*?)</h1>"),
            re_h2: fixed_pattern("(?i)<h2[^>]*>(.*?)</h2>"),
            re_h3: fixed_pattern("(?i)<h3[^>]*>(.*?)</h3>"),
            re_p: fixed_pattern("(?i)<p[^>]*>(.*?)</p>"),
            re_br: fixed_pattern("(?i)<br\\s*/?>"),
            re_li: fixed_pattern("(?i)<li[^>]*>(.*?)</li>"),
            re_a: fixed_pattern("(?i)<a[^>]*href=[\"']([^\"']+)[\"'][^>]*>(.*?)</a>"),
            re_tags: fixed_pattern("<[^>]*>"),
            re_whitespace: fixed_pattern("[ \\t]+"),
            re_newlines: fixed_pattern("\\n\\s*\\n\\s*\\n+"),
        }
    }

    /// Converts the HTML of a page to clean Markdown text.
    pub fn clean_html_to_markdown(&self, html: &str) -> (r: String)
        requires
            self.wf(),
        ensures
            r@ == markdown_spec(html@),
    {
        let t = replace_all(&self.re_script, html, "");
        let t = replace_all(&self.re_style, t.as_str(), "");
        let t = replace_all(&self.re_head, t.as_str(), "");
        let t = replace_all(&self.re_h1, t.as_str(), "\n# $1\n");
        let t = replace_all(&self.re_h2, t.as_str(), "\n## $1\n");
        let t = replace_all(&self.re_h3, t.as_str(), "\n### $1\n");
        let t = replace_all(&self.re_p, t.as_str(), "\n$1\n");
        let t = replace_all(&self.re_br, t.as_str(), "\n");
        let t = replace_all(&self.re_li, t.as_str(), "\n- $1");
        let t = replace_all(&self.re_a, t.as_str(), " [$2]($1) ");
        let t = replace_all(&self.re_tags, t.as_str(), "");
        proof {
            reveal_strlit("&nbsp;");
            reveal_strlit("&lt;");
            reveal_strlit("&gt;");
            reveal_strlit("&amp;");
            reveal_strlit("&quot;");
            reveal_strlit("&#39;");
        }
        let t = replace_literal(t.as_str(), "&nbsp;", " ");
        let t = replace_literal(t.as_str(), "&lt;", "<");
        let t = replace_literal(t.as_str(), "&gt;", ">");
        let t = replace_literal(t.as_str(), "&amp;", "&");
        let t = replace_literal(t.as_str(), "&quot;", "\"");
        let t = replace_literal(t.as_str(), "&#39;", "'");
        let t = replace_all(&self.re_whitespace, t.as_str(), " ");
        let t = replace_all(&self.re_newlines, t.as_str(), "\n\n");
        trim(t.as_str())
    }

    /// The URL argument: the string member `url` of the arguments; without
    /// it the call answers with an error result at once.
    pub fn url_argument(arguments: Option<&JsonValue>) -> (r: Result<String, ToolCallResult>)
        ensures
            match (match arguments { Some(a) => a@.get_str("url"@), None => None }) {
                Some(u) => r matches Ok(s) && s@ == u,
                None => r matches Err(e) && e.is_text("Error: Missing required argument 'url'"@, true),
            },
    {
        let url = match arguments {
            Some(a) => a.get_str("url"),
            None => None,
        };
        match url {
            Some(u) => Ok(owned(u)),
            None => Err(ToolCallResult::text(owned("Error: Missing required argument 'url'"), true)),
        }
    }

    /// The result when the request could not be sent.
    pub fn request_failed(detail: &str) -> (r: ToolCallResult)
        ensures
            r.is_text("HTTP Request failed: "@ + detail@, true),
    {
        ToolCallResult::text(concat("HTTP Request failed: ", detail), true)
    }

    /// Whether an HTTP status is a success (200 to 299).
    pub fn status_is_success(status: u16) -> (r: bool)
        ensures
            r == (200 <= status <= 299),
    {
        200 <= status && status <= 299
    }

    /// The result for a status that is not a success; `status` is the
    /// status as displayed (code and reason).
    pub fn bad_status(status: &str) -> (r: ToolCallResult)
        ensures
            r.is_text("Server returned error status: "@ + status@, true),
    {
        ToolCallResult::text(concat("Server returned error status: ", status), true)
    }

    /// The result when the body could not be read.
    pub fn read_failed(detail: &str) -> (r: ToolCallResult)
        ensures
            r.is_text("Failed to read response text: "@ + detail@, true),
    {
        ToolCallResult::text(concat("Failed to read response text: ", detail), true)
    }

    /// The result for a fetched page: its Markdown text.
    pub fn page_result(&self, html: &str) -> (r: ToolCallResult)
        requires
            self.wf(),
        ensures
            r.is_text(markdown_spec(html@), false),
    {
        ToolCallResult::text(self.clean_html_to_markdown(html), false)
    }
}

impl Tool for FetchUrlTool {
    open spec fn tool_name(&self) -> Seq<char> {
        "fetch_url"@
    }

    open spec fn tool_definition(&self) -> (Seq<char>, Option<Seq<char>>, JsonModel) {
        fetch_url_definition()
    }

    fn name(&self) -> (r: String) {
        owned("fetch_url")
    }

    fn definition(&self) -> (d: ToolDefinition) {
        let props = vec![(owned("url"), string_property_value("The URL to fetch, e.g. 'https://news.ycombinator.com'"))];
        let required = vec![owned("url")];
        let schema = object_schema_value(props, required);
        proof {
            assert(members_model(props@) =~= seq![("url"@, string_property("The URL to fetch, e.g. 'https://news.ycombinator.com'"@))]);
            assert(Seq::new(required@.len(), |i: int| required@[i]@) =~= seq!["url"@]);
        }
        ToolDefinition {
            name: owned("fetch_url"),
            description: Some(owned("Fetch content from a web URL and convert it to clean readable Markdown text.")),
            input_schema: schema,
        }
    }
}

impl Default for FetchUrlTool {
    fn default() -> (r: Self)
        ensures
            r.wf(),
    {
        Self::new()
    }
}

} // verus!
