//! The line rules of the pattern scanner, as regular expressions that the
//! `regex` crate compiles and runs.

use crate::diagnostics::view_opt_string;
use vstd::prelude::*;

verus! {

/// A call of `.unwrap()`.
pub const UNWRAP_PATTERN: &'static str = "\\.unwrap\\(\\)";

/// A call of `.expect(`.
pub const EXPECT_PATTERN: &'static str = "\\.expect\\s*\\(";

/// A call of `println!` or `dbg!`.
pub const DEBUG_OUTPUT_PATTERN: &'static str = "(println!|dbg!)\\s*\\(";

/// A comment that marks pending work; group 1 is the marker.
pub const PENDING_WORK_PATTERN: &'static str = "//\\s*(TODO|FIXME|XXX)";

/// A crate-level `deny` attribute; group 1 is the list of lints.
pub const DENY_LINT_PATTERN: &'static str = "#!\\[deny\\(([^)]+)\\)\\]";

/// `regex::Regex`, a compiled pattern. Nothing is known of what is inside.
#[verifier::external_type_specification]
#[verifier::external_body]
pub struct ExRegex(regex::Regex);

/// Whether `regex::Regex::new` accepts the pattern.
pub uninterp spec fn regex_compiles(pattern: Seq<char>) -> bool;

/// What `regex::Regex::is_match` answers for the compiled pattern on a text.
pub uninterp spec fn regex_is_match(pattern: Seq<char>, text: Seq<char>) -> bool;

/// Group 1 of what `regex::Regex::captures` finds for the compiled pattern
/// in a text: `None` without a match, or where group 1 took no part in it.
pub uninterp spec fn regex_first_group(pattern: Seq<char>, text: Seq<char>) -> Option<Seq<char>>;

/// Group 1 of each match that `regex::Regex::captures_iter` walks through
/// for the compiled pattern in a text, in the order of the matches.
pub uninterp spec fn regex_all_groups(pattern: Seq<char>, text: Seq<char>) -> Seq<
    Option<Seq<char>>,
>;

/// A compiled pattern together with the text it was compiled from. The only
/// way to make one is [`LinePattern::compile`], so the two always belong together.
pub struct LinePattern {
    source: String,
    engine: regex::Regex,
}

/// `regex::Regex::new`: the compiled pattern, or `None` where the crate
/// rejects the pattern. The source text is kept beside the compiled form.
#[verifier::external_body]
fn compile_pattern(source: &str) -> (compiled: Option<LinePattern>)
    ensures
        compiled is Some == regex_compiles(source@),
        compiled matches Some(p) ==> p.source() == source@,
{
    match regex::Regex::new(source) {
        Ok(engine) => Some(LinePattern { source: source.to_string(), engine }),
        Err(_) => None,
    }
}

/// `regex::Regex::is_match`: whether the pattern matches anywhere in the text.
#[verifier::external_body]
fn pattern_is_match(pattern: &LinePattern, text: &str) -> (found: bool)
    ensures
        found == regex_is_match(pattern.source(), text@),
{
    pattern.engine.is_match(text)
}

/// `regex::Regex::captures`: the text of group 1 in the leftmost match.
#[verifier::external_body]
fn pattern_first_group(pattern: &LinePattern, text: &str) -> (group: Option<String>)
    ensures
        view_opt_string(group) == regex_first_group(pattern.source(), text@),
{
    pattern.engine.captures(text).and_then(|found| found.get(1)).map(|m| m.as_str().to_string())
}

/// `regex::Regex::captures_iter`: the text of group 1 in every match, in order.
#[verifier::external_body]
fn pattern_all_groups(pattern: &LinePattern, text: &str) -> (groups: Vec<Option<String>>)
    ensures
        groups@.map_values(|g: Option<String>| view_opt_string(g)) == regex_all_groups(
            pattern.source(),
            text@,
        ),
{
    pattern.engine.captures_iter(text).map(|found| found.get(1).map(|m| m.as_str().to_string())).collect()
}

impl LinePattern {
    /// The pattern as it was written.
    pub closed spec fn source(&self) -> Seq<char> {
        self.source@
    }

    /// Compiles a pattern.
    pub fn compile(source: &str) -> (compiled: Option<LinePattern>)
        ensures
            compiled is Some == regex_compiles(source@),
            compiled matches Some(p) ==> p.source() == source@,
    {
        compile_pattern(source)
    }

    /// Whether the pattern matches anywhere in the text.
    pub fn matches(&self, text: &str) -> (found: bool)
        ensures
            found == regex_is_match(self.source(), text@),
    {
        pattern_is_match(self, text)
    }

    /// Group 1 of the leftmost match in the text.
    pub fn first_group(&self, text: &str) -> (group: Option<String>)
        ensures
            view_opt_string(group) == regex_first_group(self.source(), text@),
    {
        pattern_first_group(self, text)
    }

    /// Group 1 of every match in the text, in order.
    pub fn all_groups(&self, text: &str) -> (groups: Vec<Option<String>>)
        ensures
            groups@.map_values(|g: Option<String>| view_opt_string(g)) == regex_all_groups(
                self.source(),
                text@,
            ),
    {
        pattern_all_groups(self, text)
    }
}

/// The compiled rules of the scanner.
pub struct PatternRules {
    pub unwrap_call: LinePattern,
    pub expect_call: LinePattern,
    pub debug_output: LinePattern,
    pub pending_work: LinePattern,
    pub denied_lints: LinePattern,
}

impl PatternRules {
    /// The rules hold the patterns of this module.
    pub open spec fn is_standard(&self) -> bool {
        &&& self.unwrap_call.source() == UNWRAP_PATTERN@
        &&& self.expect_call.source() == EXPECT_PATTERN@
        &&& self.debug_output.source() == DEBUG_OUTPUT_PATTERN@
        &&& self.pending_work.source() == PENDING_WORK_PATTERN@
        &&& self.denied_lints.source() == DENY_LINT_PATTERN@
    }

    /// Compiles five patterns into a set of rules: `None` where one of them
    /// does not compile.
    pub fn compile(
        unwrap_call: &str,
        expect_call: &str,
        debug_output: &str,
        pending_work: &str,
        denied_lints: &str,
    ) -> (rules: Option<PatternRules>)
        ensures
            rules is Some == (regex_compiles(unwrap_call@) && regex_compiles(expect_call@)
                && regex_compiles(debug_output@) && regex_compiles(pending_work@)
                && regex_compiles(denied_lints@)),
            rules matches Some(r) ==> {
                &&& r.unwrap_call.source() == unwrap_call@
                &&& r.expect_call.source() == expect_call@
                &&& r.debug_output.source() == debug_output@
                &&& r.pending_work.source() == pending_work@
                &&& r.denied_lints.source() == denied_lints@
            },
    {
        let a = LinePattern::compile(unwrap_call);
        let b = LinePattern::compile(expect_call);
        let c = LinePattern::compile(debug_output);
        let d = LinePattern::compile(pending_work);
        let e = LinePattern::compile(denied_lints);
        match (a, b, c, d, e) {
            (Some(a), Some(b), Some(c), Some(d), Some(e)) => Some(
                PatternRules {
                    unwrap_call: a,
                    expect_call: b,
                    debug_output: c,
                    pending_work: d,
                    denied_lints: e,
                },
            ),
            _ => None,
        }
    }

    /// The rules of this module, compiled.
    pub fn standard() -> (rules: Option<PatternRules>)
        ensures
            rules is Some == (regex_compiles(UNWRAP_PATTERN@) && regex_compiles(EXPECT_PATTERN@)
                && regex_compiles(DEBUG_OUTPUT_PATTERN@) && regex_compiles(PENDING_WORK_PATTERN@)
                && regex_compiles(DENY_LINT_PATTERN@)),
            rules matches Some(r) ==> r.is_standard(),
    {
        PatternRules::compile(
            UNWRAP_PATTERN,
            EXPECT_PATTERN,
            DEBUG_OUTPUT_PATTERN,
            PENDING_WORK_PATTERN,
            DENY_LINT_PATTERN,
        )
    }
}

} // verus!
