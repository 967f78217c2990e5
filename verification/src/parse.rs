//! The schema validator and extractor: walks a loaded document tree,
//! enforces per-level key whitelists, extracts typed values, and assembles
//! the final course, or fails with the first violation found.

use vstd::prelude::*;
use vstd::string::StringExecFns;

use crate::loader::{load_documents, yaml_documents, SyntaxIssueView};
use crate::markdown::{html_of_markdown, render_markdown};
use crate::node::{
    describe, describe_view, lemma_pair_views, lemma_seq_views, node_view, pair_views, quoted,
    seq_views, Node, NodeView,
};
use crate::templates::{
    Course, CourseTutorialSettings, CourseTutorialSettingsView, CourseView, Tutorial, TutorialView,
};
use crate::text::{dec_str, str_eq, usize_dec};

verus! {

/// A place in the source text: a 1-based line and a 0-based column.
#[derive(Clone, Copy, Debug, PartialEq, Eq, Structural)]
pub struct SourceLocation {
    pub line: usize,
    pub col: usize,
}

/// Represents the errors that could occur parsing a document into a course
/// struct.
#[derive(Clone, Debug)]
pub enum ParseError {
    /// The text was malformed, held the wrong number of documents, or its
    /// root was not a mapping; the location is the scanner's marker when one
    /// is known.
    SyntaxError(String, Option<SourceLocation>),
    /// The value associated with a key was the wrong type (in a context).
    InvalidType(String, String),
    /// A required key does not exist (in a context).
    MissingRequiredKey(String, String),
    /// An unexpected or invalid (wrong type) key (in a context).
    InvalidKey(String, String),
}

/// The ghost mirror of [`ParseError`].
pub enum ParseErrorView {
    SyntaxError(Seq<char>, Option<(int, int)>),
    InvalidType(Seq<char>, Seq<char>),
    MissingRequiredKey(Seq<char>, Seq<char>),
    InvalidKey(Seq<char>, Seq<char>),
}

impl View for ParseError {
    type V = ParseErrorView;

    open spec fn view(&self) -> ParseErrorView {
        match self {
            ParseError::SyntaxError(msg, loc) => ParseErrorView::SyntaxError(
                msg@,
                match loc {
                    Some(l) => Some((l.line as int, l.col as int)),
                    None => None,
                },
            ),
            ParseError::InvalidType(msg, context) => ParseErrorView::InvalidType(msg@, context@),
            ParseError::MissingRequiredKey(msg, context) => ParseErrorView::MissingRequiredKey(
                msg@,
                context@,
            ),
            ParseError::InvalidKey(msg, context) => ParseErrorView::InvalidKey(msg@, context@),
        }
    }
}

/// The one-line rendering of an error, used when the source text is not at
/// hand: schema violations name their context, a located syntax failure its
/// marker.
pub open spec fn error_display(e: ParseErrorView) -> Seq<char> {
    match e {
        ParseErrorView::SyntaxError(msg, None) => msg,
        ParseErrorView::SyntaxError(msg, Some((line, col))) => msg + " ln:"@ + dec_str(
            line as nat,
        ) + ", col:"@ + dec_str(col as nat),
        ParseErrorView::InvalidType(msg, context) => msg + " in context "@ + context,
        ParseErrorView::MissingRequiredKey(msg, context) => msg + " in context "@ + context,
        ParseErrorView::InvalidKey(msg, context) => msg + " in context "@ + context,
    }
}

impl ParseError {
    /// Renders the error as a single line.
    pub fn to_message(&self) -> (r: String)
        ensures
            r@ == error_display(self@),
    {
        match self {
            ParseError::SyntaxError(msg, None) => msg.clone(),
            ParseError::SyntaxError(msg, Some(loc)) => {
                let mut out = msg.clone();
                out.append(" ln:");
                let line = usize_dec(loc.line);
                out.append(line.as_str());
                out.append(", col:");
                let col = usize_dec(loc.col);
                out.append(col.as_str());
                proof {
                    assert(out@ =~= error_display(self@));
                }
                out
            },
            ParseError::InvalidType(msg, context) => in_context(msg, context),
            ParseError::MissingRequiredKey(msg, context) => in_context(msg, context),
            ParseError::InvalidKey(msg, context) => in_context(msg, context),
        }
    }
}

/// Joins a message and the context it was detected in.
fn in_context(msg: &String, context: &String) -> (r: String)
    ensures
        r@ == msg@ + " in context "@ + context@,
{
    let mut out = msg.clone();
    out.append(" in context ");
    out.append(context.as_str());
    out
}

// ---------------------------------------------------------------------------
// The schema, as spec functions over the ghost document tree. The value of
// `parse_course` is fixed, for every text, by `course_outcome`.
// ---------------------------------------------------------------------------

/// The string value of a text node.
pub open spec fn str_of(v: NodeView) -> Seq<char> {
    match v {
        NodeView::Str(s) => s,
        _ => Seq::empty(),
    }
}

/// The value of a boolean node.
pub open spec fn bool_of(v: NodeView) -> bool {
    match v {
        NodeView::Bool(b) => b,
        _ => false,
    }
}

/// The items of a sequence node.
pub open spec fn items_of(v: NodeView) -> Seq<NodeView> {
    match v {
        NodeView::Sequence(s) => s,
        _ => Seq::empty(),
    }
}

/// The pairs of a mapping node.
pub open spec fn entries_of(v: NodeView) -> Seq<(NodeView, NodeView)> {
    match v {
        NodeView::Mapping(s) => s,
        _ => Seq::empty(),
    }
}

/// The value bound to the first pair whose key is the text `key`, if any.
pub open spec fn lookup(entries: Seq<(NodeView, NodeView)>, key: Seq<char>) -> Option<NodeView>
    decreases entries.len(),
{
    if entries.len() == 0 {
        None
    } else {
        match entries[0].0 {
            NodeView::Str(k) => if k == key {
                Some(entries[0].1)
            } else {
                lookup(entries.subrange(1, entries.len() as int), key)
            },
            _ => lookup(entries.subrange(1, entries.len() as int), key),
        }
    }
}

/// The views of a list of string slices.
pub open spec fn strs_view(strs: Seq<&str>) -> Seq<Seq<char>> {
    strs.map_values(|s: &str| s@)
}

/// How a list of allowed keys is written inside a diagnostic message.
pub open spec fn allowed_list(allowed: Seq<Seq<char>>) -> Seq<char> {
    "["@ + allowed_items(allowed) + "]"@
}

/// The allowed keys, quoted and comma-separated.
pub open spec fn allowed_items(allowed: Seq<Seq<char>>) -> Seq<char>
    decreases allowed.len(),
{
    if allowed.len() == 0 {
        Seq::empty()
    } else if allowed.len() == 1 {
        quoted(allowed[0])
    } else {
        quoted(allowed[0]) + ", "@ + allowed_items(allowed.subrange(1, allowed.len() as int))
    }
}

/// The message for a key that is not in the allowed set.
pub open spec fn invalid_key_message(key: Seq<char>, allowed: Seq<Seq<char>>) -> Seq<char> {
    "Received a key `"@ + key + "`, expected one of "@ + allowed_list(allowed)
}

/// The message for a key that is not a text scalar.
pub open spec fn nonstring_key_message(key: NodeView, allowed: Seq<Seq<char>>) -> Seq<char> {
    "Received a key `"@ + describe_view(key) + "` which was not a string (text), expected one of "@
        + allowed_list(allowed) + " in this context"@
}

/// The first violation among a mapping's keys: a key that is not a text
/// scalar, or a text key outside the allowed set. `None` when every key is
/// allowed.
pub open spec fn check_keys_outcome(
    entries: Seq<(NodeView, NodeView)>,
    allowed: Seq<Seq<char>>,
    context: Seq<char>,
) -> Option<ParseErrorView>
    decreases entries.len(),
{
    if entries.len() == 0 {
        None
    } else {
        match entries[0].0 {
            NodeView::Str(k) => if allowed.contains(k) {
                check_keys_outcome(entries.subrange(1, entries.len() as int), allowed, context)
            } else {
                Some(ParseErrorView::InvalidKey(invalid_key_message(k, allowed), context))
            },
            key => Some(ParseErrorView::InvalidKey(nonstring_key_message(key, allowed), context)),
        }
    }
}

/// The kinds of value the schema can ask a key to hold.
#[derive(Clone, Copy, PartialEq, Eq, Structural)]
pub enum Expected {
    Str,
    Bool,
    Sequence,
    Mapping,
}

/// Whether a node holds the kind of value asked for.
pub open spec fn expected_matches(v: NodeView, e: Expected) -> bool {
    match e {
        Expected::Str => v is Str,
        Expected::Bool => v is Bool,
        Expected::Sequence => v is Sequence,
        Expected::Mapping => v is Mapping,
    }
}

/// How a kind of value is named inside a diagnostic message.
pub open spec fn expected_description(e: Expected) -> Seq<char> {
    match e {
        Expected::Str => "a string (text)"@,
        Expected::Bool => "a boolean (true or false)"@,
        Expected::Sequence => "an array (list)"@,
        Expected::Mapping => "a hash (key => value)"@,
    }
}

/// The message for a key whose value holds the wrong kind.
pub open spec fn invalid_type_message(key: Seq<char>, e: Expected, v: NodeView) -> Seq<char> {
    "Expected the value of key `"@ + key + "` to be "@ + expected_description(e)
        + ", instead it was "@ + describe_view(v)
}

/// The message for a required key that is absent.
pub open spec fn missing_key_message(key: Seq<char>) -> Seq<char> {
    "Missing required key `"@ + key + "`"@
}

/// The value of an optional key: absence is no error, the wrong kind is.
pub open spec fn optional_value_outcome(
    entries: Seq<(NodeView, NodeView)>,
    key: Seq<char>,
    context: Seq<char>,
    e: Expected,
) -> Result<Option<NodeView>, ParseErrorView> {
    match lookup(entries, key) {
        None => Ok(None),
        Some(v) => if expected_matches(v, e) {
            Ok(Some(v))
        } else {
            Err(ParseErrorView::InvalidType(invalid_type_message(key, e, v), context))
        },
    }
}

/// The value of a required key: absence and the wrong kind are both errors.
pub open spec fn required_value_outcome(
    entries: Seq<(NodeView, NodeView)>,
    key: Seq<char>,
    context: Seq<char>,
    e: Expected,
) -> Result<NodeView, ParseErrorView> {
    match optional_value_outcome(entries, key, context, e) {
        Ok(Some(v)) => Ok(v),
        Ok(None) => Err(ParseErrorView::MissingRequiredKey(missing_key_message(key), context)),
        Err(err) => Err(err),
    }
}

/// The context of violations at the top level of the document.
pub open spec fn root_context() -> Seq<char> {
    "root level"@
}

/// The keys allowed at the top level of the document.
pub open spec fn root_allowed() -> Seq<Seq<char>> {
    seq!["title"@, "lang"@, "url"@, "tutorials"@, "tutorial_settings"@]
}

/// The keys allowed in a tutorial entry.
pub open spec fn tutorial_allowed() -> Seq<Seq<char>> {
    seq!["subtitle"@, "content"@, "start_closed"@]
}

/// The keys allowed under `tutorial_settings`.
pub open spec fn settings_allowed() -> Seq<Seq<char>> {
    seq!["start_closed"@]
}

/// The context of violations inside the tutorial at 0-based index `i`: it
/// names the tutorial by its 1-based source position.
pub open spec fn tutorial_context(i: int) -> Seq<char> {
    "tutorial number "@ + dec_str((i + 1) as nat)
}

/// The context of violations under `tutorial_settings`.
pub open spec fn settings_context() -> Seq<char> {
    "tutorial_settings"@
}

/// The message for a tutorials item that is not a mapping.
pub open spec fn tutorial_element_message(v: NodeView) -> Seq<char> {
    "Expected the all of the elements of the tutorials array to be a hash, instead found "@
        + describe_view(v)
}

/// One tutorial entry: a mapping with a `subtitle` text, a `content` text that
/// is rendered to HTML, and an optional `start_closed` boolean.
pub open spec fn tutorial_outcome(v: NodeView, i: int) -> Result<TutorialView, ParseErrorView> {
    let context = tutorial_context(i);
    match v {
        NodeView::Mapping(entries) => match check_keys_outcome(
            entries,
            tutorial_allowed(),
            context,
        ) {
            Some(err) => Err(err),
            None => match required_value_outcome(entries, "subtitle"@, context, Expected::Str) {
                Err(err) => Err(err),
                Ok(subtitle) => match required_value_outcome(
                    entries,
                    "content"@,
                    context,
                    Expected::Str,
                ) {
                    Err(err) => Err(err),
                    Ok(content) => match optional_value_outcome(
                        entries,
                        "start_closed"@,
                        context,
                        Expected::Bool,
                    ) {
                        Err(err) => Err(err),
                        Ok(start_closed) => Ok(TutorialView {
                            subtitle: str_of(subtitle),
                            content: html_of_markdown(str_of(content)),
                            start_closed: match start_closed {
                                Some(b) => Some(bool_of(b)),
                                None => None,
                            },
                        }),
                    },
                },
            },
        },
        _ => Err(ParseErrorView::InvalidType(tutorial_element_message(v), context)),
    }
}

/// The tutorials from 0-based index `i` on, in source order; the first failing
/// entry aborts the rest.
pub open spec fn tutorials_outcome(items: Seq<NodeView>, i: int) -> Result<
    Seq<TutorialView>,
    ParseErrorView,
>
    decreases items.len() - i,
{
    if i < 0 || i >= items.len() {
        Ok(Seq::empty())
    } else {
        match tutorial_outcome(items[i], i) {
            Err(err) => Err(err),
            Ok(t) => match tutorials_outcome(items, i + 1) {
                Err(err) => Err(err),
                Ok(rest) => Ok(seq![t] + rest),
            },
        }
    }
}

/// The course-wide tutorial settings: absent altogether, or a mapping with an
/// optional `start_closed` boolean; both default to open.
pub open spec fn settings_outcome(entries: Seq<(NodeView, NodeView)>) -> Result<
    CourseTutorialSettingsView,
    ParseErrorView,
> {
    match optional_value_outcome(entries, "tutorial_settings"@, root_context(), Expected::Mapping) {
        Err(err) => Err(err),
        Ok(None) => Ok(CourseTutorialSettingsView { start_closed: false }),
        Ok(Some(m)) => match check_keys_outcome(
            entries_of(m),
            settings_allowed(),
            settings_context(),
        ) {
            Some(err) => Err(err),
            None => match optional_value_outcome(
                entries_of(m),
                "start_closed"@,
                settings_context(),
                Expected::Bool,
            ) {
                Err(err) => Err(err),
                Ok(None) => Ok(CourseTutorialSettingsView { start_closed: false }),
                Ok(Some(b)) => Ok(CourseTutorialSettingsView { start_closed: bool_of(b) }),
            },
        },
    }
}

/// The whole document below its root mapping.
pub open spec fn root_outcome(entries: Seq<(NodeView, NodeView)>) -> Result<
    CourseView,
    ParseErrorView,
> {
    match check_keys_outcome(entries, root_allowed(), root_context()) {
        Some(err) => Err(err),
        None => match required_value_outcome(entries, "title"@, root_context(), Expected::Str) {
            Err(err) => Err(err),
            Ok(title) => match required_value_outcome(entries, "url"@, root_context(), Expected::Str) {
                Err(err) => Err(err),
                Ok(url) => match optional_value_outcome(
                    entries,
                    "lang"@,
                    root_context(),
                    Expected::Str,
                ) {
                    Err(err) => Err(err),
                    Ok(lang) => match required_value_outcome(
                        entries,
                        "tutorials"@,
                        root_context(),
                        Expected::Sequence,
                    ) {
                        Err(err) => Err(err),
                        Ok(tutorials_node) => match tutorials_outcome(items_of(tutorials_node), 0) {
                            Err(err) => Err(err),
                            Ok(tutorials) => match settings_outcome(entries) {
                                Err(err) => Err(err),
                                Ok(tutorial_settings) => Ok(CourseView {
                                    title: str_of(title),
                                    url: str_of(url),
                                    tutorials,
                                    lang: match lang {
                                        Some(l) => str_of(l),
                                        None => Seq::empty(),
                                    },
                                    tutorial_settings,
                                }),
                            },
                        },
                    },
                },
            },
        },
    }
}

/// The message wrapped around the scanner's own description of a failure.
pub open spec fn scan_error_message(detail: Seq<char>) -> Seq<char> {
    "File was not valid YAML ("@ + detail + ")"@
}

/// What parsing a text yields: a validated course, or the first failure.
pub open spec fn course_outcome(text: Seq<char>) -> Result<CourseView, ParseErrorView> {
    match yaml_documents(text) {
        Err(issue) => Err(ParseErrorView::SyntaxError(
            scan_error_message(issue.message),
            Some((issue.line, issue.col)),
        )),
        Ok(docs) => if docs.len() != 1 {
            Err(ParseErrorView::SyntaxError("YAML file must contain exactly one document"@, None))
        } else {
            match docs[0] {
                NodeView::Mapping(entries) => root_outcome(entries),
                _ => Err(ParseErrorView::SyntaxError(
                    "YAML file was not a mapping (key => value)."@,
                    None,
                )),
            }
        },
    }
}

// ---------------------------------------------------------------------------
// Laws: what holds of every document, stated once and proved.
// ---------------------------------------------------------------------------

/// Law: a text whose document count is anything but one fails with the
/// exactly-one-document syntax error, and carries no location.
pub proof fn lemma_wrong_document_count(text: Seq<char>, docs: Seq<NodeView>)
    requires
        yaml_documents(text) == Ok::<Seq<NodeView>, SyntaxIssueView>(docs),
        docs.len() != 1,
    ensures
        course_outcome(text) == Err::<CourseView, ParseErrorView>(
            ParseErrorView::SyntaxError("YAML file must contain exactly one document"@, None),
        ),
{
}

/// Law: a root mapping whose keys are all recognized but which lacks `title`
/// fails with MissingRequiredKey in the context "root level".
pub proof fn lemma_missing_title(text: Seq<char>, entries: Seq<(NodeView, NodeView)>)
    requires
        yaml_documents(text) == Ok::<Seq<NodeView>, SyntaxIssueView>(
            seq![NodeView::Mapping(entries)],
        ),
        check_keys_outcome(entries, root_allowed(), root_context()) is None,
        lookup(entries, "title"@) is None,
    ensures
        course_outcome(text) == Err::<CourseView, ParseErrorView>(
            ParseErrorView::MissingRequiredKey(missing_key_message("title"@), root_context()),
        ),
{
}

/// Law: the first key that is a text outside the allowed set fails the key
/// check with InvalidKey, and its message names that key and the allowed set;
/// allowed keys before it do not mask it.
pub proof fn lemma_unknown_key_rejected(
    entries: Seq<(NodeView, NodeView)>,
    allowed: Seq<Seq<char>>,
    context: Seq<char>,
    i: int,
)
    requires
        0 <= i < entries.len(),
        forall|j: int|
            0 <= j < i ==> (#[trigger] entries[j].0) is Str && allowed.contains(
                str_of(entries[j].0),
            ),
        entries[i].0 is Str,
        !allowed.contains(str_of(entries[i].0)),
    ensures
        check_keys_outcome(entries, allowed, context) == Some(
            ParseErrorView::InvalidKey(
                invalid_key_message(str_of(entries[i].0), allowed),
                context,
            ),
        ),
    decreases i,
{
    if i > 0 {
        let tail = entries.subrange(1, entries.len() as int);
        assert forall|j: int| 0 <= j < i - 1 implies (#[trigger] tail[j].0) is Str
            && allowed.contains(str_of(tail[j].0)) by {
            assert(tail[j] == entries[j + 1]);
        }
        assert(tail[i - 1] == entries[i]);
        lemma_unknown_key_rejected(tail, allowed, context, i - 1);
    }
}

/// Law: an unrecognized top-level key — the first key of the root mapping
/// that is a text outside the allowed set — fails the whole parse with
/// InvalidKey naming that key and the allowed set, in the context
/// "root level".
pub proof fn lemma_unknown_root_key_rejected(
    text: Seq<char>,
    entries: Seq<(NodeView, NodeView)>,
    i: int,
)
    requires
        yaml_documents(text) == Ok::<Seq<NodeView>, SyntaxIssueView>(
            seq![NodeView::Mapping(entries)],
        ),
        0 <= i < entries.len(),
        forall|j: int|
            0 <= j < i ==> (#[trigger] entries[j].0) is Str && root_allowed().contains(
                str_of(entries[j].0),
            ),
        entries[i].0 is Str,
        !root_allowed().contains(str_of(entries[i].0)),
    ensures
        course_outcome(text) == Err::<CourseView, ParseErrorView>(
            ParseErrorView::InvalidKey(
                invalid_key_message(str_of(entries[i].0), root_allowed()),
                root_context(),
            ),
        ),
{
    lemma_unknown_key_rejected(entries, root_allowed(), root_context(), i);
}

/// Law: a tutorial entry whose keys are all recognized and whose subtitle is
/// in order, but which lacks `content`, fails with MissingRequiredKey in the
/// context naming the tutorial's 1-based source position.
pub proof fn lemma_missing_content(v: NodeView, i: int)
    requires
        v is Mapping,
        check_keys_outcome(entries_of(v), tutorial_allowed(), tutorial_context(i)) is None,
        required_value_outcome(entries_of(v), "subtitle"@, tutorial_context(i), Expected::Str)
            is Ok,
        lookup(entries_of(v), "content"@) is None,
    ensures
        tutorial_outcome(v, i) == Err::<TutorialView, ParseErrorView>(
            ParseErrorView::MissingRequiredKey(
                missing_key_message("content"@),
                tutorial_context(i),
            ),
        ),
{
}

/// Law: in a course that parses, an absent `lang` defaults to the empty
/// string.
pub proof fn lemma_absent_lang_defaults_empty(
    text: Seq<char>,
    entries: Seq<(NodeView, NodeView)>,
    c: CourseView,
)
    requires
        yaml_documents(text) == Ok::<Seq<NodeView>, SyntaxIssueView>(
            seq![NodeView::Mapping(entries)],
        ),
        course_outcome(text) == Ok::<CourseView, ParseErrorView>(c),
        lookup(entries, "lang"@) is None,
    ensures
        c.lang == Seq::<char>::empty(),
{
}

/// Law: in a course that parses, an absent `tutorial_settings` mapping leaves
/// the course-wide start-closed default at false.
pub proof fn lemma_absent_settings_default_open(
    text: Seq<char>,
    entries: Seq<(NodeView, NodeView)>,
    c: CourseView,
)
    requires
        yaml_documents(text) == Ok::<Seq<NodeView>, SyntaxIssueView>(
            seq![NodeView::Mapping(entries)],
        ),
        course_outcome(text) == Ok::<CourseView, ParseErrorView>(c),
        lookup(entries, "tutorial_settings"@) is None,
    ensures
        c.tutorial_settings.start_closed == false,
{
}

/// Law: in a tutorial entry that parses, an absent `start_closed` stays
/// absent, so the course-wide default decides its effective state.
pub proof fn lemma_absent_start_closed_stays_none(v: NodeView, i: int, t: TutorialView)
    requires
        tutorial_outcome(v, i) == Ok::<TutorialView, ParseErrorView>(t),
        lookup(entries_of(v), "start_closed"@) is None,
    ensures
        t.start_closed is None,
{
}

// ---------------------------------------------------------------------------
// The executable validator, verified against the spec functions above.
// ---------------------------------------------------------------------------

/// Whether `s` is one of the allowed keys.
fn contains_str(allowed: &Vec<&str>, s: &str) -> (r: bool)
    ensures
        r == strs_view(allowed@).contains(s@),
{
    let mut i: usize = 0;
    while i < allowed.len()
        invariant
            i <= allowed@.len(),
            forall|j: int| 0 <= j < i ==> #[trigger] allowed@[j]@ != s@,
        decreases allowed@.len() - i,
    {
        if str_eq(allowed[i], s) {
            proof {
                assert(strs_view(allowed@)[i as int] == s@);
            }
            return true;
        }
        i += 1;
    }
    proof {
        assert forall|j: int| 0 <= j < strs_view(allowed@).len() implies #[trigger] strs_view(
            allowed@,
        )[j] != s@ by {
            assert(strs_view(allowed@)[j] == allowed@[j]@);
        }
    }
    false
}

/// Renders the allowed keys from index `i` on, quoted and comma-separated.
fn allowed_items_exec(allowed: &Vec<&str>, i: usize) -> (r: String)
    requires
        i <= allowed@.len(),
    ensures
        r@ == allowed_items(strs_view(allowed@).subrange(i as int, allowed@.len() as int)),
    decreases allowed@.len() - i,
{
    let ghost tail = strs_view(allowed@).subrange(i as int, allowed@.len() as int);
    if i == allowed.len() {
        proof {
            reveal_strlit("");
            assert(""@ =~= allowed_items(tail));
        }
        "".to_owned()
    } else {
        let mut out = "\"".to_owned();
        out.append(allowed[i]);
        out.append("\"");
        proof {
            reveal_strlit("\"");
            assert(out@ =~= quoted(tail[0]));
        }
        if i + 1 < allowed.len() {
            out.append(", ");
            let rest = allowed_items_exec(allowed, i + 1);
            out.append(rest.as_str());
            proof {
                reveal_strlit(", ");
                assert(tail.subrange(1, tail.len() as int) =~= strs_view(allowed@).subrange(
                    i + 1,
                    allowed@.len() as int,
                ));
                assert(out@ =~= allowed_items(tail));
            }
        } else {
            proof {
                assert(tail.len() == 1);
                assert(out@ =~= allowed_items(tail));
            }
        }
        out
    }
}

/// The allowed set as it is written inside a message.
fn allowed_list_exec(allowed: &Vec<&str>) -> (r: String)
    ensures
        r@ == allowed_list(strs_view(allowed@)),
{
    let mut out = "[".to_owned();
    let items = allowed_items_exec(allowed, 0);
    out.append(items.as_str());
    out.append("]");
    proof {
        reveal_strlit("[");
        reveal_strlit("]");
        assert(strs_view(allowed@).subrange(0, allowed@.len() as int) =~= strs_view(allowed@));
        assert(out@ =~= allowed_list(strs_view(allowed@)));
    }
    out
}

/// Finds the value bound to `key` in a mapping's pairs.
fn lookup_value<'a>(entries: &'a Vec<(Node, Node)>, key: &str) -> (r: Option<&'a Node>)
    ensures
        match r {
            Some(v) => lookup(pair_views(entries@), key@) == Some(node_view(*v)),
            None => lookup(pair_views(entries@), key@) is None,
        },
{
    proof {
        lemma_pair_views(entries@);
    }
    let ghost all = pair_views(entries@);
    proof {
        assert(all.subrange(0, all.len() as int) =~= all);
    }
    let mut i: usize = 0;
    while i < entries.len()
        invariant
            i <= entries@.len(),
            all == pair_views(entries@),
            all.len() == entries@.len(),
            forall|j: int|
                0 <= j < entries@.len() ==> #[trigger] all[j] == (
                    node_view(entries@[j].0),
                    node_view(entries@[j].1),
                ),
            lookup(all, key@) == lookup(all.subrange(i as int, all.len() as int), key@),
        decreases entries@.len() - i,
    {
        let ghost tail = all.subrange(i as int, all.len() as int);
        proof {
            assert(tail[0] == all[i as int]);
        }
        match &entries[i].0 {
            Node::Str(s) => {
                if str_eq(s.as_str(), key) {
                    proof {
                        assert(lookup(tail, key@) == Some(tail[0].1));
                    }
                    return Some(&entries[i].1);
                }
            },
            _ => {},
        }
        proof {
            assert(tail.subrange(1, tail.len() as int) =~= all.subrange(
                i + 1,
                all.len() as int,
            ));
        }
        i += 1;
    }
    proof {
        assert(all.subrange(all.len() as int, all.len() as int) =~= Seq::<(
            NodeView,
            NodeView,
        )>::empty());
    }
    None
}

/// Check if any keys are not in the list of required and optional (this does
/// not check that required/optional keys exist).
fn check_keys(entries: &Vec<(Node, Node)>, allowed: &Vec<&str>, context: &str) -> (r: Result<
    (),
    ParseError,
>)
    ensures
        match r {
            Ok(_) => check_keys_outcome(pair_views(entries@), strs_view(allowed@), context@)
                is None,
            Err(err) => check_keys_outcome(pair_views(entries@), strs_view(allowed@), context@)
                == Some(err@),
        },
{
    proof {
        lemma_pair_views(entries@);
    }
    let ghost all = pair_views(entries@);
    let ghost keys = strs_view(allowed@);
    proof {
        assert(all.subrange(0, all.len() as int) =~= all);
    }
    let mut i: usize = 0;
    while i < entries.len()
        invariant
            i <= entries@.len(),
            all == pair_views(entries@),
            keys == strs_view(allowed@),
            all.len() == entries@.len(),
            forall|j: int|
                0 <= j < entries@.len() ==> #[trigger] all[j] == (
                    node_view(entries@[j].0),
                    node_view(entries@[j].1),
                ),
            check_keys_outcome(all, keys, context@) == check_keys_outcome(
                all.subrange(i as int, all.len() as int),
                keys,
                context@,
            ),
        decreases entries@.len() - i,
    {
        let ghost tail = all.subrange(i as int, all.len() as int);
        proof {
            assert(tail[0] == all[i as int]);
        }
        match &entries[i].0 {
            Node::Str(s) => {
                if !contains_str(allowed, s.as_str()) {
                    let mut msg = "Received a key `".to_owned();
                    msg.append(s.as_str());
                    msg.append("`, expected one of ");
                    let list = allowed_list_exec(allowed);
                    msg.append(list.as_str());
                    proof {
                        reveal_strlit("Received a key `");
                        reveal_strlit("`, expected one of ");
                        assert(msg@ =~= invalid_key_message(s@, keys));
                        assert(check_keys_outcome(tail, keys, context@) == Some(
                            ParseErrorView::InvalidKey(invalid_key_message(s@, keys), context@),
                        ));
                    }
                    return Err(ParseError::InvalidKey(msg, context.to_owned()));
                }
            },
            key_node => {
                let desc = describe(key_node);
                let mut msg = "Received a key `".to_owned();
                msg.append(desc.as_str());
                msg.append("` which was not a string (text), expected one of ");
                let list = allowed_list_exec(allowed);
                msg.append(list.as_str());
                msg.append(" in this context");
                proof {
                    reveal_strlit("Received a key `");
                    reveal_strlit("` which was not a string (text), expected one of ");
                    reveal_strlit(" in this context");
                    assert(msg@ =~= nonstring_key_message(node_view(entries@[i as int].0), keys));
                    assert(check_keys_outcome(tail, keys, context@) == Some(
                        ParseErrorView::InvalidKey(
                            nonstring_key_message(node_view(entries@[i as int].0), keys),
                            context@,
                        ),
                    ));
                }
                return Err(ParseError::InvalidKey(msg, context.to_owned()));
            },
        }
        proof {
            assert(tail.subrange(1, tail.len() as int) =~= all.subrange(
                i + 1,
                all.len() as int,
            ));
        }
        i += 1;
    }
    proof {
        assert(all.subrange(all.len() as int, all.len() as int) =~= Seq::<(
            NodeView,
            NodeView,
        )>::empty());
    }
    Ok(())
}

/// Whether a node holds the kind of value asked for.
fn matches_expected(v: &Node, e: Expected) -> (r: bool)
    ensures
        r == expected_matches(node_view(*v), e),
{
    match e {
        Expected::Str => matches!(v, Node::Str(_)),
        Expected::Bool => matches!(v, Node::Bool(_)),
        Expected::Sequence => matches!(v, Node::Sequence(_)),
        Expected::Mapping => matches!(v, Node::Mapping(_)),
    }
}

/// How a kind of value is named inside a message.
fn describe_expected(e: Expected) -> (r: &'static str)
    ensures
        r@ == expected_description(e),
{
    match e {
        Expected::Str => "a string (text)",
        Expected::Bool => "a boolean (true or false)",
        Expected::Sequence => "an array (list)",
        Expected::Mapping => "a hash (key => value)",
    }
}

/// Typed getter: the value of an optional key.
fn optional_value<'a>(
    entries: &'a Vec<(Node, Node)>,
    key: &str,
    context: &str,
    e: Expected,
) -> (r: Result<Option<&'a Node>, ParseError>)
    ensures
        match r {
            Ok(Some(v)) => optional_value_outcome(pair_views(entries@), key@, context@, e) == Ok::<
                Option<NodeView>,
                ParseErrorView,
            >(Some(node_view(*v))),
            Ok(None) => optional_value_outcome(pair_views(entries@), key@, context@, e) == Ok::<
                Option<NodeView>,
                ParseErrorView,
            >(None),
            Err(err) => optional_value_outcome(pair_views(entries@), key@, context@, e) == Err::<
                Option<NodeView>,
                ParseErrorView,
            >(err@),
        },
{
    match lookup_value(entries, key) {
        None => Ok(None),
        Some(v) => {
            if matches_expected(v, e) {
                Ok(Some(v))
            } else {
                let desc = describe(v);
                let mut msg = "Expected the value of key `".to_owned();
                msg.append(key);
                msg.append("` to be ");
                msg.append(describe_expected(e));
                msg.append(", instead it was ");
                msg.append(desc.as_str());
                proof {
                    reveal_strlit("Expected the value of key `");
                    reveal_strlit("` to be ");
                    reveal_strlit(", instead it was ");
                    assert(msg@ =~= invalid_type_message(key@, e, node_view(*v)));
                }
                Err(ParseError::InvalidType(msg, context.to_owned()))
            }
        },
    }
}

/// Typed getter: the value of a required key.
fn required_value<'a>(
    entries: &'a Vec<(Node, Node)>,
    key: &str,
    context: &str,
    e: Expected,
) -> (r: Result<&'a Node, ParseError>)
    ensures
        match r {
            Ok(v) => required_value_outcome(pair_views(entries@), key@, context@, e) == Ok::<
                NodeView,
                ParseErrorView,
            >(node_view(*v)),
            Err(err) => required_value_outcome(pair_views(entries@), key@, context@, e) == Err::<
                NodeView,
                ParseErrorView,
            >(err@),
        },
{
    match optional_value(entries, key, context, e) {
        Ok(Some(v)) => Ok(v),
        Ok(None) => {
            let mut msg = "Missing required key `".to_owned();
            msg.append(key);
            msg.append("`");
            proof {
                reveal_strlit("Missing required key `");
                reveal_strlit("`");
                assert(msg@ =~= missing_key_message(key@));
            }
            Err(ParseError::MissingRequiredKey(msg, context.to_owned()))
        },
        Err(err) => Err(err),
    }
}

/// The context string naming the tutorial at 0-based index `i`.
fn tutorial_context_exec(i: usize) -> (r: String)
    requires
        i < usize::MAX,
    ensures
        r@ == tutorial_context(i as int),
{
    let mut out = "tutorial number ".to_owned();
    let num = usize_dec(i + 1);
    out.append(num.as_str());
    out
}

/// One entry of the tutorials list.
fn parse_tutorial(v: &Node, i: usize) -> (r: Result<Tutorial, ParseError>)
    requires
        i < usize::MAX,
    ensures
        match r {
            Ok(t) => tutorial_outcome(node_view(*v), i as int) == Ok::<
                TutorialView,
                ParseErrorView,
            >(t@),
            Err(err) => tutorial_outcome(node_view(*v), i as int) == Err::<
                TutorialView,
                ParseErrorView,
            >(err@),
        },
{
    let context = tutorial_context_exec(i);
    let entries = match v {
        Node::Mapping(entries) => entries,
        _ => {
            let desc = describe(v);
            let mut msg =
                "Expected the all of the elements of the tutorials array to be a hash, instead found ".to_owned();
            msg.append(desc.as_str());
            proof {
                reveal_strlit(
                    "Expected the all of the elements of the tutorials array to be a hash, instead found ",
                );
                assert(msg@ =~= tutorial_element_message(node_view(*v)));
            }
            return Err(ParseError::InvalidType(msg, context));
        },
    };
    let mut allowed: Vec<&str> = Vec::new();
    allowed.push("subtitle");
    allowed.push("content");
    allowed.push("start_closed");
    proof {
        assert(strs_view(allowed@) =~= tutorial_allowed());
    }
    match check_keys(entries, &allowed, context.as_str()) {
        Err(err) => {
            return Err(err);
        },
        Ok(_) => {},
    }
    let subtitle = match required_value(entries, "subtitle", context.as_str(), Expected::Str) {
        Ok(node) => match node {
            Node::Str(s) => s.clone(),
            _ => unreached(),
        },
        Err(err) => {
            return Err(err);
        },
    };
    let markdown = match required_value(entries, "content", context.as_str(), Expected::Str) {
        Ok(node) => match node {
            Node::Str(s) => s,
            _ => unreached(),
        },
        Err(err) => {
            return Err(err);
        },
    };
    let start_closed = match optional_value(entries, "start_closed", context.as_str(), Expected::Bool) {
        Ok(Some(node)) => match node {
            Node::Bool(b) => Some(*b),
            _ => unreached(),
        },
        Ok(None) => None,
        Err(err) => {
            return Err(err);
        },
    };
    let content = render_markdown(markdown.as_str());
    Ok(Tutorial { subtitle, content, start_closed })
}

/// Parses a document text into a course: the document loader, the schema
/// validator, the content transformer and the course assembly in one pass.
#[verifier::loop_isolation(false)]
pub fn parse_course(course: &str) -> (r: Result<Course, ParseError>)
    ensures
        match r {
            Ok(c) => course_outcome(course@) == Ok::<CourseView, ParseErrorView>(c@),
            Err(err) => course_outcome(course@) == Err::<CourseView, ParseErrorView>(err@),
        },
{
    let docs = match load_documents(course) {
        Ok(docs) => docs,
        Err(issue) => {
            let mut msg = "File was not valid YAML (".to_owned();
            msg.append(issue.message.as_str());
            msg.append(")");
            proof {
                reveal_strlit("File was not valid YAML (");
                reveal_strlit(")");
                assert(msg@ =~= scan_error_message(issue@.message));
            }
            return Err(ParseError::SyntaxError(
                msg,
                Some(SourceLocation { line: issue.line, col: issue.col }),
            ));
        },
    };
    proof {
        lemma_seq_views(docs@);
    }
    if docs.len() != 1 {
        return Err(ParseError::SyntaxError(
            "YAML file must contain exactly one document".to_owned(),
            None,
        ));
    }
    let entries = match &docs[0] {
        Node::Mapping(entries) => entries,
        _ => {
            return Err(ParseError::SyntaxError(
                "YAML file was not a mapping (key => value).".to_owned(),
                None,
            ));
        },
    };
    let mut allowed: Vec<&str> = Vec::new();
    allowed.push("title");
    allowed.push("lang");
    allowed.push("url");
    allowed.push("tutorials");
    allowed.push("tutorial_settings");
    proof {
        assert(strs_view(allowed@) =~= root_allowed());
    }
    match check_keys(entries, &allowed, "root level") {
        Err(err) => {
            return Err(err);
        },
        Ok(_) => {},
    }
    let title = match required_value(entries, "title", "root level", Expected::Str) {
        Ok(node) => match node {
            Node::Str(s) => s.clone(),
            _ => unreached(),
        },
        Err(err) => {
            return Err(err);
        },
    };
    let url = match required_value(entries, "url", "root level", Expected::Str) {
        Ok(node) => match node {
            Node::Str(s) => s.clone(),
            _ => unreached(),
        },
        Err(err) => {
            return Err(err);
        },
    };
    let lang = match optional_value(entries, "lang", "root level", Expected::Str) {
        Ok(Some(node)) => match node {
            Node::Str(s) => s.clone(),
            _ => unreached(),
        },
        Ok(None) => String::new(),
        Err(err) => {
            return Err(err);
        },
    };
    let items = match required_value(entries, "tutorials", "root level", Expected::Sequence) {
        Ok(node) => match node {
            Node::Sequence(items) => items,
            _ => unreached(),
        },
        Err(err) => {
            return Err(err);
        },
    };
    proof {
        lemma_seq_views(items@);
    }
    let ghost gitems = seq_views(items@);
    let mut tutorials: Vec<Tutorial> = Vec::new();
    let mut i: usize = 0;
    while i < items.len()
        invariant
            i <= items@.len(),
            gitems == seq_views(items@),
            gitems.len() == items@.len(),
            forall|j: int| 0 <= j < items@.len() ==> #[trigger] gitems[j] == node_view(items@[j]),
            match tutorials_outcome(gitems, i as int) {
                Ok(rest) => tutorials_outcome(gitems, 0) == Ok::<Seq<TutorialView>, ParseErrorView>(
                    tutorials@.map_values(|t: Tutorial| t@) + rest,
                ),
                Err(e) => tutorials_outcome(gitems, 0) == Err::<Seq<TutorialView>, ParseErrorView>(
                    e,
                ),
            },
        decreases items@.len() - i,
    {
        match parse_tutorial(&items[i], i) {
            Ok(t) => {
                let ghost tv = t@;
                let ghost old_map = tutorials@.map_values(|t: Tutorial| t@);
                tutorials.push(t);
                proof {
                    assert(tutorials@.map_values(|t: Tutorial| t@) =~= old_map + seq![tv]);
                    if tutorials_outcome(gitems, i + 1) is Ok {
                        let rest = tutorials_outcome(gitems, i + 1)->Ok_0;
                        assert((old_map + seq![tv]) + rest =~= old_map + (seq![tv] + rest));
                    }
                }
            },
            Err(err) => {
                return Err(err);
            },
        }
        i += 1;
    }
    proof {
        assert(tutorials@.map_values(|t: Tutorial| t@) + Seq::<TutorialView>::empty()
            =~= tutorials@.map_values(|t: Tutorial| t@));
    }
    let tutorial_settings = match optional_value(
        entries,
        "tutorial_settings",
        "root level",
        Expected::Mapping,
    ) {
        Ok(Some(node)) => {
            let sentries = match node {
                Node::Mapping(s) => s,
                _ => unreached(),
            };
            let mut sallowed: Vec<&str> = Vec::new();
            sallowed.push("start_closed");
            proof {
                assert(strs_view(sallowed@) =~= settings_allowed());
            }
            match check_keys(sentries, &sallowed, "tutorial_settings") {
                Err(err) => {
                    return Err(err);
                },
                Ok(_) => {},
            }
            match optional_value(sentries, "start_closed", "tutorial_settings", Expected::Bool) {
                Ok(Some(bnode)) => {
                    let b = match bnode {
                        Node::Bool(b) => *b,
                        _ => unreached(),
                    };
                    CourseTutorialSettings { start_closed: b }
                },
                Ok(None) => CourseTutorialSettings::default(),
                Err(err) => {
                    return Err(err);
                },
            }
        },
        Ok(None) => CourseTutorialSettings::default(),
        Err(err) => {
            return Err(err);
        },
    };
    Ok(Course { title, lang, url, tutorials, tutorial_settings })
}

} // verus!


