//! Classification of the lines of a patch.

use crate::history::{Commit, CommitView};
use crate::record::{
    declaration_type_of, diff_type_of, CsvColumn, CsvColumnDiffType, CsvColumnView,
    DeclarationType,
};
use crate::text::{has_extension, last_segment, spec_has_extension, spec_last_segment};
use regex::Regex;
use vstd::prelude::*;
use vstd::string::*;
use vstd::utf8::{decode_utf8, valid_utf8};

verus! {

/// Extension of the source files whose lines are mined.
pub const TRACKED_EXTENSION: &'static str = "java";

/// A line that looks like a declaration: after a prefix free of `"`, `<`,
/// `#` and `{`, an identifier (type parameters in angle brackets may be
/// part of it), whitespace, another identifier, and an assignment.
pub const DECLARATION_PATTERN: &'static str =
    r#"[^"<#{]*[_a-zA-Z][_$a-zA-Z0-9<>]*\s+[_a-zA-Z][_$a-zA-Z0-9]*\s*=\s*.*"#;

/// A line that declares a variable with `var`: the keyword, whitespace,
/// an identifier, and an assignment.
pub const VAR_DECLARATION_PATTERN: &'static str = r#".*var\s+[_a-zA-Z][_$a-zA-Z0-9]*\s*=.*"#;

/// One line of a patch between two trees.
#[derive(Clone, Debug, PartialEq, Eq)]
pub struct DiffLine {
    /// Origin marker: `+` for an added line, `-` for a removed one,
    /// anything else for context and the like.
    pub origin: char,
    /// The raw bytes of the line.
    pub content: Vec<u8>,
    /// Path of the file after the change, where it still exists.
    pub new_path: Option<String>,
    /// Path of the file before the change, where it existed.
    pub old_path: Option<String>,
}

/// A patch line as a mathematical value.
pub struct DiffLineView {
    pub origin: char,
    pub content: Seq<u8>,
    pub new_path: Option<Seq<char>>,
    pub old_path: Option<Seq<char>>,
}

impl View for DiffLine {
    type V = DiffLineView;

    open spec fn view(&self) -> DiffLineView {
        DiffLineView {
            origin: self.origin,
            content: self.content@,
            new_path: self.new_path.deep_view(),
            old_path: self.old_path.deep_view(),
        }
    }
}

impl DeepView for DiffLine {
    type V = DiffLineView;

    open spec fn deep_view(&self) -> DiffLineView {
        self@
    }
}

/// A pattern that the regular-expression engine did not accept.
#[derive(Clone, Debug, PartialEq, Eq)]
pub struct PatternError {
    pub pattern: String,
}

impl PatternError {
    /// What to tell the user.
    pub fn message(&self) -> (text: String)
        ensures
            text@ == "regex is not valid"@,
    {
        "regex is not valid".to_owned()
    }
}

/// What one whitespace character adds to the indentation of its line.
pub open spec fn weight(c: char) -> nat {
    if c == ' ' {
        1
    } else if c == '\t' {
        4
    } else {
        0
    }
}

/// The indentation score of a line: the sum of the weights of all its
/// characters, wherever in the line they stand.
pub open spec fn spec_indentation(text: Seq<char>) -> nat
    decreases text.len(),
{
    if text.len() == 0 {
        0
    } else {
        spec_indentation(text.drop_last()) + weight(text.last())
    }
}

/// The score of a line is the sum of the scores of its parts: whitespace
/// counts the same wherever it stands, inside the line as at its start.
pub proof fn lemma_indentation_concat(left: Seq<char>, right: Seq<char>)
    ensures
        spec_indentation(left + right) == spec_indentation(left) + spec_indentation(right),
    decreases right.len(),
{
    if right.len() > 0 {
        assert((left + right).drop_last() == left + right.drop_last());
        lemma_indentation_concat(left, right.drop_last());
    }
}

/// Computes the indentation score of a line.
pub fn indentation(text: &str) -> (score: u128)
    ensures
        score == spec_indentation(text@),
{
    let len: usize = text.unicode_len();
    let mut score: u128 = 0;
    let mut i: usize = 0;
    for c in it: text.chars()
        invariant
            it.seq() == text@,
            text@.len() == len,
            i == it.index(),
            score == spec_indentation(text@.take(i as int)),
            score <= 4 * i,
    {
        proof {
            assert(text@.take(i + 1).drop_last() == text@.take(i as int));
        }
        if c == ' ' {
            score = score + 1;
        } else if c == '\t' {
            score = score + 4;
        }
        i = i + 1;
    }
    assert(text@.take(i as int) == text@);
    score
}

/// The path of the file that a line belongs to: the path after the change,
/// or the one before it where the change removed the file.
pub open spec fn changed_path(line: DiffLineView) -> Option<Seq<char>> {
    if line.new_path is Some {
        line.new_path
    } else {
        line.old_path
    }
}

/// The base name of the file that a line belongs to, where that file has
/// the tracked extension.
pub open spec fn spec_tracked_file_name(line: DiffLineView) -> Option<Seq<char>> {
    match changed_path(line) {
        Some(path) => match spec_last_segment(path) {
            Some(name) => if spec_has_extension(name, TRACKED_EXTENSION@) {
                Some(name)
            } else {
                None
            },
            None => None,
        },
        None => None,
    }
}

/// Finds the base name of the file that a line belongs to, where that file
/// has the tracked extension.
pub fn tracked_file_name(line: &DiffLine) -> (name: Option<String>)
    ensures
        name.deep_view() == spec_tracked_file_name(line@),
{
    let path = match &line.new_path {
        Some(path) => path,
        None => match &line.old_path {
            Some(path) => path,
            None => {
                return None;
            },
        },
    };
    match last_segment(path.as_str()) {
        Some(name) => if has_extension(name.as_str(), TRACKED_EXTENSION) {
            Some(name)
        } else {
            None
        },
        None => None,
    }
}

/// The text of a line, where its bytes are well-formed UTF-8.
pub open spec fn line_text(line: DiffLineView) -> Option<Seq<char>> {
    if valid_utf8(line.content) {
        Some(decode_utf8(line.content))
    } else {
        None
    }
}

/// Decodes bytes as UTF-8 with `std::str::from_utf8`, which accepts the
/// well-formed encodings and no others, and hands back the text they encode.
#[verifier::external_body]
fn decode(bytes: &[u8]) -> (text: Option<&str>)
    ensures
        text is Some <==> valid_utf8(bytes@),
        text matches Some(t) ==> t@ == decode_utf8(bytes@),
{
    std::str::from_utf8(bytes).ok()
}

/// Whether the regular-expression engine accepts `pattern`: it is well
/// formed and its compiled form is within the engine's default size limit.
pub uninterp spec fn regex_accepts(pattern: Seq<char>) -> bool;

/// Whether the regular expression `pattern` has a match anywhere in `text`.
pub uninterp spec fn regex_is_match(pattern: Seq<char>, text: Seq<char>) -> bool;

/// Compiles `pattern` with `regex::Regex::new` and searches `text` with
/// `Regex::is_match`. Whether the pattern is accepted depends on the
/// pattern alone, and nothing comes back where it is not; otherwise the
/// outcome of the search comes back, which is a function of the pattern
/// and the text alone.
#[verifier::external_body]
fn is_match(pattern: &str, text: &str) -> (found: Option<bool>)
    ensures
        found is Some <==> regex_accepts(pattern@),
        found matches Some(b) ==> b == regex_is_match(pattern@, text@),
{
    match Regex::new(pattern) {
        Ok(re) => Some(re.is_match(text)),
        Err(_) => None,
    }
}

/// Searches `text` for a match of `pattern`. Fails where the engine does
/// not accept the pattern, and nowhere else.
pub fn pattern_matches(pattern: &str, text: &str) -> (found: Result<bool, PatternError>)
    ensures
        found is Ok <==> regex_accepts(pattern@),
        found matches Ok(b) ==> b == regex_is_match(pattern@, text@),
        found matches Err(e) ==> e.pattern@ == pattern@,
{
    match is_match(pattern, text) {
        Some(b) => Ok(b),
        None => Err(PatternError { pattern: pattern.to_owned() }),
    }
}

/// Whether a line looks like a declaration.
pub open spec fn is_declaration(text: Seq<char>) -> bool {
    regex_is_match(DECLARATION_PATTERN@, text)
}

/// Whether a line looks like the declaration of a variable.
pub open spec fn is_var_declaration(text: Seq<char>) -> bool {
    regex_is_match(VAR_DECLARATION_PATTERN@, text)
}

/// The row of a line of a tracked file, given its text and what the two
/// patterns said of it: none unless the declaration pattern matched.
pub open spec fn spec_emit(
    origin: char,
    text: Seq<char>,
    file_name: Seq<char>,
    commit: CommitView,
    project_name: Seq<char>,
    declaration: bool,
    var_declaration: bool,
) -> Option<CsvColumnView> {
    if declaration {
        Some(
            CsvColumnView {
                diff_type: diff_type_of(origin),
                line_content: text,
                declaration_type: declaration_type_of(var_declaration),
                indentation: spec_indentation(text),
                seconds_since_epoch: commit.seconds_since_epoch,
                commit_hash: commit.hash,
                file_name,
                project_name,
                committer: commit.committer,
            },
        )
    } else {
        None
    }
}

/// Assembles the row of a line of a tracked file from its text and from
/// what the two patterns said of it.
pub fn emit(
    origin: char,
    text: &str,
    file_name: &str,
    commit: &Commit,
    project_name: &str,
    declaration: bool,
    var_declaration: bool,
) -> (row: Option<CsvColumn>)
    ensures
        row.deep_view() == spec_emit(
            origin,
            text@,
            file_name@,
            commit@,
            project_name@,
            declaration,
            var_declaration,
        ),
{
    if !declaration {
        return None;
    }
    let declaration_type = if var_declaration {
        DeclarationType::Var
    } else {
        DeclarationType::Type
    };
    let committer = match &commit.committer {
        Some(name) => Some(name.clone()),
        None => None,
    };
    Some(
        CsvColumn {
            diff_type: CsvColumnDiffType::from(origin),
            line_content: text.to_owned(),
            declaration_type,
            indentation: indentation(text),
            seconds_since_epoch: commit.seconds_since_epoch,
            commit_hash: commit.hash.clone(),
            file_name: file_name.to_owned(),
            project_name: project_name.to_owned(),
            committer,
        },
    )
}

/// The row that a patch line gives, if it gives one.
pub open spec fn row_of(
    line: DiffLineView,
    commit: CommitView,
    project_name: Seq<char>,
) -> Option<CsvColumnView> {
    match (spec_tracked_file_name(line), line_text(line)) {
        (Some(file_name), Some(text)) => spec_emit(
            line.origin,
            text,
            file_name,
            commit,
            project_name,
            is_declaration(text),
            is_var_declaration(text),
        ),
        _ => None,
    }
}

/// A line gives a row if and only if its file has the tracked extension,
/// its bytes are text and the declaration pattern matches that text. The
/// row then holds the text and the base name of the file, and is of kind
/// `Var` exactly where the variable-declaration pattern matches the text.
pub proof fn lemma_row_iff(line: DiffLineView, commit: CommitView, project_name: Seq<char>)
    ensures
        row_of(line, commit, project_name) is Some <==> spec_tracked_file_name(line) is Some
            && line_text(line) is Some && is_declaration(line_text(line).unwrap()),
        row_of(line, commit, project_name) matches Some(row) ==> ({
            &&& Some(row.line_content) == line_text(line)
            &&& Some(row.file_name) == spec_tracked_file_name(line)
            &&& row.diff_type == diff_type_of(line.origin)
            &&& row.indentation == spec_indentation(row.line_content)
            &&& (row.declaration_type == DeclarationType::Var <==> is_var_declaration(
                row.line_content,
            ))
            &&& (row.declaration_type == DeclarationType::Type <==> !is_var_declaration(
                row.line_content,
            ))
            &&& row.seconds_since_epoch == commit.seconds_since_epoch
            &&& row.commit_hash == commit.hash
            &&& row.committer == commit.committer
            &&& row.project_name == project_name
        }),
{
}

/// The rows of a patch: the rows of those of its lines that give one, each
/// line once and in patch order.
pub open spec fn rows_of_patch(
    lines: Seq<DiffLineView>,
    commit: CommitView,
    project_name: Seq<char>,
) -> Seq<CsvColumnView> {
    lines.filter_map(|line: DiffLineView| row_of(line, commit, project_name))
}

/// The rows of a patch are those of its first part followed by those of
/// the rest: each line gives its row or none, whatever stands around it,
/// and the rows keep the order of the lines.
pub proof fn lemma_rows_of_patch_concat(
    first: Seq<DiffLineView>,
    rest: Seq<DiffLineView>,
    commit: CommitView,
    project_name: Seq<char>,
)
    ensures
        rows_of_patch(first + rest, commit, project_name) == rows_of_patch(
            first,
            commit,
            project_name,
        ) + rows_of_patch(rest, commit, project_name),
    decreases rest.len(),
{
    if rest.len() > 0 {
        assert((first + rest).drop_last() == first + rest.drop_last());
        lemma_rows_of_patch_concat(first, rest.drop_last(), commit, project_name);
    }
}

/// The line classifier: the two patterns, known to be accepted by the
/// engine.
#[derive(Debug)]
pub struct Classifier {
    declaration: &'static str,
    var_declaration: &'static str,
}

impl Classifier {
    #[verifier::type_invariant]
    spec fn patterns_are_accepted(&self) -> bool {
        &&& self.declaration@ == DECLARATION_PATTERN@
        &&& self.var_declaration@ == VAR_DECLARATION_PATTERN@
        &&& regex_accepts(DECLARATION_PATTERN@)
        &&& regex_accepts(VAR_DECLARATION_PATTERN@)
    }

    /// Makes the classifier, trying both patterns on the engine. Fails
    /// where the engine does not accept one of them, and nowhere else; the
    /// variable-declaration pattern is tried first.
    pub fn new() -> (made: Result<Classifier, PatternError>)
        ensures
            made is Ok <==> regex_accepts(VAR_DECLARATION_PATTERN@) && regex_accepts(
                DECLARATION_PATTERN@,
            ),
            made matches Err(e) ==> e.pattern@ == (if !regex_accepts(VAR_DECLARATION_PATTERN@) {
                VAR_DECLARATION_PATTERN@
            } else {
                DECLARATION_PATTERN@
            }),
    {
        match pattern_matches(VAR_DECLARATION_PATTERN, "") {
            Ok(_) => {},
            Err(e) => {
                return Err(e);
            },
        }
        match pattern_matches(DECLARATION_PATTERN, "") {
            Ok(_) => {},
            Err(e) => {
                return Err(e);
            },
        }
        Ok(Classifier { declaration: DECLARATION_PATTERN, var_declaration: VAR_DECLARATION_PATTERN })
    }

    /// Classifies one patch line: its row, if it gives one.
    pub fn classify_line(&self, line: &DiffLine, commit: &Commit, project_name: &str) -> (row:
        Option<CsvColumn>)
        ensures
            row.deep_view() == row_of(line@, commit@, project_name@),
    {
        proof {
            use_type_invariant(self);
        }
        let file_name = match tracked_file_name(line) {
            Some(name) => name,
            None => {
                return None;
            },
        };
        let text = match decode(line.content.as_slice()) {
            Some(text) => text,
            None => {
                return None;
            },
        };
        let declaration = is_match(self.declaration, text).unwrap();
        if !declaration {
            return None;
        }
        let var_declaration = is_match(self.var_declaration, text).unwrap();
        emit(
            line.origin,
            text,
            file_name.as_str(),
            commit,
            project_name,
            declaration,
            var_declaration,
        )
    }

    /// Classifies the lines of one patch: its rows, in patch order.
    pub fn classify_patch(&self, lines: &Vec<DiffLine>, commit: &Commit, project_name: &str) -> (rows:
        Vec<CsvColumn>)
        ensures
            rows.deep_view() == rows_of_patch(lines.deep_view(), commit@, project_name@),
    {
        let mut rows: Vec<CsvColumn> = Vec::new();
        let mut i: usize = 0;
        while i < lines.len()
            invariant
                i <= lines.len(),
                rows.deep_view() == rows_of_patch(
                    lines.deep_view().take(i as int),
                    commit@,
                    project_name@,
                ),
            decreases lines.len() - i,
        {
            proof {
                lines.deep_view().lemma_filter_map_take_succ(
                    |line: DiffLineView| row_of(line, commit@, project_name@),
                    i as int,
                );
            }
            match self.classify_line(&lines[i], commit, project_name) {
                Some(row) => {
                    rows.push(row);
                },
                None => {},
            }
            i = i + 1;
        }
        assert(lines.deep_view().take(i as int) == lines.deep_view());
        rows
    }
}

} // verus!
