//! The record emitted for one matching patch line, and the two
//! classifications it carries.

use vstd::prelude::*;

verus! {

/// Direction of a changed line, as told by its origin marker.
#[derive(Clone, Copy, Debug, PartialEq, Eq, Structural)]
pub enum CsvColumnDiffType {
    Addition,
    Deletion,
    Unknown,
}

/// What an origin marker stands for: `+` an addition, `-` a deletion,
/// every other marker (context lines among them) unknown.
pub open spec fn diff_type_of(origin: char) -> CsvColumnDiffType {
    if origin == '+' {
        CsvColumnDiffType::Addition
    } else if origin == '-' {
        CsvColumnDiffType::Deletion
    } else {
        CsvColumnDiffType::Unknown
    }
}

impl From<char> for CsvColumnDiffType {
    fn from(origin: char) -> (kind: Self) {
        match origin {
            '+' => CsvColumnDiffType::Addition,
            '-' => CsvColumnDiffType::Deletion,
            _ => CsvColumnDiffType::Unknown,
        }
    }
}

impl vstd::std_specs::convert::FromSpecImpl<char> for CsvColumnDiffType {
    open spec fn obeys_from_spec() -> bool {
        true
    }

    open spec fn from_spec(origin: char) -> Self {
        diff_type_of(origin)
    }
}

/// Every origin marker stands for exactly one direction: `+` alone for an
/// addition, `-` alone for a deletion, and each other marker for unknown.
pub proof fn lemma_origin_mapping_total(origin: char)
    ensures
        diff_type_of(origin) == CsvColumnDiffType::Addition <==> origin == '+',
        diff_type_of(origin) == CsvColumnDiffType::Deletion <==> origin == '-',
        diff_type_of(origin) == CsvColumnDiffType::Unknown <==> origin != '+' && origin != '-',
{
}

/// Kind of declaration that a line looks like.
#[derive(Clone, Copy, Debug, PartialEq, Eq, Structural)]
pub enum DeclarationType {
    Var,
    Type,
}

/// The kind of a line that matched the declaration pattern: `Var` where
/// the variable-declaration pattern matched it too, `Type` otherwise.
pub open spec fn declaration_type_of(is_var_declaration: bool) -> DeclarationType {
    if is_var_declaration {
        DeclarationType::Var
    } else {
        DeclarationType::Type
    }
}

/// One row of output: a changed line that looks like a declaration,
/// with the commit, file and repository it came from.
#[derive(Clone, Debug, PartialEq, Eq)]
pub struct CsvColumn {
    pub diff_type: CsvColumnDiffType,
    pub line_content: String,
    pub declaration_type: DeclarationType,
    pub indentation: u128,
    pub seconds_since_epoch: i64,
    pub commit_hash: String,
    pub file_name: String,
    pub project_name: String,
    pub committer: Option<String>,
}

/// A row as a mathematical value.
pub struct CsvColumnView {
    pub diff_type: CsvColumnDiffType,
    pub line_content: Seq<char>,
    pub declaration_type: DeclarationType,
    pub indentation: nat,
    pub seconds_since_epoch: int,
    pub commit_hash: Seq<char>,
    pub file_name: Seq<char>,
    pub project_name: Seq<char>,
    pub committer: Option<Seq<char>>,
}

impl View for CsvColumn {
    type V = CsvColumnView;

    open spec fn view(&self) -> CsvColumnView {
        CsvColumnView {
            diff_type: self.diff_type,
            line_content: self.line_content@,
            declaration_type: self.declaration_type,
            indentation: self.indentation as nat,
            seconds_since_epoch: self.seconds_since_epoch as int,
            commit_hash: self.commit_hash@,
            file_name: self.file_name@,
            project_name: self.project_name@,
            committer: self.committer.deep_view(),
        }
    }
}

impl DeepView for CsvColumn {
    type V = CsvColumnView;

    open spec fn deep_view(&self) -> CsvColumnView {
        self@
    }
}

} // verus!
