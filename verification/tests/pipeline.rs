use declaration_miner::history::{revision_pairs, Commit, WalkEvent};
use declaration_miner::patch::{Classifier, DiffLine};
use declaration_miner::pipeline::{
    csv_columns, outcome_columns, output_file_name, project_name, DiffOutcome, Patch,
};
use declaration_miner::record::{CsvColumn, CsvColumnDiffType, DeclarationType};

fn columns(project_name: &str, outcomes: &Vec<DiffOutcome>) -> Vec<CsvColumn> {
    let classifier = Classifier::new().expect("the patterns are valid");
    csv_columns(&classifier, project_name, outcomes)
}

fn commit(hash: &str, seconds: i64) -> Commit {
    Commit {
        hash: hash.to_string(),
        seconds_since_epoch: seconds,
        committer: None,
        parents: vec!["parent".to_string()],
    }
}

fn line(origin: char, content: &str, path: &str) -> DiffLine {
    DiffLine {
        origin,
        content: content.as_bytes().to_vec(),
        new_path: Some(path.to_string()),
        old_path: None,
    }
}

fn patch(hash: &str, seconds: i64, lines: Vec<DiffLine>) -> DiffOutcome {
    DiffOutcome::Computed(Patch { commit: commit(hash, seconds), lines })
}

fn walk() -> Vec<DiffOutcome> {
    vec![
        patch(
            "third",
            300,
            vec![line('+', "int a = 1;", "A.java"), line('-', "var b = 2;", "A.java")],
        ),
        DiffOutcome::Failed("could not read tree".to_string()),
        patch("second", 200, vec![line('+', "x = 1", "A.py")]),
        patch("first", 100, vec![line(' ', "  long c = 3;", "dir/B.java")]),
    ]
}

#[test]
fn project_name_is_the_last_segment_of_the_working_directory() {
    assert_eq!(project_name("/home/miner/tomcat/"), Some("tomcat".to_string()));
    assert_eq!(project_name("spring-framework"), Some("spring-framework".to_string()));
}

#[test]
fn working_directory_without_segments_has_no_project_name() {
    assert_eq!(project_name("/"), None);
    assert_eq!(project_name(""), None);
}

#[test]
fn output_file_is_named_after_the_project() {
    assert_eq!(output_file_name("tomcat"), "tomcat.csv");
    assert_eq!(output_file_name("eclipse.jdt.ls"), "eclipse.jdt.ls.csv");
    assert_eq!(output_file_name(""), ".csv");
}

#[test]
fn rows_follow_commits_then_lines() {
    let rows = columns("tomcat", &walk());
    let seen: Vec<(&str, &str)> =
        rows.iter().map(|r| (r.commit_hash.as_str(), r.line_content.as_str())).collect();
    assert_eq!(
        seen,
        vec![("third", "int a = 1;"), ("third", "var b = 2;"), ("first", "  long c = 3;")]
    );
    assert_eq!(rows[0].diff_type, CsvColumnDiffType::Addition);
    assert_eq!(rows[1].diff_type, CsvColumnDiffType::Deletion);
    assert_eq!(rows[1].declaration_type, DeclarationType::Var);
    assert_eq!(rows[2].diff_type, CsvColumnDiffType::Unknown);
    assert_eq!(rows[2].file_name, "B.java");
    assert_eq!(rows[2].seconds_since_epoch, 100);
    for r in &rows {
        assert_eq!(r.project_name, "tomcat");
    }
}

#[test]
fn failed_diff_contributes_no_rows_and_later_diffs_are_still_read() {
    let outcomes = vec![
        DiffOutcome::Failed("boom".to_string()),
        patch("first", 100, vec![line('+', "int a = 1;", "A.java")]),
    ];
    let rows = columns("p", &outcomes);
    assert_eq!(rows.len(), 1);
    assert_eq!(rows[0].commit_hash, "first");
    assert_eq!(rows[0].seconds_since_epoch, 100);
    assert_eq!(rows[0].line_content, "int a = 1;");
    assert_eq!(columns("p", &vec![DiffOutcome::Failed("boom".to_string())]), vec![]);
}

#[test]
fn failed_diff_changes_nothing_around_it() {
    let with = walk();
    let mut without = walk();
    without.remove(1);
    assert_eq!(columns("p", &with), columns("p", &without));
}

#[test]
fn rows_of_a_walk_are_those_of_its_parts() {
    let outcomes = walk();
    let whole = columns("p", &outcomes);
    for cut in 0..=outcomes.len() {
        let mut joined = columns("p", &outcomes[..cut].to_vec());
        joined.extend(columns("p", &outcomes[cut..].to_vec()));
        assert_eq!(joined, whole);
    }
}

#[test]
fn same_walk_gives_the_same_rows() {
    assert_eq!(columns("tomcat", &walk()), columns("tomcat", &walk()));
}

#[test]
fn empty_walk_gives_no_rows() {
    assert_eq!(columns("tomcat", &vec![]), vec![]);
}

#[test]
fn root_commit_contributes_no_rows() {
    let root = Commit {
        hash: "root".to_string(),
        seconds_since_epoch: 2_000_000_000,
        committer: None,
        parents: vec![],
    };
    let pairs = revision_pairs(vec![WalkEvent::Visited(root)], 1_521_504_000).expect("no failure");
    let outcomes: Vec<DiffOutcome> = pairs
        .into_iter()
        .map(|p| {
            DiffOutcome::Computed(Patch {
                commit: p.commit,
                lines: vec![line('+', "int a = 1;", "A.java")],
            })
        })
        .collect();
    assert_eq!(columns("p", &outcomes), vec![]);
}

#[test]
fn rows_of_one_diff_are_those_of_its_patch() {
    let classifier = Classifier::new().expect("the patterns are valid");
    let outcomes = walk();
    let per_diff: Vec<usize> =
        outcomes.iter().map(|o| outcome_columns(&classifier, "p", o).len()).collect();
    assert_eq!(per_diff, vec![2, 0, 0, 1]);
    let mut joined = Vec::new();
    for outcome in &outcomes {
        joined.extend(outcome_columns(&classifier, "p", outcome));
    }
    assert_eq!(joined, columns("p", &outcomes));
}
