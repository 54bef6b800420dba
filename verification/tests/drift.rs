use gitlabctl::drift::{all_the_same, classify, group_by_project, retain_deployed};
use gitlabctl::row::EnvironmentRow;

fn single_elem_vec() -> Vec<EnvironmentRow> {
    vec![EnvironmentRow {
        project_name: "project".to_string(),
        environment_name: "env".to_string(),
        deployment_by: "deployed by someone".to_string(),
        commit_sha: "asdflkj".to_string(),
        updated: "some time ago".to_string(),
    }]
}

fn row(project: &str, environment: &str, commit: &str) -> EnvironmentRow {
    EnvironmentRow {
        project_name: project.to_string(),
        environment_name: environment.to_string(),
        deployment_by: "7 by someone".to_string(),
        commit_sha: commit.to_string(),
        updated: "an hour ago".to_string(),
    }
}

fn names(rows: &[EnvironmentRow]) -> Vec<String> {
    rows.iter()
        .map(|r| format!("{}/{}", r.project_name, r.environment_name))
        .collect()
}

#[test]
fn test_single_elem() {
    assert!(all_the_same(&single_elem_vec()));
}

#[test]
fn test_duplicates() {
    assert!(all_the_same(
        &[single_elem_vec(), single_elem_vec()].concat()
    ));
}

#[test]
fn test_differences() {
    assert!(!all_the_same(
        &[
            vec![EnvironmentRow {
                commit_sha: "fooo".to_string(),
                ..single_elem_vec().first().unwrap().to_owned()
            }],
            single_elem_vec()
        ]
        .concat()
    ));
}

#[test]
fn no_rows_are_the_same() {
    assert!(all_the_same(&[]));
}

#[test]
fn many_duplicates_stay_the_same() {
    let mut rows = Vec::new();
    for _ in 0..25 {
        rows.extend(single_elem_vec());
    }
    assert!(all_the_same(&rows));
}

#[test]
fn a_late_difference_is_found() {
    let rows = vec![row("a", "one", "abc"), row("a", "two", "abc"), row("a", "three", "abd")];
    assert!(!all_the_same(&rows));
}

#[test]
fn a_commit_that_comes_back_is_still_drift() {
    let rows = vec![row("a", "one", "abc"), row("a", "two", "def"), row("a", "three", "abc")];
    assert!(!all_the_same(&rows));
}

#[test]
fn a_single_row_with_an_empty_commit_is_the_same() {
    assert!(all_the_same(&[row("a", "one", "")]));
}

#[test]
fn rows_without_commit_are_dropped() {
    let rows = vec![
        row("a", "one", "abc"),
        row("a", "two", ""),
        row("b", "one", ""),
        row("b", "two", "def"),
    ];
    let kept = retain_deployed(&rows);
    assert_eq!(names(&kept), vec!["a/one".to_string(), "b/two".to_string()]);
}

#[test]
fn dropping_twice_is_dropping_once() {
    let rows = vec![
        row("a", "one", ""),
        row("a", "two", "abc"),
        row("b", "one", "def"),
        row("b", "two", ""),
    ];
    let once = retain_deployed(&rows);
    let twice = retain_deployed(&once);
    assert_eq!(names(&once), names(&twice));
    assert_eq!(once.len(), 2);
}

#[test]
fn dropping_keeps_nothing_of_nothing() {
    assert!(retain_deployed(&Vec::new()).is_empty());
}

#[test]
fn neighbours_of_one_project_are_grouped() {
    let rows = vec![
        row("a", "one", "abc"),
        row("a", "two", "abc"),
        row("b", "one", "def"),
        row("c", "one", "x"),
        row("c", "two", "y"),
        row("c", "three", "z"),
    ];
    let groups = group_by_project(&rows);
    assert_eq!(groups.len(), 3);
    assert_eq!(names(&groups[0]), vec!["a/one".to_string(), "a/two".to_string()]);
    assert_eq!(names(&groups[1]), vec!["b/one".to_string()]);
    assert_eq!(
        names(&groups[2]),
        vec!["c/one".to_string(), "c/two".to_string(), "c/three".to_string()]
    );
}

#[test]
fn grouping_nothing_gives_no_group() {
    assert!(group_by_project(&Vec::new()).is_empty());
}

#[test]
fn a_project_that_comes_back_gets_a_second_group() {
    let rows = vec![row("a", "one", "abc"), row("b", "one", "abc"), row("a", "two", "def")];
    let groups = classify(&rows);
    assert_eq!(groups.len(), 3);
    assert_eq!(names(&groups[0].rows), vec!["a/one".to_string()]);
    assert_eq!(names(&groups[1].rows), vec!["b/one".to_string()]);
    assert_eq!(names(&groups[2].rows), vec!["a/two".to_string()]);
    assert!(groups[0].consistent);
    assert!(groups[1].consistent);
    assert!(groups[2].consistent);
}

#[test]
fn classify_a_single_row() {
    let groups = classify(&single_elem_vec());
    assert_eq!(groups.len(), 1);
    assert_eq!(groups[0].rows.len(), 1);
    assert!(groups[0].consistent);
}

#[test]
fn classify_a_single_row_without_commit() {
    let groups = classify(&vec![row("a", "one", "")]);
    assert!(groups.is_empty());
}

#[test]
fn classify_two_rows_of_one_commit() {
    let rows = vec![row("A", "staging", "abc123"), row("A", "prod", "abc123")];
    let groups = classify(&rows);
    assert_eq!(groups.len(), 1);
    assert!(groups[0].consistent);
    assert_eq!(names(&groups[0].rows), vec!["A/staging".to_string(), "A/prod".to_string()]);
    assert_eq!(groups[0].rows[0].commit_sha, "abc123");
    assert_eq!(groups[0].rows[1].deployment_by, "7 by someone");
    assert_eq!(groups[0].rows[1].updated, "an hour ago");
}

#[test]
fn classify_two_rows_of_two_commits() {
    let rows = vec![row("B", "staging", "abc123"), row("B", "prod", "def456")];
    let groups = classify(&rows);
    assert_eq!(groups.len(), 1);
    assert!(!groups[0].consistent);
    assert_eq!(names(&groups[0].rows), vec!["B/staging".to_string(), "B/prod".to_string()]);
}

#[test]
fn classify_judges_each_project_by_itself() {
    let rows = vec![
        row("a", "one", "abc"),
        row("a", "two", "abc"),
        row("b", "one", "abc"),
        row("b", "two", ""),
        row("b", "three", "xyz"),
        row("c", "one", ""),
    ];
    let groups = classify(&rows);
    assert_eq!(groups.len(), 2);
    assert!(groups[0].consistent);
    assert!(!groups[1].consistent);
    assert_eq!(names(&groups[1].rows), vec!["b/one".to_string(), "b/three".to_string()]);
}

#[test]
fn dropped_rows_do_not_split_a_project() {
    let rows = vec![row("a", "one", "abc"), row("b", "one", ""), row("a", "two", "abc")];
    let groups = classify(&rows);
    assert_eq!(groups.len(), 1);
    assert_eq!(groups[0].rows.len(), 2);
    assert!(groups[0].consistent);
}

#[test]
fn a_copy_of_a_row_holds_the_same_texts() {
    let first = row("a", "one", "abc");
    let copy = first.clone();
    assert_eq!(copy.project_name, "a");
    assert_eq!(copy.environment_name, "one");
    assert_eq!(copy.deployment_by, "7 by someone");
    assert_eq!(copy.commit_sha, "abc");
    assert_eq!(copy.updated, "an hour ago");
}
