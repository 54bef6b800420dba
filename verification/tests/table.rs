use gitlabctl::drift::{classify, ProjectGroup};
use gitlabctl::row::EnvironmentRow;
use gitlabctl::table::{
    column_widths, group_widths, header_line, holds_no_row, narrowest, render, report, row_line,
    ColumnWidths, Line, Tint,
};
use gitlabctl::text::{join_columns, pad, to_decimal};

fn entry(project: &str, environment: &str, deployment: &str, commit: &str, updated: &str) -> EnvironmentRow {
    EnvironmentRow {
        project_name: project.to_string(),
        environment_name: environment.to_string(),
        deployment_by: deployment.to_string(),
        commit_sha: commit.to_string(),
        updated: updated.to_string(),
    }
}

fn text_of(line: &Line) -> String {
    join_columns(&line.cells)
}

fn widths_of(widths: &ColumnWidths) -> [usize; 5] {
    [widths.project, widths.environment, widths.deployment, widths.commit, widths.updated]
}

#[test]
fn widths_without_rows_are_the_header_lengths() {
    let widths = column_widths(&Vec::new());
    assert_eq!(widths_of(&widths), [7, 11, 10, 6, 7]);
    assert_eq!(widths.project, "PROJECT".len());
    assert_eq!(widths.environment, "ENVIRONMENT".len());
    assert_eq!(widths.deployment, "DEPLOYMENT".len());
    assert_eq!(widths.commit, "COMMIT".len());
    assert_eq!(widths.updated, "UPDATED".len());
    assert_eq!(widths_of(&narrowest()), [7, 11, 10, 6, 7]);
}

#[test]
fn widths_of_short_cells_stay_at_the_header_lengths() {
    let rows = vec![entry("A", "staging", "1 by x", "abc123", "now")];
    assert_eq!(widths_of(&column_widths(&rows)), [7, 11, 10, 6, 7]);
}

#[test]
fn widths_follow_the_longest_cell() {
    let rows = vec![
        entry("a-long-project", "production-eu", "12 by someone", "0123456789", "3 hours ago"),
        entry("b", "an-even-longer-environment", "1 by x", "abc", "now"),
        entry("the-longest-project-of-all", "dev", "1234 by somebody-else", "abc", "a month ago!"),
    ];
    assert_eq!(widths_of(&column_widths(&rows)), [26, 26, 21, 10, 12]);
}

#[test]
fn widths_count_the_bytes_of_a_cell() {
    let rows = vec![entry("projäkt1", "env", "1 by x", "abc", "now")];
    let widths = column_widths(&rows);
    assert_eq!("projäkt1".chars().count(), 8);
    assert_eq!(widths.project, 9);
}

#[test]
fn widths_are_never_below_the_header_lengths() {
    let samples = vec![
        Vec::new(),
        vec![entry("", "", "", "", "")],
        vec![entry("x", "y", "z", "w", "v"), entry("xxxxxxxxxxxx", "", "", "", "")],
    ];
    for rows in samples {
        let widths = column_widths(&rows);
        assert!(widths.project >= 7);
        assert!(widths.environment >= 11);
        assert!(widths.deployment >= 10);
        assert!(widths.commit >= 6);
        assert!(widths.updated >= 7);
    }
}

#[test]
fn group_widths_span_all_groups() {
    let groups = vec![
        ProjectGroup { rows: vec![entry("short", "e", "d", "c", "u")], consistent: true },
        ProjectGroup { rows: Vec::new(), consistent: false },
        ProjectGroup {
            rows: vec![entry("a-much-longer-name", "e", "d", "c", "u"), entry("p", "environment-1", "d", "c", "u")],
            consistent: false,
        },
    ];
    assert_eq!(widths_of(&group_widths(&groups)), [18, 13, 10, 6, 7]);
    assert!(!holds_no_row(&groups));
}

#[test]
fn groups_without_rows_hold_no_row() {
    assert!(holds_no_row(&Vec::new()));
    let groups = vec![
        ProjectGroup { rows: Vec::new(), consistent: true },
        ProjectGroup { rows: Vec::new(), consistent: false },
    ];
    assert!(holds_no_row(&groups));
}

#[test]
fn padding_fills_up_with_blanks() {
    assert_eq!(pad("abc", 6), "abc   ");
    assert_eq!(pad("", 3), "   ");
    assert_eq!(pad("abc", 3), "abc");
    assert_eq!(pad("abcdef", 3), "abcdef");
    assert_eq!(pad("abc", 0), "abc");
    assert_eq!(pad("äöü", 5), "äöü  ");
    assert_eq!(pad("PROJECT", 9), format!("{:9}", "PROJECT"));
    assert_eq!(pad("äöü", 7), format!("{:7}", "äöü"));
}

#[test]
fn joining_puts_two_blanks_between_cells() {
    assert_eq!(join_columns(&Vec::new()), "");
    assert_eq!(join_columns(&vec!["a".to_string()]), "a");
    assert_eq!(join_columns(&vec!["a".to_string(), "b".to_string()]), "a  b");
    assert_eq!(
        join_columns(&vec!["a ".to_string(), "".to_string(), "c".to_string()]),
        "a     c"
    );
}

#[test]
fn numbers_are_written_in_base_ten() {
    assert_eq!(to_decimal(0), "0");
    assert_eq!(to_decimal(7), "7");
    assert_eq!(to_decimal(10), "10");
    assert_eq!(to_decimal(4096), "4096");
    assert_eq!(to_decimal(1_000_000), "1000000");
    assert_eq!(to_decimal(u64::MAX), "18446744073709551615");
    assert_eq!(to_decimal(9_007_199_254_740_993), 9_007_199_254_740_993u64.to_string());
}

#[test]
fn the_header_is_padded_to_the_widths() {
    let widths = ColumnWidths { project: 9, environment: 11, deployment: 12, commit: 6, updated: 8 };
    let line = header_line(&widths);
    assert!(matches!(line.tint, Tint::Plain));
    assert_eq!(
        line.cells,
        vec!["PROJECT  ", "ENVIRONMENT", "DEPLOYMENT  ", "COMMIT", "UPDATED "]
    );
    assert_eq!(text_of(&line), "PROJECT    ENVIRONMENT  DEPLOYMENT    COMMIT  UPDATED ");
    assert_eq!(
        text_of(&line),
        format!("{:9}  {:11}  {:12}  {:6}  {:8}", "PROJECT", "ENVIRONMENT", "DEPLOYMENT", "COMMIT", "UPDATED")
    );
}

#[test]
fn a_row_is_padded_and_tinted() {
    let widths = ColumnWidths { project: 7, environment: 11, deployment: 10, commit: 6, updated: 7 };
    let row = entry("A", "staging", "3 by bob", "abc123", "now");
    let green = row_line(&row, &widths, true);
    assert!(matches!(green.tint, Tint::Green));
    assert_eq!(green.cells, vec!["A      ", "staging    ", "3 by bob  ", "abc123", "now    "]);
    let red = row_line(&row, &widths, false);
    assert!(matches!(red.tint, Tint::Red));
    assert_eq!(red.cells, green.cells);
    assert_eq!(
        text_of(&red),
        format!("{:7}  {:11}  {:10}  {:6}  {:7}", "A", "staging", "3 by bob", "abc123", "now")
    );
}

#[test]
fn a_consistent_project_is_shown_in_green() {
    let rows = vec![
        entry("A", "staging", "3 by bob", "abc123", "3 hours ago"),
        entry("A", "prod", "2 by eve", "abc123", "a day ago"),
    ];
    let lines = report(&rows);
    assert_eq!(lines.len(), 3);
    assert!(matches!(lines[0].tint, Tint::Plain));
    assert_eq!(text_of(&lines[0]), "PROJECT  ENVIRONMENT  DEPLOYMENT  COMMIT  UPDATED    ");
    assert!(matches!(lines[1].tint, Tint::Green));
    assert_eq!(text_of(&lines[1]), "A        staging      3 by bob    abc123  3 hours ago");
    assert!(matches!(lines[2].tint, Tint::Green));
    assert_eq!(text_of(&lines[2]), "A        prod         2 by eve    abc123  a day ago  ");
    assert_eq!(lines[1].cells[1], "staging    ");
    assert_eq!(lines[0].cells[1], "ENVIRONMENT");
}

#[test]
fn a_drifted_project_is_shown_in_red() {
    let rows = vec![
        entry("B", "staging", "3 by bob", "abc123", "now"),
        entry("B", "prod", "2 by eve", "def456", "now"),
    ];
    let lines = report(&rows);
    assert_eq!(lines.len(), 3);
    assert!(matches!(lines[0].tint, Tint::Plain));
    assert!(matches!(lines[1].tint, Tint::Red));
    assert!(matches!(lines[2].tint, Tint::Red));
    assert_eq!(text_of(&lines[1]), "B        staging      3 by bob    abc123  now    ");
    assert_eq!(text_of(&lines[2]), "B        prod         2 by eve    def456  now    ");
}

#[test]
fn nothing_deployed_gives_the_notice_and_no_table() {
    let rows = vec![
        entry("A", "staging", "", "", ""),
        entry("A", "prod", "", "", ""),
        entry("B", "staging", "4 by bob", "", "now"),
    ];
    let lines = report(&rows);
    assert_eq!(lines.len(), 1);
    assert!(matches!(lines[0].tint, Tint::Plain));
    assert_eq!(lines[0].cells, vec!["There is nothing to show"]);
    assert_eq!(text_of(&lines[0]), "There is nothing to show");
}

#[test]
fn no_rows_at_all_give_the_notice() {
    let lines = report(&Vec::new());
    assert_eq!(lines.len(), 1);
    assert_eq!(text_of(&lines[0]), "There is nothing to show");
    let rendered = render(&Vec::new());
    assert_eq!(rendered.len(), 1);
    assert_eq!(text_of(&rendered[0]), "There is nothing to show");
}

#[test]
fn a_report_keeps_the_order_of_the_rows() {
    let rows = vec![
        entry("payments-api", "staging", "10 by bob", "aaa", "now"),
        entry("payments-api", "prod", "9 by bob", "bbb", "now"),
        entry("web", "staging", "1 by eve", "", ""),
        entry("web", "prod", "5 by eve", "ccc", "a week ago"),
        entry("worker", "prod", "2 by dan", "ddd", "now"),
        entry("worker", "canary", "3 by dan", "ddd", "now"),
    ];
    let lines = report(&rows);
    let texts: Vec<String> = lines.iter().map(text_of).collect();
    assert_eq!(
        texts,
        vec![
            "PROJECT       ENVIRONMENT  DEPLOYMENT  COMMIT  UPDATED   ",
            "payments-api  staging      10 by bob   aaa     now       ",
            "payments-api  prod         9 by bob    bbb     now       ",
            "web           prod         5 by eve    ccc     a week ago",
            "worker        prod         2 by dan    ddd     now       ",
            "worker        canary       3 by dan    ddd     now       ",
        ]
    );
    let tints: Vec<Tint> = lines.iter().map(|line| line.tint).collect();
    assert!(matches!(
        tints.as_slice(),
        [Tint::Plain, Tint::Red, Tint::Red, Tint::Green, Tint::Green, Tint::Green]
    ));
}

#[test]
fn rendering_follows_the_verdict_of_each_group() {
    let groups = vec![
        ProjectGroup { rows: vec![entry("a", "one", "1 by x", "abc", "now")], consistent: false },
        ProjectGroup { rows: vec![entry("b", "one", "1 by x", "abc", "now")], consistent: true },
    ];
    let lines = render(&groups);
    assert_eq!(lines.len(), 3);
    assert!(matches!(lines[1].tint, Tint::Red));
    assert!(matches!(lines[2].tint, Tint::Green));
}

#[test]
fn rendering_the_classified_rows_is_the_report() {
    let rows = vec![
        entry("a", "one", "1 by x", "abc", "now"),
        entry("a", "two", "2 by x", "abd", "now"),
        entry("b", "one", "1 by y", "abc", "now"),
    ];
    let by_steps: Vec<String> = render(&classify(&rows)).iter().map(text_of).collect();
    let at_once: Vec<String> = report(&rows).iter().map(text_of).collect();
    assert_eq!(by_steps, at_once);
    assert_eq!(at_once.len(), 4);
}
