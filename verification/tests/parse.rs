use plan_scan::action::{Action, ActionType, ParseError};
use plan_scan::scan::parse_report;

fn lines(ls: &[&str]) -> Vec<String> {
    ls.iter().map(|l| l.to_string()).collect()
}

fn parse(ls: &[&str]) -> Result<Vec<Action>, ParseError> {
    parse_report(&lines(ls))
}

#[test]
fn full_report_yields_records_in_order() {
    let r = parse(&[
        "Refreshing state...",
        "",
        "Terraform will perform the following actions:",
        "",
        "  # module.abc.aws_iam_policy.name will be created",
        "  + resources \"aws_iam_policy\" \"name\" {",
        "      + arn       = (known after apply)",
        "      + policy    = jsonencode(...)",
        "    }",
        "",
        "  # module.abc.aws_s3_bucket.logs must be replaced",
        "-/+ resources \"aws_s3_bucket\" \"logs\" {",
        "      ~ bucket = \"old\" -> \"new\"",
        "    }",
        "",
        "Plan: 2 to add, 0 to change, 0 to destroy.",
    ])
    .expect("report should parse");
    assert_eq!(r.len(), 2);
    assert_eq!(r[0].typ, ActionType::Create);
    assert_eq!(r[0].reference, "module.abc.aws_iam_policy.name");
    assert_eq!(r[0].resource, "aws_iam_policy");
    assert_eq!(r[0].name, "name");
    assert_eq!(
        r[0].content,
        vec![
            "      + arn       = (known after apply)".to_string(),
            "      + policy    = jsonencode(...)".to_string(),
        ],
    );
    assert_eq!(r[1].typ, ActionType::DestroyThenCreate);
    assert_eq!(r[1].reference, "module.abc.aws_s3_bucket.logs");
    assert_eq!(r[1].content, vec!["      ~ bucket = \"old\" -> \"new\"".to_string()]);
}

#[test]
fn no_changes_report_yields_zero_records() {
    let r = parse(&[
        "Refreshing state...",
        "No changes. Infrastructure is up-to-date.",
        "trailing content that is ignored",
        "  # even.a.header line",
    ])
    .expect("no-changes report is a success");
    assert!(r.is_empty());
}

#[test]
fn empty_body_gives_empty_content() {
    let r = parse(&[
        "Terraform will perform the following actions:",
        "  # a.b",
        "  + resources \"a\" \"b\" {",
        "    }",
        "Plan: 1 to add.",
    ])
    .expect("report should parse");
    assert_eq!(r.len(), 1);
    assert!(r[0].content.is_empty());
}

#[test]
fn header_after_unclosed_header_drops_first_record() {
    let r = parse(&[
        "Terraform will perform the following actions:",
        "  # dropped.one",
        "  + resources \"first\" \"one\" {",
        "      body of the dropped record",
        "  # kept.two",
        "  ~ resources \"second\" \"two\" {",
        "      kept body",
        "    }",
        "Plan: 1 to change.",
    ])
    .expect("report should parse");
    assert_eq!(r.len(), 1);
    assert_eq!(r[0].resource, "second");
    assert_eq!(r[0].typ, ActionType::Update);
    assert_eq!(r[0].content, vec!["      kept body".to_string()]);
}

#[test]
fn abrupt_end_keeps_closed_records() {
    let r = parse(&[
        "Terraform will perform the following actions:",
        "  # kept.one",
        "  + resources \"a\" \"b\" {",
        "      line",
        "    }",
    ])
    .expect("end of input after a close marker is tolerated");
    assert_eq!(r.len(), 1);
    assert_eq!(r[0].content, vec!["      line".to_string()]);
}

#[test]
fn abrupt_end_drops_unclosed_record() {
    let r = parse(&[
        "Terraform will perform the following actions:",
        "  # closed.one",
        "  + resources \"a\" \"b\" {",
        "    }",
        "  # unclosed.two",
        "  - resources \"c\" \"d\" {",
        "      body without a close marker",
    ])
    .expect("end of input mid-body is tolerated");
    assert_eq!(r.len(), 1);
    assert_eq!(r[0].reference, "closed.one");
}

#[test]
fn plan_line_ends_the_scan() {
    let r = parse(&[
        "Terraform will perform the following actions:",
        "  # a.b",
        "  + resources \"a\" \"b\" {",
        "    }",
        "Plan: 1 to add.",
        "  # after.plan",
        "  + resources \"x\" \"y\" {",
        "    }",
    ])
    .expect("report should parse");
    assert_eq!(r.len(), 1);
    assert_eq!(r[0].reference, "a.b");
}

#[test]
fn each_close_marker_appends_the_record_in_progress() {
    let r = parse(&[
        "Terraform will perform the following actions:",
        "  # a.b",
        "  + resources \"a\" \"b\" {",
        "      x",
        "    }",
        "      y",
        "    }",
        "Plan: 1 to add.",
    ])
    .expect("report should parse");
    assert_eq!(r.len(), 2);
    assert_eq!(r[0].content, vec!["      x".to_string()]);
    assert_eq!(r[1].content, vec!["      x".to_string(), "      y".to_string()]);
}

#[test]
fn empty_input_is_missing_header() {
    assert_eq!(parse(&[]).unwrap_err(), ParseError::MissingHeader);
}

#[test]
fn input_without_markers_is_missing_header() {
    let r = parse(&["some noise", "more noise"]);
    assert_eq!(r.unwrap_err(), ParseError::MissingHeader);
}

#[test]
fn actions_marker_without_header_is_missing_header() {
    let r = parse(&["Terraform will perform the following actions:", "", "Plan: 0 to add."]);
    assert_eq!(r.unwrap_err(), ParseError::MissingHeader);
}

#[test]
fn header_as_last_line_is_missing_detail() {
    let r = parse(&["Terraform will perform the following actions:", "  # a.b"]);
    assert_eq!(r.unwrap_err(), ParseError::MissingDetailLine);
}

#[test]
fn later_header_as_last_line_is_missing_detail() {
    let r = parse(&[
        "Terraform will perform the following actions:",
        "  # a.b",
        "  + resources \"a\" \"b\" {",
        "    }",
        "  # c.d",
    ]);
    assert_eq!(r.unwrap_err(), ParseError::MissingDetailLine);
}

#[test]
fn decode_failure_aborts_the_whole_run() {
    let r = parse(&[
        "Terraform will perform the following actions:",
        "  # a.b",
        "  + resources \"a\" \"b\" {",
        "    }",
        "  # c.d",
        "?!  resources \"c\" \"d\" {",
        "    }",
        "Plan: 2 to add.",
    ]);
    assert_eq!(r.unwrap_err(), ParseError::UnrecognizedTypeSymbol);
}

#[test]
fn label_lists_symbol_resource_and_name() {
    let r = parse(&[
        "Terraform will perform the following actions:",
        "  # module.abc.aws_iam_policy.name",
        "  + resources \"aws_iam_policy\" \"name\" {",
        "    }",
        "Plan: 1 to add.",
    ])
    .expect("report should parse");
    assert_eq!(r[0].label(), "  + aws_iam_policy name");
}

#[test]
fn content_text_joins_body_lines() {
    let r = parse(&[
        "Terraform will perform the following actions:",
        "  # a.b",
        "  ~ resources \"a\" \"b\" {",
        "      first",
        "      second",
        "    }",
        "Plan: 1 to change.",
    ])
    .expect("report should parse");
    assert_eq!(r[0].content_text(), "      first\n      second\n");
    let empty = parse(&[
        "Terraform will perform the following actions:",
        "  # a.b",
        "  ~ resources \"a\" \"b\" {",
        "    }",
    ])
    .expect("report should parse");
    assert_eq!(empty[0].content_text(), "");
}
