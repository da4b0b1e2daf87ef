use plan_scan::action::{ActionType, ParseError};
use plan_scan::decode::decode_action;

fn ok_fields(header: &str, detail: &str) -> (ActionType, String, String, String, Vec<String>) {
    let a = decode_action(header, detail).expect("decode should succeed");
    (a.typ, a.reference, a.resource, a.name, a.content)
}

#[test]
fn decodes_create_detail_line() {
    let (typ, reference, resource, name, content) = ok_fields(
        "  # module.abc.aws_iam_policy.name",
        "  + resources \"aws_iam_policy\" \"name\" {",
    );
    assert_eq!(typ, ActionType::Create);
    assert_eq!(reference, "module.abc.aws_iam_policy.name");
    assert_eq!(resource, "aws_iam_policy");
    assert_eq!(name, "name");
    assert!(content.is_empty());
}

#[test]
fn decodes_update_symbol() {
    let (typ, _, _, _, _) = ok_fields("  # a.b", "  ~ resources \"a\" \"b\" {");
    assert_eq!(typ, ActionType::Update);
}

#[test]
fn decodes_destroy_symbol() {
    let (typ, _, _, _, _) = ok_fields("  # a.b", "  - resources \"a\" \"b\" {");
    assert_eq!(typ, ActionType::Destroy);
}

#[test]
fn decodes_destroy_then_create_symbol() {
    let (typ, _, _, _, _) = ok_fields("  # a.b", "-/+ resources \"a\" \"b\" {");
    assert_eq!(typ, ActionType::DestroyThenCreate);
}

#[test]
fn decodes_duplicate_then_remove_symbol() {
    let (typ, _, _, _, _) = ok_fields("  # a.b", "+/- resources \"a\" \"b\" {");
    assert_eq!(typ, ActionType::DuplicateThenRemove);
}

#[test]
fn unknown_symbol_is_rejected() {
    let r = decode_action("  # a.b", "xx  resources \"a\" \"b\" {");
    assert_eq!(r.unwrap_err(), ParseError::UnrecognizedTypeSymbol);
}

#[test]
fn short_detail_line_is_rejected() {
    let r = decode_action("  # a.b", "  +");
    assert_eq!(r.unwrap_err(), ParseError::UnrecognizedTypeSymbol);
}

#[test]
fn header_without_reference_is_rejected() {
    let r = decode_action("  # ", "  + resources \"a\" \"b\" {");
    assert_eq!(r.unwrap_err(), ParseError::MissingReferenceToken);
}

#[test]
fn reference_is_second_whitespace_token() {
    let (_, reference, _, _, _) = ok_fields(
        "  #   module.x.y[\"key\"]   trailing",
        "  + resources \"a\" \"b\" {",
    );
    assert_eq!(reference, "module.x.y[\"key\"]");
}

#[test]
fn detail_shorter_than_quoted_start_is_rejected() {
    let r = decode_action("  # a.b", "  + resource");
    assert_eq!(r.unwrap_err(), ParseError::MalformedQuoting);
}

#[test]
fn missing_opening_quote_is_rejected() {
    let r = decode_action("  # a.b", "  + resources aws_iam_policy \"name\" {");
    assert_eq!(r.unwrap_err(), ParseError::MalformedQuoting);
}

#[test]
fn missing_closing_suffix_is_rejected() {
    let r = decode_action("  # a.b", "  + resources \"aws_iam_policy\" \"name\"");
    assert_eq!(r.unwrap_err(), ParseError::MalformedQuoting);
}

#[test]
fn missing_name_part_is_rejected() {
    let r = decode_action("  # a.b", "  + resources \"aws_iam_policy\" {");
    assert_eq!(r.unwrap_err(), ParseError::MissingResourceOrName);
}

#[test]
fn parts_after_the_second_are_ignored() {
    let (_, _, resource, name, _) = ok_fields(
        "  # a.b",
        "  + resources \"one\" \"two\" \"three\" {",
    );
    assert_eq!(resource, "one");
    assert_eq!(name, "two");
}

#[test]
fn surrounding_spaces_are_trimmed() {
    let (_, _, resource, name, _) = ok_fields(
        "  # a.b",
        "  + resources    \"aws_iam_policy\" \"name\" {   ",
    );
    assert_eq!(resource, "aws_iam_policy");
    assert_eq!(name, "name");
}

#[test]
fn symbols_render_as_listed() {
    assert_eq!(ActionType::Create.symbol(), "  +");
    assert_eq!(ActionType::Update.symbol(), "  ~");
    assert_eq!(ActionType::Destroy.symbol(), "  -");
    assert_eq!(ActionType::DestroyThenCreate.symbol(), "-/+");
    assert_eq!(ActionType::DuplicateThenRemove.symbol(), "+/-");
}

#[test]
fn error_messages_name_the_stage() {
    assert_eq!(ParseError::MissingHeader.message(), "missing first header");
    assert_eq!(ParseError::MissingReferenceToken.message(), "expecting resource reference");
    assert_eq!(ParseError::MissingDetailLine.message(), "expecting detail line");
    assert_eq!(ParseError::UnrecognizedTypeSymbol.message(), "unexpected action type");
    assert_eq!(ParseError::MalformedQuoting.message(), "expecting quoted resource and name");
    assert_eq!(ParseError::MissingResourceOrName.message(), "expecting resource and name");
}
