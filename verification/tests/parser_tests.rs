use git_shell_info::change_type::ChangeType;
use git_shell_info::color::TerminalColor;
use git_shell_info::errors::ParseError;
use git_shell_info::numbers::parse_u8;
use git_shell_info::parser::{
    brace_or_eol, function_parser, function_parts, parse, ParseExpression,
};

#[test]
fn parser_brace_or_eol_test() {
    assert_eq!(brace_or_eol(b'{'), false);
    assert_eq!(brace_or_eol(b'A'), true);
}

#[test]
fn mod_brace_or_eol_test() {
    assert_eq!(brace_or_eol(b'{'), false);
    assert_eq!(brace_or_eol(b'A'), true);
}

#[test]
fn parser_single_item() {
    assert_eq!(parse("{branch}").unwrap(), vec![ParseExpression::Branch]);
    assert_eq!(
        parse("{commit_count}").unwrap(),
        vec![ParseExpression::CommitCount]
    );

    // Changes to the working tree
    assert_eq!(
        parse("{new_count}").unwrap(),
        vec![ParseExpression::ChangeCount(ChangeType::WTNew)]
    );
    assert_eq!(
        parse("{modified_count}").unwrap(),
        vec![ParseExpression::ChangeCount(ChangeType::WTModified)]
    );
    assert_eq!(
        parse("{deleted_count}").unwrap(),
        vec![ParseExpression::ChangeCount(ChangeType::WTDeleted)]
    );
    assert_eq!(
        parse("{renamed_count}").unwrap(),
        vec![ParseExpression::ChangeCount(ChangeType::WTRenamed)]
    );
    assert_eq!(
        parse("{typechange_count}").unwrap(),
        vec![ParseExpression::ChangeCount(ChangeType::WTTypechange)]
    );

    // Staged changes
    assert_eq!(
        parse("{staged_new_count}").unwrap(),
        vec![ParseExpression::ChangeCount(ChangeType::StagedNew)]
    );
    assert_eq!(
        parse("{staged_modified_count}").unwrap(),
        vec![ParseExpression::ChangeCount(ChangeType::StagedModified)]
    );
    assert_eq!(
        parse("{staged_deleted_count}").unwrap(),
        vec![ParseExpression::ChangeCount(ChangeType::StagedDeleted)]
    );
    assert_eq!(
        parse("{staged_renamed_count}").unwrap(),
        vec![ParseExpression::ChangeCount(ChangeType::StagedRenamed)]
    );
    assert_eq!(
        parse("{staged_typechange_count}").unwrap(),
        vec![ParseExpression::ChangeCount(ChangeType::StagedTypechange)]
    );
}

#[test]
fn variable_single_item() {
    assert_eq!(parse("{branch}").unwrap(), vec![ParseExpression::Branch]);
    assert_eq!(
        parse("{commit_count}").unwrap(),
        vec![ParseExpression::CommitCount]
    );
    assert_eq!(
        parse("{new_count}").unwrap(),
        vec![ParseExpression::ChangeCount(ChangeType::WTNew)]
    );
    assert_eq!(
        parse("{modified_count}").unwrap(),
        vec![ParseExpression::ChangeCount(ChangeType::WTModified)]
    );
    assert_eq!(
        parse("{deleted_count}").unwrap(),
        vec![ParseExpression::ChangeCount(ChangeType::WTDeleted)]
    );
    assert_eq!(
        parse("{renamed_count}").unwrap(),
        vec![ParseExpression::ChangeCount(ChangeType::WTRenamed)]
    );
    assert_eq!(
        parse("{typechange_count}").unwrap(),
        vec![ParseExpression::ChangeCount(ChangeType::WTTypechange)]
    );
    assert_eq!(
        parse("{staged_new_count}").unwrap(),
        vec![ParseExpression::ChangeCount(ChangeType::StagedNew)]
    );
    assert_eq!(
        parse("{staged_modified_count}").unwrap(),
        vec![ParseExpression::ChangeCount(ChangeType::StagedModified)]
    );
    assert_eq!(
        parse("{staged_deleted_count}").unwrap(),
        vec![ParseExpression::ChangeCount(ChangeType::StagedDeleted)]
    );
    assert_eq!(
        parse("{staged_renamed_count}").unwrap(),
        vec![ParseExpression::ChangeCount(ChangeType::StagedRenamed)]
    );
    assert_eq!(
        parse("{staged_typechange_count}").unwrap(),
        vec![ParseExpression::ChangeCount(ChangeType::StagedTypechange)]
    );
}

#[test]
fn single_function() {
    assert_eq!(
        parse("{color(red)}").unwrap(),
        vec![ParseExpression::Color(TerminalColor::Red)]
    );
}

#[test]
fn parser_three_items() {
    assert_eq!(
        parse("{branch}{commit_count}{branch}").unwrap(),
        vec![
            ParseExpression::Branch,
            ParseExpression::CommitCount,
            ParseExpression::Branch,
        ]
    );
}

#[test]
fn mod_three_items() {
    assert_eq!(
        parse("{color(red)}{commit_count}{branch}").unwrap(),
        vec![
            ParseExpression::Color(TerminalColor::Red),
            ParseExpression::CommitCount,
            ParseExpression::Branch,
        ]
    );
}

#[test]
fn parser_three_items_with_literals() {
    assert_eq!(
        parse("{branch}|{branch}|{commit_count}").unwrap(),
        vec![
            ParseExpression::Branch,
            ParseExpression::Literal("|".to_string()),
            ParseExpression::Branch,
            ParseExpression::Literal("|".to_string()),
            ParseExpression::CommitCount,
        ]
    );
}

#[test]
fn mod_three_items_with_literals() {
    assert_eq!(
        parse("{branch}|{branch}|{commit_count}").unwrap(),
        vec![
            ParseExpression::Branch,
            ParseExpression::Literal("|".to_string()),
            ParseExpression::Branch,
            ParseExpression::Literal("|".to_string()),
            ParseExpression::CommitCount,
        ]
    );
}

#[test]
fn parser_items_with_literals_at_end() {
    assert_eq!(
        parse("{branch}YAY").unwrap(),
        vec![
            ParseExpression::Branch,
            ParseExpression::Literal("YAY".to_string()),
        ]
    );
}

#[test]
fn mod_items_with_literals_at_end() {
    assert_eq!(
        parse("{branch}YAY").unwrap(),
        vec![
            ParseExpression::Branch,
            ParseExpression::Literal("YAY".to_string()),
        ]
    );
}

#[test]
fn parser_one_of_each() {
    assert_eq!(
        parse("!{branch}{commit_count}{new_count}{modified_count}{deleted_count}{renamed_count}{typechange_count}{staged_new_count}{staged_modified_count}{staged_deleted_count}{staged_renamed_count}{staged_typechange_count}").unwrap(),
        vec![
            ParseExpression::Literal("!".to_string()),
            ParseExpression::Branch,
            ParseExpression::CommitCount,
            ParseExpression::ChangeCount(ChangeType::WTNew),
            ParseExpression::ChangeCount(ChangeType::WTModified),
            ParseExpression::ChangeCount(ChangeType::WTDeleted),
            ParseExpression::ChangeCount(ChangeType::WTRenamed),
            ParseExpression::ChangeCount(ChangeType::WTTypechange),
            ParseExpression::ChangeCount(ChangeType::StagedNew),
            ParseExpression::ChangeCount(ChangeType::StagedModified),
            ParseExpression::ChangeCount(ChangeType::StagedDeleted),
            ParseExpression::ChangeCount(ChangeType::StagedRenamed),
            ParseExpression::ChangeCount(ChangeType::StagedTypechange),
        ]
    );
}

#[test]
fn parse_single_param() {
    assert_eq!(git_shell_info::parser::parse_params("red"), Some(vec!["red".to_string()]));
}

#[test]
fn parse_params() {
    assert_eq!(
        git_shell_info::parser::parse_params("red,yellow,test42"),
        Some(vec![
            "red".to_string(),
            "yellow".to_string(),
            "test42".to_string(),
        ])
    );
}

#[test]
fn parse_params_with_spaces() {
    assert_eq!(
        git_shell_info::parser::parse_params("red, yellow,      test42"),
        Some(vec![
            "red".to_string(),
            "yellow".to_string(),
            "test42".to_string(),
        ])
    );
}

#[test]
fn parse_params_empty() {
    assert_eq!(git_shell_info::parser::parse_params(""), Some(vec![]));
}

#[test]
fn parse_function() {
    assert_eq!(
        function_parts("test(haha,hello)"),
        Some((
            "test".to_string(),
            vec!["haha".to_string(), "hello".to_string()],
        ))
    );
}

#[test]
fn parse_function_spaced_commas() {
    assert_eq!(
        function_parts("test(haha, hello)"),
        Some((
            "test".to_string(),
            vec!["haha".to_string(), "hello".to_string()],
        ))
    );
}

/// Test one of each function
#[test]
fn function_one_of_each() {
    assert_eq!(
        function_parser("color(red)"),
        Ok(ParseExpression::Color(TerminalColor::Red))
    );

    assert_eq!(
        function_parser("rgb(255, 0, 255)"),
        Ok(ParseExpression::Color(TerminalColor::TrueColor(255, 0, 255)))
    );
}

#[test]
fn slice_to_num_conversion() {
    assert_eq!(parse_u8("122"), Some(122u8));
}

#[test]
fn parse_twice_yields_equal_sequences() {
    let template = "on {branch} ({color(bold_cyan)}{commit_count}{color(reset)})";
    assert_eq!(parse(template).unwrap(), parse(template).unwrap());
    assert_eq!(parse("{rgb(1,2)}"), parse("{rgb(1,2)}"));
}

#[test]
fn unterminated_token_is_parse_error() {
    assert_eq!(parse("{branch"), Err(ParseError::UnterminatedToken));
    assert_eq!(parse("text {"), Err(ParseError::UnterminatedToken));
}

#[test]
fn unknown_token_is_parse_error() {
    assert_eq!(parse("{}"), Err(ParseError::UnknownToken));
    assert_eq!(parse("{not_a_variable}"), Err(ParseError::UnknownToken));
    assert_eq!(parse("{color( red)}"), Err(ParseError::UnknownToken));
    assert_eq!(parse("{color(red ,blue)}"), Err(ParseError::UnknownToken));
}

#[test]
fn unknown_function_is_parse_error() {
    assert_eq!(parse("{frob(a)}"), Err(ParseError::UnknownFunction));
}

#[test]
fn arity_errors() {
    assert_eq!(parse("{color(red,blue)}"), Err(ParseError::ColorArity));
    assert_eq!(parse("{color()}"), Err(ParseError::ColorArity));
    assert_eq!(parse("{rgb(1,2)}"), Err(ParseError::RgbArity));
    assert_eq!(parse("{rgb()}"), Err(ParseError::RgbArity));
}

#[test]
fn bold_color_names_parse() {
    assert_eq!(
        parse("{color(bold_cyan)}").unwrap(),
        vec![ParseExpression::Color(TerminalColor::BoldCyan)]
    );
}

#[test]
fn empty_template_parses_to_nothing() {
    assert_eq!(parse("").unwrap(), vec![]);
}

#[test]
fn lone_closing_brace_is_literal() {
    assert_eq!(
        parse("}").unwrap(),
        vec![ParseExpression::Literal("}".to_string())]
    );
}
