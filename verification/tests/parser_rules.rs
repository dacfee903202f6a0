//! Matching single grammar rules against text: each case checks whether the
//! rule consumes the whole input.
use cacau::parser::CacauParser;
use cacau::parser::Rule;

fn parse_ok(rule: Rule, expression: &str) {
    assert!(CacauParser::matches_whole(rule, expression));
}

fn parse_err(rule: Rule, expression: &str) {
    assert!(!CacauParser::matches_whole(rule, expression));
}

#[test]
fn identifiers() {
    // Reserved keywords:
    parse_err(Rule::Identifier, "if");
    parse_err(Rule::Identifier, "for");
    parse_ok(Rule::Identifier, "if_");
    parse_ok(Rule::Identifier, "for_");

    parse_ok(Rule::Identifier, "snake_case_example");
    parse_ok(Rule::Identifier, "MyStruct");
    parse_ok(Rule::Identifier, "SCREAMANDSHOUT");
    parse_ok(Rule::Identifier, "WITH_UNDERLINE");
    parse_ok(Rule::Identifier, "x");
    parse_ok(Rule::Identifier, "_");
    parse_ok(Rule::Identifier, "____");
    parse_ok(Rule::Identifier, "_a");
    parse_ok(Rule::Identifier, "_________a");
    parse_ok(Rule::Identifier, "a0");

    parse_err(Rule::Identifier, "2");
    parse_err(Rule::Identifier, "3abc");
    parse_err(Rule::Identifier, "$anything");
    parse_err(Rule::Identifier, "(anything)");

    // @ in identifiers
    parse_ok(Rule::Identifier, "@anything");
    parse_ok(Rule::Identifier, "@x0");
    parse_err(Rule::Identifier, "zaz@z123");
    parse_err(Rule::Identifier, "@0a");
}

#[test]
fn integers() {
    parse_ok(Rule::IntegerLiteral, "0000000001293812753840");
    parse_ok(Rule::IntegerLiteral, "1_0000_0000");
    parse_ok(Rule::IntegerLiteral, "100_000_000");
    parse_ok(Rule::IntegerLiteral, "0");

    parse_err(Rule::IntegerLiteral, "0_");
    parse_err(Rule::IntegerLiteral, "_100_000_000");
    parse_err(Rule::IntegerLiteral, "1__0000_0000");
    parse_err(Rule::IntegerLiteral, "000000000129__3812753840");
}

#[test]
fn floats() {
    parse_ok(Rule::FloatLiteral, "123.4");
    parse_ok(Rule::FloatLiteral, "000.000");
    parse_ok(Rule::FloatLiteral, "98.7654321");
    parse_ok(Rule::FloatLiteral, "987_654.50");
    parse_ok(Rule::FloatLiteral, "987_654.100_100");

    parse_err(Rule::FloatLiteral, "123");
    parse_err(Rule::FloatLiteral, "1.");
    parse_err(Rule::FloatLiteral, ".1");
    parse_err(Rule::FloatLiteral, "5000..0");
    parse_err(Rule::FloatLiteral, "1.2.3");
}

#[test]
fn type_annotations() {
    parse_ok(Rule::TypeAnnotation, ": int");
    parse_ok(Rule::TypeAnnotation, ": float");
    parse_ok(Rule::TypeAnnotation, ": string");

    parse_err(Rule::TypeAnnotation, "123");
    parse_err(Rule::TypeAnnotation, "string");
    parse_err(Rule::TypeAnnotation, ": 10");
}

#[test]
fn assignment() {
    parse_ok(Rule::AssignmentStatement, "x = 1;");
    parse_ok(Rule::AssignmentStatement, "x += 1;");
    parse_ok(Rule::AssignmentStatement, "x -= 1;");
    parse_ok(Rule::AssignmentStatement, "x *= 1;");
    parse_ok(Rule::AssignmentStatement, "x /= 1;");
    parse_ok(Rule::AssignmentStatement, "x ^= 1;");
    parse_ok(Rule::AssignmentStatement, "x %= 1;");
    parse_ok(Rule::AssignmentStatement, "x &= 1;");
    parse_ok(Rule::AssignmentStatement, "x |= 1;");
    parse_ok(Rule::AssignmentStatement, "x <<= 1;");
    parse_ok(Rule::AssignmentStatement, "x >>= 1;");
}

#[test]
fn let_statement() {
    parse_ok(Rule::LetStatement, "let x = \"Hey there\";");
    parse_ok(Rule::LetStatement, "let nines = 'c';");
    parse_ok(Rule::LetStatement, "let six: int = 5;");
    parse_ok(Rule::LetStatement, "let six: BigDecimal = 10;");
    parse_err(Rule::LetStatement, "let name;");
    parse_err(Rule::LetStatement, "let ch x: b;");
    parse_err(Rule::LetStatement, "six: BigDecimal = 10;");
}

#[test]
fn function_argument_list() {
    parse_ok(Rule::FunctionParameterList, "x: int");
    parse_ok(Rule::FunctionParameterList, "x: int,");
    parse_ok(Rule::FunctionParameterList, "x: int, y: int");
    parse_ok(Rule::FunctionParameterList, "x: int, y: int,");
    parse_ok(Rule::FunctionParameterList, "y:y");
    parse_err(Rule::FunctionParameterList, ",x: int");
    parse_err(Rule::FunctionParameterList, "x, y");
    parse_err(Rule::FunctionParameterList, "x: 123");
}

#[test]
fn rule_names() {
    assert_eq!(
        cacau::parser::rule_parser_from_str("Expression"),
        Some(Rule::Expression)
    );
    assert_eq!(
        cacau::parser::rule_parser_from_str("IdentifierLiteral"),
        Some(Rule::Identifier)
    );
    assert_eq!(cacau::parser::rule_parser_from_str("NoSuchRule"), None);
}
