//! Whole-program runs: source text in, output text out.
fn run(input: &str) -> String {
    let (output, error) = cacau::run_source(input);
    assert!(error.is_none(), "program failed: {:?}", error);
    output
}

#[test]
fn reassignment() {
    assert_eq!(
        run(r###"
            let a = 10;
            a = a + 1;
            print(a);
        "###),
        "11"
    );
}

#[test]
fn hello_world_hello_world() {
    assert_eq!(
        run(r###"
            print("Hello, World!");
        "###),
        "Hello, World!"
    );
}

#[test]
fn comparison_and_logic_precedence() {
    assert_eq!(
        run(r###"
            print(0 == 0 and 1 == 1);
        "###),
        "true"
    );
}

#[test]
fn simple_unary() {
    assert_eq!(
        run(r###"
            print(-1);
        "###),
        "-1"
    );
}

#[test]
fn simple_not() {
    assert_eq!(
        run(r###"
            print(not true);
        "###),
        "false"
    );
}

#[test]
fn unary_inside_expr() {
    assert_eq!(
        run(r###"
            print(5 - -2);
        "###),
        "7"
    );
}

#[test]
fn unaries_inside_expr() {
    assert_eq!(
        run(r###"
            print(- 5 - -2);
        "###),
        "-3"
    );
}

#[test]
fn unary_the_world() {
    assert_eq!(
        run(r###"
            print(- - 5 - -2);
        "###),
        "7"
    );
}

#[test]
fn simple_decl_string() {
    assert_eq!(
        run(r###"
            let a = "Hello, World!";
            print(a);
        "###),
        "Hello, World!"
    );
}

#[test]
fn simple_decl_char() {
    assert_eq!(
        run(r###"
            let a = 'N';
            print(a);
        "###),
        "N"
    );
}

#[test]
fn simple_decl_int() {
    assert_eq!(
        run(r###"
            let a = 10;
            println(a);
        "###),
        "10\n"
    );
}

#[test]
fn simple_decl_with_type() {
    assert_eq!(
        run(r###"
            let a: int = 10;
            println(a);
        "###),
        "10\n"
    );
}
