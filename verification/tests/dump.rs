use schism::ast::FunctionDef;
use schism::ast::Ident;
use schism::ast::SchismType;
use schism::ast::StackEffect;
use schism::ast::StackEntry;
use schism::ast::StackImage;
use schism::ast::Statement;
use schism::errors::CompilationError;
use schism::location::Location;
use schism::twist::Twist;
use schism::twist::Twistable;

#[test]
fn attr_nodes_render_with_indentation_and_quotes() {
    let t = Twist::obj("Function", vec![Twist::attr("name", "foo".to_string())]);
    assert_eq!("   obj Function:\n      attr name='foo'\n", t.to_string());
}

#[test]
fn empty_arrays_and_absent_values_render_as_nothing() {
    let t = Twist::obj(
        "Function",
        vec![
            Twist::arr("type_params", vec![]),
            Twist::opt_val("label", None),
            Twist::leaf("done"),
        ],
    );
    assert_eq!("   obj Function:\n      done\n", t.to_string());
}

#[test]
fn whitespace_only_children_are_dropped_from_objects() {
    let t = Twist::obj("outer", vec![Twist::leaf(" "), Twist::leaf("kept")]);
    assert_eq!("   obj outer:\n      kept\n", t.to_string());
}

#[test]
fn array_rendering_keeps_every_child() {
    let t = Twist::arr("xs", vec![Twist::leaf("a"), Twist::leaf("b")]);
    assert_eq!("   arr xs:\n      a\n      b\n", t.to_string());
}

#[test]
fn value_nodes_render_their_child_one_step_deeper() {
    let t = Twist::val("effect", Twist::leaf("x"));
    assert_eq!("   value effect:\n      x\n", t.to_string());
}

fn simple_type(name: &str) -> SchismType {
    SchismType::SimpleType(Ident::Local(name.to_string()))
}

fn invoke(name: &str) -> Statement {
    Statement::Name(Ident::Local(name.to_string()))
}

fn mk_fun() -> FunctionDef {
    FunctionDef {
        name: "foo".to_string(),
        type_params: vec![],
        effect: StackEffect {
            effect_domains: vec![],
            before: StackImage {
                context: None,
                stack: vec![
                    StackEntry::TypeEntry(simple_type("Int")),
                    StackEntry::TypeEntry(simple_type("Str")),
                ],
            },
            after: StackImage {
                context: None,
                stack: vec![StackEntry::TypeEntry(simple_type("Float"))],
            },
        },
        body: vec![invoke("dup"), invoke("*"), invoke("/")],
    }
}

fn mk_expected_fun() -> Twist {
    Twist::obj(
        "Function",
        vec![
            Twist::attr("name", "foo".to_string()),
            Twist::arr("type_params", vec![]),
            Twist::val(
                "effect",
                Twist::obj(
                    "StackEffect",
                    vec![
                        Twist::arr("effect_domains", vec![]),
                        Twist::val(
                            "before",
                            Twist::obj(
                                "StackImage",
                                vec![Twist::arr(
                                    "Stack",
                                    vec![
                                        Twist::obj(
                                            "SimpleType",
                                            vec![Twist::attr("id", "Int".to_string())],
                                        ),
                                        Twist::obj(
                                            "SimpleType",
                                            vec![Twist::attr("id", "Str".to_string())],
                                        ),
                                    ],
                                )],
                            ),
                        ),
                        Twist::val(
                            "after",
                            Twist::obj(
                                "StackImage",
                                vec![Twist::arr(
                                    "Stack",
                                    vec![Twist::obj(
                                        "SimpleType",
                                        vec![Twist::attr("id", "Float".to_string())],
                                    )],
                                )],
                            ),
                        ),
                    ],
                ),
            ),
            Twist::arr(
                "body",
                vec![
                    Twist::attr("InvokeName", "dup".to_string()),
                    Twist::attr("InvokeName", "*".to_string()),
                    Twist::attr("InvokeName", "/".to_string()),
                ],
            ),
        ],
    )
}

#[test]
fn function_definition_dump_matches_the_expected_tree() {
    let def = mk_fun();
    let rendered = def.twist().to_string();
    let expected = mk_expected_fun().to_string();
    assert_eq!(expected, rendered);
}

#[test]
fn statement_literals_dump_with_exact_text() {
    assert_eq!(
        "   attr FloatLit='13.2'\n",
        Statement::FloatLit("13.2".to_string()).twist().to_string()
    );
    assert_eq!("   attr IntLit='-7'\n", Statement::IntLit(-7).twist().to_string());
    assert_eq!("   attr CharLit=\''q'\'\n", Statement::CharLit('q').twist().to_string());
}

#[test]
fn code_rendering_rebuilds_constructor_calls() {
    let t = Twist::attr("name", "foo".to_string());
    assert_eq!("   Twist::attr(\"name\", \"foo\".to_string())", t.to_code());
    let leaf = Twist::leaf("x");
    assert_eq!("   Twist::leaf(\"x\")", leaf.to_code());
}

#[test]
fn error_messages_render_their_locations() {
    let loc = Location { source: 0, line: 3, column: 9 };
    let e = CompilationError::UnterminatedComment(loc);
    assert_eq!("Unterminated comment at line 3, column 9 of source 0", e.message());
    let lex = CompilationError::LexicalError(loc, "Invalid char".to_string());
    assert_eq!("Lexical error Invalid char at line 3, column 9 of source 0", lex.message());
    let nf = CompilationError::ModuleNotFoundError(schism::ast::ModulePath("a.b".to_string()));
    assert_eq!("Module a.b not found", nf.message());
}

#[test]
fn parse_failures_map_one_to_one_into_the_taxonomy() {
    let loc = Location { source: 0, line: 1, column: 1 };
    let mapped = CompilationError::from_parse_failure(schism::errors::ParseFailure::InvalidToken {
        location: loc,
    });
    assert_eq!(CompilationError::InvalidToken(loc), mapped);
    let passed = CompilationError::from_parse_failure(schism::errors::ParseFailure::User {
        error: CompilationError::UnterminatedComment(loc),
    });
    assert_eq!(CompilationError::UnterminatedComment(loc), passed);
    let eof = CompilationError::from_parse_failure(schism::errors::ParseFailure::UnrecognizedEof {
        location: loc,
        expected: vec!["end".to_string()],
    });
    assert_eq!(
        CompilationError::EOF { location: loc, expected: vec!["end".to_string()] },
        eof
    );
}

#[test]
fn generic_twist_helpers_build_the_same_trees() {
    let names = vec![Ident::Local("a".to_string()), Ident::Local("b".to_string())];
    let arr = Twist::twist_arr("ids", &names);
    assert_eq!("   arr ids:\n      a\n      b\n", arr.to_string());
    let one = Ident::Local("x".to_string());
    let val = Twist::twist_val("name", &one);
    assert_eq!("   value name:\n      x\n", val.to_string());
    let absent: Option<&Ident> = None;
    assert_eq!("", Twist::twist_opt_val("name", absent).to_string());
    assert_eq!(
        "   value name:\n      x\n",
        Twist::twist_opt_val("name", Some(&one)).to_string()
    );
}
