use myshell::ast::{
    Arguments, Command, Condition, Expansion, List, Pipe, Pipeline, StrPart,
};
use myshell::parser;
use myshell::parser::ParseError;

#[test]
fn parse_simple() {
    let input = "foo";
    let expected = Command::Simple(vec![Arguments::Arg(vec![StrPart::Chars("foo".into())])]);
    assert_eq!(parser::command(input), Ok(expected));

    let input = "  foo  ";
    let expected = Command::Simple(vec![Arguments::Arg(vec![StrPart::Chars("foo".into())])]);
    assert_eq!(parser::command(input), Ok(expected));

    let input = "foo bar";
    let expected = Command::Simple(vec![
        Arguments::Arg(vec![StrPart::Chars("foo".into())]),
        Arguments::Arg(vec![StrPart::Chars("bar".into())]),
    ]);
    assert_eq!(parser::command(input), Ok(expected));

    let input = "foo @xxx";
    let expected = Command::Simple(vec![
        Arguments::Arg(vec![StrPart::Chars("foo".into())]),
        Arguments::AtExpansion(vec![StrPart::Chars("xxx".into())]),
    ]);
    assert_eq!(parser::command(input), Ok(expected));

    let input = "foo arg1 @args";
    let expected = Command::Simple(vec![
        Arguments::Arg(vec![StrPart::Chars("foo".into())]),
        Arguments::Arg(vec![StrPart::Chars("arg1".into())]),
        Arguments::AtExpansion(vec![StrPart::Chars("args".into())]),
    ]);
    assert_eq!(parser::command(input), Ok(expected));
}

#[test]
fn parse_subshell() {
    let input = "(foo)";
    let expected = Command::SubShell(
        List {
            first: Pipeline::Single(Command::Simple(vec![Arguments::Arg(vec![
                StrPart::Chars("foo".into()),
            ])])),
            following: Vec::new(),
        }
        .into(),
    );
    assert_eq!(parser::command(input), Ok(expected));

    let input = "(foo bar)";
    let expected = Command::SubShell(
        List {
            first: Pipeline::Single(Command::Simple(vec![
                Arguments::Arg(vec![StrPart::Chars("foo".into())]),
                Arguments::Arg(vec![StrPart::Chars("bar".into())]),
            ])),
            following: Vec::new(),
        }
        .into(),
    );
    assert_eq!(parser::command(input), Ok(expected));
}

#[test]
fn parse_pipeline() {
    let input = "foo | bar";
    let expected = Pipeline::Connected {
        pipe: Pipe::Stdout,
        lhs: Pipeline::Single(Command::Simple(vec![Arguments::Arg(vec![StrPart::Chars(
            "foo".into(),
        )])]))
        .into(),
        rhs: Pipeline::Single(Command::Simple(vec![Arguments::Arg(vec![StrPart::Chars(
            "bar".into(),
        )])]))
        .into(),
    };
    assert_eq!(parser::pipeline(input), Ok(expected));

    let input = "foo |! bar";
    let expected = Pipeline::Connected {
        pipe: Pipe::Stderr,
        lhs: Pipeline::Single(Command::Simple(vec![Arguments::Arg(vec![StrPart::Chars(
            "foo".into(),
        )])]))
        .into(),
        rhs: Pipeline::Single(Command::Simple(vec![Arguments::Arg(vec![StrPart::Chars(
            "bar".into(),
        )])]))
        .into(),
    };
    assert_eq!(parser::pipeline(input), Ok(expected));

    let input = "foo |& bar";
    let expected = Pipeline::Connected {
        pipe: Pipe::Both,
        lhs: Pipeline::Single(Command::Simple(vec![Arguments::Arg(vec![StrPart::Chars(
            "foo".into(),
        )])]))
        .into(),
        rhs: Pipeline::Single(Command::Simple(vec![Arguments::Arg(vec![StrPart::Chars(
            "bar".into(),
        )])]))
        .into(),
    };
    assert_eq!(parser::pipeline(input), Ok(expected));
}

#[test]
fn parse_list() {
    let input = "foo ; bar";
    let expected = Box::new(List {
        first: Pipeline::Single(Command::Simple(vec![Arguments::Arg(vec![StrPart::Chars(
            "foo".into(),
        )])])),
        following: vec![(
            Condition::Always,
            Pipeline::Single(Command::Simple(vec![Arguments::Arg(vec![StrPart::Chars(
                "bar".into(),
            )])])),
        )],
    });
    assert_eq!(parser::list(input), Ok(expected));

    let input = "foo && bar";
    let expected = Box::new(List {
        first: Pipeline::Single(Command::Simple(vec![Arguments::Arg(vec![StrPart::Chars(
            "foo".into(),
        )])])),
        following: vec![(
            Condition::IfSuccess,
            Pipeline::Single(Command::Simple(vec![Arguments::Arg(vec![StrPart::Chars(
                "bar".into(),
            )])])),
        )],
    });
    assert_eq!(parser::list(input), Ok(expected));

    let input = "foo || bar";
    let expected = Box::new(List {
        first: Pipeline::Single(Command::Simple(vec![Arguments::Arg(vec![StrPart::Chars(
            "foo".into(),
        )])])),
        following: vec![(
            Condition::IfError,
            Pipeline::Single(Command::Simple(vec![Arguments::Arg(vec![StrPart::Chars(
                "bar".into(),
            )])])),
        )],
    });
    assert_eq!(parser::list(input), Ok(expected));
}

#[test]
fn parse_str_single_quote() {
    let input = r#"'foo bar'"#;
    let expected = vec![StrPart::Chars("foo bar".into())];
    assert_eq!(parser::string(input), Ok(expected));

    let input = r#"'\''"#;
    let expected = vec![StrPart::Chars("'".into())];
    assert_eq!(parser::string(input), Ok(expected));

    let input = r#"'\\'"#;
    let expected = vec![StrPart::Chars("\\".into())];
    assert_eq!(parser::string(input), Ok(expected));

    let input = r#"'"!@#$%^&*()_+-='"#;
    let expected = vec![StrPart::Chars("\"!@#$%^&*()_+-=".into())];
    assert_eq!(parser::string(input), Ok(expected));
}

#[test]
fn parse_str_double_quote() {
    let input = r#""foo bar""#;
    let expected = vec![StrPart::Chars(r#"foo bar"#.into())];
    assert_eq!(parser::string(input), Ok(expected));

    let input = r#""'""#;
    let expected = vec![StrPart::Chars(r#"'"#.into())];
    assert_eq!(parser::string(input), Ok(expected));

    let input = r#""\"""#;
    let expected = vec![StrPart::Chars(r#"""#.into())];
    assert_eq!(parser::string(input), Ok(expected));

    let input = r#""\\""#;
    let expected = vec![StrPart::Chars(r#"\"#.into())];
    assert_eq!(parser::string(input), Ok(expected));

    let input = r#""\$""#;
    let expected = vec![StrPart::Chars(r#"$"#.into())];
    assert_eq!(parser::string(input), Ok(expected));

    let input = r#""!@#%^&*()_+-=""#;
    let expected = vec![StrPart::Chars(r#"!@#%^&*()_+-="#.into())];
    assert_eq!(parser::string(input), Ok(expected));
}

#[test]
fn parse_str_raw() {
    let input = r#"foo"#;
    let expected = vec![StrPart::Chars(r#"foo"#.into())];
    assert_eq!(parser::string(input), Ok(expected));

    let input = r#"foo\ bar"#;
    let expected = vec![StrPart::Chars(r#"foo bar"#.into())];
    assert_eq!(parser::string(input), Ok(expected));

    let input = r#"\'"#;
    let expected = vec![StrPart::Chars(r#"'"#.into())];
    assert_eq!(parser::string(input), Ok(expected));

    let input = r#"\""#;
    let expected = vec![StrPart::Chars(r#"""#.into())];
    assert_eq!(parser::string(input), Ok(expected));

    let input = r#"\\"#;
    let expected = vec![StrPart::Chars(r#"\"#.into())];
    assert_eq!(parser::string(input), Ok(expected));

    let input = r#"\$"#;
    let expected = vec![StrPart::Chars(r#"$"#.into())];
    assert_eq!(parser::string(input), Ok(expected));

    let input = r#"="#;
    let expected = vec![StrPart::Chars(r#"="#.into())];
    assert_eq!(parser::string(input), Ok(expected));

    let input = r#"\=\(\)"#;
    let expected = vec![StrPart::Chars(r#"=()"#.into())];
    assert_eq!(parser::string(input), Ok(expected));
}

#[test]
fn parse_variable() {
    let input = r#"$xxx"#;
    let expected = Expansion::Variable { name: "xxx".into() };
    assert_eq!(parser::expansion(input), Ok(expected));
}

#[test]
fn parse_subst() {
    let input = r#"$(foo)"#;
    let expected = Expansion::SubstStdout(
        List {
            first: Pipeline::Single(Command::Simple(vec![Arguments::Arg(vec![
                StrPart::Chars("foo".into()),
            ])])),
            following: Vec::new(),
        }
        .into(),
    );
    assert_eq!(parser::expansion(input), Ok(expected));

    let input = r#"$!(foo)"#;
    let expected = Expansion::SubstStderr(
        List {
            first: Pipeline::Single(Command::Simple(vec![Arguments::Arg(vec![
                StrPart::Chars("foo".into()),
            ])])),
            following: Vec::new(),
        }
        .into(),
    );
    assert_eq!(parser::expansion(input), Ok(expected));

    let input = r#"$&(foo)"#;
    let expected = Expansion::SubstBoth(
        List {
            first: Pipeline::Single(Command::Simple(vec![Arguments::Arg(vec![
                StrPart::Chars("foo".into()),
            ])])),
            following: Vec::new(),
        }
        .into(),
    );
    assert_eq!(parser::expansion(input), Ok(expected));

    let input = r#"=(foo)"#;
    let expected = Expansion::SubstPipeName(
        List {
            first: Pipeline::Single(Command::Simple(vec![Arguments::Arg(vec![
                StrPart::Chars("foo".into()),
            ])])),
            following: Vec::new(),
        }
        .into(),
    );
    assert_eq!(parser::expansion(input), Ok(expected));

    let input = r#"?(foo)"#;
    let expected = Expansion::SubstStatus(
        List {
            first: Pipeline::Single(Command::Simple(vec![Arguments::Arg(vec![
                StrPart::Chars("foo".into()),
            ])])),
            following: Vec::new(),
        }
        .into(),
    );
    assert_eq!(parser::expansion(input), Ok(expected));
}

#[test]
fn parse_toplevel() {
    let input = r#"(foo)"#;

    let expected = Box::new(List {
        first: Pipeline::Single(Command::SubShell(
            List {
                first: Pipeline::Single(Command::Simple(vec![Arguments::Arg(vec![
                    StrPart::Chars("foo".into()),
                ])])),
                following: Vec::new(),
            }
            .into(),
        )),
        following: Vec::new(),
    });
    assert_eq!(parser::toplevel(input), Ok(expected));

    let input = r#"a "xxx_$(b |!> err)_yyy" \$zzz $zzz ; (baz)"#;

    let expected = Box::new(List {
        first: Pipeline::Single(Command::Simple(vec![
            Arguments::Arg(vec![StrPart::Chars("a".into())]),
            Arguments::Arg(vec![
                StrPart::Chars("xxx_".into()),
                StrPart::Expansion(Expansion::SubstStdout(
                    List {
                        first: Pipeline::Connected {
                            pipe: Pipe::Stderr,
                            lhs: Pipeline::Single(Command::Simple(vec![Arguments::Arg(vec![
                                StrPart::Chars("b".into()),
                            ])]))
                            .into(),
                            rhs: Pipeline::Single(Command::Simple(vec![
                                Arguments::Arg(vec![StrPart::Chars(">".into())]),
                                Arguments::Arg(vec![StrPart::Chars("err".into())]),
                            ]))
                            .into(),
                        },
                        following: Vec::new(),
                    }
                    .into(),
                )),
                StrPart::Chars("_yyy".into()),
            ]),
            Arguments::Arg(vec![StrPart::Chars("$zzz".into())]),
            Arguments::Arg(vec![StrPart::Expansion(Expansion::Variable {
                name: "zzz".into(),
            })]),
        ])),
        following: vec![(
            Condition::Always,
            Pipeline::Single(Command::SubShell(
                List {
                    first: Pipeline::Single(Command::Simple(vec![Arguments::Arg(vec![
                        StrPart::Chars("baz".into()),
                    ])])),
                    following: Vec::new(),
                }
                .into(),
            )),
        )],
    });
    assert_eq!(parser::toplevel(input), Ok(expected));
}

#[test]
fn parse_failure_positions() {
    assert_eq!(parser::toplevel(""), Err(ParseError { position: 0 }));
    assert_eq!(parser::toplevel("foo )"), Err(ParseError { position: 4 }));
    assert_eq!(parser::toplevel("foo ; "), Err(ParseError { position: 4 }));
    assert_eq!(parser::string("'open"), Err(ParseError { position: 0 }));
    assert_eq!(parser::string("a b"), Err(ParseError { position: 1 }));
    assert_eq!(parser::expansion("$"), Err(ParseError { position: 0 }));
    assert_eq!(parser::expansion("$(foo"), Err(ParseError { position: 0 }));
}

#[test]
fn parse_braced_pipeline() {
    let foo = || Pipeline::Single(Command::Simple(vec![Arguments::Arg(vec![StrPart::Chars(
        "foo".into(),
    )])]));
    let bar = || Pipeline::Single(Command::Simple(vec![Arguments::Arg(vec![StrPart::Chars(
        "bar".into(),
    )])]));
    assert_eq!(parser::pipeline("{foo}"), Ok(foo()));
    assert_eq!(
        parser::pipeline("{foo|bar}|!bar"),
        Ok(Pipeline::Connected {
            pipe: Pipe::Stderr,
            lhs: Pipeline::Connected { pipe: Pipe::Stdout, lhs: foo().into(), rhs: bar().into() }
                .into(),
            rhs: bar().into(),
        })
    );
    // a pipe associates to the right
    assert_eq!(
        parser::pipeline("foo | bar |& foo"),
        Ok(Pipeline::Connected {
            pipe: Pipe::Stdout,
            lhs: foo().into(),
            rhs: Pipeline::Connected { pipe: Pipe::Both, lhs: bar().into(), rhs: foo().into() }
                .into(),
        })
    );
}

#[test]
fn parse_variable_forms() {
    assert_eq!(
        parser::expansion("${x_1}"),
        Ok(Expansion::Variable { name: "x_1".into() })
    );
    assert_eq!(parser::expansion("$_a9"), Ok(Expansion::Variable { name: "_a9".into() }));
    assert!(parser::expansion("$9a").is_err());
    assert!(parser::expansion("${x").is_err());
    assert_eq!(
        parser::string("a$b.c"),
        Ok(vec![
            StrPart::Chars("a".into()),
            StrPart::Expansion(Expansion::Variable { name: "b".into() }),
            StrPart::Chars(".c".into()),
        ])
    );
    assert_eq!(
        parser::string("\"x${y}z\""),
        Ok(vec![
            StrPart::Chars("x".into()),
            StrPart::Expansion(Expansion::Variable { name: "y".into() }),
            StrPart::Chars("z".into()),
        ])
    );
}

#[test]
fn parse_raw_special_characters() {
    assert_eq!(parser::string("*.rs"), Ok(vec![StrPart::Chars("*.rs".into())]));
    assert_eq!(parser::string("\\*"), Ok(vec![StrPart::Chars("*".into())]));
    assert_eq!(parser::string("a=b"), Ok(vec![StrPart::Chars("a=b".into())]));
    assert_eq!(parser::string("a?"), Ok(vec![StrPart::Chars("a?".into())]));
    assert!(parser::string("a=(").is_err());
    assert!(parser::string("a{b").is_err());
    assert!(parser::string("\\a").is_err());
    assert_eq!(parser::string("\"\""), Ok(vec![]));
    assert_eq!(parser::string("''"), Ok(vec![StrPart::Chars("".into())]));
}

#[test]
fn parse_list_mixed_conditions() {
    let word = |w: &str| {
        Pipeline::Single(Command::Simple(vec![Arguments::Arg(vec![StrPart::Chars(w.into())])]))
    };
    assert_eq!(
        parser::list("a&&b||c;d"),
        Ok(Box::new(List {
            first: word("a"),
            following: vec![
                (Condition::IfSuccess, word("b")),
                (Condition::IfError, word("c")),
                (Condition::Always, word("d")),
            ],
        }))
    );
}
