use myshell::ast::{
    Arguments, Command, Condition, Expansion, List, Pipe, Pipeline, StrPart,
};
use myshell::parser;
use myshell::render::{reads_back, render};

fn word(text: &str) -> Arguments {
    Arguments::Arg(vec![StrPart::Chars(text.into())])
}

fn simple(words: &[&str]) -> Pipeline {
    Pipeline::Single(Command::Simple(words.iter().map(|w| word(w)).collect()))
}

fn single(first: Pipeline) -> List {
    List { first, following: vec![] }
}

fn reread(l: &List) -> List {
    *parser::list(&render(l)).expect("the text is read")
}

#[test]
fn render_simple_command() {
    let l = single(simple(&["echo", "foo bar"]));
    assert_eq!(render(&l), "'echo' 'foo bar' ");
    assert!(reads_back(&l));
    assert_eq!(reread(&l), l);
}

#[test]
fn render_escapes_quotes_and_backslashes() {
    let l = single(simple(&["it's", "a\\b", ""]));
    assert_eq!(render(&l), "'it\\'s' 'a\\\\b' '' ");
    assert!(reads_back(&l));
    assert_eq!(reread(&l), l);
}

#[test]
fn render_list_with_conditions() {
    let l = List {
        first: simple(&["a"]),
        following: vec![
            (Condition::IfSuccess, simple(&["b"])),
            (Condition::IfError, simple(&["c"])),
            (Condition::Always, simple(&["d"])),
        ],
    };
    assert_eq!(render(&l), "'a' &&'b' ||'c' ;'d' ");
    assert!(reads_back(&l));
    assert_eq!(reread(&l), l);
}

#[test]
fn render_connected_pipelines() {
    let inner = Pipeline::Connected {
        pipe: Pipe::Stderr,
        lhs: Box::new(simple(&["a"])),
        rhs: Box::new(simple(&["b"])),
    };
    let l = single(Pipeline::Connected {
        pipe: Pipe::Both,
        lhs: Box::new(inner),
        rhs: Box::new(Pipeline::Connected {
            pipe: Pipe::Stdout,
            lhs: Box::new(simple(&["c"])),
            rhs: Box::new(simple(&["d"])),
        }),
    });
    assert_eq!(render(&l), "{{'a' }|!'b' }|&{'c' }|'d' ");
    assert!(reads_back(&l));
    assert_eq!(reread(&l), l);
}

#[test]
fn render_subshell() {
    let l = single(Pipeline::Single(Command::SubShell(Box::new(List {
        first: simple(&["a"]),
        following: vec![(Condition::Always, simple(&["b"]))],
    }))));
    assert_eq!(render(&l), "('a' ;'b' )");
    assert!(reads_back(&l));
    assert_eq!(reread(&l), l);
}

#[test]
fn render_each_expansion() {
    let inner = || Box::new(single(simple(&["ls"])));
    let args = vec![
        Arguments::Arg(vec![StrPart::Expansion(Expansion::Variable { name: "HOME".into() })]),
        Arguments::Arg(vec![StrPart::Expansion(Expansion::SubstStdout(inner()))]),
        Arguments::Arg(vec![StrPart::Expansion(Expansion::SubstStderr(inner()))]),
        Arguments::Arg(vec![StrPart::Expansion(Expansion::SubstBoth(inner()))]),
        Arguments::Arg(vec![StrPart::Expansion(Expansion::SubstPipeName(inner()))]),
        Arguments::AtExpansion(vec![StrPart::Expansion(Expansion::SubstStatus(inner()))]),
    ];
    let l = single(Pipeline::Single(Command::Simple(args)));
    assert_eq!(
        render(&l),
        "\"${HOME}\" \"$('ls' )\" \"$!('ls' )\" \"$&('ls' )\" \"=('ls' )\" @\"?('ls' )\" "
    );
    assert!(reads_back(&l));
    assert_eq!(reread(&l), l);
}

#[test]
fn render_string_of_several_parts() {
    let parts = vec![
        StrPart::Chars("a\"b$c\\".into()),
        StrPart::Expansion(Expansion::Variable { name: "x_1".into() }),
        StrPart::Expansion(Expansion::SubstPipeName(Box::new(single(simple(&["ls"]))))),
        StrPart::Chars("=".into()),
    ];
    let l = single(Pipeline::Single(Command::Simple(vec![Arguments::Arg(parts)])));
    assert_eq!(render(&l), "\"a\\\"b\\$c\\\\${x_1}=('ls' )=\" ");
    assert!(reads_back(&l));
    assert_eq!(reread(&l), l);
}

#[test]
fn render_empty_string() {
    let l = single(Pipeline::Single(Command::Simple(vec![Arguments::Arg(vec![])])));
    assert_eq!(render(&l), "\"\" ");
    assert!(reads_back(&l));
    assert_eq!(reread(&l), l);
}

#[test]
fn parsed_lines_are_read_back() {
    for line in [
        "echo foo bar",
        "false && echo x ; echo y",
        "ls -l | grep foo |& wc -l",
        "echo $HOME/bin \"a $(ls) b\" 'x y'",
        "(cd /tmp; ls) || echo no",
        "var X = hello",
        "echo @$(ls) a=b",
    ] {
        let tree = parser::toplevel(line).expect("the line is read");
        assert!(reads_back(&tree), "{}", line);
        assert_eq!(reread(&tree), *tree, "{}", line);
    }
}

#[test]
fn command_without_arguments_is_not_read_back() {
    let l = single(Pipeline::Single(Command::Simple(vec![])));
    assert!(!reads_back(&l));
    assert_eq!(render(&l), "");
    assert!(parser::list(&render(&l)).is_err());
}

#[test]
fn adjacent_texts_are_not_read_back() {
    let parts = vec![StrPart::Chars("a".into()), StrPart::Chars("b".into())];
    let l = single(Pipeline::Single(Command::Simple(vec![Arguments::Arg(parts)])));
    assert!(!reads_back(&l));
    assert_eq!(render(&l), "\"ab\" ");
    assert_ne!(reread(&l), l);
}

#[test]
fn text_before_a_substitution_without_dollar_is_not_read_back() {
    let parts = vec![
        StrPart::Chars("a".into()),
        StrPart::Expansion(Expansion::SubstStatus(Box::new(single(simple(&["ls"]))))),
    ];
    let l = single(Pipeline::Single(Command::Simple(vec![Arguments::Arg(parts)])));
    assert!(!reads_back(&l));
    assert_ne!(reread(&l), l);
}

#[test]
fn bad_names_and_texts_are_not_read_back() {
    let named = |name: &str| {
        single(Pipeline::Single(Command::Simple(vec![Arguments::Arg(vec![
            StrPart::Expansion(Expansion::Variable { name: name.into() }),
        ])])))
    };
    assert!(reads_back(&named("_a1")));
    assert!(!reads_back(&named("")));
    assert!(!reads_back(&named("1a")));
    assert!(!reads_back(&named("a-b")));

    let texts = |first: &str| {
        single(Pipeline::Single(Command::Simple(vec![Arguments::Arg(vec![
            StrPart::Chars(first.into()),
            StrPart::Expansion(Expansion::Variable { name: "x".into() }),
        ])])))
    };
    assert!(reads_back(&texts("=")));
    assert!(reads_back(&texts("=a")));
    assert!(!reads_back(&texts("")));
    assert!(!reads_back(&texts("=(")));
    assert!(!reads_back(&texts("?(a")));
}
