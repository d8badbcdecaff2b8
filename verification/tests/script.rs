use sopipe::argument::Argument;
use sopipe::lexer::{tokenize, CompileError, Token};
use sopipe::script::{compile, NodePlan};

fn functions() -> Vec<String> {
    ["stdin", "stdout", "tcp", "echo", "xor", "tee", "balance", "drop", "deflate", "inflate"]
        .iter()
        .map(|s| s.to_string())
        .collect()
}

fn args_of(plan: &NodePlan) -> Vec<(String, String)> {
    plan.forward
        .args
        .iter()
        .map(|(name, value)| (name.clone(), format!("{:?}", value)))
        .collect()
}

#[test]
fn tokens_of_a_script() {
    let tokens = tokenize("a = tcp(2222, addr: \"::1\") => x.out !! b").unwrap();
    let shown: Vec<String> = tokens.iter().map(|t| format!("{:?}", t)).collect();
    assert_eq!(
        shown,
        vec![
            "Ident(\"a\")",
            "Assign",
            "Ident(\"tcp\")",
            "Open",
            "Int(2222)",
            "Comma",
            "Ident(\"addr\")",
            "Colon",
            "Str(\"::1\")",
            "Close",
            "Arrow",
            "Ident(\"x\")",
            "Dot",
            "Ident(\"out\")",
            "Bang",
            "Ident(\"b\")",
        ]
    );
    assert!(matches!(tokens[4], Token::Int(2222)));
}

#[test]
fn white_space_means_nothing() {
    let a = tokenize("tcp(1)=>echo").unwrap();
    let b = tokenize("  tcp ( 1 )\n\t=>\r\n echo  ").unwrap();
    assert_eq!(format!("{:?}", a), format!("{:?}", b));
    assert!(tokenize("").unwrap().is_empty());
    assert!(tokenize(" \n ").unwrap().is_empty());
}

#[test]
fn string_literals_are_taken_as_they_are() {
    let tokens = tokenize("\"a\\n=> é\"").unwrap();
    match &tokens[0] {
        Token::Str(s) => assert_eq!(s, "a\\n=> é"),
        other => panic!("unexpected: {:?}", other),
    }
    let tokens = tokenize("\"\"").unwrap();
    assert!(matches!(&tokens[0], Token::Str(s) if s.is_empty()));
}

#[test]
fn lexical_errors() {
    assert_eq!(tokenize("tcp(1) ; echo").unwrap_err(), CompileError::UnexpectedChar { at: 7 });
    assert_eq!(tokenize("a ! b").unwrap_err(), CompileError::UnexpectedChar { at: 2 });
    assert_eq!(tokenize("x(\"abc").unwrap_err(), CompileError::UnterminatedString { at: 2 });
    assert_eq!(
        tokenize("tcp(18446744073709551616)").unwrap_err(),
        CompileError::IntegerTooLarge { at: 4 }
    );
    let max = tokenize("18446744073709551615").unwrap();
    assert!(matches!(max[0], Token::Int(u64::MAX)));
    assert_eq!(tokenize("_x").unwrap_err(), CompileError::UnexpectedChar { at: 0 });
}

#[test]
fn stdin_to_stdout() {
    let plans = compile("stdin => stdout", &functions()).unwrap();
    assert_eq!(plans.len(), 2);
    assert_eq!(plans[0].forward.function, "stdin");
    assert_eq!(plans[0].outputs, vec![1]);
    assert!(plans[0].backward.is_none());
    assert_eq!(plans[1].forward.function, "stdout");
    assert!(plans[1].outputs.is_empty());
    assert_eq!(
        args_of(&plans[0]),
        vec![
            ("function_name".to_string(), "String(\"stdin\")".to_string()),
            ("outputs".to_string(), "Vec([String(\"\")])".to_string()),
        ]
    );
    assert_eq!(
        args_of(&plans[1]),
        vec![
            ("function_name".to_string(), "String(\"stdout\")".to_string()),
            ("outputs".to_string(), "Vec([])".to_string()),
        ]
    );
}

#[test]
fn tcp_to_echo() {
    let plans = compile("tcp(2222) => echo", &functions()).unwrap();
    assert_eq!(plans.len(), 2);
    assert_eq!(
        args_of(&plans[0]),
        vec![
            ("".to_string(), "Int(2222)".to_string()),
            ("function_name".to_string(), "String(\"tcp\")".to_string()),
            ("outputs".to_string(), "Vec([String(\"\")])".to_string()),
        ]
    );
    assert_eq!(plans[0].outputs, vec![1]);
    assert_eq!(plans[1].forward.function, "echo");
}

#[test]
fn arguments_positional_named_and_bare() {
    let plans = compile("tcp(\"::1\", port: 80, once)", &functions()).unwrap();
    assert_eq!(
        args_of(&plans[0]),
        vec![
            ("".to_string(), "String(\"::1\")".to_string()),
            ("port".to_string(), "Int(80)".to_string()),
            ("once".to_string(), "Nil".to_string()),
            ("function_name".to_string(), "String(\"tcp\")".to_string()),
            ("outputs".to_string(), "Vec([])".to_string()),
        ]
    );
    let plans = compile("tcp()", &functions()).unwrap();
    assert_eq!(plans[0].forward.args.len(), 2);
    assert!(matches!(plans[0].forward.args[1].1, Argument::Vec(_)));
}

#[test]
fn a_composite_has_two_calls_and_one_slot() {
    let plans = compile("tcp(1) => deflate(level: 3) !! inflate => tcp(2)", &functions()).unwrap();
    assert_eq!(plans.len(), 3);
    assert_eq!(plans[1].forward.function, "deflate");
    let backward = plans[1].backward.as_ref().unwrap();
    assert_eq!(backward.function, "inflate");
    assert_eq!(plans[1].outputs, vec![2]);
    assert_eq!(plans[0].outputs, vec![1]);
    assert_eq!(
        args_of(&plans[1]),
        vec![
            ("level".to_string(), "Int(3)".to_string()),
            ("function_name".to_string(), "String(\"deflate\")".to_string()),
            ("outputs".to_string(), "Vec([String(\"\")])".to_string()),
        ]
    );
    assert_eq!(backward.args.len(), 2);
    assert_eq!(backward.args[0].0, "function_name");
}

#[test]
fn assignment_binds_the_last_node_of_a_pipe() {
    let plans = compile("a = tcp(1) => tee  a.left => echo  a.right => drop", &functions()).unwrap();
    assert_eq!(plans.len(), 4);
    assert_eq!(plans[0].outputs, vec![1]);
    assert_eq!(plans[1].forward.function, "tee");
    assert_eq!(plans[1].outputs, vec![2, 3]);
    assert_eq!(
        args_of(&plans[1])[1],
        ("outputs".to_string(), "Vec([String(\"left\"), String(\"right\")])".to_string())
    );
}

#[test]
fn a_bound_name_stands_for_its_node() {
    let plans = compile("sink = echo  tcp(1) => sink  tcp(2) => sink", &functions()).unwrap();
    assert_eq!(plans.len(), 3);
    assert_eq!(plans[1].outputs, vec![0]);
    assert_eq!(plans[2].outputs, vec![0]);
}

#[test]
fn inline_pipes_hang_on_the_enclosing_node() {
    let plans =
        compile("tcp(1) => tee(=> echo, log => xor(key: \"k\") => drop)", &functions()).unwrap();
    assert_eq!(plans.len(), 5);
    assert_eq!(plans[1].forward.function, "tee");
    assert_eq!(plans[1].outputs, vec![2, 3]);
    assert_eq!(plans[3].outputs, vec![4]);
    assert_eq!(
        args_of(&plans[1]),
        vec![
            ("function_name".to_string(), "String(\"tee\")".to_string()),
            ("outputs".to_string(), "Vec([String(\"\"), String(\"log\")])".to_string()),
        ]
    );
}

#[test]
fn every_output_is_a_node_and_composites_have_one_output() {
    let scripts = [
        "stdin => stdout",
        "a = tcp(1) => tee a.x => echo a.y => drop",
        "tcp(1) => deflate !! inflate => xor(key: \"k\") !! xor(key: \"k\") => echo",
        "tcp(1) => balance(=> echo, => echo, => echo)",
    ];
    for script in scripts {
        let plans = compile(script, &functions()).unwrap();
        for plan in &plans {
            for output in &plan.outputs {
                assert!(*output < plans.len());
            }
            if plan.backward.is_some() {
                assert!(plan.outputs.len() <= 1);
            }
        }
    }
}

#[test]
fn semantic_errors() {
    let f = functions();
    assert_eq!(compile("bogus(1)", &f).unwrap_err(), CompileError::UndefinedIdentifier { at: 0 });
    assert_eq!(
        compile("tcp(1) => nothing", &f).unwrap_err(),
        CompileError::UndefinedIdentifier { at: 5 }
    );
    assert_eq!(
        compile("a = echo  a !! echo", &f).unwrap_err(),
        CompileError::NotAFunction { at: 3 }
    );
    assert_eq!(
        compile("a = echo  echo !! a", &f).unwrap_err(),
        CompileError::NotAFunction { at: 5 }
    );
    assert_eq!(compile("tcp.out => echo", &f).unwrap_err(), CompileError::NotANode { at: 0 });
    assert_eq!(
        compile("a = echo  a(1)", &f).unwrap_err(),
        CompileError::ArgumentsOnNode { at: 3 }
    );
    assert_eq!(
        compile("c = deflate !! inflate  c.a => echo  c.b => drop", &f).unwrap_err(),
        CompileError::CompositeFanOut { node: 0 }
    );
    assert_eq!(
        compile("tee(=> echo, => drop) !! tee", &f).unwrap_err(),
        CompileError::CompositeFanOut { node: 0 }
    );
}

#[test]
fn syntax_errors() {
    let f = functions();
    assert_eq!(compile("tcp(1) =>", &f).unwrap_err(), CompileError::UnexpectedEnd);
    assert_eq!(compile("tcp(", &f).unwrap_err(), CompileError::UnexpectedEnd);
    assert_eq!(compile("tcp(1,)", &f).unwrap_err(), CompileError::UnexpectedToken { at: 4 });
    assert_eq!(compile("tcp(1 2)", &f).unwrap_err(), CompileError::UnexpectedToken { at: 3 });
    assert_eq!(compile("=> echo", &f).unwrap_err(), CompileError::UnexpectedToken { at: 0 });
    assert_eq!(compile("tcp(port: )", &f).unwrap_err(), CompileError::UnexpectedToken { at: 4 });
    assert_eq!(compile("tcp(port: x)", &f).unwrap_err(), CompileError::UnexpectedToken { at: 4 });
    assert_eq!(compile("a = ", &f).unwrap_err(), CompileError::UnexpectedEnd);
    assert_eq!(compile("a.b echo", &f).unwrap_err(), CompileError::UnexpectedToken { at: 3 });
    assert_eq!(compile("a. => echo", &f).unwrap_err(), CompileError::UnexpectedToken { at: 2 });
    assert_eq!(compile("echo !! 5", &f).unwrap_err(), CompileError::UnexpectedToken { at: 2 });
    assert_eq!(compile("echo !!", &f).unwrap_err(), CompileError::UnexpectedEnd);
    assert_eq!(compile("\"text\"", &f).unwrap_err(), CompileError::UnexpectedToken { at: 0 });
}

#[test]
fn an_assignment_may_rebind_a_name() {
    let plans = compile("echo = tcp(1)  tcp(2) => echo", &functions()).unwrap();
    assert_eq!(plans.len(), 2);
    assert_eq!(plans[1].outputs, vec![0]);
}

#[test]
fn an_empty_script_has_no_node() {
    assert!(compile("", &functions()).unwrap().is_empty());
}
