use word_lexer::token::{Construct, Index, Unterminated, WordToken};
use word_lexer::words::WordIterator;

fn compare(input: &str, expected: Vec<WordToken>) {
    let mut correct = 0;
    let mut lexer = WordIterator::new(input);
    for expected in expected.iter() {
        match lexer.next() {
            Some(Ok(actual)) => {
                assert_eq!(actual, *expected, "{:?} != {:?}", actual, expected);
                correct += 1;
            }
            _ => break,
        }
    }
    assert_eq!(expected.len(), correct);
}

fn lex(input: &str) -> Result<Vec<WordToken<'_>>, Unterminated> {
    let mut lexer = WordIterator::new(input);
    let mut tokens = Vec::new();
    loop {
        match lexer.next() {
            None => return Ok(tokens),
            Some(Ok(token)) => tokens.push(token),
            Some(Err(e)) => return Err(e),
        }
    }
}

fn raw(token: &WordToken) -> String {
    match token {
        WordToken::Normal(text) | WordToken::Whitespace(text) | WordToken::Tilde(text) => {
            text.to_string()
        }
        WordToken::Brace(parts) => format!("{{{}}}", parts.join(",")),
        WordToken::Variable(name, _) => format!("${}", name),
        WordToken::ArrayVariable(name, _, _) => format!("@{}", name),
        WordToken::Process(body, _) => format!("$({})", body),
        WordToken::ArrayProcess(body, _, _) => format!("@[{}]", body),
    }
}

#[test]
fn words_process_recursion() {
    let input = "echo $(echo $(echo one)) $(echo one $(echo two) three)";
    let expected = vec![
        WordToken::Normal("echo"),
        WordToken::Whitespace(" "),
        WordToken::Process("echo $(echo one)", false),
        WordToken::Whitespace(" "),
        WordToken::Process("echo one $(echo two) three", false),
    ];
    compare(input, expected);
}

#[test]
fn words_process_with_quotes() {
    let input = "echo $(git branch | rg '[*]' | awk '{print $2}')";
    let expected = vec![
        WordToken::Normal("echo"),
        WordToken::Whitespace(" "),
        WordToken::Process("git branch | rg '[*]' | awk '{print $2}'", false),
    ];
    compare(input, expected);

    let input = "echo $(git branch | rg \"[*]\" | awk '{print $2}')";
    let expected = vec![
        WordToken::Normal("echo"),
        WordToken::Whitespace(" "),
        WordToken::Process("git branch | rg \"[*]\" | awk '{print $2}'", false),
    ];
    compare(input, expected);
}

#[test]
fn test_words() {
    let input = "echo $ABC \"${ABC}\" one{$ABC,$ABC} ~ $(echo foo) \"$(seq 1 100)\"";
    let expected = vec![
        WordToken::Normal("echo"),
        WordToken::Whitespace(" "),
        WordToken::Variable("ABC", false),
        WordToken::Whitespace(" "),
        WordToken::Variable("ABC", true),
        WordToken::Whitespace(" "),
        WordToken::Normal("one"),
        WordToken::Brace(vec!["$ABC", "$ABC"]),
        WordToken::Whitespace(" "),
        WordToken::Tilde("~"),
        WordToken::Whitespace(" "),
        WordToken::Process("echo foo", false),
        WordToken::Whitespace(" "),
        WordToken::Process("seq 1 100", true),
    ];
    compare(input, expected);
}

#[test]
fn full_line_has_no_further_tokens() {
    let input = "echo $ABC \"${ABC}\" one{$ABC,$ABC} ~ $(echo foo) \"$(seq 1 100)\"";
    let tokens = lex(input).unwrap();
    assert_eq!(tokens.len(), 14);
    assert_eq!(tokens[13], WordToken::Process("seq 1 100", true));
}

#[test]
fn empty_line_ends_at_once() {
    let mut lexer = WordIterator::new("");
    assert_eq!(lexer.next(), None);
    assert_eq!(lexer.next(), None);
}

#[test]
fn single_quotes_suppress_variable() {
    assert_eq!(lex("'$A'"), Ok(vec![WordToken::Normal("$A")]));
}

#[test]
fn double_quotes_pass_variable() {
    assert_eq!(lex("\"$A\""), Ok(vec![WordToken::Variable("A", true)]));
}

#[test]
fn nested_substitution_is_one_token() {
    assert_eq!(
        lex("echo $(echo $(echo one))"),
        Ok(vec![
            WordToken::Normal("echo"),
            WordToken::Whitespace(" "),
            WordToken::Process("echo $(echo one)", false),
        ])
    );
}

#[test]
fn sibling_substitution_is_one_token() {
    assert_eq!(
        lex("echo $(echo one $(echo two) three)"),
        Ok(vec![
            WordToken::Normal("echo"),
            WordToken::Whitespace(" "),
            WordToken::Process("echo one $(echo two) three", false),
        ])
    );
}

#[test]
fn quotes_inside_substitution_do_not_leak() {
    assert_eq!(
        lex("echo $(git branch | rg '[*]' | awk '{print $2}') x"),
        Ok(vec![
            WordToken::Normal("echo"),
            WordToken::Whitespace(" "),
            WordToken::Process("git branch | rg '[*]' | awk '{print $2}'", false),
            WordToken::Whitespace(" "),
            WordToken::Normal("x"),
        ])
    );
    // A double quote left open in the body does not quote what follows.
    assert_eq!(
        lex("$(a \"b) c"),
        Ok(vec![
            WordToken::Process("a \"b", false),
            WordToken::Whitespace(" "),
            WordToken::Normal("c"),
        ])
    );
}

#[test]
fn closer_inside_single_quotes_is_text() {
    assert_eq!(lex("$(echo ')')"), Ok(vec![WordToken::Process("echo ')'", false)]));
    assert_eq!(lex("$(echo \\))"), Ok(vec![WordToken::Process("echo \\)", false)]));
}

#[test]
fn brace_elements_stay_literal() {
    assert_eq!(
        lex("one{$ABC,$ABC}"),
        Ok(vec![WordToken::Normal("one"), WordToken::Brace(vec!["$ABC", "$ABC"])])
    );
}

#[test]
fn brace_group_edge_cases() {
    assert_eq!(lex("{a}"), Ok(vec![WordToken::Brace(vec!["a"])]));
    assert_eq!(lex("{}"), Ok(vec![WordToken::Brace(vec![""])]));
    assert_eq!(
        lex("{a,{b,c},d}"),
        Ok(vec![WordToken::Brace(vec!["a", "{b,c}", "d"])])
    );
    assert_eq!(
        lex("{a\\,b,'c,d',\"e,f\"}"),
        Ok(vec![WordToken::Brace(vec!["a\\,b", "'c,d'", "\"e,f\""])])
    );
}

#[test]
fn tilde_stops_at_space() {
    assert_eq!(lex("~ "), Ok(vec![WordToken::Tilde("~"), WordToken::Whitespace(" ")]));
}

#[test]
fn tilde_takes_path_bytes() {
    assert_eq!(
        lex("~user/a-b.c_d$X"),
        Ok(vec![WordToken::Tilde("~user/a-b.c_d"), WordToken::Variable("X", false)])
    );
    assert_eq!(lex("~+x"), Ok(vec![WordToken::Tilde("~"), WordToken::Normal("+x")]));
}

#[test]
fn whitespace_is_a_maximal_run() {
    assert_eq!(
        lex("a   b"),
        Ok(vec![
            WordToken::Normal("a"),
            WordToken::Whitespace("   "),
            WordToken::Normal("b"),
        ])
    );
    assert_eq!(lex("  "), Ok(vec![WordToken::Whitespace("  ")]));
}

#[test]
fn variable_name_is_letters_digits_underscore() {
    assert_eq!(
        lex("$a_B9/x"),
        Ok(vec![WordToken::Variable("a_B9", false), WordToken::Normal("/x")])
    );
    assert_eq!(
        lex("$A.b"),
        Ok(vec![WordToken::Variable("A", false), WordToken::Normal(".b")])
    );
    assert_eq!(
        lex("$ x"),
        Ok(vec![
            WordToken::Variable("", false),
            WordToken::Whitespace(" "),
            WordToken::Normal("x"),
        ])
    );
    assert_eq!(lex("$HOME"), Ok(vec![WordToken::Variable("HOME", false)]));
    assert_eq!(lex("$"), Ok(vec![WordToken::Variable("", false)]));
}

#[test]
fn text_beyond_ascii_is_cut_between_characters() {
    assert_eq!(
        lex("$a\u{e9} \u{e9}t\u{e9}~\u{4e2d}"),
        Ok(vec![
            WordToken::Variable("a", false),
            WordToken::Normal("\u{e9}"),
            WordToken::Whitespace(" "),
            WordToken::Normal("\u{e9}t\u{e9}~\u{4e2d}"),
        ])
    );
    assert_eq!(
        lex("~\u{e9}{\u{4e2d},\u{e9}}$(\u{e9})"),
        Ok(vec![
            WordToken::Tilde("~"),
            WordToken::Normal("\u{e9}"),
            WordToken::Brace(vec!["\u{4e2d}", "\u{e9}"]),
            WordToken::Process("\u{e9}", false),
        ])
    );
}

#[test]
fn array_variable_selects_all() {
    assert_eq!(
        lex("@arr x"),
        Ok(vec![
            WordToken::ArrayVariable("arr", false, Index::All),
            WordToken::Whitespace(" "),
            WordToken::Normal("x"),
        ])
    );
    assert_eq!(lex("\"@arr\""), Ok(vec![WordToken::ArrayVariable("arr", true, Index::All)]));
}

#[test]
fn array_process_nests() {
    assert_eq!(
        lex("@[echo @[a] b] \"@[c]\""),
        Ok(vec![
            WordToken::ArrayProcess("echo @[a] b", false, Index::All),
            WordToken::Whitespace(" "),
            WordToken::ArrayProcess("c", true, Index::All),
        ])
    );
    // A process closer does not close an array process, nor the reverse.
    assert_eq!(lex("@[a)]"), Ok(vec![WordToken::ArrayProcess("a)", false, Index::All)]));
    assert_eq!(lex("$(a])"), Ok(vec![WordToken::Process("a]", false)]));
}

#[test]
fn braced_variable_reads_to_unescaped_brace() {
    assert_eq!(lex("${ABC}"), Ok(vec![WordToken::Variable("ABC", false)]));
    assert_eq!(lex("${a\\}b}"), Ok(vec![WordToken::Variable("a\\}b", false)]));
    assert_eq!(
        lex("${a b}c"),
        Ok(vec![WordToken::Variable("a b", false), WordToken::Normal("c")])
    );
}

#[test]
fn plain_text_honours_quotes_and_escapes() {
    assert_eq!(lex("\"a b\""), Ok(vec![WordToken::Normal("a b")]));
    assert_eq!(lex("'a\"b'"), Ok(vec![WordToken::Normal("a\"b")]));
    assert_eq!(lex("a\\ b"), Ok(vec![WordToken::Normal("a\\ b")]));
    assert_eq!(lex("\\$A"), Ok(vec![WordToken::Normal("\\$A")]));
    assert_eq!(
        lex("ab'cd'"),
        Ok(vec![WordToken::Normal("ab"), WordToken::Normal("cd")])
    );
    assert_eq!(
        lex("a{b}"),
        Ok(vec![WordToken::Normal("a"), WordToken::Brace(vec!["b"])])
    );
    assert_eq!(
        lex("a@b"),
        Ok(vec![WordToken::Normal("a"), WordToken::ArrayVariable("b", false, Index::All)])
    );
    assert_eq!(lex("\"~ {\""), Ok(vec![WordToken::Normal("~ {")]));
    assert_eq!(lex("\"\""), Ok(vec![]));
}

#[test]
fn unterminated_process_fails() {
    assert_eq!(lex("echo $(echo foo"), Err(Unterminated { kind: Construct::Process, start: 5 }));
    assert_eq!(lex("$(a $(b)"), Err(Unterminated { kind: Construct::Process, start: 0 }));
    assert_eq!(lex("$(a ')"), Err(Unterminated { kind: Construct::Process, start: 0 }));
    assert_eq!(lex("$("), Err(Unterminated { kind: Construct::Process, start: 0 }));
}

#[test]
fn unterminated_array_process_fails() {
    assert_eq!(lex("a @[b"), Err(Unterminated { kind: Construct::ArrayProcess, start: 2 }));
}

#[test]
fn unterminated_braced_variable_fails() {
    assert_eq!(lex("x${ABC"), Err(Unterminated { kind: Construct::BracedVariable, start: 1 }));
    assert_eq!(lex("${A\\}"), Err(Unterminated { kind: Construct::BracedVariable, start: 0 }));
}

#[test]
fn unterminated_brace_fails() {
    assert_eq!(lex("one{a,b"), Err(Unterminated { kind: Construct::Brace, start: 3 }));
    assert_eq!(lex("{a,{b}"), Err(Unterminated { kind: Construct::Brace, start: 0 }));
}

#[test]
fn fault_consumes_the_line() {
    let mut lexer = WordIterator::new("a $(b");
    assert_eq!(lexer.next(), Some(Ok(WordToken::Normal("a"))));
    assert_eq!(lexer.next(), Some(Ok(WordToken::Whitespace(" "))));
    assert_eq!(lexer.next(), Some(Err(Unterminated { kind: Construct::Process, start: 2 })));
    assert_eq!(lexer.next(), None);
}

#[test]
fn spans_rebuild_the_line() {
    let input = "echo $ABC ${DEF} one{$ABC,x} ~a/b @arr $(echo $(x) foo) @[seq 1 2]  end";
    let tokens = lex(input).unwrap();
    let mut rebuilt = String::new();
    for token in tokens.iter() {
        if *token == WordToken::Variable("DEF", false) {
            rebuilt.push_str("${DEF}");
        } else {
            rebuilt.push_str(&raw(token));
        }
    }
    assert_eq!(rebuilt, input);
}

#[test]
fn lexing_twice_gives_the_same_tokens() {
    let input = "echo \"$A\" '$B' {a,b} ~ $(c $(d)) @[e] @f";
    let again = String::from(input);
    let first = lex(input);
    let second = lex(&again);
    assert!(first.is_ok());
    assert_eq!(first, second);
    assert_eq!(first.unwrap().len(), 15);
}
