use handlebars_grammar::error::Error;
use handlebars_grammar::lexical::{
    ends_with_empty_line, newline_matcher, starts_with_empty_line, whitespace_matcher,
};
use handlebars_grammar::parser::{parse_bytes, HandlebarsParser};
use handlebars_grammar::rule::{rule_name, Rule};
use handlebars_grammar::template::Template;
use handlebars_grammar::tree::{Node, Pair, Pairs};

fn node(rule: Rule, start: usize, end: usize, size: usize) -> Node {
    Node { rule, start, end, size }
}

fn texts(t: &Template) -> Vec<String> {
    let mut out = Vec::new();
    for (i, n) in t.nodes().iter().enumerate() {
        if n.rule == Rule::raw_text {
            out.push(String::from_utf8(t.text(i).unwrap()).unwrap());
        }
    }
    out
}

fn child(p: Pair, k: usize) -> Pair {
    p.into_inner().get(k).unwrap()
}

fn rules(p: &Pairs) -> Vec<Rule> {
    let mut out = Vec::new();
    let mut k = 0;
    while let Some(c) = p.get(k) {
        out.push(c.as_rule());
        k += 1;
    }
    out
}

#[test]
fn classifiers_tell_spaces_from_line_breaks() {
    assert!(whitespace_matcher(' '));
    assert!(whitespace_matcher('\t'));
    assert!(!whitespace_matcher('\n'));
    assert!(!whitespace_matcher('a'));
    assert!(newline_matcher('\n'));
    assert!(newline_matcher('\r'));
    assert!(!newline_matcher(' '));
}

#[test]
fn blank_line_at_the_end() {
    assert!(ends_with_empty_line("abc\n"));
    assert!(ends_with_empty_line("abc\n  \t"));
    assert!(ends_with_empty_line("abc\r"));
    assert!(ends_with_empty_line(""));
    assert!(!ends_with_empty_line("abc"));
    assert!(!ends_with_empty_line("abc\n x "));
    assert!(!ends_with_empty_line("   "));
}

#[test]
fn blank_line_at_the_start() {
    assert!(starts_with_empty_line("\nabc"));
    assert!(starts_with_empty_line(" \t\r\nabc"));
    assert!(starts_with_empty_line(""));
    assert!(!starts_with_empty_line("abc\n"));
    assert!(!starts_with_empty_line("  x\n"));
    assert!(!starts_with_empty_line("   "));
}

#[test]
fn plain_text_is_one_node() {
    let src = "<h1> hello } { world </h1>\n";
    let t = Template::compile(src).unwrap();
    assert_eq!(
        t.nodes(),
        &vec![
            node(Rule::template, 0, src.len(), 1),
            node(Rule::raw_text, 0, src.len(), 0)
        ]
    );
    assert_eq!(t.text(1).unwrap(), src.as_bytes().to_vec());
    assert_eq!(t.text(2), None);
    assert_eq!(t.source(), &src.as_bytes().to_vec());
}

#[test]
fn empty_template_has_no_text() {
    let t = Template::compile("").unwrap();
    assert_eq!(t.nodes(), &vec![node(Rule::template, 0, 0, 0)]);
}

#[test]
fn single_backslash_escapes_and_is_dropped() {
    let t = Template::compile(r"hello\{{world}}").unwrap();
    assert_eq!(
        t.nodes(),
        &vec![
            node(Rule::template, 0, 15, 2),
            node(Rule::raw_text, 0, 15, 1),
            node(Rule::escape, 5, 8, 0)
        ]
    );
    assert_eq!(texts(&t), vec!["hello{{world}}".to_string()]);
}

#[test]
fn double_backslash_does_not_escape() {
    let t = Template::compile(r"\\{{hello}}").unwrap();
    let found: Vec<Rule> = t.nodes().iter().map(|n| n.rule).collect();
    assert!(found.contains(&Rule::expression));
    assert_eq!(t.nodes()[1], node(Rule::raw_text, 0, 2, 1));
    assert_eq!(texts(&t), vec![r"\".to_string()]);
}

#[test]
fn nested_blocks_nest() {
    let src = "{{#if}}{{#if}}hello{{/if}}{{/if}}";
    let t = Template::compile(src).unwrap();
    let root = t.pairs().first().unwrap();
    assert_eq!(root.as_rule(), Rule::template);
    assert_eq!(rules(&t.pairs()), vec![Rule::template]);
    let outer = child(root, 0);
    assert_eq!(outer.as_rule(), Rule::helper_block);
    assert_eq!(outer.as_span().start(), 0);
    assert_eq!(outer.as_span().end(), src.len());
    let parts = t.pairs().first().unwrap().into_inner().first().unwrap().into_inner();
    assert_eq!(
        rules(&parts),
        vec![Rule::helper_block_start, Rule::template, Rule::helper_block_end]
    );
    let body = parts.get(1).unwrap().into_inner();
    assert_eq!(rules(&body), vec![Rule::helper_block]);
    let inner_parts = body.get(0).unwrap().into_inner();
    assert_eq!(
        rules(&inner_parts),
        vec![Rule::helper_block_start, Rule::template, Rule::helper_block_end]
    );
    let inner_body = inner_parts.get(1).unwrap().into_inner();
    assert_eq!(rules(&inner_body), vec![Rule::raw_text]);
    let text = inner_body.last().unwrap().as_span();
    assert_eq!(&src[text.start()..text.end()], "hello");
    assert_eq!(texts(&t), vec!["hello".to_string()]);
}

#[test]
fn else_branches_are_parts_of_the_block() {
    let t = Template::compile("{{#if a}}x{{else}}y{{^}}z{{/if}}").unwrap();
    let parts = t.pairs().first().unwrap().into_inner().first().unwrap().into_inner();
    assert_eq!(
        rules(&parts),
        vec![
            Rule::helper_block_start,
            Rule::template,
            Rule::invert_tag,
            Rule::template,
            Rule::invert_tag,
            Rule::template,
            Rule::helper_block_end
        ]
    );
    assert_eq!(parts.count(), 7);
}

#[test]
fn mismatched_block_names_fail() {
    match Template::compile("{{#if}}x{{/unless}}") {
        Err(Error::MismatchedBlockName { opened, closed, opened_name, closed_name }) => {
            assert_eq!(opened_name, b"if".to_vec());
            assert_eq!(closed_name, b"unless".to_vec());
            assert_eq!((opened.start(), opened.end()), (3, 5));
            assert_eq!((closed.start(), closed.end()), (11, 17));
        }
        other => panic!("{:?}", other),
    }
}

#[test]
fn first_mismatch_in_document_order_is_reported() {
    match Template::compile("{{#a}}{{#b}}{{/c}}{{/d}}") {
        Err(Error::MismatchedBlockName { opened_name, closed_name, .. }) => {
            assert_eq!(opened_name, b"a".to_vec());
            assert_eq!(closed_name, b"d".to_vec());
        }
        other => panic!("{:?}", other),
    }
    match Template::compile("{{#a}}{{#b}}{{/c}}{{/a}}") {
        Err(Error::MismatchedBlockName { opened_name, closed_name, .. }) => {
            assert_eq!(opened_name, b"b".to_vec());
            assert_eq!(closed_name, b"c".to_vec());
        }
        other => panic!("{:?}", other),
    }
}

#[test]
fn mismatched_raw_and_partial_blocks_fail() {
    assert!(matches!(
        Template::compile("{{{{raw}}}} x {{{{/war}}}}"),
        Err(Error::MismatchedBlockName { .. })
    ));
    assert!(matches!(
        Template::compile("{{#> layout}}x{{/other}}"),
        Err(Error::MismatchedBlockName { .. })
    ));
    assert!(matches!(
        Template::compile("{{#* inline \"p\"}}x{{/outline}}"),
        Err(Error::MismatchedBlockName { .. })
    ));
    assert!(Template::compile("{{#> layout}}x{{/layout}}").is_ok());
}

#[test]
fn raw_block_is_verbatim() {
    let src = "{{{{if hello}}}}{{#if nice}}{{/if}}{{{{/if}}}}";
    let t = Template::compile(src).unwrap();
    let found: Vec<Rule> = t.nodes().iter().map(|n| n.rule).collect();
    assert!(!found.contains(&Rule::helper_block));
    assert_eq!(found[1], Rule::raw_block);
    let at = found.iter().position(|r| *r == Rule::raw_block_text).unwrap();
    let body = t.nodes()[at];
    assert_eq!(&src[body.start..body.end], "{{#if nice}}{{/if}}");
    assert_eq!(t.text(at).unwrap(), b"{{#if nice}}{{/if}}".to_vec());
}

#[test]
fn path_forms_are_accepted() {
    for p in ["a", "a.b.c.d", "../a/b.[0].[1]", "@root/a/b", "[foo]", "this.[0]/[1]/this/a"] {
        let pairs = HandlebarsParser::parse(Rule::path, p).unwrap();
        assert_eq!(pairs.last().unwrap().as_span().end(), p.len());
        assert_eq!(pairs.first().unwrap().as_rule(), Rule::path_inline);
    }
    assert!(HandlebarsParser::parse(Rule::path, "a b").is_err());
    assert!(HandlebarsParser::parse(Rule::path, "").is_err());
}

#[test]
fn path_parts_are_told_apart() {
    let pairs = HandlebarsParser::parse(Rule::reference, "../../a.[b c]").unwrap();
    assert_eq!(
        pairs.nodes(),
        &vec![
            node(Rule::reference, 0, 13, 5),
            node(Rule::path_inline, 0, 13, 4),
            node(Rule::path_up, 0, 2, 0),
            node(Rule::path_up, 3, 5, 0),
            node(Rule::path_id, 6, 7, 0),
            node(Rule::path_raw_id, 9, 12, 0)
        ]
    );
}

#[test]
fn standalone_block_tags_take_their_line() {
    let t = Template::compile("a\n  {{#if x}}\n  b\n  {{/if}}\nc").unwrap();
    assert_eq!(texts(&t), vec!["a\n".to_string(), "  b\n".to_string(), "c".to_string()]);
    let spans: Vec<(usize, usize)> = t
        .nodes()
        .iter()
        .filter(|n| n.rule == Rule::raw_text)
        .map(|n| (n.start, n.end))
        .collect();
    assert_eq!(spans, vec![(0, 2), (14, 18), (28, 29)]);
}

#[test]
fn standalone_tags_at_both_ends_of_the_input() {
    let t = Template::compile("{{#if x}}\r\nb\n{{/if}}").unwrap();
    assert_eq!(texts(&t), vec!["b\n".to_string()]);
    let t = Template::compile("{{! note }}\nb").unwrap();
    assert_eq!(texts(&t), vec!["b".to_string()]);
    let t = Template::compile("x\n  {{> part}}  \ny").unwrap();
    assert_eq!(texts(&t), vec!["x\n".to_string(), "y".to_string()]);
}

#[test]
fn expressions_keep_their_line() {
    let t = Template::compile("a\n  {{exp}}\n  b").unwrap();
    assert_eq!(texts(&t), vec!["a\n  ".to_string(), "\n  b".to_string()]);
    let t = Template::compile("a {{#if x}} b {{/if}} c").unwrap();
    assert_eq!(texts(&t), vec!["a ".to_string(), " b ".to_string(), " c".to_string()]);
    let t = Template::compile("{{{{raw}}}}\n x \n{{{{/raw}}}}\n").unwrap();
    assert_eq!(texts(&t), vec!["\n".to_string()]);
}

#[test]
fn tilde_takes_all_white_space() {
    let t = Template::compile("a \n {{~exp~}} \n\t b").unwrap();
    assert_eq!(texts(&t), vec!["a".to_string(), "b".to_string()]);
    let t = Template::compile("a \n {{~exp}} \n b").unwrap();
    assert_eq!(texts(&t), vec!["a".to_string(), " \n b".to_string()]);
    let t = Template::compile("a{{#if x~}}  {{~/if}}b").unwrap();
    assert_eq!(texts(&t), vec!["a".to_string(), "".to_string(), "b".to_string()]);
    let t = Template::compile("a\n{{~#if x}}\nb\n{{/if}}").unwrap();
    assert_eq!(texts(&t), vec!["a".to_string(), "b\n".to_string()]);
}

#[test]
fn json_literals_are_accepted() {
    for l in [
        "[]",
        "[\"hello\"]",
        "[1,2,3,4,true]",
        "{}",
        "{\"a\":1,\"b\":2}",
        "[[],[[]],{}]",
        "{\"a\":{\"b\":[null,false,-1.5]}}",
        "'single'",
        "\"\\u00e9\\n\"",
        "12",
        "-3.25",
        "1E-5",
        "null",
    ] {
        let pairs = HandlebarsParser::parse(Rule::literal, l).unwrap();
        assert_eq!(pairs.last().unwrap().as_span().end(), l.len(), "{}", l);
        assert_eq!(pairs.count(), 1);
    }
}

#[test]
fn malformed_literals_are_rejected() {
    for l in ["\"abc", "[1,2,]", "[,1]", "{\"a\":1,}", "{\"a\" 1}", "\"a\\qb\"", "[1 2]", "{a:1}"] {
        assert!(
            matches!(HandlebarsParser::parse(Rule::literal, l), Err(Error::InvalidLiteral { .. })),
            "{}",
            l
        );
    }
    match Template::compile("{{exp {\"a\":1,}}}") {
        Err(Error::InvalidLiteral { position, tried }) => {
            assert_eq!(position, 13);
            assert!(tried.iter().any(|a| a.rule == Rule::object_literal && a.since == 6));
        }
        other => panic!("{:?}", other),
    }
    assert!(matches!(
        Template::compile("{{exp \"abc}}"),
        Err(Error::InvalidLiteral { position: 12, .. })
    ));
}

#[test]
fn syntax_error_names_the_furthest_position() {
    match Template::compile("hello {{exp ?}} world") {
        Err(Error::Syntax { position, tried }) => {
            assert_eq!(position, 12);
            assert!(tried.iter().any(|a| a.rule == Rule::expression && a.since == 6));
        }
        other => panic!("{:?}", other),
    }
    assert!(matches!(Template::compile("{{}}"), Err(Error::Syntax { position: 2, .. })));
    assert!(matches!(Template::compile("{{/if}}"), Err(Error::Syntax { position: 2, .. })));
}

#[test]
fn unterminated_tag_is_told_apart() {
    assert!(matches!(
        Template::compile("hello {{exp"),
        Err(Error::UnterminatedTag { position: 11, .. })
    ));
    assert!(matches!(
        Template::compile("{{! never closed"),
        Err(Error::UnterminatedTag { position: 16, .. })
    ));
}

#[test]
fn unterminated_block_is_told_apart() {
    assert!(matches!(
        Template::compile("{{#if}}x"),
        Err(Error::UnterminatedBlock { position: 8, .. })
    ));
    assert!(matches!(
        Template::compile("{{{{raw}}}} {{x}} "),
        Err(Error::UnterminatedBlock { position: 18, .. })
    ));
}

#[test]
fn nesting_beyond_the_limit_is_an_error() {
    let src = b"{{#a}}{{#a}}x{{/a}}{{/a}}";
    assert!(matches!(Template::compile_bytes(src, 10), Err(Error::DepthExceeded)));
    assert!(Template::compile_bytes(src, 11).is_ok());
    assert!(matches!(parse_bytes(Rule::handlebars, src, 0), Err(Error::DepthExceeded)));
    let mut deep = String::new();
    for _ in 0..200 {
        deep.push_str("{{#a}}");
    }
    for _ in 0..200 {
        deep.push_str("{{/a}}");
    }
    assert!(matches!(Template::compile(&deep), Err(Error::DepthExceeded)));
}

#[test]
fn a_rule_need_not_reach_the_end() {
    let pairs = HandlebarsParser::parse(Rule::identifier, "abc def").unwrap();
    assert_eq!(pairs.nodes(), &vec![node(Rule::identifier, 0, 3, 0)]);
    assert!(HandlebarsParser::parse(Rule::identifier, "1abc").is_err());
    assert!(HandlebarsParser::parse(Rule::parameter, "abc def").is_err());
    assert!(HandlebarsParser::parse(Rule::parameter, "abc").is_ok());
}

#[test]
fn expression_parts_are_nodes() {
    let t = Template::compile("{{~exp 1 key=\"v\" (sub a)}}").unwrap();
    let found: Vec<Rule> = t.nodes().iter().map(|n| n.rule).collect();
    assert_eq!(
        found,
        vec![
            Rule::template,
            Rule::expression,
            Rule::pre_whitespace_omitter,
            Rule::identifier,
            Rule::param,
            Rule::literal,
            Rule::number_literal,
            Rule::hash,
            Rule::identifier,
            Rule::param,
            Rule::literal,
            Rule::string_literal,
            Rule::param,
            Rule::subexpression,
            Rule::identifier,
            Rule::param,
            Rule::reference,
            Rule::path_inline,
            Rule::path_id
        ]
    );
}

#[test]
fn block_params_are_names() {
    let pairs = HandlebarsParser::parse(Rule::helper_block_start, "{{#each xs as |x i|}}").unwrap();
    let found: Vec<(Rule, usize, usize)> =
        pairs.nodes().iter().map(|n| (n.rule, n.start, n.end)).collect();
    assert!(found.contains(&(Rule::block_param, 11, 19)));
    assert!(found.contains(&(Rule::identifier, 15, 16)));
    assert!(found.contains(&(Rule::identifier, 17, 18)));
}

#[test]
fn keywords_are_no_params() {
    assert!(HandlebarsParser::parse(Rule::param, "as").is_err());
    assert!(HandlebarsParser::parse(Rule::param, "else").is_err());
    assert!(HandlebarsParser::parse(Rule::param, "ask").is_ok());
}

#[test]
fn text_between_tags_keeps_its_spaces() {
    let t = Template::compile("{{a}} {{b}}").unwrap();
    assert_eq!(texts(&t), vec![" ".to_string()]);
    let pairs = HandlebarsParser::parse(Rule::handlebars, "{{a}}  x").unwrap();
    assert_eq!(pairs.nodes()[pairs.nodes().len() - 1], node(Rule::raw_text, 5, 8, 0));
}

#[test]
fn errors_are_told_in_words() {
    let e = Template::compile("hello {{exp").unwrap_err();
    assert_eq!(e.message(), "expected closing delimiter for expression");
    let e = Template::compile("{{#if a").unwrap_err();
    assert_eq!(e.message(), "expected closing delimiter for helper_block_start");
    let e = Template::compile("{{#if}}x").unwrap_err();
    assert_eq!(e.message(), "expected closing tag of block");
    let e = Template::compile("{{exp ?}}").unwrap_err();
    assert_eq!(e.message(), "unexpected input");
    let e = Template::compile("{{exp \"abc}}").unwrap_err();
    assert_eq!(e.message(), "invalid literal");
    let e = Template::compile("{{#if}}x{{/unless}}").unwrap_err();
    assert_eq!(e.message(), "closing tag does not name the block it closes");
    let e = Template::compile_bytes(b"x", 2).unwrap_err();
    assert_eq!(e.message(), "nested too deep");
}

#[test]
fn rules_have_their_names() {
    assert_eq!(rule_name(Rule::raw_text), "raw_text");
    assert_eq!(rule_name(Rule::hbs_comment_compact), "hbs_comment_compact");
    assert_eq!(rule_name(Rule::path), "path");
}

#[test]
fn trees_can_be_walked() {
    let pairs = HandlebarsParser::parse(Rule::helper_block, "{{#a b}}x{{y}}z{{/a}}").unwrap();
    assert_eq!(pairs.count(), 1);
    assert!(pairs.get(1).is_none());
    let parts = pairs.first().unwrap().into_inner();
    assert_eq!(parts.count(), 3);
    let body = parts.get(1).unwrap();
    assert_eq!(body.as_rule(), Rule::template);
    assert_eq!((body.as_span().start(), body.as_span().end()), (8, 15));
    let inner = body.into_inner();
    assert_eq!(rules(&inner), vec![Rule::raw_text, Rule::expression, Rule::raw_text]);
    assert_eq!(inner.last().unwrap().as_span().start(), 14);
    let empty = HandlebarsParser::parse(Rule::raw_block_text, "").unwrap();
    assert_eq!(empty.count(), 1);
    assert_eq!(empty.first().unwrap().into_inner().count(), 0);
    assert!(empty.first().unwrap().into_inner().last().is_none());
}

#[test]
fn white_space_inside_tags_is_free() {
    for src in ["{{ exp }}", "{{exp\n\ta = 1 }}", "{{# if x }}y{{ / if }}", "{{> \r\n part }}"] {
        assert!(Template::compile(src).is_ok(), "{}", src);
    }
    assert!(Template::compile("{ {exp}}").unwrap().nodes().len() == 2);
    assert!(Template::compile("{{a. b}}").is_err());
}

#[test]
fn positions_count_bytes() {
    let src = "é{{名前}}ü\n";
    let t = Template::compile(src).unwrap();
    assert_eq!(
        t.nodes(),
        &vec![
            node(Rule::template, 0, 15, 6),
            node(Rule::raw_text, 0, 2, 0),
            node(Rule::expression, 2, 12, 3),
            node(Rule::reference, 4, 10, 2),
            node(Rule::path_inline, 4, 10, 1),
            node(Rule::path_id, 4, 10, 0),
            node(Rule::raw_text, 12, 15, 0)
        ]
    );
    assert_eq!(texts(&t), vec!["é".to_string(), "ü\n".to_string()]);
}

#[test]
fn each_attempt_is_recorded_once() {
    match Template::compile("{{a}}{{b}}{{c ?}}") {
        Err(Error::Syntax { position, tried }) => {
            assert_eq!(position, 14);
            for (i, a) in tried.iter().enumerate() {
                for b in tried.iter().skip(i + 1) {
                    assert!(a != b);
                }
            }
            assert!(tried.iter().any(|a| a.rule == Rule::expression && a.since == 10));
            assert!(tried.iter().any(|a| a.rule == Rule::pro_whitespace_omitter));
        }
        other => panic!("{:?}", other),
    }
}

#[test]
fn escapes_in_raw_blocks_and_before_four_braces() {
    let t = Template::compile(r"a \{{{{raw}}}} b").unwrap();
    assert_eq!(texts(&t), vec!["a {{{{raw}}}} b".to_string()]);
    let t = Template::compile(r"{{{{raw}}}}x\{{{{/raw}}}}y{{{{/raw}}}}").unwrap();
    let at = t.nodes().iter().position(|n| n.rule == Rule::raw_block_text).unwrap();
    assert_eq!(t.text(at).unwrap(), b"x{{{{/raw}}}}y".to_vec());
}

#[test]
fn deep_nesting_within_the_limit_is_parsed() {
    let mut deep = String::new();
    for _ in 0..55 {
        deep.push_str("{{#a}}");
    }
    deep.push('x');
    for _ in 0..55 {
        deep.push_str("{{/a}}");
    }
    let t = Template::compile(&deep).unwrap();
    assert_eq!(texts(&t), vec!["x".to_string()]);
    let blocks = t.nodes().iter().filter(|n| n.rule == Rule::helper_block).count();
    assert_eq!(blocks, 55);
}

#[test]
fn comments_keep_their_text() {
    let src = "{{!-- a }} b --}}{{! c }}{{!    -- d --}}";
    let t = Template::compile(src).unwrap();
    assert_eq!(
        t.nodes(),
        &vec![
            node(Rule::template, 0, 41, 6),
            node(Rule::hbs_comment, 0, 17, 1),
            node(Rule::comment_text, 5, 13, 0),
            node(Rule::hbs_comment_compact, 17, 25, 1),
            node(Rule::comment_text_compact, 20, 23, 0),
            node(Rule::hbs_comment, 25, 41, 1),
            node(Rule::comment_text, 34, 37, 0)
        ]
    );
    assert_eq!(t.text(2).unwrap(), b" a }} b ".to_vec());
    assert_eq!(t.text(4).unwrap(), b" c ".to_vec());
    let t = Template::compile("{{!-- open }}").unwrap();
    assert_eq!(t.nodes()[1], node(Rule::hbs_comment_compact, 0, 13, 1));
    assert_eq!(t.text(2).unwrap(), b"-- open ".to_vec());
}

#[test]
fn tilde_marks_can_be_asked_for() {
    let pairs = HandlebarsParser::parse(Rule::expression, "{{~exp}}").unwrap();
    let tag = pairs.first().unwrap();
    assert!(tag.holds(Rule::pre_whitespace_omitter));
    assert!(!tag.holds(Rule::pro_whitespace_omitter));
    assert!(tag.holds(Rule::reference));
    assert!(!tag.holds(Rule::identifier));
    assert!(!tag.holds(Rule::expression));
}

#[test]
fn depth_is_only_a_limit() {
    let src = b"a {{#if x}}b{{else}}{{> p q=[1,{\"k\":(f 2)}]}}{{/if}} c";
    let low = Template::compile_bytes(src, 20).unwrap();
    let high = Template::compile_bytes(src, 2000).unwrap();
    assert_eq!(low.nodes(), high.nodes());
    let bad = b"{{#if x}}{{y ?}}{{/if}}";
    let low = Template::compile_bytes(bad, 20).unwrap_err();
    let high = Template::compile_bytes(bad, 128).unwrap_err();
    assert_eq!(low.message(), high.message());
    match (low, high) {
        (
            Error::Syntax { position: p, tried: t },
            Error::Syntax { position: q, tried: u },
        ) => {
            assert_eq!(p, 13);
            assert_eq!(p, q);
            assert_eq!(t, u);
        }
        other => panic!("{:?}", other),
    }
}

#[test]
fn failures_lie_in_the_input() {
    for src in ["{{", "{{#a}}", "x{{!", "{{a}}{{/", "{{a b=}}", "{{{{r}}}}{{{{/"] {
        match Template::compile(src) {
            Err(Error::Syntax { position, tried })
            | Err(Error::UnterminatedTag { position, tried })
            | Err(Error::UnterminatedBlock { position, tried })
            | Err(Error::InvalidLiteral { position, tried }) => {
                assert!(position <= src.len(), "{}", src);
                assert!(!tried.is_empty());
                assert!(tried.iter().all(|a| a.since <= position));
            }
            other => panic!("{:?}", other),
        }
    }
}
