use proc_macro2::{Delimiter, Spacing, TokenStream, TokenTree};
use tonic_grpc::tokens::{identifier, read_identifier, Draft};

fn drafted(source: &str) -> Vec<TokenTree> {
    let mut draft = Draft::new();
    draft.source(source);
    draft.finish().into_iter().collect()
}

#[test]
fn pieces_become_tokens() {
    let trees = drafted("fn _a1\n  -> & 'static");
    let written: Vec<String> = trees.iter().map(|tree| tree.to_string()).collect();
    assert_eq!(written, vec!["fn", "_a1", "-", ">", "&", "'", "static"]);
    let joint: Vec<bool> = trees
        .iter()
        .filter_map(|tree| match tree {
            TokenTree::Punct(punct) => Some(punct.spacing() == Spacing::Joint),
            _ => None,
        })
        .collect();
    assert_eq!(joint, vec![true, false, false, true]);
}

#[test]
fn groups_nest() {
    let trees = drafted("{ [ a ] ( ) } b");
    assert_eq!(trees.len(), 2);
    match &trees[0] {
        TokenTree::Group(group) => {
            assert_eq!(group.delimiter(), Delimiter::Brace);
            let inner: Vec<TokenTree> = group.stream().into_iter().collect();
            assert_eq!(inner.len(), 2);
            assert_eq!(inner[0].to_string(), "[a]");
            assert_eq!(inner[1].to_string(), "()");
        }
        other => panic!("{other:?} is no group"),
    }
    assert_eq!(trees[1].to_string(), "b");
}

#[test]
fn open_groups_are_closed_at_the_end() {
    let trees = drafted("a ( b [ c");
    assert_eq!(trees.len(), 2);
    assert_eq!(trees[1].to_string(), "(b [c])");
}

#[test]
fn brackets_that_close_nothing_are_left_out() {
    assert_eq!(drafted(") a ]").len(), 1);
}

#[test]
fn pieces_that_are_no_tokens_are_left_out() {
    assert_eq!(drafted("1a a+ ( ) \"").len(), 1);
    assert!(drafted(" \n ").is_empty());
    assert!(drafted("").is_empty());
}

#[test]
fn given_tokens_and_texts_go_where_they_are_added() {
    let given: TokenStream = "x::<1> (y)".parse().unwrap();
    let mut draft = Draft::new();
    draft.source("a (");
    draft.given(&given);
    draft.source(",");
    draft.text("b\n\"c\"");
    draft.source(") d");
    let trees: Vec<TokenTree> = draft.finish().into_iter().collect();
    assert_eq!(trees.len(), 3);
    match &trees[1] {
        TokenTree::Group(group) => {
            let inner: Vec<TokenTree> = group.stream().into_iter().collect();
            let mut expected: Vec<String> =
                given.into_iter().map(|tree| tree.to_string()).collect();
            expected.push(",".to_string());
            expected.push("\"b\\n\\\"c\\\"\"".to_string());
            let inner: Vec<String> = inner.iter().map(|tree| tree.to_string()).collect();
            assert_eq!(inner, expected);
        }
        other => panic!("{other:?} is no group"),
    }
}

#[test]
fn names_are_read_where_they_are_one_identifier() {
    let read = |name: &str, text: &str| {
        read_identifier(name, text.parse()).map(|stream| stream.to_string())
    };
    assert_eq!(read("a", "a"), Some("a".to_string()));
    assert_eq!(read("r#fn", "r#fn"), Some("r#fn".to_string()));
    assert_eq!(read("a", "b"), None);
    assert_eq!(read("a", "a b"), None);
    assert_eq!(read("a", "a ("), None);
    for text in ["", "1", "\"a\"", "-1", "+", "(a)", "'a"] {
        assert_eq!(read(text, text), None);
    }
}

#[test]
fn identifiers_are_single_tokens() {
    for name in ["a", "_", "r#fn", "\u{e9}t\u{e9}"] {
        let trees: Vec<TokenTree> = identifier(name).unwrap().into_iter().collect();
        assert_eq!(trees.len(), 1);
        assert!(matches!(trees[0], TokenTree::Ident(_)));
        assert_eq!(trees[0].to_string(), name);
    }
    for name in ["", "a b", "r#_", "\u{e9} b", "\u{20ac}"] {
        assert!(identifier(name).is_none());
    }
}
