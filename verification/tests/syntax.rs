use ifa::syntax::{Lexer, SyntaxKind, SyntaxNode, SyntaxToken, SyntaxTree};
use ifa::{NodeId, SourceText, Span};

#[test]
fn creates_lexer() {
    let source = SourceText::new("", "");

    let lexer = ifa::lexer::Lexer::new(&source);

    assert_eq!(lexer.source().text(), "");
}

#[test]
fn lexes_simple_program() {
    let source = SourceText::new("", "indicator test {}");

    let tokens = Lexer::new(&source).lex();

    assert_eq!(tokens[0].kind(), SyntaxKind::KeywordIndicator);
    assert_eq!(tokens[1].kind(), SyntaxKind::Whitespace);
    assert_eq!(tokens[2].kind(), SyntaxKind::Identifier);
    assert_eq!(tokens[3].kind(), SyntaxKind::Whitespace);
    assert_eq!(tokens[4].kind(), SyntaxKind::LeftBrace);
    assert_eq!(tokens[5].kind(), SyntaxKind::RightBrace);
    assert_eq!(tokens[6].kind(), SyntaxKind::EndOfFile);
}

#[test]
fn creates_node() {
    let span = Span::new(0, 10).expect("valid span");
    let node = SyntaxNode::new(NodeId::new(1), SyntaxKind::Indicator, span);

    assert_eq!(node.id(), NodeId::new(1));
    assert_eq!(node.kind(), SyntaxKind::Indicator);
    assert_eq!(node.span(), span);
    assert!(node.children().is_empty());
}

#[test]
fn adds_children() {
    let span = Span::new(0, 10).expect("valid span");
    let mut node = SyntaxNode::new(NodeId::new(1), SyntaxKind::Root, span);

    node.add_child(NodeId::new(2));
    node.add_child(NodeId::new(3));

    assert_eq!(node.children(), &[NodeId::new(2), NodeId::new(3)]);
}

#[test]
fn creates_empty_tree() {
    let tree = SyntaxTree::new();

    assert!(tree.is_empty());
    assert_eq!(tree.root(), None);
}

#[test]
fn creates_and_reads_root_node() {
    let mut tree = SyntaxTree::new();
    let span = Span::new(0, 10).expect("valid span");

    let root = tree.create_node(SyntaxKind::Root, span);
    tree.set_root(root);

    assert_eq!(tree.root(), Some(root));
    assert_eq!(tree.len(), 1);

    let node = tree.node(root).expect("root must exist");

    assert_eq!(node.kind(), SyntaxKind::Root);
    assert_eq!(node.span(), span);
}

#[test]
fn creates_parent_and_child() {
    let mut tree = SyntaxTree::new();
    let parent_span = Span::new(0, 10).expect("valid span");
    let child_span = Span::new(2, 5).expect("valid span");

    let parent = tree.create_node(SyntaxKind::Indicator, parent_span);
    let child = tree.create_node(SyntaxKind::Identifier, child_span);

    tree.node_mut(parent)
        .expect("parent must exist")
        .add_child(child);

    assert_eq!(
        tree.node(parent).expect("parent must exist").children(),
        &[child]
    );
}

fn spans(tokens: &[SyntaxToken]) -> Vec<(SyntaxKind, usize, usize)> {
    tokens.iter().map(|t| (t.kind(), t.span().start(), t.span().end())).collect()
}

#[test]
fn empty_source_lexes_to_end_of_file() {
    let source = SourceText::new("", "");
    let tokens = Lexer::new(&source).lex();
    assert_eq!(spans(&tokens), vec![(SyntaxKind::EndOfFile, 0, 0)]);
}

#[test]
fn lexes_operators_and_literals() {
    let source = SourceText::new("", "a==1!=b=!\"s\"");
    let tokens = Lexer::new(&source).lex();
    assert_eq!(
        spans(&tokens),
        vec![
            (SyntaxKind::Identifier, 0, 1),
            (SyntaxKind::EqualEqual, 1, 3),
            (SyntaxKind::IntegerLiteral, 3, 4),
            (SyntaxKind::BangEqual, 4, 6),
            (SyntaxKind::Identifier, 6, 7),
            (SyntaxKind::Equal, 7, 8),
            (SyntaxKind::Bang, 8, 9),
            (SyntaxKind::StringLiteral, 9, 12),
            (SyntaxKind::EndOfFile, 12, 12),
        ]
    );
}

#[test]
fn lexes_keywords_punctuation_and_unknown() {
    let source = SourceText::new("", "if(x)[1,2];else.while+return-*/:é_9");
    let kinds: Vec<SyntaxKind> = Lexer::new(&source).lex().iter().map(|t| t.kind()).collect();
    assert_eq!(
        kinds,
        vec![
            SyntaxKind::KeywordIf,
            SyntaxKind::LeftParen,
            SyntaxKind::Identifier,
            SyntaxKind::RightParen,
            SyntaxKind::LeftBracket,
            SyntaxKind::IntegerLiteral,
            SyntaxKind::Comma,
            SyntaxKind::IntegerLiteral,
            SyntaxKind::RightBracket,
            SyntaxKind::Semicolon,
            SyntaxKind::KeywordElse,
            SyntaxKind::Dot,
            SyntaxKind::KeywordWhile,
            SyntaxKind::Plus,
            SyntaxKind::KeywordReturn,
            SyntaxKind::Minus,
            SyntaxKind::Star,
            SyntaxKind::Slash,
            SyntaxKind::Colon,
            SyntaxKind::Unknown,
            SyntaxKind::Identifier,
            SyntaxKind::EndOfFile,
        ]
    );
}

#[test]
fn unterminated_string_runs_to_the_end() {
    let source = SourceText::new("", "x \"abc");
    let tokens = Lexer::new(&source).lex();
    assert_eq!(
        spans(&tokens),
        vec![
            (SyntaxKind::Identifier, 0, 1),
            (SyntaxKind::Whitespace, 1, 2),
            (SyntaxKind::StringLiteral, 2, 6),
            (SyntaxKind::EndOfFile, 6, 6),
        ]
    );
}

#[test]
fn whitespace_run_takes_unicode_spaces() {
    // A run that starts with an ASCII space continues over U+00A0.
    let source = SourceText::new("", " \u{a0}\u{3000}x\u{a0}");
    let tokens = Lexer::new(&source).lex();
    assert_eq!(
        spans(&tokens),
        vec![
            (SyntaxKind::Whitespace, 0, 6),
            (SyntaxKind::Identifier, 6, 7),
            (SyntaxKind::Unknown, 7, 9),
            (SyntaxKind::EndOfFile, 9, 9),
        ]
    );
}

#[test]
fn tokens_cover_the_source() {
    let text = "indicator  ñ = \"día\" 42;\n\tx";
    let source = SourceText::new("", text);
    let tokens = Lexer::new(&source).lex();
    let mut at = 0;
    for token in &tokens[..tokens.len() - 1] {
        assert_eq!(token.span().start(), at);
        assert!(token.span().end() > at);
        assert_ne!(token.kind(), SyntaxKind::EndOfFile);
        at = token.span().end();
    }
    let last = tokens[tokens.len() - 1];
    assert_eq!(last.kind(), SyntaxKind::EndOfFile);
    assert_eq!((last.span().start(), last.span().end()), (text.len(), text.len()));
}

#[test]
fn token_keeps_kind_and_span() {
    let span = Span::new(1, 4).unwrap();
    let token = SyntaxToken::new(SyntaxKind::Identifier, span);
    assert_eq!(token.kind(), SyntaxKind::Identifier);
    assert_eq!(token.span(), span);
}

#[test]
fn tree_ids_follow_creation_order_and_missing_nodes_are_none() {
    let mut tree = SyntaxTree::default();
    let span = Span::new(0, 1).unwrap();
    let a = tree.create_node(SyntaxKind::Root, span);
    let b = tree.create_node(SyntaxKind::Identifier, span);
    assert_eq!(a.index(), 0);
    assert_eq!(b.index(), 1);
    assert_eq!(tree.node(b).unwrap().id(), b);
    assert!(tree.node(NodeId::new(2)).is_none());
    assert!(tree.node_mut(NodeId::new(2)).is_none());
    assert_eq!(tree.root(), None);
}
