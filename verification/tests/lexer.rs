use atlas_77::lexer::token::{LexingError, TokenKind};
use atlas_77::lexer::{can_tokenize, AtlasLexer};

fn kinds(source: &str) -> Vec<TokenKind> {
    let mut lexer = AtlasLexer::new("test.atlas", source.to_string());
    assert!(can_tokenize(source));
    match lexer.tokenize() {
        Ok(tokens) => tokens.iter().map(|t| t.kind()).collect(),
        Err((e, span)) => panic!("Lexing error: {:?} at {:?}", e, span),
    }
}

#[test]
fn test_lexer() {
    let source = r#"
package result; 

struct Result<T, E> {
  private:
    data: T?
    err: E? 
  public:
      //Special case function like __init__() in Python
      fun init(data: T?, err: E?) -> Result<T, E> {
        this.data = data; 
        this.err = err; 
      }
      fun ok(data: T) -> Result<T, E> {
        return this.init(data, null); 
      }
      fun err(err: E) -> Result<T, E> { 
        return this.init(null, err); 
      }
      fun is_ok(this) -> bool { 
        return this.data != null; 
      } 
      fun unwrap(this) -> T { 
        if this.is_ok() {
          return this.data; 
        } 
        panic("Unwrap called on an Err"); 
      } 
}"#;
    let mut lexer = AtlasLexer::new("hello.atlas".into(), source.to_string());
    let tokens = match lexer.tokenize() {
        Ok(tokens) => tokens,
        Err((e, span)) => {
            panic!("Lexing error: {:?} at {:?}", e, span);
        }
    };
    for token in tokens {
        println!("{:?} at {:?}", token.kind(), token.span());
    }
}

#[test]
fn lexes_a_declaration() {
    assert_eq!(
        kinds("let x: int64 = 42;"),
        vec![
            TokenKind::KwLet,
            TokenKind::Identifier("x".to_string()),
            TokenKind::Colon,
            TokenKind::Int64Ty,
            TokenKind::OpAssign,
            TokenKind::Integer(42),
            TokenKind::Semicolon,
            TokenKind::EoI,
        ]
    );
}

#[test]
fn lexes_literals() {
    assert_eq!(
        kinds(r#""a\nb" 'c' 3.5 7u 9f true false"#),
        vec![
            TokenKind::StringLiteral("a\nb".to_string()),
            TokenKind::Char('c'),
            TokenKind::Float("3.5".to_string()),
            TokenKind::UnsignedInteger(7),
            TokenKind::Float("9".to_string()),
            TokenKind::Bool(true),
            TokenKind::Bool(false),
            TokenKind::EoI,
        ]
    );
}

#[test]
fn lexes_comments_and_docs() {
    assert_eq!(
        kinds("// hi\n//! doc\n/* x */"),
        vec![
            TokenKind::Comments("// hi".to_string()),
            TokenKind::Docs("doc".to_string()),
            TokenKind::Comments("/* x */".to_string()),
            TokenKind::EoI,
        ]
    );
}

#[test]
fn lexes_operators_longest_first() {
    assert_eq!(
        kinds("a->b == c != d += 1 :: e"),
        vec![
            TokenKind::Identifier("a".to_string()),
            TokenKind::RArrow,
            TokenKind::Identifier("b".to_string()),
            TokenKind::EqEq,
            TokenKind::Identifier("c".to_string()),
            TokenKind::NEq,
            TokenKind::Identifier("d".to_string()),
            TokenKind::OpAssignAdd,
            TokenKind::Integer(1),
            TokenKind::DoubleColon,
            TokenKind::Identifier("e".to_string()),
            TokenKind::EoI,
        ]
    );
}

#[test]
fn spans_are_byte_offsets() {
    let source = "\"é\" x";
    let mut lexer = AtlasLexer::new("test.atlas", source.to_string());
    let tokens = lexer.tokenize().unwrap();
    assert_eq!(tokens.len(), 3);
    assert_eq!((tokens[0].start(), tokens[0].end()), (0, 4));
    assert_eq!((tokens[1].start(), tokens[1].end()), (5, 6));
    // The end-of-input token repeats the span of the last token.
    assert_eq!(tokens[2].kind(), TokenKind::EoI);
    assert_eq!((tokens[2].start(), tokens[2].end()), (5, 6));
    assert_eq!((lexer.last_pos_start, lexer.last_pos_end), (5, 6));
}

#[test]
fn unknown_character_is_an_error() {
    let mut lexer = AtlasLexer::new("test.atlas", "let $".to_string());
    match lexer.tokenize() {
        Err((e, span)) => {
            assert_eq!(e, LexingError::NonAsciiChar);
            assert_eq!((span.start, span.end), (4, 5));
            assert_eq!(span.path, "test.atlas");
        }
        Ok(_) => panic!("expected an error"),
    }
}

#[test]
fn integer_too_large_is_an_error() {
    let mut lexer = AtlasLexer::new("test.atlas", "x 99999999999999999999".to_string());
    match lexer.tokenize() {
        Err((e, span)) => {
            assert_eq!(e, LexingError::InvalidInteger("number too large to fit in target type".to_string()));
            assert_eq!((span.start, span.end), (2, 22));
        }
        Ok(_) => panic!("expected an error"),
    }
}

#[test]
fn empty_source_gives_end_of_input() {
    let mut lexer = AtlasLexer::new("test.atlas", String::new());
    let tokens = lexer.tokenize().unwrap();
    assert_eq!(tokens.len(), 1);
    assert_eq!(tokens[0].kind(), TokenKind::EoI);
    assert_eq!((tokens[0].start(), tokens[0].end()), (0, 0));
}

#[test]
fn doc_comment_starting_outside_ascii_cannot_be_read() {
    assert!(!can_tokenize("//!é"));
    assert!(can_tokenize("//! é"));
    assert!(can_tokenize("abc"));
}
