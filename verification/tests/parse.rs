use coherency::logging::Level;
use coherency::parse::{
    CompileMessage, DontExpect, FatalParseError, OneOrMore, Parse, Separated,
    SeparatedWithTrailing, Token, TokenIterator, TokenKind, TokenOf,
};
use coherency::span::Span;

const WORD: u32 = 1;
const COMMA: u32 = 2;
const STOP: u32 = 3;

struct WordKind;

impl TokenKind for WordKind {
    fn spec_kind() -> u32 {
        WORD
    }

    fn kind() -> u32 {
        WORD
    }
}

struct CommaKind;

impl TokenKind for CommaKind {
    fn spec_kind() -> u32 {
        COMMA
    }

    fn kind() -> u32 {
        COMMA
    }
}

struct NoComma;

impl CompileMessage for NoComma {
    fn spec_msg() -> &'static str {
        "No comma here"
    }

    fn get_msg() -> &'static str {
        "No comma here"
    }
}

type Word = TokenOf<WordKind>;
type Comma = TokenOf<CommaKind>;

fn stream(kinds: &[u32]) -> TokenIterator {
    let tokens = kinds
        .iter()
        .enumerate()
        .map(|(i, kind)| Token { kind: *kind, span: Span::new(1, 10 * i, 10 * i + 5) })
        .collect();
    TokenIterator::new(tokens)
}

#[test]
fn a_token_is_read_where_it_stands() {
    let mut s = stream(&[WORD, COMMA]);
    assert!(Word::peek(0, &s));
    assert!(!Word::peek(1, &s));
    assert!(Comma::peek(1, &s));
    assert!(!Comma::peek(2, &s));
    let w = Word::parse(&mut s).ok().unwrap();
    assert_eq!(w.span(), Some(Span::new(1, 0, 5)));
    assert_eq!(s.pos(), 1);
    assert!(s.into_messages().is_empty());
}

#[test]
fn a_token_of_another_kind_is_a_fatal_error() {
    let mut s = stream(&[COMMA]);
    assert!(matches!(Word::parse(&mut s), Err(FatalParseError)));
    assert_eq!(s.pos(), 0);
    let msgs = s.into_messages();
    assert_eq!(msgs.len(), 1);
    assert_eq!(msgs[0].level, Level::Error);
    assert_eq!(msgs[0].text, "Unexpected token");
    assert_eq!(msgs[0].span, Span::new(1, 0, 5));
}

#[test]
fn a_token_at_the_end_is_a_fatal_error() {
    let mut s = stream(&[]);
    assert!(matches!(Word::parse(&mut s), Err(FatalParseError)));
    let msgs = s.into_messages();
    assert_eq!(msgs.len(), 1);
    assert_eq!(msgs[0].span, Span::builtin());
}

#[test]
fn the_stream_hands_out_its_tokens_in_order() {
    let mut s = stream(&[WORD, STOP]);
    assert_eq!(s.peek(1).map(|t| t.kind), Some(STOP));
    assert_eq!(s.next().map(|t| t.kind), Some(WORD));
    assert_eq!(s.next().map(|t| t.kind), Some(STOP));
    assert_eq!(s.next(), None);
    assert_eq!(s.peek(0), None);
    assert_eq!(s.pos(), 2);
}

#[test]
fn peek_and_parse_leaves_the_stream_alone_without_a_match() {
    let mut s = stream(&[COMMA, WORD]);
    assert!(matches!(Word::peek_and_parse(&mut s), Ok(None)));
    assert_eq!(s.pos(), 0);
    assert!(matches!(Comma::peek_and_parse(&mut s), Ok(Some(_))));
    assert_eq!(s.pos(), 1);
}

#[test]
fn an_option_is_none_without_a_match() {
    let mut s = stream(&[COMMA]);
    let r = <Option<Word>>::parse(&mut s).ok().unwrap();
    assert!(r.is_none());
    assert_eq!(r.span(), None);
    assert_eq!(s.pos(), 0);
    let r = <Option<Comma>>::parse(&mut s).ok().unwrap();
    assert_eq!(r.span(), Some(Span::new(1, 0, 5)));
    assert_eq!(s.pos(), 1);
}

#[test]
fn a_box_parses_what_is_in_it() {
    let mut s = stream(&[WORD]);
    let r = <Box<Word>>::parse(&mut s).ok().unwrap();
    assert_eq!(r.span(), Some(Span::new(1, 0, 5)));
    assert_eq!(s.pos(), 1);
}

#[test]
fn a_vec_reads_while_nodes_come() {
    let mut s = stream(&[WORD, WORD, WORD, COMMA, WORD]);
    let r = <Vec<Word>>::parse(&mut s).ok().unwrap();
    assert_eq!(r.len(), 3);
    assert_eq!(s.pos(), 3);
    assert_eq!(r.span(), Some(Span::new(1, 0, 25)));
}

#[test]
fn a_vec_may_be_empty() {
    let mut s = stream(&[COMMA]);
    let r = <Vec<Word>>::parse(&mut s).ok().unwrap();
    assert!(r.is_empty());
    assert_eq!(r.span(), None);
    assert_eq!(r.span_or_builtin(), Span::builtin());
    assert_eq!(s.pos(), 0);
}

#[test]
fn one_or_more_needs_one() {
    let mut s = stream(&[COMMA]);
    assert!(<OneOrMore<Word>>::parse(&mut s).is_err());
    let mut s = stream(&[WORD, WORD, STOP]);
    let r = <OneOrMore<Word>>::parse(&mut s).ok().unwrap();
    assert_eq!(r.items().len(), 2);
    assert_eq!(r.span(), Some(Span::new(1, 0, 15)));
    assert_eq!(s.pos(), 2);
}

#[test]
fn separated_reads_nodes_between_separators() {
    let mut s = stream(&[WORD, COMMA, WORD, COMMA, WORD, STOP]);
    let r = <Separated<Word, Comma>>::parse(&mut s).ok().unwrap();
    assert_eq!(r.items().len(), 3);
    assert_eq!(r.iter().count(), 3);
    assert_eq!(s.pos(), 5);
    assert_eq!(r.span(), Some(Span::new(1, 0, 45)));
    let spans: Vec<Option<Span>> = r.iter().map(|w| w.span()).collect();
    assert_eq!(
        spans,
        vec![Some(Span::new(1, 0, 5)), Some(Span::new(1, 20, 25)), Some(Span::new(1, 40, 45))]
    );
}

#[test]
fn separated_stops_where_no_separator_follows() {
    let mut s = stream(&[WORD, COMMA, WORD, WORD]);
    let r = <Separated<Word, Comma>>::parse(&mut s).ok().unwrap();
    assert_eq!(r.items().len(), 2);
    assert_eq!(s.pos(), 3);
}

#[test]
fn separated_needs_a_node_after_each_separator() {
    let mut s = stream(&[WORD, COMMA, STOP]);
    assert!(<Separated<Word, Comma>>::parse(&mut s).is_err());
    assert_eq!(s.pos(), 2);
    assert_eq!(s.into_messages().len(), 1);
}

#[test]
fn a_trailing_separator_is_kept() {
    let mut s = stream(&[WORD, COMMA, WORD, COMMA, STOP]);
    let r = <SeparatedWithTrailing<Word, Comma>>::parse(&mut s).ok().unwrap();
    assert_eq!(r.items().len(), 2);
    assert_eq!(r.iter().count(), 2);
    assert_eq!(r.trailing().as_ref().map(|c| c.span()), Some(Some(Span::new(1, 30, 35))));
    assert_eq!(r.span(), Some(Span::new(1, 0, 35)));
    assert_eq!(s.pos(), 4);
    assert!(s.into_messages().is_empty());
}

#[test]
fn without_a_trailing_separator_there_is_none() {
    let mut s = stream(&[WORD, COMMA, WORD, STOP]);
    let r = <SeparatedWithTrailing<Word, Comma>>::parse(&mut s).ok().unwrap();
    assert_eq!(r.items().len(), 2);
    assert!(r.trailing().is_none());
    assert_eq!(r.span(), Some(Span::new(1, 0, 25)));
    assert_eq!(s.pos(), 3);
}

#[test]
fn tuples_parse_one_after_the_other() {
    let mut s = stream(&[WORD, COMMA, WORD]);
    let r = <(Word, Comma, Word)>::parse(&mut s).ok().unwrap();
    assert_eq!(r.span(), Some(Span::new(1, 0, 25)));
    assert_eq!(r.1.span(), Some(Span::new(1, 10, 15)));
    assert_eq!(s.pos(), 3);
    let mut s = stream(&[WORD, WORD]);
    assert!(<(Word, Comma)>::parse(&mut s).is_err());
    assert_eq!(s.pos(), 1);
    let mut s = stream(&[WORD, COMMA, WORD, COMMA, WORD]);
    assert!(<(Word, Comma, Word, Comma)>::parse(&mut s).is_ok());
    let mut s = stream(&[WORD, COMMA, WORD, COMMA, WORD]);
    let r = <(Word, Comma, Word, Comma, Word)>::parse(&mut s).ok().unwrap();
    assert_eq!(r.span(), Some(Span::new(1, 0, 45)));
    assert!(<(Word, Comma)>::peek(0, &stream(&[WORD])));
    assert!(!<(Word, Comma)>::peek(0, &stream(&[COMMA])));
}

#[test]
fn dont_expect_reports_what_it_finds() {
    let mut s = stream(&[COMMA, WORD]);
    let r = <DontExpect<Comma, NoComma>>::parse(&mut s).ok().unwrap();
    assert_eq!(r.span(), None);
    assert_eq!(s.pos(), 1);
    let msgs = s.into_messages();
    assert_eq!(msgs.len(), 1);
    assert_eq!(msgs[0].text, "No comma here");
    assert_eq!(msgs[0].level, Level::Error);
    assert_eq!(msgs[0].span, Span::new(1, 10, 15));
}

#[test]
fn dont_expect_is_silent_when_nothing_is_there() {
    let mut s = stream(&[WORD]);
    assert!(<DontExpect<Comma, NoComma>>::parse(&mut s).is_ok());
    assert_eq!(s.pos(), 0);
    assert!(s.into_messages().is_empty());
}

#[test]
fn parse_complete_reports_what_is_left_over() {
    let mut s = stream(&[WORD, WORD, COMMA]);
    let r = <Vec<Word>>::parse_complete(&mut s).ok().unwrap();
    assert_eq!(r.len(), 2);
    let msgs = s.into_messages();
    assert_eq!(msgs.len(), 1);
    assert_eq!(msgs[0].text, "Expected end of file");
    assert_eq!(msgs[0].span, Span::new(1, 20, 25));
}

#[test]
fn parse_complete_is_silent_at_the_end() {
    let mut s = stream(&[WORD, WORD]);
    assert!(<Vec<Word>>::parse_complete(&mut s).is_ok());
    assert!(s.into_messages().is_empty());
    let mut s = stream(&[COMMA]);
    assert!(Word::parse_complete(&mut s).is_err());
}

fn run<F: coherency::parse::ParseFn<usize>>(mut f: F, s: &mut TokenIterator) -> usize {
    f(s).ok().unwrap()
}

#[test]
fn a_closure_on_a_stream_is_a_parse_fn() {
    let mut s = stream(&[WORD, WORD, STOP]);
    let n = run(|s: &mut TokenIterator| <Vec<Word>>::parse(s).map(|v| v.len()), &mut s);
    assert_eq!(n, 2);
    assert_eq!(s.pos(), 2);
}
