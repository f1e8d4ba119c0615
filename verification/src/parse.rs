//! Grammar building blocks: what it means to parse a syntax node from a
//! stream of tokens, and the combinators for options, repetitions and lists.

use core::marker::PhantomData;
use vstd::prelude::*;
use vstd::string::StringExecFns;
use crate::logging::{messages_view, Level, Message, MessageView};
use crate::span::{calculate_span, spec_calculate_span, Span};

verus! {

/// One token: what kind it is and where it stands.
#[derive(Clone, Copy, Debug, PartialEq, Eq, Structural)]
pub struct Token {
    pub kind: u32,
    pub span: Span,
}

/// The tokens of one source with a cursor on the next one to read, and the
/// diagnostics that parsing has reported so far.
pub struct TokenIterator {
    tokens: Vec<Token>,
    pos: usize,
    messages: Vec<Message>,
}

/// A parse error after which parsing cannot go on.
#[derive(Clone, Copy, Debug, PartialEq, Eq, Structural)]
pub struct FatalParseError;

/// A token stream as plain values: all its tokens, how many of them have
/// been read, and the diagnostics reported so far.
pub struct StreamState {
    pub tokens: Seq<Token>,
    pub pos: int,
    pub messages: Seq<MessageView>,
}

impl StreamState {
    /// Where a diagnostic raised now points: the next token, or nowhere in
    /// particular at the end of the source.
    pub open spec fn spec_here(self) -> Span {
        if 0 <= self.pos < self.tokens.len() {
            self.tokens[self.pos].span
        } else {
            Span::spec_builtin()
        }
    }

    /// The stream after an error with the given text was reported at the
    /// cursor.
    pub open spec fn spec_error(self, text: Seq<char>) -> StreamState {
        StreamState {
            messages: self.messages.push(
                MessageView { level: Level::Error, text, span: self.spec_here() },
            ),
            ..self
        }
    }

    /// The stream after one more token was read.
    pub open spec fn spec_next(self) -> StreamState {
        StreamState { pos: self.pos + 1, ..self }
    }

    /// `self` is a stream over the tokens of `before` whose cursor lies
    /// behind that of `before` and within the tokens.
    pub open spec fn spec_beyond(self, before: StreamState) -> bool {
        &&& self.tokens == before.tokens
        &&& before.pos < self.pos <= self.tokens.len()
    }
}

/// How a parse ends: whether it succeeds, and the stream that it leaves.
pub struct ParseOutcome {
    pub ok: bool,
    pub state: StreamState,
}

impl View for TokenIterator {
    type V = StreamState;

    open spec fn view(&self) -> StreamState {
        StreamState {
            tokens: self.spec_tokens(),
            pos: self.spec_pos(),
            messages: self.spec_messages(),
        }
    }
}

/// The text of the diagnostic for tokens left over after a complete parse.
pub open spec fn spec_expected_eof_text() -> Seq<char> {
    "Expected end of file"@
}

impl TokenIterator {
    /// All tokens of the source, read or not.
    pub closed spec fn spec_tokens(&self) -> Seq<Token> {
        self.tokens@
    }

    /// How many tokens have been read.
    pub closed spec fn spec_pos(&self) -> int {
        self.pos as int
    }

    /// The diagnostics reported so far, oldest first.
    pub closed spec fn spec_messages(&self) -> Seq<MessageView> {
        messages_view(self.messages@)
    }

    /// The cursor is on a token or just behind the last one.
    pub open spec fn wf(&self) -> bool {
        0 <= self.spec_pos() <= self.spec_tokens().len()
    }

    /// Where a diagnostic raised now points: the next token, or nowhere in
    /// particular at the end of the source.
    pub open spec fn spec_here(&self) -> Span {
        if self.spec_pos() < self.spec_tokens().len() {
            self.spec_tokens()[self.spec_pos()].span
        } else {
            Span::spec_builtin()
        }
    }

    /// `self` is `before` after some parsing: the same tokens, the cursor
    /// not moved back, and no diagnostic lost.
    pub open spec fn spec_advanced(&self, before: &TokenIterator) -> bool {
        &&& self.wf()
        &&& self.spec_tokens() == before.spec_tokens()
        &&& self.spec_pos() >= before.spec_pos()
        &&& before.spec_messages().is_prefix_of(self.spec_messages())
    }

    /// A stream over `tokens` with nothing read and nothing reported.
    pub fn new(tokens: Vec<Token>) -> (r: TokenIterator)
        ensures
            r.wf(),
            r.spec_tokens() == tokens@,
            r.spec_pos() == 0,
            r.spec_messages() == Seq::<MessageView>::empty(),
    {
        let r = TokenIterator { tokens, pos: 0, messages: Vec::new() };
        assert(r.spec_messages() =~= Seq::<MessageView>::empty());
        r
    }

    /// How many tokens have been read.
    pub fn pos(&self) -> (r: usize)
        ensures
            r == self.spec_pos(),
    {
        self.pos
    }

    /// The token `offset` places after the cursor, if there is one.
    pub fn peek(&self, offset: usize) -> (r: Option<Token>)
        requires
            self.wf(),
        ensures
            r == if self.spec_pos() + offset < self.spec_tokens().len() {
                Some(self.spec_tokens()[self.spec_pos() + offset])
            } else {
                None
            },
    {
        if offset < self.tokens.len() - self.pos {
            Some(self.tokens[self.pos + offset])
        } else {
            None
        }
    }

    /// Reads the next token, if there is one.
    pub fn next(&mut self) -> (r: Option<Token>)
        requires
            old(self).wf(),
        ensures
            final(self).spec_advanced(old(self)),
            final(self).spec_messages() == old(self).spec_messages(),
            r == if old(self).spec_pos() < old(self).spec_tokens().len() {
                Some(old(self).spec_tokens()[old(self).spec_pos()])
            } else {
                None
            },
            final(self).spec_pos() == if r is Some {
                old(self).spec_pos() + 1
            } else {
                old(self).spec_pos()
            },
            final(self)@ == if r is Some {
                old(self)@.spec_next()
            } else {
                old(self)@
            },
    {
        if self.pos < self.tokens.len() {
            let t = self.tokens[self.pos];
            self.pos += 1;
            Some(t)
        } else {
            None
        }
    }

    /// Reports an error at the cursor. Parsing can go on.
    pub fn error(&mut self, text: &str)
        requires
            old(self).wf(),
        ensures
            final(self).spec_advanced(old(self)),
            final(self).spec_pos() == old(self).spec_pos(),
            final(self).spec_messages() == old(self).spec_messages().push(
                MessageView { level: Level::Error, text: text@, span: old(self).spec_here() },
            ),
            final(self)@ == old(self)@.spec_error(text@),
    {
        let span = if self.pos < self.tokens.len() {
            self.tokens[self.pos].span
        } else {
            Span::builtin()
        };
        self.messages.push(Message::from_span(Level::Error, String::from_str(text), &span));
        assert(self.spec_messages() =~= old(self).spec_messages().push(
            MessageView { level: Level::Error, text: text@, span: old(self).spec_here() },
        ));
    }

    /// Reports that the source should have ended at the cursor.
    pub fn expected_eof(&mut self)
        requires
            old(self).wf(),
        ensures
            final(self).spec_advanced(old(self)),
            final(self).spec_pos() == old(self).spec_pos(),
            final(self).spec_messages() == old(self).spec_messages().push(
                MessageView {
                    level: Level::Error,
                    text: spec_expected_eof_text(),
                    span: old(self).spec_here(),
                },
            ),
            final(self)@ == old(self)@.spec_error(spec_expected_eof_text()),
    {
        self.error("Expected end of file");
    }

    /// Hands out the diagnostics reported so far, oldest first.
    pub fn into_messages(self) -> (r: Vec<Message>)
        ensures
            messages_view(r@) == self.spec_messages(),
    {
        self.messages
    }
}

/// A message that is fixed when the program is compiled. An implementation
/// gives `spec_msg` and `get_msg` the same text.
pub trait CompileMessage {
    /// The text of the message.
    spec fn spec_msg() -> &'static str;

    /// The text of the message.
    fn get_msg() -> (r: &'static str)
        ensures
            r@ == Self::spec_msg()@,
    ;
}

/// A function that parses a `T` from a stream of tokens.
pub trait ParseFn<T>: FnMut(&mut TokenIterator) -> Result<T, FatalParseError> {

}

impl<T, F> ParseFn<T> for F where F: FnMut(&mut TokenIterator) -> Result<T, FatalParseError> {

}

/// A syntax node that can be parsed from a stream of tokens.
///
/// An implementation says in `spec_parse` how its parse ends on every
/// stream, and promises that `parse` ends so, that it never moves the
/// cursor back or drops a diagnostic, and that a successful parse of a node
/// that `peek` announced reads at least one token. The combinators rely on
/// this to come to an end, and say over `spec_parse` how they end.
pub trait Parse: Sized {
    /// Whether a node of this type starts `pos` tokens after the cursor.
    spec fn spec_peek(pos: int, state: StreamState) -> bool;

    /// The source region that the node covers, if it covers any.
    spec fn spec_span(&self) -> Option<Span>;

    /// How parsing a node of this type from `state` ends.
    spec fn spec_parse(state: StreamState) -> ParseOutcome;

    /// Parses a node of this type from the stream.
    fn parse(tokenizer: &mut TokenIterator) -> (r: Result<Self, FatalParseError>)
        requires
            old(tokenizer).wf(),
        ensures
            final(tokenizer).spec_advanced(old(tokenizer)),
            r is Ok <==> Self::spec_parse(old(tokenizer)@).ok,
            final(tokenizer)@ == Self::spec_parse(old(tokenizer)@).state,
            r is Ok && Self::spec_peek(0, old(tokenizer)@) ==> final(tokenizer).spec_pos() > old(tokenizer).spec_pos(),
    ;

    /// Whether a node of this type starts `pos` tokens after the cursor.
    fn peek(pos: usize, tokenizer: &TokenIterator) -> (b: bool)
        requires
            tokenizer.wf(),
        ensures
            b == Self::spec_peek(pos as int, tokenizer@),
    ;

    /// The source region that the node covers, if it covers any.
    fn span(&self) -> (r: Option<Span>)
        ensures
            r == self.spec_span(),
    ;

    /// Parses a node of this type if one starts at the cursor; leaves the
    /// stream alone if none does.
    fn peek_and_parse(tokenizer: &mut TokenIterator) -> (r: Result<Option<Self>, FatalParseError>)
        requires
            old(tokenizer).wf(),
        ensures
            final(tokenizer).spec_advanced(old(tokenizer)),
            r is Ok <==> (Self::spec_peek(0, old(tokenizer)@) ==> Self::spec_parse(
                old(tokenizer)@,
            ).ok),
            final(tokenizer)@ == if Self::spec_peek(0, old(tokenizer)@) {
                Self::spec_parse(old(tokenizer)@).state
            } else {
                old(tokenizer)@
            },
            r is Ok ==> (r->Ok_0 is Some <==> Self::spec_peek(0, old(tokenizer)@)),
            r is Ok && r->Ok_0 is Some ==> final(tokenizer).spec_pos() > old(tokenizer).spec_pos(),
    {
        if Self::peek(0, tokenizer) {
            match Self::parse(tokenizer) {
                Ok(t) => Ok(Some(t)),
                Err(e) => Err(e),
            }
        } else {
            Ok(None)
        }
    }

    /// Parses a whole stream into a node of this type. Tokens left over
    /// after the node are reported at the first of them, which is no fatal
    /// error; at the end of the stream nothing is reported.
    fn parse_complete(tokenizer: &mut TokenIterator) -> (r: Result<Self, FatalParseError>)
        requires
            old(tokenizer).wf(),
        ensures
            final(tokenizer).spec_advanced(old(tokenizer)),
            r is Ok <==> Self::spec_parse(old(tokenizer)@).ok,
            final(tokenizer)@ == if r is Ok && Self::spec_parse(old(tokenizer)@).state.pos
                < old(tokenizer)@.tokens.len() {
                Self::spec_parse(old(tokenizer)@).state.spec_error(spec_expected_eof_text())
            } else {
                Self::spec_parse(old(tokenizer)@).state
            },
    {
        let ghost start = *tokenizer;
        let res = match Self::parse(tokenizer) {
            Ok(res) => res,
            Err(e) => {
                return Err(e);
            },
        };
        let ghost parsed = *tokenizer;
        if tokenizer.peek(0).is_some() {
            tokenizer.expected_eof();
            proof {
                lemma_advanced_twice(&start, &parsed, tokenizer);
            }
        }
        Ok(res)
    }

    /// The source region that the node covers, or the built-in span.
    fn span_or_builtin(&self) -> (r: Span)
        ensures
            r == match self.spec_span() {
                Some(s) => s,
                None => Span::spec_builtin(),
            },
    {
        match self.span() {
            Some(s) => s,
            None => Span::builtin(),
        }
    }
}

/// How parsing a `T` ends if one is parsed only where one starts at the
/// cursor: as the parse of `T` ends, or well with the stream untouched.
pub open spec fn spec_peek_and_parse<T: Parse>(state: StreamState) -> ParseOutcome {
    if T::spec_peek(0, state) {
        T::spec_parse(state)
    } else {
        ParseOutcome { ok: true, state }
    }
}

/// How parsing a `T` ends after a parse that ended as `before`: where that
/// one failed, nothing more is parsed.
pub open spec fn spec_then<T: Parse>(before: ParseOutcome) -> ParseOutcome {
    if before.ok {
        T::spec_parse(before.state)
    } else {
        before
    }
}

/// How parsing `T`s for as long as one starts at the cursor ends: well
/// where none starts, with the failure of the first `T` that fails
/// otherwise.
pub open spec fn spec_parse_many<T: Parse>(state: StreamState) -> ParseOutcome
    decreases state.tokens.len() - state.pos,
{
    if !T::spec_peek(0, state) {
        ParseOutcome { ok: true, state }
    } else {
        let item = T::spec_parse(state);
        if item.ok && item.state.spec_beyond(state) {
            spec_parse_many::<T>(item.state)
        } else {
            item
        }
    }
}

/// How parsing a separator `S` and a `T`, for as long as a separator starts
/// at the cursor, ends: well where no separator starts, with the first
/// failure otherwise.
pub open spec fn spec_parse_separated_rest<T: Parse, S: Parse>(state: StreamState) -> ParseOutcome
    decreases state.tokens.len() - state.pos,
{
    if !S::spec_peek(0, state) {
        ParseOutcome { ok: true, state }
    } else {
        let item = spec_then::<T>(S::spec_parse(state));
        if item.ok && item.state.spec_beyond(state) {
            spec_parse_separated_rest::<T, S>(item.state)
        } else {
            item
        }
    }
}

/// How parsing a separator `S` and a `T`, for as long as both start at the
/// cursor, ends: well where no separator starts or no `T` follows one, with
/// the first failure otherwise.
pub open spec fn spec_parse_trailing_rest<T: Parse, S: Parse>(state: StreamState) -> ParseOutcome
    decreases state.tokens.len() - state.pos,
{
    if !S::spec_peek(0, state) {
        ParseOutcome { ok: true, state }
    } else {
        let item = spec_then::<Option<T>>(S::spec_parse(state));
        if item.ok && item.state.spec_beyond(state) && T::spec_peek(
            0,
            S::spec_parse(state).state,
        ) {
            spec_parse_trailing_rest::<T, S>(item.state)
        } else {
            item
        }
    }
}

/// How many `T`s are parsed where `T`s are parsed for as long as one starts
/// at the cursor.
pub open spec fn spec_count_many<T: Parse>(state: StreamState) -> nat
    decreases state.tokens.len() - state.pos,
{
    if !T::spec_peek(0, state) {
        0
    } else {
        let item = T::spec_parse(state);
        if item.ok && item.state.spec_beyond(state) {
            1 + spec_count_many::<T>(item.state)
        } else {
            0
        }
    }
}

/// How many `T`s are parsed where a separator `S` and a `T` are parsed for
/// as long as a separator starts at the cursor.
pub open spec fn spec_count_separated_rest<T: Parse, S: Parse>(state: StreamState) -> nat
    decreases state.tokens.len() - state.pos,
{
    if !S::spec_peek(0, state) {
        0
    } else {
        let item = spec_then::<T>(S::spec_parse(state));
        if item.ok && item.state.spec_beyond(state) {
            1 + spec_count_separated_rest::<T, S>(item.state)
        } else {
            0
        }
    }
}

/// How many `T`s are parsed where a separator `S` and a `T` are parsed for
/// as long as both start at the cursor.
pub open spec fn spec_count_trailing_rest<T: Parse, S: Parse>(state: StreamState) -> nat
    decreases state.tokens.len() - state.pos,
{
    if !S::spec_peek(0, state) {
        0
    } else {
        let item = spec_then::<Option<T>>(S::spec_parse(state));
        if item.ok && item.state.spec_beyond(state) && T::spec_peek(
            0,
            S::spec_parse(state).state,
        ) {
            1 + spec_count_trailing_rest::<T, S>(item.state)
        } else {
            0
        }
    }
}

/// Whether a separator is left without a `T` behind it where a separator
/// `S` and a `T` are parsed for as long as both start at the cursor.
pub open spec fn spec_trailing_kept<T: Parse, S: Parse>(state: StreamState) -> bool
    decreases state.tokens.len() - state.pos,
{
    if !S::spec_peek(0, state) {
        false
    } else {
        let item = spec_then::<Option<T>>(S::spec_parse(state));
        if item.ok && item.state.spec_beyond(state) && T::spec_peek(
            0,
            S::spec_parse(state).state,
        ) {
            spec_trailing_kept::<T, S>(item.state)
        } else {
            item.ok
        }
    }
}

/// Parsing after parsing is parsing: the cursor has not moved back and no
/// diagnostic was lost over both steps.
pub proof fn lemma_advanced_twice(a: &TokenIterator, b: &TokenIterator, c: &TokenIterator)
    requires
        b.spec_advanced(a),
        c.spec_advanced(b),
    ensures
        c.spec_advanced(a),
{
    assert(a.spec_messages() =~= c.spec_messages().subrange(0, a.spec_messages().len() as int))
        by {
        assert(a.spec_messages() =~= b.spec_messages().subrange(
            0,
            a.spec_messages().len() as int,
        ));
        assert(b.spec_messages() =~= c.spec_messages().subrange(
            0,
            b.spec_messages().len() as int,
        ));
    }
}

/// The spans of a sequence of nodes, in order.
pub open spec fn spec_spans<T: Parse>(items: Seq<T>) -> Seq<Option<Span>> {
    items.map_values(|t: T| t.spec_span())
}

fn collect_spans<T: Parse>(items: &Vec<T>) -> (r: Vec<Option<Span>>)
    ensures
        r@ == spec_spans(items@),
{
    let mut spans: Vec<Option<Span>> = Vec::new();
    let mut i: usize = 0;
    while i < items.len()
        invariant
            i <= items.len(),
            spans@ == spec_spans(items@.take(i as int)),
        decreases items.len() - i,
    {
        spans.push(items[i].span());
        assert(spans@ =~= spec_spans(items@.take(i + 1)));
        i += 1;
    }
    assert(items@.take(items.len() as int) =~= items@);
    spans
}

/// Parses nodes of type `T` into `items` for as long as one starts at the
/// cursor.
fn parse_while_present<T: Parse>(tokenizer: &mut TokenIterator, items: &mut Vec<T>) -> (r: Result<
    (),
    FatalParseError,
>)
    requires
        old(tokenizer).wf(),
    ensures
        final(tokenizer).spec_advanced(old(tokenizer)),
        r is Ok <==> spec_parse_many::<T>(old(tokenizer)@).ok,
        final(tokenizer)@ == spec_parse_many::<T>(old(tokenizer)@).state,
        final(items)@.len() >= old(items)@.len(),
        final(items)@.take(old(items)@.len() as int) == old(items)@,
        r is Ok ==> final(items)@.len() == old(items)@.len() + spec_count_many::<T>(
            old(tokenizer)@,
        ),
        r is Ok ==> !T::spec_peek(0, final(tokenizer)@),
        r is Ok && T::spec_peek(0, old(tokenizer)@) ==> final(tokenizer).spec_pos() > old(tokenizer).spec_pos(),
{
    let ghost start = *tokenizer;
    let ghost start_items = items@;
    assert(items@.take(start_items.len() as int) =~= start_items);
    loop
        invariant
            start == *old(tokenizer),
            start_items == old(items)@,
            tokenizer.spec_advanced(&start),
            items@.len() >= start_items.len(),
            items@.take(start_items.len() as int) == start_items,
            tokenizer@ == start@ || tokenizer.spec_pos() > start.spec_pos(),
            spec_parse_many::<T>(start@) == spec_parse_many::<T>(tokenizer@),
            spec_count_many::<T>(start@) == items@.len() - start_items.len() + spec_count_many::<T>(
                tokenizer@,
            ),
        decreases tokenizer.spec_tokens().len() - tokenizer.spec_pos(),
    {
        let ghost before = *tokenizer;
        match T::peek_and_parse(tokenizer) {
            Err(e) => {
                proof {
                    lemma_advanced_twice(&start, &before, tokenizer);
                }
                return Err(e);
            },
            Ok(None) => {
                return Ok(());
            },
            Ok(Some(t)) => {
                proof {
                    lemma_advanced_twice(&start, &before, tokenizer);
                    assert(tokenizer@.spec_beyond(before@));
                }
                items.push(t);
                assert(items@.take(start_items.len() as int) =~= start_items);
            },
        }
    }
}

impl<T: Parse> Parse for Box<T> {
    open spec fn spec_peek(pos: int, state: StreamState) -> bool {
        T::spec_peek(pos, state)
    }

    open spec fn spec_span(&self) -> Option<Span> {
        (**self).spec_span()
    }

    /// Ends as the parse of a `T` ends.
    open spec fn spec_parse(state: StreamState) -> ParseOutcome {
        T::spec_parse(state)
    }

    fn parse(tokenizer: &mut TokenIterator) -> (r: Result<Self, FatalParseError>) {
        match T::parse(tokenizer) {
            Ok(t) => Ok(Box::new(t)),
            Err(e) => Err(e),
        }
    }

    fn peek(pos: usize, tokenizer: &TokenIterator) -> (b: bool) {
        T::peek(pos, tokenizer)
    }

    fn span(&self) -> (r: Option<Span>) {
        (**self).span()
    }
}

impl<T: Parse> Parse for Option<T> {
    open spec fn spec_peek(pos: int, state: StreamState) -> bool {
        T::spec_peek(pos, state)
    }

    open spec fn spec_span(&self) -> Option<Span> {
        match self {
            Some(t) => t.spec_span(),
            None => None,
        }
    }

    /// Ends as the parse of a `T` ends where one starts at the cursor, and
    /// well with the stream untouched where none does.
    open spec fn spec_parse(state: StreamState) -> ParseOutcome {
        spec_peek_and_parse::<T>(state)
    }

    /// Parses a node if one starts at the cursor; nothing otherwise.
    fn parse(tokenizer: &mut TokenIterator) -> (r: Result<Self, FatalParseError>)
        ensures
            r is Ok ==> (r->Ok_0 is Some <==> T::spec_peek(0, old(tokenizer)@)),
    {
        if T::peek(0, tokenizer) {
            match T::parse(tokenizer) {
                Ok(t) => Ok(Some(t)),
                Err(e) => Err(e),
            }
        } else {
            Ok(None)
        }
    }

    fn peek(pos: usize, tokenizer: &TokenIterator) -> (b: bool) {
        T::peek(pos, tokenizer)
    }

    fn span(&self) -> (r: Option<Span>) {
        match self {
            Some(t) => t.span(),
            None => None,
        }
    }
}

impl<T: Parse> Parse for Vec<T> {
    open spec fn spec_peek(pos: int, state: StreamState) -> bool {
        T::spec_peek(pos, state)
    }

    open spec fn spec_span(&self) -> Option<Span> {
        spec_calculate_span(spec_spans(self@))
    }

    open spec fn spec_parse(state: StreamState) -> ParseOutcome {
        spec_parse_many::<T>(state)
    }

    /// Parses nodes for as long as one starts at the cursor.
    fn parse(tokenizer: &mut TokenIterator) -> (r: Result<Self, FatalParseError>)
        ensures
            r is Ok ==> r->Ok_0@.len() == spec_count_many::<T>(old(tokenizer)@),
            r is Ok ==> !T::spec_peek(0, final(tokenizer)@),
    {
        let mut res: Vec<T> = Vec::new();
        match parse_while_present(tokenizer, &mut res) {
            Ok(()) => Ok(res),
            Err(e) => Err(e),
        }
    }

    fn peek(pos: usize, tokenizer: &TokenIterator) -> (b: bool) {
        T::peek(pos, tokenizer)
    }

    fn span(&self) -> (r: Option<Span>) {
        let spans = collect_spans(self);
        calculate_span(&spans)
    }
}

/// One node of type `T` or more, one after the other.
pub struct OneOrMore<T: Parse>(Vec<T>);

impl<T: Parse> OneOrMore<T> {
    /// The nodes, in order.
    pub closed spec fn spec_items(&self) -> Seq<T> {
        self.0@
    }

    /// The nodes, in order.
    pub fn items(&self) -> (r: &Vec<T>)
        ensures
            r@ == self.spec_items(),
    {
        &self.0
    }
}

impl<T: Parse> Parse for OneOrMore<T> {
    open spec fn spec_peek(pos: int, state: StreamState) -> bool {
        T::spec_peek(pos, state)
    }

    open spec fn spec_span(&self) -> Option<Span> {
        spec_calculate_span(spec_spans(self.spec_items()))
    }

    /// Ends as the parse of one `T` and then of as many as come ends.
    open spec fn spec_parse(state: StreamState) -> ParseOutcome {
        spec_then::<Vec<T>>(T::spec_parse(state))
    }

    /// Parses one node, then more for as long as one starts at the cursor.
    fn parse(tokenizer: &mut TokenIterator) -> (r: Result<Self, FatalParseError>)
        ensures
            r is Ok ==> r->Ok_0.spec_items().len() == 1 + spec_count_many::<T>(
                T::spec_parse(old(tokenizer)@).state,
            ) && !T::spec_peek(0, final(tokenizer)@),
    {
        let ghost start = *tokenizer;
        let mut res: Vec<T> = Vec::new();
        match T::parse(tokenizer) {
            Ok(t) => {
                res.push(t);
            },
            Err(e) => {
                return Err(e);
            },
        }
        let ghost mid = *tokenizer;
        let rest = parse_while_present(tokenizer, &mut res);
        proof {
            lemma_advanced_twice(&start, &mid, tokenizer);
        }
        match rest {
            Ok(()) => Ok(OneOrMore(res)),
            Err(e) => Err(e),
        }
    }

    fn peek(pos: usize, tokenizer: &TokenIterator) -> (b: bool) {
        T::peek(pos, tokenizer)
    }

    fn span(&self) -> (r: Option<Span>) {
        let spans = collect_spans(&self.0);
        calculate_span(&spans)
    }
}

/// Nodes of type `T` with a separator of type `S` between each two.
pub struct Separated<T: Parse, S: Parse> {
    items: Vec<T>,
    _phantom: PhantomData<S>,
}

impl<T: Parse, S: Parse> Separated<T, S> {
    /// The nodes, in order, without the separators.
    pub closed spec fn spec_items(&self) -> Seq<T> {
        self.items@
    }

    /// The nodes, in order, without the separators.
    pub fn items(&self) -> (r: &Vec<T>)
        ensures
            r@ == self.spec_items(),
    {
        &self.items
    }

    /// An iterator over the nodes, in order.
    pub fn iter(&self) -> (r: core::slice::Iter<'_, T>)
        ensures
            vstd::std_specs::slice::into_iter_elts(r) == self.spec_items(),
    {
        self.items.iter()
    }
}

impl<T: Parse, S: Parse> Parse for Separated<T, S> {
    open spec fn spec_peek(pos: int, state: StreamState) -> bool {
        T::spec_peek(pos, state)
    }

    open spec fn spec_span(&self) -> Option<Span> {
        spec_calculate_span(spec_spans(self.spec_items()))
    }

    /// Ends as the parse of one `T`, and then of a separator and a `T` for
    /// as long as a separator comes, ends.
    open spec fn spec_parse(state: StreamState) -> ParseOutcome {
        let first = T::spec_parse(state);
        if first.ok {
            spec_parse_separated_rest::<T, S>(first.state)
        } else {
            first
        }
    }

    /// Parses one node, then a separator and a node for as long as a
    /// separator starts at the cursor.
    fn parse(tokenizer: &mut TokenIterator) -> (r: Result<Self, FatalParseError>)
        ensures
            r is Ok ==> r->Ok_0.spec_items().len() == 1 + spec_count_separated_rest::<T, S>(
                T::spec_parse(old(tokenizer)@).state,
            ) && !S::spec_peek(0, final(tokenizer)@),
    {
        let ghost start = *tokenizer;
        let mut items: Vec<T> = Vec::new();
        match T::parse(tokenizer) {
            Ok(t) => {
                items.push(t);
            },
            Err(e) => {
                return Err(e);
            },
        }
        let ghost first = tokenizer@;
        loop
            invariant
                start == *old(tokenizer),
                first == T::spec_parse(start@).state,
                T::spec_parse(start@).ok,
                tokenizer.spec_advanced(&start),
                items@.len() >= 1,
                T::spec_peek(0, start@) ==> tokenizer.spec_pos() > start.spec_pos(),
                spec_parse_separated_rest::<T, S>(first) == spec_parse_separated_rest::<T, S>(
                    tokenizer@,
                ),
                spec_count_separated_rest::<T, S>(first) == items@.len() - 1
                    + spec_count_separated_rest::<T, S>(tokenizer@),
            decreases tokenizer.spec_tokens().len() - tokenizer.spec_pos(),
        {
            let ghost before = *tokenizer;
            match S::peek_and_parse(tokenizer) {
                Err(e) => {
                    proof {
                        lemma_advanced_twice(&start, &before, tokenizer);
                    }
                    return Err(e);
                },
                Ok(None) => {
                    return Ok(Separated { items, _phantom: PhantomData });
                },
                Ok(Some(_)) => {
                    proof {
                        lemma_advanced_twice(&start, &before, tokenizer);
                    }
                },
            }
            let ghost mid = *tokenizer;
            match T::parse(tokenizer) {
                Ok(t) => {
                    items.push(t);
                },
                Err(e) => {
                    proof {
                        lemma_advanced_twice(&start, &mid, tokenizer);
                    }
                    return Err(e);
                },
            }
            proof {
                lemma_advanced_twice(&start, &mid, tokenizer);
                assert(tokenizer@.spec_beyond(before@));
            }
        }
    }

    fn peek(pos: usize, tokenizer: &TokenIterator) -> (b: bool) {
        T::peek(pos, tokenizer)
    }

    fn span(&self) -> (r: Option<Span>) {
        let spans = collect_spans(&self.items);
        calculate_span(&spans)
    }
}

/// Nodes of type `T` with a separator of type `S` between each two, and
/// possibly one more separator after the last.
pub struct SeparatedWithTrailing<T: Parse, S: Parse> {
    items: Vec<T>,
    trailing: Option<S>,
    _phantom: PhantomData<S>,
}

/// The spans of the nodes, then the span of the trailing separator if there
/// is one.
pub open spec fn spec_spans_with_trailing<T: Parse, S: Parse>(
    items: Seq<T>,
    trailing: Option<S>,
) -> Seq<Option<Span>> {
    match trailing {
        Some(sep) => spec_spans(items).push(sep.spec_span()),
        None => spec_spans(items),
    }
}

impl<T: Parse, S: Parse> SeparatedWithTrailing<T, S> {
    /// The nodes, in order, without the separators.
    pub closed spec fn spec_items(&self) -> Seq<T> {
        self.items@
    }

    /// The separator after the last node, if there is one.
    pub closed spec fn spec_trailing(&self) -> Option<S> {
        self.trailing
    }

    /// The nodes, in order, without the separators.
    pub fn items(&self) -> (r: &Vec<T>)
        ensures
            r@ == self.spec_items(),
    {
        &self.items
    }

    /// An iterator over the nodes, in order.
    pub fn iter(&self) -> (r: core::slice::Iter<'_, T>)
        ensures
            vstd::std_specs::slice::into_iter_elts(r) == self.spec_items(),
    {
        self.items.iter()
    }

    /// The separator after the last node, if there is one.
    pub fn trailing(&self) -> (r: &Option<S>)
        ensures
            *r == self.spec_trailing(),
    {
        &self.trailing
    }
}

impl<T: Parse, S: Parse> Parse for SeparatedWithTrailing<T, S> {
    open spec fn spec_peek(pos: int, state: StreamState) -> bool {
        T::spec_peek(pos, state)
    }

    open spec fn spec_span(&self) -> Option<Span> {
        spec_calculate_span(spec_spans_with_trailing(self.spec_items(), self.spec_trailing()))
    }

    /// Ends as the parse of one `T`, and then of a separator and a `T` for
    /// as long as both come, ends.
    open spec fn spec_parse(state: StreamState) -> ParseOutcome {
        let first = T::spec_parse(state);
        if first.ok {
            spec_parse_trailing_rest::<T, S>(first.state)
        } else {
            first
        }
    }

    /// Parses one node, then a separator and a node for as long as both
    /// start at the cursor; a separator that no node follows is the
    /// trailing one.
    fn parse(tokenizer: &mut TokenIterator) -> (r: Result<Self, FatalParseError>)
        ensures
            r is Ok ==> r->Ok_0.spec_items().len() == 1 + spec_count_trailing_rest::<T, S>(
                T::spec_parse(old(tokenizer)@).state,
            ),
            r is Ok ==> (r->Ok_0.spec_trailing() is Some <==> spec_trailing_kept::<T, S>(
                T::spec_parse(old(tokenizer)@).state,
            )),
            r is Ok && r->Ok_0.spec_trailing() is None ==> !S::spec_peek(0, final(tokenizer)@),
            r is Ok && r->Ok_0.spec_trailing() is Some ==> !T::spec_peek(0, final(tokenizer)@),
    {
        let ghost start = *tokenizer;
        let mut items: Vec<T> = Vec::new();
        match T::parse(tokenizer) {
            Ok(t) => {
                items.push(t);
            },
            Err(e) => {
                return Err(e);
            },
        }
        let ghost first = tokenizer@;
        loop
            invariant
                start == *old(tokenizer),
                first == T::spec_parse(start@).state,
                T::spec_parse(start@).ok,
                tokenizer.spec_advanced(&start),
                items@.len() >= 1,
                T::spec_peek(0, start@) ==> tokenizer.spec_pos() > start.spec_pos(),
                spec_parse_trailing_rest::<T, S>(first) == spec_parse_trailing_rest::<T, S>(
                    tokenizer@,
                ),
                spec_count_trailing_rest::<T, S>(first) == items@.len() - 1
                    + spec_count_trailing_rest::<T, S>(tokenizer@),
                spec_trailing_kept::<T, S>(first) == spec_trailing_kept::<T, S>(tokenizer@),
            decreases tokenizer.spec_tokens().len() - tokenizer.spec_pos(),
        {
            let ghost before = *tokenizer;
            let sep = match S::peek_and_parse(tokenizer) {
                Err(e) => {
                    proof {
                        lemma_advanced_twice(&start, &before, tokenizer);
                    }
                    return Err(e);
                },
                Ok(None) => {
                    return Ok(SeparatedWithTrailing { items, trailing: None, _phantom: PhantomData });
                },
                Ok(Some(sep)) => sep,
            };
            proof {
                lemma_advanced_twice(&start, &before, tokenizer);
            }
            let ghost mid = *tokenizer;
            match T::peek_and_parse(tokenizer) {
                Err(e) => {
                    proof {
                        lemma_advanced_twice(&start, &mid, tokenizer);
                    }
                    return Err(e);
                },
                Ok(None) => {
                    return Ok(
                        SeparatedWithTrailing { items, trailing: Some(sep), _phantom: PhantomData },
                    );
                },
                Ok(Some(item)) => {
                    items.push(item);
                },
            }
            proof {
                lemma_advanced_twice(&start, &mid, tokenizer);
                assert(tokenizer@.spec_beyond(before@));
            }
        }
    }

    fn peek(pos: usize, tokenizer: &TokenIterator) -> (b: bool) {
        T::peek(pos, tokenizer)
    }

    fn span(&self) -> (r: Option<Span>) {
        let mut spans = collect_spans(&self.items);
        match &self.trailing {
            Some(sep) => {
                spans.push(sep.span());
            },
            None => {},
        }
        calculate_span(&spans)
    }
}

/// Stands where a node of type `T` must not be: if one is there, it is
/// read and the message `M` is reported.
pub struct DontExpect<T: Parse, M: CompileMessage>(PhantomData<(T, M)>);

impl<T: Parse, M: CompileMessage> Parse for DontExpect<T, M> {
    open spec fn spec_peek(pos: int, state: StreamState) -> bool {
        T::spec_peek(pos, state)
    }

    open spec fn spec_span(&self) -> Option<Span> {
        None
    }

    /// Ends well with the stream untouched where no `T` starts at the
    /// cursor; else as the parse of the `T` ends, with the message reported
    /// behind it where that parse succeeds.
    open spec fn spec_parse(state: StreamState) -> ParseOutcome {
        if !T::spec_peek(0, state) {
            ParseOutcome { ok: true, state }
        } else {
            let found = T::spec_parse(state);
            if found.ok {
                ParseOutcome { ok: true, state: found.state.spec_error(M::spec_msg()@) }
            } else {
                found
            }
        }
    }

    fn parse(tokenizer: &mut TokenIterator) -> (r: Result<Self, FatalParseError>) {
        let ghost start = *tokenizer;
        match T::peek_and_parse(tokenizer) {
            Err(e) => {
                return Err(e);
            },
            Ok(None) => {},
            Ok(Some(_)) => {
                let ghost mid = *tokenizer;
                tokenizer.error(M::get_msg());
                proof {
                    lemma_advanced_twice(&start, &mid, tokenizer);
                }
            },
        }
        Ok(DontExpect(PhantomData))
    }

    fn peek(pos: usize, tokenizer: &TokenIterator) -> (b: bool) {
        T::peek(pos, tokenizer)
    }

    fn span(&self) -> (r: Option<Span>) {
        None
    }
}

/// Marks the node types that stand for a single token.
pub trait IsToken: Parse {
    fn is_token() {
    }
}

impl<T: IsToken> IsToken for Option<T> {

}

/// The text of the diagnostic for a token of another kind than the one
/// asked for.
pub open spec fn spec_unexpected_token_text() -> Seq<char> {
    "Unexpected token"@
}

/// A kind of token that is fixed when the program is compiled. An
/// implementation gives `spec_kind` and `kind` the same number.
pub trait TokenKind {
    /// The number of the kind.
    spec fn spec_kind() -> u32;

    /// The number of the kind.
    fn kind() -> (r: u32)
        ensures
            r == Self::spec_kind(),
    ;
}

/// A single token of the kind `K`.
pub struct TokenOf<K: TokenKind> {
    span: Span,
    _phantom: PhantomData<K>,
}

impl<K: TokenKind> TokenOf<K> {
    /// Where the token stands.
    pub closed spec fn spec_token_span(&self) -> Span {
        self.span
    }
}

impl<K: TokenKind> Parse for TokenOf<K> {
    open spec fn spec_peek(pos: int, state: StreamState) -> bool {
        &&& 0 <= pos
        &&& 0 <= state.pos + pos < state.tokens.len()
        &&& state.tokens[state.pos + pos].kind == K::spec_kind()
    }

    open spec fn spec_span(&self) -> Option<Span> {
        Some(self.spec_token_span())
    }

    /// Ends well with one token read where the next token is of this
    /// kind; else fails with that reported and nothing read.
    open spec fn spec_parse(state: StreamState) -> ParseOutcome {
        if Self::spec_peek(0, state) {
            ParseOutcome { ok: true, state: state.spec_next() }
        } else {
            ParseOutcome { ok: false, state: state.spec_error(spec_unexpected_token_text()) }
        }
    }

    /// Reads the next token if it is of this kind. If it is not, or there
    /// is none, that is reported and the parse fails, with nothing read.
    fn parse(tokenizer: &mut TokenIterator) -> (r: Result<Self, FatalParseError>)
        ensures
            r is Ok ==> r->Ok_0.spec_token_span() == old(tokenizer)@.spec_here(),
    {
        if Self::peek(0, tokenizer) {
            match tokenizer.next() {
                Some(token) => Ok(TokenOf { span: token.span, _phantom: PhantomData }),
                None => Err(FatalParseError),
            }
        } else {
            tokenizer.error("Unexpected token");
            Err(FatalParseError)
        }
    }

    fn peek(pos: usize, tokenizer: &TokenIterator) -> (b: bool) {
        match tokenizer.peek(pos) {
            Some(token) => token.kind == K::kind(),
            None => false,
        }
    }

    fn span(&self) -> (r: Option<Span>) {
        Some(self.span)
    }
}

impl<K: TokenKind> IsToken for TokenOf<K> {

}

/// Two nodes, one after the other.
impl<A: Parse, B: Parse> Parse for (A, B) {
    open spec fn spec_peek(pos: int, state: StreamState) -> bool {
        A::spec_peek(pos, state)
    }

    open spec fn spec_span(&self) -> Option<Span> {
        spec_calculate_span(seq![self.0.spec_span(), self.1.spec_span()])
    }

    /// Ends as the parses of the nodes end, one after the other, up to the
    /// first that fails.
    open spec fn spec_parse(state: StreamState) -> ParseOutcome {
        spec_then::<B>(A::spec_parse(state))
    }

    fn parse(tokenizer: &mut TokenIterator) -> (r: Result<Self, FatalParseError>) {
        let ghost start = *tokenizer;
        let a = match A::parse(tokenizer) {
            Ok(node) => node,
            Err(e) => {
                return Err(e);
            },
        };
        let ghost before_b = *tokenizer;
        let parsed_b = B::parse(tokenizer);
        proof {
            lemma_advanced_twice(&start, &before_b, tokenizer);
        }
        let b = match parsed_b {
            Ok(node) => node,
            Err(e) => {
                return Err(e);
            },
        };
        Ok((a, b))
    }

    fn peek(pos: usize, tokenizer: &TokenIterator) -> (b: bool) {
        A::peek(pos, tokenizer)
    }

    fn span(&self) -> (r: Option<Span>) {
        let mut spans: Vec<Option<Span>> = Vec::new();
        spans.push(self.0.span());
        spans.push(self.1.span());
        assert(spans@ =~= seq![self.0.spec_span(), self.1.spec_span()]);
        calculate_span(&spans)
    }
}

/// Three nodes, one after the other.
impl<A: Parse, B: Parse, C: Parse> Parse for (A, B, C) {
    open spec fn spec_peek(pos: int, state: StreamState) -> bool {
        A::spec_peek(pos, state)
    }

    open spec fn spec_span(&self) -> Option<Span> {
        spec_calculate_span(seq![self.0.spec_span(), self.1.spec_span(), self.2.spec_span()])
    }

    /// Ends as the parses of the nodes end, one after the other, up to the
    /// first that fails.
    open spec fn spec_parse(state: StreamState) -> ParseOutcome {
        spec_then::<C>(spec_then::<B>(A::spec_parse(state)))
    }

    fn parse(tokenizer: &mut TokenIterator) -> (r: Result<Self, FatalParseError>) {
        let ghost start = *tokenizer;
        let a = match A::parse(tokenizer) {
            Ok(node) => node,
            Err(e) => {
                return Err(e);
            },
        };
        let ghost before_b = *tokenizer;
        let parsed_b = B::parse(tokenizer);
        proof {
            lemma_advanced_twice(&start, &before_b, tokenizer);
        }
        let b = match parsed_b {
            Ok(node) => node,
            Err(e) => {
                return Err(e);
            },
        };
        let ghost before_c = *tokenizer;
        let parsed_c = C::parse(tokenizer);
        proof {
            lemma_advanced_twice(&start, &before_c, tokenizer);
        }
        let c = match parsed_c {
            Ok(node) => node,
            Err(e) => {
                return Err(e);
            },
        };
        Ok((a, b, c))
    }

    fn peek(pos: usize, tokenizer: &TokenIterator) -> (b: bool) {
        A::peek(pos, tokenizer)
    }

    fn span(&self) -> (r: Option<Span>) {
        let mut spans: Vec<Option<Span>> = Vec::new();
        spans.push(self.0.span());
        spans.push(self.1.span());
        spans.push(self.2.span());
        assert(spans@ =~= seq![self.0.spec_span(), self.1.spec_span(), self.2.spec_span()]);
        calculate_span(&spans)
    }
}

/// Four nodes, one after the other.
impl<A: Parse, B: Parse, C: Parse, D: Parse> Parse for (A, B, C, D) {
    open spec fn spec_peek(pos: int, state: StreamState) -> bool {
        A::spec_peek(pos, state)
    }

    open spec fn spec_span(&self) -> Option<Span> {
        spec_calculate_span(seq![self.0.spec_span(), self.1.spec_span(), self.2.spec_span(), self.3.spec_span()])
    }

    /// Ends as the parses of the nodes end, one after the other, up to the
    /// first that fails.
    open spec fn spec_parse(state: StreamState) -> ParseOutcome {
        spec_then::<D>(spec_then::<C>(spec_then::<B>(A::spec_parse(state))))
    }

    fn parse(tokenizer: &mut TokenIterator) -> (r: Result<Self, FatalParseError>) {
        let ghost start = *tokenizer;
        let a = match A::parse(tokenizer) {
            Ok(node) => node,
            Err(e) => {
                return Err(e);
            },
        };
        let ghost before_b = *tokenizer;
        let parsed_b = B::parse(tokenizer);
        proof {
            lemma_advanced_twice(&start, &before_b, tokenizer);
        }
        let b = match parsed_b {
            Ok(node) => node,
            Err(e) => {
                return Err(e);
            },
        };
        let ghost before_c = *tokenizer;
        let parsed_c = C::parse(tokenizer);
        proof {
            lemma_advanced_twice(&start, &before_c, tokenizer);
        }
        let c = match parsed_c {
            Ok(node) => node,
            Err(e) => {
                return Err(e);
            },
        };
        let ghost before_d = *tokenizer;
        let parsed_d = D::parse(tokenizer);
        proof {
            lemma_advanced_twice(&start, &before_d, tokenizer);
        }
        let d = match parsed_d {
            Ok(node) => node,
            Err(e) => {
                return Err(e);
            },
        };
        Ok((a, b, c, d))
    }

    fn peek(pos: usize, tokenizer: &TokenIterator) -> (b: bool) {
        A::peek(pos, tokenizer)
    }

    fn span(&self) -> (r: Option<Span>) {
        let mut spans: Vec<Option<Span>> = Vec::new();
        spans.push(self.0.span());
        spans.push(self.1.span());
        spans.push(self.2.span());
        spans.push(self.3.span());
        assert(spans@ =~= seq![self.0.spec_span(), self.1.spec_span(), self.2.spec_span(), self.3.spec_span()]);
        calculate_span(&spans)
    }
}

/// Five nodes, one after the other.
impl<A: Parse, B: Parse, C: Parse, D: Parse, E: Parse> Parse for (A, B, C, D, E) {
    open spec fn spec_peek(pos: int, state: StreamState) -> bool {
        A::spec_peek(pos, state)
    }

    open spec fn spec_span(&self) -> Option<Span> {
        spec_calculate_span(seq![self.0.spec_span(), self.1.spec_span(), self.2.spec_span(), self.3.spec_span(), self.4.spec_span()])
    }

    /// Ends as the parses of the nodes end, one after the other, up to the
    /// first that fails.
    open spec fn spec_parse(state: StreamState) -> ParseOutcome {
        spec_then::<E>(spec_then::<D>(spec_then::<C>(spec_then::<B>(A::spec_parse(state)))))
    }

    fn parse(tokenizer: &mut TokenIterator) -> (r: Result<Self, FatalParseError>) {
        let ghost start = *tokenizer;
        let a = match A::parse(tokenizer) {
            Ok(node) => node,
            Err(e) => {
                return Err(e);
            },
        };
        let ghost before_b = *tokenizer;
        let parsed_b = B::parse(tokenizer);
        proof {
            lemma_advanced_twice(&start, &before_b, tokenizer);
        }
        let b = match parsed_b {
            Ok(node) => node,
            Err(e) => {
                return Err(e);
            },
        };
        let ghost before_c = *tokenizer;
        let parsed_c = C::parse(tokenizer);
        proof {
            lemma_advanced_twice(&start, &before_c, tokenizer);
        }
        let c = match parsed_c {
            Ok(node) => node,
            Err(e) => {
                return Err(e);
            },
        };
        let ghost before_d = *tokenizer;
        let parsed_d = D::parse(tokenizer);
        proof {
            lemma_advanced_twice(&start, &before_d, tokenizer);
        }
        let d = match parsed_d {
            Ok(node) => node,
            Err(e) => {
                return Err(e);
            },
        };
        let ghost before_e = *tokenizer;
        let parsed_e = E::parse(tokenizer);
        proof {
            lemma_advanced_twice(&start, &before_e, tokenizer);
        }
        let e = match parsed_e {
            Ok(node) => node,
            Err(e) => {
                return Err(e);
            },
        };
        Ok((a, b, c, d, e))
    }

    fn peek(pos: usize, tokenizer: &TokenIterator) -> (b: bool) {
        A::peek(pos, tokenizer)
    }

    fn span(&self) -> (r: Option<Span>) {
        let mut spans: Vec<Option<Span>> = Vec::new();
        spans.push(self.0.span());
        spans.push(self.1.span());
        spans.push(self.2.span());
        spans.push(self.3.span());
        spans.push(self.4.span());
        assert(spans@ =~= seq![self.0.spec_span(), self.1.spec_span(), self.2.spec_span(), self.3.spec_span(), self.4.spec_span()]);
        calculate_span(&spans)
    }
}

} // verus!
