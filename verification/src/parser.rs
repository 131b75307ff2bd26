//! The parser: tokens to tree-construction events, with error recovery.
//!
//! The parser never gives up.  Whatever the input, the events it emits
//! describe exactly one tree rooted in a `Root` node, every token of the
//! source is a leaf of that tree, in order, and the errors it reports come in
//! the order of the source.

use crate::events::{
    depth, is_pending, lemma_empty, lemma_insert, lemma_insert_text, lemma_nested_depth,
    lemma_nested_insert, lemma_nested_push, lemma_nested_update, lemma_none_pending, lemma_push,
    lemma_update, nested, pending, text, tombstone, views, well_formed, Event, EventView,
};
use crate::grammar;
use crate::grammar::{ErrorView, State, TokenView};
use crate::green::{build_green, green_events, text_len, MAX_TEXT_LEN};
use crate::lexer::{
    concat_text, contiguous, lex, lexemes, token_is, tokens_are, Lexeme, Token,
};
use crate::syntax::{lemma_raw_injective, SyntaxKind};
use crate::tree::{
    known_kinds, lemma_node_text, node_events, node_laid_out, node_text, read_green, SyntaxNode,
};
use vstd::prelude::*;
use vstd::string::*;
use vstd::utf8::*;

verus! {

/// A range of bytes of the source.
#[derive(Debug, Clone, Copy)]
pub struct Span {
    pub start: usize,
    pub end: usize,
}

/// What the parser found wrong, and where.
#[derive(Debug)]
pub struct ParseError {
    pub message: String,
    pub span: Span,
}

impl Clone for ParseError {
    fn clone(&self) -> (copy: Self)
        ensures
            copy == *self,
    {
        ParseError { message: self.message.clone(), span: self.span }
    }
}

/// A token as a value.
pub open spec fn token_view(token: Token) -> TokenView {
    TokenView {
        kind: token.kind,
        text: token.text@,
        start: token.span.start,
        end: token.span.end,
    }
}

/// Tokens as values.
pub open spec fn token_views(tokens: Seq<Token>) -> Seq<TokenView> {
    Seq::new(tokens.len(), |i: int| token_view(tokens[i]))
}

impl View for ParseError {
    type V = ErrorView;

    open spec fn view(&self) -> ErrorView {
        ErrorView { message: self.message@, start: self.span.start, end: self.span.end }
    }
}

/// Errors as values.
pub open spec fn error_views(errors: Seq<ParseError>) -> Seq<ErrorView> {
    Seq::new(errors.len(), |i: int| errors[i]@)
}

/// The errors come in the order of the source: no error starts before one
/// that was reported earlier.
pub open spec fn in_source_order(errors: Seq<ParseError>) -> bool {
    forall|i: int, j: int|
        0 <= i <= j < errors.len() ==> (#[trigger] errors[i]).span.start <= (
        #[trigger] errors[j]).span.start
}

/// The span of `error` is the span of one of `tokens`.
pub open spec fn at_token(tokens: Seq<Token>, error: ParseError) -> bool {
    exists|i: int|
        0 <= i < tokens.len() && (#[trigger] tokens[i]).span.start == error.span.start
            && tokens[i].span.end == error.span.end
}

/// Each error stands at one of `tokens`.
pub open spec fn at_tokens(tokens: Seq<Token>, errors: Seq<ParseError>) -> bool {
    forall|k: int| 0 <= k < errors.len() ==> at_token(tokens, #[trigger] errors[k])
}

/// Each error covers a range of a text of `len` bytes.
pub open spec fn spans_within(errors: Seq<ParseError>, len: nat) -> bool {
    forall|k: int|
        0 <= k < errors.len() ==> (#[trigger] errors[k]).span.start <= errors[k].span.end <= len
}

/// No token starts before one that stands earlier.
pub open spec fn starts_ascend(tokens: Seq<Token>) -> bool {
    forall|i: int, j: int|
        0 <= i <= j < tokens.len() ==> (#[trigger] tokens[i]).span.start <= (
        #[trigger] tokens[j]).span.start
}

/// A position in the event stream at which a node was opened whose kind is
/// still to be decided.
#[derive(Debug, Clone, Copy)]
pub struct Marker {
    pub pos: usize,
}

/// The position at which a finished node was opened.
#[derive(Debug, Clone, Copy)]
pub struct CompletedMarker {
    pub pos: usize,
}

/// The state of a parse: the tokens with the position reached in them, and
/// the events and errors emitted so far.
pub struct Parser {
    pub tokens: Vec<Token>,
    pub pos: usize,
    pub events: Vec<Event>,
    pub errors: Vec<ParseError>,
}

impl View for Parser {
    type V = State;

    open spec fn view(&self) -> State {
        State {
            tokens: token_views(self.tokens@),
            pos: self.pos as nat,
            events: views(self.events@),
            errors: error_views(self.errors@),
        }
    }
}

impl Parser {
    /// The events emitted so far, as values.
    pub open spec fn model(&self) -> Seq<EventView> {
        views(self.events@)
    }

    /// The kind of the token at the position reached.
    pub open spec fn spec_current(&self) -> SyntaxKind {
        if self.pos < self.tokens@.len() {
            self.tokens@[self.pos as int].kind
        } else {
            SyntaxKind::Eof
        }
    }

    /// What holds of a parser from the start: the token buffer ends in its
    /// one `Eof` token and the position is within it; every event stands
    /// inside an open node; the tokens passed are, text for text, the tokens
    /// emitted; and the errors come in source order, each at a token, none
    /// behind the start of the current token.
    #[verifier::opaque]
    pub open spec fn sound(&self) -> bool {
        &&& self.pos < self.tokens@.len()
        &&& self.tokens@.last().kind == SyntaxKind::Eof
        &&& forall|i: int|
            0 <= i < self.tokens@.len() - 1 ==> (#[trigger] self.tokens@[i]).kind
                != SyntaxKind::Eof
        &&& starts_ascend(self.tokens@)
        &&& nested(self.model())
        &&& text(self.model()) == concat_text(self.tokens@.take(self.pos as int))
        &&& in_source_order(self.errors@)
        &&& at_tokens(self.tokens@, self.errors@)
        &&& forall|k: int|
            0 <= k < self.errors@.len() ==> (#[trigger] self.errors@[k]).span.start
                <= self.tokens@[self.pos as int].span.start
    }

    /// A sound parser inside the root node.
    pub open spec fn wf(&self) -> bool {
        &&& self.sound()
        &&& self.pos < self.tokens@.len()
        &&& self.events@.len() > 0
        &&& depth(self.model()) >= 1
    }

    /// `after` continues `self` with `open` more nodes open: same tokens, no
    /// step back, the events emitted before untouched, and as many
    /// placeholders pending as nodes were opened.
    pub open spec fn extended_by(&self, after: &Parser, open: int) -> bool {
        &&& after.tokens == self.tokens
        &&& self.pos <= after.pos
        &&& self.events@.len() <= after.events@.len()
        &&& forall|i: int|
            0 <= i < self.events@.len() ==> (#[trigger] after.events@[i])@ == self.events@[i]@
        &&& depth(after.model()) == depth(self.model()) + open
        &&& pending(after.model()) == pending(self.model()) + open
        &&& self.errors@.len() <= after.errors@.len()
        &&& after.wf()
    }

    /// `after` continues `self` and has closed every node that it opened.
    pub open spec fn continued_by(&self, after: &Parser) -> bool {
        self.extended_by(after, 0)
    }

    /// `marker` names a placeholder that was set after `self`.
    pub open spec fn opened(&self, after: &Parser, marker: Marker) -> bool {
        self.events@.len() <= marker.pos && after.holds(marker)
    }

    /// `done` names a node that was opened after `self`.
    pub open spec fn finished(&self, after: &Parser, done: CompletedMarker) -> bool {
        self.events@.len() <= done.pos < after.events@.len()
    }

    /// `after` has passed at least one token unless `self` stood at the end.
    pub open spec fn consumed_by(&self, after: &Parser) -> bool {
        self.spec_current() != SyntaxKind::Eof ==> after.pos > self.pos
    }

    /// The number of tokens not yet passed.
    pub open spec fn remaining(&self) -> int {
        self.tokens@.len() - self.pos
    }

    /// Whether `marker` names a placeholder of this parser.
    pub open spec fn holds(&self, marker: Marker) -> bool {
        marker.pos < self.events@.len() && is_pending(self.events@[marker.pos as int]@)
    }

    /// A parser at the start of `tokens`, which end with the one `Eof`.
    pub fn new(tokens: Vec<Token>) -> (p: Parser)
        requires
            tokens@.len() > 0,
            tokens@.last().kind == SyntaxKind::Eof,
            forall|i: int|
                0 <= i < tokens@.len() - 1 ==> (#[trigger] tokens@[i]).kind != SyntaxKind::Eof,
            starts_ascend(tokens@),
        ensures
            p.sound(),
            p.tokens == tokens,
            p.pos == 0,
            p.events@.len() == 0,
            p.errors@.len() == 0,
            p@ == (State {
                tokens: token_views(tokens@),
                pos: 0,
                events: Seq::empty(),
                errors: Seq::empty(),
            }),
    {
        reveal(Parser::sound);
        let p = Parser { tokens, pos: 0, events: Vec::new(), errors: Vec::new() };
        proof {
            lemma_empty();
            assert(p.tokens@.take(0) =~= Seq::<Token>::empty());
            assert(p.model() =~= Seq::<EventView>::empty());
            assert(error_views(p.errors@) =~= Seq::<ErrorView>::empty());
        }
        p
    }

    /// Parses the whole token buffer into one `Root` node.
    pub fn parse_root(&mut self)
        requires
            old(self).sound(),
            old(self).events@.len() == 0,
        ensures
            final(self).tokens == old(self).tokens,
            well_formed(final(self).model()),
            final(self).model()[0] == EventView::Start(SyntaxKind::Root.raw()),
            text(final(self).model()) == concat_text(final(self).tokens@.drop_last()),
            in_source_order(final(self).errors@),
            at_tokens(final(self).tokens@, final(self).errors@),
            old(self).errors@.len() <= final(self).errors@.len(),
            final(self)@ == grammar::root(old(self)@),
    {
        proof {
            reveal(Parser::sound);
            lemma_empty();
            assert(self.model() =~= Seq::<EventView>::empty());
        }
        let m = self.start();
        self.eat_trivia();
        let ghost listed = grammar::top_items(self@);
        while !self.at(SyntaxKind::Eof)
            invariant
                grammar::top_items(self@) == listed,
                self.wf(),
                self.tokens == old(self).tokens,
                self.holds(m),
                m.pos == 0,
                depth(self.model()) == 1,
                pending(self.model()) == 1,
                old(self).errors@.len() <= self.errors@.len(),
            decreases self.remaining(),
        {
            if self.at(SyntaxKind::KwMod) {
                self.parse_module_decl();
            } else if self.at(SyntaxKind::KwUse) {
                self.parse_use_decl();
            } else if self.at(SyntaxKind::KwPub) {
                match self.nth(1) {
                    SyntaxKind::KwFn | SyntaxKind::KwAsync => self.parse_fn_decl(),
                    SyntaxKind::KwStruct | SyntaxKind::KwEnum => self.parse_struct_or_enum(),
                    _ => {
                        let e = self.start();
                        self.error_here("expected 'fn', 'struct', or 'enum' after 'pub'");
                        self.bump_any();
                        self.complete(e, SyntaxKind::Error);
                    },
                }
            } else if self.at(SyntaxKind::KwAsync) || self.at(SyntaxKind::KwFn) {
                self.parse_fn_decl();
            } else if self.at(SyntaxKind::KwStruct) || self.at(SyntaxKind::KwEnum) {
                self.parse_struct_or_enum();
            } else {
                let e = self.start();
                self.error_here("expected item");
                if !self.at(SyntaxKind::Eof) {
                    self.bump_any();
                }
                self.complete(e, SyntaxKind::Error);
            }
            self.eat_trivia();
        }
        self.complete(m, SyntaxKind::Root);
        proof {
            reveal(Parser::sound);
            lemma_none_pending(self.model());
            assert(self.tokens@.take(self.pos as int) =~= self.tokens@.drop_last());
        }
    }

    /// Parses a module declaration.
    fn parse_module_decl(&mut self)
        requires
            old(self).wf(),
        ensures
            old(self).continued_by(final(self)),
            final(self)@ == grammar::module_decl(old(self)@),
            old(self).consumed_by(final(self)),
    {
        let m = self.start();
        self.expect(SyntaxKind::KwMod);
        self.parse_ident();
        self.expect(SyntaxKind::Semi);
        self.complete(m, SyntaxKind::ModuleDecl);
    }

    /// Parses a `use` declaration.
    fn parse_use_decl(&mut self)
        requires
            old(self).wf(),
        ensures
            old(self).continued_by(final(self)),
            final(self)@ == grammar::use_decl(old(self)@),
            old(self).consumed_by(final(self)),
    {
        let m = self.start();
        self.expect(SyntaxKind::KwUse);
        self.parse_use_path();
        self.eat_trivia();
        if self.at(SyntaxKind::KwAs) {
            self.bump_any();
            self.parse_ident();
        }
        self.expect(SyntaxKind::Semi);
        self.complete(m, SyntaxKind::UseDecl);
    }

    /// Parses the path of a `use` declaration.
    fn parse_use_path(&mut self)
        requires
            old(self).wf(),
        ensures
            old(self).continued_by(final(self)),
            final(self)@ == grammar::use_path(old(self)@),
            old(self).consumed_by(final(self)),
    {
        self.eat_trivia();
        let m = self.start();
        self.parse_ident();
        let ghost tail = grammar::path_tail(self@);
        while self.at(SyntaxKind::ColonColon)
            invariant
                grammar::path_tail(self@) == tail,
                old(self).extended_by(self, 1),
                old(self).opened(self, m),
                old(self).consumed_by(self),
            decreases self.remaining(),
        {
            self.bump_any();
            self.parse_ident();
        }
        self.complete(m, SyntaxKind::UsePath);
    }

    /// Parses a function.
    #[verifier::rlimit(40)]
    fn parse_fn_decl(&mut self)
        requires
            old(self).wf(),
        ensures
            old(self).continued_by(final(self)),
            final(self)@ == grammar::fn_decl(old(self)@),
            old(self).consumed_by(final(self)),
    {
        let m = self.start();
        if self.at(SyntaxKind::KwPub) {
            self.bump_any();
            self.eat_trivia();
        }
        if self.at(SyntaxKind::KwAsync) {
            self.bump_any();
        }
        self.expect(SyntaxKind::KwFn);
        self.parse_ident();
        self.expect(SyntaxKind::LParen);
        self.parse_param_list();
        self.eat_trivia();
        if self.at(SyntaxKind::Arrow) {
            self.bump_any();
            self.parse_type();
        }
        self.eat_trivia();
        if self.at(SyntaxKind::Bang) {
            self.parse_effect_set();
        }
        self.eat_trivia();
        self.parse_block();
        self.complete(m, SyntaxKind::FnDecl);
    }

    /// Parses the parameters up to the closing parenthesis, which belongs
    /// to the list.
    fn parse_param_list(&mut self)
        requires
            old(self).wf(),
        ensures
            old(self).continued_by(final(self)),
            final(self)@ == grammar::param_list(old(self)@),
    {
        let params = self.start();
        self.eat_trivia();
        if !self.at(SyntaxKind::RParen) {
            let ghost listed = grammar::items(self@, grammar::Item::Param, SyntaxKind::RParen);
            loop
            invariant_except_break
                grammar::items(self@, grammar::Item::Param, SyntaxKind::RParen) == listed,
            invariant
                old(self).extended_by(self, 1),
                old(self).opened(self, params),
            ensures
                self@ == listed,
            decreases self.remaining(),
            {
                self.parse_param();
                self.eat_trivia();
                if self.at(SyntaxKind::Comma) {
                    self.bump_any();
                    self.eat_trivia();
                    if self.at(SyntaxKind::RParen) {
                        break;
                    }
                } else {
                    break;
                }
            }
        }
        self.expect(SyntaxKind::RParen);
        self.complete(params, SyntaxKind::ParamList);
    }

    /// Parses one parameter.
    fn parse_param(&mut self)
        requires
            old(self).wf(),
        ensures
            old(self).continued_by(final(self)),
            final(self)@ == grammar::param(old(self)@),
            old(self).consumed_by(final(self)),
    {
        let m = self.start();
        if self.at(SyntaxKind::KwMut) {
            self.bump_any();
        }
        self.parse_ident();
        self.expect(SyntaxKind::Colon);
        self.parse_type();
        self.complete(m, SyntaxKind::Param);
    }

    /// Parses a type.
    fn parse_type(&mut self)
        requires
            old(self).wf(),
        ensures
            old(self).continued_by(final(self)),
            final(self)@ == grammar::ty(old(self)@),
            old(self).consumed_by(final(self)),
    {
        self.eat_trivia();
        let m = self.start();
        if self.at(SyntaxKind::Ident) {
            self.parse_ident();
            let ghost tail = grammar::path_tail(self@);
            while self.at(SyntaxKind::ColonColon)
                invariant
                    grammar::path_tail(self@) == tail,
                    old(self).extended_by(self, 1),
                    old(self).opened(self, m),
                    old(self).consumed_by(self),
                decreases self.remaining(),
            {
                self.bump_any();
                self.parse_ident();
            }
        } else {
            self.error_here("expected type");
            self.bump_any();
        }
        self.complete(m, SyntaxKind::Type);
    }

    /// Parses an effect set.
    fn parse_effect_set(&mut self)
        requires
            old(self).wf(),
        ensures
            old(self).continued_by(final(self)),
            final(self)@ == grammar::effect_set(old(self)@),
            old(self).consumed_by(final(self)),
    {
        let m = self.start();
        if self.at(SyntaxKind::Bang) {
            self.bump_any();
        } else {
            self.error_here("expected '!'");
        }
        self.expect(SyntaxKind::LBrace);
        self.eat_trivia();
        if !self.at(SyntaxKind::RBrace) {
            let ghost listed = grammar::items(self@, grammar::Item::Ident, SyntaxKind::RBrace);
            loop
            invariant_except_break
                grammar::items(self@, grammar::Item::Ident, SyntaxKind::RBrace) == listed,
            invariant
                old(self).extended_by(self, 1),
                old(self).opened(self, m),
            ensures
                self@ == listed,
            decreases self.remaining(),
            {
                self.parse_ident();
                self.eat_trivia();
                if self.at(SyntaxKind::Comma) {
                    self.bump_any();
                    self.eat_trivia();
                    if self.at(SyntaxKind::RBrace) {
                        break;
                    }
                } else {
                    break;
                }
            }
        }
        self.expect(SyntaxKind::RBrace);
        self.complete(m, SyntaxKind::EffectSet);
    }

    /// Parses a struct or an enum, whichever the keyword says.
    fn parse_struct_or_enum(&mut self)
        requires
            old(self).wf(),
        ensures
            old(self).continued_by(final(self)),
            final(self)@ == grammar::struct_or_enum(old(self)@),
            old(self).consumed_by(final(self)),
    {
        if self.at(SyntaxKind::KwPub) {
            if self.nth(1) == SyntaxKind::KwStruct {
                self.parse_struct_decl();
            } else if self.nth(1) == SyntaxKind::KwEnum {
                self.parse_enum_decl();
            } else {
                self.error_here("expected 'struct' or 'enum' after 'pub'");
                self.bump_any();
            }
            return ;
        }
        if self.at(SyntaxKind::KwStruct) {
            self.parse_struct_decl();
            return ;
        }
        if self.at(SyntaxKind::KwEnum) {
            self.parse_enum_decl();
            return ;
        }
        self.error_here("expected 'struct' or 'enum'");
        self.bump_any();
    }

    /// Parses a struct.
    fn parse_struct_decl(&mut self)
        requires
            old(self).wf(),
        ensures
            old(self).continued_by(final(self)),
            final(self)@ == grammar::struct_decl(old(self)@),
            old(self).consumed_by(final(self)),
    {
        let m = self.start();
        if self.at(SyntaxKind::KwPub) {
            self.bump_any();
        }
        self.expect(SyntaxKind::KwStruct);
        self.parse_ident();
        self.expect(SyntaxKind::LBrace);
        self.eat_trivia();
        let ghost listed = grammar::fields(self@);
        while !self.at(SyntaxKind::RBrace) && !self.at(SyntaxKind::Eof)
            invariant
                grammar::fields(self@) == listed,
                old(self).extended_by(self, 1),
                old(self).opened(self, m),
                old(self).consumed_by(self),
                !self.spec_current().spec_is_trivia(),
            decreases self.remaining(),
        {
            let f = self.start();
            self.parse_ident();
            self.expect(SyntaxKind::Colon);
            self.parse_type();
            self.expect(SyntaxKind::Semi);
            self.complete(f, SyntaxKind::StructField);
            self.eat_trivia();
        }
        self.expect(SyntaxKind::RBrace);
        self.complete(m, SyntaxKind::StructDecl);
    }

    /// Parses an enum.
    fn parse_enum_decl(&mut self)
        requires
            old(self).wf(),
        ensures
            old(self).continued_by(final(self)),
            final(self)@ == grammar::enum_decl(old(self)@),
            old(self).consumed_by(final(self)),
    {
        let m = self.start();
        if self.at(SyntaxKind::KwPub) {
            self.bump_any();
        }
        self.expect(SyntaxKind::KwEnum);
        self.parse_ident();
        self.expect(SyntaxKind::LBrace);
        self.eat_trivia();
        let ghost listed = grammar::variants(self@);
        while !self.at(SyntaxKind::RBrace) && !self.at(SyntaxKind::Eof)
            invariant
                grammar::variants(self@) == listed,
                old(self).extended_by(self, 1),
                old(self).opened(self, m),
                old(self).consumed_by(self),
                !self.spec_current().spec_is_trivia(),
            decreases self.remaining(),
        {
            let ghost outer = self.pos;
            let v = self.start();
            self.parse_ident();
            self.eat_trivia();
            if self.at(SyntaxKind::LParen) {
                self.bump_any();
                self.eat_trivia();
                if !self.at(SyntaxKind::RParen) {
                    let ghost typed = grammar::items(self@, grammar::Item::Type, SyntaxKind::RParen);
                    loop
                    invariant_except_break
                        grammar::items(self@, grammar::Item::Type, SyntaxKind::RParen) == typed,
                    invariant
                        old(self).extended_by(self, 2),
                        old(self).opened(self, m),
                        old(self).opened(self, v),
                        self.pos > outer,
                    ensures
                        self@ == typed,
                    decreases self.remaining(),
                    {
                        self.parse_type();
                        self.eat_trivia();
                        if self.at(SyntaxKind::Comma) {
                            self.bump_any();
                            self.eat_trivia();
                            if self.at(SyntaxKind::RParen) {
                                break;
                            }
                        } else {
                            break;
                        }
                    }
                }
                self.expect(SyntaxKind::RParen);
            }
            self.expect(SyntaxKind::Semi);
            self.complete(v, SyntaxKind::EnumVariant);
            self.eat_trivia();
        }
        self.expect(SyntaxKind::RBrace);
        self.complete(m, SyntaxKind::EnumDecl);
    }

    /// Parses a block.
    fn parse_block(&mut self) -> (done: CompletedMarker)
        requires
            old(self).wf(),
        ensures
            old(self).continued_by(final(self)),
            old(self).consumed_by(final(self)),
            (final(self)@, done.pos as nat) == grammar::block(old(self)@),
            old(self).finished(final(self), done),
        decreases old(self).remaining(), 0nat,
    {
        let m = self.start();
        self.expect(SyntaxKind::LBrace);
        let stmts = self.start();
        self.eat_trivia();
        let ghost bound = grammar::rem(old(self)@);
        let ghost listed = if grammar::rem(self@) < bound {
            grammar::statements(self@, bound)
        } else {
            self@
        };
        while !self.at(SyntaxKind::RBrace) && !self.at(SyntaxKind::Eof)
            invariant_except_break
                listed == if grammar::rem(self@) < bound {
                    grammar::statements(self@, bound)
                } else {
                    self@
                },
            invariant
                bound == grammar::rem(old(self)@),
                old(self).extended_by(self, 2),
                old(self).opened(self, m),
                old(self).opened(self, stmts),
                old(self).consumed_by(self),
                self.pos > old(self).pos || self.spec_current() == SyntaxKind::Eof,
            ensures
                self@ == listed,
            decreases self.remaining(),
        {
            if self.at(SyntaxKind::KwLet) {
                self.parse_let_stmt();
                self.eat_trivia();
                continue ;
            }
            if self.at(SyntaxKind::KwReturn) {
                self.parse_return_stmt();
                self.eat_trivia();
                continue ;
            }
            let expr = self.parse_expr_bp(0);
            self.eat_trivia();
            if self.at(SyntaxKind::Semi) {
                let s = expr.precede(self);
                self.bump_any();
                self.complete(s, SyntaxKind::ExprStmt);
                self.eat_trivia();
                continue ;
            }
            break ;
        }
        self.complete(stmts, SyntaxKind::StmtList);
        self.expect(SyntaxKind::RBrace);
        self.complete(m, SyntaxKind::Block)
    }

    /// Parses a `let` statement.
    fn parse_let_stmt(&mut self)
        requires
            old(self).wf(),
            old(self).spec_current() == SyntaxKind::KwLet,
        ensures
            old(self).continued_by(final(self)),
            final(self)@ == grammar::let_stmt(old(self)@),
            old(self).consumed_by(final(self)),
        decreases old(self).remaining(), 0nat,
    {
        let m = self.start();
        self.expect(SyntaxKind::KwLet);
        self.eat_trivia();
        if self.at(SyntaxKind::KwMut) {
            self.bump_any();
        }
        self.parse_pattern();
        self.eat_trivia();
        if self.at(SyntaxKind::Colon) {
            self.bump_any();
            self.parse_type();
        }
        self.expect(SyntaxKind::Eq);
        self.parse_expr_bp(0);
        self.expect(SyntaxKind::Semi);
        self.complete(m, SyntaxKind::LetStmt);
    }

    /// Parses a `return` statement.
    fn parse_return_stmt(&mut self)
        requires
            old(self).wf(),
            old(self).spec_current() == SyntaxKind::KwReturn,
        ensures
            old(self).continued_by(final(self)),
            final(self)@ == grammar::return_stmt(old(self)@),
            old(self).consumed_by(final(self)),
        decreases old(self).remaining(), 0nat,
    {
        let m = self.start();
        self.expect(SyntaxKind::KwReturn);
        self.eat_trivia();
        if !self.at(SyntaxKind::Semi) {
            self.parse_expr_bp(0);
        }
        self.expect(SyntaxKind::Semi);
        self.complete(m, SyntaxKind::ReturnStmt);
    }

    /// Parses a pattern.
    fn parse_pattern(&mut self)
        requires
            old(self).wf(),
        ensures
            old(self).continued_by(final(self)),
            final(self)@ == grammar::pattern(old(self)@),
            old(self).consumed_by(final(self)),
    {
        self.eat_trivia();
        let m = self.start();
        if self.at(SyntaxKind::Ident) {
            self.parse_ident();
        } else if self.current().is_literal() {
            self.parse_literal();
        } else if self.at(SyntaxKind::Underscore) {
            self.bump_any();
        } else {
            self.error_here("expected pattern");
            self.bump_any();
        }
        self.complete(m, SyntaxKind::Pattern);
    }

    /// Parses an expression whose operators bind at least as much as `min_bp`.
    fn parse_expr_bp(&mut self, min_bp: u8) -> (done: CompletedMarker)
        requires
            old(self).wf(),
        ensures
            old(self).continued_by(final(self)),
            old(self).consumed_by(final(self)),
            (final(self)@, done.pos as nat) == grammar::expr(old(self)@, min_bp),
            old(self).finished(final(self), done),
        decreases old(self).remaining(), 3nat,
    {
        self.eat_trivia();
        let mut lhs = self.parse_postfix();
        let ghost target = grammar::operators(self@, lhs.pos as nat, min_bp);
        loop
            invariant_except_break
                grammar::operators(self@, lhs.pos as nat, min_bp) == target,
            invariant
                old(self).continued_by(self),
                old(self).consumed_by(self),
                old(self).finished(self, lhs),
            ensures
                (self@, lhs.pos as nat) == target,
            decreases self.remaining(),
        {
            self.eat_trivia();
            let op = self.current();
            let (l_bp, r_bp) = match infix_binding_power(op) {
                Some((l, r)) => (l, r),
                None => break ,
            };
            if l_bp < min_bp {
                break ;
            }
            let m = lhs.precede(self);
            self.bump_any();
            self.parse_expr_bp(r_bp);
            lhs = self.complete(m, SyntaxKind::BinExpr);
        }
        lhs
    }

    /// Parses an operand with its calls and member accesses.
    fn parse_postfix(&mut self) -> (done: CompletedMarker)
        requires
            old(self).wf(),
        ensures
            old(self).continued_by(final(self)),
            old(self).consumed_by(final(self)),
            (final(self)@, done.pos as nat) == grammar::postfix(old(self)@),
            old(self).finished(final(self), done),
        decreases old(self).remaining(), 2nat,
    {
        let mut lhs = self.parse_primary();
        let ghost target = grammar::suffixes(self@, lhs.pos as nat);
        loop
            invariant_except_break
                grammar::suffixes(self@, lhs.pos as nat) == target,
            invariant
                old(self).continued_by(self),
                old(self).consumed_by(self),
                old(self).finished(self, lhs),
            ensures
                (self@, lhs.pos as nat) == target,
            decreases self.remaining(),
        {
            self.eat_trivia();
            if self.at(SyntaxKind::LParen) {
                let ghost head = *self;
                let m = lhs.precede(self);
                self.bump_any();
                self.eat_trivia();
                if !self.at(SyntaxKind::RParen) {
                    let ghost listed = grammar::arguments(self@);
                    loop
                        invariant_except_break
                            grammar::arguments(self@) == listed,
                        invariant
                            old(self).extended_by(self, 1),
                            old(self).opened(self, m),
                            self.pos > head.pos,
                            head.pos >= old(self).pos,
                            self.tokens == head.tokens,
                        ensures
                            self@ == listed,
                        decreases self.remaining(),
                    {
                        self.parse_expr_bp(0);
                        self.eat_trivia();
                        if self.at(SyntaxKind::Comma) {
                            self.bump_any();
                            self.eat_trivia();
                            if self.at(SyntaxKind::RParen) {
                                break ;
                            }
                        } else {
                            break ;
                        }
                    }
                }
                self.expect(SyntaxKind::RParen);
                lhs = self.complete(m, SyntaxKind::CallExpr);
                continue ;
            }
            if self.at(SyntaxKind::Dot) {
                let m = lhs.precede(self);
                self.bump_any();
                self.parse_ident();
                lhs = self.complete(m, SyntaxKind::MemberExpr);
                continue ;
            }
            break ;
        }
        lhs
    }

    /// Parses an operand.
    fn parse_primary(&mut self) -> (done: CompletedMarker)
        requires
            old(self).wf(),
        ensures
            old(self).continued_by(final(self)),
            old(self).consumed_by(final(self)),
            (final(self)@, done.pos as nat) == grammar::primary(old(self)@),
            old(self).finished(final(self), done),
        decreases old(self).remaining(), 1nat,
    {
        self.eat_trivia();
        if self.at(SyntaxKind::LBrace) {
            return self.parse_block();
        }
        if self.at(SyntaxKind::KwIf) {
            return self.parse_if_expr();
        }
        if self.at(SyntaxKind::KwMatch) {
            return self.parse_match_expr();
        }
        if self.at(SyntaxKind::Ident) {
            return self.parse_ident();
        }
        if self.current().is_literal() {
            return self.parse_literal();
        }
        if self.at(SyntaxKind::LParen) {
            let m = self.start();
            self.bump_any();
            self.parse_expr_bp(0);
            self.expect(SyntaxKind::RParen);
            return self.complete(m, SyntaxKind::ParenExpr);
        }
        let m = self.start();
        self.error_here("expected expression");
        if !self.at(SyntaxKind::Eof) {
            self.bump_any();
        }
        self.complete(m, SyntaxKind::Error)
    }

    /// Parses an `if`.
    fn parse_if_expr(&mut self) -> (done: CompletedMarker)
        requires
            old(self).wf(),
            old(self).spec_current() == SyntaxKind::KwIf,
        ensures
            old(self).continued_by(final(self)),
            old(self).consumed_by(final(self)),
            (final(self)@, done.pos as nat) == grammar::if_expr(old(self)@),
            old(self).finished(final(self), done),
        decreases old(self).remaining(), 0nat,
    {
        let m = self.start();
        self.expect(SyntaxKind::KwIf);
        self.parse_expr_bp(0);
        self.parse_block();
        self.eat_trivia();
        if self.at(SyntaxKind::KwElse) {
            self.bump_any();
            self.eat_trivia();
            if self.at(SyntaxKind::KwIf) {
                self.parse_if_expr();
            } else {
                self.parse_block();
            }
        }
        self.complete(m, SyntaxKind::IfExpr)
    }

    /// Parses a `match`.
    fn parse_match_expr(&mut self) -> (done: CompletedMarker)
        requires
            old(self).wf(),
            old(self).spec_current() == SyntaxKind::KwMatch,
        ensures
            old(self).continued_by(final(self)),
            old(self).consumed_by(final(self)),
            (final(self)@, done.pos as nat) == grammar::match_expr(old(self)@),
            old(self).finished(final(self), done),
        decreases old(self).remaining(), 0nat,
    {
        let m = self.start();
        self.expect(SyntaxKind::KwMatch);
        self.parse_expr_bp(0);
        self.expect(SyntaxKind::LBrace);
        self.eat_trivia();
        let ghost bound = grammar::rem(old(self)@);
        let ghost listed = grammar::arms(self@, bound);
        while !self.at(SyntaxKind::RBrace) && !self.at(SyntaxKind::Eof)
            invariant
                bound == grammar::rem(old(self)@),
                grammar::arms(self@, bound) == listed,
                old(self).extended_by(self, 1),
                old(self).opened(self, m),
                old(self).consumed_by(self),
                self.pos > old(self).pos,
                !self.spec_current().spec_is_trivia(),
            decreases self.remaining(),
        {
            let arm = self.start();
            self.parse_pattern();
            self.expect(SyntaxKind::FatArrow);
            self.parse_expr_bp(0);
            if self.at(SyntaxKind::Comma) {
                self.bump_any();
            } else {
                self.error_here("expected ',' after match arm");
            }
            self.complete(arm, SyntaxKind::MatchArm);
            self.eat_trivia();
        }
        self.expect(SyntaxKind::RBrace);
        self.complete(m, SyntaxKind::MatchExpr)
    }

    /// Parses a name.
    fn parse_ident(&mut self) -> (done: CompletedMarker)
        requires
            old(self).wf(),
        ensures
            old(self).continued_by(final(self)),
            old(self).consumed_by(final(self)),
            (final(self)@, done.pos as nat) == grammar::ident(old(self)@),
            old(self).finished(final(self), done),
    {
        self.eat_trivia();
        let m = self.start();
        if self.at(SyntaxKind::Ident) {
            self.bump_any();
        } else {
            self.error_here("expected identifier");
            if !self.at(SyntaxKind::Eof) {
                self.bump_any();
            }
        }
        self.complete(m, SyntaxKind::IdentNode)
    }

    /// Parses a literal.
    fn parse_literal(&mut self) -> (done: CompletedMarker)
        requires
            old(self).wf(),
        ensures
            old(self).continued_by(final(self)),
            old(self).consumed_by(final(self)),
            (final(self)@, done.pos as nat) == grammar::literal(old(self)@),
            old(self).finished(final(self), done),
    {
        let m = self.start();
        if self.current().is_literal() {
            self.bump_any();
        } else {
            self.error_here("expected literal");
            if !self.at(SyntaxKind::Eof) {
                self.bump_any();
            }
        }
        self.complete(m, SyntaxKind::LiteralNode)
    }

    /// Opens a node whose kind is decided later.
    fn start(&mut self) -> (m: Marker)
        requires
            old(self).sound(),
        ensures
            final(self).wf(),
            final(self).tokens == old(self).tokens,
            final(self).pos == old(self).pos,
            final(self).errors == old(self).errors,
            final(self).events@ == old(self).events@.push(Event::StartNode(SyntaxKind::Tombstone)),
            m.pos == old(self).events@.len(),
            final(self).holds(m),
            depth(final(self).model()) == depth(old(self).model()) + 1,
            pending(final(self).model()) == pending(old(self).model()) + 1,
            (final(self)@, m.pos as nat) == grammar::start(old(self)@),
    {
        reveal(Parser::sound);
        let pos = self.events.len();
        let ghost before = self.model();
        self.events.push(Event::StartNode(SyntaxKind::Tombstone));
        proof {
            let e = EventView::Start(tombstone());
            assert(self.model() =~= before.push(e));
            lemma_push(before, e);
            lemma_empty();
            if before.len() > 0 {
                lemma_nested_depth(before);
            } else {
                assert(before =~= Seq::<EventView>::empty());
            }
            lemma_nested_push(before, e);
            assert(text(before) + Seq::<char>::empty() =~= text(before));
        }
        Marker { pos }
    }

    /// Closes the node opened at `marker` and gives it its kind.
    fn complete(&mut self, marker: Marker, kind: SyntaxKind) -> (c: CompletedMarker)
        requires
            old(self).wf(),
            old(self).holds(marker),
            kind != SyntaxKind::Tombstone,
        ensures
            c.pos == marker.pos,
            final(self).tokens == old(self).tokens,
            final(self).pos == old(self).pos,
            final(self).errors == old(self).errors,
            final(self).events@.len() == old(self).events@.len() + 1,
            forall|i: int|
                0 <= i < old(self).events@.len() && i != marker.pos ==> (
                #[trigger] final(self).events@[i])@ == old(self).events@[i]@,
            final(self).events@[marker.pos as int]@ == EventView::Start(kind.raw()),
            final(self).model() == old(self).model().update(
                marker.pos as int,
                EventView::Start(kind.raw()),
            ).push(EventView::Finish),
            depth(final(self).model()) == depth(old(self).model()) - 1,
            pending(final(self).model()) == pending(old(self).model()) - 1,
            depth(old(self).model()) >= 2 ==> final(self).wf(),
            nested(final(self).model().drop_last()),
            text(final(self).model()) == text(old(self).model()),
            (final(self)@, c.pos as nat) == grammar::complete(old(self)@, marker.pos as nat, kind),
    {
        reveal(Parser::sound);
        let ghost before = self.model();
        self.events.set(marker.pos, Event::StartNode(kind));
        self.events.push(Event::FinishNode);
        proof {
            let e = EventView::Start(kind.raw());
            let q = marker.pos as int;
            let named = before.update(q, e);
            assert(self.model() =~= named.push(EventView::Finish));
            lemma_update(before, q, e);
            lemma_push(named, EventView::Finish);
            lemma_nested_update(before, q, kind.raw());
            assert(self.model().drop_last() =~= named);
            assert(text(named) + Seq::<char>::empty() =~= text(named));
            if depth(before) >= 2 {
                lemma_nested_push(named, EventView::Finish);
            }
        }
        CompletedMarker { pos: marker.pos }
    }

    /// Passes the current token into the tree; the `Eof` token stays.
    fn bump_any(&mut self)
        requires
            old(self).wf(),
        ensures
            old(self).continued_by(final(self)),
            old(self).consumed_by(final(self)),
            final(self).pos <= old(self).pos + 1,
            final(self).events@.len() <= old(self).events@.len() + 1,
            final(self).errors == old(self).errors,
            final(self)@ == grammar::bump(old(self)@),
    {
        reveal(Parser::sound);
        let ghost before = self.model();
        let len = self.tokens.len();
        if self.tokens[self.pos].kind != SyntaxKind::Eof {
            let kind = self.tokens[self.pos].kind;
            let text = self.tokens[self.pos].text.clone();
            proof {
                let e = EventView::Token(kind.raw(), text@);
                lemma_push(before, e);
                lemma_nested_depth(before);
                lemma_nested_push(before, e);
                assert(self.tokens@.take(self.pos + 1).drop_last() =~= self.tokens@.take(
                    self.pos as int,
                ));
            }
            self.events.push(Event::Token(kind, text));
            self.pos += 1;
            proof {
                assert(self.model() =~= before.push(EventView::Token(kind.raw(), text@)));
            }
        }
    }

    /// Reports an error at the current token.
    fn error_here(&mut self, message: &str)
        requires
            old(self).wf(),
        ensures
            old(self).continued_by(final(self)),
            final(self).pos == old(self).pos,
            final(self).events == old(self).events,
            final(self).errors@.len() == old(self).errors@.len() + 1,
            final(self)@ == grammar::error(old(self)@, message@),
    {
        reveal(Parser::sound);
        let start = self.tokens[self.pos].span.start;
        let end = self.tokens[self.pos].span.end;
        let error = ParseError { message: String::from_str(message), span: Span { start, end } };
        self.errors.push(error);
        proof {
            assert(error_views(self.errors@) =~= error_views(old(self).errors@).push(error@));
            assert(self.tokens@[self.pos as int].span.start == error.span.start);
            assert(at_token(self.tokens@, error));
            assert forall|k: int| 0 <= k < self.errors@.len() implies at_token(
                self.tokens@,
                #[trigger] self.errors@[k],
            ) by {
                if k < old(self).errors@.len() {
                    assert(self.errors@[k] == old(self).errors@[k]);
                }
            }
        }
    }

    /// Passes the trivia at the current position into the tree.
    fn eat_trivia(&mut self)
        requires
            old(self).wf(),
        ensures
            old(self).continued_by(final(self)),
            !final(self).spec_current().spec_is_trivia(),
            final(self).errors == old(self).errors,
            old(self).spec_current().spec_is_trivia() ==> final(self).pos > old(self).pos,
            !old(self).spec_current().spec_is_trivia() ==> final(self).pos == old(self).pos,
            final(self)@ == grammar::eat_trivia(old(self)@),
    {
        while self.current().is_trivia()
            invariant
                old(self).continued_by(self),
                grammar::eat_trivia(self@) == grammar::eat_trivia(old(self)@),
                self.errors == old(self).errors,
                old(self).spec_current().spec_is_trivia() ==> self.pos > old(self).pos
                    || self.pos == old(self).pos,
                !old(self).spec_current().spec_is_trivia() ==> self.pos == old(self).pos,
            decreases self.remaining(),
        {
            self.bump_any();
        }
    }

    /// The kind of the current token.
    fn current(&self) -> (kind: SyntaxKind)
        ensures
            kind == self.spec_current(),
            kind == grammar::current(self@),
    {
        if self.pos < self.tokens.len() {
            self.tokens[self.pos].kind
        } else {
            SyntaxKind::Eof
        }
    }

    /// Whether the current token is of `kind`.
    fn at(&self, kind: SyntaxKind) -> (b: bool)
        ensures
            b == (self.spec_current() == kind),
            b == (grammar::current(self@) == kind),
    {
        self.current() == kind
    }

    /// The kind of the `n`-th token ahead that is no trivia.
    fn nth(&self, n: usize) -> (kind: SyntaxKind)
        ensures
            kind == grammar::ahead(self@, self.pos as nat, n as nat),
    {
        let mut i: usize = self.pos;
        let mut left: usize = n;
        while i < self.tokens.len()
            invariant
                grammar::ahead(self@, self.pos as nat, n as nat) == grammar::ahead(
                    self@,
                    i as nat,
                    left as nat,
                ),
            decreases self.tokens@.len() - i,
        {
            if !self.tokens[i].kind.is_trivia() {
                if left == 0 {
                    return self.tokens[i].kind;
                }
                left -= 1;
            }
            i += 1;
        }
        SyntaxKind::Eof
    }

    /// Passes a token of `kind`; where another stands, reports it and wraps it
    /// into an `Error` node.
    fn expect(&mut self, kind: SyntaxKind)
        requires
            old(self).wf(),
        ensures
            old(self).continued_by(final(self)),
            old(self).consumed_by(final(self)),
            final(self)@ == grammar::expect(old(self)@, kind),
    {
        self.eat_trivia();
        if self.at(kind) {
            self.bump_any();
        } else {
            let mut message = String::from_str("expected ");
            message.append(kind.debug_name());
            self.error_here(message.as_str());
            let m = self.start();
            if !self.at(SyntaxKind::Eof) {
                self.bump_any();
            }
            self.complete(m, SyntaxKind::Error);
        }
    }
}

impl CompletedMarker {
    /// Opens a node in front of this one, which becomes its first child.
    fn precede(self, p: &mut Parser) -> (m: Marker)
        requires
            old(p).wf(),
            self.pos <= old(p).events@.len(),
        ensures
            m.pos == self.pos,
            final(p).wf(),
            final(p).holds(m),
            final(p).tokens == old(p).tokens,
            final(p).pos == old(p).pos,
            final(p).errors == old(p).errors,
            final(p).events@ == old(p).events@.insert(
                self.pos as int,
                Event::StartNode(SyntaxKind::Tombstone),
            ),
            depth(final(p).model()) == depth(old(p).model()) + 1,
            pending(final(p).model()) == pending(old(p).model()) + 1,
            (final(p)@, m.pos as nat) == grammar::precede(old(p)@, self.pos as nat),
    {
        reveal(Parser::sound);
        let ghost before = p.model();
        p.events.insert(self.pos, Event::StartNode(SyntaxKind::Tombstone));
        proof {
            let e = EventView::Start(tombstone());
            assert(p.model() =~= before.insert(self.pos as int, e));
            lemma_insert(before, self.pos as int, e);
            lemma_insert_text(before, self.pos as int, tombstone());
            lemma_nested_insert(before, self.pos as int, tombstone());
        }
        Marker { pos: self.pos }
    }
}

/// Contiguous tokens start in ascending order.
proof fn lemma_contiguous_ascend(tokens: Seq<Token>, i: int, j: int)
    requires
        contiguous(tokens, 0),
        0 <= i <= j < tokens.len(),
    ensures
        tokens[i].span.start <= tokens[j].span.start,
        tokens[j].span.end <= tokens.last().span.end,
    decreases j - i, tokens.len() - j,
{
    if i < j {
        lemma_contiguous_ascend(tokens, i + 1, j);
        assert(tokens[i + 1].span.start == tokens[i].span.end);
    }
    if j < tokens.len() - 1 {
        lemma_contiguous_ascend(tokens, j + 1, j + 1);
        assert(tokens[j + 1].span.start == tokens[j].span.end);
    }
}

/// Every event that a parser can hold carries a kind of this language.
pub proof fn lemma_known_kinds(events: Seq<Event>)
    ensures
        known_kinds(views(events)),
{
}

/// The result of parsing: the green tree and the errors, in source order.
pub struct Parse {
    pub green: rowan::GreenNode,
    pub errors: Vec<ParseError>,
}

impl Parse {
    /// The events of the tree, in document order.
    pub open spec fn events(&self) -> Seq<EventView> {
        green_events(self.green)
    }

    /// The text of the tree: the texts of its tokens in document order.
    pub open spec fn text(&self) -> Seq<char> {
        text(self.events())
    }

    /// The tree is one `Root` node without placeholders, of kinds of this
    /// language, and its text is no longer than a green tree can hold.
    pub open spec fn wf(&self) -> bool {
        &&& well_formed(self.events())
        &&& self.events()[0] == EventView::Start(SyntaxKind::Root.raw())
        &&& known_kinds(self.events())
        &&& text_len(self.events()) <= MAX_TEXT_LEN
    }

    /// The root of the tree, with byte ranges counted from the start of the
    /// source.
    pub fn syntax(&self) -> (root: SyntaxNode)
        requires
            self.wf(),
        ensures
            node_events(root) == self.events(),
            node_text(root) == self.text(),
            root.kind == SyntaxKind::Root,
            root.start == 0,
            node_laid_out(root),
            forall|source: Seq<char>| is_parse_of(*self, source) ==> is_tree_of(root, source),
    {
        let root = read_green(&self.green, 0);
        proof {
            lemma_node_text(root);
            lemma_raw_injective(root.kind, SyntaxKind::Root);
        }
        root
    }
}

/// A lexeme of `bytes` as a token.
pub open spec fn lexeme_view(bytes: Seq<u8>, lexeme: Lexeme) -> TokenView {
    TokenView {
        kind: lexeme.kind,
        text: decode_utf8(bytes.subrange(lexeme.start, lexeme.end)),
        start: lexeme.start as usize,
        end: lexeme.end as usize,
    }
}

/// The token buffer of a source: the tokens that the lexer's rules give
/// for its bytes, and an `Eof` token without text at the end.
pub open spec fn buffer(bytes: Seq<u8>) -> Seq<TokenView> {
    Seq::new(
        lexemes(bytes, 0).len(),
        |i: int| lexeme_view(bytes, lexemes(bytes, 0)[i]),
    ).push(
        TokenView {
            kind: SyntaxKind::Eof,
            text: Seq::empty(),
            start: bytes.len() as usize,
            end: bytes.len() as usize,
        },
    )
}

/// What parsing makes of a source with the given bytes: the events of the
/// tree and the errors, as the grammar gives them for the token buffer.
pub open spec fn parsed(bytes: Seq<u8>) -> State {
    grammar::root(
        State { tokens: buffer(bytes), pos: 0, events: Seq::empty(), errors: Seq::empty() },
    )
}

/// `parse` is the parse of `source`: its tree has the events and its list
/// the errors that the grammar gives for the tokens of the source.  The
/// tree is then one `Root` node with the text of the source, and the errors
/// come in source order, each with a range of bytes of the source.
pub open spec fn is_parse_of(parse: Parse, source: Seq<char>) -> bool {
    &&& parse.wf()
    &&& parse.events() == parsed(encode_utf8(source)).events
    &&& error_views(parse.errors@) == parsed(encode_utf8(source)).errors
    &&& parse.text() == source
    &&& in_source_order(parse.errors@)
    &&& spans_within(parse.errors@, encode_utf8(source).len())
}

/// `root` is the tree of `source`: a `Root` node with the events that the
/// grammar gives for the tokens of the source, and byte ranges laid out
/// from the first byte.  Its text is then the source.
pub open spec fn is_tree_of(root: SyntaxNode, source: Seq<char>) -> bool {
    &&& root.kind == SyntaxKind::Root
    &&& node_events(root) == parsed(encode_utf8(source)).events
    &&& node_text(root) == source
    &&& root.start == 0
    &&& node_laid_out(root)
}

/// The tokens with the `Eof` token behind them are, as values, the token
/// buffer of the source.
proof fn lemma_buffer(bytes: Seq<u8>, lexed: Seq<Token>, tokens: Seq<Token>)
    requires
        valid_utf8(bytes),
        bytes.len() <= usize::MAX,
        tokens_are(bytes, lexed, lexemes(bytes, 0)),
        tokens.len() == lexed.len() + 1,
        tokens.drop_last() == lexed,
        tokens.last().kind == SyntaxKind::Eof,
        tokens.last().text@ == Seq::<char>::empty(),
        tokens.last().span.start == bytes.len(),
        tokens.last().span.end == bytes.len(),
    ensures
        token_views(tokens) == buffer(bytes),
{
    assert forall|i: int| 0 <= i < tokens.len() implies #[trigger] token_views(tokens)[i]
        == buffer(bytes)[i] by {
        if i < lexed.len() {
            assert(tokens[i] == lexed[i]);
            encode_utf8_decode_utf8(lexed[i].text@);
        }
    }
    assert(token_views(tokens) =~= buffer(bytes));
}

/// Parses `source`.
///
/// Parsing always finishes, with a tree and a list of errors: those that
/// the grammar gives for the tokens of the source.  The tree is one `Root`
/// node; its text is the source, byte for byte, whatever the errors; and
/// the errors come in the order of the source, each with a range of bytes of
/// the source.  The source must not be
/// longer than a green tree can hold.
pub fn parse(source: &str) -> (parse: Parse)
    requires
        source.spec_bytes().len() <= MAX_TEXT_LEN,
    ensures
        is_parse_of(parse, source@),
{
    broadcast use encode_utf8_valid_utf8;

    let mut tokens = lex(source);
    let end = source.as_bytes().len();
    let ghost lexed = tokens@;
    tokens.push(Token { kind: SyntaxKind::Eof, text: String::new(), span: end..end });
    proof {
        assert(tokens@.drop_last() =~= lexed);
        assert forall|i: int, j: int| 0 <= i <= j < tokens@.len() implies (
        #[trigger] tokens@[i]).span.start <= (#[trigger] tokens@[j]).span.start by {
            if j < lexed.len() {
                lemma_contiguous_ascend(lexed, i, j);
            } else if i < lexed.len() {
                lemma_contiguous_ascend(lexed, i, lexed.len() - 1);
            }
        }
        lemma_buffer(source.spec_bytes(), lexed, tokens@);
    }
    let ghost buffer = tokens@;
    let mut p = Parser::new(tokens);
    p.parse_root();
    proof {
        lemma_known_kinds(p.events@);
        assert forall|k: int| 0 <= k < p.errors@.len() implies (#[trigger] p.errors@[k]).span.start
            <= p.errors@[k].span.end <= source.spec_bytes().len() by {
            assert(at_token(buffer, p.errors@[k]));
            let i = choose|i: int|
                0 <= i < buffer.len() && (#[trigger] buffer[i]).span.start
                    == p.errors@[k].span.start && buffer[i].span.end == p.errors@[k].span.end;
            if i < lexed.len() {
                assert(buffer[i] == lexed[i]);
                assert(token_is(
                    source.spec_bytes(),
                    lexed[i],
                    lexemes(source.spec_bytes(), 0)[i],
                ));
            }
        }
    }
    let green = build_green(p.events);
    Parse { green, errors: p.errors }
}

/// The binding powers of a binary operator, left and right.
pub fn infix_binding_power(kind: SyntaxKind) -> (bp: Option<(u8, u8)>)
    ensures
        bp == grammar::binding_power(kind),
        bp matches Some((l, r)) ==> l < r,
{
    match kind {
        SyntaxKind::OrOr => Some((1, 2)),
        SyntaxKind::AndAnd => Some((3, 4)),
        SyntaxKind::EqEq | SyntaxKind::Neq => Some((5, 6)),
        SyntaxKind::Lt | SyntaxKind::Lte | SyntaxKind::Gt | SyntaxKind::Gte => Some((7, 8)),
        SyntaxKind::Plus | SyntaxKind::Minus => Some((9, 10)),
        SyntaxKind::Star | SyntaxKind::Slash | SyntaxKind::Percent => Some((11, 12)),
        _ => None,
    }
}

} // verus!
