//! The grammar: what the parser makes of a token buffer, stated as
//! functions from state to state.
//!
//! A state is the token buffer with the position reached in it, and the
//! events and errors emitted so far.  Each function here takes the state
//! before a construct and gives the state behind it; the functions for
//! nodes that may be wrapped later also give the position at which the node
//! was opened.  The parser of this library is proved to compute exactly
//! these functions.
//!
//! Where a function calls itself or another on a later state, it first
//! makes sure that the position has not moved back; the parser never moves
//! back, so these tests never fail, but they let the functions be defined
//! for every state.

use crate::events::{tombstone, EventView};
use crate::syntax::SyntaxKind;
use vstd::prelude::*;

verus! {

/// A token as a value.
pub struct TokenView {
    pub kind: SyntaxKind,
    pub text: Seq<char>,
    pub start: usize,
    pub end: usize,
}

/// A parse error as a value.
pub struct ErrorView {
    pub message: Seq<char>,
    pub start: usize,
    pub end: usize,
}

/// The state of a parse.
pub struct State {
    pub tokens: Seq<TokenView>,
    pub pos: nat,
    pub events: Seq<EventView>,
    pub errors: Seq<ErrorView>,
}

/// A state and the position at which a node was opened.
pub type Opened = (State, nat);

/// The number of tokens not yet passed.
pub open spec fn rem(s: State) -> nat {
    if s.pos <= s.tokens.len() {
        (s.tokens.len() - s.pos) as nat
    } else {
        0
    }
}

/// The kind of the current token, `Eof` behind the end of the buffer.
pub open spec fn current(s: State) -> SyntaxKind {
    if s.pos < s.tokens.len() {
        s.tokens[s.pos as int].kind
    } else {
        SyntaxKind::Eof
    }
}

/// The kind of the `n`-th token from position `from` on, not counting
/// trivia.
pub open spec fn ahead(s: State, from: nat, n: nat) -> SyntaxKind
    decreases s.tokens.len() - from,
{
    if from >= s.tokens.len() {
        SyntaxKind::Eof
    } else if s.tokens[from as int].kind.spec_is_trivia() {
        ahead(s, from + 1, n)
    } else if n == 0 {
        s.tokens[from as int].kind
    } else {
        ahead(s, from + 1, (n - 1) as nat)
    }
}

/// The kind of the token behind the current one, not counting trivia.
pub open spec fn next(s: State) -> SyntaxKind {
    ahead(s, s.pos, 1)
}

/// Passes the current token and emits it, unless it is `Eof`.
pub open spec fn bump(s: State) -> State {
    if s.pos < s.tokens.len() && s.tokens[s.pos as int].kind != SyntaxKind::Eof {
        State {
            pos: s.pos + 1,
            events: s.events.push(
                EventView::Token(s.tokens[s.pos as int].kind.raw(), s.tokens[s.pos as int].text),
            ),
            ..s
        }
    } else {
        s
    }
}

/// Passes the current token if it is of the given kind.
pub open spec fn bump_if(s: State, kind: SyntaxKind) -> State {
    if current(s) == kind {
        bump(s)
    } else {
        s
    }
}

/// Opens a node whose kind is yet to be decided.
pub open spec fn start(s: State) -> Opened {
    (State { events: s.events.push(EventView::Start(tombstone())), ..s }, s.events.len())
}

/// Gives the node opened at `at` its kind and closes it.
pub open spec fn complete(s: State, at: nat, kind: SyntaxKind) -> Opened {
    (
        State {
            events: s.events.update(at as int, EventView::Start(kind.raw())).push(
                EventView::Finish,
            ),
            ..s
        },
        at,
    )
}

/// Opens a node in front of the node that was opened at `at`.
pub open spec fn precede(s: State, at: nat) -> Opened {
    (State { events: s.events.insert(at as int, EventView::Start(tombstone())), ..s }, at)
}

/// Reports an error at the current token.
pub open spec fn error(s: State, message: Seq<char>) -> State {
    if s.pos < s.tokens.len() {
        State {
            errors: s.errors.push(
                ErrorView {
                    message,
                    start: s.tokens[s.pos as int].start,
                    end: s.tokens[s.pos as int].end,
                },
            ),
            ..s
        }
    } else {
        s
    }
}

/// Passes white space and comments.
pub open spec fn eat_trivia(s: State) -> State
    decreases rem(s),
{
    if s.pos < s.tokens.len() && s.tokens[s.pos as int].kind.spec_is_trivia() {
        eat_trivia(bump(s))
    } else {
        s
    }
}

/// An `Error` node around the current token, or around nothing at the end.
pub open spec fn error_node(s: State) -> State {
    let (opened, at) = start(s);
    complete(
        if current(opened) != SyntaxKind::Eof {
            bump(opened)
        } else {
            opened
        },
        at,
        SyntaxKind::Error,
    ).0
}

/// Passes a token of the given kind behind trivia; where another token
/// stands, reports `expected` with the name of the kind and wraps that token
/// in an `Error` node.
pub open spec fn expect(s: State, kind: SyntaxKind) -> State {
    let at = eat_trivia(s);
    if current(at) == kind {
        bump(at)
    } else {
        error_node(error(at, "expected "@ + kind.name()))
    }
}

/// A node of the given kind around one token of the kind `token`; where
/// another token stands, the error `message` and that token, if any.
pub open spec fn token_node(s: State, fits: bool, message: Seq<char>, kind: SyntaxKind) -> Opened {
    let (opened, at) = start(s);
    complete(
        if fits {
            bump(opened)
        } else {
            let reported = error(opened, message);
            if current(reported) != SyntaxKind::Eof {
                bump(reported)
            } else {
                reported
            }
        },
        at,
        kind,
    )
}

/// `IdentNode`: an identifier behind trivia.
pub open spec fn ident(s: State) -> Opened {
    let at = eat_trivia(s);
    token_node(
        at,
        current(at) == SyntaxKind::Ident,
        "expected identifier"@,
        SyntaxKind::IdentNode,
    )
}

/// `LiteralNode`: a literal token.
pub open spec fn literal(s: State) -> Opened {
    token_node(s, current(s).spec_is_literal(), "expected literal"@, SyntaxKind::LiteralNode)
}

/// The rest of a path: `::` and a name, as often as `::` follows directly.
pub open spec fn path_tail(s: State) -> State
    decreases rem(s),
{
    if current(s) == SyntaxKind::ColonColon {
        let after = ident(bump(s)).0;
        if rem(after) < rem(s) {
            path_tail(after)
        } else {
            after
        }
    } else {
        s
    }
}

/// `Type`: a path of names behind trivia; where no name stands, the error
/// `expected type` and the token that stands there.
pub open spec fn ty(s: State) -> State {
    let (opened, at) = start(eat_trivia(s));
    complete(
        if current(opened) == SyntaxKind::Ident {
            path_tail(ident(opened).0)
        } else {
            bump(error(opened, "expected type"@))
        },
        at,
        SyntaxKind::Type,
    ).0
}

/// `UsePath`: a path of names behind trivia.
pub open spec fn use_path(s: State) -> State {
    let (opened, at) = start(eat_trivia(s));
    complete(path_tail(ident(opened).0), at, SyntaxKind::UsePath).0
}

/// `Pattern`: a name, a literal or `_` behind trivia; else the error
/// `expected pattern` and the token that stands there.
pub open spec fn pattern(s: State) -> State {
    let (opened, at) = start(eat_trivia(s));
    complete(
        if current(opened) == SyntaxKind::Ident {
            ident(opened).0
        } else if current(opened).spec_is_literal() {
            literal(opened).0
        } else if current(opened) == SyntaxKind::Underscore {
            bump(opened)
        } else {
            bump(error(opened, "expected pattern"@))
        },
        at,
        SyntaxKind::Pattern,
    ).0
}

/// `Param`: `mut`, if any, a name, a colon and a type.
pub open spec fn param(s: State) -> State {
    let (opened, at) = start(s);
    complete(
        ty(expect(ident(bump_if(opened, SyntaxKind::KwMut)).0, SyntaxKind::Colon)),
        at,
        SyntaxKind::Param,
    ).0
}

/// What a list that is separated by commas consists of.
pub enum Item {
    Param,
    Ident,
    Type,
}

/// One item of a list.
pub open spec fn item(s: State, of: Item) -> State {
    match of {
        Item::Param => param(s),
        Item::Ident => ident(s).0,
        Item::Type => ty(s),
    }
}

/// Items separated by commas, up to the token `close` or to where no comma
/// follows an item; a comma may stand before `close`.
pub open spec fn items(s: State, of: Item, close: SyntaxKind) -> State
    decreases rem(s),
{
    let one = eat_trivia(item(s, of));
    if current(one) == SyntaxKind::Comma {
        let after = eat_trivia(bump(one));
        if current(after) == close || rem(after) >= rem(s) {
            after
        } else {
            items(after, of, close)
        }
    } else {
        one
    }
}

/// A list of items, which may be empty, in front of the token `close`.
pub open spec fn list(s: State, of: Item, close: SyntaxKind) -> State {
    if current(s) != close {
        items(s, of, close)
    } else {
        s
    }
}

/// `ParamList`: the parameters and the closing parenthesis.
pub open spec fn param_list(s: State) -> State {
    let (opened, at) = start(s);
    complete(
        expect(list(eat_trivia(opened), Item::Param, SyntaxKind::RParen), SyntaxKind::RParen),
        at,
        SyntaxKind::ParamList,
    ).0
}

/// `EffectSet`: `!`, and names in braces.
pub open spec fn effect_set(s: State) -> State {
    let (opened, at) = start(s);
    let banged = if current(opened) == SyntaxKind::Bang {
        bump(opened)
    } else {
        error(opened, "expected '!'"@)
    };
    complete(
        expect(
            list(
                eat_trivia(expect(banged, SyntaxKind::LBrace)),
                Item::Ident,
                SyntaxKind::RBrace,
            ),
            SyntaxKind::RBrace,
        ),
        at,
        SyntaxKind::EffectSet,
    ).0
}

/// `ModuleDecl`: `mod name;`
pub open spec fn module_decl(s: State) -> State {
    let (opened, at) = start(s);
    complete(
        expect(ident(expect(opened, SyntaxKind::KwMod)).0, SyntaxKind::Semi),
        at,
        SyntaxKind::ModuleDecl,
    ).0
}

/// `UseDecl`: `use path as name;`, the alias being optional.
pub open spec fn use_decl(s: State) -> State {
    let (opened, at) = start(s);
    let named = eat_trivia(use_path(expect(opened, SyntaxKind::KwUse)));
    complete(
        expect(
            if current(named) == SyntaxKind::KwAs {
                ident(bump(named)).0
            } else {
                named
            },
            SyntaxKind::Semi,
        ),
        at,
        SyntaxKind::UseDecl,
    ).0
}

/// The fields of a struct, `name: Type;` each, up to the closing brace.
pub open spec fn fields(s: State) -> State
    decreases rem(s),
{
    if current(s) == SyntaxKind::RBrace || current(s) == SyntaxKind::Eof {
        s
    } else {
        let (opened, at) = start(s);
        let after = eat_trivia(
            complete(
                expect(
                    ty(expect(ident(opened).0, SyntaxKind::Colon)),
                    SyntaxKind::Semi,
                ),
                at,
                SyntaxKind::StructField,
            ).0,
        );
        if rem(after) < rem(s) {
            fields(after)
        } else {
            after
        }
    }
}

/// `StructDecl`: `pub struct Name { fields }`, `pub` being optional.
pub open spec fn struct_decl(s: State) -> State {
    let (opened, at) = start(s);
    complete(
        expect(
            fields(
                eat_trivia(
                    expect(
                        ident(
                            expect(bump_if(opened, SyntaxKind::KwPub), SyntaxKind::KwStruct),
                        ).0,
                        SyntaxKind::LBrace,
                    ),
                ),
            ),
            SyntaxKind::RBrace,
        ),
        at,
        SyntaxKind::StructDecl,
    ).0
}

/// The variants of an enum, `Name(Type, ..);` each with its types being
/// optional, up to the closing brace.
pub open spec fn variants(s: State) -> State
    decreases rem(s),
{
    if current(s) == SyntaxKind::RBrace || current(s) == SyntaxKind::Eof {
        s
    } else {
        let (opened, at) = start(s);
        let named = eat_trivia(ident(opened).0);
        let typed = if current(named) == SyntaxKind::LParen {
            expect(
                list(eat_trivia(bump(named)), Item::Type, SyntaxKind::RParen),
                SyntaxKind::RParen,
            )
        } else {
            named
        };
        let after = eat_trivia(
            complete(expect(typed, SyntaxKind::Semi), at, SyntaxKind::EnumVariant).0,
        );
        if rem(after) < rem(s) {
            variants(after)
        } else {
            after
        }
    }
}

/// `EnumDecl`: `pub enum Name { variants }`, `pub` being optional.
pub open spec fn enum_decl(s: State) -> State {
    let (opened, at) = start(s);
    complete(
        expect(
            variants(
                eat_trivia(
                    expect(
                        ident(expect(bump_if(opened, SyntaxKind::KwPub), SyntaxKind::KwEnum)).0,
                        SyntaxKind::LBrace,
                    ),
                ),
            ),
            SyntaxKind::RBrace,
        ),
        at,
        SyntaxKind::EnumDecl,
    ).0
}

/// A struct or an enum, by the keyword that stands first or behind `pub`;
/// else an error and the token that stands there.
pub open spec fn struct_or_enum(s: State) -> State {
    if current(s) == SyntaxKind::KwPub {
        if next(s) == SyntaxKind::KwStruct {
            struct_decl(s)
        } else if next(s) == SyntaxKind::KwEnum {
            enum_decl(s)
        } else {
            bump(error(s, "expected 'struct' or 'enum' after 'pub'"@))
        }
    } else if current(s) == SyntaxKind::KwStruct {
        struct_decl(s)
    } else if current(s) == SyntaxKind::KwEnum {
        enum_decl(s)
    } else {
        bump(error(s, "expected 'struct' or 'enum'"@))
    }
}

/// The binding powers of a binary operator, left and right; `None` for
/// every other kind.  All operators associate to the left.
pub open spec fn binding_power(kind: SyntaxKind) -> Option<(u8, u8)> {
    match kind {
        SyntaxKind::OrOr => Some((1u8, 2u8)),
        SyntaxKind::AndAnd => Some((3u8, 4u8)),
        SyntaxKind::EqEq | SyntaxKind::Neq => Some((5u8, 6u8)),
        SyntaxKind::Lt | SyntaxKind::Lte | SyntaxKind::Gt | SyntaxKind::Gte => Some((7u8, 8u8)),
        SyntaxKind::Plus | SyntaxKind::Minus => Some((9u8, 10u8)),
        SyntaxKind::Star | SyntaxKind::Slash | SyntaxKind::Percent => Some((11u8, 12u8)),
        _ => None,
    }
}

/// An expression whose operators bind at least with `min_bp`: an operand
/// behind trivia, and operators with their right operands.
pub open spec fn expr(s: State, min_bp: u8) -> Opened
    decreases rem(s), 6nat, 0nat,
{
    let at = eat_trivia(s);
    if rem(at) <= rem(s) {
        let (operand, lhs) = postfix(at);
        if rem(operand) <= rem(s) {
            operators(operand, lhs, min_bp)
        } else {
            (operand, lhs)
        }
    } else {
        (at, 0)
    }
}

/// The operators behind the operand opened at `lhs`: while an operator that
/// binds at least with `min_bp` follows, it and its right operand are
/// wrapped with the operand into a `BinExpr`, which is the operand from then
/// on.
pub open spec fn operators(s: State, lhs: nat, min_bp: u8) -> Opened
    decreases rem(s), 5nat, 0nat,
{
    let at = eat_trivia(s);
    match binding_power(current(at)) {
        Some((l_bp, r_bp)) => if l_bp < min_bp {
            (at, lhs)
        } else {
            let taken = bump(precede(at, lhs).0);
            if rem(taken) < rem(s) {
                let (wrapped, _) = complete(expr(taken, r_bp).0, lhs, SyntaxKind::BinExpr);
                if rem(wrapped) < rem(s) {
                    operators(wrapped, lhs, min_bp)
                } else {
                    (wrapped, lhs)
                }
            } else {
                (taken, lhs)
            }
        },
        None => (at, lhs),
    }
}

/// An operand with the calls and member accesses that follow it.
pub open spec fn postfix(s: State) -> Opened
    decreases rem(s), 4nat, 0nat,
{
    let (operand, lhs) = primary(s);
    if rem(operand) <= rem(s) {
        suffixes(operand, lhs)
    } else {
        (operand, lhs)
    }
}

/// The suffixes behind the operand opened at `lhs`: an argument list wraps
/// it into a `CallExpr`, a dot and a name into a `MemberExpr`, which is the
/// operand from then on.
pub open spec fn suffixes(s: State, lhs: nat) -> Opened
    decreases rem(s), 3nat, 0nat,
{
    let at = eat_trivia(s);
    if current(at) == SyntaxKind::LParen {
        let inside = eat_trivia(bump(precede(at, lhs).0));
        if rem(inside) < rem(s) {
            let (wrapped, _) = complete(
                expect(
                    if current(inside) != SyntaxKind::RParen {
                        arguments(inside)
                    } else {
                        inside
                    },
                    SyntaxKind::RParen,
                ),
                lhs,
                SyntaxKind::CallExpr,
            );
            if rem(wrapped) < rem(s) {
                suffixes(wrapped, lhs)
            } else {
                (wrapped, lhs)
            }
        } else {
            (inside, lhs)
        }
    } else if current(at) == SyntaxKind::Dot {
        let (wrapped, _) = complete(
            ident(bump(precede(at, lhs).0)).0,
            lhs,
            SyntaxKind::MemberExpr,
        );
        if rem(wrapped) < rem(s) {
            suffixes(wrapped, lhs)
        } else {
            (wrapped, lhs)
        }
    } else {
        (at, lhs)
    }
}

/// The arguments of a call, separated by commas; a comma may stand before
/// the closing parenthesis.
pub open spec fn arguments(s: State) -> State
    decreases rem(s), 7nat, 0nat,
{
    let one = eat_trivia(expr(s, 0).0);
    if current(one) == SyntaxKind::Comma {
        let after = eat_trivia(bump(one));
        if current(after) == SyntaxKind::RParen || rem(after) >= rem(s) {
            after
        } else {
            arguments(after)
        }
    } else {
        one
    }
}

/// An operand: a block, an `if`, a `match`, a name, a literal or an
/// expression in parentheses, behind trivia; else the error `expected
/// expression` and an `Error` node around the token that stands there.
pub open spec fn primary(s: State) -> Opened
    decreases rem(s), 2nat, 0nat,
{
    let at = eat_trivia(s);
    if rem(at) > rem(s) {
        (at, 0)
    } else if current(at) == SyntaxKind::LBrace {
        block(at)
    } else if current(at) == SyntaxKind::KwIf {
        if_expr(at)
    } else if current(at) == SyntaxKind::KwMatch {
        match_expr(at)
    } else if current(at) == SyntaxKind::Ident {
        ident(at)
    } else if current(at).spec_is_literal() {
        literal(at)
    } else if current(at) == SyntaxKind::LParen {
        let (opened, from) = start(at);
        let inside = bump(opened);
        if rem(inside) < rem(s) {
            complete(expect(expr(inside, 0).0, SyntaxKind::RParen), from, SyntaxKind::ParenExpr)
        } else {
            (inside, from)
        }
    } else {
        let (opened, from) = start(at);
        let reported = error(opened, "expected expression"@);
        complete(
            if current(reported) != SyntaxKind::Eof {
                bump(reported)
            } else {
                reported
            },
            from,
            SyntaxKind::Error,
        )
    }
}

/// `Block`: statements in braces, gathered in a `StmtList`.
pub open spec fn block(s: State) -> Opened
    decreases rem(s), 1nat, 0nat,
{
    let (opened, at) = start(s);
    let (listed, list_at) = start(expect(opened, SyntaxKind::LBrace));
    let inside = eat_trivia(listed);
    complete(
        expect(
            complete(
                if rem(inside) < rem(s) {
                    statements(inside, rem(s))
                } else {
                    inside
                },
                list_at,
                SyntaxKind::StmtList,
            ).0,
            SyntaxKind::RBrace,
        ),
        at,
        SyntaxKind::Block,
    )
}

/// The statements of a block, up to the closing brace: `let` and `return`
/// statements, and expressions; an expression with a semicolon behind it is
/// wrapped into an `ExprStmt`, one without ends the statements.  `bound` is
/// more than the number of tokens left.
pub open spec fn statements(s: State, bound: nat) -> State
    decreases bound, 0nat, rem(s),
{
    if rem(s) >= bound || current(s) == SyntaxKind::RBrace || current(s) == SyntaxKind::Eof {
        s
    } else if current(s) == SyntaxKind::KwLet {
        let after = eat_trivia(let_stmt(s));
        if rem(after) < rem(s) {
            statements(after, bound)
        } else {
            after
        }
    } else if current(s) == SyntaxKind::KwReturn {
        let after = eat_trivia(return_stmt(s));
        if rem(after) < rem(s) {
            statements(after, bound)
        } else {
            after
        }
    } else {
        let (parsed, at) = expr(s, 0);
        let behind = eat_trivia(parsed);
        if current(behind) == SyntaxKind::Semi {
            let after = eat_trivia(
                complete(bump(precede(behind, at).0), at, SyntaxKind::ExprStmt).0,
            );
            if rem(after) < rem(s) {
                statements(after, bound)
            } else {
                after
            }
        } else {
            behind
        }
    }
}

/// `LetStmt`: `let mut pattern: Type = expr;`, `mut` and the type being
/// optional.
pub open spec fn let_stmt(s: State) -> State
    decreases rem(s), 1nat, 0nat,
{
    let (opened, at) = start(s);
    let matched = eat_trivia(
        pattern(bump_if(eat_trivia(expect(opened, SyntaxKind::KwLet)), SyntaxKind::KwMut)),
    );
    let assigned = expect(
        if current(matched) == SyntaxKind::Colon {
            ty(bump(matched))
        } else {
            matched
        },
        SyntaxKind::Eq,
    );
    complete(
        expect(
            if rem(assigned) < rem(s) {
                expr(assigned, 0).0
            } else {
                assigned
            },
            SyntaxKind::Semi,
        ),
        at,
        SyntaxKind::LetStmt,
    ).0
}

/// `ReturnStmt`: `return expr;`, the expression being optional.
pub open spec fn return_stmt(s: State) -> State
    decreases rem(s), 1nat, 0nat,
{
    let (opened, at) = start(s);
    let returned = eat_trivia(expect(opened, SyntaxKind::KwReturn));
    complete(
        expect(
            if current(returned) != SyntaxKind::Semi && rem(returned) < rem(s) {
                expr(returned, 0).0
            } else {
                returned
            },
            SyntaxKind::Semi,
        ),
        at,
        SyntaxKind::ReturnStmt,
    )
    .0
}

/// `IfExpr`: `if expr block`, and `else` with a further `if` or a block.
pub open spec fn if_expr(s: State) -> Opened
    decreases rem(s), 1nat, 0nat,
{
    let (opened, at) = start(s);
    let tested = expect(opened, SyntaxKind::KwIf);
    if rem(tested) < rem(s) {
        let condition = expr(tested, 0).0;
        if rem(condition) < rem(s) {
            let then = eat_trivia(block(condition).0);
            complete(
                if current(then) == SyntaxKind::KwElse {
                    let other = eat_trivia(bump(then));
                    if rem(other) < rem(s) {
                        if current(other) == SyntaxKind::KwIf {
                            if_expr(other).0
                        } else {
                            block(other).0
                        }
                    } else {
                        other
                    }
                } else {
                    then
                },
                at,
                SyntaxKind::IfExpr,
            )
        } else {
            (condition, at)
        }
    } else {
        (tested, at)
    }
}

/// `MatchExpr`: `match expr { arms }`.
pub open spec fn match_expr(s: State) -> Opened
    decreases rem(s), 1nat, 0nat,
{
    let (opened, at) = start(s);
    let matched = expect(opened, SyntaxKind::KwMatch);
    if rem(matched) < rem(s) {
        let inside = eat_trivia(expect(expr(matched, 0).0, SyntaxKind::LBrace));
        complete(
            expect(
                if rem(inside) < rem(s) {
                    arms(inside, rem(s))
                } else {
                    inside
                },
                SyntaxKind::RBrace,
            ),
            at,
            SyntaxKind::MatchExpr,
        )
    } else {
        (matched, at)
    }
}

/// The arms of a `match`, `pattern => expr,` each, up to the closing
/// brace; a missing comma is an error.  `bound` is more than the number of
/// tokens left.
pub open spec fn arms(s: State, bound: nat) -> State
    decreases bound, 0nat, rem(s),
{
    if rem(s) >= bound || current(s) == SyntaxKind::RBrace || current(s) == SyntaxKind::Eof {
        s
    } else {
        let (opened, at) = start(s);
        let arrow = expect(pattern(opened), SyntaxKind::FatArrow);
        if rem(arrow) < bound {
            let value = expr(arrow, 0).0;
            let after = eat_trivia(
                complete(
                    if current(value) == SyntaxKind::Comma {
                        bump(value)
                    } else {
                        error(value, "expected ',' after match arm"@)
                    },
                    at,
                    SyntaxKind::MatchArm,
                ).0,
            );
            if rem(after) < rem(s) {
                arms(after, bound)
            } else {
                after
            }
        } else {
            arrow
        }
    }
}

/// `FnDecl`: `pub async fn name(params) -> Type !{effects} block`; `pub`,
/// `async`, the result and the effects being optional.
pub open spec fn fn_decl(s: State) -> State {
    let (opened, at) = start(s);
    let public = if current(opened) == SyntaxKind::KwPub {
        eat_trivia(bump(opened))
    } else {
        opened
    };
    let listed = eat_trivia(
        param_list(
            expect(
                ident(expect(bump_if(public, SyntaxKind::KwAsync), SyntaxKind::KwFn)).0,
                SyntaxKind::LParen,
            ),
        ),
    );
    let typed = eat_trivia(
        if current(listed) == SyntaxKind::Arrow {
            ty(bump(listed))
        } else {
            listed
        },
    );
    let declared = eat_trivia(
        if current(typed) == SyntaxKind::Bang {
            effect_set(typed)
        } else {
            typed
        },
    );
    complete(block(declared).0, at, SyntaxKind::FnDecl).0
}

/// One item at the top level, by the token that stands first: a module, a
/// `use`, a function, a struct or an enum; else an error and an `Error`
/// node around the token that stands there.
pub open spec fn top_item(s: State) -> State {
    if current(s) == SyntaxKind::KwMod {
        module_decl(s)
    } else if current(s) == SyntaxKind::KwUse {
        use_decl(s)
    } else if current(s) == SyntaxKind::KwPub {
        if next(s) == SyntaxKind::KwFn || next(s) == SyntaxKind::KwAsync {
            fn_decl(s)
        } else if next(s) == SyntaxKind::KwStruct || next(s) == SyntaxKind::KwEnum {
            struct_or_enum(s)
        } else {
            let (opened, at) = start(s);
            complete(
                bump(error(opened, "expected 'fn', 'struct', or 'enum' after 'pub'"@)),
                at,
                SyntaxKind::Error,
            ).0
        }
    } else if current(s) == SyntaxKind::KwAsync || current(s) == SyntaxKind::KwFn {
        fn_decl(s)
    } else if current(s) == SyntaxKind::KwStruct || current(s) == SyntaxKind::KwEnum {
        struct_or_enum(s)
    } else {
        let (opened, at) = start(s);
        let reported = error(opened, "expected item"@);
        complete(
            if current(reported) != SyntaxKind::Eof {
                bump(reported)
            } else {
                reported
            },
            at,
            SyntaxKind::Error,
        ).0
    }
}

/// The items at the top level, up to the end of the buffer.
pub open spec fn top_items(s: State) -> State
    decreases rem(s),
{
    if current(s) == SyntaxKind::Eof {
        s
    } else {
        let after = eat_trivia(top_item(s));
        if rem(after) < rem(s) {
            top_items(after)
        } else {
            after
        }
    }
}

/// `Root`: everything, from the first token to the end.
pub open spec fn root(s: State) -> State {
    let (opened, at) = start(s);
    complete(top_items(eat_trivia(opened)), at, SyntaxKind::Root).0
}

} // verus!
