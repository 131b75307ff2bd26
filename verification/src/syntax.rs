use vstd::prelude::*;

verus! {

/// The kind of a token or of a tree node.
///
/// Token kinds come first, in the order in which the raw numbering counts
/// them; the node kinds follow, from `Root` to `Error`.  `Tombstone` stands
/// for a node whose kind the parser has not yet decided, and `Eof` for the
/// end of the token buffer; neither occurs in a finished tree.
#[derive(Debug, Clone, Copy, PartialEq, Eq, Structural, PartialOrd, Ord, Hash)]
pub enum SyntaxKind {
    Tombstone,
    Eof,
    Whitespace,
    Comment,
    ErrorToken,
    Ident,
    Int,
    Float,
    String,
    Bytes,
    Underscore,
    KwMod,
    KwUse,
    KwFn,
    KwAsync,
    KwStruct,
    KwEnum,
    KwMatch,
    KwIf,
    KwElse,
    KwFor,
    KwIn,
    KwReturn,
    KwLet,
    KwMut,
    KwTrue,
    KwFalse,
    KwScope,
    KwSpawn,
    KwJoin,
    KwAwait,
    KwAs,
    KwPub,
    LParen,
    RParen,
    LBrace,
    RBrace,
    LBracket,
    RBracket,
    Comma,
    Semi,
    Colon,
    Dot,
    ColonColon,
    Arrow,
    FatArrow,
    Question,
    QuestionQuestion,
    Bang,
    Plus,
    Minus,
    Star,
    Slash,
    Percent,
    Eq,
    EqEq,
    Neq,
    Lt,
    Lte,
    Gt,
    Gte,
    AndAnd,
    OrOr,
    Amp,
    Pipe,
    Caret,
    Tilde,
    Shl,
    Shr,
    ShlEq,
    ShrEq,
    PlusEq,
    MinusEq,
    StarEq,
    SlashEq,
    PercentEq,
    AmpEq,
    PipeEq,
    CaretEq,
    Range,
    RangeEq,
    Root,
    ModuleDecl,
    UseDecl,
    UsePath,
    FnDecl,
    ParamList,
    Param,
    Type,
    EffectSet,
    StructDecl,
    StructField,
    EnumDecl,
    EnumVariant,
    Block,
    StmtList,
    LetStmt,
    ReturnStmt,
    ExprStmt,
    IfExpr,
    MatchExpr,
    MatchArm,
    CallExpr,
    MemberExpr,
    BinExpr,
    ParenExpr,
    IdentNode,
    LiteralNode,
    Pattern,
    Error,
}

/// The number of kinds; raw numbers run from zero up to this bound.
pub const KIND_COUNT: u16 = 110;

impl SyntaxKind {
    /// The raw number of the kind: its position in the declaration.
    pub open spec fn raw(self) -> u16 {
        match self {
            SyntaxKind::Tombstone => 0u16,
            SyntaxKind::Eof => 1u16,
            SyntaxKind::Whitespace => 2u16,
            SyntaxKind::Comment => 3u16,
            SyntaxKind::ErrorToken => 4u16,
            SyntaxKind::Ident => 5u16,
            SyntaxKind::Int => 6u16,
            SyntaxKind::Float => 7u16,
            SyntaxKind::String => 8u16,
            SyntaxKind::Bytes => 9u16,
            SyntaxKind::Underscore => 10u16,
            SyntaxKind::KwMod => 11u16,
            SyntaxKind::KwUse => 12u16,
            SyntaxKind::KwFn => 13u16,
            SyntaxKind::KwAsync => 14u16,
            SyntaxKind::KwStruct => 15u16,
            SyntaxKind::KwEnum => 16u16,
            SyntaxKind::KwMatch => 17u16,
            SyntaxKind::KwIf => 18u16,
            SyntaxKind::KwElse => 19u16,
            SyntaxKind::KwFor => 20u16,
            SyntaxKind::KwIn => 21u16,
            SyntaxKind::KwReturn => 22u16,
            SyntaxKind::KwLet => 23u16,
            SyntaxKind::KwMut => 24u16,
            SyntaxKind::KwTrue => 25u16,
            SyntaxKind::KwFalse => 26u16,
            SyntaxKind::KwScope => 27u16,
            SyntaxKind::KwSpawn => 28u16,
            SyntaxKind::KwJoin => 29u16,
            SyntaxKind::KwAwait => 30u16,
            SyntaxKind::KwAs => 31u16,
            SyntaxKind::KwPub => 32u16,
            SyntaxKind::LParen => 33u16,
            SyntaxKind::RParen => 34u16,
            SyntaxKind::LBrace => 35u16,
            SyntaxKind::RBrace => 36u16,
            SyntaxKind::LBracket => 37u16,
            SyntaxKind::RBracket => 38u16,
            SyntaxKind::Comma => 39u16,
            SyntaxKind::Semi => 40u16,
            SyntaxKind::Colon => 41u16,
            SyntaxKind::Dot => 42u16,
            SyntaxKind::ColonColon => 43u16,
            SyntaxKind::Arrow => 44u16,
            SyntaxKind::FatArrow => 45u16,
            SyntaxKind::Question => 46u16,
            SyntaxKind::QuestionQuestion => 47u16,
            SyntaxKind::Bang => 48u16,
            SyntaxKind::Plus => 49u16,
            SyntaxKind::Minus => 50u16,
            SyntaxKind::Star => 51u16,
            SyntaxKind::Slash => 52u16,
            SyntaxKind::Percent => 53u16,
            SyntaxKind::Eq => 54u16,
            SyntaxKind::EqEq => 55u16,
            SyntaxKind::Neq => 56u16,
            SyntaxKind::Lt => 57u16,
            SyntaxKind::Lte => 58u16,
            SyntaxKind::Gt => 59u16,
            SyntaxKind::Gte => 60u16,
            SyntaxKind::AndAnd => 61u16,
            SyntaxKind::OrOr => 62u16,
            SyntaxKind::Amp => 63u16,
            SyntaxKind::Pipe => 64u16,
            SyntaxKind::Caret => 65u16,
            SyntaxKind::Tilde => 66u16,
            SyntaxKind::Shl => 67u16,
            SyntaxKind::Shr => 68u16,
            SyntaxKind::ShlEq => 69u16,
            SyntaxKind::ShrEq => 70u16,
            SyntaxKind::PlusEq => 71u16,
            SyntaxKind::MinusEq => 72u16,
            SyntaxKind::StarEq => 73u16,
            SyntaxKind::SlashEq => 74u16,
            SyntaxKind::PercentEq => 75u16,
            SyntaxKind::AmpEq => 76u16,
            SyntaxKind::PipeEq => 77u16,
            SyntaxKind::CaretEq => 78u16,
            SyntaxKind::Range => 79u16,
            SyntaxKind::RangeEq => 80u16,
            SyntaxKind::Root => 81u16,
            SyntaxKind::ModuleDecl => 82u16,
            SyntaxKind::UseDecl => 83u16,
            SyntaxKind::UsePath => 84u16,
            SyntaxKind::FnDecl => 85u16,
            SyntaxKind::ParamList => 86u16,
            SyntaxKind::Param => 87u16,
            SyntaxKind::Type => 88u16,
            SyntaxKind::EffectSet => 89u16,
            SyntaxKind::StructDecl => 90u16,
            SyntaxKind::StructField => 91u16,
            SyntaxKind::EnumDecl => 92u16,
            SyntaxKind::EnumVariant => 93u16,
            SyntaxKind::Block => 94u16,
            SyntaxKind::StmtList => 95u16,
            SyntaxKind::LetStmt => 96u16,
            SyntaxKind::ReturnStmt => 97u16,
            SyntaxKind::ExprStmt => 98u16,
            SyntaxKind::IfExpr => 99u16,
            SyntaxKind::MatchExpr => 100u16,
            SyntaxKind::MatchArm => 101u16,
            SyntaxKind::CallExpr => 102u16,
            SyntaxKind::MemberExpr => 103u16,
            SyntaxKind::BinExpr => 104u16,
            SyntaxKind::ParenExpr => 105u16,
            SyntaxKind::IdentNode => 106u16,
            SyntaxKind::LiteralNode => 107u16,
            SyntaxKind::Pattern => 108u16,
            SyntaxKind::Error => 109u16,
        }
    }

    /// The kind's name as it is written in messages and tree dumps.
    pub open spec fn name(self) -> Seq<char> {
        match self {
            SyntaxKind::Tombstone => "Tombstone"@,
            SyntaxKind::Eof => "Eof"@,
            SyntaxKind::Whitespace => "Whitespace"@,
            SyntaxKind::Comment => "Comment"@,
            SyntaxKind::ErrorToken => "ErrorToken"@,
            SyntaxKind::Ident => "Ident"@,
            SyntaxKind::Int => "Int"@,
            SyntaxKind::Float => "Float"@,
            SyntaxKind::String => "String"@,
            SyntaxKind::Bytes => "Bytes"@,
            SyntaxKind::Underscore => "Underscore"@,
            SyntaxKind::KwMod => "KwMod"@,
            SyntaxKind::KwUse => "KwUse"@,
            SyntaxKind::KwFn => "KwFn"@,
            SyntaxKind::KwAsync => "KwAsync"@,
            SyntaxKind::KwStruct => "KwStruct"@,
            SyntaxKind::KwEnum => "KwEnum"@,
            SyntaxKind::KwMatch => "KwMatch"@,
            SyntaxKind::KwIf => "KwIf"@,
            SyntaxKind::KwElse => "KwElse"@,
            SyntaxKind::KwFor => "KwFor"@,
            SyntaxKind::KwIn => "KwIn"@,
            SyntaxKind::KwReturn => "KwReturn"@,
            SyntaxKind::KwLet => "KwLet"@,
            SyntaxKind::KwMut => "KwMut"@,
            SyntaxKind::KwTrue => "KwTrue"@,
            SyntaxKind::KwFalse => "KwFalse"@,
            SyntaxKind::KwScope => "KwScope"@,
            SyntaxKind::KwSpawn => "KwSpawn"@,
            SyntaxKind::KwJoin => "KwJoin"@,
            SyntaxKind::KwAwait => "KwAwait"@,
            SyntaxKind::KwAs => "KwAs"@,
            SyntaxKind::KwPub => "KwPub"@,
            SyntaxKind::LParen => "LParen"@,
            SyntaxKind::RParen => "RParen"@,
            SyntaxKind::LBrace => "LBrace"@,
            SyntaxKind::RBrace => "RBrace"@,
            SyntaxKind::LBracket => "LBracket"@,
            SyntaxKind::RBracket => "RBracket"@,
            SyntaxKind::Comma => "Comma"@,
            SyntaxKind::Semi => "Semi"@,
            SyntaxKind::Colon => "Colon"@,
            SyntaxKind::Dot => "Dot"@,
            SyntaxKind::ColonColon => "ColonColon"@,
            SyntaxKind::Arrow => "Arrow"@,
            SyntaxKind::FatArrow => "FatArrow"@,
            SyntaxKind::Question => "Question"@,
            SyntaxKind::QuestionQuestion => "QuestionQuestion"@,
            SyntaxKind::Bang => "Bang"@,
            SyntaxKind::Plus => "Plus"@,
            SyntaxKind::Minus => "Minus"@,
            SyntaxKind::Star => "Star"@,
            SyntaxKind::Slash => "Slash"@,
            SyntaxKind::Percent => "Percent"@,
            SyntaxKind::Eq => "Eq"@,
            SyntaxKind::EqEq => "EqEq"@,
            SyntaxKind::Neq => "Neq"@,
            SyntaxKind::Lt => "Lt"@,
            SyntaxKind::Lte => "Lte"@,
            SyntaxKind::Gt => "Gt"@,
            SyntaxKind::Gte => "Gte"@,
            SyntaxKind::AndAnd => "AndAnd"@,
            SyntaxKind::OrOr => "OrOr"@,
            SyntaxKind::Amp => "Amp"@,
            SyntaxKind::Pipe => "Pipe"@,
            SyntaxKind::Caret => "Caret"@,
            SyntaxKind::Tilde => "Tilde"@,
            SyntaxKind::Shl => "Shl"@,
            SyntaxKind::Shr => "Shr"@,
            SyntaxKind::ShlEq => "ShlEq"@,
            SyntaxKind::ShrEq => "ShrEq"@,
            SyntaxKind::PlusEq => "PlusEq"@,
            SyntaxKind::MinusEq => "MinusEq"@,
            SyntaxKind::StarEq => "StarEq"@,
            SyntaxKind::SlashEq => "SlashEq"@,
            SyntaxKind::PercentEq => "PercentEq"@,
            SyntaxKind::AmpEq => "AmpEq"@,
            SyntaxKind::PipeEq => "PipeEq"@,
            SyntaxKind::CaretEq => "CaretEq"@,
            SyntaxKind::Range => "Range"@,
            SyntaxKind::RangeEq => "RangeEq"@,
            SyntaxKind::Root => "Root"@,
            SyntaxKind::ModuleDecl => "ModuleDecl"@,
            SyntaxKind::UseDecl => "UseDecl"@,
            SyntaxKind::UsePath => "UsePath"@,
            SyntaxKind::FnDecl => "FnDecl"@,
            SyntaxKind::ParamList => "ParamList"@,
            SyntaxKind::Param => "Param"@,
            SyntaxKind::Type => "Type"@,
            SyntaxKind::EffectSet => "EffectSet"@,
            SyntaxKind::StructDecl => "StructDecl"@,
            SyntaxKind::StructField => "StructField"@,
            SyntaxKind::EnumDecl => "EnumDecl"@,
            SyntaxKind::EnumVariant => "EnumVariant"@,
            SyntaxKind::Block => "Block"@,
            SyntaxKind::StmtList => "StmtList"@,
            SyntaxKind::LetStmt => "LetStmt"@,
            SyntaxKind::ReturnStmt => "ReturnStmt"@,
            SyntaxKind::ExprStmt => "ExprStmt"@,
            SyntaxKind::IfExpr => "IfExpr"@,
            SyntaxKind::MatchExpr => "MatchExpr"@,
            SyntaxKind::MatchArm => "MatchArm"@,
            SyntaxKind::CallExpr => "CallExpr"@,
            SyntaxKind::MemberExpr => "MemberExpr"@,
            SyntaxKind::BinExpr => "BinExpr"@,
            SyntaxKind::ParenExpr => "ParenExpr"@,
            SyntaxKind::IdentNode => "IdentNode"@,
            SyntaxKind::LiteralNode => "LiteralNode"@,
            SyntaxKind::Pattern => "Pattern"@,
            SyntaxKind::Error => "Error"@,
        }
    }

    /// Whitespace and comments: kept in the tree, without meaning.
    pub open spec fn spec_is_trivia(self) -> bool {
        self == SyntaxKind::Whitespace || self == SyntaxKind::Comment
    }

    /// The token kinds that a literal expression or pattern consists of.
    pub open spec fn spec_is_literal(self) -> bool {
        self == SyntaxKind::Int || self == SyntaxKind::Float || self == SyntaxKind::String
            || self == SyntaxKind::Bytes || self == SyntaxKind::KwTrue
            || self == SyntaxKind::KwFalse
    }

    /// Whether the kind is white space or a comment.
    #[verifier::when_used_as_spec(spec_is_trivia)]
    pub fn is_trivia(self) -> (b: bool)
        ensures
            b == self.spec_is_trivia(),
    {
        matches!(self, SyntaxKind::Whitespace | SyntaxKind::Comment)
    }

    /// Whether the kind is that of a literal token.
    #[verifier::when_used_as_spec(spec_is_literal)]
    pub fn is_literal(self) -> (b: bool)
        ensures
            b == self.spec_is_literal(),
    {
        matches!(
            self,
            SyntaxKind::Int | SyntaxKind::Float | SyntaxKind::String | SyntaxKind::Bytes
                | SyntaxKind::KwTrue | SyntaxKind::KwFalse
        )
    }

    /// The raw number under which a tree stores the kind.
    pub fn to_raw(self) -> (raw: u16)
        ensures
            raw == self.raw(),
            raw < KIND_COUNT,
    {
        match self {
            SyntaxKind::Tombstone => 0,
            SyntaxKind::Eof => 1,
            SyntaxKind::Whitespace => 2,
            SyntaxKind::Comment => 3,
            SyntaxKind::ErrorToken => 4,
            SyntaxKind::Ident => 5,
            SyntaxKind::Int => 6,
            SyntaxKind::Float => 7,
            SyntaxKind::String => 8,
            SyntaxKind::Bytes => 9,
            SyntaxKind::Underscore => 10,
            SyntaxKind::KwMod => 11,
            SyntaxKind::KwUse => 12,
            SyntaxKind::KwFn => 13,
            SyntaxKind::KwAsync => 14,
            SyntaxKind::KwStruct => 15,
            SyntaxKind::KwEnum => 16,
            SyntaxKind::KwMatch => 17,
            SyntaxKind::KwIf => 18,
            SyntaxKind::KwElse => 19,
            SyntaxKind::KwFor => 20,
            SyntaxKind::KwIn => 21,
            SyntaxKind::KwReturn => 22,
            SyntaxKind::KwLet => 23,
            SyntaxKind::KwMut => 24,
            SyntaxKind::KwTrue => 25,
            SyntaxKind::KwFalse => 26,
            SyntaxKind::KwScope => 27,
            SyntaxKind::KwSpawn => 28,
            SyntaxKind::KwJoin => 29,
            SyntaxKind::KwAwait => 30,
            SyntaxKind::KwAs => 31,
            SyntaxKind::KwPub => 32,
            SyntaxKind::LParen => 33,
            SyntaxKind::RParen => 34,
            SyntaxKind::LBrace => 35,
            SyntaxKind::RBrace => 36,
            SyntaxKind::LBracket => 37,
            SyntaxKind::RBracket => 38,
            SyntaxKind::Comma => 39,
            SyntaxKind::Semi => 40,
            SyntaxKind::Colon => 41,
            SyntaxKind::Dot => 42,
            SyntaxKind::ColonColon => 43,
            SyntaxKind::Arrow => 44,
            SyntaxKind::FatArrow => 45,
            SyntaxKind::Question => 46,
            SyntaxKind::QuestionQuestion => 47,
            SyntaxKind::Bang => 48,
            SyntaxKind::Plus => 49,
            SyntaxKind::Minus => 50,
            SyntaxKind::Star => 51,
            SyntaxKind::Slash => 52,
            SyntaxKind::Percent => 53,
            SyntaxKind::Eq => 54,
            SyntaxKind::EqEq => 55,
            SyntaxKind::Neq => 56,
            SyntaxKind::Lt => 57,
            SyntaxKind::Lte => 58,
            SyntaxKind::Gt => 59,
            SyntaxKind::Gte => 60,
            SyntaxKind::AndAnd => 61,
            SyntaxKind::OrOr => 62,
            SyntaxKind::Amp => 63,
            SyntaxKind::Pipe => 64,
            SyntaxKind::Caret => 65,
            SyntaxKind::Tilde => 66,
            SyntaxKind::Shl => 67,
            SyntaxKind::Shr => 68,
            SyntaxKind::ShlEq => 69,
            SyntaxKind::ShrEq => 70,
            SyntaxKind::PlusEq => 71,
            SyntaxKind::MinusEq => 72,
            SyntaxKind::StarEq => 73,
            SyntaxKind::SlashEq => 74,
            SyntaxKind::PercentEq => 75,
            SyntaxKind::AmpEq => 76,
            SyntaxKind::PipeEq => 77,
            SyntaxKind::CaretEq => 78,
            SyntaxKind::Range => 79,
            SyntaxKind::RangeEq => 80,
            SyntaxKind::Root => 81,
            SyntaxKind::ModuleDecl => 82,
            SyntaxKind::UseDecl => 83,
            SyntaxKind::UsePath => 84,
            SyntaxKind::FnDecl => 85,
            SyntaxKind::ParamList => 86,
            SyntaxKind::Param => 87,
            SyntaxKind::Type => 88,
            SyntaxKind::EffectSet => 89,
            SyntaxKind::StructDecl => 90,
            SyntaxKind::StructField => 91,
            SyntaxKind::EnumDecl => 92,
            SyntaxKind::EnumVariant => 93,
            SyntaxKind::Block => 94,
            SyntaxKind::StmtList => 95,
            SyntaxKind::LetStmt => 96,
            SyntaxKind::ReturnStmt => 97,
            SyntaxKind::ExprStmt => 98,
            SyntaxKind::IfExpr => 99,
            SyntaxKind::MatchExpr => 100,
            SyntaxKind::MatchArm => 101,
            SyntaxKind::CallExpr => 102,
            SyntaxKind::MemberExpr => 103,
            SyntaxKind::BinExpr => 104,
            SyntaxKind::ParenExpr => 105,
            SyntaxKind::IdentNode => 106,
            SyntaxKind::LiteralNode => 107,
            SyntaxKind::Pattern => 108,
            SyntaxKind::Error => 109,
        }
    }

    /// The kind with the given raw number, if there is one.
    pub fn from_raw(raw: u16) -> (kind: Option<SyntaxKind>)
        ensures
            raw < KIND_COUNT <==> kind is Some,
            kind matches Some(k) ==> k.raw() == raw,
    {
        match raw {
            0 => Some(SyntaxKind::Tombstone),
            1 => Some(SyntaxKind::Eof),
            2 => Some(SyntaxKind::Whitespace),
            3 => Some(SyntaxKind::Comment),
            4 => Some(SyntaxKind::ErrorToken),
            5 => Some(SyntaxKind::Ident),
            6 => Some(SyntaxKind::Int),
            7 => Some(SyntaxKind::Float),
            8 => Some(SyntaxKind::String),
            9 => Some(SyntaxKind::Bytes),
            10 => Some(SyntaxKind::Underscore),
            11 => Some(SyntaxKind::KwMod),
            12 => Some(SyntaxKind::KwUse),
            13 => Some(SyntaxKind::KwFn),
            14 => Some(SyntaxKind::KwAsync),
            15 => Some(SyntaxKind::KwStruct),
            16 => Some(SyntaxKind::KwEnum),
            17 => Some(SyntaxKind::KwMatch),
            18 => Some(SyntaxKind::KwIf),
            19 => Some(SyntaxKind::KwElse),
            20 => Some(SyntaxKind::KwFor),
            21 => Some(SyntaxKind::KwIn),
            22 => Some(SyntaxKind::KwReturn),
            23 => Some(SyntaxKind::KwLet),
            24 => Some(SyntaxKind::KwMut),
            25 => Some(SyntaxKind::KwTrue),
            26 => Some(SyntaxKind::KwFalse),
            27 => Some(SyntaxKind::KwScope),
            28 => Some(SyntaxKind::KwSpawn),
            29 => Some(SyntaxKind::KwJoin),
            30 => Some(SyntaxKind::KwAwait),
            31 => Some(SyntaxKind::KwAs),
            32 => Some(SyntaxKind::KwPub),
            33 => Some(SyntaxKind::LParen),
            34 => Some(SyntaxKind::RParen),
            35 => Some(SyntaxKind::LBrace),
            36 => Some(SyntaxKind::RBrace),
            37 => Some(SyntaxKind::LBracket),
            38 => Some(SyntaxKind::RBracket),
            39 => Some(SyntaxKind::Comma),
            40 => Some(SyntaxKind::Semi),
            41 => Some(SyntaxKind::Colon),
            42 => Some(SyntaxKind::Dot),
            43 => Some(SyntaxKind::ColonColon),
            44 => Some(SyntaxKind::Arrow),
            45 => Some(SyntaxKind::FatArrow),
            46 => Some(SyntaxKind::Question),
            47 => Some(SyntaxKind::QuestionQuestion),
            48 => Some(SyntaxKind::Bang),
            49 => Some(SyntaxKind::Plus),
            50 => Some(SyntaxKind::Minus),
            51 => Some(SyntaxKind::Star),
            52 => Some(SyntaxKind::Slash),
            53 => Some(SyntaxKind::Percent),
            54 => Some(SyntaxKind::Eq),
            55 => Some(SyntaxKind::EqEq),
            56 => Some(SyntaxKind::Neq),
            57 => Some(SyntaxKind::Lt),
            58 => Some(SyntaxKind::Lte),
            59 => Some(SyntaxKind::Gt),
            60 => Some(SyntaxKind::Gte),
            61 => Some(SyntaxKind::AndAnd),
            62 => Some(SyntaxKind::OrOr),
            63 => Some(SyntaxKind::Amp),
            64 => Some(SyntaxKind::Pipe),
            65 => Some(SyntaxKind::Caret),
            66 => Some(SyntaxKind::Tilde),
            67 => Some(SyntaxKind::Shl),
            68 => Some(SyntaxKind::Shr),
            69 => Some(SyntaxKind::ShlEq),
            70 => Some(SyntaxKind::ShrEq),
            71 => Some(SyntaxKind::PlusEq),
            72 => Some(SyntaxKind::MinusEq),
            73 => Some(SyntaxKind::StarEq),
            74 => Some(SyntaxKind::SlashEq),
            75 => Some(SyntaxKind::PercentEq),
            76 => Some(SyntaxKind::AmpEq),
            77 => Some(SyntaxKind::PipeEq),
            78 => Some(SyntaxKind::CaretEq),
            79 => Some(SyntaxKind::Range),
            80 => Some(SyntaxKind::RangeEq),
            81 => Some(SyntaxKind::Root),
            82 => Some(SyntaxKind::ModuleDecl),
            83 => Some(SyntaxKind::UseDecl),
            84 => Some(SyntaxKind::UsePath),
            85 => Some(SyntaxKind::FnDecl),
            86 => Some(SyntaxKind::ParamList),
            87 => Some(SyntaxKind::Param),
            88 => Some(SyntaxKind::Type),
            89 => Some(SyntaxKind::EffectSet),
            90 => Some(SyntaxKind::StructDecl),
            91 => Some(SyntaxKind::StructField),
            92 => Some(SyntaxKind::EnumDecl),
            93 => Some(SyntaxKind::EnumVariant),
            94 => Some(SyntaxKind::Block),
            95 => Some(SyntaxKind::StmtList),
            96 => Some(SyntaxKind::LetStmt),
            97 => Some(SyntaxKind::ReturnStmt),
            98 => Some(SyntaxKind::ExprStmt),
            99 => Some(SyntaxKind::IfExpr),
            100 => Some(SyntaxKind::MatchExpr),
            101 => Some(SyntaxKind::MatchArm),
            102 => Some(SyntaxKind::CallExpr),
            103 => Some(SyntaxKind::MemberExpr),
            104 => Some(SyntaxKind::BinExpr),
            105 => Some(SyntaxKind::ParenExpr),
            106 => Some(SyntaxKind::IdentNode),
            107 => Some(SyntaxKind::LiteralNode),
            108 => Some(SyntaxKind::Pattern),
            109 => Some(SyntaxKind::Error),
            _ => None,
        }
    }

    /// The kind with the given raw number, which must be the number of a
    /// kind.
    pub fn of_raw(raw: u16) -> (kind: SyntaxKind)
        requires
            raw < KIND_COUNT,
        ensures
            kind.raw() == raw,
    {
        match SyntaxKind::from_raw(raw) {
            Some(kind) => kind,
            None => vstd::pervasive::unreached(),
        }
    }

    /// The kind's name, as `Debug` prints it.
    pub fn debug_name(self) -> (s: &'static str)
        ensures
            s@ == self.name(),
    {
        match self {
            SyntaxKind::Tombstone => "Tombstone",
            SyntaxKind::Eof => "Eof",
            SyntaxKind::Whitespace => "Whitespace",
            SyntaxKind::Comment => "Comment",
            SyntaxKind::ErrorToken => "ErrorToken",
            SyntaxKind::Ident => "Ident",
            SyntaxKind::Int => "Int",
            SyntaxKind::Float => "Float",
            SyntaxKind::String => "String",
            SyntaxKind::Bytes => "Bytes",
            SyntaxKind::Underscore => "Underscore",
            SyntaxKind::KwMod => "KwMod",
            SyntaxKind::KwUse => "KwUse",
            SyntaxKind::KwFn => "KwFn",
            SyntaxKind::KwAsync => "KwAsync",
            SyntaxKind::KwStruct => "KwStruct",
            SyntaxKind::KwEnum => "KwEnum",
            SyntaxKind::KwMatch => "KwMatch",
            SyntaxKind::KwIf => "KwIf",
            SyntaxKind::KwElse => "KwElse",
            SyntaxKind::KwFor => "KwFor",
            SyntaxKind::KwIn => "KwIn",
            SyntaxKind::KwReturn => "KwReturn",
            SyntaxKind::KwLet => "KwLet",
            SyntaxKind::KwMut => "KwMut",
            SyntaxKind::KwTrue => "KwTrue",
            SyntaxKind::KwFalse => "KwFalse",
            SyntaxKind::KwScope => "KwScope",
            SyntaxKind::KwSpawn => "KwSpawn",
            SyntaxKind::KwJoin => "KwJoin",
            SyntaxKind::KwAwait => "KwAwait",
            SyntaxKind::KwAs => "KwAs",
            SyntaxKind::KwPub => "KwPub",
            SyntaxKind::LParen => "LParen",
            SyntaxKind::RParen => "RParen",
            SyntaxKind::LBrace => "LBrace",
            SyntaxKind::RBrace => "RBrace",
            SyntaxKind::LBracket => "LBracket",
            SyntaxKind::RBracket => "RBracket",
            SyntaxKind::Comma => "Comma",
            SyntaxKind::Semi => "Semi",
            SyntaxKind::Colon => "Colon",
            SyntaxKind::Dot => "Dot",
            SyntaxKind::ColonColon => "ColonColon",
            SyntaxKind::Arrow => "Arrow",
            SyntaxKind::FatArrow => "FatArrow",
            SyntaxKind::Question => "Question",
            SyntaxKind::QuestionQuestion => "QuestionQuestion",
            SyntaxKind::Bang => "Bang",
            SyntaxKind::Plus => "Plus",
            SyntaxKind::Minus => "Minus",
            SyntaxKind::Star => "Star",
            SyntaxKind::Slash => "Slash",
            SyntaxKind::Percent => "Percent",
            SyntaxKind::Eq => "Eq",
            SyntaxKind::EqEq => "EqEq",
            SyntaxKind::Neq => "Neq",
            SyntaxKind::Lt => "Lt",
            SyntaxKind::Lte => "Lte",
            SyntaxKind::Gt => "Gt",
            SyntaxKind::Gte => "Gte",
            SyntaxKind::AndAnd => "AndAnd",
            SyntaxKind::OrOr => "OrOr",
            SyntaxKind::Amp => "Amp",
            SyntaxKind::Pipe => "Pipe",
            SyntaxKind::Caret => "Caret",
            SyntaxKind::Tilde => "Tilde",
            SyntaxKind::Shl => "Shl",
            SyntaxKind::Shr => "Shr",
            SyntaxKind::ShlEq => "ShlEq",
            SyntaxKind::ShrEq => "ShrEq",
            SyntaxKind::PlusEq => "PlusEq",
            SyntaxKind::MinusEq => "MinusEq",
            SyntaxKind::StarEq => "StarEq",
            SyntaxKind::SlashEq => "SlashEq",
            SyntaxKind::PercentEq => "PercentEq",
            SyntaxKind::AmpEq => "AmpEq",
            SyntaxKind::PipeEq => "PipeEq",
            SyntaxKind::CaretEq => "CaretEq",
            SyntaxKind::Range => "Range",
            SyntaxKind::RangeEq => "RangeEq",
            SyntaxKind::Root => "Root",
            SyntaxKind::ModuleDecl => "ModuleDecl",
            SyntaxKind::UseDecl => "UseDecl",
            SyntaxKind::UsePath => "UsePath",
            SyntaxKind::FnDecl => "FnDecl",
            SyntaxKind::ParamList => "ParamList",
            SyntaxKind::Param => "Param",
            SyntaxKind::Type => "Type",
            SyntaxKind::EffectSet => "EffectSet",
            SyntaxKind::StructDecl => "StructDecl",
            SyntaxKind::StructField => "StructField",
            SyntaxKind::EnumDecl => "EnumDecl",
            SyntaxKind::EnumVariant => "EnumVariant",
            SyntaxKind::Block => "Block",
            SyntaxKind::StmtList => "StmtList",
            SyntaxKind::LetStmt => "LetStmt",
            SyntaxKind::ReturnStmt => "ReturnStmt",
            SyntaxKind::ExprStmt => "ExprStmt",
            SyntaxKind::IfExpr => "IfExpr",
            SyntaxKind::MatchExpr => "MatchExpr",
            SyntaxKind::MatchArm => "MatchArm",
            SyntaxKind::CallExpr => "CallExpr",
            SyntaxKind::MemberExpr => "MemberExpr",
            SyntaxKind::BinExpr => "BinExpr",
            SyntaxKind::ParenExpr => "ParenExpr",
            SyntaxKind::IdentNode => "IdentNode",
            SyntaxKind::LiteralNode => "LiteralNode",
            SyntaxKind::Pattern => "Pattern",
            SyntaxKind::Error => "Error",
        }
    }
}

/// Raw numbers determine kinds: two kinds with one number are the same kind.
pub proof fn lemma_raw_injective(a: SyntaxKind, b: SyntaxKind)
    requires
        a.raw() == b.raw(),
    ensures
        a == b,
{
}

/// Marker of the language whose trees this library builds.
#[derive(Debug, Clone, Copy, PartialEq, Eq, Structural, PartialOrd, Ord, Hash)]
pub struct JalmLanguage;

} // verus!
