//! The lexical unit of the pipeline: a tagged value together with its
//! precedence, associativity, and source position.

use vstd::prelude::*;

verus! {

/// Precedence rank of a token, from loosest to tightest binding.
/// Unary operators bind tighter than any binary operator; a function
/// call binds tighter than the arithmetic operators.
#[derive(Debug, Clone, Copy, PartialEq, Eq, Structural)]
pub enum Precedence {
    Default,
    Literal,
    OperatorLow,
    OperatorMedium,
    OperatorHigh,
    Function,
    OperatorUnary,
}

/// The numeric rank of a precedence level, used to compare two levels.
pub open spec fn spec_rank(p: Precedence) -> int {
    match p {
        Precedence::Default => 0,
        Precedence::Literal => 1,
        Precedence::OperatorLow => 2,
        Precedence::OperatorMedium => 3,
        Precedence::OperatorHigh => 4,
        Precedence::Function => 5,
        Precedence::OperatorUnary => 6,
    }
}

impl Precedence {
    /// The numeric rank of this precedence level.
    pub fn rank(&self) -> (r: u32)
        ensures
            r as int == spec_rank(*self),
    {
        match self {
            Precedence::Default => 0,
            Precedence::Literal => 1,
            Precedence::OperatorLow => 2,
            Precedence::OperatorMedium => 3,
            Precedence::OperatorHigh => 4,
            Precedence::Function => 5,
            Precedence::OperatorUnary => 6,
        }
    }

    /// The precedence of a binary operator: `+ -` below `* / %` below `^`.
    pub fn for_binary_op(op: &BinOps) -> (r: Self)
        ensures
            r == spec_prec_of_bin(*op),
    {
        match op {
            BinOps::Plus | BinOps::Minus => Self::OperatorLow,
            BinOps::Mult | BinOps::Div | BinOps::Mod => Self::OperatorMedium,
            BinOps::Pow => Self::OperatorHigh,
        }
    }
}

/// The precedence table for binary operators.
pub open spec fn spec_prec_of_bin(op: BinOps) -> Precedence {
    match op {
        BinOps::Plus | BinOps::Minus => Precedence::OperatorLow,
        BinOps::Mult | BinOps::Div | BinOps::Mod => Precedence::OperatorMedium,
        BinOps::Pow => Precedence::OperatorHigh,
    }
}

/// Grouping direction for operators of equal precedence.
#[derive(Debug, Clone, Copy, PartialEq, Eq, Structural)]
pub enum Associativity {
    Left,
    Right,
}

/// The associativity table for binary operators: `^` groups to the
/// right, all others to the left.
pub open spec fn spec_assoc_of_bin(op: BinOps) -> Associativity {
    match op {
        BinOps::Pow => Associativity::Right,
        _ => Associativity::Left,
    }
}

impl Associativity {
    /// The associativity of a binary operator.
    pub fn for_binary_op(op: &BinOps) -> (r: Self)
        ensures
            r == spec_assoc_of_bin(*op),
    {
        match op {
            BinOps::Plus | BinOps::Minus | BinOps::Mult | BinOps::Div | BinOps::Mod => Self::Left,
            BinOps::Pow => Self::Right,
        }
    }
}

/// The six binary operators.
#[derive(Debug, Clone, Copy, PartialEq, Eq, Structural)]
pub enum BinOps {
    Plus,
    Minus,
    Mult,
    Div,
    Mod,
    Pow,
}

impl BinOps {
    /// The operator written with the given character, if any.
    pub fn from_char(c: char) -> (r: Option<Self>)
        ensures
            r == spec_bin_of_char(c),
    {
        match c {
            '+' => Some(Self::Plus),
            '-' => Some(Self::Minus),
            '*' => Some(Self::Mult),
            '%' => Some(Self::Mod),
            '/' => Some(Self::Div),
            '^' => Some(Self::Pow),
            _ => None,
        }
    }
}

/// Which binary operator a character denotes, if any.
pub open spec fn spec_bin_of_char(c: char) -> Option<BinOps> {
    if c == '+' {
        Some(BinOps::Plus)
    } else if c == '-' {
        Some(BinOps::Minus)
    } else if c == '*' {
        Some(BinOps::Mult)
    } else if c == '%' {
        Some(BinOps::Mod)
    } else if c == '/' {
        Some(BinOps::Div)
    } else if c == '^' {
        Some(BinOps::Pow)
    } else {
        None
    }
}

/// The two prefix operators.
#[derive(Debug, Clone, Copy, PartialEq, Eq, Structural)]
pub enum UnOps {
    Plus,
    Minus,
}

impl UnOps {
    /// The prefix operator written with the given character, if any.
    pub fn from_char(c: char) -> (r: Option<Self>)
        ensures
            c == '+' ==> r == Some(UnOps::Plus),
            c == '-' ==> r == Some(UnOps::Minus),
            c != '+' && c != '-' ==> r is None,
    {
        match c {
            '+' => Some(Self::Plus),
            '-' => Some(Self::Minus),
            _ => None,
        }
    }
}

/// An opening or closing parenthesis.
#[derive(Debug, Clone, Copy, PartialEq, Eq, Structural)]
pub enum Paren {
    Close,
    Open,
}

impl Paren {
    /// The parenthesis written with the given character, if any.
    pub fn from_char(c: char) -> (r: Option<Self>)
        ensures
            c == '(' ==> r == Some(Paren::Open),
            c == ')' ==> r == Some(Paren::Close),
            c != '(' && c != ')' ==> r is None,
    {
        match c {
            '(' => Some(Self::Open),
            ')' => Some(Self::Close),
            _ => None,
        }
    }
}

/// A separator: either the comma between call arguments, or the
/// synthetic marker that closes a call's argument list in Reverse
/// Polish order.
#[derive(Debug, Clone, Copy, PartialEq, Eq, Structural)]
pub enum Delim {
    FuncArgs,
    Comma,
}

impl Delim {
    /// The separator written with the given character, if any.
    pub fn from_char(c: char) -> (r: Option<Self>)
        ensures
            c == ',' ==> r == Some(Delim::Comma),
            c != ',' ==> r is None,
    {
        match c {
            ',' => Some(Self::Comma),
            _ => None,
        }
    }
}

/// What a token is: a number literal (carrying its text), a named
/// function, a parenthesis, an operator, or a separator.
#[derive(Debug, Clone, PartialEq, Eq)]
pub enum Kind {
    Number(Vec<char>),
    Func(Vec<char>),
    Parenthesis(Paren),
    BinaryOperator(BinOps),
    UnaryOperator(UnOps),
    Delimiter(Delim),
}

/// The mathematical value of a `Kind`: texts become character sequences.
pub enum KindV {
    Number(Seq<char>),
    Func(Seq<char>),
    Parenthesis(Paren),
    BinaryOperator(BinOps),
    UnaryOperator(UnOps),
    Delimiter(Delim),
}

impl View for Kind {
    type V = KindV;

    open spec fn view(&self) -> KindV {
        match self {
            Kind::Number(s) => KindV::Number(s@),
            Kind::Func(s) => KindV::Func(s@),
            Kind::Parenthesis(p) => KindV::Parenthesis(*p),
            Kind::BinaryOperator(op) => KindV::BinaryOperator(*op),
            Kind::UnaryOperator(op) => KindV::UnaryOperator(*op),
            Kind::Delimiter(d) => KindV::Delimiter(*d),
        }
    }
}

/// One token: its kind plus the precedence, associativity, and source
/// position recorded for it.
#[derive(Debug, Clone, PartialEq, Eq)]
pub struct Token {
    pub assoc: Associativity,
    pub prec: Precedence,
    pub kind: Kind,
    pub line: usize,
    pub column: usize,
}

/// The mathematical value of a `Token`.
pub struct TokenV {
    pub assoc: Associativity,
    pub prec: Precedence,
    pub kind: KindV,
    pub line: nat,
    pub column: nat,
}

impl View for Token {
    type V = TokenV;

    open spec fn view(&self) -> TokenV {
        TokenV {
            assoc: self.assoc,
            prec: self.prec,
            kind: self.kind@,
            line: self.line as nat,
            column: self.column as nat,
        }
    }
}

impl DeepView for Token {
    type V = TokenV;

    open spec fn deep_view(&self) -> TokenV {
        self.view()
    }
}

/// The mathematical values of a token sequence, in order.
pub open spec fn toks_view(s: Seq<Token>) -> Seq<TokenV> {
    Seq::new(s.len(), |i: int| s[i]@)
}

/// The token of a number literal, at the given position.
pub open spec fn spec_number_token(text: Seq<char>, line: nat, column: nat) -> TokenV {
    TokenV {
        assoc: Associativity::Left,
        prec: Precedence::Literal,
        kind: KindV::Number(text),
        line,
        column,
    }
}

/// The token of a named function, at the given position.
pub open spec fn spec_function_token(name: Seq<char>, line: nat, column: nat) -> TokenV {
    TokenV {
        assoc: Associativity::Left,
        prec: Precedence::Function,
        kind: KindV::Func(name),
        line,
        column,
    }
}

/// The token of a parenthesis, at the given position.
pub open spec fn spec_paren_token(p: Paren, line: nat, column: nat) -> TokenV {
    TokenV {
        assoc: Associativity::Left,
        prec: Precedence::Default,
        kind: KindV::Parenthesis(p),
        line,
        column,
    }
}

/// The token of a binary operator, at the given position, with the
/// precedence and associativity of the operator tables.
pub open spec fn spec_binary_token(op: BinOps, line: nat, column: nat) -> TokenV {
    TokenV {
        assoc: spec_assoc_of_bin(op),
        prec: spec_prec_of_bin(op),
        kind: KindV::BinaryOperator(op),
        line,
        column,
    }
}

/// The token of a prefix operator, at the given position: unary
/// precedence, grouping to the right.
pub open spec fn spec_unary_token(op: UnOps, line: nat, column: nat) -> TokenV {
    TokenV {
        assoc: Associativity::Right,
        prec: Precedence::OperatorUnary,
        kind: KindV::UnaryOperator(op),
        line,
        column,
    }
}

/// The token of a separator, at the given position.
pub open spec fn spec_delim_token(d: Delim, line: nat, column: nat) -> TokenV {
    TokenV {
        assoc: Associativity::Left,
        prec: Precedence::Default,
        kind: KindV::Delimiter(d),
        line,
        column,
    }
}

impl Token {
    /// A number-literal token carrying its text.
    pub fn number(number: Vec<char>, line: usize, column: usize) -> (t: Token)
        ensures
            t@ == spec_number_token(number@, line as nat, column as nat),
    {
        Self {
            assoc: Associativity::Left,
            prec: Precedence::Literal,
            kind: Kind::Number(number),
            line,
            column,
        }
    }

    /// A function token carrying the function's name.
    pub fn function(func: Vec<char>, line: usize, column: usize) -> (t: Token)
        ensures
            t@ == spec_function_token(func@, line as nat, column as nat),
    {
        Self {
            assoc: Associativity::Left,
            prec: Precedence::Function,
            kind: Kind::Func(func),
            line,
            column,
        }
    }

    /// The token of a parenthesis character, or `None` for any other
    /// character.
    pub fn parenthesis(paren: char, line: usize, column: usize) -> (t: Option<Token>)
        ensures
            paren == '(' ==> (t matches Some(tok) && tok@ == spec_paren_token(
                Paren::Open,
                line as nat,
                column as nat,
            )),
            paren == ')' ==> (t matches Some(tok) && tok@ == spec_paren_token(
                Paren::Close,
                line as nat,
                column as nat,
            )),
            paren != '(' && paren != ')' ==> t is None,
    {
        match Paren::from_char(paren) {
            Some(p) => Some(Token {
                assoc: Associativity::Left,
                prec: Precedence::Default,
                kind: Kind::Parenthesis(p),
                line,
                column,
            }),
            None => None,
        }
    }

    /// The token of a prefix operator character, or `None` for any
    /// character other than `+` and `-`.
    pub fn unary_op(op: char, line: usize, column: usize) -> (t: Option<Token>)
        ensures
            op == '+' ==> (t matches Some(tok) && tok@ == spec_unary_token(
                UnOps::Plus,
                line as nat,
                column as nat,
            )),
            op == '-' ==> (t matches Some(tok) && tok@ == spec_unary_token(
                UnOps::Minus,
                line as nat,
                column as nat,
            )),
            op != '+' && op != '-' ==> t is None,
    {
        match UnOps::from_char(op) {
            Some(u) => Some(Token {
                assoc: Associativity::Right,
                prec: Precedence::OperatorUnary,
                kind: Kind::UnaryOperator(u),
                line,
                column,
            }),
            None => None,
        }
    }

    /// The token of a binary operator character, with the precedence
    /// and associativity of the tables, or `None` for any other
    /// character.
    pub fn binary_op(op: char, line: usize, column: usize) -> (t: Option<Token>)
        ensures
            spec_bin_of_char(op) matches Some(b) ==> (t matches Some(tok) && tok@
                == spec_binary_token(b, line as nat, column as nat)),
            spec_bin_of_char(op) is None ==> t is None,
    {
        match BinOps::from_char(op) {
            Some(b) => {
                let assoc = Associativity::for_binary_op(&b);
                let prec = Precedence::for_binary_op(&b);
                Some(Token { assoc, prec, kind: Kind::BinaryOperator(b), line, column })
            },
            None => None,
        }
    }

    /// The token of a separator character, or `None` for any character
    /// other than the comma.
    pub fn delimiter(delim: char, line: usize, column: usize) -> (t: Option<Token>)
        ensures
            delim == ',' ==> (t matches Some(tok) && tok@ == spec_delim_token(
                Delim::Comma,
                line as nat,
                column as nat,
            )),
            delim != ',' ==> t is None,
    {
        match Delim::from_char(delim) {
            Some(d) => Some(Token {
                assoc: Associativity::Left,
                prec: Precedence::Default,
                kind: Kind::Delimiter(d),
                line,
                column,
            }),
            None => None,
        }
    }

    /// A synthetic separator token, such as the argument-end marker,
    /// with no meaningful source position.
    pub fn util_delimiter(delim: Delim) -> (t: Token)
        ensures
            t@ == spec_delim_token(delim, 0, 0),
    {
        Self {
            assoc: Associativity::Left,
            prec: Precedence::Default,
            kind: Kind::Delimiter(delim),
            line: 0,
            column: 0,
        }
    }
}

} // verus!
