//! The words of the language.
use crate::text::{
    chars_of, digits_value, is_digit, lemma_next_char, next_char, parse_u128, same,
    slice_text,
};
use vstd::prelude::*;

verus! {

/// A word, a sign or a literal.
#[derive(Debug, PartialEq, Clone)]
pub enum Token {
    Use,
    Global,
    Once,
    Fn,
    Class,
    Enum,
    Interface,
    Const,
    Mut,
    Assert,
    Match,
    For,
    In,
    If,
    Else,
    Return,
    /// The name of a built-in type.
    TypeKeyword,
    LParen,
    RParen,
    LBracket,
    RBracket,
    LBrace,
    RBrace,
    Colon,
    Comma,
    Dot,
    FatArrow,
    Arrow,
    EqEq,
    NotEq,
    GtEq,
    LtEq,
    Gt,
    Lt,
    Assign,
    Plus,
    Minus,
    Star,
    Slash,
    Or,
    And,
    Identifier(String),
    Integer(u64),
    /// A string with its quotes.
    StringLiteral(String),
}

/// A stretch of the source.
pub enum Lexeme {
    /// White space or a comment.
    Blank,
    Word(Seq<char>),
    Number(Seq<char>),
    Quoted(Seq<char>),
    Sign(Token),
    /// What is no word of the language.
    Stray,
}

/// The token of a reserved word.
pub open spec fn keyword_spec(w: Seq<char>) -> Option<Token> {
    if w == "use"@ {
        Some(Token::Use)
    } else if w == "global"@ {
        Some(Token::Global)
    } else if w == "once"@ {
        Some(Token::Once)
    } else if w == "fn"@ {
        Some(Token::Fn)
    } else if w == "class"@ {
        Some(Token::Class)
    } else if w == "enum"@ {
        Some(Token::Enum)
    } else if w == "interface"@ {
        Some(Token::Interface)
    } else if w == "const"@ {
        Some(Token::Const)
    } else if w == "mut"@ {
        Some(Token::Mut)
    } else if w == "assert"@ {
        Some(Token::Assert)
    } else if w == "match"@ {
        Some(Token::Match)
    } else if w == "for"@ {
        Some(Token::For)
    } else if w == "in"@ {
        Some(Token::In)
    } else if w == "if"@ {
        Some(Token::If)
    } else if w == "else"@ {
        Some(Token::Else)
    } else if w == "return"@ {
        Some(Token::Return)
    } else if is_type_word(w) {
        Some(Token::TypeKeyword)
    } else {
        None
    }
}

/// Whether the word names a built-in type.
pub open spec fn is_type_word(w: Seq<char>) -> bool {
    ||| w == "u8"@
    ||| w == "u16"@
    ||| w == "u32"@
    ||| w == "u64"@
    ||| w == "u128"@
    ||| w == "u256"@
    ||| w == "i8"@
    ||| w == "i16"@
    ||| w == "i32"@
    ||| w == "i64"@
    ||| w == "i128"@
    ||| w == "i256"@
    ||| w == "f32"@
    ||| w == "f64"@
    ||| w == "bool"@
    ||| w == "Account"@
}

fn type_word(w: &str) -> (r: bool)
    ensures
        r == is_type_word(w@),
{
    same(w, "u8") || same(w, "u16") || same(w, "u32") || same(w, "u64") || same(w, "u128") ||
        same(w, "u256") || same(w, "i8") || same(w, "i16") || same(w, "i32") || same(w, "i64") ||
        same(w, "i128") || same(w, "i256") || same(w, "f32") || same(w, "f64") ||
        same(w, "bool") || same(w, "Account")
}

fn keyword(w: &str) -> (r: Option<Token>)
    ensures
        r == keyword_spec(w@),
{
    if same(w, "use") {
        Some(Token::Use)
    } else if same(w, "global") {
        Some(Token::Global)
    } else if same(w, "once") {
        Some(Token::Once)
    } else if same(w, "fn") {
        Some(Token::Fn)
    } else if same(w, "class") {
        Some(Token::Class)
    } else if same(w, "enum") {
        Some(Token::Enum)
    } else if same(w, "interface") {
        Some(Token::Interface)
    } else if same(w, "const") {
        Some(Token::Const)
    } else if same(w, "mut") {
        Some(Token::Mut)
    } else if same(w, "assert") {
        Some(Token::Assert)
    } else if same(w, "match") {
        Some(Token::Match)
    } else if same(w, "for") {
        Some(Token::For)
    } else if same(w, "in") {
        Some(Token::In)
    } else if same(w, "if") {
        Some(Token::If)
    } else if same(w, "else") {
        Some(Token::Else)
    } else if same(w, "return") {
        Some(Token::Return)
    } else if type_word(w) {
        Some(Token::TypeKeyword)
    } else {
        None
    }
}

/// The token of a sign of two characters.
pub open spec fn pair_spec(a: char, b: char) -> Option<Token> {
    if a == '=' && b == '>' {
        Some(Token::FatArrow)
    } else if a == '-' && b == '>' {
        Some(Token::Arrow)
    } else if a == '=' && b == '=' {
        Some(Token::EqEq)
    } else if a == '!' && b == '=' {
        Some(Token::NotEq)
    } else if a == '>' && b == '=' {
        Some(Token::GtEq)
    } else if a == '<' && b == '=' {
        Some(Token::LtEq)
    } else if a == '|' && b == '|' {
        Some(Token::Or)
    } else if a == '&' && b == '&' {
        Some(Token::And)
    } else {
        None
    }
}

fn pair_sign(a: char, b: char) -> (r: Option<Token>)
    ensures
        r == pair_spec(a, b),
{
    if a == '=' && b == '>' {
        Some(Token::FatArrow)
    } else if a == '-' && b == '>' {
        Some(Token::Arrow)
    } else if a == '=' && b == '=' {
        Some(Token::EqEq)
    } else if a == '!' && b == '=' {
        Some(Token::NotEq)
    } else if a == '>' && b == '=' {
        Some(Token::GtEq)
    } else if a == '<' && b == '=' {
        Some(Token::LtEq)
    } else if a == '|' && b == '|' {
        Some(Token::Or)
    } else if a == '&' && b == '&' {
        Some(Token::And)
    } else {
        None
    }
}

/// The token of a sign of one character.
pub open spec fn sign_spec(a: char) -> Option<Token> {
    if a == '(' {
        Some(Token::LParen)
    } else if a == ')' {
        Some(Token::RParen)
    } else if a == '[' {
        Some(Token::LBracket)
    } else if a == ']' {
        Some(Token::RBracket)
    } else if a == '{' {
        Some(Token::LBrace)
    } else if a == '}' {
        Some(Token::RBrace)
    } else if a == ':' {
        Some(Token::Colon)
    } else if a == ',' {
        Some(Token::Comma)
    } else if a == '.' {
        Some(Token::Dot)
    } else if a == '>' {
        Some(Token::Gt)
    } else if a == '<' {
        Some(Token::Lt)
    } else if a == '=' {
        Some(Token::Assign)
    } else if a == '+' {
        Some(Token::Plus)
    } else if a == '-' {
        Some(Token::Minus)
    } else if a == '*' {
        Some(Token::Star)
    } else if a == '/' {
        Some(Token::Slash)
    } else {
        None
    }
}

fn single_sign(a: char) -> (r: Option<Token>)
    ensures
        r == sign_spec(a),
{
    if a == '(' {
        Some(Token::LParen)
    } else if a == ')' {
        Some(Token::RParen)
    } else if a == '[' {
        Some(Token::LBracket)
    } else if a == ']' {
        Some(Token::RBracket)
    } else if a == '{' {
        Some(Token::LBrace)
    } else if a == '}' {
        Some(Token::RBrace)
    } else if a == ':' {
        Some(Token::Colon)
    } else if a == ',' {
        Some(Token::Comma)
    } else if a == '.' {
        Some(Token::Dot)
    } else if a == '>' {
        Some(Token::Gt)
    } else if a == '<' {
        Some(Token::Lt)
    } else if a == '=' {
        Some(Token::Assign)
    } else if a == '+' {
        Some(Token::Plus)
    } else if a == '-' {
        Some(Token::Minus)
    } else if a == '*' {
        Some(Token::Star)
    } else if a == '/' {
        Some(Token::Slash)
    } else {
        None
    }
}

/// The white space between words.
pub open spec fn is_blank(c: char) -> bool {
    c == ' ' || c == '\t' || c == '\n' || c == '\u{c}'
}

/// What a word begins with.
pub open spec fn is_letter(c: char) -> bool {
    ('a' <= c && c <= 'z') || ('A' <= c && c <= 'Z') || c == '_'
}

pub(crate) fn letter(c: char) -> (r: bool)
    ensures
        r == is_letter(c),
{
    ('a' <= c && c <= 'z') || ('A' <= c && c <= 'Z') || c == '_'
}

fn blank(c: char) -> (r: bool)
    ensures
        r == is_blank(c),
{
    c == ' ' || c == '\t' || c == '\n' || c == '\u{c}'
}

fn digit(c: char) -> (r: bool)
    ensures
        r == is_digit(c),
{
    '0' <= c && c <= '9'
}

/// Where the run of letters and digits from `i` on ends.
pub open spec fn word_end(s: Seq<char>, i: int) -> int
    decreases s.len() - i,
{
    if 0 <= i < s.len() && (is_letter(s[i]) || is_digit(s[i])) {
        word_end(s, i + 1)
    } else {
        i
    }
}

pub(crate) fn word_end_at(v: &Vec<char>, i: usize) -> (r: usize)
    requires
        i <= v@.len(),
    ensures
        r == word_end(v@, i as int),
        i <= r <= v@.len(),
{
    let mut e: usize = i;
    while e < v.len() && (letter(v[e]) || digit(v[e]))
        invariant
            i <= e <= v@.len(),
            word_end(v@, i as int) == word_end(v@, e as int),
        decreases v@.len() - e,
    {
        e += 1;
    }
    e
}

pub proof fn lemma_word_end(s: Seq<char>, i: int)
    requires
        0 <= i <= s.len(),
    ensures
        i <= word_end(s, i) <= s.len(),
        i < s.len() && (is_letter(s[i]) || is_digit(s[i])) ==> i < word_end(s, i),
    decreases s.len() - i,
{
    if i < s.len() && (is_letter(s[i]) || is_digit(s[i])) {
        lemma_word_end(s, i + 1);
    }
}

/// Where the run of digits from `i` on ends.
pub open spec fn number_end(s: Seq<char>, i: int) -> int
    decreases s.len() - i,
{
    if 0 <= i < s.len() && is_digit(s[i]) {
        number_end(s, i + 1)
    } else {
        i
    }
}

fn number_end_at(v: &Vec<char>, i: usize) -> (r: usize)
    requires
        i <= v@.len(),
    ensures
        r == number_end(v@, i as int),
        i <= r <= v@.len(),
{
    let mut e: usize = i;
    while e < v.len() && digit(v[e])
        invariant
            i <= e <= v@.len(),
            number_end(v@, i as int) == number_end(v@, e as int),
        decreases v@.len() - e,
    {
        e += 1;
    }
    e
}

proof fn lemma_number_end(s: Seq<char>, i: int)
    requires
        0 <= i <= s.len(),
    ensures
        i <= number_end(s, i) <= s.len(),
        i < s.len() && is_digit(s[i]) ==> i < number_end(s, i),
    decreases s.len() - i,
{
    if i < s.len() && is_digit(s[i]) {
        lemma_number_end(s, i + 1);
    }
}

/// Where the run of white space from `i` on ends.
pub open spec fn blank_end(s: Seq<char>, i: int) -> int
    decreases s.len() - i,
{
    if 0 <= i < s.len() && is_blank(s[i]) {
        blank_end(s, i + 1)
    } else {
        i
    }
}

fn blank_end_at(v: &Vec<char>, i: usize) -> (r: usize)
    requires
        i <= v@.len(),
    ensures
        r == blank_end(v@, i as int),
        i <= r <= v@.len(),
{
    let mut e: usize = i;
    while e < v.len() && blank(v[e])
        invariant
            i <= e <= v@.len(),
            blank_end(v@, i as int) == blank_end(v@, e as int),
        decreases v@.len() - e,
    {
        e += 1;
    }
    e
}

proof fn lemma_blank_end(s: Seq<char>, i: int)
    requires
        0 <= i <= s.len(),
    ensures
        i <= blank_end(s, i) <= s.len(),
        i < s.len() && is_blank(s[i]) ==> i < blank_end(s, i),
    decreases s.len() - i,
{
    if i < s.len() && is_blank(s[i]) {
        lemma_blank_end(s, i + 1);
    }
}

/// Whether the character may follow a backslash.
pub open spec fn is_escape(c: char) -> bool {
    c == 't' || c == 'u' || c == 'n' || c == '"'
}

/// Whether a string whose quote stands before `i` is closed, and where it ends, or where
/// it can go on no further.
pub open spec fn quoted_end(s: Seq<char>, i: int) -> (bool, int)
    decreases s.len() - i,
{
    if i < 0 || i >= s.len() {
        (false, i)
    } else if s[i] == '"' {
        (true, i + 1)
    } else if s[i] == '\\' {
        if i + 1 < s.len() && is_escape(s[i + 1]) {
            quoted_end(s, i + 2)
        } else {
            (false, i + 1)
        }
    } else {
        quoted_end(s, i + 1)
    }
}

proof fn lemma_quoted_end(s: Seq<char>, i: int)
    requires
        0 <= i <= s.len(),
    ensures
        i <= quoted_end(s, i).1 <= s.len(),
    decreases s.len() - i,
{
    if i < s.len() && s[i] != '"' {
        if s[i] == '\\' {
            if i + 1 < s.len() && is_escape(s[i + 1]) {
                lemma_quoted_end(s, i + 2);
            }
        } else {
            lemma_quoted_end(s, i + 1);
        }
    }
}

fn quoted_end_at(v: &Vec<char>, i: usize) -> (r: (bool, usize))
    requires
        i <= v@.len(),
    ensures
        (r.0, r.1 as int) == quoted_end(v@, i as int),
        i <= r.1 <= v@.len(),
{
    let mut e: usize = i;
    while e < v.len()
        invariant
            i <= e <= v@.len(),
            quoted_end(v@, i as int) == quoted_end(v@, e as int),
        decreases v@.len() - e,
    {
        let c: char = v[e];
        if c == '"' {
            return (true, e + 1);
        }
        if c == '\\' {
            if v.len() - e > 1 && (v[e + 1] == 't' || v[e + 1] == 'u' || v[e + 1] == 'n' || v[e + 1]
                == '"') {
                e += 2;
            } else {
                return (false, e + 1);
            }
        } else {
            e += 1;
        }
    }
    (false, e)
}

/// The stretch that begins at `i`, and where it ends: the longest that can begin there.
pub open spec fn lexeme_at(s: Seq<char>, i: int) -> (Lexeme, int) {
    let c = s[i];
    let next = if i + 1 < s.len() {
        Some(s[i + 1])
    } else {
        None
    };
    if is_blank(c) {
        (Lexeme::Blank, blank_end(s, i))
    } else if c == '/' && next == Some('/') {
        (Lexeme::Blank, next_char(s, i, '\n'))
    } else if is_letter(c) {
        (Lexeme::Word(s.subrange(i, word_end(s, i))), word_end(s, i))
    } else if is_digit(c) {
        (Lexeme::Number(s.subrange(i, number_end(s, i))), number_end(s, i))
    } else if c == '"' {
        let (closed, e) = quoted_end(s, i + 1);
        if closed {
            (Lexeme::Quoted(s.subrange(i, e)), e)
        } else {
            (Lexeme::Stray, e)
        }
    } else {
        match (match next {
            Some(d) => pair_spec(c, d),
            None => None,
        }) {
            Some(t) => (Lexeme::Sign(t), i + 2),
            None => match sign_spec(c) {
                Some(t) => (Lexeme::Sign(t), i + 1),
                None => (Lexeme::Stray, i + 1),
            },
        }
    }
}

pub proof fn lemma_lexeme_moves(s: Seq<char>, i: int)
    requires
        0 <= i < s.len(),
    ensures
        i < lexeme_at(s, i).1 <= s.len(),
{
    lemma_blank_end(s, i);
    lemma_word_end(s, i);
    lemma_number_end(s, i);
    lemma_quoted_end(s, i + 1);
    lemma_next_char(s, i, '\n');
}

/// The stretches from `i` on that are not blank.
pub open spec fn lexemes_from(s: Seq<char>, i: int) -> Seq<Lexeme>
    decreases s.len() - i,
{
    if i < 0 || i >= s.len() {
        Seq::empty()
    } else {
        proof {
            lemma_lexeme_moves(s, i);
        }
        let (l, e) = lexeme_at(s, i);
        if l is Blank {
            lexemes_from(s, e)
        } else {
            seq![l] + lexemes_from(s, e)
        }
    }
}

/// Whether the token is what the stretch is read as. A number beyond 64 bits is read as 0.
pub open spec fn reads(t: Token, l: Lexeme) -> bool {
    match l {
        Lexeme::Sign(x) => t == x,
        Lexeme::Word(w) => match keyword_spec(w) {
            Some(k) => t == k,
            None => t matches Token::Identifier(x) && x@ == w,
        },
        Lexeme::Number(w) => t matches Token::Integer(n) && n == (match digits_value(w) {
            Some(v) => if v <= u64::MAX {
                v
            } else {
                0
            },
            None => 0,
        }),
        Lexeme::Quoted(w) => t matches Token::StringLiteral(x) && x@ == w,
        Lexeme::Blank => false,
        Lexeme::Stray => false,
    }
}

/// Whether the results are the tokens of the stretches, an error for each that is none.
pub open spec fn lexed(r: Seq<Result<Token, ()>>, ls: Seq<Lexeme>) -> bool {
    &&& r.len() == ls.len()
    &&& forall|k: int|
        0 <= k < r.len() ==> match #[trigger] r[k] {
            Ok(t) => reads(t, ls[k]),
            Err(_) => ls[k] is Stray,
        }
}

fn word_token(w: String) -> (r: Token)
    ensures
        reads(r, Lexeme::Word(w@)),
{
    match keyword(w.as_str()) {
        Some(k) => k,
        None => Token::Identifier(w),
    }
}

fn number_token(w: &str) -> (r: Token)
    requires
        w@.len() > 0,
        w@[0] != '+',
    ensures
        reads(r, Lexeme::Number(w@)),
{
    let n: u64 = match parse_u128(w) {
        Some(v) => if v <= u64::MAX as u128 {
            v as u64
        } else {
            0
        },
        None => 0,
    };
    Token::Integer(n)
}

/// The stretch that begins at `i` as a token, where it is not blank, and where it ends.
fn token_at(v: &Vec<char>, i: usize) -> (r: (Option<Result<Token, ()>>, usize))
    requires
        i < v@.len(),
    ensures
        r.1 == lexeme_at(v@, i as int).1,
        i < r.1 <= v@.len(),
        match r.0 {
            None => lexeme_at(v@, i as int).0 is Blank,
            Some(Ok(t)) => reads(t, lexeme_at(v@, i as int).0),
            Some(Err(_)) => lexeme_at(v@, i as int).0 is Stray,
        },
{
    proof {
        lemma_lexeme_moves(v@, i as int);
    }
    let c: char = v[i];
    if blank(c) {
        return (None, blank_end_at(v, i));
    }
    if c == '/' && v.len() - i > 1 && v[i + 1] == '/' {
        let mut e: usize = i;
        while e < v.len() && v[e] != '\n'
            invariant
                i <= e <= v@.len(),
                next_char(v@, i as int, '\n') == next_char(v@, e as int, '\n'),
            decreases v@.len() - e,
        {
            e += 1;
        }
        return (None, e);
    }
    if letter(c) {
        let e = word_end_at(v, i);
        return (Some(Ok(word_token(slice_text(v, i, e)))), e);
    }
    if digit(c) {
        let e = number_end_at(v, i);
        let w = slice_text(v, i, e);
        assert(w@[0] == c);
        return (Some(Ok(number_token(w.as_str()))), e);
    }
    if c == '"' {
        let (closed, e) = quoted_end_at(v, i + 1);
        if closed {
            return (Some(Ok(Token::StringLiteral(slice_text(v, i, e)))), e);
        }
        return (Some(Err(())), e);
    }
    if v.len() - i > 1 {
        match pair_sign(c, v[i + 1]) {
            Some(t) => {
                return (Some(Ok(t)), i + 2);
            },
            None => {},
        }
    }
    match single_sign(c) {
        Some(t) => (Some(Ok(t)), i + 1),
        None => (Some(Err(())), i + 1),
    }
}

impl Token {
    /// The tokens of a source, with an error for each stretch that is none.
    pub fn lexer(source: &str) -> (r: Vec<Result<Token, ()>>)
        ensures
            lexed(r@, lexemes_from(source@, 0)),
    {
        let v = chars_of(source);
        let mut out: Vec<Result<Token, ()>> = Vec::new();
        let ghost mut done: Seq<Lexeme> = Seq::empty();
        let mut i: usize = 0;
        assert(done + lexemes_from(v@, 0) =~= lexemes_from(source@, 0));
        while i < v.len()
            invariant
                v@ == source@,
                i <= v@.len(),
                lexed(out@, done),
                done + lexemes_from(v@, i as int) == lexemes_from(source@, 0),
            decreases v@.len() - i,
        {
            let (t, e) = token_at(&v, i);
            match t {
                Some(x) => {
                    proof {
                        let l = lexeme_at(v@, i as int).0;
                        assert(done.push(l) + lexemes_from(v@, e as int) =~= done + lexemes_from(
                            v@,
                            i as int,
                        ));
                        done = done.push(l);
                    }
                    out.push(x);
                },
                None => {},
            }
            i = e;
        }
        assert(done =~= lexemes_from(source@, 0));
        out
    }
}

} // verus!
