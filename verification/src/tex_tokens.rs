//! The LaTeX converter's tokens, and the token patterns on which its parser
//! panics.
//!
//! `tex2typst_rs::tex2typst` first splits its input with the crate's
//! tokenizer and then parses the tokens. The parser stops with a panic, not
//! an error, in three places: a prime right after a superscript's argument
//! ("Double superscript"), a `\begin` whose `\end` is missing from the part
//! of the input it is parsed in ("No matching \end"), and `\sqrt` as the last
//! token of that part (an index past the end). It also asserts that `\text`,
//! `\begin` and `\end` are followed by `{`, a text token and `}`.
//!
//! This module names the tokenizer's result, sorts each token into the class
//! the parser treats it by, and decides on the token classes whether the
//! parser may reach one of those panics.

use vstd::prelude::*;
use vstd::string::*;
use tex2typst_rs::definitions::TexTokenType as K;

verus! {

/// The kind of a converter token.
#[derive(Clone, Copy, PartialEq, Eq, Structural, Debug)]
pub enum TexTokKind {
    Element,
    Command,
    Text,
    Comment,
    Space,
    Newline,
    Control,
    Unknown,
    NoBreakSpace,
}

/// A converter token: its kind and its text.
pub struct TexTok {
    pub kind: TexTokKind,
    pub value: String,
}

/// A token as a plain value.
pub open spec fn token_view(t: TexTok) -> (TexTokKind, Seq<char>) {
    (t.kind, t.value@)
}

/// A sequence of tokens as plain values.
pub open spec fn token_views(v: Seq<TexTok>) -> Seq<(TexTokKind, Seq<char>)> {
    v.map_values(|t: TexTok| token_view(t))
}

/// What the converter's tokenizer makes of `tex`: its tokens, or `None`
/// where it reports an error.
pub uninterp spec fn tex_tokens(tex: Seq<char>) -> Option<Seq<(TexTokKind, Seq<char>)>>;

/// Splits LaTeX into tokens with `tex2typst_rs::tex_tokenizer::tokenize`,
/// the tokenizer that `tex2typst` runs before it parses; `None` where the
/// tokenizer reports an error. Each token keeps its kind and text. The
/// contract claims only that the outcome is the tokenizer's outcome on this
/// text (named `tex_tokens`): the same text always gives the same tokens.
#[verifier::external_body]
fn tokenize_tex(tex: &str) -> (r: Option<Vec<TexTok>>)
    ensures
        match r {
            Some(v) => tex_tokens(tex@) == Some(token_views(v@)),
            None => tex_tokens(tex@) is None,
        },
{
    let tokens = match tex2typst_rs::tex_tokenizer::tokenize(tex) { Ok(tokens) => tokens, Err(_) => return None };
    let mut out: Vec<TexTok> = Vec::new();
    for t in tokens {
        let kind = match t.token_type {
            K::Element => TexTokKind::Element, K::Command => TexTokKind::Command, K::Text => TexTokKind::Text,
            K::Comment => TexTokKind::Comment, K::Space => TexTokKind::Space, K::Newline => TexTokKind::Newline,
            K::Control => TexTokKind::Control, K::Unknown => TexTokKind::Unknown, K::NoBreakSpace => TexTokKind::NoBreakSpace,
        };
        out.push(TexTok { kind, value: t.value });
    }
    Some(out)
}

/// How the parser treats a token.
#[derive(Clone, Copy, PartialEq, Eq, Structural, Debug)]
pub enum TokClass {
    /// The control token `{`.
    OpenBrace,
    /// The control token `}`.
    CloseBrace,
    /// The element `[`.
    OpenBracket,
    /// The element `]`.
    CloseBracket,
    /// The control token `^`.
    Sup,
    /// The control token `_`.
    Sub,
    /// The element `'`.
    Prime,
    /// The command `\begin`.
    Begin,
    /// The command `\end`.
    End,
    /// The command `\left`.
    Left,
    /// The command `\right`.
    Right,
    /// The command `\sqrt`, whose first argument is optional.
    Sqrt,
    /// The command `\text`.
    TextCommand,
    /// A command with one argument.
    UnaryCommand,
    /// A command with two arguments.
    BinaryCommand,
    /// Any other command: a symbol, with no argument.
    SymbolCommand,
    /// A control token that stands alone: `\\`, `\,` or `&`.
    SimpleControl,
    /// Any other control token.
    OtherControl,
    /// A text token (the name after `\text`, `\begin` or `\end`).
    TextBody,
    /// A run of spaces.
    Space,
    /// A line break.
    Newline,
    /// Any other token: a single-token expression.
    Plain,
}

/// The commands the parser gives one argument.
pub open spec fn unary_commands() -> Seq<Seq<char>> {
    seq![
        "\\text"@, "\\bar"@, "\\bold"@, "\\boldsymbol"@, "\\ddot"@, "\\dot"@, "\\hat"@, "\\mathbb"@,
        "\\mathbf"@, "\\mathcal"@, "\\mathfrak"@, "\\mathit"@, "\\mathrm"@, "\\mathscr"@, "\\mathsf"@,
        "\\mathtt"@, "\\operatorname"@, "\\overbrace"@, "\\overline"@, "\\pmb"@, "\\rm"@, "\\tilde"@,
        "\\underbrace"@, "\\underline"@, "\\vec"@, "\\overrightarrow"@, "\\widehat"@, "\\widetilde"@,
        "\\floor"@,
    ]
}

/// The commands the parser gives two arguments.
pub open spec fn binary_commands() -> Seq<Seq<char>> {
    seq!["\\frac"@, "\\tfrac"@, "\\binom"@, "\\dbinom"@, "\\dfrac"@, "\\tbinom"@, "\\overset"@]
}

/// The class of a token.
pub open spec fn classify(t: (TexTokKind, Seq<char>)) -> TokClass {
    let v = t.1;
    match t.0 {
        TexTokKind::Control => if v == "{"@ {
            TokClass::OpenBrace
        } else if v == "}"@ {
            TokClass::CloseBrace
        } else if v == "^"@ {
            TokClass::Sup
        } else if v == "_"@ {
            TokClass::Sub
        } else if v == "\\\\"@ || v == "\\,"@ || v == "&"@ {
            TokClass::SimpleControl
        } else {
            TokClass::OtherControl
        },
        TexTokKind::Element => if v == "["@ {
            TokClass::OpenBracket
        } else if v == "]"@ {
            TokClass::CloseBracket
        } else if v == "'"@ {
            TokClass::Prime
        } else {
            TokClass::Plain
        },
        TexTokKind::Command => if v == "\\begin"@ {
            TokClass::Begin
        } else if v == "\\end"@ {
            TokClass::End
        } else if v == "\\left"@ {
            TokClass::Left
        } else if v == "\\right"@ {
            TokClass::Right
        } else if v == "\\sqrt"@ {
            TokClass::Sqrt
        } else if v == "\\text"@ {
            TokClass::TextCommand
        } else if unary_commands().contains(v) {
            TokClass::UnaryCommand
        } else if binary_commands().contains(v) {
            TokClass::BinaryCommand
        } else {
            TokClass::SymbolCommand
        },
        TexTokKind::Text => TokClass::TextBody,
        TexTokKind::Space => TokClass::Space,
        TexTokKind::Newline => TokClass::Newline,
        _ => TokClass::Plain,
    }
}

/// The classes of a sequence of tokens.
pub open spec fn classes(t: Seq<(TexTokKind, Seq<char>)>) -> Seq<TokClass> {
    t.map_values(|x: (TexTokKind, Seq<char>)| classify(x))
}

/// Whether `value` is the text `lit`.
fn text_is(value: &String, lit: &str) -> (b: bool)
    ensures
        b == (value@ == lit@),
{
    let l = String::from_str(lit);
    *value == l
}

/// Whether `value` is one of `names`.
fn one_of(value: &String, names: &[&str]) -> (b: bool)
    ensures
        b == names@.map_values(|s: &str| s@).contains(value@),
{
    let ghost views = names@.map_values(|s: &str| s@);
    let mut k: usize = 0;
    while k < names.len()
        invariant
            k <= names@.len(),
            views == names@.map_values(|s: &str| s@),
            forall|j: int| 0 <= j < k ==> views[j] != value@,
        decreases names.len() - k,
    {
        if text_is(value, names[k]) {
            assert(views[k as int] == value@);
            return true;
        }
        k = k + 1;
    }
    proof {
        if views.contains(value@) {
            let j = choose|j: int| 0 <= j < views.len() && views[j] == value@;
            assert(views[j] != value@);
        }
    }
    false
}

/// The class of a token.
pub fn classify_token(t: &TexTok) -> (c: TokClass)
    ensures
        c == classify(token_view(*t)),
{
    let v = &t.value;
    match t.kind {
        TexTokKind::Control => if text_is(v, "{") {
            TokClass::OpenBrace
        } else if text_is(v, "}") {
            TokClass::CloseBrace
        } else if text_is(v, "^") {
            TokClass::Sup
        } else if text_is(v, "_") {
            TokClass::Sub
        } else if text_is(v, "\\\\") || text_is(v, "\\,") || text_is(v, "&") {
            TokClass::SimpleControl
        } else {
            TokClass::OtherControl
        },
        TexTokKind::Element => if text_is(v, "[") {
            TokClass::OpenBracket
        } else if text_is(v, "]") {
            TokClass::CloseBracket
        } else if text_is(v, "'") {
            TokClass::Prime
        } else {
            TokClass::Plain
        },
        TexTokKind::Command => {
            let unary: [&str; 29] = [
                "\\text", "\\bar", "\\bold", "\\boldsymbol", "\\ddot", "\\dot", "\\hat", "\\mathbb",
                "\\mathbf", "\\mathcal", "\\mathfrak", "\\mathit", "\\mathrm", "\\mathscr", "\\mathsf",
                "\\mathtt", "\\operatorname", "\\overbrace", "\\overline", "\\pmb", "\\rm", "\\tilde",
                "\\underbrace", "\\underline", "\\vec", "\\overrightarrow", "\\widehat", "\\widetilde",
                "\\floor",
            ];
            let binary: [&str; 7] = ["\\frac", "\\tfrac", "\\binom", "\\dbinom", "\\dfrac", "\\tbinom", "\\overset"];
            assert(unary@.map_values(|s: &str| s@) =~= unary_commands());
            assert(binary@.map_values(|s: &str| s@) =~= binary_commands());
            if text_is(v, "\\begin") {
                TokClass::Begin
            } else if text_is(v, "\\end") {
                TokClass::End
            } else if text_is(v, "\\left") {
                TokClass::Left
            } else if text_is(v, "\\right") {
                TokClass::Right
            } else if text_is(v, "\\sqrt") {
                TokClass::Sqrt
            } else if text_is(v, "\\text") {
                TokClass::TextCommand
            } else if one_of(v, unary.as_slice()) {
                TokClass::UnaryCommand
            } else if one_of(v, binary.as_slice()) {
                TokClass::BinaryCommand
            } else {
                TokClass::SymbolCommand
            }
        },
        TexTokKind::Text => TokClass::TextBody,
        TexTokKind::Space => TokClass::Space,
        TexTokKind::Newline => TokClass::Newline,
        _ => TokClass::Plain,
    }
}

/// The classes of a sequence of tokens.
pub fn classify_tokens(tokens: &Vec<TexTok>) -> (c: Vec<TokClass>)
    ensures
        c@ == classes(token_views(tokens@)),
{
    let mut c: Vec<TokClass> = Vec::new();
    let mut k: usize = 0;
    while k < tokens.len()
        invariant
            k <= tokens@.len(),
            c@ == classes(token_views(tokens@)).take(k as int),
        decreases tokens.len() - k,
    {
        let x = classify_token(&tokens[k]);
        c.push(x);
        k = k + 1;
        assert(c@ =~= classes(token_views(tokens@)).take(k as int));
    }
    assert(c@ =~= classes(token_views(tokens@)));
    c
}


/// Where the bracket opened at `start` closes: scanning from `pos` with
/// `depth` brackets open, the first position where the count of `open` less
/// the count of `close` comes back to zero.
pub open spec fn close_from(c: Seq<TokClass>, pos: int, depth: int, open: TokClass, close: TokClass) -> Option<int>
    decreases c.len() - pos,
{
    if pos < 0 || pos >= c.len() {
        None
    } else {
        let d = if c[pos] == open {
            depth + 1
        } else if c[pos] == close {
            depth - 1
        } else {
            depth
        };
        if d == 0 {
            Some(pos)
        } else {
            close_from(c, pos + 1, d, open, close)
        }
    }
}

/// The position of the `close` that matches the `open` at `start`, counting
/// nested pairs, as the parser finds it.
pub open spec fn matching(c: Seq<TokClass>, start: int, open: TokClass, close: TokClass) -> Option<int> {
    close_from(c, start + 1, 1, open, close)
}

/// The first position at or after `p` that holds no space or line break.
pub open spec fn skip_ws(c: Seq<TokClass>, p: int) -> int
    decreases c.len() - p,
{
    if p < 0 || p >= c.len() {
        p
    } else if c[p] == TokClass::Space || c[p] == TokClass::Newline {
        skip_ws(c, p + 1)
    } else {
        p
    }
}

/// Where the expression that the parser reads at `q` (without scripts)
/// ends, whenever it reads one there without an error: the position after
/// its last token (`q` itself for a `^` or `_`, which stand for an empty
/// expression). `None` where the parser reports an error there, or stops
/// at a panic that `panics_at` flags.
pub open spec fn atom_end(c: Seq<TokClass>, q: int) -> Option<int>
    decreases c.len() - q,
{
    if q < 0 || q >= c.len() {
        None
    } else {
        match c[q] {
            TokClass::OpenBrace => match matching(c, q, TokClass::OpenBrace, TokClass::CloseBrace) {
                Some(m) => Some(m + 1),
                None => None,
            },
            TokClass::CloseBrace | TokClass::OtherControl | TokClass::Right | TokClass::End => None,
            TokClass::Sup | TokClass::Sub => Some(q),
            TokClass::Begin => match matching(c, q, TokClass::Begin, TokClass::End) {
                Some(j) => Some(j + 4),
                None => None,
            },
            TokClass::Left => match matching(c, q, TokClass::Left, TokClass::Right) {
                Some(r) => if skip_ws(c, r + 1) < c.len() {
                    Some(skip_ws(c, r + 1) + 1)
                } else {
                    None
                },
                None => None,
            },
            TokClass::TextCommand => if q + 3 < c.len() {
                Some(q + 4)
            } else {
                None
            },
            TokClass::UnaryCommand => atom_end(c, q + 1),
            TokClass::BinaryCommand => match atom_end(c, q + 1) {
                Some(e) => if q < e <= c.len() {
                    atom_end(c, e)
                } else {
                    None
                },
                None => None,
            },
            TokClass::Sqrt => if q + 1 < c.len() && c[q + 1] == TokClass::OpenBracket {
                match matching(c, q + 1, TokClass::OpenBracket, TokClass::CloseBracket) {
                    Some(m) => if q < m < c.len() {
                        atom_end(c, m + 1)
                    } else {
                        None
                    },
                    None => None,
                }
            } else {
                atom_end(c, q + 1)
            },
            _ => Some(q + 1),
        }
    }
}

/// Whether position `e` holds a prime.
pub open spec fn prime_at(c: Seq<TokClass>, e: int) -> bool {
    0 <= e < c.len() && c[e] == TokClass::Prime
}

/// A `^` at `p` whose argument is followed by a prime, or by `_`, a
/// subscript and a prime: the parser's "Double superscript" panics.
pub open spec fn double_superscript_at(c: Seq<TokClass>, p: int) -> bool {
    &&& 0 <= p < c.len()
    &&& c[p] == TokClass::Sup
    &&& match atom_end(c, p + 1) {
        Some(e1) => prime_at(c, e1) || (0 <= e1 < c.len() && c[e1] == TokClass::Sub && match atom_end(c, e1 + 1) {
            Some(e2) => prime_at(c, e2),
            None => false,
        }),
        None => false,
    }
}

/// Whether `{`, a text token and `}` stand at `k`.
pub open spec fn name_group_at(c: Seq<TokClass>, k: int) -> bool {
    &&& 0 <= k
    &&& k + 2 < c.len()
    &&& c[k] == TokClass::OpenBrace
    &&& c[k + 1] == TokClass::TextBody
    &&& c[k + 2] == TokClass::CloseBrace
}

/// The count of `open` less the count of `close` in positions `a` up to
/// (not including) `b`.
pub open spec fn balance(c: Seq<TokClass>, a: int, b: int, open: TokClass, close: TokClass) -> int
    decreases b - a,
{
    if b <= a {
        0
    } else {
        balance(c, a, b - 1, open, close) + if c[b - 1] == open {
            1int
        } else if c[b - 1] == close {
            -1int
        } else {
            0int
        }
    }
}

/// Whether some `close` between `i` and `j` has no `open` after `i` to
/// match it.
pub open spec fn dips(c: Seq<TokClass>, i: int, j: int, open: TokClass, close: TokClass) -> bool {
    exists|k: int| i < k <= j && #[trigger] balance(c, i + 1, k, open, close) < 0
}

/// A `\begin` at `i` that the parser may find no `\end` for in the part of
/// the input it parses it in: no `\end` matches it, or a `}`, `]` or
/// `\right` between the two closes something opened before the `\begin`
/// (and so ends that part first). Also flagged: a `\begin` or its `\end`
/// not followed by `{`, a text token and `}`, which the parser asserts.
pub open spec fn unclosed_environment_at(c: Seq<TokClass>, i: int) -> bool {
    &&& 0 <= i < c.len()
    &&& c[i] == TokClass::Begin
    &&& (!name_group_at(c, i + 1) || match matching(c, i, TokClass::Begin, TokClass::End) {
        None => true,
        Some(j) => !name_group_at(c, j + 1) || dips(c, i, j, TokClass::OpenBrace, TokClass::CloseBrace)
            || dips(c, i, j, TokClass::OpenBracket, TokClass::CloseBracket) || dips(
            c,
            i,
            j,
            TokClass::Left,
            TokClass::Right,
        ),
    })
}

/// A `\sqrt` at `q` that may be the last token of the part of the input it
/// is parsed in: at the end, or before `}`, `]`, `\right`, or (after spaces
/// and line breaks, which the parser drops before an `\end`) `\end`.
pub open spec fn sqrt_without_argument_at(c: Seq<TokClass>, q: int) -> bool {
    &&& 0 <= q < c.len()
    &&& c[q] == TokClass::Sqrt
    &&& (q + 1 >= c.len() || c[q + 1] == TokClass::CloseBrace || c[q + 1] == TokClass::CloseBracket || c[q + 1]
        == TokClass::Right || (skip_ws(c, q + 1) < c.len() && c[skip_ws(c, q + 1)] == TokClass::End))
}

/// A `\text` at `q` with three more tokens after it that are not `{`, a
/// text token and `}`, which the parser asserts.
pub open spec fn text_without_name_at(c: Seq<TokClass>, q: int) -> bool {
    &&& 0 <= q < c.len()
    &&& c[q] == TokClass::TextCommand
    &&& q + 3 < c.len()
    &&& !name_group_at(c, q + 1)
}

/// Whether the parser may panic at position `p`.
pub open spec fn panics_at(c: Seq<TokClass>, p: int) -> bool {
    double_superscript_at(c, p) || unclosed_environment_at(c, p) || sqrt_without_argument_at(c, p)
        || text_without_name_at(c, p)
}

/// Whether the parser may panic on tokens of these classes.
pub open spec fn classes_may_panic(c: Seq<TokClass>) -> bool {
    exists|p: int| 0 <= p < c.len() && #[trigger] panics_at(c, p)
}

/// A `\sqrt` followed directly by a token that can begin its argument (a
/// `{`, a `[`, or any token but `}`, `]`, `\right`, `\end`, a space or a
/// line break) is never flagged, whatever stands before it.
pub proof fn lemma_sqrt_with_argument_not_flagged(c: Seq<TokClass>, q: int)
    requires
        0 <= q,
        q + 1 < c.len(),
        c[q] == TokClass::Sqrt,
        c[q + 1] != TokClass::CloseBrace,
        c[q + 1] != TokClass::CloseBracket,
        c[q + 1] != TokClass::Right,
        c[q + 1] != TokClass::End,
        c[q + 1] != TokClass::Space,
        c[q + 1] != TokClass::Newline,
    ensures
        !panics_at(c, q),
{
    assert(skip_ws(c, q + 1) == q + 1);
}

/// Math with no primes and no environments, whose `\text` commands carry
/// their names and whose `\sqrt` commands each take a braced argument, is
/// never flagged: fractions, roots, scripts and symbols of any nesting pass.
pub proof fn lemma_plain_math_not_flagged(c: Seq<TokClass>)
    requires
        forall|i: int| 0 <= i < c.len() ==> #[trigger] c[i] != TokClass::Prime && c[i] != TokClass::Begin,
        forall|i: int| 0 <= i < c.len() && #[trigger] c[i] == TokClass::TextCommand ==> name_group_at(c, i + 1),
        forall|i: int| 0 <= i < c.len() && #[trigger] c[i] == TokClass::Sqrt ==> i + 1 < c.len() && c[i + 1]
            == TokClass::OpenBrace,
    ensures
        !classes_may_panic(c),
{
    assert forall|p: int| 0 <= p < c.len() implies !#[trigger] panics_at(c, p) by {
        if c[p] == TokClass::Sqrt {
            lemma_sqrt_with_argument_not_flagged(c, p);
        }
        if c[p] == TokClass::Sup {
            match atom_end(c, p + 1) {
                Some(e1) => {
                    if 0 <= e1 < c.len() {
                        assert(c[e1] != TokClass::Prime);
                    }
                    match atom_end(c, e1 + 1) {
                        Some(e2) => {
                            if 0 <= e2 < c.len() {
                                assert(c[e2] != TokClass::Prime);
                            }
                        },
                        None => {},
                    }
                },
                None => {},
            }
        }
    }
}

/// Whether the converter's parser may panic on these tokens.
pub open spec fn tokens_may_panic(t: Seq<(TexTokKind, Seq<char>)>) -> bool {
    classes_may_panic(classes(t))
}

/// Whether the converter may panic on `tex`: its tokenizer accepts it and
/// the parser may panic on the tokens.
pub open spec fn converter_may_panic(tex: Seq<char>) -> bool {
    match tex_tokens(tex) {
        Some(t) => tokens_may_panic(t),
        None => false,
    }
}


/// The position of the `close` that matches the `open` at `start`.
fn matching_exec(c: &Vec<TokClass>, start: usize, open: TokClass, close: TokClass) -> (r: Option<usize>)
    requires
        start < c@.len(),
    ensures
        match r {
            Some(m) => matching(c@, start as int, open, close) == Some(m as int) && start < m < c@.len(),
            None => matching(c@, start as int, open, close) is None,
        },
{
    let n = c.len();
    let mut pos: usize = start + 1;
    let mut depth: usize = 1;
    while pos < c.len()
        invariant
            start < pos <= c@.len(),
            1 <= depth <= pos - start,
            matching(c@, start as int, open, close) == close_from(c@, pos as int, depth as int, open, close),
        decreases c@.len() - pos,
    {
        let x = c[pos];
        if x == open {
            depth = depth + 1;
        } else if x == close {
            depth = depth - 1;
            if depth == 0 {
                return Some(pos);
            }
        }
        pos = pos + 1;
    }
    None
}

/// The first position at or after `p` that holds no space or line break.
fn skip_ws_exec(c: &Vec<TokClass>, p: usize) -> (r: usize)
    requires
        p <= c@.len(),
    ensures
        r as int == skip_ws(c@, p as int),
        p <= r <= c@.len(),
{
    let mut k = p;
    while k < c.len() && (c[k] == TokClass::Space || c[k] == TokClass::Newline)
        invariant
            p <= k <= c@.len(),
            skip_ws(c@, p as int) == skip_ws(c@, k as int),
        decreases c@.len() - k,
    {
        k = k + 1;
    }
    k
}

/// Where the expression the parser reads at `q` ends; `None` where
/// `atom_end` gives none or a position past the end.
fn atom_end_exec(c: &Vec<TokClass>, q: usize) -> (r: Option<usize>)
    ensures
        match r {
            Some(e) => atom_end(c@, q as int) == Some(e as int) && e <= c@.len(),
            None => match atom_end(c@, q as int) {
                Some(e) => e > c@.len(),
                None => true,
            },
        },
    decreases c@.len() - q,
{
    if q >= c.len() {
        return None;
    }
    match c[q] {
        TokClass::OpenBrace => match matching_exec(c, q, TokClass::OpenBrace, TokClass::CloseBrace) {
            Some(m) => Some(m + 1),
            None => None,
        },
        TokClass::CloseBrace | TokClass::OtherControl | TokClass::Right | TokClass::End => None,
        TokClass::Sup | TokClass::Sub => Some(q),
        TokClass::Begin => match matching_exec(c, q, TokClass::Begin, TokClass::End) {
            Some(j) => if c.len() - j >= 4 {
                Some(j + 4)
            } else {
                None
            },
            None => None,
        },
        TokClass::Left => match matching_exec(c, q, TokClass::Left, TokClass::Right) {
            Some(r) => {
                let p = skip_ws_exec(c, r + 1);
                if p < c.len() {
                    Some(p + 1)
                } else {
                    None
                }
            },
            None => None,
        },
        TokClass::TextCommand => if c.len() - q > 3 {
            Some(q + 4)
        } else {
            None
        },
        TokClass::UnaryCommand => atom_end_exec(c, q + 1),
        TokClass::BinaryCommand => match atom_end_exec(c, q + 1) {
            Some(e) => if q < e {
                atom_end_exec(c, e)
            } else {
                None
            },
            None => None,
        },
        TokClass::Sqrt => if q + 1 < c.len() && c[q + 1] == TokClass::OpenBracket {
            match matching_exec(c, q + 1, TokClass::OpenBracket, TokClass::CloseBracket) {
                Some(m) => atom_end_exec(c, m + 1),
                None => None,
            }
        } else {
            atom_end_exec(c, q + 1)
        },
        _ => Some(q + 1),
    }
}

/// Whether `{`, a text token and `}` stand at `k`.
fn name_group_exec(c: &Vec<TokClass>, k: usize) -> (b: bool)
    ensures
        b == name_group_at(c@, k as int),
{
    k < c.len() && c.len() - k > 2 && c[k] == TokClass::OpenBrace && c[k + 1] == TokClass::TextBody && c[k + 2]
        == TokClass::CloseBrace
}

/// Whether some `close` between `i` and `j` has no `open` after `i` to
/// match it.
fn dips_exec(c: &Vec<TokClass>, i: usize, j: usize, open: TokClass, close: TokClass) -> (b: bool)
    requires
        i < j < c@.len(),
    ensures
        b == dips(c@, i as int, j as int, open, close),
{
    let mut x: usize = i + 1;
    let mut bal: usize = 0;
    while x < j
        invariant
            i < x <= j,
            j < c@.len(),
            bal <= x - (i + 1),
            bal as int == balance(c@, i + 1, x as int, open, close),
            forall|k: int| i < k <= x ==> #[trigger] balance(c@, i + 1, k, open, close) >= 0,
        decreases j - x,
    {
        let y = c[x];
        if y == open {
            bal = bal + 1;
        } else if y == close {
            if bal == 0 {
                assert(balance(c@, i + 1, x + 1, open, close) < 0);
                return true;
            }
            bal = bal - 1;
        }
        x = x + 1;
    }
    false
}

/// Whether the parser may panic at position `p`.
fn panics_at_exec(c: &Vec<TokClass>, p: usize) -> (b: bool)
    requires
        p < c@.len(),
    ensures
        b == panics_at(c@, p as int),
{
    let n = c.len();
    match c[p] {
        TokClass::Sup => match atom_end_exec(c, p + 1) {
            Some(e1) => if e1 < c.len() && c[e1] == TokClass::Prime {
                true
            } else if e1 < c.len() && c[e1] == TokClass::Sub {
                match atom_end_exec(c, e1 + 1) {
                    Some(e2) => e2 < c.len() && c[e2] == TokClass::Prime,
                    None => false,
                }
            } else {
                false
            },
            None => false,
        },
        TokClass::Begin => {
            if !name_group_exec(c, p + 1) {
                return true;
            }
            match matching_exec(c, p, TokClass::Begin, TokClass::End) {
                None => true,
                Some(j) => !name_group_exec(c, j + 1) || dips_exec(c, p, j, TokClass::OpenBrace, TokClass::CloseBrace)
                    || dips_exec(c, p, j, TokClass::OpenBracket, TokClass::CloseBracket) || dips_exec(
                    c,
                    p,
                    j,
                    TokClass::Left,
                    TokClass::Right,
                ),
            }
        },
        TokClass::Sqrt => {
            if p + 1 >= c.len() {
                return true;
            }
            let next = c[p + 1];
            if next == TokClass::CloseBrace || next == TokClass::CloseBracket || next == TokClass::Right {
                return true;
            }
            let k = skip_ws_exec(c, p + 1);
            k < c.len() && c[k] == TokClass::End
        },
        TokClass::TextCommand => c.len() - p > 3 && !name_group_exec(c, p + 1),
        _ => false,
    }
}

/// Whether the parser may panic on tokens of these classes.
pub fn classes_may_panic_exec(c: &Vec<TokClass>) -> (b: bool)
    ensures
        b == classes_may_panic(c@),
{
    let mut p: usize = 0;
    while p < c.len()
        invariant
            p <= c@.len(),
            forall|k: int| 0 <= k < p ==> !#[trigger] panics_at(c@, k),
        decreases c@.len() - p,
    {
        if panics_at_exec(c, p) {
            return true;
        }
        p = p + 1;
    }
    false
}

/// Whether the converter's parser may panic on these tokens.
pub fn may_panic_on_tokens(tokens: &Vec<TexTok>) -> (b: bool)
    ensures
        b == tokens_may_panic(token_views(tokens@)),
{
    let c = classify_tokens(tokens);
    classes_may_panic_exec(&c)
}

/// Whether the LaTeX converter may panic on `tex`: its tokenizer accepts the
/// text and the parser may panic on the tokens.
pub fn may_panic_converter(tex: &str) -> (b: bool)
    ensures
        b == converter_may_panic(tex@),
{
    match tokenize_tex(tex) {
        Some(tokens) => may_panic_on_tokens(&tokens),
        None => false,
    }
}

} // verus!
