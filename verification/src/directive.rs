use vstd::prelude::*;

use crate::token::{
    copy_toks, lemma_stoks_index, lemma_stoks_len, render_toks, span_of, stoks, tok_span, toks_str,
    Delim, SpanId, STok, Tok,
};
use crate::{Diag, SDiag};
use syn::parse::Parser;

verus! {

broadcast use vstd::std_specs::vec::group_vec_axioms, vstd::seq::group_seq_axioms;

/// How one captured variable is bound by the rewritten closure.
#[derive(Clone, Copy, PartialEq, Eq, Debug)]
pub enum Mode {
    /// `clone x`: bind to a cloned value.
    Cloned,
    /// `clone mut x`: bind to a cloned value, mutable.
    ClonedMut,
    /// `ref x`: bind to a borrowed reference.
    Borrowed,
    /// `ref mut x`: bind to a mutable borrowed reference.
    BorrowedMut,
    /// `move x`: bind by moving the outer value.
    Moved,
    /// `move mut x`: bind by moving, mutable.
    MovedMut,
    /// `weak x`: store a weak handle; each call upgrades it, rebinding the
    /// name to the strong value, or returns a type-appropriate default.
    Weak,
    /// `fail(e) x`: store a weak handle; each call upgrades it or returns `e`.
    Fail,
    /// `panic x`: store a weak handle; each call upgrades it or aborts.
    Panic,
}

/// One parsed capture directive: a mode and the name it captures.  For
/// `Fail` the fallback expression is kept as its tokens; for every other
/// mode `fallback` is empty.
#[derive(PartialEq, Eq, Debug)]
pub struct Capture {
    pub mode: Mode,
    pub name: String,
    pub name_span: SpanId,
    pub fallback: Vec<Tok>,
}

/// The mathematical value of a capture directive.
#[verifier::ext_equal]
pub ghost struct SCapture {
    pub mode: Mode,
    pub name: Seq<char>,
    pub name_span: SpanId,
    pub fallback: Seq<STok>,
}

impl View for Capture {
    type V = SCapture;

    open spec fn view(&self) -> SCapture {
        SCapture {
            mode: self.mode,
            name: self.name@,
            name_span: self.name_span,
            fallback: stoks(self.fallback@),
        }
    }
}

/// The mathematical value of a directive sequence.
pub open spec fn scaps(cs: Seq<Capture>) -> Seq<SCapture> {
    Seq::new(cs.len(), |i: int| cs[i]@)
}

// ---------------------------------------------------------------------------
// Token classification
// ---------------------------------------------------------------------------
pub open spec fn is_ident_tok(t: STok) -> bool {
    t is Ident
}

pub open spec fn ident_text(t: STok) -> Seq<char> {
    match t {
        STok::Ident { text, .. } => text,
        _ => Seq::<char>::empty(),
    }
}

pub open spec fn is_comma_tok(t: STok) -> bool {
    match t {
        STok::Punct { text, .. } => text == ","@,
        _ => false,
    }
}

pub open spec fn is_paren_group(t: STok) -> bool {
    match t {
        STok::Group { delim, .. } => delim == Delim::Paren,
        _ => false,
    }
}

pub open spec fn group_toks(t: STok) -> Seq<STok> {
    match t {
        STok::Group { toks, .. } => toks,
        _ => Seq::<STok>::empty(),
    }
}

/// Exec test: is `t` the identifier or keyword `s`?
fn tok_is_ident(t: &Tok, s: &str) -> (r: bool)
    ensures
        r == (is_ident_tok(t@) && ident_text(t@) == s@),
{
    match t {
        Tok::Ident { text, .. } => text_is(text, s),
        _ => false,
    }
}

/// Exec test: is `t` a bare comma?
fn tok_is_comma(t: &Tok) -> (r: bool)
    ensures
        r == is_comma_tok(t@),
{
    match t {
        Tok::Punct { text, .. } => text_is(text, ","),
        _ => false,
    }
}

/// Exec test: does the text equal the literal `s`?
fn text_is(t: &String, s: &str) -> (r: bool)
    ensures
        r == (t@ == s@),
{
    let other = String::from_str(s);
    *t == other
}

// ---------------------------------------------------------------------------
// The keywords of the host language, as its identifier parser rejects them
// where a variable name is expected.
// ---------------------------------------------------------------------------
/// The keyword introducing foreign-linkage items, spelled out by character.
pub open spec fn linkage_keyword() -> Seq<char> {
    seq!['e', 'x', 't', 'e', 'r', 'n']
}

pub open spec fn is_reserved_word(s: Seq<char>) -> bool {
    ||| s == "_"@
    ||| s == "abstract"@
    ||| s == "as"@
    ||| s == "async"@
    ||| s == "await"@
    ||| s == "become"@
    ||| s == "box"@
    ||| s == "break"@
    ||| s == "const"@
    ||| s == "continue"@
    ||| s == "crate"@
    ||| s == "do"@
    ||| s == "dyn"@
    ||| s == "else"@
    ||| s == "enum"@
    ||| s == linkage_keyword()
    ||| s == "false"@
    ||| s == "final"@
    ||| s == "fn"@
    ||| s == "for"@
    ||| s == "if"@
    ||| s == "impl"@
    ||| s == "in"@
    ||| s == "let"@
    ||| s == "loop"@
    ||| s == "macro"@
    ||| s == "match"@
    ||| s == "mod"@
    ||| s == "move"@
    ||| s == "mut"@
    ||| s == "override"@
    ||| s == "priv"@
    ||| s == "pub"@
    ||| s == "ref"@
    ||| s == "return"@
    ||| s == "Self"@
    ||| s == "self"@
    ||| s == "static"@
    ||| s == "struct"@
    ||| s == "super"@
    ||| s == "trait"@
    ||| s == "true"@
    ||| s == "try"@
    ||| s == "type"@
    ||| s == "typeof"@
    ||| s == "unsafe"@
    ||| s == "unsized"@
    ||| s == "use"@
    ||| s == "virtual"@
    ||| s == "where"@
    ||| s == "while"@
    ||| s == "yield"@
}

/// Exec test: is the text the foreign-linkage keyword?
fn is_linkage_text(t: &String) -> (r: bool)
    ensures
        r == (t@ == linkage_keyword()),
{
    let s = t.as_str();
    if s.unicode_len() != 6 {
        proof {
            assert(t@ != linkage_keyword());
        }
        return false;
    }
    let r = s.get_char(0) == 'e' && s.get_char(1) == 'x' && s.get_char(2) == 't' && s.get_char(3)
        == 'e' && s.get_char(4) == 'r' && s.get_char(5) == 'n';
    proof {
        if r {
            assert(t@ =~= linkage_keyword());
        } else {
            assert(t@ != linkage_keyword());
        }
    }
    r
}

/// Exec mirror of `is_reserved_word`.
fn is_reserved_text(t: &String) -> (r: bool)
    ensures
        r == is_reserved_word(t@),
{
    text_is(t, "_") || text_is(t, "abstract") || text_is(t, "as") || text_is(t, "async")
        || text_is(t, "await") || text_is(t, "become") || text_is(t, "box") || text_is(t, "break")
        || text_is(t, "const") || text_is(t, "continue") || text_is(t, "crate") || text_is(t, "do")
        || text_is(t, "dyn") || text_is(t, "else") || text_is(t, "enum") || is_linkage_text(t)
        || text_is(t, "false")
        || text_is(t, "final") || text_is(t, "fn") || text_is(t, "for") || text_is(t, "if")
        || text_is(t, "impl") || text_is(t, "in") || text_is(t, "let") || text_is(t, "loop")
        || text_is(t, "macro") || text_is(t, "match") || text_is(t, "mod") || text_is(t, "move")
        || text_is(t, "mut") || text_is(t, "override") || text_is(t, "priv") || text_is(t, "pub")
        || text_is(t, "ref") || text_is(t, "return") || text_is(t, "Self") || text_is(t, "self")
        || text_is(t, "static") || text_is(t, "struct") || text_is(t, "super") || text_is(
        t,
        "trait",
    ) || text_is(t, "true") || text_is(t, "try") || text_is(t, "type") || text_is(t, "typeof")
        || text_is(t, "unsafe") || text_is(t, "unsized") || text_is(t, "use") || text_is(
        t,
        "virtual",
    ) || text_is(t, "where") || text_is(t, "while") || text_is(t, "yield")
}

// ---------------------------------------------------------------------------
// Diagnostic messages
// ---------------------------------------------------------------------------
/// Raised when the leading token of a directive is not an identifier.
pub open spec fn msg_bad_mode_initial() -> Seq<char> {
    "expected clone, clone mut, ref, ref mut, move, move mut, weak, fail, or panic (1)"@
}

/// Raised when the composed mode keyword, `mut` included, is not recognized.
pub open spec fn msg_bad_mode_composed() -> Seq<char> {
    "expected clone, clone mut, ref, ref mut, move, move mut, weak, fail, or panic (2)"@
}

pub open spec fn msg_expected_comma() -> Seq<char> {
    "expected `,`"@
}

/// Raised when tokens remain inside `fail(...)` after one full expression.
pub open spec fn msg_expected_end_of_expr() -> Seq<char> {
    "expected end of expression"@
}

pub open spec fn msg_expected_parens() -> Seq<char> {
    "expected parentheses"@
}

pub open spec fn msg_eof_expected_parens() -> Seq<char> {
    "unexpected end of input, expected parentheses"@
}

pub open spec fn msg_expected_ident() -> Seq<char> {
    "expected identifier"@
}

pub open spec fn msg_eof_expected_ident() -> Seq<char> {
    "unexpected end of input, expected identifier"@
}

/// Raised when the captured name is a keyword of the host language.
pub open spec fn msg_found_keyword(kw: Seq<char>) -> Seq<char> {
    "expected identifier, found keyword `"@ + kw + "`"@
}

fn make_diag(span: SpanId, s: &str) -> (r: Diag)
    ensures
        r@ == (SDiag { span, msg: s@ }),
{
    Diag { span, msg: String::from_str(s) }
}

// ---------------------------------------------------------------------------
// What the host expression parser says of a fallback expression
// ---------------------------------------------------------------------------
/// What the host language's expression parser does with the given source
/// text: `Err` with the parser's own message when no expression can be read,
/// `Ok(true)` when the whole text is one expression, `Ok(false)` when tokens
/// remain after one full expression.  The result depends on the text alone.
pub uninterp spec fn expr_parse_outcome(src: Seq<char>) -> Result<bool, Seq<char>>;

/// Relies on syn's `Expr` parser: reads one expression from `src`, then the
/// remaining tokens, and says whether any remained.  A text that does not
/// start with an expression is the parser's own error, message passed on
/// unchanged.  syn's result depends on the text alone.
#[verifier::external_body]
fn parse_expr_outcome(src: &str) -> (r: Result<bool, String>)
    ensures
        r is Ok <==> expr_parse_outcome(src@) is Ok,
        r matches Ok(consumed) ==> expr_parse_outcome(src@) matches Ok(sc) && sc == consumed,
        r matches Err(m) ==> expr_parse_outcome(src@) matches Err(sm) && m@ == sm,
{
    let parser = |input: syn::parse::ParseStream| -> syn::Result<bool> {
        let _expr: syn::Expr = input.parse()?;
        let rest: proc_macro2::TokenStream = input.parse()?;
        Ok(rest.is_empty())
    };
    match parser.parse_str(src) {
        Ok(consumed) => Ok(consumed),
        Err(e) => Err(e.to_string()),
    }
}

// ---------------------------------------------------------------------------
// The directive grammar
//
//   list      := directive (',' directive)*     (no trailing comma)
//   directive := mode ['mut'] ident
//              | 'fail' '(' expr ')' ident
//              | 'panic' ident
//   mode      := 'clone' | 'ref' | 'move' | 'weak'
// ---------------------------------------------------------------------------
/// The mode named by a directive keyword, with `mut` already split off;
/// `None` when the composed keyword is not one of the nine forms.
pub open spec fn mode_of(ty: Seq<char>, has_mut: bool) -> Option<Mode> {
    if has_mut {
        if ty == "clone"@ {
            Some(Mode::ClonedMut)
        } else if ty == "ref"@ {
            Some(Mode::BorrowedMut)
        } else if ty == "move"@ {
            Some(Mode::MovedMut)
        } else {
            None
        }
    } else {
        if ty == "clone"@ {
            Some(Mode::Cloned)
        } else if ty == "ref"@ {
            Some(Mode::Borrowed)
        } else if ty == "move"@ {
            Some(Mode::Moved)
        } else if ty == "weak"@ {
            Some(Mode::Weak)
        } else if ty == "fail"@ {
            Some(Mode::Fail)
        } else if ty == "panic"@ {
            Some(Mode::Panic)
        } else {
            None
        }
    }
}

/// Finishes a directive after its keyword (and, for `fail`, its parenthesized
/// fallback): the optional `mut`, the mode check, and the captured name.
/// `start` is the index of the keyword token, `j` the first unread token.
pub open spec fn spec_finish_directive(
    ts: Seq<STok>,
    start: int,
    j: int,
    ty: Seq<char>,
    fallback: Seq<STok>,
    scope: SpanId,
) -> Result<(SCapture, int), SDiag> {
    let has_mut = j < ts.len() && is_ident_tok(ts[j]) && ident_text(ts[j]) == "mut"@;
    let k = if has_mut {
        j + 1
    } else {
        j
    };
    match mode_of(ty, has_mut) {
        None => Err(SDiag { span: span_of(ts[start]), msg: msg_bad_mode_composed() }),
        Some(mode) => {
            if k >= ts.len() {
                Err(SDiag { span: scope, msg: msg_eof_expected_ident() })
            } else if !is_ident_tok(ts[k]) {
                Err(SDiag { span: span_of(ts[k]), msg: msg_expected_ident() })
            } else if is_reserved_word(ident_text(ts[k])) {
                Err(
                    SDiag {
                        span: span_of(ts[k]),
                        msg: msg_found_keyword(ident_text(ts[k])),
                    },
                )
            } else {
                Ok(
                    (
                        SCapture {
                            mode,
                            name: ident_text(ts[k]),
                            name_span: span_of(ts[k]),
                            fallback,
                        },
                        k + 1,
                    ),
                )
            }
        },
    }
}

/// Parses one directive starting at `i`; on success also yields the index of
/// the first token after it.
pub open spec fn spec_parse_one(ts: Seq<STok>, i: int, scope: SpanId) -> Result<
    (SCapture, int),
    SDiag,
>
    recommends
        0 <= i < ts.len(),
{
    let t0 = ts[i];
    if !is_ident_tok(t0) {
        Err(SDiag { span: span_of(t0), msg: msg_bad_mode_initial() })
    } else if ident_text(t0) == "fail"@ {
        if i + 1 >= ts.len() {
            Err(SDiag { span: scope, msg: msg_eof_expected_parens() })
        } else if !is_paren_group(ts[i + 1]) {
            Err(SDiag { span: span_of(ts[i + 1]), msg: msg_expected_parens() })
        } else {
            let fallback = group_toks(ts[i + 1]);
            match expr_parse_outcome(toks_str(fallback)) {
                Err(m) => Err(SDiag { span: span_of(ts[i + 1]), msg: m }),
                Ok(false) => Err(
                    SDiag { span: span_of(ts[i + 1]), msg: msg_expected_end_of_expr() },
                ),
                Ok(true) => spec_finish_directive(ts, i, i + 2, ident_text(t0), fallback, scope),
            }
        }
    } else {
        spec_finish_directive(ts, i, i + 1, ident_text(t0), Seq::<STok>::empty(), scope)
    }
}

/// Parses the directive list from `i` to the end of the tokens.
pub open spec fn spec_parse_caps(ts: Seq<STok>, i: int, scope: SpanId) -> Result<
    Seq<SCapture>,
    SDiag,
>
    recommends
        0 <= i,
    decreases ts.len() - i,
{
    if i >= ts.len() {
        Ok(Seq::<SCapture>::empty())
    } else {
        match spec_parse_one(ts, i, scope) {
            Err(d) => Err(d),
            Ok((c, j)) => {
                if j >= ts.len() {
                    Ok(seq![c])
                } else if is_comma_tok(ts[j]) {
                    if j + 1 >= ts.len() {
                        // a trailing comma leaves no directive to read
                        Err(SDiag { span: scope, msg: msg_bad_mode_initial() })
                    } else {
                        match spec_parse_caps(ts, j + 1, scope) {
                            Err(d) => Err(d),
                            Ok(rest) => Ok(seq![c] + rest),
                        }
                    }
                } else {
                    Err(SDiag { span: span_of(ts[j]), msg: msg_expected_comma() })
                }
            },
        }
    }
}

/// Exec mirror of `spec_parse_one`.
fn parse_one(ts: &Vec<Tok>, i: usize, scope: SpanId) -> (r: Result<(Capture, usize), Diag>)
    requires
        i < ts@.len(),
    ensures
        match r {
            Ok(p) => spec_parse_one(stoks(ts@), i as int, scope) == Ok::<_, SDiag>(
                (p.0@, p.1 as int),
            ) && i + 1 < p.1 <= ts@.len(),
            Err(d) => spec_parse_one(stoks(ts@), i as int, scope) == Err::<(SCapture, int), _>(d@),
        },
{
    proof {
        broadcast use lemma_stoks_len, lemma_stoks_index;

    }
    let ghost sts = stoks(ts@);
    let n = ts.len();
    let mut fallback: Vec<Tok> = Vec::new();
    let mut j: usize = i + 1;
    let is_fail = tok_is_ident(&ts[i], "fail");
    match &ts[i] {
        Tok::Ident { text: ty, span: tyspan } => {
            if is_fail {
                if i + 1 >= ts.len() {
                    return Err(make_diag(scope, "unexpected end of input, expected parentheses"));
                }
                match &ts[i + 1] {
                    Tok::Group { delim: Delim::Paren, toks, span } => {
                        proof {
                            broadcast use lemma_stoks_len, lemma_stoks_index;

                            assert(sts[i + 1] == ts@[i + 1]@);
                        }
                        let rendered = render_toks(toks);
                        match parse_expr_outcome(rendered.as_str()) {
                            Err(m) => {
                                return Err(Diag { span: *span, msg: m });
                            },
                            Ok(false) => {
                                return Err(make_diag(*span, "expected end of expression"));
                            },
                            Ok(true) => {
                                fallback = copy_toks(toks);
                                j = i + 2;
                            },
                        }
                    },
                    other => {
                        proof {
                            broadcast use lemma_stoks_len, lemma_stoks_index;

                        }
                        return Err(make_diag(tok_span(other), "expected parentheses"));
                    },
                }
            }
            // optional `mut`, then the composed mode
            let has_mut = j < ts.len() && tok_is_ident(&ts[j], "mut");
            let k = if has_mut {
                j + 1
            } else {
                j
            };
            let mode_opt: Option<Mode> = if has_mut {
                if text_is(ty, "clone") {
                    Some(Mode::ClonedMut)
                } else if text_is(ty, "ref") {
                    Some(Mode::BorrowedMut)
                } else if text_is(ty, "move") {
                    Some(Mode::MovedMut)
                } else {
                    None
                }
            } else {
                if text_is(ty, "clone") {
                    Some(Mode::Cloned)
                } else if text_is(ty, "ref") {
                    Some(Mode::Borrowed)
                } else if text_is(ty, "move") {
                    Some(Mode::Moved)
                } else if text_is(ty, "weak") {
                    Some(Mode::Weak)
                } else if text_is(ty, "fail") {
                    Some(Mode::Fail)
                } else if text_is(ty, "panic") {
                    Some(Mode::Panic)
                } else {
                    None
                }
            };
            match mode_opt {
                None => Err(make_diag(
                    *tyspan,
                    "expected clone, clone mut, ref, ref mut, move, move mut, weak, fail, or panic (2)",
                )),
                Some(mode) => {
                    if k >= ts.len() {
                        return Err(
                            make_diag(scope, "unexpected end of input, expected identifier"),
                        );
                    }
                    proof {
                        broadcast use lemma_stoks_len, lemma_stoks_index;

                        assert(sts[k as int] == ts@[k as int]@);
                    }
                    match &ts[k] {
                        Tok::Ident { text, span } => {
                            if is_reserved_text(text) {
                                let mut m = String::from_str(
                                    "expected identifier, found keyword `",
                                );
                                m.append(text.as_str());
                                m.append("`");
                                Err(Diag { span: *span, msg: m })
                            } else {
                                Ok(
                                    (
                                        Capture {
                                            mode,
                                            name: text.clone(),
                                            name_span: *span,
                                            fallback,
                                        },
                                        k + 1,
                                    ),
                                )
                            }
                        },
                        other => Err(make_diag(tok_span(other), "expected identifier")),
                    }
                },
            }
        },
        other => Err(make_diag(tok_span(other), "expected clone, clone mut, ref, ref mut, move, move mut, weak, fail, or panic (1)")),
    }
}

/// Exec mirror of `spec_parse_caps`, from position `i`.
fn parse_caps_from(ts: &Vec<Tok>, i: usize, scope: SpanId) -> (r: Result<Vec<Capture>, Diag>)
    requires
        i <= ts@.len(),
    ensures
        match r {
            Ok(v) => spec_parse_caps(stoks(ts@), i as int, scope) == Ok::<_, SDiag>(scaps(v@)),
            Err(d) => spec_parse_caps(stoks(ts@), i as int, scope) == Err::<Seq<SCapture>, _>(d@),
        },
    decreases ts@.len() - i,
{
    proof {
        broadcast use lemma_stoks_len, lemma_stoks_index;

    }
    if i >= ts.len() {
        let v: Vec<Capture> = Vec::new();
        proof {
            assert(scaps(v@) =~= Seq::<SCapture>::empty());
        }
        return Ok(v);
    }
    match parse_one(ts, i, scope) {
        Err(d) => Err(d),
        Ok((c, j)) => {
            if j >= ts.len() {
                let mut v: Vec<Capture> = Vec::new();
                v.push(c);
                proof {
                    assert(scaps(v@) =~= seq![v@[0]@]);
                }
                Ok(v)
            } else if tok_is_comma(&ts[j]) {
                if j + 1 >= ts.len() {
                    Err(make_diag(
                        scope,
                        "expected clone, clone mut, ref, ref mut, move, move mut, weak, fail, or panic (1)",
                    ))
                } else {
                    match parse_caps_from(ts, j + 1, scope) {
                        Err(d) => Err(d),
                        Ok(rest) => {
                            let ghost rest_caps = scaps(rest@);
                            let mut v = rest;
                            v.insert(0, c);
                            proof {
                                assert(scaps(v@) =~= seq![c@] + rest_caps);
                            }
                            Ok(v)
                        },
                    }
                }
            } else {
                proof {
                    assert(stoks(ts@)[j as int] == ts@[j as int]@);
                }
                Err(make_diag(tok_span(&ts[j]), "expected `,`"))
            }
        },
    }
}

/// Parses the token content of a directive-list annotation into the ordered
/// capture directives, or the first error the grammar reports.  `scope` is
/// the span reported for errors at the end of the input.
pub fn parse_captures(ts: &Vec<Tok>, scope: SpanId) -> (r: Result<Vec<Capture>, Diag>)
    ensures
        match r {
            Ok(v) => spec_parse_caps(stoks(ts@), 0, scope) == Ok::<_, SDiag>(scaps(v@)),
            Err(d) => spec_parse_caps(stoks(ts@), 0, scope) == Err::<Seq<SCapture>, _>(d@),
        },
{
    parse_caps_from(ts, 0, scope)
}

} // verus!
