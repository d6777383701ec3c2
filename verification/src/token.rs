use vstd::prelude::*;

verus! {

broadcast use vstd::std_specs::vec::group_vec_axioms, vstd::seq::group_seq_axioms;

/// Index of a source span in the span table that the caller keeps alongside
/// the token model.  The rewriter never inspects spans; it only copies them
/// onto diagnostics and onto the tokens it generates.
pub type SpanId = usize;

/// Delimiter of a token group.
#[derive(Clone, Copy, PartialEq, Eq, Debug)]
pub enum Delim {
    Paren,
    Bracket,
    Brace,
}

/// One token of the host language, as the rewriter models it: an identifier
/// or keyword, a punctuation character, a literal, or a delimited group.
/// Punctuation marked `joint` is glued to the following token (the first `:`
/// of a `::`).  Each token carries the span of its source text.
#[derive(PartialEq, Eq, Debug)]
pub enum Tok {
    Ident { text: String, span: SpanId },
    Punct { text: String, joint: bool, span: SpanId },
    Lit { text: String, span: SpanId },
    Group { delim: Delim, toks: Vec<Tok>, span: SpanId },
}

/// The mathematical value of a token: the same shape over `Seq`.
#[verifier::ext_equal]
pub ghost enum STok {
    Ident { text: Seq<char>, span: SpanId },
    Punct { text: Seq<char>, joint: bool, span: SpanId },
    Lit { text: Seq<char>, span: SpanId },
    Group { delim: Delim, toks: Seq<STok>, span: SpanId },
}

pub open spec fn tok_view(t: Tok) -> STok
    decreases t,
{
    match t {
        Tok::Ident { text, span } => STok::Ident { text: text@, span },
        Tok::Punct { text, joint, span } => STok::Punct { text: text@, joint, span },
        Tok::Lit { text, span } => STok::Lit { text: text@, span },
        Tok::Group { delim, toks, span } => STok::Group { delim, toks: stoks(toks@), span },
    }
}

/// The mathematical value of a token sequence.
pub open spec fn stoks(ts: Seq<Tok>) -> Seq<STok>
    decreases ts,
{
    if ts.len() == 0 {
        Seq::<STok>::empty()
    } else {
        seq![tok_view(ts[0])] + stoks(ts.drop_first())
    }
}

/// A token sequence and its mathematical value have the same length.
pub broadcast proof fn lemma_stoks_len(ts: Seq<Tok>)
    ensures
        #[trigger] stoks(ts).len() == ts.len(),
    decreases ts,
{
    if ts.len() != 0 {
        lemma_stoks_len(ts.drop_first());
    }
}

/// The value of a token sequence, at each position, is the value of the
/// token there.
pub broadcast proof fn lemma_stoks_index(ts: Seq<Tok>, i: int)
    requires
        0 <= i < ts.len(),
    ensures
        #[trigger] stoks(ts)[i] == tok_view(ts[i]),
    decreases ts,
{
    lemma_stoks_len(ts);
    if i > 0 {
        lemma_stoks_index(ts.drop_first(), i - 1);
    }
}

impl View for Tok {
    type V = STok;

    open spec fn view(&self) -> STok {
        tok_view(*self)
    }
}

/// Pushing a token on the right pushes its value on the right.
pub proof fn lemma_stoks_push(ts: Seq<Tok>, t: Tok)
    ensures
        stoks(ts.push(t)) == stoks(ts).push(t@),
{
    broadcast use lemma_stoks_len, lemma_stoks_index;

    assert forall|i: int| 0 <= i < ts.len() + 1 implies stoks(ts.push(t))[i] == stoks(ts).push(
        t@,
    )[i] by {
        assert(stoks(ts.push(t))[i] == tok_view(ts.push(t)[i]));
    }
    assert(stoks(ts.push(t)) =~= stoks(ts).push(t@));
}

/// The span a token carries.
pub open spec fn span_of(t: STok) -> SpanId {
    match t {
        STok::Ident { span, .. } => span,
        STok::Punct { span, .. } => span,
        STok::Lit { span, .. } => span,
        STok::Group { span, .. } => span,
    }
}

/// Exec mirror of `span_of`.
pub fn tok_span(t: &Tok) -> (r: SpanId)
    ensures
        r == span_of(t@),
{
    match t {
        Tok::Ident { span, .. } => *span,
        Tok::Punct { span, .. } => *span,
        Tok::Lit { span, .. } => *span,
        Tok::Group { span, .. } => *span,
    }
}

pub open spec fn open_str(d: Delim) -> Seq<char> {
    match d {
        Delim::Paren => "("@,
        Delim::Bracket => "["@,
        Delim::Brace => "{"@,
    }
}

pub open spec fn close_str(d: Delim) -> Seq<char> {
    match d {
        Delim::Paren => ")"@,
        Delim::Bracket => "]"@,
        Delim::Brace => "}"@,
    }
}

/// Source text of one token, as the renderer writes it: a space after every
/// token except a joint punctuation, which stays glued to what follows.
/// Re-lexing the rendered text yields the same token sequence.
pub open spec fn tok_str(t: STok) -> Seq<char>
    decreases t,
{
    match t {
        STok::Ident { text, .. } => text + " "@,
        STok::Punct { text, joint, .. } => if joint {
            text
        } else {
            text + " "@
        },
        STok::Lit { text, .. } => text + " "@,
        STok::Group { delim, toks, .. } => open_str(delim) + toks_str(toks) + close_str(delim)
            + " "@,
    }
}

/// Source text of a token sequence.
pub open spec fn toks_str(ts: Seq<STok>) -> Seq<char>
    decreases ts,
{
    if ts.len() == 0 {
        Seq::<char>::empty()
    } else {
        tok_str(ts[0]) + toks_str(ts.drop_first())
    }
}

/// Appending one token on the right appends its text on the right.
pub proof fn lemma_toks_str_push(ts: Seq<STok>, t: STok)
    ensures
        toks_str(ts.push(t)) == toks_str(ts) + tok_str(t),
    decreases ts.len(),
{
    if ts.len() == 0 {
        assert(ts.push(t)[0] == t);
        assert(ts.push(t).drop_first() =~= Seq::<STok>::empty());
        assert(toks_str(ts.push(t)) == tok_str(t) + toks_str(Seq::<STok>::empty()));
        assert(tok_str(t) + Seq::<char>::empty() =~= tok_str(t));
        assert(toks_str(ts) + tok_str(t) =~= tok_str(t));
    } else {
        assert(ts.push(t)[0] == ts[0]);
        assert(ts.push(t).drop_first() =~= ts.drop_first().push(t));
        lemma_toks_str_push(ts.drop_first(), t);
        assert(toks_str(ts.push(t)) == tok_str(ts[0]) + (toks_str(ts.drop_first()) + tok_str(t)));
        assert(tok_str(ts[0]) + (toks_str(ts.drop_first()) + tok_str(t)) =~= (tok_str(ts[0])
            + toks_str(ts.drop_first())) + tok_str(t));
        assert(toks_str(ts) == tok_str(ts[0]) + toks_str(ts.drop_first()));
    }
}

/// Renders one token at the end of `out`.
fn render_tok(t: &Tok, out: &mut String)
    ensures
        final(out)@ == old(out)@ + tok_str(t@),
    decreases *t,
{
    match t {
        Tok::Ident { text, .. } => {
            out.append(text.as_str());
            out.append(" ");
            proof {
                assert(out@ =~= old(out)@ + tok_str(t@));
            }
        },
        Tok::Punct { text, joint, .. } => {
            out.append(text.as_str());
            if !*joint {
                out.append(" ");
            }
            proof {
                assert(out@ =~= old(out)@ + tok_str(t@));
            }
        },
        Tok::Lit { text, .. } => {
            out.append(text.as_str());
            out.append(" ");
            proof {
                assert(out@ =~= old(out)@ + tok_str(t@));
            }
        },
        Tok::Group { delim, toks, .. } => {
            match delim {
                Delim::Paren => out.append("("),
                Delim::Bracket => out.append("["),
                Delim::Brace => out.append("{"),
            }
            render_toks_onto(toks, out);
            match delim {
                Delim::Paren => out.append(")"),
                Delim::Bracket => out.append("]"),
                Delim::Brace => out.append("}"),
            }
            out.append(" ");
            proof {
                assert(out@ =~= old(out)@ + tok_str(t@));
            }
        },
    }
}

/// Renders a token sequence at the end of `out`.
fn render_toks_onto(ts: &Vec<Tok>, out: &mut String)
    ensures
        final(out)@ == old(out)@ + toks_str(stoks(ts@)),
    decreases *ts,
{
    let ghost sts = stoks(ts@);
    let mut i: usize = 0;
    while i < ts.len()
        invariant
            i <= ts.len(),
            sts == stoks(ts@),
            out@ == old(out)@ + toks_str(sts.take(i as int)),
        decreases ts.len() - i,
    {
        proof {
            broadcast use lemma_stoks_len, lemma_stoks_index;

            lemma_toks_str_push(sts.take(i as int), sts[i as int]);
            assert(sts.take(i as int).push(sts[i as int]) =~= sts.take(i + 1));
            assert(sts[i as int] == ts[i as int]@);
        }
        render_tok(&ts[i], out);
        i = i + 1;
    }
    proof {
        broadcast use lemma_stoks_len;

        assert(sts.take(ts.len() as int) =~= sts);
    }
}

/// Renders a token sequence to source text.
pub fn render_toks(ts: &Vec<Tok>) -> (r: String)
    ensures
        r@ == toks_str(stoks(ts@)),
{
    let mut out = String::new();
    render_toks_onto(ts, &mut out);
    out
}

/// Copies a token; the copy has the same mathematical value.
pub fn copy_tok(t: &Tok) -> (r: Tok)
    ensures
        r@ == t@,
    decreases *t,
{
    match t {
        Tok::Ident { text, span } => Tok::Ident { text: text.clone(), span: *span },
        Tok::Punct { text, joint, span } => Tok::Punct {
            text: text.clone(),
            joint: *joint,
            span: *span,
        },
        Tok::Lit { text, span } => Tok::Lit { text: text.clone(), span: *span },
        Tok::Group { delim, toks, span } => {
            let copies = copy_toks(toks);
            Tok::Group { delim: *delim, toks: copies, span: *span }
        },
    }
}

/// Copies a token sequence, keeping its mathematical value.
pub fn copy_toks(ts: &Vec<Tok>) -> (r: Vec<Tok>)
    ensures
        stoks(r@) == stoks(ts@),
    decreases *ts,
{
    let mut r: Vec<Tok> = Vec::new();
    let mut i: usize = 0;
    while i < ts.len()
        invariant
            i <= ts.len(),
            stoks(r@) == stoks(ts@).take(i as int),
        decreases ts.len() - i,
    {
        let c = copy_tok(&ts[i]);
        r.push(c);
        proof {
            broadcast use lemma_stoks_len, lemma_stoks_index;

            lemma_stoks_push(r@.drop_last(), r@.last());
            assert(r@.drop_last().push(r@.last()) =~= r@);
            assert(stoks(ts@).take(i as int).push(stoks(ts@)[i as int]) =~= stoks(ts@).take(
                i + 1,
            ));
        }
        i = i + 1;
    }
    proof {
        broadcast use lemma_stoks_len;

        assert(stoks(ts@).take(ts.len() as int) =~= stoks(ts@));
    }
    r
}

} // verus!
