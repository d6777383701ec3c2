use vstd::prelude::*;

use crate::directive::{scaps, Capture, Mode, SCapture};
use crate::token::{
    lemma_stoks_index, lemma_stoks_len, stoks, Delim, SpanId, STok, Tok,
};
use crate::{Diag, SDiag};

verus! {

broadcast use vstd::std_specs::vec::group_vec_axioms, vstd::seq::group_seq_axioms;

// ---------------------------------------------------------------------------
// Token constructors
// ---------------------------------------------------------------------------
pub open spec fn sid(text: Seq<char>, sp: SpanId) -> STok {
    STok::Ident { text, span: sp }
}

pub open spec fn spunct(text: Seq<char>, sp: SpanId) -> STok {
    STok::Punct { text, joint: false, span: sp }
}

pub open spec fn sjoint(text: Seq<char>, sp: SpanId) -> STok {
    STok::Punct { text, joint: true, span: sp }
}

pub open spec fn slit(text: Seq<char>, sp: SpanId) -> STok {
    STok::Lit { text, span: sp }
}

pub open spec fn sgroup(delim: Delim, toks: Seq<STok>, sp: SpanId) -> STok {
    STok::Group { delim, toks, span: sp }
}

/// The tokens of a leading-colon path of two segments: `:: a :: b`.
pub open spec fn spath2(a: Seq<char>, b: Seq<char>, sp: SpanId) -> Seq<STok> {
    seq![
        sjoint(":"@, sp),
        spunct(":"@, sp),
        sid(a, sp),
        sjoint(":"@, sp),
        spunct(":"@, sp),
        sid(b, sp),
    ]
}

/// The tokens of a leading-colon path of three segments: `:: a :: b :: c`.
pub open spec fn spath3(a: Seq<char>, b: Seq<char>, c: Seq<char>, sp: SpanId) -> Seq<STok> {
    spath2(a, b, sp) + seq![sjoint(":"@, sp), spunct(":"@, sp), sid(c, sp)]
}

fn mk_ident(s: &str, sp: SpanId) -> (r: Tok)
    ensures
        r@ == sid(s@, sp),
{
    Tok::Ident { text: String::from_str(s), span: sp }
}

fn mk_name(name: &String, sp: SpanId) -> (r: Tok)
    ensures
        r@ == sid(name@, sp),
{
    Tok::Ident { text: name.clone(), span: sp }
}

fn mk_punct(s: &str, sp: SpanId) -> (r: Tok)
    ensures
        r@ == spunct(s@, sp),
{
    Tok::Punct { text: String::from_str(s), joint: false, span: sp }
}

fn mk_joint(s: &str, sp: SpanId) -> (r: Tok)
    ensures
        r@ == sjoint(s@, sp),
{
    Tok::Punct { text: String::from_str(s), joint: true, span: sp }
}

fn mk_group(delim: Delim, toks: Vec<Tok>, sp: SpanId) -> (r: Tok)
    ensures
        r@ == sgroup(delim, stoks(toks@), sp),
{
    Tok::Group { delim, toks, span: sp }
}

// ---------------------------------------------------------------------------
// The generated fragments
// ---------------------------------------------------------------------------
/// The prelude binding one directive contributes, evaluated in the enclosing
/// scope ahead of the closure.  The bound name shadows the outer variable;
/// weak-style directives bind the downgraded handle, eagerly and once.
pub open spec fn prelude_of(c: SCapture, cspan: SpanId) -> Seq<STok> {
    let x = sid(c.name, c.name_span);
    match c.mode {
        Mode::Cloned => seq![
            sid("let"@, cspan),
            x,
            spunct("="@, cspan),
            x,
            spunct("."@, cspan),
            sid("clone"@, cspan),
            sgroup(Delim::Paren, Seq::<STok>::empty(), cspan),
            spunct(";"@, cspan),
        ],
        Mode::ClonedMut => seq![
            sid("let"@, cspan),
            sid("mut"@, cspan),
            x,
            spunct("="@, cspan),
            x,
            spunct("."@, cspan),
            sid("clone"@, cspan),
            sgroup(Delim::Paren, Seq::<STok>::empty(), cspan),
            spunct(";"@, cspan),
        ],
        Mode::Borrowed => seq![
            sid("let"@, cspan),
            x,
            spunct("="@, cspan),
            spunct("&"@, cspan),
            x,
            spunct(";"@, cspan),
        ],
        Mode::BorrowedMut => seq![
            sid("let"@, cspan),
            x,
            spunct("="@, cspan),
            spunct("&"@, cspan),
            sid("mut"@, cspan),
            x,
            spunct(";"@, cspan),
        ],
        Mode::Moved => seq![sid("let"@, cspan), x, spunct("="@, cspan), x, spunct(";"@, cspan)],
        Mode::MovedMut => seq![
            sid("let"@, cspan),
            sid("mut"@, cspan),
            x,
            spunct("="@, cspan),
            x,
            spunct(";"@, cspan),
        ],
        _ => seq![sid("let"@, cspan), x, spunct("="@, cspan)] + spath3(
            "closure_attr"@,
            "Downgrade"@,
            "downgrade"@,
            cspan,
        ) + seq![
            sgroup(Delim::Paren, seq![spunct("&"@, cspan), x], cspan),
            spunct(";"@, cspan),
        ],
    }
}

/// The preludes of a directive list, in declared order.
pub open spec fn preludes_of(cs: Seq<SCapture>, cspan: SpanId) -> Seq<STok> {
    cs.flat_map(|c: SCapture| prelude_of(c, cspan))
}

/// The forced-whole-value-use statement one directive contributes: `let _ =
/// &x;`, inert at runtime, which makes the closure capture the entire bound
/// value rather than the sub-paths its body touches.  Weak-style directives
/// contribute nothing: their handle is used whole by the upgrade prologue.
pub open spec fn use_whole_of(c: SCapture, cspan: SpanId) -> Seq<STok> {
    match c.mode {
        Mode::Weak | Mode::Fail | Mode::Panic => Seq::<STok>::empty(),
        _ => seq![
            sid("let"@, cspan),
            sid("_"@, cspan),
            spunct("="@, cspan),
            spunct("&"@, cspan),
            sid(c.name, c.name_span),
            spunct(";"@, cspan),
        ],
    }
}

/// The forced-use statements of a directive list, in declared order.
pub open spec fn use_wholes_of(cs: Seq<SCapture>, cspan: SpanId) -> Seq<STok> {
    cs.flat_map(|c: SCapture| use_whole_of(c, cspan))
}

/// The head shared by both upgrade forms:
/// `let Some(x) = ::closure_attr::Upgrade::upgrade(&x) else`.
pub open spec fn upgrade_head_of(c: SCapture, cspan: SpanId) -> Seq<STok> {
    let x = sid(c.name, c.name_span);
    seq![
        sid("let"@, cspan),
        sid("Some"@, cspan),
        sgroup(Delim::Paren, seq![x], cspan),
        spunct("="@, cspan),
    ] + spath3("closure_attr"@, "Upgrade"@, "upgrade"@, cspan) + seq![
        sgroup(Delim::Paren, seq![spunct("&"@, cspan), x], cspan),
        sid("else"@, cspan),
    ]
}

/// The upgrade-prologue statement one directive contributes, run at the top
/// of every call of the closure: rebind the name to the recovered strong
/// value, or else leave the call by the directive's failure policy — a
/// type-appropriate default result for `weak`, the fallback expression for
/// `fail`, an abort with a fixed message for `panic`.
pub open spec fn upgrade_of(c: SCapture, cspan: SpanId) -> Seq<STok> {
    match c.mode {
        Mode::Fail => upgrade_head_of(c, cspan) + seq![
            sgroup(
                Delim::Brace,
                seq![sid("return"@, cspan)] + c.fallback + seq![spunct(";"@, cspan)],
                cspan,
            ),
            spunct(";"@, cspan),
        ],
        Mode::Panic => upgrade_head_of(c, cspan) + seq![
            sgroup(
                Delim::Brace,
                spath2("std"@, "panic"@, cspan) + seq![
                    spunct("!"@, cspan),
                    sgroup(
                        Delim::Paren,
                        seq![slit("\"Closure failed to upgrade weak pointer\""@, cspan)],
                        cspan,
                    ),
                    spunct(";"@, cspan),
                ],
                cspan,
            ),
            spunct(";"@, cspan),
        ],
        Mode::Weak => upgrade_head_of(c, cspan) + seq![
            sgroup(
                Delim::Brace,
                seq![sid("return"@, cspan)] + spath2("core"@, "default"@, cspan) + seq![
                    sjoint(":"@, cspan),
                    spunct(":"@, cspan),
                    sid("Default"@, cspan),
                    sjoint(":"@, cspan),
                    spunct(":"@, cspan),
                    sid("default"@, cspan),
                    sgroup(Delim::Paren, Seq::<STok>::empty(), cspan),
                    spunct(";"@, cspan),
                ],
                cspan,
            ),
            spunct(";"@, cspan),
        ],
        _ => Seq::<STok>::empty(),
    }
}

/// The upgrade prologue of a directive list, in declared order: the first
/// failing upgrade leaves the call before any later one is tried.
pub open spec fn upgrades_of(cs: Seq<SCapture>, cspan: SpanId) -> Seq<STok> {
    cs.flat_map(|c: SCapture| upgrade_of(c, cspan))
}

/// The complete inert fragment holding every forced use: an annotated
/// one-iteration loop left at once, so the uses type-check and count as
/// uses without ever running.
pub open spec fn use_block_of(cs: Seq<SCapture>, cspan: SpanId) -> Seq<STok> {
    seq![
        spunct("#"@, cspan),
        sgroup(
            Delim::Bracket,
            seq![
                sid("allow"@, cspan),
                sgroup(
                    Delim::Paren,
                    seq![
                        sid("unreachable_code"@, cspan),
                        spunct(","@, cspan),
                        sid("clippy"@, cspan),
                        sjoint(":"@, cspan),
                        spunct(":"@, cspan),
                        sid("never_loop"@, cspan),
                    ],
                    cspan,
                ),
            ],
            cspan,
        ),
        sid("loop"@, cspan),
        sgroup(
            Delim::Brace,
            seq![sid("break"@, cspan), spunct(";"@, cspan)] + use_wholes_of(cs, cspan),
            cspan,
        ),
    ]
}

// ---------------------------------------------------------------------------
// Exec generators
// ---------------------------------------------------------------------------
/// Pushes the prelude binding of one directive.
fn push_prelude_one(out: &mut Vec<Tok>, c: &Capture, cspan: SpanId)
    ensures
        stoks(final(out)@) == stoks(old(out)@) + prelude_of(c@, cspan),
{
    let ghost base = stoks(out@);
    match c.mode {
        Mode::Cloned => {
            out.push(mk_ident("let", cspan));
            out.push(mk_name(&c.name, c.name_span));
            out.push(mk_punct("=", cspan));
            out.push(mk_name(&c.name, c.name_span));
            out.push(mk_punct(".", cspan));
            out.push(mk_ident("clone", cspan));
            out.push(mk_group(Delim::Paren, Vec::new(), cspan));
            out.push(mk_punct(";", cspan));
            proof {
                broadcast use lemma_stoks_len, lemma_stoks_index;

                assert(stoks(out@) =~~= base + prelude_of(c@, cspan));
            }
        },
        Mode::ClonedMut => {
            out.push(mk_ident("let", cspan));
            out.push(mk_ident("mut", cspan));
            out.push(mk_name(&c.name, c.name_span));
            out.push(mk_punct("=", cspan));
            out.push(mk_name(&c.name, c.name_span));
            out.push(mk_punct(".", cspan));
            out.push(mk_ident("clone", cspan));
            out.push(mk_group(Delim::Paren, Vec::new(), cspan));
            out.push(mk_punct(";", cspan));
            proof {
                broadcast use lemma_stoks_len, lemma_stoks_index;

                assert(stoks(out@) =~~= base + prelude_of(c@, cspan));
            }
        },
        Mode::Borrowed => {
            out.push(mk_ident("let", cspan));
            out.push(mk_name(&c.name, c.name_span));
            out.push(mk_punct("=", cspan));
            out.push(mk_punct("&", cspan));
            out.push(mk_name(&c.name, c.name_span));
            out.push(mk_punct(";", cspan));
            proof {
                broadcast use lemma_stoks_len, lemma_stoks_index;

                assert(stoks(out@) =~~= base + prelude_of(c@, cspan));
            }
        },
        Mode::BorrowedMut => {
            out.push(mk_ident("let", cspan));
            out.push(mk_name(&c.name, c.name_span));
            out.push(mk_punct("=", cspan));
            out.push(mk_punct("&", cspan));
            out.push(mk_ident("mut", cspan));
            out.push(mk_name(&c.name, c.name_span));
            out.push(mk_punct(";", cspan));
            proof {
                broadcast use lemma_stoks_len, lemma_stoks_index;

                assert(stoks(out@) =~~= base + prelude_of(c@, cspan));
            }
        },
        Mode::Moved => {
            out.push(mk_ident("let", cspan));
            out.push(mk_name(&c.name, c.name_span));
            out.push(mk_punct("=", cspan));
            out.push(mk_name(&c.name, c.name_span));
            out.push(mk_punct(";", cspan));
            proof {
                broadcast use lemma_stoks_len, lemma_stoks_index;

                assert(stoks(out@) =~~= base + prelude_of(c@, cspan));
            }
        },
        Mode::MovedMut => {
            out.push(mk_ident("let", cspan));
            out.push(mk_ident("mut", cspan));
            out.push(mk_name(&c.name, c.name_span));
            out.push(mk_punct("=", cspan));
            out.push(mk_name(&c.name, c.name_span));
            out.push(mk_punct(";", cspan));
            proof {
                broadcast use lemma_stoks_len, lemma_stoks_index;

                assert(stoks(out@) =~~= base + prelude_of(c@, cspan));
            }
        },
        Mode::Weak | Mode::Fail | Mode::Panic => {
            out.push(mk_ident("let", cspan));
            out.push(mk_name(&c.name, c.name_span));
            out.push(mk_punct("=", cspan));
            out.push(mk_joint(":", cspan));
            out.push(mk_punct(":", cspan));
            out.push(mk_ident("closure_attr", cspan));
            out.push(mk_joint(":", cspan));
            out.push(mk_punct(":", cspan));
            out.push(mk_ident("Downgrade", cspan));
            out.push(mk_joint(":", cspan));
            out.push(mk_punct(":", cspan));
            out.push(mk_ident("downgrade", cspan));
            let mut arg: Vec<Tok> = Vec::new();
            arg.push(mk_punct("&", cspan));
            arg.push(mk_name(&c.name, c.name_span));
            proof {
                broadcast use lemma_stoks_len, lemma_stoks_index;

                assert(stoks(arg@) =~= seq![
                    spunct("&"@, cspan),
                    sid(c.name@, c.name_span),
                ]);
            }
            out.push(mk_group(Delim::Paren, arg, cspan));
            out.push(mk_punct(";", cspan));
            proof {
                broadcast use lemma_stoks_len, lemma_stoks_index;

                assert(stoks(out@) =~~= base + prelude_of(c@, cspan));
            }
        },
    }
}

/// Pushes the forced-use statement of one directive, if it has one.
fn push_use_whole_one(out: &mut Vec<Tok>, c: &Capture, cspan: SpanId)
    ensures
        stoks(final(out)@) == stoks(old(out)@) + use_whole_of(c@, cspan),
{
    let ghost base = stoks(out@);
    match c.mode {
        Mode::Weak | Mode::Fail | Mode::Panic => {
            proof {
                assert(stoks(out@) =~= base + use_whole_of(c@, cspan));
            }
        },
        _ => {
            out.push(mk_ident("let", cspan));
            out.push(mk_ident("_", cspan));
            out.push(mk_punct("=", cspan));
            out.push(mk_punct("&", cspan));
            out.push(mk_name(&c.name, c.name_span));
            out.push(mk_punct(";", cspan));
            proof {
                broadcast use lemma_stoks_len, lemma_stoks_index;

                assert(stoks(out@) =~~= base + use_whole_of(c@, cspan));
            }
        },
    }
}

/// Pushes `let Some(x) = ::closure_attr::Upgrade::upgrade(&x) else`.
fn push_upgrade_head(out: &mut Vec<Tok>, c: &Capture, cspan: SpanId)
    ensures
        stoks(final(out)@) == stoks(old(out)@) + upgrade_head_of(c@, cspan),
{
    let ghost base = stoks(out@);
    out.push(mk_ident("let", cspan));
    out.push(mk_ident("Some", cspan));
    let mut pat: Vec<Tok> = Vec::new();
    pat.push(mk_name(&c.name, c.name_span));
    proof {
        broadcast use lemma_stoks_len, lemma_stoks_index;

        assert(stoks(pat@) =~= seq![sid(c.name@, c.name_span)]);
    }
    out.push(mk_group(Delim::Paren, pat, cspan));
    out.push(mk_punct("=", cspan));
    out.push(mk_joint(":", cspan));
    out.push(mk_punct(":", cspan));
    out.push(mk_ident("closure_attr", cspan));
    out.push(mk_joint(":", cspan));
    out.push(mk_punct(":", cspan));
    out.push(mk_ident("Upgrade", cspan));
    out.push(mk_joint(":", cspan));
    out.push(mk_punct(":", cspan));
    out.push(mk_ident("upgrade", cspan));
    let mut arg: Vec<Tok> = Vec::new();
    arg.push(mk_punct("&", cspan));
    arg.push(mk_name(&c.name, c.name_span));
    proof {
        broadcast use lemma_stoks_len, lemma_stoks_index;

        assert(stoks(arg@) =~= seq![spunct("&"@, cspan), sid(c.name@, c.name_span)]);
    }
    out.push(mk_group(Delim::Paren, arg, cspan));
    out.push(mk_ident("else", cspan));
    proof {
        broadcast use lemma_stoks_len, lemma_stoks_index;

        assert(stoks(out@) =~~= base + upgrade_head_of(c@, cspan));
    }
}

/// Pushes the upgrade-prologue statement of one directive, if it has one.
fn push_upgrade_one(out: &mut Vec<Tok>, c: &Capture, cspan: SpanId)
    ensures
        stoks(final(out)@) == stoks(old(out)@) + upgrade_of(c@, cspan),
{
    let ghost base = stoks(out@);
    match c.mode {
        Mode::Fail => {
            push_upgrade_head(out, c, cspan);
            let mut body: Vec<Tok> = Vec::new();
            body.push(mk_ident("return", cspan));
            let mut fb = crate::token::copy_toks(&c.fallback);
            body.append(&mut fb);
            body.push(mk_punct(";", cspan));
            proof {
                broadcast use lemma_stoks_len, lemma_stoks_index;

                assert(stoks(body@) =~~= seq![sid("return"@, cspan)] + c@.fallback + seq![
                    spunct(";"@, cspan),
                ]);
            }
            let g = mk_group(Delim::Brace, body, cspan);
            let ghost gv = g@;
            let ghost mid = out@;
            out.push(g);
            let semi = mk_punct(";", cspan);
            let ghost sv = semi@;
            let ghost mid2 = out@;
            out.push(semi);
            proof {
                broadcast use lemma_stoks_len, lemma_stoks_index;

                assert(stoks(mid2) == stoks(mid).push(gv)) by {
                    assert(stoks(mid2) =~= stoks(mid).push(gv));
                }
                assert(stoks(out@) == stoks(mid2).push(sv)) by {
                    assert(stoks(out@) =~= stoks(mid2).push(sv));
                }
                assert(stoks(out@) =~~= base + upgrade_of(c@, cspan));
            }
        },
        Mode::Panic => {
            push_upgrade_head(out, c, cspan);
            let mut body: Vec<Tok> = Vec::new();
            body.push(mk_joint(":", cspan));
            body.push(mk_punct(":", cspan));
            body.push(mk_ident("std", cspan));
            body.push(mk_joint(":", cspan));
            body.push(mk_punct(":", cspan));
            body.push(mk_ident("panic", cspan));
            body.push(mk_punct("!", cspan));
            let mut msg: Vec<Tok> = Vec::new();
            msg.push(
                Tok::Lit {
                    text: String::from_str("\"Closure failed to upgrade weak pointer\""),
                    span: cspan,
                },
            );
            proof {
                broadcast use lemma_stoks_len, lemma_stoks_index;

                assert(stoks(msg@) =~= seq![
                    slit("\"Closure failed to upgrade weak pointer\""@, cspan),
                ]);
            }
            body.push(mk_group(Delim::Paren, msg, cspan));
            body.push(mk_punct(";", cspan));
            proof {
                broadcast use lemma_stoks_len, lemma_stoks_index;

                assert(stoks(body@) =~~= spath2("std"@, "panic"@, cspan) + seq![
                    spunct("!"@, cspan),
                    sgroup(
                        Delim::Paren,
                        seq![slit("\"Closure failed to upgrade weak pointer\""@, cspan)],
                        cspan,
                    ),
                    spunct(";"@, cspan),
                ]);
            }
            let g = mk_group(Delim::Brace, body, cspan);
            let ghost gv = g@;
            let ghost mid = out@;
            out.push(g);
            let semi = mk_punct(";", cspan);
            let ghost sv = semi@;
            let ghost mid2 = out@;
            out.push(semi);
            proof {
                broadcast use lemma_stoks_len, lemma_stoks_index;

                assert(stoks(mid2) == stoks(mid).push(gv)) by {
                    assert(stoks(mid2) =~= stoks(mid).push(gv));
                }
                assert(stoks(out@) == stoks(mid2).push(sv)) by {
                    assert(stoks(out@) =~= stoks(mid2).push(sv));
                }
                assert(stoks(out@) =~~= base + upgrade_of(c@, cspan));
            }
        },
        Mode::Weak => {
            push_upgrade_head(out, c, cspan);
            let mut body: Vec<Tok> = Vec::new();
            body.push(mk_ident("return", cspan));
            body.push(mk_joint(":", cspan));
            body.push(mk_punct(":", cspan));
            body.push(mk_ident("core", cspan));
            body.push(mk_joint(":", cspan));
            body.push(mk_punct(":", cspan));
            body.push(mk_ident("default", cspan));
            body.push(mk_joint(":", cspan));
            body.push(mk_punct(":", cspan));
            body.push(mk_ident("Default", cspan));
            body.push(mk_joint(":", cspan));
            body.push(mk_punct(":", cspan));
            body.push(mk_ident("default", cspan));
            body.push(mk_group(Delim::Paren, Vec::new(), cspan));
            body.push(mk_punct(";", cspan));
            proof {
                broadcast use lemma_stoks_len, lemma_stoks_index;

                assert(stoks(body@) =~~= seq![sid("return"@, cspan)] + spath2(
                    "core"@,
                    "default"@,
                    cspan,
                ) + seq![
                    sjoint(":"@, cspan),
                    spunct(":"@, cspan),
                    sid("Default"@, cspan),
                    sjoint(":"@, cspan),
                    spunct(":"@, cspan),
                    sid("default"@, cspan),
                    sgroup(Delim::Paren, Seq::<STok>::empty(), cspan),
                    spunct(";"@, cspan),
                ]);
            }
            let g = mk_group(Delim::Brace, body, cspan);
            let ghost gv = g@;
            let ghost mid = out@;
            out.push(g);
            let semi = mk_punct(";", cspan);
            let ghost sv = semi@;
            let ghost mid2 = out@;
            out.push(semi);
            proof {
                broadcast use lemma_stoks_len, lemma_stoks_index;

                assert(stoks(mid2) == stoks(mid).push(gv)) by {
                    assert(stoks(mid2) =~= stoks(mid).push(gv));
                }
                assert(stoks(out@) == stoks(mid2).push(sv)) by {
                    assert(stoks(out@) =~= stoks(mid2).push(sv));
                }
                assert(stoks(out@) =~~= base + upgrade_of(c@, cspan));
            }
        },
        _ => {
            proof {
                assert(stoks(out@) =~= base + upgrade_of(c@, cspan));
            }
        },
    }
}

/// The prelude bindings of a directive list, in declared order.
pub fn gen_preludes(cs: &Vec<Capture>, cspan: SpanId) -> (r: Vec<Tok>)
    ensures
        stoks(r@) == preludes_of(scaps(cs@), cspan),
{
    let mut out: Vec<Tok> = Vec::new();
    let mut i: usize = 0;
    proof {
        assert(scaps(cs@).take(0) =~= Seq::<SCapture>::empty());
        assert(preludes_of(scaps(cs@).take(0), cspan) =~= Seq::<STok>::empty());
        assert(stoks(out@) =~= Seq::<STok>::empty());
    }
    while i < cs.len()
        invariant
            i <= cs@.len(),
            stoks(out@) == preludes_of(scaps(cs@).take(i as int), cspan),
        decreases cs@.len() - i,
    {
        push_prelude_one(&mut out, &cs[i], cspan);
        proof {
            scaps(cs@).lemma_flat_map_take_append(|c: SCapture| prelude_of(c, cspan), i as int);
            assert(scaps(cs@)[i as int] == cs@[i as int]@);
        }
        i = i + 1;
    }
    proof {
        assert(scaps(cs@).take(cs@.len() as int) =~= scaps(cs@));
    }
    out
}

/// The forced-use statements of a directive list, in declared order.
pub fn gen_use_wholes(cs: &Vec<Capture>, cspan: SpanId) -> (r: Vec<Tok>)
    ensures
        stoks(r@) == use_wholes_of(scaps(cs@), cspan),
{
    let mut out: Vec<Tok> = Vec::new();
    let mut i: usize = 0;
    proof {
        assert(scaps(cs@).take(0) =~= Seq::<SCapture>::empty());
        assert(use_wholes_of(scaps(cs@).take(0), cspan) =~= Seq::<STok>::empty());
        assert(stoks(out@) =~= Seq::<STok>::empty());
    }
    while i < cs.len()
        invariant
            i <= cs@.len(),
            stoks(out@) == use_wholes_of(scaps(cs@).take(i as int), cspan),
        decreases cs@.len() - i,
    {
        push_use_whole_one(&mut out, &cs[i], cspan);
        proof {
            scaps(cs@).lemma_flat_map_take_append(|c: SCapture| use_whole_of(c, cspan), i as int);
            assert(scaps(cs@)[i as int] == cs@[i as int]@);
        }
        i = i + 1;
    }
    proof {
        assert(scaps(cs@).take(cs@.len() as int) =~= scaps(cs@));
    }
    out
}

/// The upgrade prologue of a directive list, in declared order.
pub fn gen_upgrades(cs: &Vec<Capture>, cspan: SpanId) -> (r: Vec<Tok>)
    ensures
        stoks(r@) == upgrades_of(scaps(cs@), cspan),
{
    let mut out: Vec<Tok> = Vec::new();
    let mut i: usize = 0;
    proof {
        assert(scaps(cs@).take(0) =~= Seq::<SCapture>::empty());
        assert(upgrades_of(scaps(cs@).take(0), cspan) =~= Seq::<STok>::empty());
        assert(stoks(out@) =~= Seq::<STok>::empty());
    }
    while i < cs.len()
        invariant
            i <= cs@.len(),
            stoks(out@) == upgrades_of(scaps(cs@).take(i as int), cspan),
        decreases cs@.len() - i,
    {
        push_upgrade_one(&mut out, &cs[i], cspan);
        proof {
            scaps(cs@).lemma_flat_map_take_append(|c: SCapture| upgrade_of(c, cspan), i as int);
            assert(scaps(cs@)[i as int] == cs@[i as int]@);
        }
        i = i + 1;
    }
    proof {
        assert(scaps(cs@).take(cs@.len() as int) =~= scaps(cs@));
    }
    out
}

/// The complete inert forced-use fragment of a directive list.
pub fn gen_use_block(cs: &Vec<Capture>, cspan: SpanId) -> (r: Vec<Tok>)
    ensures
        stoks(r@) == use_block_of(scaps(cs@), cspan),
{
    let mut out: Vec<Tok> = Vec::new();
    out.push(mk_punct("#", cspan));
    let mut inner: Vec<Tok> = Vec::new();
    inner.push(mk_ident("unreachable_code", cspan));
    inner.push(mk_punct(",", cspan));
    inner.push(mk_ident("clippy", cspan));
    inner.push(mk_joint(":", cspan));
    inner.push(mk_punct(":", cspan));
    inner.push(mk_ident("never_loop", cspan));
    proof {
        broadcast use lemma_stoks_len, lemma_stoks_index;

        assert(stoks(inner@) =~= seq![
            sid("unreachable_code"@, cspan),
            spunct(","@, cspan),
            sid("clippy"@, cspan),
            sjoint(":"@, cspan),
            spunct(":"@, cspan),
            sid("never_loop"@, cspan),
        ]);
    }
    let mut attr: Vec<Tok> = Vec::new();
    attr.push(mk_ident("allow", cspan));
    attr.push(mk_group(Delim::Paren, inner, cspan));
    proof {
        broadcast use lemma_stoks_len, lemma_stoks_index;

        assert(stoks(attr@) =~~= seq![
            sid("allow"@, cspan),
            sgroup(
                Delim::Paren,
                seq![
                    sid("unreachable_code"@, cspan),
                    spunct(","@, cspan),
                    sid("clippy"@, cspan),
                    sjoint(":"@, cspan),
                    spunct(":"@, cspan),
                    sid("never_loop"@, cspan),
                ],
                cspan,
            ),
        ]);
    }
    out.push(mk_group(Delim::Bracket, attr, cspan));
    out.push(mk_ident("loop", cspan));
    let mut body: Vec<Tok> = Vec::new();
    body.push(mk_ident("break", cspan));
    body.push(mk_punct(";", cspan));
    let mut uses = gen_use_wholes(cs, cspan);
    body.append(&mut uses);
    proof {
        broadcast use lemma_stoks_len, lemma_stoks_index;

        assert(stoks(body@) =~= seq![sid("break"@, cspan), spunct(";"@, cspan)] + use_wholes_of(
            scaps(cs@),
            cspan,
        ));
    }
    out.push(mk_group(Delim::Brace, body, cspan));
    proof {
        broadcast use lemma_stoks_len, lemma_stoks_index;

        assert(stoks(out@) =~~= use_block_of(scaps(cs@), cspan));
    }
    out
}

// ---------------------------------------------------------------------------
// Order preservation
// ---------------------------------------------------------------------------
/// The emitted statements follow the declared order of the directives: the
/// fragments generated for a list split anywhere are the fragments of its two
/// halves, in that order.  Swapping two directives therefore swaps exactly
/// their contributions, for the preludes, the forced uses, and the upgrade
/// checks alike.
pub proof fn lemma_order_preservation(a: Seq<SCapture>, b: Seq<SCapture>, cspan: SpanId)
    ensures
        preludes_of(a + b, cspan) == preludes_of(a, cspan) + preludes_of(b, cspan),
        use_wholes_of(a + b, cspan) == use_wholes_of(a, cspan) + use_wholes_of(b, cspan),
        upgrades_of(a + b, cspan) == upgrades_of(a, cspan) + upgrades_of(b, cspan),
{
    lemma_flat_map_split(a, b, |c: SCapture| prelude_of(c, cspan));
    lemma_flat_map_split(a, b, |c: SCapture| use_whole_of(c, cspan));
    lemma_flat_map_split(a, b, |c: SCapture| upgrade_of(c, cspan));
}

proof fn lemma_flat_map_split(a: Seq<SCapture>, b: Seq<SCapture>, f: spec_fn(SCapture) -> Seq<STok>)
    ensures
        (a + b).flat_map(f) == a.flat_map(f) + b.flat_map(f),
    decreases b.len(),
{
    if b.len() == 0 {
        assert(a + b =~= a);
        assert(b.map_values(f) =~= Seq::<Seq<STok>>::empty());
        assert(b.flat_map(f) =~= Seq::<STok>::empty());
        assert(a.flat_map(f) + b.flat_map(f) =~= a.flat_map(f));
    } else {
        assert((a + b.drop_last()).push(b.last()) =~= a + b);
        (a + b.drop_last()).lemma_flat_map_push(f, b.last());
        lemma_flat_map_split(a, b.drop_last(), f);
        assert(b.drop_last().push(b.last()) =~= b);
        b.drop_last().lemma_flat_map_push(f, b.last());
        assert((a + b).flat_map(f) =~= a.flat_map(f) + b.flat_map(f));
    }
}



/// A directive list is rewritten at all exactly when it is non-empty: every
/// directive contributes a prelude binding, and an empty list contributes
/// nothing, so an empty prelude marks a closure left unchanged.
pub proof fn lemma_prelude_marks_rewrite(cs: Seq<SCapture>, cspan: SpanId)
    ensures
        preludes_of(cs, cspan).len() == 0 <==> cs.len() == 0,
    decreases cs.len(),
{
    if cs.len() == 0 {
        assert(cs.map_values(|c: SCapture| prelude_of(c, cspan)) =~= Seq::<Seq<STok>>::empty());
        assert(preludes_of(cs, cspan) =~= Seq::<STok>::empty());
    } else {
        let f = |c: SCapture| prelude_of(c, cspan);
        assert(cs.drop_last().push(cs.last()) =~= cs);
        cs.drop_last().lemma_flat_map_push(f, cs.last());
        assert(f(cs.last()).len() > 0);
    }
}

// ---------------------------------------------------------------------------
// Rendering diagnostics as inert error markers
// ---------------------------------------------------------------------------
/// A character of a diagnostic message, as it stands inside the emitted
/// string literal: quotes and backslashes get a backslash before them.
pub open spec fn esc_char(c: char) -> Seq<char> {
    if c == '"' || c == '\\' {
        seq!['\\', c]
    } else {
        seq![c]
    }
}

/// A diagnostic message with its escapes.
pub open spec fn escaped(s: Seq<char>) -> Seq<char> {
    s.flat_map(|c: char| esc_char(c))
}

/// The source text of the string literal holding a diagnostic message.
pub open spec fn quoted(s: Seq<char>) -> Seq<char> {
    seq!['"'] + escaped(s) + seq!['"']
}

/// The inert error marker emitted for one diagnostic, at its span:
/// `:: core :: compile_error ! { "message" }`.
pub open spec fn marker_of(d: SDiag) -> Seq<STok> {
    spath2("core"@, "compile_error"@, d.span) + seq![
        spunct("!"@, d.span),
        sgroup(Delim::Brace, seq![slit(quoted(d.msg), d.span)], d.span),
    ]
}

/// The markers of a diagnostic sequence, in order.
pub open spec fn markers_of(ds: Seq<SDiag>) -> Seq<STok> {
    ds.flat_map(|d: SDiag| marker_of(d))
}

/// Escapes a diagnostic message for its string literal.
fn escape_message(s: &str) -> (r: String)
    ensures
        r@ == escaped(s@),
{
    let n = s.unicode_len();
    let mut out = String::new();
    let mut i: usize = 0;
    proof {
        reveal_strlit("\\");
        assert(s@.take(0).flat_map(|c: char| esc_char(c)) =~= Seq::<char>::empty());
    }
    while i < n
        invariant
            i <= n,
            n == s@.len(),
            out@ == escaped(s@.take(i as int)),
        decreases n - i,
    {
        let c = s.get_char(i);
        if c == '"' || c == '\\' {
            out.append("\\");
            proof {
                reveal_strlit("\\");
            }
        }
        let piece = s.substring_char(i, i + 1);
        out.append(piece);
        proof {
            reveal_strlit("\\");
            assert(piece@ =~= seq![s@[i as int]]);
            s@.lemma_flat_map_take_append(|c: char| esc_char(c), i as int);
            assert(out@ =~= escaped(s@.take(i + 1)));
        }
        i = i + 1;
    }
    proof {
        assert(s@.take(n as int) =~= s@);
    }
    out
}

/// The string-literal text of a diagnostic message.
fn quote_message(s: &str) -> (r: String)
    ensures
        r@ == quoted(s@),
{
    let mut out = String::from_str("\"");
    let esc = escape_message(s);
    out.append(esc.as_str());
    out.append("\"");
    proof {
        reveal_strlit("\"");
        assert(out@ =~= quoted(s@));
    }
    out
}

/// Pushes the error marker of one diagnostic.
fn push_marker(out: &mut Vec<Tok>, d: &Diag)
    ensures
        stoks(final(out)@) == stoks(old(out)@) + marker_of(d@),
{
    let ghost base = stoks(out@);
    let sp = d.span;
    out.push(mk_joint(":", sp));
    out.push(mk_punct(":", sp));
    out.push(mk_ident("core", sp));
    out.push(mk_joint(":", sp));
    out.push(mk_punct(":", sp));
    out.push(mk_ident("compile_error", sp));
    out.push(mk_punct("!", sp));
    let mut lit: Vec<Tok> = Vec::new();
    let text = quote_message(d.msg.as_str());
    lit.push(Tok::Lit { text, span: sp });
    proof {
        broadcast use lemma_stoks_len, lemma_stoks_index;

        assert(stoks(lit@) =~= seq![slit(quoted(d.msg@), sp)]);
    }
    out.push(mk_group(Delim::Brace, lit, sp));
    proof {
        broadcast use lemma_stoks_len, lemma_stoks_index;

        assert(stoks(out@) =~~= base + marker_of(d@));
    }
}

/// Renders the collected diagnostics as inert error markers, one for each,
/// in order, each carrying its diagnostic's span.
pub fn diag_markers(ds: &Vec<Diag>) -> (r: Vec<Tok>)
    ensures
        stoks(r@) == markers_of(crate::sdiags(ds@)),
{
    let mut out: Vec<Tok> = Vec::new();
    let mut i: usize = 0;
    proof {
        assert(crate::sdiags(ds@).take(0) =~= Seq::<SDiag>::empty());
        assert(markers_of(crate::sdiags(ds@).take(0)) =~= Seq::<STok>::empty());
        assert(stoks(out@) =~= Seq::<STok>::empty());
    }
    while i < ds.len()
        invariant
            i <= ds@.len(),
            stoks(out@) == markers_of(crate::sdiags(ds@).take(i as int)),
        decreases ds@.len() - i,
    {
        push_marker(&mut out, &ds[i]);
        proof {
            crate::sdiags(ds@).lemma_flat_map_take_append(|d: SDiag| marker_of(d), i as int);
            assert(crate::sdiags(ds@)[i as int] == ds@[i as int]@);
        }
        i = i + 1;
    }
    proof {
        assert(crate::sdiags(ds@).take(ds@.len() as int) =~= crate::sdiags(ds@));
    }
    out
}

} // verus!

