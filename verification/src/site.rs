use vstd::prelude::*;

use crate::directive::{parse_captures, scaps, spec_parse_caps, Capture, SCapture};
use crate::emit::{
    gen_preludes, gen_upgrades, gen_use_block, gen_use_wholes, prelude_of, preludes_of,
    upgrades_of, use_block_of, use_wholes_of,
};
use crate::token::{lemma_stoks_len, stoks, SpanId, STok, Tok};
use crate::{sdiags, Diag, SDiag};

verus! {

broadcast use vstd::std_specs::vec::group_vec_axioms, vstd::seq::group_seq_axioms;

/// What one attribute of a closure is, to the rewriter: the reserved
/// directive-list annotation with its argument tokens, a bare reserved marker
/// without arguments, or any other attribute, which passes through unchanged.
#[derive(PartialEq, Eq, Debug)]
pub enum AttrKind {
    Marker,
    List(Vec<Tok>),
    Other,
}

/// One attribute attached to a closure expression.
#[derive(PartialEq, Eq, Debug)]
pub struct AttrInfo {
    pub kind: AttrKind,
    pub span: SpanId,
}

/// The mathematical value of an attribute.
#[verifier::ext_equal]
pub ghost enum SAttrKind {
    Marker,
    List(Seq<STok>),
    Other,
}

#[verifier::ext_equal]
pub ghost struct SAttr {
    pub kind: SAttrKind,
    pub span: SpanId,
}

impl View for AttrInfo {
    type V = SAttr;

    open spec fn view(&self) -> SAttr {
        SAttr {
            kind: match self.kind {
                AttrKind::Marker => SAttrKind::Marker,
                AttrKind::List(ts) => SAttrKind::List(stoks(ts@)),
                AttrKind::Other => SAttrKind::Other,
            },
            span: self.span,
        }
    }
}

/// The mathematical value of an attribute sequence.
pub open spec fn sattrs(attrs: Seq<AttrInfo>) -> Seq<SAttr> {
    Seq::new(attrs.len(), |i: int| attrs[i]@)
}

/// Raised for a bare reserved marker: an empty list must still be written.
pub open spec fn msg_marker_needs_args() -> Seq<char> {
    "closure attribute must have arguments"@
}

/// Raised when a non-empty directive list stands on a closure that was not
/// declared as a full-environment capture.
pub open spec fn msg_needs_move() -> Seq<char> {
    "closure must be declared with `move`"@
}

/// The directives one attribute contributes: those of a directive list that
/// parses; a list that does not parse contributes none.
pub open spec fn caps_of_attr(a: SAttr, scope: SpanId) -> Seq<SCapture> {
    match a.kind {
        SAttrKind::List(ts) => match spec_parse_caps(ts, 0, scope) {
            Ok(cs) => cs,
            Err(_) => Seq::<SCapture>::empty(),
        },
        _ => Seq::<SCapture>::empty(),
    }
}

/// The diagnostics one attribute contributes.
pub open spec fn diags_of_attr(a: SAttr, scope: SpanId) -> Seq<SDiag> {
    match a.kind {
        SAttrKind::Marker => seq![SDiag { span: a.span, msg: msg_marker_needs_args() }],
        SAttrKind::List(ts) => match spec_parse_caps(ts, 0, scope) {
            Ok(_) => Seq::<SDiag>::empty(),
            Err(d) => seq![d],
        },
        SAttrKind::Other => Seq::<SDiag>::empty(),
    }
}

/// All directives of a closure's attributes, in attribute order.
pub open spec fn site_caps(attrs: Seq<SAttr>, scope: SpanId) -> Seq<SCapture> {
    attrs.flat_map(|a: SAttr| caps_of_attr(a, scope))
}

/// The attribute diagnostics of one closure, in attribute order.
pub open spec fn site_attr_diags(attrs: Seq<SAttr>, scope: SpanId) -> Seq<SDiag> {
    attrs.flat_map(|a: SAttr| diags_of_attr(a, scope))
}

/// Every diagnostic of one closure: the attribute diagnostics, then, when a
/// non-empty directive list stands on a closure without `move`, the missing
/// `move` diagnostic at the closure's span.
pub open spec fn site_diags(
    attrs: Seq<SAttr>,
    has_move: bool,
    cspan: SpanId,
    scope: SpanId,
) -> Seq<SDiag> {
    site_attr_diags(attrs, scope) + if site_caps(attrs, scope).len() > 0 && !has_move {
        seq![SDiag { span: cspan, msg: msg_needs_move() }]
    } else {
        Seq::<SDiag>::empty()
    }
}

/// Which attributes stay on the closure: exactly those that are not the
/// reserved annotation, in their original order.
pub open spec fn keep_of(attrs: Seq<SAttr>) -> Seq<bool> {
    Seq::new(attrs.len(), |i: int| attrs[i].kind is Other)
}

/// The prelude the rewritten closure is preceded by.
pub open spec fn site_prelude_of(attrs: Seq<SAttr>, cspan: SpanId, scope: SpanId) -> Seq<STok> {
    preludes_of(site_caps(attrs, scope), cspan)
}

/// The blocks the closure body is wrapped in, innermost first: the inert
/// forced-use fragment when some directive needs one, then the upgrade
/// prologue when some directive needs one.
pub open spec fn body_wraps_of(cs: Seq<SCapture>, cspan: SpanId) -> Seq<Seq<STok>> {
    (if use_wholes_of(cs, cspan).len() > 0 {
        seq![use_block_of(cs, cspan)]
    } else {
        Seq::<Seq<STok>>::empty()
    }) + (if upgrades_of(cs, cspan).len() > 0 {
        seq![upgrades_of(cs, cspan)]
    } else {
        Seq::<Seq<STok>>::empty()
    })
}

/// The mathematical value of a sequence of token vectors.
pub open spec fn swraps(ws: Seq<Vec<Tok>>) -> Seq<Seq<STok>> {
    Seq::new(ws.len(), |i: int| stoks(ws[i]@))
}

/// Everything the caller needs to rewrite one closure site: which attributes
/// stay, the diagnostics, the prelude bindings, and the body wraps.  When
/// `prelude` is empty the closure itself is left unchanged.
pub struct SiteRewrite {
    pub keep: Vec<bool>,
    pub diags: Vec<Diag>,
    pub prelude: Vec<Tok>,
    pub body_wraps: Vec<Vec<Tok>>,
}

/// Decides the rewrite of one closure site from its attributes and whether
/// the closure was declared `move`.  `cspan` is the closure's span; `scope`
/// the span reported for errors at the end of an annotation's tokens.
pub fn rewrite_site(attrs: &Vec<AttrInfo>, has_move: bool, cspan: SpanId, scope: SpanId) -> (r:
    SiteRewrite)
    ensures
        r.keep@ == keep_of(sattrs(attrs@)),
        sdiags(r.diags@) == site_diags(sattrs(attrs@), has_move, cspan, scope),
        stoks(r.prelude@) == site_prelude_of(sattrs(attrs@), cspan, scope),
        swraps(r.body_wraps@) == body_wraps_of(site_caps(sattrs(attrs@), scope), cspan),
{
    let ghost sas = sattrs(attrs@);
    let mut keep: Vec<bool> = Vec::new();
    let mut diags: Vec<Diag> = Vec::new();
    let mut caps: Vec<Capture> = Vec::new();
    let mut i: usize = 0;
    proof {
        assert(sas.take(0) =~= Seq::<SAttr>::empty());
        assert(site_caps(sas.take(0), scope) =~= Seq::<SCapture>::empty());
        assert(site_attr_diags(sas.take(0), scope) =~= Seq::<SDiag>::empty());
        assert(scaps(caps@) =~= Seq::<SCapture>::empty());
        assert(sdiags(diags@) =~= Seq::<SDiag>::empty());
        assert(keep@ =~= keep_of(sas.take(0)));
    }
    while i < attrs.len()
        invariant
            i <= attrs@.len(),
            sas == sattrs(attrs@),
            keep@ == keep_of(sas.take(i as int)),
            sdiags(diags@) == site_attr_diags(sas.take(i as int), scope),
            scaps(caps@) == site_caps(sas.take(i as int), scope),
        decreases attrs@.len() - i,
    {
        let ghost old_keep = keep@;
        let ghost old_diags = sdiags(diags@);
        let ghost old_caps = scaps(caps@);
        match &attrs[i].kind {
            AttrKind::Marker => {
                keep.push(false);
                diags.push(
                    Diag {
                        span: attrs[i].span,
                        msg: String::from_str("closure attribute must have arguments"),
                    },
                );
            },
            AttrKind::List(ts) => {
                keep.push(false);
                match parse_captures(ts, scope) {
                    Ok(mut cs) => {
                        let ghost csv = scaps(cs@);
                        caps.append(&mut cs);
                        proof {
                            assert(scaps(caps@) =~= old_caps + csv);
                        }
                    },
                    Err(d) => {
                        diags.push(d);
                    },
                }
            },
            AttrKind::Other => {
                keep.push(true);
            },
        }
        proof {
            sas.lemma_flat_map_take_append(|a: SAttr| caps_of_attr(a, scope), i as int);
            sas.lemma_flat_map_take_append(|a: SAttr| diags_of_attr(a, scope), i as int);
            assert(sas[i as int] == attrs@[i as int]@);
            assert(keep@ =~= keep_of(sas.take(i + 1)));
            assert(sdiags(diags@) =~= site_attr_diags(sas.take(i + 1), scope));
            assert(scaps(caps@) =~= site_caps(sas.take(i + 1), scope));
        }
        i = i + 1;
    }
    proof {
        assert(sas.take(attrs@.len() as int) =~= sas);
    }
    let ghost attr_diags = sdiags(diags@);
    if caps.len() > 0 && !has_move {
        diags.push(
            Diag { span: cspan, msg: String::from_str("closure must be declared with `move`") },
        );
    }
    proof {
        broadcast use lemma_stoks_len;

        assert(site_caps(sas, scope).len() == caps@.len());
        assert(sdiags(diags@) =~= site_diags(sas, has_move, cspan, scope));
    }
    let prelude = gen_preludes(&caps, cspan);
    let uses = gen_use_wholes(&caps, cspan);
    let upgrades = gen_upgrades(&caps, cspan);
    let mut body_wraps: Vec<Vec<Tok>> = Vec::new();
    if uses.len() > 0 {
        let block = gen_use_block(&caps, cspan);
        body_wraps.push(block);
    }
    let ghost wraps_mid = swraps(body_wraps@);
    if upgrades.len() > 0 {
        body_wraps.push(upgrades);
    }
    proof {
        broadcast use lemma_stoks_len;

        assert(swraps(body_wraps@) =~= body_wraps_of(scaps(caps@), cspan));
        assert(swraps(body_wraps@) == body_wraps_of(site_caps(sas, scope), cspan));
    }
    SiteRewrite { keep, diags, prelude, body_wraps }
}


/// An attribute consistent with an empty directive list: not a bare marker,
/// and any directive list on it parses to no directives.
pub open spec fn empty_list_attr(a: SAttr, scope: SpanId) -> bool {
    match a.kind {
        SAttrKind::Marker => false,
        SAttrKind::List(ts) => spec_parse_caps(ts, 0, scope) == Ok::<Seq<SCapture>, SDiag>(
            Seq::<SCapture>::empty(),
        ),
        SAttrKind::Other => true,
    }
}

proof fn lemma_flat_map_all_empty<B>(attrs: Seq<SAttr>, f: spec_fn(SAttr) -> Seq<B>)
    requires
        forall|i: int| 0 <= i < attrs.len() ==> (#[trigger] f(attrs[i])).len() == 0,
    ensures
        attrs.flat_map(f).len() == 0,
    decreases attrs.len(),
{
    if attrs.len() == 0 {
        assert(attrs.map_values(f) =~= Seq::<Seq<B>>::empty());
        assert(attrs.flat_map(f) =~= Seq::<B>::empty());
    } else {
        assert(attrs.drop_last().push(attrs.last()) =~= attrs);
        attrs.drop_last().lemma_flat_map_push(f, attrs.last());
        lemma_flat_map_all_empty(attrs.drop_last(), f);
        assert(f(attrs.last()).len() == 0);
        assert(attrs.flat_map(f) =~= attrs.drop_last().flat_map(f) + f(attrs.last()));
    }
}

/// Idempotence on an empty directive list: a closure whose reserved
/// annotations all carry empty lists gains no prelude, no body wraps and no
/// diagnostics, whatever its capture mode; only the reserved annotations
/// themselves are removed, every other attribute kept in order.
pub proof fn lemma_empty_list_idempotence(
    attrs: Seq<SAttr>,
    has_move: bool,
    cspan: SpanId,
    scope: SpanId,
)
    requires
        forall|i: int| 0 <= i < attrs.len() ==> empty_list_attr(#[trigger] attrs[i], scope),
    ensures
        site_caps(attrs, scope) == Seq::<SCapture>::empty(),
        site_prelude_of(attrs, cspan, scope) == Seq::<STok>::empty(),
        body_wraps_of(site_caps(attrs, scope), cspan) == Seq::<Seq<STok>>::empty(),
        site_diags(attrs, has_move, cspan, scope) == Seq::<SDiag>::empty(),
        keep_of(attrs) == Seq::new(attrs.len(), |i: int| attrs[i].kind is Other),
{
    assert forall|i: int| 0 <= i < attrs.len() implies (#[trigger] caps_of_attr(
        attrs[i],
        scope,
    )).len() == 0 by {
        assert(empty_list_attr(attrs[i], scope));
    }
    lemma_flat_map_all_empty(attrs, |a: SAttr| caps_of_attr(a, scope));
    assert(site_caps(attrs, scope) =~= Seq::<SCapture>::empty());
    assert forall|i: int| 0 <= i < attrs.len() implies (#[trigger] diags_of_attr(
        attrs[i],
        scope,
    )).len() == 0 by {
        assert(empty_list_attr(attrs[i], scope));
    }
    lemma_flat_map_all_empty(attrs, |a: SAttr| diags_of_attr(a, scope));
    assert(site_attr_diags(attrs, scope) =~= Seq::<SDiag>::empty());
    assert(site_diags(attrs, has_move, cspan, scope) =~= Seq::<SDiag>::empty());
    let cs = site_caps(attrs, scope);
    assert(cs.map_values(|c: SCapture| prelude_of(c, cspan)) =~= Seq::<Seq<STok>>::empty());
    assert(preludes_of(cs, cspan) =~= Seq::<STok>::empty());
    assert(use_wholes_of(cs, cspan) =~= Seq::<STok>::empty());
    assert(upgrades_of(cs, cspan) =~= Seq::<STok>::empty());
    assert(body_wraps_of(cs, cspan) =~= Seq::<Seq<STok>>::empty());
}

} // verus!
