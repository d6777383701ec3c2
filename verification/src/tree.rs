use vstd::prelude::*;

use crate::site::{
    body_wraps_of, keep_of, rewrite_site, sattrs, site_caps, site_diags, site_prelude_of, AttrInfo,
    SAttr,
};
use crate::token::{SpanId, STok, Tok, stoks};
use crate::{sdiags, Diag, SDiag};

verus! {

broadcast use vstd::std_specs::vec::group_vec_axioms, vstd::seq::group_seq_axioms;

/// An expression of the annotated item, as the rewriter sees it: a closure
/// with its attributes, its capture mode and its body, or any other
/// expression, opaque but for the closures below it.  `handle` names the
/// host-language fragment the caller keeps for each node.
#[derive(PartialEq, Eq, Debug)]
pub enum ExprNode {
    Closure {
        attrs: Vec<AttrInfo>,
        has_move: bool,
        span: SpanId,
        handle: usize,
        body: Box<ExprNode>,
    },
    Opaque { handle: usize, children: Vec<ExprNode> },
}

/// A rewritten expression: each closure now carries which attributes stay,
/// the prelude that precedes it and the wraps around its body; everything
/// else is unchanged, its rewritten closures in place.
#[derive(PartialEq, Eq, Debug)]
pub enum OutNode {
    Closure {
        handle: usize,
        keep: Vec<bool>,
        prelude: Vec<Tok>,
        body_wraps: Vec<Vec<Tok>>,
        body: Box<OutNode>,
    },
    Opaque { handle: usize, children: Vec<OutNode> },
}

/// The mathematical value of an expression node.
#[verifier::ext_equal]
pub ghost enum SExprNode {
    Closure {
        attrs: Seq<SAttr>,
        has_move: bool,
        span: SpanId,
        handle: usize,
        body: Box<SExprNode>,
    },
    Opaque { handle: usize, children: Seq<SExprNode> },
}

/// The mathematical value of a rewritten node.
#[verifier::ext_equal]
pub ghost enum SOutNode {
    Closure {
        handle: usize,
        keep: Seq<bool>,
        prelude: Seq<STok>,
        body_wraps: Seq<Seq<STok>>,
        body: Box<SOutNode>,
    },
    Opaque { handle: usize, children: Seq<SOutNode> },
}

pub open spec fn expr_view(n: ExprNode) -> SExprNode
    decreases n,
{
    match n {
        ExprNode::Closure { attrs, has_move, span, handle, body } => SExprNode::Closure {
            attrs: sattrs(attrs@),
            has_move,
            span,
            handle,
            body: Box::new(expr_view(*body)),
        },
        ExprNode::Opaque { handle, children } => SExprNode::Opaque {
            handle,
            children: expr_views(children@),
        },
    }
}

pub open spec fn expr_views(ns: Seq<ExprNode>) -> Seq<SExprNode>
    decreases ns,
{
    if ns.len() == 0 {
        Seq::<SExprNode>::empty()
    } else {
        seq![expr_view(ns[0])] + expr_views(ns.drop_first())
    }
}

impl View for ExprNode {
    type V = SExprNode;

    open spec fn view(&self) -> SExprNode {
        expr_view(*self)
    }
}

pub broadcast proof fn lemma_expr_views_len(ns: Seq<ExprNode>)
    ensures
        #[trigger] expr_views(ns).len() == ns.len(),
    decreases ns,
{
    if ns.len() != 0 {
        lemma_expr_views_len(ns.drop_first());
    }
}

pub broadcast proof fn lemma_expr_views_index(ns: Seq<ExprNode>, i: int)
    requires
        0 <= i < ns.len(),
    ensures
        #[trigger] expr_views(ns)[i] == expr_view(ns[i]),
    decreases ns,
{
    lemma_expr_views_len(ns);
    if i > 0 {
        lemma_expr_views_index(ns.drop_first(), i - 1);
    }
}

pub open spec fn out_view(n: OutNode) -> SOutNode
    decreases n,
{
    match n {
        OutNode::Closure { handle, keep, prelude, body_wraps, body } => SOutNode::Closure {
            handle,
            keep: keep@,
            prelude: stoks(prelude@),
            body_wraps: crate::site::swraps(body_wraps@),
            body: Box::new(out_view(*body)),
        },
        OutNode::Opaque { handle, children } => SOutNode::Opaque {
            handle,
            children: out_views(children@),
        },
    }
}

pub open spec fn out_views(ns: Seq<OutNode>) -> Seq<SOutNode>
    decreases ns,
{
    if ns.len() == 0 {
        Seq::<SOutNode>::empty()
    } else {
        seq![out_view(ns[0])] + out_views(ns.drop_first())
    }
}

impl View for OutNode {
    type V = SOutNode;

    open spec fn view(&self) -> SOutNode {
        out_view(*self)
    }
}

/// The rewrite of one node: a closure is rewritten from its own attributes
/// alone, its body independently and first; any other expression keeps its
/// shape, its closures rewritten in place.
pub open spec fn rewrite_node(n: SExprNode, scope: SpanId) -> SOutNode
    decreases n,
{
    match n {
        SExprNode::Closure { attrs, has_move, span, handle, body } => SOutNode::Closure {
            handle,
            keep: keep_of(attrs),
            prelude: site_prelude_of(attrs, span, scope),
            body_wraps: body_wraps_of(site_caps(attrs, scope), span),
            body: Box::new(rewrite_node(*body, scope)),
        },
        SExprNode::Opaque { handle, children } => SOutNode::Opaque {
            handle,
            children: rewrite_nodes(children, scope),
        },
    }
}

pub open spec fn rewrite_nodes(ns: Seq<SExprNode>, scope: SpanId) -> Seq<SOutNode>
    decreases ns,
{
    if ns.len() == 0 {
        Seq::<SOutNode>::empty()
    } else {
        seq![rewrite_node(ns[0], scope)] + rewrite_nodes(ns.drop_first(), scope)
    }
}

/// The diagnostics of one node, in the order the traversal reports them: a
/// closure's body first, then the closure's own; an opaque expression's
/// children in source order.
pub open spec fn node_diags(n: SExprNode, scope: SpanId) -> Seq<SDiag>
    decreases n,
{
    match n {
        SExprNode::Closure { attrs, has_move, span, handle, body } => node_diags(*body, scope)
            + site_diags(attrs, has_move, span, scope),
        SExprNode::Opaque { handle, children } => nodes_diags(children, scope),
    }
}

pub open spec fn nodes_diags(ns: Seq<SExprNode>, scope: SpanId) -> Seq<SDiag>
    decreases ns,
{
    if ns.len() == 0 {
        Seq::<SDiag>::empty()
    } else {
        node_diags(ns[0], scope) + nodes_diags(ns.drop_first(), scope)
    }
}

proof fn lemma_rewrite_nodes_push(ns: Seq<SExprNode>, x: SExprNode, scope: SpanId)
    ensures
        rewrite_nodes(ns.push(x), scope) == rewrite_nodes(ns, scope).push(rewrite_node(x, scope)),
        nodes_diags(ns.push(x), scope) == nodes_diags(ns, scope) + node_diags(x, scope),
    decreases ns.len(),
{
    if ns.len() == 0 {
        assert(ns.push(x)[0] == x);
        assert(ns.push(x).drop_first() =~= Seq::<SExprNode>::empty());
        assert(rewrite_nodes(ns.push(x), scope) == seq![rewrite_node(x, scope)] + rewrite_nodes(
            Seq::<SExprNode>::empty(),
            scope,
        ));
        assert(rewrite_nodes(ns.push(x), scope) =~= rewrite_nodes(ns, scope).push(
            rewrite_node(x, scope),
        ));
        assert(nodes_diags(ns.push(x), scope) == node_diags(x, scope) + nodes_diags(
            Seq::<SExprNode>::empty(),
            scope,
        ));
        assert(nodes_diags(ns.push(x), scope) =~= nodes_diags(ns, scope) + node_diags(x, scope));
    } else {
        assert(ns.push(x)[0] == ns[0]);
        assert(ns.push(x).drop_first() =~= ns.drop_first().push(x));
        lemma_rewrite_nodes_push(ns.drop_first(), x, scope);
        assert(rewrite_nodes(ns.push(x), scope) == seq![rewrite_node(ns[0], scope)]
            + rewrite_nodes(ns.drop_first().push(x), scope));
        assert(rewrite_nodes(ns, scope) == seq![rewrite_node(ns[0], scope)] + rewrite_nodes(
            ns.drop_first(),
            scope,
        ));
        assert(rewrite_nodes(ns.push(x), scope) =~= rewrite_nodes(ns, scope).push(
            rewrite_node(x, scope),
        ));
        assert(nodes_diags(ns.push(x), scope) == node_diags(ns[0], scope) + nodes_diags(
            ns.drop_first().push(x),
            scope,
        ));
        assert(nodes_diags(ns, scope) == node_diags(ns[0], scope) + nodes_diags(
            ns.drop_first(),
            scope,
        ));
        assert(nodes_diags(ns.push(x), scope) =~= nodes_diags(ns, scope) + node_diags(x, scope));
    }
}

/// Rewrites one expression, appending its diagnostics in traversal order.
pub fn rewrite_expr(n: &ExprNode, scope: SpanId, diags: &mut Vec<Diag>) -> (r: OutNode)
    ensures
        r@ == rewrite_node(n@, scope),
        sdiags(final(diags)@) == sdiags(old(diags)@) + node_diags(n@, scope),
    decreases *n,
{
    match n {
        ExprNode::Closure { attrs, has_move, span, handle, body } => {
            let b = rewrite_expr(&**body, scope, diags);
            let ghost mid_diags = sdiags(diags@);
            let sr = rewrite_site(attrs, *has_move, *span, scope);
            let crate::site::SiteRewrite { keep, diags: mut site_ds, prelude, body_wraps } = sr;
            let ghost site_dv = sdiags(site_ds@);
            diags.append(&mut site_ds);
            proof {
                assert(sdiags(diags@) =~= mid_diags + site_dv);
                assert(sdiags(diags@) =~= sdiags(old(diags)@) + node_diags(n@, scope));
            }
            let r = OutNode::Closure {
                handle: *handle,
                keep,
                prelude,
                body_wraps,
                body: Box::new(b),
            };
            proof {
                assert(r@ =~~= rewrite_node(n@, scope));
            }
            r
        },
        ExprNode::Opaque { handle, children } => {
            let out_children = rewrite_exprs(children, scope, diags);
            let r = OutNode::Opaque { handle: *handle, children: out_children };
            proof {
                assert(r@ =~~= rewrite_node(n@, scope));
            }
            r
        },
    }
}

proof fn lemma_out_views_push(ns: Seq<OutNode>, x: OutNode)
    ensures
        out_views(ns.push(x)) == out_views(ns).push(x@),
    decreases ns.len(),
{
    if ns.len() == 0 {
        assert(ns.push(x)[0] == x);
        assert(ns.push(x).drop_first() =~= Seq::<OutNode>::empty());
        assert(out_views(ns.push(x)) == seq![out_view(x)] + out_views(Seq::<OutNode>::empty()));
        assert(out_views(ns.push(x)) =~= out_views(ns).push(x@));
    } else {
        assert(ns.push(x)[0] == ns[0]);
        assert(ns.push(x).drop_first() =~= ns.drop_first().push(x));
        lemma_out_views_push(ns.drop_first(), x);
        assert(out_views(ns.push(x)) == seq![out_view(ns[0])] + out_views(
            ns.drop_first().push(x),
        ));
        assert(out_views(ns) == seq![out_view(ns[0])] + out_views(ns.drop_first()));
        assert(out_views(ns.push(x)) =~= out_views(ns).push(x@));
    }
}

/// Rewrites a sequence of sibling expressions, in source order.
fn rewrite_exprs(ns: &Vec<ExprNode>, scope: SpanId, diags: &mut Vec<Diag>) -> (r: Vec<OutNode>)
    ensures
        out_views(r@) == rewrite_nodes(expr_views(ns@), scope),
        sdiags(final(diags)@) == sdiags(old(diags)@) + nodes_diags(expr_views(ns@), scope),
    decreases *ns,
{
    let ghost base_diags = sdiags(diags@);
    let mut out: Vec<OutNode> = Vec::new();
    let mut i: usize = 0;
    proof {
        broadcast use lemma_expr_views_len, lemma_expr_views_index;

        assert(expr_views(ns@).take(0) =~= Seq::<SExprNode>::empty());
        assert(out_views(out@) =~= Seq::<SOutNode>::empty());
        assert(rewrite_nodes(Seq::<SExprNode>::empty(), scope) =~= Seq::<SOutNode>::empty());
        assert(nodes_diags(Seq::<SExprNode>::empty(), scope) =~= Seq::<SDiag>::empty());
        assert(sdiags(diags@) =~= base_diags + nodes_diags(expr_views(ns@).take(0), scope));
    }
    while i < ns.len()
        invariant
            i <= ns@.len(),
            out_views(out@) == rewrite_nodes(expr_views(ns@).take(i as int), scope),
            sdiags(diags@) == base_diags + nodes_diags(expr_views(ns@).take(i as int), scope),
        decreases ns@.len() - i,
    {
        let c = rewrite_expr(&ns[i], scope, diags);
        let ghost cc = c;
        let ghost prev = out@;
        out.push(c);
        proof {
            broadcast use lemma_expr_views_len, lemma_expr_views_index;

            let svs = expr_views(ns@);
            assert(svs.take(i as int).push(svs[i as int]) =~= svs.take(i + 1));
            lemma_rewrite_nodes_push(svs.take(i as int), svs[i as int], scope);
            lemma_out_views_push(prev, cc);
            assert(out_views(out@) =~= rewrite_nodes(svs.take(i + 1), scope));
            assert(sdiags(diags@) =~= base_diags + nodes_diags(svs.take(i + 1), scope));
        }
        i = i + 1;
    }
    proof {
        broadcast use lemma_expr_views_len;

        assert(expr_views(ns@).take(ns@.len() as int) =~= expr_views(ns@));
    }
    out
}

/// Raised when the entry point itself is invoked with arguments.
pub open spec fn msg_outer_args() -> Seq<char> {
    "with_closure attribute takes no arguments"@
}

/// Every diagnostic of one invocation, in order: the entry point's own
/// argument check first, then the traversal's, which never stops early.
pub open spec fn entry_diags(
    outer_args_empty: bool,
    call_span: SpanId,
    root: SExprNode,
    scope: SpanId,
) -> Seq<SDiag> {
    (if !outer_args_empty {
        seq![SDiag { span: call_span, msg: msg_outer_args() }]
    } else {
        Seq::<SDiag>::empty()
    }) + node_diags(root, scope)
}

/// Rewrites a whole annotated item: checks the entry point's arguments, then
/// rewrites every closure site in the tree.  The traversal always completes;
/// a bad site yields its diagnostics and a best-effort rewrite of that site,
/// and every other site is still rewritten.
pub fn rewrite_item(outer_args_empty: bool, call_span: SpanId, root: &ExprNode, scope: SpanId) -> (r:
    (OutNode, Vec<Diag>))
    ensures
        r.0@ == rewrite_node(root@, scope),
        sdiags(r.1@) == entry_diags(outer_args_empty, call_span, root@, scope),
{
    let mut diags: Vec<Diag> = Vec::new();
    if !outer_args_empty {
        diags.push(
            Diag {
                span: call_span,
                msg: String::from_str("with_closure attribute takes no arguments"),
            },
        );
    }
    let ghost head = sdiags(diags@);
    proof {
        assert(head =~= if !outer_args_empty {
            seq![SDiag { span: call_span, msg: msg_outer_args() }]
        } else {
            Seq::<SDiag>::empty()
        });
    }
    let out = rewrite_expr(root, scope, &mut diags);
    proof {
        assert(sdiags(diags@) =~= entry_diags(outer_args_empty, call_span, root@, scope));
    }
    (out, diags)
}


/// Error aggregation: an expression holding two independently annotated
/// sites yields the diagnostics of both, first site first, and its rewrite
/// is still the complete expression with both sites rewritten in place.
pub proof fn lemma_error_aggregation(handle: usize, a: SExprNode, b: SExprNode, scope: SpanId)
    ensures
        node_diags(SExprNode::Opaque { handle, children: seq![a, b] }, scope) == node_diags(
            a,
            scope,
        ) + node_diags(b, scope),
        rewrite_node(SExprNode::Opaque { handle, children: seq![a, b] }, scope)
            == (SOutNode::Opaque {
            handle,
            children: seq![rewrite_node(a, scope), rewrite_node(b, scope)],
        }),
{
    let cs = seq![a, b];
    assert(cs[0] == a);
    assert(cs.drop_first() =~= seq![b]);
    assert(nodes_diags(cs, scope) == node_diags(a, scope) + nodes_diags(seq![b], scope));
    assert(seq![b][0] == b);
    assert(seq![b].drop_first() =~= Seq::<SExprNode>::empty());
    assert(nodes_diags(seq![b], scope) == node_diags(b, scope) + nodes_diags(
        Seq::<SExprNode>::empty(),
        scope,
    ));
    assert(nodes_diags(Seq::<SExprNode>::empty(), scope) == Seq::<SDiag>::empty());
    assert(node_diags(a, scope) + (node_diags(b, scope) + Seq::<SDiag>::empty()) =~= node_diags(
        a,
        scope,
    ) + node_diags(b, scope));
    assert(rewrite_nodes(cs, scope) == seq![rewrite_node(a, scope)] + rewrite_nodes(
        seq![b],
        scope,
    ));
    assert(rewrite_nodes(seq![b], scope) == seq![rewrite_node(b, scope)] + rewrite_nodes(
        Seq::<SExprNode>::empty(),
        scope,
    ));
    assert(rewrite_nodes(Seq::<SExprNode>::empty(), scope) == Seq::<SOutNode>::empty());
    assert(seq![rewrite_node(a, scope)] + (seq![rewrite_node(b, scope)]
        + Seq::<SOutNode>::empty()) =~= seq![rewrite_node(a, scope), rewrite_node(b, scope)]);
    assert(rewrite_node(SExprNode::Opaque { handle, children: cs }, scope) =~~= (SOutNode::Opaque {
        handle,
        children: seq![rewrite_node(a, scope), rewrite_node(b, scope)],
    }));
}

/// Nesting independence: a closure whose body holds another annotated
/// closure is rewritten from its own attributes alone, and its body is
/// exactly the inner expression's own rewrite — the inner site is unaffected
/// by the outer directive list and vice versa.
pub proof fn lemma_nesting_independence(
    attrs: Seq<SAttr>,
    has_move: bool,
    span: SpanId,
    handle: usize,
    inner: SExprNode,
    scope: SpanId,
)
    ensures
        rewrite_node(
            SExprNode::Closure { attrs, has_move, span, handle, body: Box::new(inner) },
            scope,
        ) == (SOutNode::Closure {
            handle,
            keep: keep_of(attrs),
            prelude: site_prelude_of(attrs, span, scope),
            body_wraps: body_wraps_of(site_caps(attrs, scope), span),
            body: Box::new(rewrite_node(inner, scope)),
        }),
        node_diags(
            SExprNode::Closure { attrs, has_move, span, handle, body: Box::new(inner) },
            scope,
        ) == node_diags(inner, scope) + site_diags(attrs, has_move, span, scope),
{
}

} // verus!
