// The stated properties of the rewriter, on concrete values: order
// preservation, error aggregation, nesting independence, the directive
// grammar's edges, and the rendering of diagnostics.

use std::sync::Arc;

use closure_attr::directive::parse_captures;
use closure_attr::emit::diag_markers;
use closure_attr::site::{rewrite_site, AttrInfo, AttrKind};
use closure_attr::token::{render_toks, Delim, Tok};
use closure_attr::tree::{rewrite_item, ExprNode, OutNode};
use closure_attr::{Diag, Downgrade, Upgrade};

fn id(s: &str, sp: usize) -> Tok {
    Tok::Ident { text: s.to_string(), span: sp }
}

fn pu(s: &str, sp: usize) -> Tok {
    Tok::Punct { text: s.to_string(), joint: false, span: sp }
}

fn lit(s: &str, sp: usize) -> Tok {
    Tok::Lit { text: s.to_string(), span: sp }
}

fn grp(d: Delim, toks: Vec<Tok>, sp: usize) -> Tok {
    Tok::Group { delim: d, toks, span: sp }
}

fn list_attr(toks: Vec<Tok>, sp: usize) -> AttrInfo {
    AttrInfo { kind: AttrKind::List(toks), span: sp }
}

const SCOPE: usize = 0;

#[test]
fn order_preserved_in_prelude() {
    // swapping two directives swaps exactly their emitted statements
    let ab = vec![id("clone", 3), id("a", 4), pu(",", 5), id("ref", 6), id("b", 7)];
    let ba = vec![id("ref", 6), id("b", 7), pu(",", 5), id("clone", 3), id("a", 4)];
    let r_ab = rewrite_site(&vec![list_attr(ab, 2)], true, 9, SCOPE);
    let r_ba = rewrite_site(&vec![list_attr(ba, 2)], true, 9, SCOPE);
    assert_eq!(render_toks(&r_ab.prelude), "let a = a . clone () ; let b = & b ; ");
    assert_eq!(render_toks(&r_ba.prelude), "let b = & b ; let a = a . clone () ; ");
}

#[test]
fn order_decides_first_failing_upgrade() {
    // both referents dead: the first directive in declared order decides
    let a = Arc::new(1);
    let b = Arc::new(2);
    // `#[closure(fail(101) a, fail(102) b)] move || *a + *b`, then swapped
    let first_a = {
        let a = Downgrade::downgrade(&a);
        let b = Downgrade::downgrade(&b);
        move || {
            let Some(a) = Upgrade::upgrade(&a) else {
                return 101;
            };
            let Some(b) = Upgrade::upgrade(&b) else {
                return 102;
            };
            *a + *b
        }
    };
    let first_b = {
        let a = Downgrade::downgrade(&a);
        let b = Downgrade::downgrade(&b);
        move || {
            let Some(b) = Upgrade::upgrade(&b) else {
                return 102;
            };
            let Some(a) = Upgrade::upgrade(&a) else {
                return 101;
            };
            *a + *b
        }
    };
    assert_eq!(first_a(), 3);
    drop(a);
    drop(b);
    assert_eq!(first_a(), 101);
    assert_eq!(first_b(), 102);
}

#[test]
fn two_bad_sites_both_reported() {
    // an item with two independently malformed lists yields both
    // diagnostics, in source order, and the whole tree is still rewritten
    let bad1 = ExprNode::Closure {
        attrs: vec![list_attr(vec![lit("7", 11)], 10)],
        has_move: true,
        span: 12,
        handle: 1,
        body: Box::new(ExprNode::Opaque { handle: 2, children: vec![] }),
    };
    let bad2 = ExprNode::Closure {
        attrs: vec![list_attr(vec![id("x", 21)], 20)],
        has_move: true,
        span: 22,
        handle: 3,
        body: Box::new(ExprNode::Opaque { handle: 4, children: vec![] }),
    };
    let root = ExprNode::Opaque { handle: 0, children: vec![bad1, bad2] };
    let (out, diags) = rewrite_item(true, 0, &root, SCOPE);
    assert_eq!(diags.len(), 2);
    assert_eq!(diags[0].span, 11);
    assert_eq!(
        diags[0].msg,
        "expected clone, clone mut, ref, ref mut, move, move mut, weak, fail, or panic (1)"
    );
    assert_eq!(diags[1].span, 21);
    assert_eq!(
        diags[1].msg,
        "expected clone, clone mut, ref, ref mut, move, move mut, weak, fail, or panic (2)"
    );
    match out {
        OutNode::Opaque { children, .. } => assert_eq!(children.len(), 2),
        _ => panic!("shape changed"),
    }
}

#[test]
fn nesting_is_independent() {
    // the inner closure's rewrite does not depend on the outer list: the
    // inner site comes out the same standing alone or nested
    let inner_attrs = vec![list_attr(vec![id("weak", 31), id("w", 32)], 30)];
    let standalone = ExprNode::Closure {
        attrs: inner_attrs.clone_toks(),
        has_move: true,
        span: 33,
        handle: 9,
        body: Box::new(ExprNode::Opaque { handle: 10, children: vec![] }),
    };
    let (alone_out, _) = rewrite_item(true, 0, &standalone, SCOPE);
    let nested = ExprNode::Closure {
        attrs: vec![list_attr(vec![id("clone", 21), id("c", 22)], 20)],
        has_move: true,
        span: 23,
        handle: 8,
        body: Box::new(ExprNode::Closure {
            attrs: inner_attrs.clone_toks(),
            has_move: true,
            span: 33,
            handle: 9,
            body: Box::new(ExprNode::Opaque { handle: 10, children: vec![] }),
        }),
    };
    let (nested_out, _) = rewrite_item(true, 0, &nested, SCOPE);
    let inner_of_nested = match nested_out {
        OutNode::Closure { body, .. } => *body,
        _ => panic!("expected the outer closure"),
    };
    assert_eq!(inner_of_nested, alone_out);
}

/// Deep-copies attribute lists for reuse across trees.
trait CloneToks {
    fn clone_toks(&self) -> Self;
}

impl CloneToks for Vec<AttrInfo> {
    fn clone_toks(&self) -> Self {
        self.iter()
            .map(|a| AttrInfo {
                kind: match &a.kind {
                    AttrKind::Marker => AttrKind::Marker,
                    AttrKind::List(ts) => AttrKind::List(closure_attr::token::copy_toks(ts)),
                    AttrKind::Other => AttrKind::Other,
                },
                span: a.span,
            })
            .collect()
    }
}

#[test]
fn trailing_comma_rejected() {
    let r = parse_captures(&vec![id("clone", 3), id("c", 4), pu(",", 5)], SCOPE);
    let d = r.err().expect("a trailing comma is not accepted");
    assert_eq!(d.span, SCOPE);
    assert_eq!(
        d.msg,
        "expected clone, clone mut, ref, ref mut, move, move mut, weak, fail, or panic (1)"
    );
}

#[test]
fn empty_list_parses_to_nothing() {
    let r = parse_captures(&vec![], SCOPE);
    assert!(r.expect("an empty list is valid").is_empty());
}

#[test]
fn fail_needs_parentheses() {
    let r = parse_captures(&vec![id("fail", 3), id("x", 4)], SCOPE);
    let d = r.err().expect("fail needs a parenthesized expression");
    assert_eq!(d.span, 4);
    assert_eq!(d.msg, "expected parentheses");

    let r = parse_captures(&vec![id("fail", 3)], SCOPE);
    let d = r.err().expect("fail at the end of input");
    assert_eq!(d.span, SCOPE);
    assert_eq!(d.msg, "unexpected end of input, expected parentheses");
}

#[test]
fn fail_rejects_trailing_expression_tokens() {
    // `fail(7 8) x`: one full expression, then leftovers
    let toks = vec![
        id("fail", 3),
        grp(Delim::Paren, vec![lit("7", 4), lit("8", 5)], 6),
        id("x", 7),
    ];
    let d = parse_captures(&toks, SCOPE).err().expect("trailing tokens are an error");
    assert_eq!(d.span, 6);
    assert_eq!(d.msg, "expected end of expression");
}

#[test]
fn fail_rejects_garbage_expression() {
    // `fail() x`: no expression at all; the host parser's message passes
    // through unchanged
    let toks = vec![id("fail", 3), grp(Delim::Paren, vec![], 6), id("x", 7)];
    let d = parse_captures(&toks, SCOPE).err().expect("an empty fallback is an error");
    assert_eq!(d.span, 6);
    assert!(!d.msg.is_empty());
}

#[test]
fn fail_keeps_fallback_tokens() {
    // the fallback expression's own tokens come back out in the prologue
    let toks = vec![
        id("fail", 3),
        grp(
            Delim::Paren,
            vec![grp(
                Delim::Brace,
                vec![id("foo", 10), grp(Delim::Paren, vec![], 11), pu(";", 12), lit("9", 13)],
                9,
            )],
            14,
        ),
        id("a", 15),
    ];
    let r = rewrite_site(&vec![list_attr(toks, 2)], true, 9, SCOPE);
    assert!(r.diags.is_empty());
    assert_eq!(r.body_wraps.len(), 1);
    assert_eq!(
        render_toks(&r.body_wraps[0]),
        "let Some (a ) = :: closure_attr :: Upgrade :: upgrade (& a ) else \
         {return {foo () ; 9 } ; } ; "
    );
}

#[test]
fn missing_name_at_end_of_input() {
    let d = parse_captures(&vec![id("clone", 3)], 42).err().expect("a name is required");
    assert_eq!(d.span, 42);
    assert_eq!(d.msg, "unexpected end of input, expected identifier");
}

#[test]
fn name_must_be_identifier() {
    let d = parse_captures(&vec![id("clone", 3), lit("9", 4)], SCOPE)
        .err()
        .expect("a literal is no name");
    assert_eq!(d.span, 4);
    assert_eq!(d.msg, "expected identifier");
}

#[test]
fn markers_render_with_escapes() {
    let ds = vec![
        Diag { span: 4, msg: "plain message".to_string() },
        Diag { span: 5, msg: "with \"quotes\" and \\ backslash".to_string() },
    ];
    let toks = diag_markers(&ds);
    assert_eq!(
        render_toks(&toks),
        ":: core :: compile_error ! {\"plain message\" } \
         :: core :: compile_error ! {\"with \\\"quotes\\\" and \\\\ backslash\" } "
    );
}

#[test]
fn marker_order_follows_diagnostics() {
    let ds = vec![
        Diag { span: 1, msg: "first".to_string() },
        Diag { span: 2, msg: "second".to_string() },
    ];
    let toks = diag_markers(&ds);
    assert_eq!(
        render_toks(&toks),
        ":: core :: compile_error ! {\"first\" } :: core :: compile_error ! {\"second\" } "
    );
}

#[test]
fn other_attributes_pass_through() {
    // a closure with an unrelated attribute before and after the directive
    // list keeps both, in order
    let attrs = vec![
        AttrInfo { kind: AttrKind::Other, span: 1 },
        list_attr(vec![id("clone", 3), id("c", 4)], 2),
        AttrInfo { kind: AttrKind::Other, span: 5 },
    ];
    let r = rewrite_site(&attrs, true, 9, SCOPE);
    assert_eq!(r.keep, vec![true, false, true]);
    assert!(r.diags.is_empty());
}

#[test]
fn two_lists_concatenate() {
    // two directive lists on one closure contribute in attribute order
    let attrs = vec![
        list_attr(vec![id("clone", 3), id("a", 4)], 2),
        list_attr(vec![id("move", 6), id("b", 7)], 5),
    ];
    let r = rewrite_site(&attrs, true, 9, SCOPE);
    assert_eq!(render_toks(&r.prelude), "let a = a . clone () ; let b = b ; ");
}

#[test]
fn mixed_directives_wrap_inner_then_outer() {
    // value and weak directives together: the inert forced-use fragment is
    // the innermost body wrap, the upgrade prologue the outermost
    let toks = vec![
        id("clone", 3),
        id("c", 4),
        pu(",", 5),
        id("fail", 6),
        grp(Delim::Paren, vec![lit("7", 7)], 8),
        id("r", 9),
    ];
    let r = rewrite_site(&vec![list_attr(toks, 2)], true, 9, SCOPE);
    assert!(r.diags.is_empty());
    assert_eq!(
        render_toks(&r.prelude),
        "let c = c . clone () ; let r = :: closure_attr :: Downgrade :: downgrade (& r ) ; "
    );
    assert_eq!(r.body_wraps.len(), 2);
    assert_eq!(
        render_toks(&r.body_wraps[0]),
        "# [allow (unreachable_code , clippy :: never_loop ) ] loop {break ; let _ = & c ; } "
    );
    assert_eq!(
        render_toks(&r.body_wraps[1]),
        "let Some (r ) = :: closure_attr :: Upgrade :: upgrade (& r ) else {return 7 ; } ; "
    );
}

#[test]
fn fail_fallback_may_contain_commas() {
    // `fail(f(1, 2)) x`: the comma sits inside the fallback's parentheses,
    // not at the top level of the list
    let toks = vec![
        id("fail", 3),
        grp(
            Delim::Paren,
            vec![
                id("f", 4),
                grp(Delim::Paren, vec![lit("1", 5), pu(",", 6), lit("2", 7)], 8),
            ],
            9,
        ),
        id("x", 10),
    ];
    let caps = parse_captures(&toks, SCOPE).expect("one directive");
    assert_eq!(caps.len(), 1);
    assert_eq!(caps[0].name, "x");
}

#[test]
fn keyword_mode_names_cannot_be_captured() {
    // `clone move`: the mode keywords are keywords of the host language too
    let d = parse_captures(&vec![id("clone", 3), id("move", 4)], SCOPE)
        .err()
        .expect("a keyword is no name");
    assert_eq!(d.span, 4);
    assert_eq!(d.msg, "expected identifier, found keyword `move`");
}

#[test]
fn marker_beside_list_still_rewrites() {
    // a bare marker reports its error; a directive list beside it still
    // takes effect
    let attrs = vec![
        AttrInfo { kind: AttrKind::Marker, span: 1 },
        list_attr(vec![id("clone", 3), id("c", 4)], 2),
    ];
    let r = rewrite_site(&attrs, true, 9, SCOPE);
    assert_eq!(r.diags.len(), 1);
    assert_eq!(r.diags[0].msg, "closure attribute must have arguments");
    assert_eq!(r.keep, vec![false, false]);
    assert_eq!(render_toks(&r.prelude), "let c = c . clone () ; ");
}

#[test]
fn linkage_keyword_cannot_be_captured() {
    let kw: String = vec!['e', 'x', 't', 'e', 'r', 'n'].into_iter().collect();
    let d = parse_captures(&vec![id("clone", 3), id(&kw, 4)], SCOPE)
        .err()
        .expect("a keyword is no name");
    assert_eq!(d.span, 4);
    assert_eq!(d.msg, format!("expected identifier, found keyword `{}`", kw));
}
