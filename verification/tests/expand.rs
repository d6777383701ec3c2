// The rewriter on its token and tree model: what each directive list turns
// into, and what each malformed list reports.

use closure_attr::site::{rewrite_site, AttrInfo, AttrKind};
use closure_attr::token::{render_toks, Delim, Tok};
use closure_attr::tree::{rewrite_item, ExprNode, OutNode};

fn id(s: &str, sp: usize) -> Tok {
    Tok::Ident { text: s.to_string(), span: sp }
}

fn pu(s: &str, sp: usize) -> Tok {
    Tok::Punct { text: s.to_string(), joint: false, span: sp }
}

fn lit(s: &str, sp: usize) -> Tok {
    Tok::Lit { text: s.to_string(), span: sp }
}

fn grp(d: Delim, toks: Vec<Tok>, sp: usize) -> Tok {
    Tok::Group { delim: d, toks, span: sp }
}

fn list_attr(toks: Vec<Tok>, sp: usize) -> AttrInfo {
    AttrInfo { kind: AttrKind::List(toks), span: sp }
}

/// A closure node with the given attributes and an opaque body.
fn closure(attrs: Vec<AttrInfo>, has_move: bool, span: usize, handle: usize) -> ExprNode {
    ExprNode::Closure {
        attrs,
        has_move,
        span,
        handle,
        body: Box::new(ExprNode::Opaque { handle: handle + 100, children: vec![] }),
    }
}

const SCOPE: usize = 0;

#[test]
fn errors() {
    // the entry point takes no arguments
    let root = ExprNode::Opaque { handle: 1, children: vec![] };
    let (_, diags) = rewrite_item(false, 7, &root, SCOPE);
    assert_eq!(diags.len(), 1);
    assert_eq!(diags[0].span, 7);
    assert_eq!(diags[0].msg, "with_closure attribute takes no arguments");

    // a bare `closure` marker has no argument list
    let r = rewrite_site(&vec![AttrInfo { kind: AttrKind::Marker, span: 5 }], false, 9, SCOPE);
    assert_eq!(r.diags.len(), 1);
    assert_eq!(r.diags[0].span, 5);
    assert_eq!(r.diags[0].msg, "closure attribute must have arguments");
    assert_eq!(r.keep, vec![false]);
    assert!(r.prelude.is_empty());
    assert!(r.body_wraps.is_empty());

    // `#[closure(7)]`: not even an identifier
    let r = rewrite_site(&vec![list_attr(vec![lit("7", 3)], 2)], true, 9, SCOPE);
    assert_eq!(r.diags.len(), 1);
    assert_eq!(r.diags[0].span, 3);
    assert_eq!(
        r.diags[0].msg,
        "expected clone, clone mut, ref, ref mut, move, move mut, weak, fail, or panic (1)"
    );

    // `#[closure(x)]`: an identifier, but no known mode
    let r = rewrite_site(&vec![list_attr(vec![id("x", 3)], 2)], true, 9, SCOPE);
    assert_eq!(r.diags[0].span, 3);
    assert_eq!(
        r.diags[0].msg,
        "expected clone, clone mut, ref, ref mut, move, move mut, weak, fail, or panic (2)"
    );

    // `#[closure(mut)]`
    let r = rewrite_site(&vec![list_attr(vec![id("mut", 3)], 2)], true, 9, SCOPE);
    assert_eq!(r.diags[0].span, 3);
    assert_eq!(
        r.diags[0].msg,
        "expected clone, clone mut, ref, ref mut, move, move mut, weak, fail, or panic (2)"
    );

    // `#[closure(weak mut x)]`: `weak` takes no `mut`
    let r = rewrite_site(
        &vec![list_attr(vec![id("weak", 3), id("mut", 4), id("x", 5)], 2)],
        true,
        9,
        SCOPE,
    );
    assert_eq!(r.diags[0].span, 3);
    assert_eq!(
        r.diags[0].msg,
        "expected clone, clone mut, ref, ref mut, move, move mut, weak, fail, or panic (2)"
    );

    // `#[closure(clone mut let)]`: the captured name is a keyword
    let r = rewrite_site(
        &vec![list_attr(vec![id("clone", 3), id("mut", 4), id("let", 5)], 2)],
        true,
        9,
        SCOPE,
    );
    assert_eq!(r.diags[0].span, 5);
    assert_eq!(r.diags[0].msg, "expected identifier, found keyword `let`");

    // `#[closure(clone mut x)]` on a closure without `move`
    let r = rewrite_site(
        &vec![list_attr(vec![id("clone", 3), id("mut", 4), id("x", 5)], 2)],
        false,
        9,
        SCOPE,
    );
    assert_eq!(r.diags.len(), 1);
    assert_eq!(r.diags[0].span, 9);
    assert_eq!(r.diags[0].msg, "closure must be declared with `move`");
    // the rewrite still proceeds
    assert_eq!(render_toks(&r.prelude), "let mut x = x . clone () ; ");

    // `#[closure(clone mut x y)]`: a second directive needs a comma first
    let r = rewrite_site(
        &vec![list_attr(vec![id("clone", 3), id("mut", 4), id("x", 5), id("y", 6)], 2)],
        true,
        9,
        SCOPE,
    );
    assert_eq!(r.diags[0].span, 6);
    assert_eq!(r.diags[0].msg, "expected `,`");
}

#[test]
fn no_change() {
    // `#[closure()] move || ()`: the annotation goes, nothing else changes
    let r = rewrite_site(&vec![list_attr(vec![], 2)], true, 9, SCOPE);
    assert!(r.diags.is_empty());
    assert_eq!(r.keep, vec![false]);
    assert!(r.prelude.is_empty());
    assert!(r.body_wraps.is_empty());
}

#[test]
fn clone() {
    // `#[closure(clone c)] move || ()`
    let r = rewrite_site(&vec![list_attr(vec![id("clone", 3), id("c", 4)], 2)], true, 9, SCOPE);
    assert!(r.diags.is_empty());
    assert_eq!(r.keep, vec![false]);
    assert_eq!(render_toks(&r.prelude), "let c = c . clone () ; ");
    assert_eq!(r.body_wraps.len(), 1);
    assert_eq!(
        render_toks(&r.body_wraps[0]),
        "# [allow (unreachable_code , clippy :: never_loop ) ] loop {break ; let _ = & c ; } "
    );
}

fn clone_site(span: usize, handle: usize) -> ExprNode {
    closure(vec![list_attr(vec![id("clone", 3), id("c", 4)], 2)], true, span, handle)
}

fn assert_clone_out(out: &OutNode) {
    match out {
        OutNode::Closure { keep, prelude, body_wraps, .. } => {
            assert_eq!(keep, &vec![false]);
            assert_eq!(render_toks(prelude), "let c = c . clone () ; ");
            assert_eq!(body_wraps.len(), 1);
        },
        OutNode::Opaque { .. } => panic!("expected a closure site"),
    }
}

#[test]
fn fn_in_mod() {
    // the same site, nested below further opaque structure
    let root = ExprNode::Opaque {
        handle: 1,
        children: vec![ExprNode::Opaque { handle: 2, children: vec![clone_site(9, 3)] }],
    };
    let (out, diags) = rewrite_item(true, 0, &root, SCOPE);
    assert!(diags.is_empty());
    match out {
        OutNode::Opaque { handle: 1, children } => match &children[0] {
            OutNode::Opaque { handle: 2, children } => assert_clone_out(&children[0]),
            _ => panic!("shape changed"),
        },
        _ => panic!("shape changed"),
    }
}

#[test]
fn closure_in_var() {
    // `let clos = #[closure(clone c)] move || ();`
    let root = ExprNode::Opaque { handle: 1, children: vec![clone_site(9, 2)] };
    let (out, diags) = rewrite_item(true, 0, &root, SCOPE);
    assert!(diags.is_empty());
    match out {
        OutNode::Opaque { handle: 1, children } => assert_clone_out(&children[0]),
        _ => panic!("shape changed"),
    }
}

#[test]
fn closure_in_call() {
    // `callit(#[closure(clone c)] move || ());`
    let root = ExprNode::Opaque {
        handle: 1,
        children: vec![ExprNode::Opaque { handle: 2, children: vec![clone_site(9, 3)] }],
    };
    let (out, diags) = rewrite_item(true, 0, &root, SCOPE);
    assert!(diags.is_empty());
    match out {
        OutNode::Opaque { children, .. } => match &children[0] {
            OutNode::Opaque { children, .. } => assert_clone_out(&children[0]),
            _ => panic!("shape changed"),
        },
        _ => panic!("shape changed"),
    }
}

#[test]
fn immediate_call() {
    // `(#[closure(clone c)] move || ())();`
    let root = ExprNode::Opaque { handle: 1, children: vec![clone_site(9, 2)] };
    let (out, _) = rewrite_item(true, 0, &root, SCOPE);
    match out {
        OutNode::Opaque { children, .. } => assert_clone_out(&children[0]),
        _ => panic!("shape changed"),
    }
}

#[test]
fn all_but_weak() {
    // `#[closure(clone c, clone mut cm, ref r, ref mut rm, move m, move mut mm)]`
    let toks = vec![
        id("clone", 3),
        id("c", 4),
        pu(",", 5),
        id("clone", 6),
        id("mut", 7),
        id("cm", 8),
        pu(",", 9),
        id("ref", 10),
        id("r", 11),
        pu(",", 12),
        id("ref", 13),
        id("mut", 14),
        id("rm", 15),
        pu(",", 16),
        id("move", 17),
        id("m", 18),
        pu(",", 19),
        id("move", 20),
        id("mut", 21),
        id("mm", 22),
    ];
    let r = rewrite_site(&vec![list_attr(toks, 2)], true, 9, SCOPE);
    assert!(r.diags.is_empty());
    assert_eq!(
        render_toks(&r.prelude),
        "let c = c . clone () ; \
         let mut cm = cm . clone () ; \
         let r = & r ; \
         let rm = & mut rm ; \
         let m = m ; \
         let mut mm = mm ; "
    );
    assert_eq!(r.body_wraps.len(), 1);
    assert_eq!(
        render_toks(&r.body_wraps[0]),
        "# [allow (unreachable_code , clippy :: never_loop ) ] loop {break ; \
         let _ = & c ; let _ = & cm ; let _ = & r ; let _ = & rm ; \
         let _ = & m ; let _ = & mm ; } "
    );
}

#[test]
fn weak() {
    // `#[closure(weak r, weak a)] move || 42`
    let toks = vec![id("weak", 3), id("r", 4), pu(",", 5), id("weak", 6), id("a", 7)];
    let r = rewrite_site(&vec![list_attr(toks, 2)], true, 9, SCOPE);
    assert!(r.diags.is_empty());
    assert_eq!(
        render_toks(&r.prelude),
        "let r = :: closure_attr :: Downgrade :: downgrade (& r ) ; \
         let a = :: closure_attr :: Downgrade :: downgrade (& a ) ; "
    );
    // no forced use, but each call upgrades both handles in declared order,
    // leaving with a default result on the first dead referent
    assert_eq!(r.body_wraps.len(), 1);
    assert_eq!(
        render_toks(&r.body_wraps[0]),
        "let Some (r ) = :: closure_attr :: Upgrade :: upgrade (& r ) else \
         {return :: core :: default :: Default :: default () ; } ; \
         let Some (a ) = :: closure_attr :: Upgrade :: upgrade (& a ) else \
         {return :: core :: default :: Default :: default () ; } ; "
    );
}

#[test]
fn upgrade() {
    // `#[closure(fail(7) r, fail({foo(); 9}) a, panic c)] move || 42`
    let toks = vec![
        id("fail", 3),
        grp(Delim::Paren, vec![lit("7", 4)], 5),
        id("r", 6),
        pu(",", 7),
        id("fail", 8),
        grp(
            Delim::Paren,
            vec![grp(
                Delim::Brace,
                vec![id("foo", 10), grp(Delim::Paren, vec![], 11), pu(";", 12), lit("9", 13)],
                9,
            )],
            14,
        ),
        id("a", 15),
        pu(",", 16),
        id("panic", 17),
        id("c", 18),
    ];
    let r = rewrite_site(&vec![list_attr(toks, 2)], true, 9, SCOPE);
    assert!(r.diags.is_empty());
    assert_eq!(
        render_toks(&r.prelude),
        "let r = :: closure_attr :: Downgrade :: downgrade (& r ) ; \
         let a = :: closure_attr :: Downgrade :: downgrade (& a ) ; \
         let c = :: closure_attr :: Downgrade :: downgrade (& c ) ; "
    );
    assert_eq!(r.body_wraps.len(), 1);
    assert_eq!(
        render_toks(&r.body_wraps[0]),
        "let Some (r ) = :: closure_attr :: Upgrade :: upgrade (& r ) else {return 7 ; } ; \
         let Some (a ) = :: closure_attr :: Upgrade :: upgrade (& a ) else \
         {return {foo () ; 9 } ; } ; \
         let Some (c ) = :: closure_attr :: Upgrade :: upgrade (& c ) else \
         {:: std :: panic ! (\"Closure failed to upgrade weak pointer\" ) ; } ; "
    );
}

#[test]
fn expand_embedded_closure() {
    // an annotated closure whose body holds another annotated closure
    let inner = clone_site(9, 5);
    let outer = ExprNode::Closure {
        attrs: vec![list_attr(vec![id("clone", 3), id("i", 4)], 2)],
        has_move: true,
        span: 8,
        handle: 1,
        body: Box::new(ExprNode::Opaque { handle: 2, children: vec![inner] }),
    };
    let (out, diags) = rewrite_item(true, 0, &outer, SCOPE);
    assert!(diags.is_empty());
    match out {
        OutNode::Closure { prelude, body, body_wraps, .. } => {
            assert_eq!(render_toks(&prelude), "let i = i . clone () ; ");
            assert_eq!(body_wraps.len(), 1);
            match *body {
                OutNode::Opaque { children, .. } => assert_clone_out(&children[0]),
                _ => panic!("shape changed"),
            }
        },
        _ => panic!("expected the outer closure"),
    }
}
