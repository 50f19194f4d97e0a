//! Laws of the grammar: properties that relate several rules, proved
//! once and for all inputs.

use vstd::prelude::*;
use crate::token::Delim;
use crate::token::TokenView;
use crate::ast::IdleView;
use crate::ast::InitView;
use crate::ast::StaticView;
use crate::error::ErrorKindView;
use crate::error::ErrorView;
use crate::error::ev0;
use crate::grammar::lemma_find_at;
use crate::grammar::s_app;
use crate::grammar::s_app_fields;
use crate::grammar::s_idents_elems;
use crate::grammar::s_idle;
use crate::grammar::s_idle_fields;
use crate::grammar::s_init;
use crate::grammar::s_init_fields;
use crate::grammar::s_path;
use crate::grammar::s_sep;
use crate::grammar::s_static;
use crate::grammar::s_group;

verus! {

/// Law (round trip): a captured path fragment, fed back with its
/// terminating comma and anything behind it, is captured again verbatim —
/// no normalization, no loss.
pub proof fn law_path_round_trip(frag: Seq<TokenView>, rest: Seq<TokenView>)
    requires
        forall|k: int| 0 <= k < frag.len() ==> frag[k] != TokenView::Punct(','),
    ensures
        s_path(frag + seq![TokenView::Punct(',')] + rest, 0) == Ok::<
            (Seq<TokenView>, int),
            ErrorView,
        >((frag, frag.len() as int)),
{
    let s = frag + seq![TokenView::Punct(',')] + rest;
    assert(s[frag.len() as int] == TokenView::Punct(','));
    assert(forall|k: int| 0 <= k < frag.len() ==> s[k] == frag[k]);
    lemma_find_at(s, 0, frag.len() as int, ',');
    assert(s.subrange(0, frag.len() as int) =~= frag);
}

/// Law (round trip): a captured static declaration, re-assembled as
/// `ty = expr ;` and fed back, yields the same two fragments verbatim.
/// Groups inside either fragment are opaque: only top-level separators
/// count.
pub proof fn law_static_round_trip(ty: Seq<TokenView>, expr: Seq<TokenView>, rest: Seq<TokenView>)
    requires
        ty.len() > 0,
        expr.len() > 0,
        forall|k: int| 0 <= k < ty.len() ==> ty[k] != TokenView::Punct('='),
        forall|k: int| 0 <= k < expr.len() ==> expr[k] != TokenView::Punct(';'),
    ensures
        s_static(ty + seq![TokenView::Punct('=')] + expr + seq![TokenView::Punct(';')] + rest, 0)
            == Ok::<(StaticView, int), ErrorView>(
            (StaticView { expr, ty }, ty.len() as int + expr.len() as int + 2),
        ),
{
    let s = ty + seq![TokenView::Punct('=')] + expr + seq![TokenView::Punct(';')] + rest;
    let j = ty.len() as int;
    let k = ty.len() as int + expr.len() as int + 1;
    assert(s[j] == TokenView::Punct('='));
    assert(s[k as int] == TokenView::Punct(';'));
    assert(forall|m: int| 0 <= m < j ==> s[m] == ty[m]);
    assert(forall|m: int| j + 1 <= m < k ==> s[m] == expr[m - j - 1]);
    lemma_find_at(s, 0, j, '=');
    lemma_find_at(s, j + 1, k as int, ';');
    assert(s.subrange(0, j) =~= ty);
    assert(s.subrange(j + 1, k as int) =~= expr);
}

/// Law: a duplicated top-level field always fails, whatever stood before
/// it or follows it: once a field's slot is filled, meeting its key again
/// is the duplicate-field error, and the walk stops there.
pub proof fn law_duplicate_top_field(
    s: Seq<TokenView>,
    i: int,
    device: Option<Seq<TokenView>>,
    idle: Option<IdleView>,
    init: Option<InitView>,
    resources: Option<Seq<(Seq<char>, StaticView)>>,
    tasks: Option<Seq<(Seq<char>, crate::ast::TaskView)>>,
    key: Seq<char>,
)
    requires
        0 <= i,
        i + 1 < s.len(),
        s[i] == TokenView::Ident(key),
        s[i + 1] == TokenView::Punct(':'),
        (key == "device"@ && device is Some) || (key == "idle"@ && idle is Some) || (key
            == "init"@ && init is Some) || (key == "resources"@ && resources is Some) || (key
            == "tasks"@ && tasks is Some),
    ensures
        s_app_fields(s, i, device, idle, init, resources, tasks) == Err::<
            crate::ast::AppView,
            ErrorView,
        >(ev0(ErrorKindView::DuplicateField(key))),
{
    reveal_strlit("device");
    reveal_strlit("idle");
    reveal_strlit("init");
    reveal_strlit("resources");
    reveal_strlit("tasks");
    assert("device"@.len() == 6);
    assert("idle"@.len() == 4);
    assert("init"@.len() == 4);
    assert("resources"@.len() == 9);
    assert("tasks"@.len() == 5);
    assert("idle"@[1] == 'd');
    assert("init"@[1] == 'n');
    assert("idle"@ != "init"@);
}

/// Law: in an identifier set, a name seen twice always fails with the
/// duplicate-identifier error naming it; two distinct names succeed with
/// exactly those two, in order; the empty set succeeds empty.
pub proof fn law_ident_set(a: Seq<char>, b: Seq<char>)
    ensures
        s_idents_elems(
            seq![
                TokenView::Ident(a),
                TokenView::Punct(','),
                TokenView::Ident(b),
                TokenView::Punct(','),
                TokenView::Ident(a),
            ],
            0,
            Seq::empty(),
        ) == Err::<Seq<Seq<char>>, ErrorView>(ev0(ErrorKindView::DuplicateIdent(a))),
        a != b ==> s_idents_elems(
            seq![TokenView::Ident(a), TokenView::Punct(','), TokenView::Ident(b)],
            0,
            Seq::empty(),
        ) == Ok::<Seq<Seq<char>>, ErrorView>(seq![a, b]),
        s_idents_elems(Seq::empty(), 0, Seq::empty()) == Ok::<Seq<Seq<char>>, ErrorView>(
            Seq::empty(),
        ),
{
    let dup = seq![
        TokenView::Ident(a),
        TokenView::Punct(','),
        TokenView::Ident(b),
        TokenView::Punct(','),
        TokenView::Ident(a),
    ];
    assert(!Seq::<Seq<char>>::empty().contains(a));
    assert(Seq::<Seq<char>>::empty().push(a) =~= seq![a]);
    assert(seq![a].contains(a)) by {
        assert(seq![a][0] == a);
    }
    if a != b {
        assert(!seq![a].contains(b));
        assert(seq![a].push(b) =~= seq![a, b]);
        assert(seq![a, b].contains(a)) by {
            assert(seq![a, b][0] == a);
        }
        assert(s_idents_elems(dup, 4, seq![a, b]) == Err::<Seq<Seq<char>>, ErrorView>(
            ev0(ErrorKindView::DuplicateIdent(a)),
        ));
    } else {
        assert(s_idents_elems(dup, 2, seq![a]) == Err::<Seq<Seq<char>>, ErrorView>(
            ev0(ErrorKindView::DuplicateIdent(a)),
        ));
    }
    let two = seq![TokenView::Ident(a), TokenView::Punct(','), TokenView::Ident(b)];
    if a != b {
        assert(s_idents_elems(two, 2, seq![a]) == Ok::<Seq<Seq<char>>, ErrorView>(seq![a, b]));
    }
}

/// Law: an input holding `device`, `idle { path: ... }` and `init
/// { path: ... }` exactly once parses successfully, and the returned
/// tree's `device`, `idle.path` and `init.path` fragments equal the
/// supplied token runs verbatim; absent `resources` and `tasks` come back
/// as empty maps.
pub proof fn law_minimal_app(dev: Seq<TokenView>, idle_p: Seq<TokenView>, init_p: Seq<TokenView>)
    requires
        forall|k: int| 0 <= k < dev.len() ==> dev[k] != TokenView::Punct(','),
        forall|k: int| 0 <= k < idle_p.len() ==> idle_p[k] != TokenView::Punct(','),
        forall|k: int| 0 <= k < init_p.len() ==> init_p[k] != TokenView::Punct(','),
    ensures
        ({
            let idle_inner = seq![TokenView::Ident("path"@), TokenView::Punct(':')] + idle_p
                + seq![TokenView::Punct(',')];
            let init_inner = seq![TokenView::Ident("path"@), TokenView::Punct(':')] + init_p
                + seq![TokenView::Punct(',')];
            let inner = seq![TokenView::Ident("device"@), TokenView::Punct(':')] + dev + seq![
                TokenView::Punct(','),
                TokenView::Ident("idle"@),
                TokenView::Punct(':'),
                TokenView::Group(Delim::Brace, idle_inner),
                TokenView::Punct(','),
                TokenView::Ident("init"@),
                TokenView::Punct(':'),
                TokenView::Group(Delim::Brace, init_inner),
            ];
            let s = seq![TokenView::Group(Delim::Brace, inner)];
            s_app(s) matches Ok(a) && a.device == dev && a.idle.path == idle_p && a.init.path
                == init_p && a.idle.locals == Seq::<(Seq<char>, StaticView)>::empty()
                && a.idle.resources == Seq::<Seq<char>>::empty() && a.resources == Seq::<
                (Seq<char>, StaticView),
            >::empty() && a.tasks == Seq::<(Seq<char>, crate::ast::TaskView)>::empty()
        }),
{
    reveal_strlit("device");
    reveal_strlit("idle");
    reveal_strlit("init");
    reveal_strlit("path");
    assert("device"@.len() == 6);
    assert("idle"@.len() == 4);
    assert("init"@.len() == 4);
    assert("idle"@[1] == 'd');
    assert("init"@[1] == 'n');
    assert("idle"@ != "init"@);
    let idle_inner = seq![TokenView::Ident("path"@), TokenView::Punct(':')] + idle_p
        + seq![TokenView::Punct(',')];
    let init_inner = seq![TokenView::Ident("path"@), TokenView::Punct(':')] + init_p
        + seq![TokenView::Punct(',')];
    let inner = seq![TokenView::Ident("device"@), TokenView::Punct(':')] + dev + seq![
        TokenView::Punct(','),
        TokenView::Ident("idle"@),
        TokenView::Punct(':'),
        TokenView::Group(Delim::Brace, idle_inner),
        TokenView::Punct(','),
        TokenView::Ident("init"@),
        TokenView::Punct(':'),
        TokenView::Group(Delim::Brace, init_inner),
    ];
    let s = seq![TokenView::Group(Delim::Brace, inner)];
    assert(s_group(s, 0, Delim::Brace) == Ok::<Seq<TokenView>, ErrorView>(inner));

    // the idle sub-parse
    assert(idle_inner[0] == TokenView::Ident("path"@));
    assert(idle_inner[1] == TokenView::Punct(':'));
    assert(forall|k: int| 0 <= k < idle_p.len() ==> idle_inner[k + 2] == idle_p[k]);
    assert(idle_inner[idle_p.len() as int + 2] == TokenView::Punct(','));
    lemma_find_at(idle_inner, 2, idle_p.len() as int + 2, ',');
    assert(idle_inner.subrange(2, idle_p.len() as int + 2) =~= idle_p);
    let iv = IdleView {
        locals: Seq::empty(),
        path: idle_p,
        resources: Seq::empty(),
    };
    assert(s_sep(idle_inner, idle_p.len() as int + 2) == Ok::<int, ErrorView>(idle_p.len() as int + 3));
    assert(s_idle_fields(idle_inner, idle_p.len() as int + 3, None, Some(idle_p), None) == Ok::<
        IdleView,
        ErrorView,
    >(iv));
    assert(s_idle_fields(idle_inner, 0, None, None, None) == Ok::<IdleView, ErrorView>(iv));

    // the init sub-parse
    assert(init_inner[0] == TokenView::Ident("path"@));
    assert(init_inner[1] == TokenView::Punct(':'));
    assert(forall|k: int| 0 <= k < init_p.len() ==> init_inner[k + 2] == init_p[k]);
    assert(init_inner[init_p.len() as int + 2] == TokenView::Punct(','));
    lemma_find_at(init_inner, 2, init_p.len() as int + 2, ',');
    assert(init_inner.subrange(2, init_p.len() as int + 2) =~= init_p);
    let nv = InitView { path: init_p };
    assert(s_sep(init_inner, init_p.len() as int + 2) == Ok::<int, ErrorView>(init_p.len() as int + 3));
    assert(s_init_fields(init_inner, init_p.len() as int + 3, Some(init_p)) == Ok::<
        InitView,
        ErrorView,
    >(nv));
    assert(s_init_fields(init_inner, 0, None) == Ok::<InitView, ErrorView>(nv));

    // the top-level walk
    let n = dev.len() as int;
    assert(inner.len() == n + 10);
    assert(inner[0] == TokenView::Ident("device"@));
    assert(inner[1] == TokenView::Punct(':'));
    assert(forall|k: int| 0 <= k < dev.len() ==> inner[k + 2] == dev[k]);
    assert(inner[n + 2] == TokenView::Punct(','));
    lemma_find_at(inner, 2, n + 2, ',');
    assert(inner.subrange(2, n + 2) =~= dev);
    assert(s_sep(inner, n + 2) == Ok::<int, ErrorView>(n + 3));

    assert(inner[n + 3] == TokenView::Ident("idle"@));
    assert(inner[n + 4] == TokenView::Punct(':'));
    assert(inner[n + 5] == TokenView::Group(Delim::Brace, idle_inner));
    assert(s_group(inner, n + 5, Delim::Brace) == Ok::<Seq<TokenView>, ErrorView>(idle_inner));
    assert(s_idle(inner, n + 5) == Ok::<IdleView, ErrorView>(iv));
    assert(inner[n + 6] == TokenView::Punct(','));
    assert(s_sep(inner, n + 6) == Ok::<int, ErrorView>(n + 7));

    assert(inner[n + 7] == TokenView::Ident("init"@));
    assert(inner[n + 8] == TokenView::Punct(':'));
    assert(inner[n + 9] == TokenView::Group(Delim::Brace, init_inner));
    assert(s_group(inner, n + 9, Delim::Brace) == Ok::<Seq<TokenView>, ErrorView>(init_inner));
    assert(s_init(inner, n + 9) == Ok::<InitView, ErrorView>(nv));
    assert(s_sep(inner, n + 10) == Ok::<int, ErrorView>(n + 10));

    let a = crate::ast::AppView {
        device: dev,
        idle: iv,
        init: nv,
        resources: Seq::empty(),
        tasks: Seq::empty(),
    };
    assert(s_app_fields(inner, n + 10, Some(dev), Some(iv), Some(nv), None, None) == Ok::<
        crate::ast::AppView,
        ErrorView,
    >(a));
    assert(s_app_fields(inner, n + 7, Some(dev), Some(iv), None, None, None) == Ok::<
        crate::ast::AppView,
        ErrorView,
    >(a));
    assert(s_app_fields(inner, n + 3, Some(dev), None, None, None, None) == Ok::<
        crate::ast::AppView,
        ErrorView,
    >(a));
    assert(s_app_fields(inner, 0, None, None, None, None, None) == Ok::<
        crate::ast::AppView,
        ErrorView,
    >(a));
}

} // verus!

