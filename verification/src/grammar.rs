//! The grammar, stated mathematically: one specification function per
//! construct, defined over token views. Each executable parser's contract
//! says that it returns exactly what these functions describe.

use vstd::prelude::*;
use crate::token::Delim;
use crate::token::TokenView;
use crate::ast::AppView;
use crate::ast::IdleView;
use crate::ast::InitView;
use crate::ast::StaticView;
use crate::ast::TaskView;
use crate::ast::map_has_key;
use crate::error::ContextView;
use crate::error::ErrorKindView;
use crate::error::ErrorView;
use crate::error::ev0;
use crate::error::ev_wrap;

verus! {

/// The token at position `i`, if any.
pub open spec fn opt_at(s: Seq<TokenView>, i: int) -> Option<TokenView> {
    if 0 <= i < s.len() {
        Some(s[i])
    } else {
        None
    }
}

/// A boolean literal coerced from one token: anything else is rejected.
pub open spec fn s_bool(t: Option<TokenView>) -> Result<bool, ErrorView> {
    match t {
        Some(TokenView::Literal(crate::token::LitView::Bool(b))) => Ok(b),
        _ => Err(ev0(ErrorKindView::ExpectedBool(t))),
    }
}

/// An unsigned 8-bit integer coerced from one token: the token must be an
/// unsuffixed unsigned integer literal, and its value must be below 256.
pub open spec fn s_u8(t: Option<TokenView>) -> Result<u8, ErrorView> {
    match t {
        Some(TokenView::Literal(crate::token::LitView::Int(n, suffixed))) => if suffixed {
            Err(ev0(ErrorKindView::ExpectedInt(t)))
        } else if n < 256 {
            Ok(n as u8)
        } else {
            Err(ev0(ErrorKindView::OutOfRange(n)))
        },
        _ => Err(ev0(ErrorKindView::ExpectedInt(t))),
    }
}

/// Descent into a delimited group: the token at `i` must be a group of
/// the wanted delimiter kind; its inner sequence is handed back.
pub open spec fn s_group(s: Seq<TokenView>, i: int, want: Delim) -> Result<Seq<TokenView>, ErrorView> {
    match opt_at(s, i) {
        Some(TokenView::Group(found, inner)) => if found == want {
            Ok(inner)
        } else {
            Err(ev0(ErrorKindView::WrongDelim(want, found)))
        },
        _ => Err(ev0(ErrorKindView::ExpectedGroup(want))),
    }
}

/// The first position at or after `i` holding the punctuation `c`.
/// A group mid-scan is one opaque element: its inside is never entered.
pub open spec fn s_find(s: Seq<TokenView>, i: int, c: char) -> Option<int>
    decreases s.len() - i,
{
    if i < 0 || i >= s.len() {
        None
    } else if s[i] == TokenView::Punct(c) {
        Some(i)
    } else {
        s_find(s, i + 1, c)
    }
}

/// Where `s_find` finds `c`, everything before it differs from `c`; where
/// it finds nothing, the whole tail differs from `c`.
pub proof fn lemma_find(s: Seq<TokenView>, i: int, c: char)
    requires
        0 <= i,
    ensures
        s_find(s, i, c) matches Some(j) ==> i <= j < s.len() && s[j] == TokenView::Punct(c)
            && (forall|k: int| i <= k < j ==> s[k] != TokenView::Punct(c)),
        s_find(s, i, c) is None ==> forall|k: int| i <= k < s.len() ==> s[k] != TokenView::Punct(c),
    decreases s.len() - i,
{
    if 0 <= i < s.len() && s[i] != TokenView::Punct(c) {
        lemma_find(s, i + 1, c);
    }
}

/// Where `c` stands at `j` and nowhere between `i` and `j`, the scan
/// from `i` finds exactly `j`.
pub proof fn lemma_find_at(s: Seq<TokenView>, i: int, j: int, c: char)
    requires
        0 <= i <= j < s.len(),
        s[j] == TokenView::Punct(c),
        forall|k: int| i <= k < j ==> s[k] != TokenView::Punct(c),
    ensures
        s_find(s, i, c) == Some(j),
    decreases j - i,
{
    if i < j {
        lemma_find_at(s, i + 1, j, c);
    }
}

/// Where `c` stands nowhere at or after `i`, the scan finds nothing.
pub proof fn lemma_find_none(s: Seq<TokenView>, i: int, c: char)
    requires
        0 <= i,
        forall|k: int| i <= k < s.len() ==> s[k] != TokenView::Punct(c),
    ensures
        s_find(s, i, c) is None,
    decreases s.len() - i,
{
    if i < s.len() {
        lemma_find_none(s, i + 1, c);
    }
}

/// A dotted-path capture: every token up to (not including) the next
/// top-level comma, kept verbatim; the comma must exist and is not
/// consumed. The returned position is the comma's.
pub open spec fn s_path(s: Seq<TokenView>, i: int) -> Result<(Seq<TokenView>, int), ErrorView> {
    match s_find(s, i, ',') {
        Some(j) => Ok((s.subrange(i, j), j)),
        None => Err(ev0(ErrorKindView::ExpectedComma)),
    }
}

/// A single static declaration `ty = expr ;` starting at `i`: the type
/// fragment runs to the first top-level `=`, the initializer fragment to
/// the first top-level `;` after it; both must be non-empty. The returned
/// position is just past the `;`.
pub open spec fn s_static(s: Seq<TokenView>, i: int) -> Result<(StaticView, int), ErrorView> {
    match s_find(s, i, '=') {
        None => Err(ev0(ErrorKindView::ExpectedEq)),
        Some(j) => if j == i {
            Err(ev0(ErrorKindView::MissingType))
        } else {
            match s_find(s, j + 1, ';') {
                None => Err(ev0(ErrorKindView::ExpectedSemi)),
                Some(k) => if k == j + 1 {
                    Err(ev0(ErrorKindView::MissingExpr))
                } else {
                    Ok((StaticView { expr: s.subrange(j + 1, k), ty: s.subrange(i, j) }, k + 1))
                },
            }
        },
    }
}

/// On success a static declaration ends strictly after where it began,
/// and within the sequence.
pub proof fn lemma_static_bounds(s: Seq<TokenView>, i: int)
    requires
        0 <= i,
    ensures
        s_static(s, i) matches Ok(p) ==> i < p.1 <= s.len(),
{
    lemma_find(s, i, '=');
    match s_find(s, i, '=') {
        Some(j) => lemma_find(s, j + 1, ';'),
        None => (),
    }
}

/// The field-list separator after one `key: value` pair: end of the
/// sequence finishes the list; a comma continues it at the next position;
/// anything else is rejected.
pub open spec fn s_sep(s: Seq<TokenView>, j: int) -> Result<int, ErrorView> {
    if j >= s.len() {
        Ok(s.len() as int)
    } else if s[j] == TokenView::Punct(',') {
        Ok(j + 1)
    } else {
        Err(ev0(ErrorKindView::ExpectedComma))
    }
}

/// The elements of a bracketed identifier set: identifiers separated by
/// commas, an optional trailing comma, no identifier twice.
pub open spec fn s_idents_elems(s: Seq<TokenView>, i: int, seen: Seq<Seq<char>>) -> Result<
    Seq<Seq<char>>,
    ErrorView,
>
    decreases s.len() - i,
{
    if i < 0 || i >= s.len() {
        Ok(seen)
    } else {
        match s[i] {
            TokenView::Ident(name) => if seen.contains(name) {
                Err(ev0(ErrorKindView::DuplicateIdent(name)))
            } else if i + 1 >= s.len() {
                Ok(seen.push(name))
            } else if s[i + 1] == TokenView::Punct(',') {
                if i + 2 >= s.len() {
                    Ok(seen.push(name))
                } else {
                    s_idents_elems(s, i + 2, seen.push(name))
                }
            } else {
                Err(ev0(ErrorKindView::ExpectedComma))
            },
            _ => Err(ev0(ErrorKindView::ExpectedIdent)),
        }
    }
}

/// A bracket-delimited identifier set at position `i`.
pub open spec fn s_idents(s: Seq<TokenView>, i: int) -> Result<Seq<Seq<char>>, ErrorView> {
    match s_group(s, i, Delim::Bracket) {
        Ok(inner) => s_idents_elems(inner, 0, Seq::empty()),
        Err(e) => Err(e),
    }
}

/// The entries of a statics map: `name : ty = expr ;` repeated, names
/// distinct; a failed declaration is wrapped with the resource's name.
pub open spec fn s_statics_entries(
    s: Seq<TokenView>,
    i: int,
    acc: Seq<(Seq<char>, StaticView)>,
) -> Result<Seq<(Seq<char>, StaticView)>, ErrorView>
    decreases s.len() - i,
    via s_statics_entries_dec
{
    if i < 0 || i >= s.len() {
        Ok(acc)
    } else {
        match s[i] {
            TokenView::Ident(name) => if map_has_key(acc, name) {
                Err(ev0(ErrorKindView::DuplicateResource(name)))
            } else if i + 1 < s.len() && s[i + 1] == TokenView::Punct(':') {
                match s_static(s, i + 2) {
                    Ok(p) => s_statics_entries(s, p.1, acc.push((name, p.0))),
                    Err(e) => Err(ev_wrap(e, ContextView::Static(name))),
                }
            } else {
                Err(ev0(ErrorKindView::ExpectedColon))
            },
            _ => Err(ev0(ErrorKindView::ExpectedIdent)),
        }
    }
}

#[via_fn]
proof fn s_statics_entries_dec(s: Seq<TokenView>, i: int, acc: Seq<(Seq<char>, StaticView)>) {
    if 0 <= i {
        lemma_static_bounds(s, i + 2);
    }
}

/// A brace-delimited statics map at position `i`.
pub open spec fn s_statics(s: Seq<TokenView>, i: int) -> Result<Seq<(Seq<char>, StaticView)>, ErrorView> {
    match s_group(s, i, Delim::Brace) {
        Ok(inner) => s_statics_entries(inner, 0, Seq::empty()),
        Err(e) => Err(e),
    }
}

/// The field list of one task: `enabled`, `priority` and `resources`, all
/// optional, none twice, nothing else; absent `resources` defaults to the
/// empty set, absent `enabled` and `priority` stay absent.
pub open spec fn s_task_fields(
    s: Seq<TokenView>,
    i: int,
    enabled: Option<bool>,
    priority: Option<u8>,
    resources: Option<Seq<Seq<char>>>,
) -> Result<TaskView, ErrorView>
    decreases s.len() - i,
{
    if i < 0 || i >= s.len() {
        Ok(
            TaskView {
                enabled,
                priority,
                resources: match resources {
                    Some(r) => r,
                    None => Seq::empty(),
                },
            },
        )
    } else {
        match s[i] {
            TokenView::Ident(key) => if !(i + 1 < s.len() && s[i + 1] == TokenView::Punct(':')) {
                Err(ev0(ErrorKindView::ExpectedColon))
            } else if key == "enabled"@ {
                if enabled is Some {
                    Err(ev0(ErrorKindView::DuplicateField(key)))
                } else {
                    match s_bool(opt_at(s, i + 2)) {
                        Ok(b) => match s_sep(s, i + 3) {
                            Ok(n) => s_task_fields(s, n, Some(b), priority, resources),
                            Err(e) => Err(e),
                        },
                        Err(e) => Err(ev_wrap(e, ContextView::Enabled)),
                    }
                }
            } else if key == "priority"@ {
                if priority is Some {
                    Err(ev0(ErrorKindView::DuplicateField(key)))
                } else {
                    match s_u8(opt_at(s, i + 2)) {
                        Ok(p) => match s_sep(s, i + 3) {
                            Ok(n) => s_task_fields(s, n, enabled, Some(p), resources),
                            Err(e) => Err(e),
                        },
                        Err(e) => Err(ev_wrap(e, ContextView::Priority)),
                    }
                }
            } else if key == "resources"@ {
                if resources is Some {
                    Err(ev0(ErrorKindView::DuplicateField(key)))
                } else {
                    match s_idents(s, i + 2) {
                        Ok(ids) => match s_sep(s, i + 3) {
                            Ok(n) => s_task_fields(s, n, enabled, priority, Some(ids)),
                            Err(e) => Err(e),
                        },
                        Err(e) => Err(ev_wrap(e, ContextView::Resources)),
                    }
                }
            } else {
                Err(ev0(ErrorKindView::UnknownField(key)))
            },
            _ => Err(ev0(ErrorKindView::ExpectedIdent)),
        }
    }
}

/// A brace-delimited task at position `i`.
pub open spec fn s_task(s: Seq<TokenView>, i: int) -> Result<TaskView, ErrorView> {
    match s_group(s, i, Delim::Brace) {
        Ok(inner) => s_task_fields(inner, 0, None, None, None),
        Err(e) => Err(e),
    }
}

/// The field list of the tasks map: every key is a task name, each parsed
/// by the task rule, names distinct; a failed task is wrapped with its
/// name.
pub open spec fn s_tasks_fields(
    s: Seq<TokenView>,
    i: int,
    acc: Seq<(Seq<char>, TaskView)>,
) -> Result<Seq<(Seq<char>, TaskView)>, ErrorView>
    decreases s.len() - i,
{
    if i < 0 || i >= s.len() {
        Ok(acc)
    } else {
        match s[i] {
            TokenView::Ident(name) => if !(i + 1 < s.len() && s[i + 1] == TokenView::Punct(':')) {
                Err(ev0(ErrorKindView::ExpectedColon))
            } else if map_has_key(acc, name) {
                Err(ev0(ErrorKindView::DuplicateTask(name)))
            } else {
                match s_task(s, i + 2) {
                    Ok(t) => match s_sep(s, i + 3) {
                        Ok(n) => s_tasks_fields(s, n, acc.push((name, t))),
                        Err(e) => Err(e),
                    },
                    Err(e) => Err(ev_wrap(e, ContextView::Task(name))),
                }
            },
            _ => Err(ev0(ErrorKindView::ExpectedIdent)),
        }
    }
}

/// A brace-delimited tasks map at position `i`.
pub open spec fn s_tasks(s: Seq<TokenView>, i: int) -> Result<Seq<(Seq<char>, TaskView)>, ErrorView> {
    match s_group(s, i, Delim::Brace) {
        Ok(inner) => s_tasks_fields(inner, 0, Seq::empty()),
        Err(e) => Err(e),
    }
}

/// The field list of the idle routine: a mandatory `path`, an optional
/// `locals` statics map, an optional `resources` identifier set.
pub open spec fn s_idle_fields(
    s: Seq<TokenView>,
    i: int,
    locals: Option<Seq<(Seq<char>, StaticView)>>,
    path: Option<Seq<TokenView>>,
    resources: Option<Seq<Seq<char>>>,
) -> Result<IdleView, ErrorView>
    decreases s.len() - i,
    via s_idle_fields_dec
{
    if i < 0 || i >= s.len() {
        match path {
            Some(p) => Ok(
                IdleView {
                    locals: match locals {
                        Some(l) => l,
                        None => Seq::empty(),
                    },
                    path: p,
                    resources: match resources {
                        Some(r) => r,
                        None => Seq::empty(),
                    },
                },
            ),
            None => Err(ev0(ErrorKindView::MissingField("path"@))),
        }
    } else {
        match s[i] {
            TokenView::Ident(key) => if !(i + 1 < s.len() && s[i + 1] == TokenView::Punct(':')) {
                Err(ev0(ErrorKindView::ExpectedColon))
            } else if key == "path"@ {
                if path is Some {
                    Err(ev0(ErrorKindView::DuplicateField(key)))
                } else {
                    match s_path(s, i + 2) {
                        Ok(p) => match s_sep(s, p.1) {
                            Ok(n) => s_idle_fields(s, n, locals, Some(p.0), resources),
                            Err(e) => Err(e),
                        },
                        Err(e) => Err(e),
                    }
                }
            } else if key == "locals"@ {
                if locals is Some {
                    Err(ev0(ErrorKindView::DuplicateField(key)))
                } else {
                    match s_statics(s, i + 2) {
                        Ok(l) => match s_sep(s, i + 3) {
                            Ok(n) => s_idle_fields(s, n, Some(l), path, resources),
                            Err(e) => Err(e),
                        },
                        Err(e) => Err(ev_wrap(e, ContextView::Locals)),
                    }
                }
            } else if key == "resources"@ {
                if resources is Some {
                    Err(ev0(ErrorKindView::DuplicateField(key)))
                } else {
                    match s_idents(s, i + 2) {
                        Ok(ids) => match s_sep(s, i + 3) {
                            Ok(n) => s_idle_fields(s, n, locals, path, Some(ids)),
                            Err(e) => Err(e),
                        },
                        Err(e) => Err(ev_wrap(e, ContextView::Resources)),
                    }
                }
            } else {
                Err(ev0(ErrorKindView::UnknownField(key)))
            },
            _ => Err(ev0(ErrorKindView::ExpectedIdent)),
        }
    }
}

#[via_fn]
proof fn s_idle_fields_dec(
    s: Seq<TokenView>,
    i: int,
    locals: Option<Seq<(Seq<char>, StaticView)>>,
    path: Option<Seq<TokenView>>,
    resources: Option<Seq<Seq<char>>>,
) {
    if 0 <= i {
        lemma_find(s, i + 2, ',');
    }
}

/// A brace-delimited idle routine at position `i`.
pub open spec fn s_idle(s: Seq<TokenView>, i: int) -> Result<IdleView, ErrorView> {
    match s_group(s, i, Delim::Brace) {
        Ok(inner) => s_idle_fields(inner, 0, None, None, None),
        Err(e) => Err(e),
    }
}

/// The field list of the init routine: only a mandatory `path`.
pub open spec fn s_init_fields(s: Seq<TokenView>, i: int, path: Option<Seq<TokenView>>) -> Result<
    InitView,
    ErrorView,
>
    decreases s.len() - i,
    via s_init_fields_dec
{
    if i < 0 || i >= s.len() {
        match path {
            Some(p) => Ok(InitView { path: p }),
            None => Err(ev0(ErrorKindView::MissingField("path"@))),
        }
    } else {
        match s[i] {
            TokenView::Ident(key) => if !(i + 1 < s.len() && s[i + 1] == TokenView::Punct(':')) {
                Err(ev0(ErrorKindView::ExpectedColon))
            } else if key == "path"@ {
                if path is Some {
                    Err(ev0(ErrorKindView::DuplicateField(key)))
                } else {
                    match s_path(s, i + 2) {
                        Ok(p) => match s_sep(s, p.1) {
                            Ok(n) => s_init_fields(s, n, Some(p.0)),
                            Err(e) => Err(e),
                        },
                        Err(e) => Err(e),
                    }
                }
            } else {
                Err(ev0(ErrorKindView::UnknownField(key)))
            },
            _ => Err(ev0(ErrorKindView::ExpectedIdent)),
        }
    }
}

#[via_fn]
proof fn s_init_fields_dec(s: Seq<TokenView>, i: int, path: Option<Seq<TokenView>>) {
    if 0 <= i {
        lemma_find(s, i + 2, ',');
    }
}

/// A brace-delimited init routine at position `i`.
pub open spec fn s_init(s: Seq<TokenView>, i: int) -> Result<InitView, ErrorView> {
    match s_group(s, i, Delim::Brace) {
        Ok(inner) => s_init_fields(inner, 0, None),
        Err(e) => Err(e),
    }
}

/// The top-level field list: `device`, `idle`, `init` mandatory and at
/// most once each; `resources` and `tasks` optional, defaulting to empty
/// maps; nothing else.
pub open spec fn s_app_fields(
    s: Seq<TokenView>,
    i: int,
    device: Option<Seq<TokenView>>,
    idle: Option<IdleView>,
    init: Option<InitView>,
    resources: Option<Seq<(Seq<char>, StaticView)>>,
    tasks: Option<Seq<(Seq<char>, TaskView)>>,
) -> Result<AppView, ErrorView>
    decreases s.len() - i,
    via s_app_fields_dec
{
    if i < 0 || i >= s.len() {
        match device {
            None => Err(ev0(ErrorKindView::MissingField("device"@))),
            Some(d) => match idle {
                None => Err(ev0(ErrorKindView::MissingField("idle"@))),
                Some(idl) => match init {
                    None => Err(ev0(ErrorKindView::MissingField("init"@))),
                    Some(ini) => Ok(
                        AppView {
                            device: d,
                            idle: idl,
                            init: ini,
                            resources: match resources {
                                Some(r) => r,
                                None => Seq::empty(),
                            },
                            tasks: match tasks {
                                Some(t) => t,
                                None => Seq::empty(),
                            },
                        },
                    ),
                },
            },
        }
    } else {
        match s[i] {
            TokenView::Ident(key) => if !(i + 1 < s.len() && s[i + 1] == TokenView::Punct(':')) {
                Err(ev0(ErrorKindView::ExpectedColon))
            } else if key == "device"@ {
                if device is Some {
                    Err(ev0(ErrorKindView::DuplicateField(key)))
                } else {
                    match s_path(s, i + 2) {
                        Ok(p) => match s_sep(s, p.1) {
                            Ok(n) => s_app_fields(s, n, Some(p.0), idle, init, resources, tasks),
                            Err(e) => Err(e),
                        },
                        Err(e) => Err(ev_wrap(e, ContextView::Device)),
                    }
                }
            } else if key == "idle"@ {
                if idle is Some {
                    Err(ev0(ErrorKindView::DuplicateField(key)))
                } else {
                    match s_idle(s, i + 2) {
                        Ok(idl) => match s_sep(s, i + 3) {
                            Ok(n) => s_app_fields(s, n, device, Some(idl), init, resources, tasks),
                            Err(e) => Err(e),
                        },
                        Err(e) => Err(ev_wrap(e, ContextView::Idle)),
                    }
                }
            } else if key == "init"@ {
                if init is Some {
                    Err(ev0(ErrorKindView::DuplicateField(key)))
                } else {
                    match s_init(s, i + 2) {
                        Ok(ini) => match s_sep(s, i + 3) {
                            Ok(n) => s_app_fields(s, n, device, idle, Some(ini), resources, tasks),
                            Err(e) => Err(e),
                        },
                        Err(e) => Err(ev_wrap(e, ContextView::Init)),
                    }
                }
            } else if key == "resources"@ {
                if resources is Some {
                    Err(ev0(ErrorKindView::DuplicateField(key)))
                } else {
                    match s_statics(s, i + 2) {
                        Ok(r) => match s_sep(s, i + 3) {
                            Ok(n) => s_app_fields(s, n, device, idle, init, Some(r), tasks),
                            Err(e) => Err(e),
                        },
                        Err(e) => Err(ev_wrap(e, ContextView::Resources)),
                    }
                }
            } else if key == "tasks"@ {
                if tasks is Some {
                    Err(ev0(ErrorKindView::DuplicateField(key)))
                } else {
                    match s_tasks(s, i + 2) {
                        Ok(t) => match s_sep(s, i + 3) {
                            Ok(n) => s_app_fields(s, n, device, idle, init, resources, Some(t)),
                            Err(e) => Err(e),
                        },
                        Err(e) => Err(ev_wrap(e, ContextView::Tasks)),
                    }
                }
            } else {
                Err(ev0(ErrorKindView::UnknownField(key)))
            },
            _ => Err(ev0(ErrorKindView::ExpectedIdent)),
        }
    }
}

#[via_fn]
proof fn s_app_fields_dec(
    s: Seq<TokenView>,
    i: int,
    device: Option<Seq<TokenView>>,
    idle: Option<IdleView>,
    init: Option<InitView>,
    resources: Option<Seq<(Seq<char>, StaticView)>>,
    tasks: Option<Seq<(Seq<char>, TaskView)>>,
) {
    if 0 <= i {
        lemma_find(s, i + 2, ',');
    }
}

/// The whole configuration: one outermost brace-delimited group holding
/// the top-level field list.
pub open spec fn s_app(s: Seq<TokenView>) -> Result<AppView, ErrorView> {
    match s_group(s, 0, Delim::Brace) {
        Ok(inner) => s_app_fields(inner, 0, None, None, None, None, None),
        Err(e) => Err(e),
    }
}

} // verus!
