//! The recursive-descent parsers. Each function's contract ties its
//! result, success and failure alike, to the corresponding grammar rule.

use vstd::prelude::*;
use crate::token::Delim;
use crate::token::Lit;
use crate::token::Token;
use crate::token::TokenView;
use crate::token::copy_token;
use crate::token::lemma_views_of;
use crate::token::views_of;
use crate::ast::App;
use crate::ast::Fragment;
use crate::ast::Idents;
use crate::ast::Idle;
use crate::ast::Init;
use crate::ast::Static;
use crate::ast::Statics;
use crate::ast::Task;
use crate::ast::Tasks;
use crate::ast::map_has_key;
use crate::ast::names_view;
use crate::ast::statics_view;
use crate::ast::tasks_view;
use crate::error::Context;
use crate::error::Error;
use crate::error::ErrorKind;
use crate::error::err0;
use crate::error::string_of;
use crate::error::wrap_err;
use crate::grammar::lemma_find_at;
use crate::grammar::lemma_find_none;
use crate::grammar::s_app;
use crate::grammar::s_app_fields;
use crate::grammar::s_bool;
use crate::grammar::s_find;
use crate::grammar::s_idents;
use crate::grammar::s_idents_elems;
use crate::grammar::s_idle;
use crate::grammar::s_idle_fields;
use crate::grammar::s_init;
use crate::grammar::s_init_fields;
use crate::grammar::s_path;
use crate::grammar::s_sep;
use crate::grammar::s_static;
use crate::grammar::s_statics;
use crate::grammar::s_statics_entries;
use crate::grammar::s_task;
use crate::grammar::s_task_fields;
use crate::grammar::s_tasks;
use crate::grammar::s_tasks_fields;
use crate::grammar::s_u8;

verus! {

broadcast use vstd::std_specs::vec::group_vec_axioms, vstd::seq::group_seq_axioms, crate::token::lemma_views_of;

/// The view of an optional borrowed token.
pub open spec fn opt_tok_view(t: Option<&Token>) -> Option<TokenView> {
    match t {
        Some(tok) => Some(tok@),
        None => None,
    }
}

/// The view of an optional captured fragment.
pub open spec fn opt_frag(o: Option<Fragment>) -> Option<Seq<TokenView>> {
    match o {
        Some(f) => Some(f@),
        None => None,
    }
}

/// The view of an optional idle routine.
pub open spec fn opt_idle(o: Option<Idle>) -> Option<crate::ast::IdleView> {
    match o {
        Some(v) => Some(v@),
        None => None,
    }
}

/// The view of an optional init routine.
pub open spec fn opt_init(o: Option<Init>) -> Option<crate::ast::InitView> {
    match o {
        Some(v) => Some(v@),
        None => None,
    }
}

/// The view of an optional statics map.
pub open spec fn opt_statics(o: Option<Statics>) -> Option<Seq<(Seq<char>, crate::ast::StaticView)>> {
    match o {
        Some(v) => Some(statics_view(v@)),
        None => None,
    }
}

/// The view of an optional tasks map.
pub open spec fn opt_tasks(o: Option<Tasks>) -> Option<Seq<(Seq<char>, crate::ast::TaskView)>> {
    match o {
        Some(v) => Some(tasks_view(v@)),
        None => None,
    }
}

/// The view of an optional identifier set.
pub open spec fn opt_names(o: Option<Idents>) -> Option<Seq<Seq<char>>> {
    match o {
        Some(v) => Some(names_view(v@)),
        None => None,
    }
}

/// Whether two strings hold the same characters; the second is a literal.
fn str_eq(a: &String, lit: &str) -> (r: bool)
    ensures
        r == (a@ == lit@),
{
    let l = string_of(lit);
    a.eq(&l)
}

/// Whether a name already occurs in an identifier set.
fn has_name(names: &Idents, name: &String) -> (r: bool)
    ensures
        r == names_view(names@).contains(name@),
{
    let mut i: usize = 0;
    while i < names.len()
        invariant
            i <= names.len(),
            forall|k: int| 0 <= k < i ==> names@[k]@ != name@,
        decreases names.len() - i,
    {
        if names[i].eq(name) {
            proof {
                assert(names_view(names@)[i as int] == name@);
            }
            return true;
        }
        i = i + 1;
    }
    proof {
        assert forall|k: int| 0 <= k < names_view(names@).len() implies names_view(names@)[k]
            != name@ by {
            assert(names_view(names@)[k] == names@[k]@);
        }
    }
    false
}

/// Whether a resource name already occurs in a statics map.
fn statics_has_key(entries: &Statics, name: &String) -> (r: bool)
    ensures
        r == map_has_key(statics_view(entries@), name@),
{
    let mut i: usize = 0;
    while i < entries.len()
        invariant
            i <= entries.len(),
            forall|k: int| 0 <= k < i ==> entries@[k].0@ != name@,
        decreases entries.len() - i,
    {
        if entries[i].0.eq(name) {
            proof {
                assert(statics_view(entries@)[i as int].0 == name@);
            }
            return true;
        }
        i = i + 1;
    }
    proof {
        assert forall|k: int| 0 <= k < statics_view(entries@).len() implies statics_view(
            entries@,
        )[k].0 != name@ by {
            assert(statics_view(entries@)[k].0 == entries@[k].0@);
        }
    }
    false
}

/// Whether a task name already occurs in a tasks map.
fn tasks_has_key(entries: &Tasks, name: &String) -> (r: bool)
    ensures
        r == map_has_key(tasks_view(entries@), name@),
{
    let mut i: usize = 0;
    while i < entries.len()
        invariant
            i <= entries.len(),
            forall|k: int| 0 <= k < i ==> entries@[k].0@ != name@,
        decreases entries.len() - i,
    {
        if entries[i].0.eq(name) {
            proof {
                assert(tasks_view(entries@)[i as int].0 == name@);
            }
            return true;
        }
        i = i + 1;
    }
    proof {
        assert forall|k: int| 0 <= k < tasks_view(entries@).len() implies tasks_view(entries@)[k].0
            != name@ by {
            assert(tasks_view(entries@)[k].0 == entries@[k].0@);
        }
    }
    false
}

/// A boolean literal coerced from one token.
pub fn bool_lit(t: Option<&Token>) -> (r: Result<bool, Error>)
    ensures
        match (r, s_bool(opt_tok_view(t))) {
            (Ok(b), Ok(mb)) => b == mb,
            (Err(e), Err(me)) => e@ == me,
            _ => false,
        },
{
    match t {
        Some(Token::Literal(Lit::Bool(b))) => Ok(*b),
        _ => {
            let found = match t {
                Some(tok) => Some(copy_token(tok)),
                None => None,
            };
            Err(err0(ErrorKind::ExpectedBool(found)))
        },
    }
}

/// An unsigned 8-bit integer coerced from one token; values of 256 and
/// above are rejected as out of range, suffixed or non-integer literals
/// as not an integer.
pub fn u8_lit(t: Option<&Token>) -> (r: Result<u8, Error>)
    ensures
        match (r, s_u8(opt_tok_view(t))) {
            (Ok(v), Ok(mv)) => v == mv,
            (Err(e), Err(me)) => e@ == me,
            _ => false,
        },
{
    match t {
        Some(Token::Literal(Lit::Int(n, suffixed))) => {
            if *suffixed {
                Err(err0(ErrorKind::ExpectedInt(Some(Token::Literal(Lit::Int(*n, *suffixed))))))
            } else if *n < 256 {
                Ok(*n as u8)
            } else {
                Err(err0(ErrorKind::OutOfRange(*n)))
            }
        },
        _ => {
            let found = match t {
                Some(tok) => Some(copy_token(tok)),
                None => None,
            };
            Err(err0(ErrorKind::ExpectedInt(found)))
        },
    }
}

/// The tokens from `pos` up to the first top-level occurrence of `stop`,
/// copied verbatim, together with the position of `stop` itself; `None`
/// when `stop` does not occur. Groups are stepped over as single units.
fn scan_until(tts: &Vec<Token>, pos: usize, stop: char) -> (r: Option<(Vec<Token>, usize)>)
    ensures
        match (r, s_find(views_of(tts@), pos as int, stop)) {
            (Some(p), Some(j)) => views_of(p.0@) == views_of(tts@).subrange(pos as int, j)
                && p.1 as int == j && pos <= p.1 < tts.len(),
            (None, None) => true,
            _ => false,
        },
{
    proof {
        lemma_views_of(tts@);
    }
    let ghost sv = views_of(tts@);
    if pos >= tts.len() {
        return None;
    }
    let mut frag: Vec<Token> = Vec::new();
    let mut i: usize = pos;
    while i < tts.len()
        invariant
            pos <= i <= tts.len(),
            sv == views_of(tts@),
            sv.len() == tts@.len(),
            forall|k: int| 0 <= k < sv.len() ==> sv[k] == tts@[k]@,
            forall|k: int| pos <= k < i ==> sv[k] != TokenView::Punct(stop),
            views_of(frag@) == sv.subrange(pos as int, i as int),
        decreases tts.len() - i,
    {
        let found = match &tts[i] {
            Token::Punct(c) => *c == stop,
            _ => false,
        };
        if found {
            proof {
                lemma_find_at(sv, pos as int, i as int, stop);
            }
            return Some((frag, i));
        }
        let t = copy_token(&tts[i]);
        let ghost frag_old = frag@;
        frag.push(t);
        i = i + 1;
        proof {
            assert(frag@.drop_last() =~= frag_old);
            assert(views_of(frag@) =~= sv.subrange(pos as int, i as int));
        }
    }
    proof {
        lemma_find_none(sv, pos as int, stop);
    }
    None
}

/// A dotted-path capture: every token up to (not including) the next
/// top-level comma, verbatim; the comma must exist and is not consumed.
pub fn path(tts: &Vec<Token>, pos: usize) -> (r: Result<(Fragment, usize), Error>)
    ensures
        match (r, s_path(views_of(tts@), pos as int)) {
            (Ok(p), Ok(m)) => p.0@ == m.0 && p.1 as int == m.1 && pos <= p.1 < tts.len(),
            (Err(e), Err(me)) => e@ == me,
            _ => false,
        },
{
    match scan_until(tts, pos, ',') {
        Some(p) => Ok((Fragment(p.0), p.1)),
        None => Err(err0(ErrorKind::ExpectedComma)),
    }
}

/// A single static declaration `ty = expr ;`: the type fragment runs to
/// the first top-level `=`, the initializer to the first top-level `;`
/// after it; both must be non-empty. Returns the position just past `;`.
pub fn static_(tts: &Vec<Token>, pos: usize) -> (r: Result<(Static, usize), Error>)
    ensures
        match (r, s_static(views_of(tts@), pos as int)) {
            (Ok(p), Ok(m)) => p.0@ == m.0 && p.1 as int == m.1 && pos < p.1 <= tts.len(),
            (Err(e), Err(me)) => e@ == me,
            _ => false,
        },
{
    proof {
        lemma_views_of(tts@);
    }
    match scan_until(tts, pos, '=') {
        None => Err(err0(ErrorKind::ExpectedEq)),
        Some((ty_toks, j)) => {
            proof {
                lemma_views_of(ty_toks@);
            }
            if ty_toks.len() == 0 {
                return Err(err0(ErrorKind::MissingType));
            }
            match scan_until(tts, j + 1, ';') {
                None => Err(err0(ErrorKind::ExpectedSemi)),
                Some((expr_toks, k)) => {
                    proof {
                        lemma_views_of(expr_toks@);
                    }
                    if expr_toks.len() == 0 {
                        return Err(err0(ErrorKind::MissingExpr));
                    }
                    Ok((Static { expr: Fragment(expr_toks), ty: Fragment(ty_toks) }, k + 1))
                },
            }
        },
    }
}

/// The field-list separator after one `key: value` pair: end of sequence
/// finishes the list, a comma continues it, anything else is rejected.
fn sep(tts: &Vec<Token>, j: usize) -> (r: Result<usize, Error>)
    ensures
        match (r, s_sep(views_of(tts@), j as int)) {
            (Ok(n), Ok(m)) => n as int == m && n <= tts.len(),
            (Err(e), Err(me)) => e@ == me,
            _ => false,
        },
{
    proof {
        lemma_views_of(tts@);
    }
    if j >= tts.len() {
        return Ok(tts.len());
    }
    let comma = match &tts[j] {
        Token::Punct(c) => *c == ',',
        _ => false,
    };
    if comma {
        Ok(j + 1)
    } else {
        Err(err0(ErrorKind::ExpectedComma))
    }
}

/// The elements of a bracketed identifier set: identifiers separated by
/// commas, an optional trailing comma, no identifier twice.
fn idents_elems(tts: &Vec<Token>, pos: usize, seen: Idents) -> (r: Result<Idents, Error>)
    ensures
        match (r, s_idents_elems(views_of(tts@), pos as int, names_view(seen@))) {
            (Ok(v), Ok(m)) => names_view(v@) == m,
            (Err(e), Err(me)) => e@ == me,
            _ => false,
        },
    decreases tts.len() - pos,
{
    proof {
        lemma_views_of(tts@);
    }
    if pos >= tts.len() {
        return Ok(seen);
    }
    match &tts[pos] {
        Token::Ident(name) => {
            if has_name(&seen, name) {
                Err(err0(ErrorKind::DuplicateIdent(name.clone())))
            } else {
                let mut seen2 = seen;
                let ghost seen_old = seen2@;
                seen2.push(name.clone());
                proof {
                    assert(names_view(seen2@) =~= names_view(seen_old).push(name@));
                }
                if pos + 1 >= tts.len() {
                    Ok(seen2)
                } else {
                    let comma = match &tts[pos + 1] {
                        Token::Punct(c) => *c == ',',
                        _ => false,
                    };
                    if comma {
                        if pos + 2 >= tts.len() {
                            Ok(seen2)
                        } else {
                            idents_elems(tts, pos + 2, seen2)
                        }
                    } else {
                        Err(err0(ErrorKind::ExpectedComma))
                    }
                }
            }
        },
        _ => Err(err0(ErrorKind::ExpectedIdent)),
    }
}

/// A bracket-delimited identifier set at `pos` (one token is consumed).
pub fn idents(tts: &Vec<Token>, pos: usize) -> (r: Result<Idents, Error>)
    ensures
        match (r, s_idents(views_of(tts@), pos as int)) {
            (Ok(v), Ok(m)) => names_view(v@) == m,
            (Err(e), Err(me)) => e@ == me,
            _ => false,
        },
{
    proof {
        lemma_views_of(tts@);
    }
    if pos >= tts.len() {
        return Err(err0(ErrorKind::ExpectedGroup(Delim::Bracket)));
    }
    match &tts[pos] {
        Token::Group(d, inner) => {
            if *d == Delim::Bracket {
                proof {
                    assert(names_view(Seq::<String>::empty()) =~= Seq::<Seq<char>>::empty());
                }
                idents_elems(inner, 0, Vec::new())
            } else {
                Err(err0(ErrorKind::WrongDelim(Delim::Bracket, *d)))
            }
        },
        _ => Err(err0(ErrorKind::ExpectedGroup(Delim::Bracket))),
    }
}

/// The entries of a statics map: `name : ty = expr ;` repeated, names
/// distinct; a failing declaration is wrapped with the resource's name.
fn statics_entries(tts: &Vec<Token>, pos: usize, acc: Statics) -> (r: Result<Statics, Error>)
    ensures
        match (r, s_statics_entries(views_of(tts@), pos as int, statics_view(acc@))) {
            (Ok(v), Ok(m)) => statics_view(v@) == m,
            (Err(e), Err(me)) => e@ == me,
            _ => false,
        },
    decreases tts.len() - pos,
{
    proof {
        lemma_views_of(tts@);
    }
    if pos >= tts.len() {
        return Ok(acc);
    }
    match &tts[pos] {
        Token::Ident(name) => {
            if statics_has_key(&acc, name) {
                Err(err0(ErrorKind::DuplicateResource(name.clone())))
            } else {
                let colon = if pos + 1 < tts.len() {
                    match &tts[pos + 1] {
                        Token::Punct(c) => *c == ':',
                        _ => false,
                    }
                } else {
                    false
                };
                if colon {
                    match static_(tts, pos + 2) {
                        Ok((st, j)) => {
                            let mut acc2 = acc;
                            let ghost acc_old = acc2@;
                            let nm = name.clone();
                            acc2.push((nm, st));
                            proof {
                                assert(statics_view(acc2@) =~= statics_view(acc_old).push(
                                    (name@, st@),
                                ));
                            }
                            statics_entries(tts, j, acc2)
                        },
                        Err(e) => Err(wrap_err(e, Context::Static(name.clone()))),
                    }
                } else {
                    Err(err0(ErrorKind::ExpectedColon))
                }
            }
        },
        _ => Err(err0(ErrorKind::ExpectedIdent)),
    }
}

/// A brace-delimited statics map at `pos` (one token is consumed).
pub fn statics(tts: &Vec<Token>, pos: usize) -> (r: Result<Statics, Error>)
    ensures
        match (r, s_statics(views_of(tts@), pos as int)) {
            (Ok(v), Ok(m)) => statics_view(v@) == m,
            (Err(e), Err(me)) => e@ == me,
            _ => false,
        },
{
    proof {
        lemma_views_of(tts@);
    }
    if pos >= tts.len() {
        return Err(err0(ErrorKind::ExpectedGroup(Delim::Brace)));
    }
    match &tts[pos] {
        Token::Group(d, inner) => {
            if *d == Delim::Brace {
                proof {
                    assert(statics_view(Seq::<(String, Static)>::empty()) =~= Seq::<
                        (Seq<char>, crate::ast::StaticView),
                    >::empty());
                }
                statics_entries(inner, 0, Vec::new())
            } else {
                Err(err0(ErrorKind::WrongDelim(Delim::Brace, *d)))
            }
        },
        _ => Err(err0(ErrorKind::ExpectedGroup(Delim::Brace))),
    }
}

/// The field list of one task: `enabled`, `priority`, `resources`, all
/// optional, none twice, nothing else.
fn task_fields(
    tts: &Vec<Token>,
    pos: usize,
    enabled: Option<bool>,
    priority: Option<u8>,
    resources: Option<Idents>,
) -> (r: Result<Task, Error>)
    ensures
        match (r, s_task_fields(views_of(tts@), pos as int, enabled, priority, opt_names(resources))) {
            (Ok(t), Ok(m)) => t@ == m,
            (Err(e), Err(me)) => e@ == me,
            _ => false,
        },
    decreases tts.len() - pos,
{
    proof {
        lemma_views_of(tts@);
    }
    if pos >= tts.len() {
        let t = Task {
            enabled,
            priority,
            resources: match resources {
                Some(r) => r,
                None => Vec::new(),
            },
        };
        proof {
            assert(names_view(Seq::<String>::empty()) =~= Seq::<Seq<char>>::empty());
        }
        return Ok(t);
    }
    match &tts[pos] {
        Token::Ident(key) => {
            let colon = if pos + 1 < tts.len() {
                match &tts[pos + 1] {
                    Token::Punct(c) => *c == ':',
                    _ => false,
                }
            } else {
                false
            };
            if !colon {
                return Err(err0(ErrorKind::ExpectedColon));
            }
            if str_eq(key, "enabled") {
                if enabled.is_some() {
                    return Err(err0(ErrorKind::DuplicateField(key.clone())));
                }
                let vt = if pos + 2 < tts.len() {
                    Some(&tts[pos + 2])
                } else {
                    None
                };
                match bool_lit(vt) {
                    Ok(b) => {
                        proof {
                            assert(pos + 2 < tts.len());
                        }
                        match sep(tts, pos + 3) {
                            Ok(n) => task_fields(tts, n, Some(b), priority, resources),
                            Err(e) => Err(e),
                        }
                    },
                    Err(e) => Err(wrap_err(e, Context::Enabled)),
                }
            } else if str_eq(key, "priority") {
                if priority.is_some() {
                    return Err(err0(ErrorKind::DuplicateField(key.clone())));
                }
                let vt = if pos + 2 < tts.len() {
                    Some(&tts[pos + 2])
                } else {
                    None
                };
                match u8_lit(vt) {
                    Ok(p) => {
                        proof {
                            assert(pos + 2 < tts.len());
                        }
                        match sep(tts, pos + 3) {
                            Ok(n) => task_fields(tts, n, enabled, Some(p), resources),
                            Err(e) => Err(e),
                        }
                    },
                    Err(e) => Err(wrap_err(e, Context::Priority)),
                }
            } else if str_eq(key, "resources") {
                if resources.is_some() {
                    return Err(err0(ErrorKind::DuplicateField(key.clone())));
                }
                match idents(tts, pos + 2) {
                    Ok(ids) => {
                        proof {
                            assert(pos + 2 < tts.len());
                        }
                        match sep(tts, pos + 3) {
                            Ok(n) => task_fields(tts, n, enabled, priority, Some(ids)),
                            Err(e) => Err(e),
                        }
                    },
                    Err(e) => Err(wrap_err(e, Context::Resources)),
                }
            } else {
                Err(err0(ErrorKind::UnknownField(key.clone())))
            }
        },
        _ => Err(err0(ErrorKind::ExpectedIdent)),
    }
}

/// A brace-delimited task at `pos` (one token is consumed).
pub fn task(tts: &Vec<Token>, pos: usize) -> (r: Result<Task, Error>)
    ensures
        match (r, s_task(views_of(tts@), pos as int)) {
            (Ok(t), Ok(m)) => t@ == m,
            (Err(e), Err(me)) => e@ == me,
            _ => false,
        },
{
    proof {
        lemma_views_of(tts@);
    }
    if pos >= tts.len() {
        return Err(err0(ErrorKind::ExpectedGroup(Delim::Brace)));
    }
    match &tts[pos] {
        Token::Group(d, inner) => {
            if *d == Delim::Brace {
                task_fields(inner, 0, None, None, None)
            } else {
                Err(err0(ErrorKind::WrongDelim(Delim::Brace, *d)))
            }
        },
        _ => Err(err0(ErrorKind::ExpectedGroup(Delim::Brace))),
    }
}

/// The field list of the tasks map: every key is a task name, parsed by
/// the task rule; task names must be distinct.
fn tasks_fields(tts: &Vec<Token>, pos: usize, acc: Tasks) -> (r: Result<Tasks, Error>)
    ensures
        match (r, s_tasks_fields(views_of(tts@), pos as int, tasks_view(acc@))) {
            (Ok(v), Ok(m)) => tasks_view(v@) == m,
            (Err(e), Err(me)) => e@ == me,
            _ => false,
        },
    decreases tts.len() - pos,
{
    proof {
        lemma_views_of(tts@);
    }
    if pos >= tts.len() {
        return Ok(acc);
    }
    match &tts[pos] {
        Token::Ident(name) => {
            let colon = if pos + 1 < tts.len() {
                match &tts[pos + 1] {
                    Token::Punct(c) => *c == ':',
                    _ => false,
                }
            } else {
                false
            };
            if !colon {
                return Err(err0(ErrorKind::ExpectedColon));
            }
            if tasks_has_key(&acc, name) {
                return Err(err0(ErrorKind::DuplicateTask(name.clone())));
            }
            match task(tts, pos + 2) {
                Ok(t) => {
                    proof {
                        assert(pos + 2 < tts.len());
                    }
                    match sep(tts, pos + 3) {
                        Ok(n) => {
                            let mut acc2 = acc;
                            let ghost acc_old = acc2@;
                            acc2.push((name.clone(), t));
                            proof {
                                assert(tasks_view(acc2@) =~= tasks_view(acc_old).push(
                                    (name@, t@),
                                ));
                            }
                            tasks_fields(tts, n, acc2)
                        },
                        Err(e) => Err(e),
                    }
                },
                Err(e) => Err(wrap_err(e, Context::Task(name.clone()))),
            }
        },
        _ => Err(err0(ErrorKind::ExpectedIdent)),
    }
}

/// A brace-delimited tasks map at `pos` (one token is consumed).
pub fn tasks(tts: &Vec<Token>, pos: usize) -> (r: Result<Tasks, Error>)
    ensures
        match (r, s_tasks(views_of(tts@), pos as int)) {
            (Ok(v), Ok(m)) => tasks_view(v@) == m,
            (Err(e), Err(me)) => e@ == me,
            _ => false,
        },
{
    proof {
        lemma_views_of(tts@);
    }
    if pos >= tts.len() {
        return Err(err0(ErrorKind::ExpectedGroup(Delim::Brace)));
    }
    match &tts[pos] {
        Token::Group(d, inner) => {
            if *d == Delim::Brace {
                proof {
                    assert(tasks_view(Seq::<(String, Task)>::empty()) =~= Seq::<
                        (Seq<char>, crate::ast::TaskView),
                    >::empty());
                }
                tasks_fields(inner, 0, Vec::new())
            } else {
                Err(err0(ErrorKind::WrongDelim(Delim::Brace, *d)))
            }
        },
        _ => Err(err0(ErrorKind::ExpectedGroup(Delim::Brace))),
    }
}

/// The field list of the idle routine: a mandatory `path`, an optional
/// `locals` statics map, an optional `resources` identifier set.
fn idle_fields(
    tts: &Vec<Token>,
    pos: usize,
    locals: Option<Statics>,
    path_acc: Option<Fragment>,
    resources: Option<Idents>,
) -> (r: Result<Idle, Error>)
    ensures
        match (r, s_idle_fields(
            views_of(tts@),
            pos as int,
            opt_statics(locals),
            opt_frag(path_acc),
            opt_names(resources),
        )) {
            (Ok(v), Ok(m)) => v@ == m,
            (Err(e), Err(me)) => e@ == me,
            _ => false,
        },
    decreases tts.len() - pos,
{
    proof {
        lemma_views_of(tts@);
    }
    if pos >= tts.len() {
        let p = match path_acc {
            Some(p) => p,
            None => {
                return Err(err0(ErrorKind::MissingField(string_of("path"))));
            },
        };
        let v = Idle {
            locals: match locals {
                Some(l) => l,
                None => Vec::new(),
            },
            path: p,
            resources: match resources {
                Some(r) => r,
                None => Vec::new(),
            },
        };
        proof {
            assert(names_view(Seq::<String>::empty()) =~= Seq::<Seq<char>>::empty());
            assert(statics_view(Seq::<(String, Static)>::empty()) =~= Seq::<
                (Seq<char>, crate::ast::StaticView),
            >::empty());
        }
        return Ok(v);
    }
    match &tts[pos] {
        Token::Ident(key) => {
            let colon = if pos + 1 < tts.len() {
                match &tts[pos + 1] {
                    Token::Punct(c) => *c == ':',
                    _ => false,
                }
            } else {
                false
            };
            if !colon {
                return Err(err0(ErrorKind::ExpectedColon));
            }
            if str_eq(key, "path") {
                if path_acc.is_some() {
                    return Err(err0(ErrorKind::DuplicateField(key.clone())));
                }
                match path(tts, pos + 2) {
                    Ok((f, j)) => match sep(tts, j) {
                        Ok(n) => idle_fields(tts, n, locals, Some(f), resources),
                        Err(e) => Err(e),
                    },
                    Err(e) => Err(e),
                }
            } else if str_eq(key, "locals") {
                if locals.is_some() {
                    return Err(err0(ErrorKind::DuplicateField(key.clone())));
                }
                match statics(tts, pos + 2) {
                    Ok(l) => {
                        proof {
                            assert(pos + 2 < tts.len());
                        }
                        match sep(tts, pos + 3) {
                            Ok(n) => idle_fields(tts, n, Some(l), path_acc, resources),
                            Err(e) => Err(e),
                        }
                    },
                    Err(e) => Err(wrap_err(e, Context::Locals)),
                }
            } else if str_eq(key, "resources") {
                if resources.is_some() {
                    return Err(err0(ErrorKind::DuplicateField(key.clone())));
                }
                match idents(tts, pos + 2) {
                    Ok(ids) => {
                        proof {
                            assert(pos + 2 < tts.len());
                        }
                        match sep(tts, pos + 3) {
                            Ok(n) => idle_fields(tts, n, locals, path_acc, Some(ids)),
                            Err(e) => Err(e),
                        }
                    },
                    Err(e) => Err(wrap_err(e, Context::Resources)),
                }
            } else {
                Err(err0(ErrorKind::UnknownField(key.clone())))
            }
        },
        _ => Err(err0(ErrorKind::ExpectedIdent)),
    }
}

/// A brace-delimited idle routine at `pos` (one token is consumed).
pub fn idle(tts: &Vec<Token>, pos: usize) -> (r: Result<Idle, Error>)
    ensures
        match (r, s_idle(views_of(tts@), pos as int)) {
            (Ok(v), Ok(m)) => v@ == m,
            (Err(e), Err(me)) => e@ == me,
            _ => false,
        },
{
    proof {
        lemma_views_of(tts@);
    }
    if pos >= tts.len() {
        return Err(err0(ErrorKind::ExpectedGroup(Delim::Brace)));
    }
    match &tts[pos] {
        Token::Group(d, inner) => {
            if *d == Delim::Brace {
                idle_fields(inner, 0, None, None, None)
            } else {
                Err(err0(ErrorKind::WrongDelim(Delim::Brace, *d)))
            }
        },
        _ => Err(err0(ErrorKind::ExpectedGroup(Delim::Brace))),
    }
}

/// The field list of the init routine: only a mandatory `path`.
fn init_fields(tts: &Vec<Token>, pos: usize, path_acc: Option<Fragment>) -> (r: Result<Init, Error>)
    ensures
        match (r, s_init_fields(views_of(tts@), pos as int, opt_frag(path_acc))) {
            (Ok(v), Ok(m)) => v@ == m,
            (Err(e), Err(me)) => e@ == me,
            _ => false,
        },
    decreases tts.len() - pos,
{
    proof {
        lemma_views_of(tts@);
    }
    if pos >= tts.len() {
        return match path_acc {
            Some(p) => Ok(Init { path: p }),
            None => Err(err0(ErrorKind::MissingField(string_of("path")))),
        };
    }
    match &tts[pos] {
        Token::Ident(key) => {
            let colon = if pos + 1 < tts.len() {
                match &tts[pos + 1] {
                    Token::Punct(c) => *c == ':',
                    _ => false,
                }
            } else {
                false
            };
            if !colon {
                return Err(err0(ErrorKind::ExpectedColon));
            }
            if str_eq(key, "path") {
                if path_acc.is_some() {
                    return Err(err0(ErrorKind::DuplicateField(key.clone())));
                }
                match path(tts, pos + 2) {
                    Ok((f, j)) => match sep(tts, j) {
                        Ok(n) => init_fields(tts, n, Some(f)),
                        Err(e) => Err(e),
                    },
                    Err(e) => Err(e),
                }
            } else {
                Err(err0(ErrorKind::UnknownField(key.clone())))
            }
        },
        _ => Err(err0(ErrorKind::ExpectedIdent)),
    }
}

/// A brace-delimited init routine at `pos` (one token is consumed).
pub fn init(tts: &Vec<Token>, pos: usize) -> (r: Result<Init, Error>)
    ensures
        match (r, s_init(views_of(tts@), pos as int)) {
            (Ok(v), Ok(m)) => v@ == m,
            (Err(e), Err(me)) => e@ == me,
            _ => false,
        },
{
    proof {
        lemma_views_of(tts@);
    }
    if pos >= tts.len() {
        return Err(err0(ErrorKind::ExpectedGroup(Delim::Brace)));
    }
    match &tts[pos] {
        Token::Group(d, inner) => {
            if *d == Delim::Brace {
                init_fields(inner, 0, None)
            } else {
                Err(err0(ErrorKind::WrongDelim(Delim::Brace, *d)))
            }
        },
        _ => Err(err0(ErrorKind::ExpectedGroup(Delim::Brace))),
    }
}

/// The top-level field list: `device`, `idle`, `init` mandatory and at
/// most once each; `resources` and `tasks` optional; nothing else.
fn app_fields(
    tts: &Vec<Token>,
    pos: usize,
    device: Option<Fragment>,
    idle_acc: Option<Idle>,
    init_acc: Option<Init>,
    resources: Option<Statics>,
    tasks_acc: Option<Tasks>,
) -> (r: Result<App, Error>)
    ensures
        match (r, s_app_fields(
            views_of(tts@),
            pos as int,
            opt_frag(device),
            opt_idle(idle_acc),
            opt_init(init_acc),
            opt_statics(resources),
            opt_tasks(tasks_acc),
        )) {
            (Ok(a), Ok(m)) => a@ == m,
            (Err(e), Err(me)) => e@ == me,
            _ => false,
        },
    decreases tts.len() - pos,
{
    proof {
        lemma_views_of(tts@);
    }
    if pos >= tts.len() {
        let d = match device {
            Some(d) => d,
            None => {
                return Err(err0(ErrorKind::MissingField(string_of("device"))));
            },
        };
        let idl = match idle_acc {
            Some(v) => v,
            None => {
                return Err(err0(ErrorKind::MissingField(string_of("idle"))));
            },
        };
        let ini = match init_acc {
            Some(v) => v,
            None => {
                return Err(err0(ErrorKind::MissingField(string_of("init"))));
            },
        };
        let a = App {
            device: d,
            idle: idl,
            init: ini,
            resources: match resources {
                Some(r) => r,
                None => Vec::new(),
            },
            tasks: match tasks_acc {
                Some(t) => t,
                None => Vec::new(),
            },
        };
        proof {
            assert(statics_view(Seq::<(String, Static)>::empty()) =~= Seq::<
                (Seq<char>, crate::ast::StaticView),
            >::empty());
            assert(tasks_view(Seq::<(String, Task)>::empty()) =~= Seq::<
                (Seq<char>, crate::ast::TaskView),
            >::empty());
        }
        return Ok(a);
    }
    match &tts[pos] {
        Token::Ident(key) => {
            let colon = if pos + 1 < tts.len() {
                match &tts[pos + 1] {
                    Token::Punct(c) => *c == ':',
                    _ => false,
                }
            } else {
                false
            };
            if !colon {
                return Err(err0(ErrorKind::ExpectedColon));
            }
            if str_eq(key, "device") {
                if device.is_some() {
                    return Err(err0(ErrorKind::DuplicateField(key.clone())));
                }
                match path(tts, pos + 2) {
                    Ok((f, j)) => match sep(tts, j) {
                        Ok(n) => app_fields(tts, n, Some(f), idle_acc, init_acc, resources, tasks_acc),
                        Err(e) => Err(e),
                    },
                    Err(e) => Err(wrap_err(e, Context::Device)),
                }
            } else if str_eq(key, "idle") {
                if idle_acc.is_some() {
                    return Err(err0(ErrorKind::DuplicateField(key.clone())));
                }
                match idle(tts, pos + 2) {
                    Ok(v) => {
                        proof {
                            assert(pos + 2 < tts.len());
                        }
                        match sep(tts, pos + 3) {
                            Ok(n) => app_fields(tts, n, device, Some(v), init_acc, resources, tasks_acc),
                            Err(e) => Err(e),
                        }
                    },
                    Err(e) => Err(wrap_err(e, Context::Idle)),
                }
            } else if str_eq(key, "init") {
                if init_acc.is_some() {
                    return Err(err0(ErrorKind::DuplicateField(key.clone())));
                }
                match init(tts, pos + 2) {
                    Ok(v) => {
                        proof {
                            assert(pos + 2 < tts.len());
                        }
                        match sep(tts, pos + 3) {
                            Ok(n) => app_fields(tts, n, device, idle_acc, Some(v), resources, tasks_acc),
                            Err(e) => Err(e),
                        }
                    },
                    Err(e) => Err(wrap_err(e, Context::Init)),
                }
            } else if str_eq(key, "resources") {
                if resources.is_some() {
                    return Err(err0(ErrorKind::DuplicateField(key.clone())));
                }
                match statics(tts, pos + 2) {
                    Ok(v) => {
                        proof {
                            assert(pos + 2 < tts.len());
                        }
                        match sep(tts, pos + 3) {
                            Ok(n) => app_fields(tts, n, device, idle_acc, init_acc, Some(v), tasks_acc),
                            Err(e) => Err(e),
                        }
                    },
                    Err(e) => Err(wrap_err(e, Context::Resources)),
                }
            } else if str_eq(key, "tasks") {
                if tasks_acc.is_some() {
                    return Err(err0(ErrorKind::DuplicateField(key.clone())));
                }
                match tasks(tts, pos + 2) {
                    Ok(v) => {
                        proof {
                            assert(pos + 2 < tts.len());
                        }
                        match sep(tts, pos + 3) {
                            Ok(n) => app_fields(tts, n, device, idle_acc, init_acc, resources, Some(v)),
                            Err(e) => Err(e),
                        }
                    },
                    Err(e) => Err(wrap_err(e, Context::Tasks)),
                }
            } else {
                Err(err0(ErrorKind::UnknownField(key.clone())))
            }
        },
        _ => Err(err0(ErrorKind::ExpectedIdent)),
    }
}

/// The top-level entry point: one outermost brace-delimited group holding
/// the field list of the whole application description. On success the
/// returned tree holds exactly the captured fragments, maps and sets that
/// the grammar describes; on failure, the structured error with its
/// context chain.
pub fn app(tokens: &Vec<Token>) -> (r: Result<App, Error>)
    ensures
        match (r, s_app(views_of(tokens@))) {
            (Ok(a), Ok(m)) => a@ == m,
            (Err(e), Err(me)) => e@ == me,
            _ => false,
        },
{
    proof {
        lemma_views_of(tokens@);
    }
    if tokens.len() == 0 {
        return Err(err0(ErrorKind::ExpectedGroup(Delim::Brace)));
    }
    match &tokens[0] {
        Token::Group(d, inner) => {
            if *d == Delim::Brace {
                app_fields(inner, 0, None, None, None, None, None)
            } else {
                Err(err0(ErrorKind::WrongDelim(Delim::Brace, *d)))
            }
        },
        _ => Err(err0(ErrorKind::ExpectedGroup(Delim::Brace))),
    }
}

} // verus!
