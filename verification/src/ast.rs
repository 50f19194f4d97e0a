//! The abstract syntax tree produced by a successful parse, with the
//! mathematical views that the parsers' contracts are stated over.

use vstd::prelude::*;
use crate::token::Token;
use crate::token::TokenView;
use crate::token::views_of;

verus! {

/// An opaque captured token run (a device path, a routine path, a type
/// expression, or an initializer expression). The run is kept verbatim:
/// the parser never interprets its contents.
pub struct Fragment(pub Vec<Token>);

impl View for Fragment {
    type V = Seq<TokenView>;

    open spec fn view(&self) -> Seq<TokenView> {
        views_of(self.0@)
    }
}

/// A named, statically allocated piece of storage: a type expression and
/// an initializer expression, both mandatory and non-empty.
pub struct Static {
    pub expr: Fragment,
    pub ty: Fragment,
}

/// The view of a `Static`.
pub struct StaticView {
    pub expr: Seq<TokenView>,
    pub ty: Seq<TokenView>,
}

impl View for Static {
    type V = StaticView;

    open spec fn view(&self) -> StaticView {
        StaticView { expr: self.expr@, ty: self.ty@ }
    }
}

/// The initialization routine: only its path.
pub struct Init {
    pub path: Fragment,
}

/// The view of an `Init`.
pub struct InitView {
    pub path: Seq<TokenView>,
}

impl View for Init {
    type V = InitView;

    open spec fn view(&self) -> InitView {
        InitView { path: self.path@ }
    }
}

/// A set of identifiers, kept in first-seen order; no name appears twice.
pub type Idents = Vec<String>;

/// A mapping from resource name to `Static`, in first-seen order; no key
/// appears twice.
pub type Statics = Vec<(String, Static)>;

/// A mapping from task name to `Task`, in first-seen order; no key
/// appears twice.
pub type Tasks = Vec<(String, Task)>;

/// The view of an identifier set: the names as character sequences.
pub open spec fn names_view(names: Seq<String>) -> Seq<Seq<char>> {
    Seq::new(names.len(), |i: int| names[i]@)
}

/// The view of a statics map.
pub open spec fn statics_view(entries: Seq<(String, Static)>) -> Seq<(Seq<char>, StaticView)> {
    Seq::new(entries.len(), |i: int| (entries[i].0@, entries[i].1@))
}

/// One task: an optional enabled flag, an optional priority in `[0, 255]`,
/// and the set of resource names the task may access.
pub struct Task {
    pub enabled: Option<bool>,
    pub priority: Option<u8>,
    pub resources: Idents,
}

/// The view of a `Task`.
pub struct TaskView {
    pub enabled: Option<bool>,
    pub priority: Option<u8>,
    pub resources: Seq<Seq<char>>,
}

impl View for Task {
    type V = TaskView;

    open spec fn view(&self) -> TaskView {
        TaskView {
            enabled: self.enabled,
            priority: self.priority,
            resources: names_view(self.resources@),
        }
    }
}

/// The view of a tasks map.
pub open spec fn tasks_view(entries: Seq<(String, Task)>) -> Seq<(Seq<char>, TaskView)> {
    Seq::new(entries.len(), |i: int| (entries[i].0@, entries[i].1@))
}

/// The idle routine: its path (mandatory), its local statics, and the
/// set of resource names it may access.
pub struct Idle {
    pub locals: Statics,
    pub path: Fragment,
    pub resources: Idents,
}

/// The view of an `Idle`.
pub struct IdleView {
    pub locals: Seq<(Seq<char>, StaticView)>,
    pub path: Seq<TokenView>,
    pub resources: Seq<Seq<char>>,
}

impl View for Idle {
    type V = IdleView;

    open spec fn view(&self) -> IdleView {
        IdleView {
            locals: statics_view(self.locals@),
            path: self.path@,
            resources: names_view(self.resources@),
        }
    }
}

/// The root artifact: the parsed application description.
pub struct App {
    pub device: Fragment,
    pub idle: Idle,
    pub init: Init,
    pub resources: Statics,
    pub tasks: Tasks,
}

/// The view of an `App`.
pub struct AppView {
    pub device: Seq<TokenView>,
    pub idle: IdleView,
    pub init: InitView,
    pub resources: Seq<(Seq<char>, StaticView)>,
    pub tasks: Seq<(Seq<char>, TaskView)>,
}

impl View for App {
    type V = AppView;

    open spec fn view(&self) -> AppView {
        AppView {
            device: self.device@,
            idle: self.idle@,
            init: self.init@,
            resources: statics_view(self.resources@),
            tasks: tasks_view(self.tasks@),
        }
    }
}

/// Whether a key occurs among the entries of a map view.
pub open spec fn map_has_key<V>(entries: Seq<(Seq<char>, V)>, name: Seq<char>) -> bool {
    exists|i: int| 0 <= i < entries.len() && entries[i].0 == name
}

} // verus!
