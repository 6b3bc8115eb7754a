//! The syntax of a contract module, held as plain values.
//!
//! Each node that a diagnostic can point at carries a stable pointer: a
//! number that identifies the node in its syntax tree.
use vstd::prelude::*;

verus! {

/// A message attached to a node of the syntax tree.
pub struct Diagnostic {
    pub message: String,
    pub ptr: u64,
}

impl View for Diagnostic {
    type V = (Seq<char>, u64);

    open spec fn view(&self) -> (Seq<char>, u64) {
        (self.message@, self.ptr)
    }
}

/// The views of a sequence of diagnostics.
pub open spec fn diag_views(s: Seq<Diagnostic>) -> Seq<(Seq<char>, u64)> {
    s.map_values(|d: Diagnostic| d@)
}

impl Diagnostic {
    pub fn new(message: &str, ptr: u64) -> (r: Diagnostic)
        ensures
            r@ == (message@, ptr),
    {
        Diagnostic { message: String::from_str(message), ptr }
    }

    pub fn duplicate(&self) -> (r: Diagnostic)
        ensures
            r@ == self@,
    {
        Diagnostic { message: self.message.clone(), ptr: self.ptr }
    }
}

/// Appends copies of `extra` to `diags`.
pub fn extend_diagnostics(diags: &mut Vec<Diagnostic>, extra: &Vec<Diagnostic>)
    ensures
        diag_views(final(diags)@) == diag_views(old(diags)@) + diag_views(extra@),
{
    let mut i: usize = 0;
    while i < extra.len()
        invariant
            i <= extra.len(),
            diag_views(diags@) == diag_views(old(diags)@) + diag_views(extra@.take(i as int)),
        decreases extra.len() - i,
    {
        let d = extra[i].duplicate();
        let ghost before = diags@;
        diags.push(d);
        proof {
            assert(extra@.take(i as int + 1) =~= extra@.take(i as int).push(extra@[i as int]));
            assert(diag_views(diags@) =~= diag_views(before).push(d@));
            assert(diag_views(extra@.take(i as int + 1)) =~= diag_views(extra@.take(i as int)).push(
                extra@[i as int]@,
            ));
            assert(diag_views(diags@) =~= diag_views(old(diags)@) + diag_views(
                extra@.take(i as int + 1),
            ));
        }
        i = i + 1;
    }
    proof {
        assert(extra@.take(i as int) =~= extra@);
    }
}

/// Whether one of the strings is `name` (an attribute, a leaf of a path).
pub open spec fn has_text(attrs: Seq<String>, name: Seq<char>) -> bool {
    exists|i: int| 0 <= i < attrs.len() && #[trigger] attrs[i]@ == name
}

/// Tests whether one of the strings is `name`.
pub fn contains_text(attrs: &Vec<String>, name: &str) -> (r: bool)
    ensures
        r == has_text(attrs@, name@),
{
    let mut i: usize = 0;
    while i < attrs.len()
        invariant
            i <= attrs.len(),
            forall|j: int| 0 <= j < i ==> attrs@[j]@ != name@,
        decreases attrs.len() - i,
    {
        if crate::text::text_is(&attrs[i], name) {
            return true;
        }
        i = i + 1;
    }
    false
}

/// The modifier written before a parameter's name.
#[derive(PartialEq, Eq, Structural, Clone, Copy, Debug)]
pub enum Modifier {
    Plain,
    Ref,
    Mut,
}

/// A parameter of a function: `[ref|mut] name: ty`.
pub struct Param {
    pub ptr: u64,
    pub modifier: Modifier,
    pub name: String,
    pub ty: String,
}

/// The generic parameter list of a function, `<...>`, as written.
pub struct GenericParams {
    pub ptr: u64,
    pub text: String,
}

/// A function declaration: `fn name<generics>(params) ret`, where `ret` is
/// the text after the parameter list (the return type clause and the
/// implicits), without surrounding trivia.
pub struct FunctionDecl {
    pub name: String,
    pub generic_params: Option<GenericParams>,
    pub params: Vec<Param>,
    pub params_ptr: u64,
    pub ret: String,
}

/// The outcome of the event lowering of an `#[event]` function: the
/// emission function and the ABI row, when present, and its diagnostics.
pub struct EventLowering {
    pub code: Option<(String, String)>,
    pub diagnostics: Vec<Diagnostic>,
}

/// A function with a body, at module level or inside an impl.
///
/// `wrapper` is what the entry-point wrapper generator produced for this
/// function under its qualified name (see `qualified_name`): the wrapper's
/// code, or its diagnostics. `event` is what the event lowering produced for
/// it; it is read only for `#[event]` functions.
pub struct FunctionItem {
    pub ptr: u64,
    pub attrs: Vec<String>,
    pub decl: FunctionDecl,
    pub wrapper: Result<String, Vec<Diagnostic>>,
    pub event: EventLowering,
}

/// An item that has a name and attributes.
pub struct NamedItem {
    pub ptr: u64,
    pub name: String,
    pub attrs: Vec<String>,
}

/// A `use` item, with the identifiers that its path binds (the leaves of a
/// grouped path such as `a::{b, c::d}` are `b` and `d`).
pub struct UseItem {
    pub ptr: u64,
    pub leaves: Vec<String>,
}

/// An `impl` item; `body` holds the functions of its body, if it has one.
pub struct ImplItem {
    pub ptr: u64,
    pub name: String,
    pub attrs: Vec<String>,
    pub body: Option<Vec<FunctionItem>>,
}

/// An item of a module body.
pub enum Item {
    Constant(NamedItem),
    Module(NamedItem),
    Use(UseItem),
    Impl(ImplItem),
    ImplAlias(NamedItem),
    Struct(NamedItem),
    Enum(NamedItem),
    TypeAlias(NamedItem),
    ExternFunction(u64),
    ExternType(u64),
    Trait(u64),
    FreeFunction(FunctionItem),
    Missing(u64),
}

/// A module item. `body_ptr` points at the body, or at the `;` of a module
/// without one.
pub struct ModuleAst {
    pub ptr: u64,
    pub name: String,
    pub attrs: Vec<String>,
    pub body: Option<Vec<Item>>,
    pub body_ptr: u64,
}

} // verus!
