//! Entry points: which functions are entry points, the ABI row of each, the
//! check of an L1 handler's parameters, and the record that an expansion fills.
use vstd::prelude::*;
use crate::ast::{
    contains_text, diag_views, extend_diagnostics, has_text, Diagnostic, FunctionDecl,
    FunctionItem, Modifier, Param,
};
use crate::text::text_is;

verus! {

/// The kind of an entry point.
#[derive(PartialEq, Eq, Structural, Clone, Copy, Debug)]
pub enum EntryPointKind {
    External,
    Constructor,
    L1Handler,
}

/// The attribute that marks each kind.
pub open spec fn kind_attr(k: EntryPointKind) -> Seq<char> {
    match k {
        EntryPointKind::External => "external"@,
        EntryPointKind::Constructor => "constructor"@,
        EntryPointKind::L1Handler => "l1_handler"@,
    }
}

/// The kind of entry point that a function's attributes make it, if any;
/// `external` is tried first, then `constructor`, then `l1_handler`.
pub open spec fn classify(attrs: Seq<String>) -> Option<EntryPointKind> {
    if has_text(attrs, "external"@) {
        Some(EntryPointKind::External)
    } else if has_text(attrs, "constructor"@) {
        Some(EntryPointKind::Constructor)
    } else if has_text(attrs, "l1_handler"@) {
        Some(EntryPointKind::L1Handler)
    } else {
        None
    }
}

impl EntryPointKind {
    /// The attribute name of this kind.
    pub fn get_attr(&self) -> (r: &'static str)
        ensures
            r@ == kind_attr(*self),
    {
        match self {
            EntryPointKind::External => "external",
            EntryPointKind::Constructor => "constructor",
            EntryPointKind::L1Handler => "l1_handler",
        }
    }

    /// The kind of entry point that a function is, from its attributes.
    pub fn try_from_function_with_body(f: &FunctionItem) -> (r: Option<EntryPointKind>)
        ensures
            r == classify(f.attrs@),
    {
        if contains_text(&f.attrs, "external") {
            Some(EntryPointKind::External)
        } else if contains_text(&f.attrs, "constructor") {
            Some(EntryPointKind::Constructor)
        } else if contains_text(&f.attrs, "l1_handler") {
            Some(EntryPointKind::L1Handler)
        } else {
            None
        }
    }
}

/// A parameter as values: modifier, name, type.
pub type ParamView = (Modifier, Seq<char>, Seq<char>);

pub open spec fn param_view(p: Param) -> ParamView {
    (p.modifier, p.name@, p.ty@)
}

pub open spec fn param_views(ps: Seq<Param>) -> Seq<ParamView> {
    ps.map_values(|p: Param| param_view(p))
}

/// The parameter as the ABI declares it: a `mut` modifier is dropped.
pub open spec fn abi_param(p: ParamView) -> ParamView {
    if p.0 == Modifier::Mut {
        (Modifier::Plain, p.1, p.2)
    } else {
        p
    }
}

pub open spec fn abi_params(ps: Seq<ParamView>) -> Seq<ParamView> {
    ps.map_values(|p: ParamView| abi_param(p))
}

pub open spec fn modifier_text(m: Modifier) -> Seq<char> {
    match m {
        Modifier::Plain => Seq::empty(),
        Modifier::Ref => "ref "@,
        Modifier::Mut => "mut "@,
    }
}

pub open spec fn param_text(p: ParamView) -> Seq<char> {
    modifier_text(p.0) + p.1 + ": "@ + p.2
}

/// The parameters, separated by `, `.
pub open spec fn params_text(ps: Seq<ParamView>) -> Seq<char>
    decreases ps.len(),
{
    if ps.len() == 0 {
        Seq::empty()
    } else if ps.len() == 1 {
        param_text(ps[0])
    } else {
        params_text(ps.drop_last()) + ", "@ + param_text(ps.last())
    }
}

pub open spec fn generics_text(d: FunctionDecl) -> Seq<char> {
    match d.generic_params {
        Some(g) => g.text@,
        None => Seq::empty(),
    }
}

/// The text of a declaration with the given parameters.
pub open spec fn decl_text(d: FunctionDecl, ps: Seq<ParamView>) -> Seq<char> {
    "fn "@ + d.name@ + generics_text(d) + "("@ + params_text(ps) + ")"@ + d.ret@
}

/// The row of the ABI trait for an entry point: its attribute, then its
/// declaration without `mut` modifiers.
pub open spec fn abi_row(k: EntryPointKind, d: FunctionDecl) -> Seq<char> {
    "#["@ + kind_attr(k) + "]\n        "@ + decl_text(d, abi_params(param_views(d.params@)))
        + ";\n        "@
}

fn modifier_str(m: Modifier) -> (r: &'static str)
    ensures
        r@ == modifier_text(m),
{
    match m {
        Modifier::Plain => {
            proof {
                reveal_strlit("");
            }
            ""
        },
        Modifier::Ref => "ref ",
        Modifier::Mut => "mut ",
    }
}

/// The ABI row of an entry point of kind `k` declared by `d`.
pub fn abi_function_row(k: EntryPointKind, d: &FunctionDecl) -> (r: String)
    ensures
        r@ == abi_row(k, *d),
{
    let ghost ps = abi_params(param_views(d.params@));
    let mut out = String::from_str("#[");
    out.append(k.get_attr());
    out.append("]\n        ");
    out.append("fn ");
    out.append(d.name.as_str());
    match &d.generic_params {
        Some(g) => out.append(g.text.as_str()),
        None => {},
    }
    out.append("(");
    let ghost head = out@;
    let mut i: usize = 0;
    while i < d.params.len()
        invariant
            i <= d.params.len(),
            ps == abi_params(param_views(d.params@)),
            out@ == head + params_text(ps.take(i as int)),
        decreases d.params.len() - i,
    {
        let p = &d.params[i];
        proof {
            assert(ps.take(i as int + 1).drop_last() =~= ps.take(i as int));
            assert(ps.take(i as int + 1).last() == abi_param(param_view(*p)));
            if i == 0 {
                assert(ps.take(i as int + 1)[0] == abi_param(param_view(*p)));
                assert(params_text(ps.take(0)) =~= Seq::<char>::empty());
            }
        }
        let ghost before = out@;
        if i > 0 {
            out.append(", ");
        }
        let m = if p.modifier == Modifier::Mut { Modifier::Plain } else { p.modifier };
        out.append(modifier_str(m));
        out.append(p.name.as_str());
        out.append(": ");
        out.append(p.ty.as_str());
        proof {
            if i == 0 {
                assert(before =~= head);
                assert(out@ =~= head + params_text(ps.take(1)));
            } else {
                assert(out@ =~= head + params_text(ps.take(i as int + 1)));
            }
        }
        i = i + 1;
    }
    proof {
        assert(ps.take(i as int) =~= ps);
    }
    out.append(")");
    out.append(d.ret.as_str());
    out.append(";\n        ");
    proof {
        assert(out@ =~= abi_row(k, *d));
    }
    out
}

/// No row of the ABI trait declares a `mut` parameter.
pub proof fn lemma_abi_has_no_mut(d: FunctionDecl)
    ensures
        forall|i: int|
            0 <= i < d.params.len() ==> #[trigger] abi_params(param_views(d.params@))[i].0
                != Modifier::Mut,
{
}

/// `name` without one leading underscore, if it has one.
pub open spec fn strip_underscore(name: Seq<char>) -> Seq<char> {
    if name.len() > 0 && name[0] == '_' {
        name.drop_first()
    } else {
        name
    }
}

/// The diagnostics of the check of an L1 handler's parameters: the
/// parameter at index 1 (index 0 is the contract state) must exist, be of
/// type `felt252`, and be named `from_address`, with one leading underscore
/// allowed.
pub open spec fn l1_handler_diags(ps: Seq<Param>, params_ptr: u64) -> Seq<(Seq<char>, u64)> {
    if ps.len() < 2 {
        seq![("An L1 handler must have the 'from_address' as its second parameter."@, params_ptr)]
    } else {
        let p = ps[1];
        let ty_diag: Seq<(Seq<char>, u64)> = if p.ty@ == "felt252"@ {
            Seq::empty()
        } else {
            seq![("The second parameter of an L1 handler must be of type `felt252`."@, p.ptr)]
        };
        let name_diag: Seq<(Seq<char>, u64)> = if strip_underscore(p.name@) == "from_address"@ {
            Seq::empty()
        } else {
            seq![("The second parameter of an L1 handler must be named 'from_address'."@, p.ptr)]
        };
        ty_diag + name_diag
    }
}

fn name_is_from_address(name: &String) -> (r: bool)
    ensures
        r == (strip_underscore(name@) == "from_address"@),
{
    let n = name.as_str();
    let len = n.unicode_len();
    if len > 0 && n.get_char(0) == '_' {
        let rest = n.substring_char(1, len);
        proof {
            assert(rest@ =~= name@.drop_first());
        }
        let r = String::from_str(rest);
        text_is(&r, "from_address")
    } else {
        text_is(name, "from_address")
    }
}

/// Checks the parameters of an L1 handler, adding a diagnostic for each
/// rule broken.
pub fn validate_l1_handler_first_parameter(
    params: &Vec<Param>,
    params_ptr: u64,
    diagnostics: &mut Vec<Diagnostic>,
)
    ensures
        diag_views(final(diagnostics)@) == diag_views(old(diagnostics)@) + l1_handler_diags(
            params@,
            params_ptr,
        ),
{
    let ghost before = diag_views(diagnostics@);
    if params.len() >= 2 {
        let p = &params[1];
        if !text_is(&p.ty, "felt252") {
            diagnostics.push(
                Diagnostic::new("The second parameter of an L1 handler must be of type `felt252`.", p.ptr),
            );
        }
        if !name_is_from_address(&p.name) {
            diagnostics.push(
                Diagnostic::new("The second parameter of an L1 handler must be named 'from_address'.", p.ptr),
            );
        }
    } else {
        diagnostics.push(
            Diagnostic::new("An L1 handler must have the 'from_address' as its second parameter.", params_ptr),
        );
    }
    assert(diag_views(diagnostics@) =~= before + l1_handler_diags(params@, params_ptr));
}

/// What one contract expansion has generated so far, as values.
pub struct GenView {
    pub external: Seq<(Seq<char>, u64)>,
    pub constructor: Seq<(Seq<char>, u64)>,
    pub l1_handler: Seq<(Seq<char>, u64)>,
    pub abi_functions: Seq<Seq<char>>,
    pub event_functions: Seq<Seq<char>>,
    pub abi_events: Seq<Seq<char>>,
    pub storage: Option<Seq<char>>,
    pub diags: Seq<(Seq<char>, u64)>,
}

/// The dispatcher wrappers, each with the stable pointer of its function.
pub open spec fn wrapper_views(v: Seq<(String, u64)>) -> Seq<(Seq<char>, u64)> {
    v.map_values(|e: (String, u64)| (e.0@, e.1))
}

/// The record of what one contract expansion generates, in source order.
/// Each dispatcher wrapper is kept with the stable pointer of the function
/// that it calls.
pub struct ContractGenerationData {
    pub generated_external_functions: Vec<(String, u64)>,
    pub generated_constructor_functions: Vec<(String, u64)>,
    pub generated_l1_handler_functions: Vec<(String, u64)>,
    pub abi_functions: Vec<String>,
    pub event_functions: Vec<String>,
    pub abi_events: Vec<String>,
    pub storage_code: Option<String>,
    pub diagnostics: Vec<Diagnostic>,
}

impl View for ContractGenerationData {
    type V = GenView;

    open spec fn view(&self) -> GenView {
        GenView {
            external: wrapper_views(self.generated_external_functions@),
            constructor: wrapper_views(self.generated_constructor_functions@),
            l1_handler: wrapper_views(self.generated_l1_handler_functions@),
            abi_functions: crate::text::views(self.abi_functions@),
            event_functions: crate::text::views(self.event_functions@),
            abi_events: crate::text::views(self.abi_events@),
            storage: match self.storage_code {
                Some(c) => Some(c@),
                None => None,
            },
            diags: diag_views(self.diagnostics@),
        }
    }
}

/// The empty record.
pub open spec fn empty_gen() -> GenView {
    GenView {
        external: Seq::empty(),
        constructor: Seq::empty(),
        l1_handler: Seq::empty(),
        abi_functions: Seq::empty(),
        event_functions: Seq::empty(),
        abi_events: Seq::empty(),
        storage: None,
        diags: Seq::empty(),
    }
}

/// The diagnostic on an entry point with generic parameters, if it has any.
pub open spec fn generic_diags(d: FunctionDecl) -> Seq<(Seq<char>, u64)> {
    match d.generic_params {
        Some(g) => seq![("Contract entry points cannot have generic arguments"@, g.ptr)],
        None => Seq::empty(),
    }
}

/// The separator after each dispatcher wrapper in the text.
pub open spec fn wrapper_sep() -> Seq<char> {
    "\n        "@
}

/// The record after one entry point: its generic-parameter diagnostic, its
/// ABI row, then either its wrapper in the list of its kind (for an L1
/// handler, after the check of its parameters) or the wrapper generator's
/// diagnostics.
pub open spec fn entry_point_step(g: GenView, k: EntryPointKind, f: FunctionItem) -> GenView {
    let g1 = GenView {
        diags: g.diags + generic_diags(f.decl),
        abi_functions: g.abi_functions.push(abi_row(k, f.decl)),
        ..g
    };
    match f.wrapper {
        Ok(w) => match k {
            EntryPointKind::External => GenView {
                external: g1.external.push((w@, f.ptr)),
                ..g1
            },
            EntryPointKind::Constructor => GenView {
                constructor: g1.constructor.push((w@, f.ptr)),
                ..g1
            },
            EntryPointKind::L1Handler => GenView {
                l1_handler: g1.l1_handler.push((w@, f.ptr)),
                diags: g1.diags + l1_handler_diags(f.decl.params@, f.decl.params_ptr),
                ..g1
            },
        },
        Err(ds) => GenView { diags: g1.diags + diag_views(ds@), ..g1 },
    }
}

pub(crate) fn push_text(v: &mut Vec<String>, s: String)
    ensures
        crate::text::views(final(v)@) == crate::text::views(old(v)@).push(s@),
{
    v.push(s);
    assert(crate::text::views(v@) =~= crate::text::views(old(v)@).push(s@));
}

fn push_wrapper(v: &mut Vec<(String, u64)>, w: &String, origin: u64)
    ensures
        wrapper_views(final(v)@) == wrapper_views(old(v)@).push((w@, origin)),
{
    v.push((w.clone(), origin));
    assert(wrapper_views(v@) =~= wrapper_views(old(v)@).push((w@, origin)));
}

impl ContractGenerationData {
    pub fn new() -> (r: ContractGenerationData)
        ensures
            r@ == empty_gen(),
    {
        let r = ContractGenerationData {
            generated_external_functions: Vec::new(),
            generated_constructor_functions: Vec::new(),
            generated_l1_handler_functions: Vec::new(),
            abi_functions: Vec::new(),
            event_functions: Vec::new(),
            abi_events: Vec::new(),
            storage_code: None,
            diagnostics: Vec::new(),
        };
        assert(r@.external =~= Seq::<(Seq<char>, u64)>::empty());
        assert(r@.constructor =~= Seq::<(Seq<char>, u64)>::empty());
        assert(r@.l1_handler =~= Seq::<(Seq<char>, u64)>::empty());
        assert(r@.abi_functions =~= Seq::<Seq<char>>::empty());
        assert(r@.event_functions =~= Seq::<Seq<char>>::empty());
        assert(r@.abi_events =~= Seq::<Seq<char>>::empty());
        assert(r@.diags =~= Seq::<(Seq<char>, u64)>::empty());
        r
    }
}

/// Records an entry point of kind `k`.
pub fn handle_entry_point(k: EntryPointKind, f: &FunctionItem, data: &mut ContractGenerationData)
    ensures
        final(data)@ == entry_point_step(old(data)@, k, *f),
{
    let decl = &f.decl;
    match &decl.generic_params {
        Some(g) => {
            let ghost before = diag_views(data.diagnostics@);
            let d = Diagnostic::new("Contract entry points cannot have generic arguments", g.ptr);
            data.diagnostics.push(d);
            assert(diag_views(data.diagnostics@) =~= before + generic_diags(*decl));
        },
        None => {},
    }
    let row = abi_function_row(k, decl);
    push_text(&mut data.abi_functions, row);
    match &f.wrapper {
        Ok(w) => match k {
            EntryPointKind::External => push_wrapper(&mut data.generated_external_functions, w, f.ptr),
            EntryPointKind::Constructor => push_wrapper(
                &mut data.generated_constructor_functions,
                w,
                f.ptr,
            ),
            EntryPointKind::L1Handler => {
                validate_l1_handler_first_parameter(
                    &decl.params,
                    decl.params_ptr,
                    &mut data.diagnostics,
                );
                push_wrapper(&mut data.generated_l1_handler_functions, w, f.ptr);
            },
        },
        Err(ds) => extend_diagnostics(&mut data.diagnostics, ds),
    }
    assert(data@ == entry_point_step(old(data)@, k, *f));
}

/// Whether `a` is an initial part of `b`.
pub open spec fn starts_with<A>(b: Seq<A>, a: Seq<A>) -> bool {
    a.len() <= b.len() && b.subrange(0, a.len() as int) == a
}

/// An entry point with generic parameters gets, right after the diagnostics
/// recorded before it, the diagnostic on its generic parameter list.
pub proof fn lemma_generic_entry_point_diagnosed(g: GenView, k: EntryPointKind, f: FunctionItem)
    requires
        f.decl.generic_params is Some,
    ensures
        entry_point_step(g, k, f).diags.len() > g.diags.len(),
        entry_point_step(g, k, f).diags[g.diags.len() as int] == (
            "Contract entry points cannot have generic arguments"@,
            f.decl.generic_params->Some_0.ptr,
        ),
{
}

} // verus!
