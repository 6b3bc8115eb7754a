//! Contract modules: the check of the `contract` attribute and the `Storage`
//! struct, the scan of the module body, and the text of the module that
//! replaces it.
use vstd::prelude::*;
use crate::ast::{
    contains_text, diag_views, extend_diagnostics, has_text, Diagnostic, FunctionItem, ImplItem,
    Item, ModuleAst,
};
use crate::entry_point::{
    classify, empty_gen, entry_point_step, handle_entry_point, ContractGenerationData,
    starts_with, wrapper_views, EntryPointKind, GenView,
};
use crate::text::{concat_all, join_all, text_is, views};
use crate::uses::{collect_uses, module_uses, uses_text};

verus! {

/// An entry of a patch map: the characters `start..end` of a generated
/// text come from the syntax node `origin`.
pub struct Patch {
    pub start: usize,
    pub end: usize,
    pub origin: u64,
}

impl View for Patch {
    type V = PatchView;

    open spec fn view(&self) -> PatchView {
        (self.start as int, self.end as int, self.origin)
    }
}

pub open spec fn patch_views(s: Seq<Patch>) -> Seq<PatchView> {
    s.map_values(|p: Patch| p@)
}

/// A generated file: its name, its code, its patch map, and the names of
/// the contracts that it defines.
pub struct GeneratedFile {
    pub name: String,
    pub content: String,
    pub patches: Vec<Patch>,
    pub contracts: Vec<String>,
}

/// The result of expanding one item: the generated code, if any, the
/// diagnostics, and whether the original item is to be removed.
pub struct PluginResult {
    pub code: Option<GeneratedFile>,
    pub diagnostics: Vec<Diagnostic>,
    pub remove_original_item: bool,
}

/// What the storage expander produced for the `Storage` struct.
pub struct StorageExpansion {
    pub code: String,
    pub diagnostics: Vec<Diagnostic>,
}

/// Whether the item is a struct named `name`.
pub open spec fn is_struct_named(item: Item, name: Seq<char>) -> bool {
    match item {
        Item::Struct(n) => n.name@ == name,
        _ => false,
    }
}

/// The index of the first `Storage` struct of a body, if any.
pub open spec fn first_storage(items: Seq<Item>) -> Option<int> {
    if exists|i: int| 0 <= i < items.len() && is_struct_named(#[trigger] items[i], "Storage"@) {
        Some(
            choose|i: int|
                0 <= i < items.len() && is_struct_named(#[trigger] items[i], "Storage"@) && forall|
                    j: int,
                | 0 <= j < i ==> !is_struct_named(#[trigger] items[j], "Storage"@),
        )
    } else {
        None
    }
}

/// The structural problem of a contract module, if it has one: no body, no
/// `Storage` struct, or a `Storage` struct without `#[starknet::storage]`.
pub open spec fn gate_error(m: ModuleAst) -> Option<Seq<char>> {
    match m.body {
        None => Some("Contracts without body are not supported."@),
        Some(items) => match first_storage(items@) {
            None => Some("Contracts must define a 'Storage' struct."@),
            Some(i) => match items@[i] {
                Item::Struct(s) => if has_text(s.attrs@, "starknet::storage"@) {
                    None
                } else {
                    Some("'Storage' struct must be annotated with #[starknet::storage]."@)
                },
                _ => None,
            },
        },
    }
}

fn find_storage(items: &Vec<Item>) -> (r: Option<usize>)
    ensures
        r matches Some(i) ==> i < items@.len() && first_storage(items@) == Some(i as int),
        r is None ==> first_storage(items@) is None,
{
    let mut i: usize = 0;
    while i < items.len()
        invariant
            i <= items.len(),
            forall|j: int| 0 <= j < i ==> !is_struct_named(#[trigger] items@[j], "Storage"@),
        decreases items.len() - i,
    {
        let found = match &items[i] {
            Item::Struct(n) => text_is(&n.name, "Storage"),
            _ => false,
        };
        if found {
            assert(is_struct_named(items@[i as int], "Storage"@));
            let ghost k = first_storage(items@)->Some_0;
            assert(k == i as int) by {
                if k < i as int {
                    assert(!is_struct_named(items@[k], "Storage"@));
                }
                if k > i as int {
                    assert(is_struct_named(items@[i as int], "Storage"@));
                }
            }
            return Some(i);
        }
        i = i + 1;
    }
    None
}

fn no_code(message: &str, ptr: u64) -> (r: PluginResult)
    ensures
        r.code is None,
        !r.remove_original_item,
        diag_views(r.diagnostics@) == seq![(message@, ptr)],
{
    let mut diagnostics = Vec::new();
    diagnostics.push(Diagnostic::new(message, ptr));
    assert(diag_views(diagnostics@) =~= seq![(message@, ptr)]);
    PluginResult { code: None, diagnostics, remove_original_item: false }
}

/// Finds the structural problem of a contract module, if it has one.
fn structural_error(m: &ModuleAst) -> (r: Option<&'static str>)
    ensures
        r matches Some(msg) ==> gate_error(*m) == Some(msg@),
        r is None ==> gate_error(*m) is None,
{
    match &m.body {
        None => Some("Contracts without body are not supported."),
        Some(items) => match find_storage(items) {
            None => Some("Contracts must define a 'Storage' struct."),
            Some(i) => {
                let ok = match &items[i] {
                    Item::Struct(s) => contains_text(&s.attrs, "starknet::storage"),
                    _ => true,
                };
                if ok {
                    None
                } else {
                    Some("'Storage' struct must be annotated with #[starknet::storage].")
                }
            },
        },
    }
}

/// Checks a module item: a module without the `contract` attribute gives
/// nothing; a contract module with a structural problem gives one diagnostic
/// on the module and no code; a sound one gives nothing here (its code comes
/// from `handle_contract_by_storage`).
pub fn handle_module(module_ast: &ModuleAst) -> (r: PluginResult)
    ensures
        r.code is None,
        !r.remove_original_item,
        !has_text(module_ast.attrs@, "contract"@) ==> r.diagnostics@.len() == 0,
        has_text(module_ast.attrs@, "contract"@) ==> match gate_error(*module_ast) {
            None => r.diagnostics@.len() == 0,
            Some(msg) => diag_views(r.diagnostics@) == seq![(msg, module_ast.ptr)],
        },
{
    if !contains_text(&module_ast.attrs, "contract") {
        return PluginResult { code: None, diagnostics: Vec::new(), remove_original_item: false };
    }
    match structural_error(module_ast) {
        Some(msg) => no_code(msg, module_ast.ptr),
        None => PluginResult { code: None, diagnostics: Vec::new(), remove_original_item: false },
    }
}

/// The record after the functions of an `#[external]` impl, each an
/// external entry point.
pub open spec fn impl_fns_step(g: GenView, fs: Seq<FunctionItem>) -> GenView
    decreases fs.len(),
{
    if fs.len() == 0 {
        g
    } else {
        entry_point_step(impl_fns_step(g, fs.drop_last()), EntryPointKind::External, fs.last())
    }
}

/// The record after an `#[event]` function: its lowered code, if any, and
/// the lowering's diagnostics.
pub open spec fn event_step(g: GenView, f: FunctionItem) -> GenView {
    let g1 = match f.event.code {
        Some(c) => GenView {
            event_functions: g.event_functions.push(c.0@),
            abi_events: g.abi_events.push(c.1@),
            ..g
        },
        None => g,
    };
    GenView { diags: g1.diags + diag_views(f.event.diagnostics@), ..g1 }
}

/// The record after one item of the body. Only the first `Storage` struct
/// takes the storage expansion.
pub open spec fn item_step(g: GenView, item: Item, st: StorageExpansion) -> GenView {
    match item {
        Item::FreeFunction(f) => if has_text(f.attrs@, "event"@) {
            event_step(g, f)
        } else {
            match classify(f.attrs@) {
                Some(k) => entry_point_step(g, k, f),
                None => g,
            }
        },
        Item::Impl(i) => if has_text(i.attrs@, "external"@) {
            match i.body {
                Some(fs) => impl_fns_step(g, fs@),
                None => g,
            }
        } else {
            g
        },
        Item::Struct(n) => if n.name@ == "Storage"@ && g.storage is None {
            GenView {
                storage: Some(st.code@),
                diags: g.diags + diag_views(st.diagnostics@),
                ..g
            }
        } else {
            g
        },
        _ => g,
    }
}

/// The record after the items, in order.
pub open spec fn scan(items: Seq<Item>, st: StorageExpansion) -> GenView
    decreases items.len(),
{
    if items.len() == 0 {
        empty_gen()
    } else {
        item_step(scan(items.drop_last(), st), items.last(), st)
    }
}

/// The dispatcher wrappers in the text, each followed by the separator.
pub open spec fn wrappers_text(ws: Seq<(Seq<char>, u64)>) -> Seq<char>
    decreases ws.len(),
{
    if ws.len() == 0 {
        Seq::empty()
    } else {
        wrappers_text(ws.drop_last()) + ws.last().0 + crate::entry_point::wrapper_sep()
    }
}

/// A patch as values: the span `[start, end)` of the text, in characters,
/// and the stable pointer of the node that it comes from.
pub type PatchView = (int, int, u64);

/// The patches of dispatcher wrappers written from offset `base` on: one
/// per wrapper, over the wrapper's own text, pointing at its function.
pub open spec fn wrapper_patches(base: int, ws: Seq<(Seq<char>, u64)>) -> Seq<PatchView>
    decreases ws.len(),
{
    if ws.len() == 0 {
        Seq::empty()
    } else {
        let start = base + wrappers_text(ws.drop_last()).len();
        wrapper_patches(base, ws.drop_last()).push((start, start + ws.last().0.len(), ws.last().1))
    }
}

/// The module text up to the external dispatchers: the class hash, the
/// storage code, the event functions, the ABI trait, and the opening of the
/// external submodule with the use lines.
pub open spec fn before_external(hash: Seq<char>, g: GenView, uses: Seq<char>) -> Seq<char> {
    let storage = match g.storage {
        Some(c) => c,
        None => Seq::empty(),
    };
    "use starknet::SyscallResultTrait;\nuse starknet::SyscallResultTraitImpl;\n\nconst TEST_CLASS_HASH: felt252 = "@
        + hash + ";\n"@ + storage + "\n\n"@ + concat_all(g.event_functions)
        + "\n\ntrait __abi<Storage> {\n    "@ + concat_all(g.abi_functions) + "\n    "@
        + concat_all(g.abi_events) + "\n}\n\nmod __external {"@ + uses + "\n\n    "@
}

/// The module text up to the L1-handler dispatchers.
pub open spec fn before_l1_handler(hash: Seq<char>, g: GenView, uses: Seq<char>) -> Seq<char> {
    before_external(hash, g, uses) + wrappers_text(g.external) + "\n}\n\nmod __l1_handler {"@
        + uses + "\n\n    "@
}

/// The module text up to the constructor dispatchers.
pub open spec fn before_constructor(hash: Seq<char>, g: GenView, uses: Seq<char>) -> Seq<char> {
    before_l1_handler(hash, g, uses) + wrappers_text(g.l1_handler) + "\n}\n\nmod __constructor {"@
        + uses + "\n\n    "@
}

/// The text of the module that replaces the contract: the class hash, the
/// storage code, the event functions, the ABI trait, and the three
/// dispatcher submodules, each opening with the use lines.
pub open spec fn contract_code(hash: Seq<char>, g: GenView, uses: Seq<char>) -> Seq<char> {
    before_constructor(hash, g, uses) + wrappers_text(g.constructor) + "\n}\n"@
}

/// The patch map of that text: each dispatcher wrapper maps back to its
/// function.
pub open spec fn contract_patches(hash: Seq<char>, g: GenView, uses: Seq<char>) -> Seq<PatchView> {
    wrapper_patches(before_external(hash, g, uses).len() as int, g.external) + wrapper_patches(
        before_l1_handler(hash, g, uses).len() as int,
        g.l1_handler,
    ) + wrapper_patches(before_constructor(hash, g, uses).len() as int, g.constructor)
}

/// Whether the body defines or imports an `Event`: a struct or an enum of
/// that name, or a `use` that binds it.
pub open spec fn has_event(items: Seq<Item>) -> bool {
    exists|i: int| 0 <= i < items.len() && #[trigger] binds_event(items[i])
}

pub open spec fn binds_event(item: Item) -> bool {
    match item {
        Item::Struct(n) => n.name@ == "Event"@,
        Item::Enum(n) => n.name@ == "Event"@,
        Item::Use(u) => has_text(u.leaves@, "Event"@),
        _ => false,
    }
}

fn item_binds_event(item: &Item) -> (r: bool)
    ensures
        r == binds_event(*item),
{
    match item {
        Item::Struct(n) => text_is(&n.name, "Event"),
        Item::Enum(n) => text_is(&n.name, "Event"),
        Item::Use(u) => crate::ast::contains_text(&u.leaves, "Event"),
        _ => false,
    }
}

/// Whether the contract body defines or imports an `Event`; the storage
/// expander is told so.
pub fn contract_has_event(items: &Vec<Item>) -> (r: bool)
    ensures
        r == has_event(items@),
{
    let mut i: usize = 0;
    while i < items.len()
        invariant
            i <= items.len(),
            forall|k: int| 0 <= k < i ==> !binds_event(#[trigger] items@[k]),
        decreases items.len() - i,
    {
        if item_binds_event(&items[i]) {
            return true;
        }
        i = i + 1;
    }
    false
}

/// The use lines that open each generated submodule; the storage expander
/// gets them too.
pub fn extra_uses_text(items: &Vec<Item>) -> (r: String)
    ensures
        r@ == uses_text(module_uses(items@)),
{
    collect_uses(items).to_text()
}

/// The name under which the wrapper of a function of an impl calls it:
/// `<impl>::<function>`.
pub fn qualified_name(impl_name: &String, fn_name: &String) -> (r: String)
    ensures
        r@ == impl_name@ + "::"@ + fn_name@,
{
    let mut r = impl_name.clone();
    r.append("::");
    r.append(fn_name.as_str());
    r
}

fn handle_event(f: &FunctionItem, data: &mut ContractGenerationData)
    ensures
        final(data)@ == event_step(old(data)@, *f),
{
    match &f.event.code {
        Some(c) => {
            crate::entry_point::push_text(&mut data.event_functions, c.0.clone());
            crate::entry_point::push_text(&mut data.abi_events, c.1.clone());
        },
        None => {},
    }
    extend_diagnostics(&mut data.diagnostics, &f.event.diagnostics);
}

fn handle_external_impl(i: &ImplItem, data: &mut ContractGenerationData)
    requires
        i.body is Some,
    ensures
        final(data)@ == impl_fns_step(old(data)@, i.body->Some_0@),
{
    match &i.body {
        Some(fs) => {
            let mut j: usize = 0;
            while j < fs.len()
                invariant
                    j <= fs.len(),
                    data@ == impl_fns_step(old(data)@, fs@.take(j as int)),
                decreases fs.len() - j,
            {
                proof {
                    assert(fs@.take(j as int + 1).drop_last() =~= fs@.take(j as int));
                }
                handle_entry_point(EntryPointKind::External, &fs[j], data);
                j = j + 1;
            }
            proof {
                assert(fs@.take(j as int) =~= fs@);
            }
        },
        None => {},
    }
}

fn handle_item(item: &Item, storage: &StorageExpansion, data: &mut ContractGenerationData)
    ensures
        final(data)@ == item_step(old(data)@, *item, *storage),
{
    match item {
        Item::FreeFunction(f) => {
            if contains_text(&f.attrs, "event") {
                handle_event(f, data);
            } else {
                match EntryPointKind::try_from_function_with_body(f) {
                    Some(k) => handle_entry_point(k, f, data),
                    None => {},
                }
            }
        },
        Item::Impl(i) => {
            if contains_text(&i.attrs, "external") && i.body.is_some() {
                handle_external_impl(i, data);
            }
        },
        Item::Struct(n) => {
            if text_is(&n.name, "Storage") && data.storage_code.is_none() {
                data.storage_code = Some(storage.code.clone());
                extend_diagnostics(&mut data.diagnostics, &storage.diagnostics);
            }
        },
        _ => {},
    }
}

/// Scans the body, in order.
pub fn scan_items(items: &Vec<Item>, storage: &StorageExpansion) -> (r: ContractGenerationData)
    ensures
        r@ == scan(items@, *storage),
{
    let mut data = ContractGenerationData::new();
    let mut i: usize = 0;
    while i < items.len()
        invariant
            i <= items.len(),
            data@ == scan(items@.take(i as int), *storage),
        decreases items.len() - i,
    {
        proof {
            assert(items@.take(i as int + 1).drop_last() =~= items@.take(i as int));
        }
        handle_item(&items[i], storage, &mut data);
        i = i + 1;
    }
    proof {
        assert(items@.take(i as int) =~= items@);
    }
    data
}

fn render_wrappers(out: &mut String, ws: &Vec<(String, u64)>, patches: &mut Vec<Patch>)
    ensures
        final(out)@ == old(out)@ + wrappers_text(wrapper_views(ws@)),
        patch_views(final(patches)@) == patch_views(old(patches)@) + wrapper_patches(
            old(out)@.len() as int,
            wrapper_views(ws@),
        ),
{
    let ghost wv = wrapper_views(ws@);
    let ghost base = out@.len() as int;
    let mut i: usize = 0;
    while i < ws.len()
        invariant
            i <= ws.len(),
            wv == wrapper_views(ws@),
            base == old(out)@.len(),
            out@ == old(out)@ + wrappers_text(wv.take(i as int)),
            patch_views(patches@) == patch_views(old(patches)@) + wrapper_patches(
                base,
                wv.take(i as int),
            ),
        decreases ws.len() - i,
    {
        proof {
            assert(wv.take(i as int + 1).drop_last() =~= wv.take(i as int));
        }
        let w = &ws[i];
        let start = out.as_str().unicode_len();
        out.append(w.0.as_str());
        let end = out.as_str().unicode_len();
        let ghost before = patches@;
        patches.push(Patch { start, end, origin: w.1 });
        out.append("\n        ");
        proof {
            assert(patch_views(patches@) =~= patch_views(before).push((start as int, end as int, w.1)));
            assert(patch_views(patches@) =~= patch_views(old(patches)@) + wrapper_patches(
                base,
                wv.take(i as int + 1),
            ));
            assert(out@ =~= old(out)@ + wrappers_text(wv.take(i as int + 1)));
        }
        i = i + 1;
    }
    proof {
        assert(wv.take(i as int) =~= wv);
    }
}

/// Renders the module that replaces the contract from the record, the
/// class hash and the use lines, with its patch map.
pub fn render_contract(hash: &str, data: &ContractGenerationData, uses: &String) -> (r: (
    String,
    Vec<Patch>,
))
    ensures
        r.0@ == contract_code(hash@, data@, uses@),
        patch_views(r.1@) == contract_patches(hash@, data@, uses@),
{
    let mut out = String::from_str(
        "use starknet::SyscallResultTrait;\nuse starknet::SyscallResultTraitImpl;\n\nconst TEST_CLASS_HASH: felt252 = ",
    );
    out.append(hash);
    out.append(";\n");
    match &data.storage_code {
        Some(c) => out.append(c.as_str()),
        None => {
            proof {
                assert(out@ + Seq::<char>::empty() =~= out@);
            }
        },
    }
    out.append("\n\n");
    out.append(join_all(&data.event_functions).as_str());
    out.append("\n\ntrait __abi<Storage> {\n    ");
    out.append(join_all(&data.abi_functions).as_str());
    out.append("\n    ");
    out.append(join_all(&data.abi_events).as_str());
    out.append("\n}\n\nmod __external {");
    out.append(uses.as_str());
    out.append("\n\n    ");
    assert(out@ == before_external(hash@, data@, uses@));
    let mut patches: Vec<Patch> = Vec::new();
    let ghost p0 = patch_views(patches@);
    assert(p0 =~= Seq::<PatchView>::empty());
    render_wrappers(&mut out, &data.generated_external_functions, &mut patches);
    out.append("\n}\n\nmod __l1_handler {");
    out.append(uses.as_str());
    out.append("\n\n    ");
    assert(out@ == before_l1_handler(hash@, data@, uses@));
    render_wrappers(&mut out, &data.generated_l1_handler_functions, &mut patches);
    out.append("\n}\n\nmod __constructor {");
    out.append(uses.as_str());
    out.append("\n\n    ");
    assert(out@ == before_constructor(hash@, data@, uses@));
    render_wrappers(&mut out, &data.generated_constructor_functions, &mut patches);
    out.append("\n}\n");
    proof {
        assert(patch_views(patches@) =~= contract_patches(hash@, data@, uses@));
    }
    (out, patches)
}

/// The result on a contract module without a body.
pub open spec fn no_body_result(res: PluginResult, body_ptr: u64) -> bool {
    &&& res.code is None
    &&& !res.remove_original_item
    &&& diag_views(res.diagnostics@) == seq![
        ("Contracts without body are not supported."@, body_ptr),
    ]
}

/// The result on a contract module with a body: the generated file named
/// `contract` with the module rendered from the scan of the body, the
/// diagnostics of the scan, and the removal of the original module.
pub open spec fn expansion_result(
    res: PluginResult,
    items: Seq<Item>,
    st: StorageExpansion,
    hash: Seq<char>,
    name: Seq<char>,
) -> bool {
    &&& res.remove_original_item
    &&& diag_views(res.diagnostics@) == scan(items, st).diags
    &&& res.code is Some
    &&& res.code->Some_0.name@ == "contract"@
    &&& res.code->Some_0.content@ == contract_code(
        hash,
        scan(items, st),
        uses_text(module_uses(items)),
    )
    &&& patch_views(res.code->Some_0.patches@) == contract_patches(
        hash,
        scan(items, st),
        uses_text(module_uses(items)),
    )
    &&& views(res.code->Some_0.contracts@) == seq![name]
}

/// Expands a contract module, reached from its `Storage` struct.
/// `enclosing` is the module that directly holds the struct, if any;
/// `storage` is what the storage expander produced for the struct, given the
/// use lines and the event flag of the body (`extra_uses_text`,
/// `contract_has_event`); `test_class_hash` is the field literal of the
/// StarkNet-Keccak digest of the module's text without trivia.
///
/// Nothing comes out unless the enclosing module has the `contract`
/// attribute. A module without a body gives one diagnostic on its missing
/// body. One without a `Storage` struct, or whose first `Storage` struct
/// lacks `#[starknet::storage]`, gives nothing here: `handle_module`
/// reports it. Otherwise the result is the generated module, with the
/// diagnostics gathered from the body in order, and the original module is
/// to be removed.
pub fn handle_contract_by_storage(
    enclosing: Option<&ModuleAst>,
    storage: &StorageExpansion,
    test_class_hash: &str,
) -> (r: Option<PluginResult>)
    ensures
        match enclosing {
            None => r is None,
            Some(m) => if !has_text(m.attrs@, "contract"@) {
                r is None
            } else {
                match m.body {
                    None => r is Some && no_body_result(r->Some_0, m.body_ptr),
                    Some(items) => if gate_error(*m) is Some {
                        r is None
                    } else {
                        r is Some && expansion_result(
                            r->Some_0,
                            items@,
                            *storage,
                            test_class_hash@,
                            m.name@,
                        )
                    },
                }
            },
        },
{
    let m = match enclosing {
        Some(m) => m,
        None => return None,
    };
    if !contains_text(&m.attrs, "contract") {
        return None;
    }
    let items = match &m.body {
        Some(items) => items,
        None => return Some(no_code("Contracts without body are not supported.", m.body_ptr)),
    };
    if structural_error(m).is_some() {
        return None;
    }
    let uses = extra_uses_text(items);
    let data = scan_items(items, storage);
    let (content, patches) = render_contract(test_class_hash, &data, &uses);
    let mut contracts = Vec::new();
    contracts.push(m.name.clone());
    assert(views(contracts@) =~= seq![m.name@]);
    let ContractGenerationData { diagnostics, .. } = data;
    Some(
        PluginResult {
            code: Some(GeneratedFile { name: String::from_str("contract"), content, patches, contracts }),
            diagnostics,
            remove_original_item: true,
        },
    )
}

/// `g2` holds everything that `g1` holds, with more possibly after it.
pub open spec fn extends(g2: GenView, g1: GenView) -> bool {
    &&& starts_with(g2.external, g1.external)
    &&& starts_with(g2.constructor, g1.constructor)
    &&& starts_with(g2.l1_handler, g1.l1_handler)
    &&& starts_with(g2.abi_functions, g1.abi_functions)
    &&& starts_with(g2.diags, g1.diags)
}

proof fn lemma_starts_with_push<A>(a: Seq<A>, x: A)
    ensures
        starts_with(a.push(x), a),
{
    assert(a.push(x).subrange(0, a.len() as int) =~= a);
}

proof fn lemma_starts_with_concat<A>(a: Seq<A>, b: Seq<A>)
    ensures
        starts_with(a + b, a),
{
    assert((a + b).subrange(0, a.len() as int) =~= a);
}

proof fn lemma_starts_with_refl<A>(a: Seq<A>)
    ensures
        starts_with(a, a),
{
    assert(a.subrange(0, a.len() as int) =~= a);
}

proof fn lemma_starts_with_trans<A>(c: Seq<A>, b: Seq<A>, a: Seq<A>)
    requires
        starts_with(c, b),
        starts_with(b, a),
    ensures
        starts_with(c, a),
{
    assert(c.subrange(0, a.len() as int) =~= b.subrange(0, a.len() as int));
}

proof fn lemma_extends_refl(g: GenView)
    ensures
        extends(g, g),
{
    lemma_starts_with_refl(g.external);
    lemma_starts_with_refl(g.constructor);
    lemma_starts_with_refl(g.l1_handler);
    lemma_starts_with_refl(g.abi_functions);
    lemma_starts_with_refl(g.diags);
}

proof fn lemma_extends_trans(g3: GenView, g2: GenView, g1: GenView)
    requires
        extends(g3, g2),
        extends(g2, g1),
    ensures
        extends(g3, g1),
{
    lemma_starts_with_trans(g3.external, g2.external, g1.external);
    lemma_starts_with_trans(g3.constructor, g2.constructor, g1.constructor);
    lemma_starts_with_trans(g3.l1_handler, g2.l1_handler, g1.l1_handler);
    lemma_starts_with_trans(g3.abi_functions, g2.abi_functions, g1.abi_functions);
    lemma_starts_with_trans(g3.diags, g2.diags, g1.diags);
}

proof fn lemma_entry_point_extends(g: GenView, k: EntryPointKind, f: FunctionItem)
    ensures
        extends(entry_point_step(g, k, f), g),
{
    let g2 = entry_point_step(g, k, f);
    lemma_starts_with_concat(g.diags, generic_diags_of(f));
    lemma_starts_with_push(g.abi_functions, crate::entry_point::abi_row(k, f.decl));
    let d1 = g.diags + generic_diags_of(f);
    lemma_starts_with_refl(g.external);
    lemma_starts_with_refl(g.constructor);
    lemma_starts_with_refl(g.l1_handler);
    lemma_starts_with_push(g.external, (f.wrapper->Ok_0@, f.ptr));
    lemma_starts_with_push(g.constructor, (f.wrapper->Ok_0@, f.ptr));
    lemma_starts_with_push(g.l1_handler, (f.wrapper->Ok_0@, f.ptr));
    lemma_starts_with_concat(d1, crate::entry_point::l1_handler_diags(f.decl.params@, f.decl.params_ptr));
    lemma_starts_with_trans(d1 + crate::entry_point::l1_handler_diags(f.decl.params@, f.decl.params_ptr), d1, g.diags);
    match f.wrapper {
        Err(ds) => {
            lemma_starts_with_concat(d1, diag_views(ds@));
            lemma_starts_with_trans(d1 + diag_views(ds@), d1, g.diags);
        },
        _ => {},
    }
}

spec fn generic_diags_of(f: FunctionItem) -> Seq<(Seq<char>, u64)> {
    crate::entry_point::generic_diags(f.decl)
}

proof fn lemma_impl_fns_extends(g: GenView, fs: Seq<FunctionItem>)
    ensures
        extends(impl_fns_step(g, fs), g),
    decreases fs.len(),
{
    if fs.len() == 0 {
        lemma_extends_refl(g);
    } else {
        let g1 = impl_fns_step(g, fs.drop_last());
        lemma_impl_fns_extends(g, fs.drop_last());
        lemma_entry_point_extends(g1, EntryPointKind::External, fs.last());
        lemma_extends_trans(impl_fns_step(g, fs), g1, g);
    }
}

proof fn lemma_item_extends(g: GenView, item: Item, st: StorageExpansion)
    ensures
        extends(item_step(g, item, st), g),
{
    lemma_extends_refl(g);
    match item {
        Item::FreeFunction(f) => {
            if has_text(f.attrs@, "event"@) {
                let g1 = match f.event.code {
                    Some(c) => GenView {
                        event_functions: g.event_functions.push(c.0@),
                        abi_events: g.abi_events.push(c.1@),
                        ..g
                    },
                    None => g,
                };
                lemma_starts_with_concat(g1.diags, diag_views(f.event.diagnostics@));
            } else {
                match classify(f.attrs@) {
                    Some(k) => lemma_entry_point_extends(g, k, f),
                    None => {},
                }
            }
        },
        Item::Impl(i) => {
            match i.body {
                Some(fs) => lemma_impl_fns_extends(g, fs@),
                None => {},
            }
        },
        Item::Struct(n) => {
            lemma_starts_with_concat(g.diags, diag_views(st.diagnostics@));
        },
        _ => {},
    }
}

/// The scan of a body made of `s` then `t` starts from the scan of `s`.
proof fn lemma_scan_append(s: Seq<Item>, t: Seq<Item>, st: StorageExpansion)
    ensures
        extends(scan(s + t, st), scan(s, st)),
    decreases t.len(),
{
    if t.len() == 0 {
        assert(s + t =~= s);
        lemma_extends_refl(scan(s, st));
    } else {
        assert((s + t).drop_last() =~= s + t.drop_last());
        lemma_scan_append(s, t.drop_last(), st);
        lemma_item_extends(scan(s + t.drop_last(), st), t.last(), st);
        lemma_extends_trans(scan(s + t, st), scan(s + t.drop_last(), st), scan(s, st));
    }
}

/// Source order is kept: the dispatcher wrappers of each kind, the ABI rows
/// and the diagnostics of a body's first items come first, in the same
/// order, whatever items follow.
pub proof fn lemma_scan_keeps_source_order(s: Seq<Item>, t: Seq<Item>, st: StorageExpansion)
    ensures
        starts_with(scan(s + t, st).external, scan(s, st).external),
        starts_with(scan(s + t, st).constructor, scan(s, st).constructor),
        starts_with(scan(s + t, st).l1_handler, scan(s, st).l1_handler),
        starts_with(scan(s + t, st).abi_functions, scan(s, st).abi_functions),
        starts_with(scan(s + t, st).diags, scan(s, st).diags),
{
    lemma_scan_append(s, t, st);
}

/// An entry point of a contract body that has generic parameters gives the
/// diagnostic on its generic parameter list.
pub proof fn lemma_generic_entry_point_reported(items: Seq<Item>, i: int, st: StorageExpansion)
    requires
        0 <= i < items.len(),
        items[i] matches Item::FreeFunction(f) && !has_text(f.attrs@, "event"@) && classify(
            f.attrs@,
        ) is Some && f.decl.generic_params is Some,
    ensures
        exists|j: int|
            0 <= j < scan(items, st).diags.len() && #[trigger] scan(items, st).diags[j] == (
                "Contract entry points cannot have generic arguments"@,
                items[i]->FreeFunction_0.decl.generic_params->Some_0.ptr,
            ),
{
    let f = items[i]->FreeFunction_0;
    let s = items.take(i + 1);
    let t = items.skip(i + 1);
    assert(s + t =~= items);
    assert(s.drop_last() =~= items.take(i));
    let g0 = scan(items.take(i), st);
    crate::entry_point::lemma_generic_entry_point_diagnosed(g0, classify(f.attrs@)->Some_0, f);
    lemma_scan_append(s, t, st);
    let n = g0.diags.len() as int;
    assert(scan(items, st).diags.subrange(0, scan(s, st).diags.len() as int) == scan(s, st).diags);
    assert(scan(items, st).diags[n] == scan(s, st).diags[n]);
}

proof fn lemma_impl_fns_append(g: GenView, a: Seq<FunctionItem>, b: Seq<FunctionItem>)
    ensures
        impl_fns_step(g, a + b) == impl_fns_step(impl_fns_step(g, a), b),
    decreases b.len(),
{
    if b.len() == 0 {
        assert(a + b =~= a);
    } else {
        assert((a + b).drop_last() =~= a + b.drop_last());
        lemma_impl_fns_append(g, a, b.drop_last());
    }
}

/// A function of an `#[external]` impl that has generic parameters gives the
/// diagnostic on its generic parameter list.
pub proof fn lemma_generic_impl_function_reported(
    items: Seq<Item>,
    i: int,
    j: int,
    st: StorageExpansion,
)
    requires
        0 <= i < items.len(),
        items[i] matches Item::Impl(imp) && has_text(imp.attrs@, "external"@) && imp.body is Some
            && 0 <= j < imp.body->Some_0@.len()
            && imp.body->Some_0@[j].decl.generic_params is Some,
    ensures
        exists|k: int|
            0 <= k < scan(items, st).diags.len() && #[trigger] scan(items, st).diags[k] == (
                "Contract entry points cannot have generic arguments"@,
                items[i]->Impl_0.body->Some_0@[j].decl.generic_params->Some_0.ptr,
            ),
{
    let fs = items[i]->Impl_0.body->Some_0@;
    let f = fs[j];
    let g0 = scan(items.take(i), st);
    let fa = fs.take(j + 1);
    let fb = fs.skip(j + 1);
    assert(fa + fb =~= fs);
    assert(fa.drop_last() =~= fs.take(j));
    let h = impl_fns_step(g0, fs.take(j));
    crate::entry_point::lemma_generic_entry_point_diagnosed(h, EntryPointKind::External, f);
    let n = h.diags.len() as int;
    lemma_impl_fns_append(g0, fa, fb);
    lemma_impl_fns_extends(impl_fns_step(g0, fa), fb);
    let g1 = impl_fns_step(g0, fs);
    assert(g1.diags.subrange(0, impl_fns_step(g0, fa).diags.len() as int) == impl_fns_step(g0, fa).diags);
    assert(g1.diags[n] == impl_fns_step(g0, fa).diags[n]);
    let s = items.take(i + 1);
    let t = items.skip(i + 1);
    assert(s + t =~= items);
    assert(s.drop_last() =~= items.take(i));
    assert(scan(s, st) == g1);
    lemma_scan_append(s, t, st);
    assert(scan(items, st).diags.subrange(0, g1.diags.len() as int) == g1.diags);
    assert(scan(items, st).diags[n] == g1.diags[n]);
}

} // verus!
