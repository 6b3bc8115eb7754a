//! The use-set: the `use` lines that the generated submodules need so that
//! they resolve names from the contract module. It maps identifiers to paths,
//! keeps the order of insertion, and the first insertion of a key wins.
use vstd::prelude::*;
use crate::ast::{Item, NamedItem};
use crate::text::text_is;
use cairo_lang_utils::ordered_hash_map::OrderedHashMap;

verus! {

/// An entry of the use-set: identifier, path.
pub type UseEntry = (Seq<char>, Seq<char>);

/// Whether some entry has key `k`.
pub open spec fn has_key(u: Seq<UseEntry>, k: Seq<char>) -> bool {
    exists|i: int| 0 <= i < u.len() && #[trigger] u[i].0 == k
}

/// No key occurs twice.
pub open spec fn keys_unique(u: Seq<UseEntry>) -> bool {
    forall|i: int, j: int| 0 <= i < j < u.len() ==> u[i].0 != u[j].0
}

/// Inserting where the first insertion of a key wins.
pub open spec fn insert_first(u: Seq<UseEntry>, k: Seq<char>, p: Seq<char>) -> Seq<UseEntry> {
    if has_key(u, k) {
        u
    } else {
        u.push((k, p))
    }
}

/// The path under which a name of the contract module is reached from a
/// generated submodule.
pub open spec fn super_path(name: Seq<char>) -> Seq<char> {
    "super::"@ + name
}

/// Inserting each leaf of a `use`, in order.
pub open spec fn insert_leaves(u: Seq<UseEntry>, leaves: Seq<String>) -> Seq<UseEntry>
    decreases leaves.len(),
{
    if leaves.len() == 0 {
        u
    } else {
        let k = leaves.last()@;
        insert_first(insert_leaves(u, leaves.drop_last()), k, super_path(k))
    }
}

/// The name that an item contributes, if any. Extern declarations, traits,
/// free functions and missing items contribute none; an impl alias counts
/// as an impl.
pub open spec fn item_name(item: Item) -> Option<Seq<char>> {
    match item {
        Item::Constant(n) => Some(n.name@),
        Item::Module(n) => Some(n.name@),
        Item::Impl(i) => Some(i.name@),
        Item::ImplAlias(n) => Some(n.name@),
        Item::Struct(n) => Some(n.name@),
        Item::Enum(n) => Some(n.name@),
        Item::TypeAlias(n) => Some(n.name@),
        _ => None,
    }
}

/// Items that only feed other generators and whose own code is dropped:
/// `#[event]` functions and the `Storage` struct.
pub open spec fn is_generator_only(item: Item) -> bool {
    match item {
        Item::FreeFunction(f) => crate::ast::has_text(f.attrs@, "event"@),
        Item::Struct(n) => n.name@ == "Storage"@,
        _ => false,
    }
}

/// The use-set after one item.
pub open spec fn item_uses(u: Seq<UseEntry>, item: Item) -> Seq<UseEntry> {
    if is_generator_only(item) {
        u
    } else {
        match item {
            Item::Use(x) => insert_leaves(u, x.leaves@),
            _ => match item_name(item) {
                Some(k) => insert_first(u, k, super_path(k)),
                None => u,
            },
        }
    }
}

/// The use-set after the items, in order, before the seed.
pub open spec fn items_uses(items: Seq<Item>) -> Seq<UseEntry>
    decreases items.len(),
{
    if items.len() == 0 {
        Seq::empty()
    } else {
        item_uses(items_uses(items.drop_last()), items.last())
    }
}

/// The fixed entries added after the names of the module.
pub open spec fn seed_entries() -> Seq<UseEntry> {
    seq![
        ("ClassHashSerde"@, "starknet::class_hash::ClassHashSerde"@),
        ("ContractAddressSerde"@, "starknet::contract_address::ContractAddressSerde"@),
        ("StorageAddressSerde"@, "starknet::storage_access::StorageAddressSerde"@),
        ("OptionTrait"@, "option::OptionTrait"@),
        ("OptionTraitImpl"@, "option::OptionTraitImpl"@),
    ]
}

/// Inserting the entries of `s`, in order.
pub open spec fn insert_all(u: Seq<UseEntry>, s: Seq<UseEntry>) -> Seq<UseEntry>
    decreases s.len(),
{
    if s.len() == 0 {
        u
    } else {
        let e = s.last();
        insert_first(insert_all(u, s.drop_last()), e.0, e.1)
    }
}

/// The use-set of a module body: its names, then the seed.
pub open spec fn module_uses(items: Seq<Item>) -> Seq<UseEntry> {
    insert_all(items_uses(items), seed_entries())
}

/// The text of the use-set: one `use <path>;` line per entry.
pub open spec fn uses_text(u: Seq<UseEntry>) -> Seq<char>
    decreases u.len(),
{
    if u.len() == 0 {
        Seq::empty()
    } else {
        uses_text(u.drop_last()) + "\n        use "@ + u.last().1 + ";"@
    }
}

/// The entries of an ordered map of identifiers to paths, in order.
pub uninterp spec fn ordered_entries(m: OrderedHashMap<String, String>) -> Seq<UseEntry>;

/// `cairo_lang_utils`'s insertion-ordered hash map (an `IndexMap` inside),
/// which holds the use-set.
#[verifier::external_type_specification]
#[verifier::external_body]
#[verifier::reject_recursive_types(Key)]
#[verifier::reject_recursive_types(Value)]
pub struct ExOrderedHashMap<Key: core::hash::Hash + Eq, Value>(OrderedHashMap<Key, Value>);

/// Relies on `OrderedHashMap::default` (an empty `IndexMap`): no entries.
#[verifier::external_body]
fn empty_map() -> (r: OrderedHashMap<String, String>)
    ensures
        ordered_entries(r) == Seq::<UseEntry>::empty(),
{
    OrderedHashMap::default()
}

/// Relies on `OrderedHashMap::entry` and `Entry::or_insert` of `IndexMap`:
/// an occupied entry is left as it is; a vacant one is filled by pushing the
/// pair last in order. Keys are `String`s, equal when their text is.
#[verifier::external_body]
fn map_insert_if_absent(m: &mut OrderedHashMap<String, String>, k: String, v: String)
    ensures
        ordered_entries(*final(m)) == insert_first(ordered_entries(*old(m)), k@, v@),
{
    m.entry(k).or_insert(v);
}

/// Relies on `OrderedHashMap::values`: the values, in the order of the
/// entries.
#[verifier::external_body]
fn map_values(m: &OrderedHashMap<String, String>) -> (r: Vec<String>)
    ensures
        r@.len() == ordered_entries(*m).len(),
        forall|i: int| 0 <= i < r@.len() ==> #[trigger] r@[i]@ == ordered_entries(*m)[i].1,
{
    m.values().cloned().collect()
}

/// A use-set, in order of insertion.
pub struct UseSet {
    map: OrderedHashMap<String, String>,
}

impl View for UseSet {
    type V = Seq<UseEntry>;

    closed spec fn view(&self) -> Seq<UseEntry> {
        ordered_entries(self.map)
    }
}

/// A lookup succeeds on the key's first and only entry.
pub open spec fn lookup(u: Seq<UseEntry>, k: Seq<char>) -> Option<Seq<char>> {
    if has_key(u, k) {
        Some(u[choose|i: int| 0 <= i < u.len() && #[trigger] u[i].0 == k].1)
    } else {
        None
    }
}

impl UseSet {
    pub fn new() -> (r: UseSet)
        ensures
            r@ == Seq::<UseEntry>::empty(),
    {
        UseSet { map: empty_map() }
    }

    /// Inserts `(k, p)` unless `k` is already a key.
    pub fn insert(&mut self, k: String, p: String)
        ensures
            final(self)@ == insert_first(old(self)@, k@, p@),
    {
        map_insert_if_absent(&mut self.map, k, p);
    }

    /// The paths, in order of insertion.
    pub fn paths(&self) -> (r: Vec<String>)
        ensures
            r@.len() == self@.len(),
            forall|i: int| 0 <= i < r@.len() ==> #[trigger] r@[i]@ == self@[i].1,
    {
        map_values(&self.map)
    }

    /// The use lines, one per entry.
    pub fn to_text(&self) -> (r: String)
        ensures
            r@ == uses_text(self@),
    {
        let paths = self.paths();
        let mut out = String::new();
        let mut i: usize = 0;
        while i < paths.len()
            invariant
                i <= paths.len(),
                paths@.len() == self@.len(),
                forall|j: int| 0 <= j < paths@.len() ==> #[trigger] paths@[j]@ == self@[j].1,
                out@ == uses_text(self@.take(i as int)),
            decreases paths.len() - i,
        {
            proof {
                assert(self@.take(i as int + 1).drop_last() =~= self@.take(i as int));
            }
            out.append("\n        use ");
            out.append(paths[i].as_str());
            out.append(";");
            i = i + 1;
        }
        proof {
            assert(self@.take(i as int) =~= self@);
        }
        out
    }
}

/// Inserting keeps keys unique.
pub proof fn lemma_insert_unique(u: Seq<UseEntry>, k: Seq<char>, p: Seq<char>)
    requires
        keys_unique(u),
    ensures
        keys_unique(insert_first(u, k, p)),
{
}

/// `super::<name>`.
fn super_path_of(name: &String) -> (r: String)
    ensures
        r@ == super_path(name@),
{
    let s = String::from_str("super::");
    s.concat(name.as_str())
}

fn insert_named(u: &mut UseSet, n: &NamedItem)
    ensures
        final(u)@ == insert_first(old(u)@, n.name@, super_path(n.name@)),
{
    let p = super_path_of(&n.name);
    u.insert(n.name.clone(), p);
}

/// Adds the names that one item binds.
pub fn add_item_uses(u: &mut UseSet, item: &Item)
    ensures
        final(u)@ == item_uses(old(u)@, *item),
{
    if is_generator_only_item(item) {
        return;
    }
    match item {
        Item::Use(x) => {
            let mut i: usize = 0;
            while i < x.leaves.len()
                invariant
                    i <= x.leaves.len(),
                    u@ == insert_leaves(old(u)@, x.leaves@.take(i as int)),
                decreases x.leaves.len() - i,
            {
                proof {
                    assert(x.leaves@.take(i as int + 1).drop_last() =~= x.leaves@.take(i as int));
                }
                let leaf = &x.leaves[i];
                let p = super_path_of(leaf);
                u.insert(leaf.clone(), p);
                i = i + 1;
            }
            proof {
                assert(x.leaves@.take(i as int) =~= x.leaves@);
            }
        },
        Item::Constant(n) => insert_named(u, n),
        Item::Module(n) => insert_named(u, n),
        Item::Impl(i) => {
            let p = super_path_of(&i.name);
            u.insert(i.name.clone(), p);
        },
        Item::ImplAlias(n) => insert_named(u, n),
        Item::Struct(n) => insert_named(u, n),
        Item::Enum(n) => insert_named(u, n),
        Item::TypeAlias(n) => insert_named(u, n),
        _ => {},
    }
}

/// Tests whether an item only feeds another generator.
pub fn is_generator_only_item(item: &Item) -> (r: bool)
    ensures
        r == is_generator_only(*item),
{
    match item {
        Item::FreeFunction(f) => crate::ast::contains_text(&f.attrs, "event"),
        Item::Struct(n) => text_is(&n.name, "Storage"),
        _ => false,
    }
}

/// Adds the fixed entries.
pub fn add_seed(u: &mut UseSet)
    ensures
        final(u)@ == insert_all(old(u)@, seed_entries()),
{
    let ghost s = seed_entries();
    u.insert(String::from_str("ClassHashSerde"), String::from_str("starknet::class_hash::ClassHashSerde"));
    assert(s.take(1).drop_last() =~= s.take(0));
    u.insert(
        String::from_str("ContractAddressSerde"),
        String::from_str("starknet::contract_address::ContractAddressSerde"),
    );
    u.insert(
        String::from_str("StorageAddressSerde"),
        String::from_str("starknet::storage_access::StorageAddressSerde"),
    );
    u.insert(String::from_str("OptionTrait"), String::from_str("option::OptionTrait"));
    u.insert(String::from_str("OptionTraitImpl"), String::from_str("option::OptionTraitImpl"));
    proof {
        assert(s.take(2).drop_last() =~= s.take(1));
        assert(s.take(3).drop_last() =~= s.take(2));
        assert(s.take(4).drop_last() =~= s.take(3));
        assert(s.take(5).drop_last() =~= s.take(4));
        assert(s.take(5) =~= s);
        reveal_with_fuel(insert_all, 6);
    }
}

/// The use-set of a module body: the names that its items bind, in order,
/// then the fixed entries.
pub fn collect_uses(items: &Vec<Item>) -> (r: UseSet)
    ensures
        r@ == module_uses(items@),
        keys_unique(r@),
{
    let mut u = UseSet::new();
    let mut i: usize = 0;
    while i < items.len()
        invariant
            i <= items.len(),
            u@ == items_uses(items@.take(i as int)),
        decreases items.len() - i,
    {
        proof {
            assert(items@.take(i as int + 1).drop_last() =~= items@.take(i as int));
        }
        add_item_uses(&mut u, &items[i]);
        i = i + 1;
    }
    proof {
        assert(items@.take(i as int) =~= items@);
    }
    add_seed(&mut u);
    proof {
        lemma_module_uses_unique(items@);
    }
    u
}

proof fn lemma_insert_leaves_unique(u: Seq<UseEntry>, leaves: Seq<String>)
    requires
        keys_unique(u),
    ensures
        keys_unique(insert_leaves(u, leaves)),
    decreases leaves.len(),
{
    if leaves.len() > 0 {
        lemma_insert_leaves_unique(u, leaves.drop_last());
    }
}

proof fn lemma_insert_all_unique(u: Seq<UseEntry>, s: Seq<UseEntry>)
    requires
        keys_unique(u),
    ensures
        keys_unique(insert_all(u, s)),
    decreases s.len(),
{
    if s.len() > 0 {
        lemma_insert_all_unique(u, s.drop_last());
    }
}

proof fn lemma_items_uses_unique(items: Seq<Item>)
    ensures
        keys_unique(items_uses(items)),
    decreases items.len(),
{
    if items.len() > 0 {
        lemma_items_uses_unique(items.drop_last());
        let u = items_uses(items.drop_last());
        let item = items.last();
        match item {
            Item::Use(x) => lemma_insert_leaves_unique(u, x.leaves@),
            _ => {},
        }
    }
}

/// A use-set of a module body never holds a key twice.
pub proof fn lemma_module_uses_unique(items: Seq<Item>)
    ensures
        keys_unique(module_uses(items)),
{
    lemma_items_uses_unique(items);
    lemma_insert_all_unique(items_uses(items), seed_entries());
}

proof fn lemma_insert_keeps(u: Seq<UseEntry>, k: Seq<char>, q: Seq<char>)
    requires
        keys_unique(u),
        lookup(u, k) == Some(q),
    ensures
        forall|k2: Seq<char>, p2: Seq<char>| #[trigger] lookup(insert_first(u, k2, p2), k) == Some(q),
{
    assert forall|k2: Seq<char>, p2: Seq<char>| #[trigger] lookup(insert_first(u, k2, p2), k) == Some(q) by {
        let v = insert_first(u, k2, p2);
        lemma_insert_unique(u, k2, p2);
        let i = choose|i: int| 0 <= i < u.len() && #[trigger] u[i].0 == k;
        assert(v[i].0 == k);
        let j = choose|j: int| 0 <= j < v.len() && #[trigger] v[j].0 == k;
        assert(i == j);
    }
}

/// Seeding keeps what was there: an identifier that the module already
/// binds keeps its own path, whatever the fixed entries hold.
pub proof fn lemma_seed_keeps_earlier(u: Seq<UseEntry>, k: Seq<char>, p: Seq<char>)
    requires
        keys_unique(u),
        lookup(u, k) == Some(p),
    ensures
        lookup(insert_all(u, seed_entries()), k) == Some(p),
{
    lemma_insert_all_keeps(u, seed_entries(), k, p);
}

proof fn lemma_insert_all_keeps(u: Seq<UseEntry>, s: Seq<UseEntry>, k: Seq<char>, p: Seq<char>)
    requires
        keys_unique(u),
        lookup(u, k) == Some(p),
    ensures
        lookup(insert_all(u, s), k) == Some(p),
        keys_unique(insert_all(u, s)),
    decreases s.len(),
{
    if s.len() > 0 {
        lemma_insert_all_keeps(u, s.drop_last(), k, p);
        let w = insert_all(u, s.drop_last());
        lemma_insert_keeps(w, k, p);
        assert(lookup(insert_first(w, s.last().0, s.last().1), k) == Some(p));
        lemma_insert_unique(w, s.last().0, s.last().1);
    }
}

} // verus!
