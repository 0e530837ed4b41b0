//! What wasm-bindgen did to the base module, as its hot-patch metadata records it.

use crate::names::{last_where, lemma_last_where, lemma_table_push, table_by, texts, NameMap};
use crate::text::{trim_start_matches, without_prefixes};
use vstd::hash_set::*;
use vstd::prelude::*;
use vstd::string::*;

verus! {

/// The prefix of a wasm-bindgen symbol that was saved under another name. It can stand repeatedly.
pub const SAVED_WBG_PREFIX: &'static str = "__saved_wbg_";

/// The extension of the metadata file that lies beside the base module.
pub const SIDECAR_EXTENSION: &'static str = "hotpatch-metadata.json";

/// The metadata file's contents, field by field.
pub struct RawWasmHotpatchMetadata {
    pub bindgen_symbol_set: Vec<String>,
    pub cast_mappings: Vec<RawHotpatchCastMapping>,
    pub placeholder_import_mappings: Vec<RawHotpatchPlaceholderMapping>,
    pub externref_import_shims: Vec<RawExternrefShimMapping>,
    pub import_renames: Vec<RawImportRename>,
}

/// A shim for an imported function, which may have lost its own name.
pub struct RawExternrefShimMapping {
    pub original_func_name: Option<String>,
    pub shim_func_name: String,
}

/// A generated cast import, with the functions that it stands for.
pub struct RawHotpatchCastMapping {
    pub generated_import_name: String,
    pub original_function_names: Vec<String>,
}

/// An import that wasm-bindgen put in a placeholder module.
pub struct RawHotpatchPlaceholderMapping {
    pub import_name: String,
}

/// An import that wasm-bindgen renamed.
pub struct RawImportRename {
    pub original_name: String,
    pub final_name: String,
}

/// What came of reading the metadata file.
pub enum Sidecar {
    /// There is no such file.
    Missing,
    /// The file could not be read.
    Unreadable,
    /// The file does not hold metadata.
    Malformed,
    /// The file's contents.
    Parsed(RawWasmHotpatchMetadata),
}

/// The tables that the metadata amounts to.
#[verifier::ext_equal]
pub struct Tables {
    pub bindgen_symbols: Set<Seq<char>>,
    /// From a generated import to the functions that it stands for.
    pub casts: Map<Seq<char>, Vec<String>>,
    /// From a function to the generated import that stands for it.
    pub cast_imports: Map<Seq<char>, String>,
    pub placeholders: Set<Seq<char>>,
    pub externref_shims: Map<Seq<char>, String>,
    /// From an import's original name to its final one.
    pub import_renames: Map<Seq<char>, String>,
}

impl Tables {
    /// Tables without entries.
    pub open spec fn none() -> Self {
        Tables {
            bindgen_symbols: Set::empty(),
            casts: Map::empty(),
            cast_imports: Map::empty(),
            placeholders: Set::empty(),
            externref_shims: Map::empty(),
            import_renames: Map::empty(),
        }
    }

    /// The tables of `raw`: where two of its entries claim one name, the later has it.
    pub open spec fn of(raw: RawWasmHotpatchMetadata) -> Self {
        Tables {
            bindgen_symbols: texts(raw.bindgen_symbol_set@).to_set(),
            casts: casts_of(raw.cast_mappings@),
            cast_imports: cast_imports_of(raw.cast_mappings@),
            placeholders: placeholders_of(raw.placeholder_import_mappings@),
            externref_shims: externref_shims_of(raw.externref_import_shims@),
            import_renames: import_renames_of(raw.import_renames@),
        }
    }

    /// The tables that an attempt to read the metadata file amounts to.
    pub open spec fn read(sidecar: Sidecar) -> Self {
        match sidecar {
            Sidecar::Parsed(raw) => Self::of(raw),
            _ => Self::none(),
        }
    }

    /// Whether `symbol` is wasm-bindgen's own, under its name or a saved one.
    pub open spec fn is_bindgen(self, symbol: Seq<char>) -> bool {
        ||| self.bindgen_symbols.contains(symbol)
        ||| self.bindgen_symbols.contains(unsaved(symbol))
    }

    /// Whether `symbol` is a placeholder import, under its name or a saved one.
    pub open spec fn is_placeholder(self, symbol: Seq<char>) -> bool {
        ||| self.placeholders.contains(symbol)
        ||| self.placeholders.contains(unsaved(symbol))
    }

    /// The final name of an import.
    pub open spec fn renamed(self, original: Seq<char>) -> Seq<char> {
        if self.import_renames.contains_key(original) {
            self.import_renames[original]@
        } else {
            original
        }
    }

    /// The generated import that stands for a function.
    pub open spec fn cast_import(self, function: Seq<char>) -> Option<Seq<char>> {
        if self.cast_imports.contains_key(function) {
            Some(self.cast_imports[function]@)
        } else {
            None
        }
    }

    /// The slot of the function table at which the cast behind `import` stands: the slot of the
    /// first of its functions that has one.
    pub open spec fn cast_slot(self, import: Seq<char>, slots: Map<Seq<char>, i32>) -> Option<i32> {
        if self.casts.contains_key(unsaved(import)) {
            first_slot(texts(self.casts[unsaved(import)]@), slots)
        } else {
            None
        }
    }
}

/// `symbol` without the prefixes that saving put before it.
pub open spec fn unsaved(symbol: Seq<char>) -> Seq<char> {
    without_prefixes(symbol, SAVED_WBG_PREFIX@)
}

/// The slot of the first of `names` that has one.
pub open spec fn first_slot(names: Seq<Seq<char>>, slots: Map<Seq<char>, i32>) -> Option<i32>
    decreases names.len(),
{
    if names.len() == 0 {
        None
    } else if slots.contains_key(names[0]) {
        Some(slots[names[0]])
    } else {
        first_slot(names.skip(1), slots)
    }
}

pub open spec fn casts_of(casts: Seq<RawHotpatchCastMapping>) -> Map<Seq<char>, Vec<String>> {
    table_by(
        casts,
        |m: RawHotpatchCastMapping, name: Seq<char>| m.generated_import_name@ == name,
        |m: RawHotpatchCastMapping| m.original_function_names,
    )
}

pub open spec fn cast_imports_of(casts: Seq<RawHotpatchCastMapping>) -> Map<Seq<char>, String> {
    table_by(
        casts,
        |m: RawHotpatchCastMapping, name: Seq<char>|
            texts(m.original_function_names@).contains(name),
        |m: RawHotpatchCastMapping| m.generated_import_name,
    )
}

pub open spec fn placeholders_of(imports: Seq<RawHotpatchPlaceholderMapping>) -> Set<Seq<char>> {
    imports.map_values(|m: RawHotpatchPlaceholderMapping| m.import_name@).to_set()
}

pub open spec fn externref_shims_of(shims: Seq<RawExternrefShimMapping>) -> Map<
    Seq<char>,
    String,
> {
    table_by(
        shims,
        |m: RawExternrefShimMapping, name: Seq<char>|
            m.original_func_name is Some && m.original_func_name->0@ == name,
        |m: RawExternrefShimMapping| m.shim_func_name,
    )
}

pub open spec fn import_renames_of(renames: Seq<RawImportRename>) -> Map<Seq<char>, String> {
    table_by(
        renames,
        |m: RawImportRename, name: Seq<char>| m.original_name@ == name,
        |m: RawImportRename| m.final_name,
    )
}

/// What wasm-bindgen did to the base module.
pub struct WasmHotpatchMetadata {
    bindgen_symbol_set: StringHashSet,
    cast_mappings: NameMap<Vec<String>>,
    cast_generated_imports_by_old_name: NameMap<String>,
    placeholder_import_names: StringHashSet,
    /// From an imported function to its shim.
    externref_shim_map: NameMap<String>,
    /// Maps original import names to their final (renamed) names in the post-bindgen module,
    /// such as "__wbindgen_object_clone_ref" to "__wbindgen_object_clone_ref_unused".
    import_renames: NameMap<String>,
}

impl View for WasmHotpatchMetadata {
    type V = Tables;

    closed spec fn view(&self) -> Tables {
        Tables {
            bindgen_symbols: self.bindgen_symbol_set@,
            casts: self.cast_mappings@,
            cast_imports: self.cast_generated_imports_by_old_name@,
            placeholders: self.placeholder_import_names@,
            externref_shims: self.externref_shim_map@,
            import_renames: self.import_renames@,
        }
    }
}

impl Default for WasmHotpatchMetadata {
    /// The metadata of a module of which nothing is recorded.
    fn default() -> (r: Self)
        ensures
            r@ == Tables::none(),
    {
        WasmHotpatchMetadata {
            bindgen_symbol_set: StringHashSet::new(),
            cast_mappings: NameMap::new(),
            cast_generated_imports_by_old_name: NameMap::new(),
            placeholder_import_names: StringHashSet::new(),
            externref_shim_map: NameMap::new(),
            import_renames: NameMap::new(),
        }
    }
}

/// The names as a set.
fn set_of(names: Vec<String>) -> (r: StringHashSet)
    ensures
        r@ == texts(names@).to_set(),
{
    let ghost all = names@;
    let mut set = StringHashSet::new();
    assert(set@ =~= texts(all.take(0)).to_set());
    for name in it: names
        invariant
            it.seq() == all,
            set@ == texts(all.take(it.index() as int)).to_set(),
    {
        proof {
            let done = all.take(it.index() as int);
            assert(all.take(it.index() + 1) =~= done.push(name));
            lemma_texts_push(done, name);
        }
        set.insert(name);
    }
    assert(all.take(all.len() as int) =~= all);
    set
}

proof fn lemma_texts_push(names: Seq<String>, name: String)
    ensures
        texts(names.push(name)) == texts(names).push(name@),
        texts(names.push(name)).to_set() == texts(names).to_set().insert(name@),
{
    let before = texts(names);
    assert(texts(names.push(name)) =~= before.push(name@));
    assert(before.push(name@).to_set() =~= before.to_set().insert(name@)) by {
        assert forall|n: Seq<char>| #[trigger]
            before.push(name@).to_set().contains(n) == before.to_set().insert(name@).contains(n) by {
            if before.contains(n) {
                let i = choose|i: int| 0 <= i < before.len() && before[i] == n;
                assert(before.push(name@)[i] == n);
            }
            if n == name@ {
                assert(before.push(name@)[before.len() as int] == n);
            }
        }
    }
}

impl WasmHotpatchMetadata {
    /// The metadata of the base module beside which `sidecar` was looked for. Where it could not
    /// be had, nothing is known of the module.
    pub fn load_for_base_wasm(sidecar: Sidecar) -> (r: Self)
        ensures
            r@ == Tables::read(sidecar),
    {
        let raw = match sidecar {
            Sidecar::Parsed(raw) => raw,
            _ => {
                return WasmHotpatchMetadata::default();
            },
        };
        let bindgen_symbol_set = set_of(raw.bindgen_symbol_set);
        let (cast_mappings, cast_generated_imports_by_old_name) = cast_tables(raw.cast_mappings);
        WasmHotpatchMetadata {
            bindgen_symbol_set,
            cast_mappings,
            cast_generated_imports_by_old_name,
            placeholder_import_names: placeholder_set(raw.placeholder_import_mappings),
            externref_shim_map: externref_table(raw.externref_import_shims),
            import_renames: rename_table(raw.import_renames),
        }
    }

    /// Whether `symbol_name` is wasm-bindgen's own.
    pub fn is_bindgen_symbol(&self, symbol_name: &str) -> (r: bool)
        ensures
            r == self@.is_bindgen(symbol_name@),
    {
        proof {
            reveal_strlit("__saved_wbg_");
        }
        self.bindgen_symbol_set.contains(symbol_name) || self.bindgen_symbol_set.contains(
            trim_start_matches(symbol_name, SAVED_WBG_PREFIX),
        )
    }

    /// Whether `symbol_name` is a placeholder import.
    pub fn has_placeholder_import(&self, symbol_name: &str) -> (r: bool)
        ensures
            r == self@.is_placeholder(symbol_name@),
    {
        proof {
            reveal_strlit("__saved_wbg_");
        }
        self.placeholder_import_names.contains(symbol_name)
            || self.placeholder_import_names.contains(
            trim_start_matches(symbol_name, SAVED_WBG_PREFIX),
        )
    }

    /// The shims of the imported functions, by the names of those.
    pub fn externref_shim_map(&self) -> (r: &NameMap<String>)
        ensures
            r@ == self@.externref_shims,
    {
        &self.externref_shim_map
    }

    /// Given an original import name, return the final name after wasm-bindgen renaming.
    /// Returns the original name unchanged if no rename was recorded.
    pub fn resolve_import_rename<'a>(&'a self, original_name: &'a str) -> (r: &'a str)
        ensures
            r@ == (if self@.import_renames.contains_key(original_name@) {
                self@.import_renames[original_name@]@
            } else {
                original_name@
            }),
            r@ == self@.renamed(original_name@),
    {
        match self.import_renames.get(original_name) {
            Some(name) => name.as_str(),
            None => original_name,
        }
    }

    /// The slot of the old function table at which the cast behind `import_name` stands.
    pub fn cast_target_ifunc_index(
        &self,
        import_name: &str,
        name_to_ifunc_old: &NameMap<i32>,
    ) -> (r: Option<i32>)
        ensures
            r == self@.cast_slot(import_name@, name_to_ifunc_old@),
            !self@.casts.contains_key(unsaved(import_name@)) ==> r is None,
    {
        proof {
            reveal_strlit("__saved_wbg_");
        }
        let plain_name = trim_start_matches(import_name, SAVED_WBG_PREFIX);
        let old_names = match self.cast_mappings.get(plain_name) {
            Some(old_names) => old_names,
            None => {
                return None;
            },
        };
        let ghost all = texts(old_names@);
        let ghost slots = name_to_ifunc_old@;
        assert(all.skip(0) =~= all);
        let mut i: usize = 0;
        while i < old_names.len()
            invariant
                i <= old_names@.len(),
                all == texts(old_names@),
                slots == name_to_ifunc_old@,
                self@.cast_slot(import_name@, slots) == first_slot(all, slots),
                first_slot(all.skip(i as int), slots) == first_slot(all, slots),
            decreases old_names@.len() - i,
        {
            assert(all.skip(i as int)[0] == old_names@[i as int]@);
            if let Some(slot) = name_to_ifunc_old.get(old_names[i].as_str()) {
                return Some(*slot);
            }
            assert(all.skip(i as int).skip(1) =~= all.skip(i + 1));
            i = i + 1;
        }
        None
    }

    /// The generated import that stands for `function_name`, where one does.
    pub fn cast_generated_import_name_for_function<'a>(&'a self, function_name: &str) -> (r: Option<
        &'a str,
    >)
        ensures
            match r {
                Some(name) => self@.cast_imports.contains_key(function_name@) && name@
                    == self@.cast_imports[function_name@]@,
                None => !self@.cast_imports.contains_key(function_name@),
            },
            match r {
                Some(name) => self@.cast_import(function_name@) == Some(name@),
                None => self@.cast_import(function_name@) is None,
            },
    {
        match self.cast_generated_imports_by_old_name.get(function_name) {
            Some(name) => Some(name.as_str()),
            None => None,
        }
    }
}

/// Both tables of the casts: by generated import, and by the functions that it stands for.
fn cast_tables(casts: Vec<RawHotpatchCastMapping>) -> (r: (NameMap<Vec<String>>, NameMap<String>))
    ensures
        r.0@ == casts_of(casts@),
        r.1@ == cast_imports_of(casts@),
{
    let ghost all = casts@;
    let mut mappings: NameMap<Vec<String>> = NameMap::new();
    let mut imports: NameMap<String> = NameMap::new();
    assert(mappings@ =~= casts_of(all.take(0)));
    assert(imports@ =~= cast_imports_of(all.take(0)));
    for mapping in it: casts
        invariant
            it.seq() == all,
            mappings@ == casts_of(all.take(it.index() as int)),
            imports@ == cast_imports_of(all.take(it.index() as int)),
    {
        let ghost done = all.take(it.index() as int);
        let ghost names = texts(mapping.original_function_names@);
        let ghost before = imports@;
        let mut i: usize = 0;
        while i < mapping.original_function_names.len()
            invariant
                i <= mapping.original_function_names@.len(),
                names == texts(mapping.original_function_names@),
                forall|n: Seq<char>| #[trigger]
                    imports@.contains_key(n) == (names.take(i as int).contains(n)
                        || before.contains_key(n)),
                forall|n: Seq<char>| #[trigger]
                    imports@.contains_key(n) ==> imports@[n] == (if names.take(i as int).contains(
                        n,
                    ) {
                        mapping.generated_import_name
                    } else {
                        before[n]
                    }),
            decreases mapping.original_function_names@.len() - i,
        {
            proof {
                let seen = names.take(i as int);
                assert(names.take(i + 1) =~= seen.push(names[i as int]));
                assert forall|n: Seq<char>| #[trigger]
                    seen.push(names[i as int]).contains(n) == (seen.contains(n) || n
                        == names[i as int]) by {
                    if seen.contains(n) {
                        let k = choose|k: int| 0 <= k < seen.len() && seen[k] == n;
                        assert(seen.push(names[i as int])[k] == n);
                    }
                    assert(seen.push(names[i as int])[seen.len() as int] == names[i as int]);
                }
            }
            imports.insert(
                mapping.original_function_names[i].clone(),
                mapping.generated_import_name.clone(),
            );
            i = i + 1;
        }
        proof {
            assert(names.take(names.len() as int) =~= names);
            assert(all.take(it.index() + 1) =~= done.push(mapping));
            lemma_table_push(
                done,
                mapping,
                |m: RawHotpatchCastMapping, name: Seq<char>|
                    texts(m.original_function_names@).contains(name),
                |m: RawHotpatchCastMapping| m.generated_import_name,
            );
            lemma_table_push(
                done,
                mapping,
                |m: RawHotpatchCastMapping, name: Seq<char>| m.generated_import_name@ == name,
                |m: RawHotpatchCastMapping| m.original_function_names,
            );
            assert(imports@ =~= cast_imports_of(done.push(mapping)));
            assert(casts_of(done.push(mapping)) =~= casts_of(done).insert(
                mapping.generated_import_name@,
                mapping.original_function_names,
            ));
        }
        mappings.insert(mapping.generated_import_name, mapping.original_function_names);
    }
    assert(all.take(all.len() as int) =~= all);
    (mappings, imports)
}

/// The names of the placeholder imports.
fn placeholder_set(imports: Vec<RawHotpatchPlaceholderMapping>) -> (r: StringHashSet)
    ensures
        r@ == placeholders_of(imports@),
{
    let ghost all = imports@;
    let mut names: Vec<String> = Vec::new();
    for mapping in it: imports
        invariant
            it.seq() == all,
            texts(names@) == all.take(it.index() as int).map_values(
                |m: RawHotpatchPlaceholderMapping| m.import_name@,
            ),
    {
        proof {
            lemma_texts_push(names@, mapping.import_name);
            assert(all.take(it.index() + 1) =~= all.take(it.index() as int).push(mapping));
        }
        names.push(mapping.import_name);
        assert(texts(names@) =~= all.take(it.index() + 1).map_values(
            |m: RawHotpatchPlaceholderMapping| m.import_name@,
        ));
    }
    assert(all.take(all.len() as int) =~= all);
    set_of(names)
}

/// The shims of the imported functions that still have a name.
fn externref_table(shims: Vec<RawExternrefShimMapping>) -> (r: NameMap<String>)
    ensures
        r@ == externref_shims_of(shims@),
{
    let ghost all = shims@;
    let mut table: NameMap<String> = NameMap::new();
    assert(table@ =~= externref_shims_of(all.take(0)));
    for shim in it: shims
        invariant
            it.seq() == all,
            table@ == externref_shims_of(all.take(it.index() as int)),
    {
        let ghost done = all.take(it.index() as int);
        proof {
            assert(all.take(it.index() + 1) =~= done.push(shim));
            lemma_table_push(
                done,
                shim,
                |m: RawExternrefShimMapping, name: Seq<char>|
                    m.original_func_name is Some && m.original_func_name->0@ == name,
                |m: RawExternrefShimMapping| m.shim_func_name,
            );
        }
        match shim.original_func_name {
            Some(name) => {
                table.insert(name, shim.shim_func_name);
            },
            None => {},
        }
        assert(table@ =~= externref_shims_of(done.push(shim)));
    }
    assert(all.take(all.len() as int) =~= all);
    table
}

/// The final names of the renamed imports.
fn rename_table(renames: Vec<RawImportRename>) -> (r: NameMap<String>)
    ensures
        r@ == import_renames_of(renames@),
{
    let ghost all = renames@;
    let mut table: NameMap<String> = NameMap::new();
    assert(table@ =~= import_renames_of(all.take(0)));
    for rename in it: renames
        invariant
            it.seq() == all,
            table@ == import_renames_of(all.take(it.index() as int)),
    {
        let ghost done = all.take(it.index() as int);
        proof {
            assert(all.take(it.index() + 1) =~= done.push(rename));
            lemma_table_push(
                done,
                rename,
                |m: RawImportRename, name: Seq<char>| m.original_name@ == name,
                |m: RawImportRename| m.final_name,
            );
        }
        table.insert(rename.original_name, rename.final_name);
        assert(table@ =~= import_renames_of(done.push(rename)));
    }
    assert(all.take(all.len() as int) =~= all);
    table
}

/// Saving a symbol once more does not hide it: it is looked for under the same name.
pub proof fn law_saving_hides_no_symbol(tables: Tables, symbol: Seq<char>)
    ensures
        unsaved(SAVED_WBG_PREFIX@ + symbol) == unsaved(symbol),
        tables.bindgen_symbols.contains(unsaved(symbol)) ==> tables.is_bindgen(
            SAVED_WBG_PREFIX@ + symbol,
        ),
        tables.placeholders.contains(unsaved(symbol)) ==> tables.is_placeholder(
            SAVED_WBG_PREFIX@ + symbol,
        ),
{
    reveal_strlit("__saved_wbg_");
    let prefix = SAVED_WBG_PREFIX@;
    assert((prefix + symbol).subrange(0, prefix.len() as int) =~= prefix);
    assert((prefix + symbol).skip(prefix.len() as int) =~= symbol);
}

/// The two tables of the casts agree, where no import was generated twice: the import that stands
/// for a function names that function among those that it stands for.
pub proof fn law_cast_tables_agree(raw: RawWasmHotpatchMetadata, function: Seq<char>)
    requires
        forall|i: int, j: int|
            0 <= i < j < raw.cast_mappings@.len()
                ==> #[trigger] raw.cast_mappings@[i].generated_import_name@
                != #[trigger] raw.cast_mappings@[j].generated_import_name@,
        Tables::of(raw).cast_imports.contains_key(function),
    ensures
        ({
            let import = Tables::of(raw).cast_imports[function]@;
            &&& Tables::of(raw).casts.contains_key(import)
            &&& texts(Tables::of(raw).casts[import]@).contains(function)
        }),
{
    let casts = raw.cast_mappings@;
    let stands_for = |m: RawHotpatchCastMapping, name: Seq<char>|
        texts(m.original_function_names@).contains(name);
    let by_function = |m: RawHotpatchCastMapping| stands_for(m, function);
    let at = last_where(casts, by_function);
    lemma_last_where(casts, by_function);
    let import = casts[at].generated_import_name@;
    let is_named = |m: RawHotpatchCastMapping, name: Seq<char>| m.generated_import_name@ == name;
    let by_import = |m: RawHotpatchCastMapping| is_named(m, import);
    lemma_last_where(casts, by_import);
    assert(by_import(casts[at]));
    assert(last_where(casts, by_import) == at);
}

/// The tables of the casts agree the other way too, where no two mappings list the function: a
/// function that an import stands for has that import.
pub proof fn law_listed_function_has_its_import(
    raw: RawWasmHotpatchMetadata,
    import: Seq<char>,
    function: Seq<char>,
)
    requires
        forall|i: int, j: int|
            0 <= i < j < raw.cast_mappings@.len() ==> !(texts(
                (#[trigger] raw.cast_mappings@[i]).original_function_names@,
            ).contains(function) && texts(
                (#[trigger] raw.cast_mappings@[j]).original_function_names@,
            ).contains(function)),
        Tables::of(raw).casts.contains_key(import),
        texts(Tables::of(raw).casts[import]@).contains(function),
    ensures
        Tables::of(raw).cast_imports.contains_key(function),
        Tables::of(raw).cast_imports[function]@ == import,
{
    let casts = raw.cast_mappings@;
    let is_named = |m: RawHotpatchCastMapping, name: Seq<char>| m.generated_import_name@ == name;
    let by_import = |m: RawHotpatchCastMapping| is_named(m, import);
    let at = last_where(casts, by_import);
    lemma_last_where(casts, by_import);
    let stands_for = |m: RawHotpatchCastMapping, name: Seq<char>|
        texts(m.original_function_names@).contains(name);
    let by_function = |m: RawHotpatchCastMapping| stands_for(m, function);
    lemma_last_where(casts, by_function);
    assert(by_function(casts[at]));
    assert(last_where(casts, by_function) == at);
}

/// The slot of a cast is that of the first function with a slot among those that the cast stands for,
/// and there is one as soon as one of them has a slot.
pub proof fn law_cast_slot_is_of_its_functions(
    tables: Tables,
    import: Seq<char>,
    slots: Map<Seq<char>, i32>,
)
    requires
        tables.casts.contains_key(unsaved(import)),
    ensures
        ({
            let functions = texts(tables.casts[unsaved(import)]@);
            match tables.cast_slot(import, slots) {
                Some(slot) => exists|i: int|
                    0 <= i < functions.len() && slots.contains_key(#[trigger] functions[i])
                        && slots[functions[i]] == slot && forall|j: int|
                        0 <= j < i ==> !slots.contains_key(#[trigger] functions[j]),
                None => forall|i: int|
                    0 <= i < functions.len() ==> !slots.contains_key(#[trigger] functions[i]),
            }
        }),
{
    lemma_first_slot(texts(tables.casts[unsaved(import)]@), slots);
}

proof fn lemma_first_slot(names: Seq<Seq<char>>, slots: Map<Seq<char>, i32>)
    ensures
        match first_slot(names, slots) {
            Some(slot) => exists|i: int|
                0 <= i < names.len() && slots.contains_key(#[trigger] names[i])
                    && slots[names[i]] == slot && forall|j: int|
                    0 <= j < i ==> !slots.contains_key(#[trigger] names[j]),
            None => forall|i: int|
                0 <= i < names.len() ==> !slots.contains_key(#[trigger] names[i]),
        },
    decreases names.len(),
{
    if names.len() > 0 && !slots.contains_key(names[0]) {
        let rest = names.skip(1);
        lemma_first_slot(rest, slots);
        match first_slot(rest, slots) {
            Some(slot) => {
                let i = choose|i: int|
                    0 <= i < rest.len() && slots.contains_key(#[trigger] rest[i])
                        && slots[rest[i]] == slot && forall|j: int|
                        0 <= j < i ==> !slots.contains_key(#[trigger] rest[j]);
                assert(names[i + 1] == rest[i]);
                assert forall|j: int| 0 <= j < i + 1 implies !slots.contains_key(
                    #[trigger] names[j],
                ) by {
                    if j > 0 {
                        assert(rest[j - 1] == names[j]);
                    }
                }
            },
            None => {
                assert forall|i: int| 0 <= i < names.len() implies !slots.contains_key(
                    #[trigger] names[i],
                ) by {
                    if i > 0 {
                        assert(rest[i - 1] == names[i]);
                    }
                }
            },
        }
    }
}

} // verus!
