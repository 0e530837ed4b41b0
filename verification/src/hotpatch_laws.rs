//! What the lookups find of what the metadata file records.

use crate::names::texts;
use crate::text_laws::{
    law_all_prefixes_go, law_last_item_has_the_name, law_texts_name_by_name,
};
use crate::wasm_hotpatch_metadata::{
    law_cast_slot_is_of_its_functions, unsaved, RawExternrefShimMapping,
    RawHotpatchCastMapping, RawHotpatchPlaceholderMapping, RawImportRename,
    RawWasmHotpatchMetadata, Sidecar, Tables, SAVED_WBG_PREFIX, SIDECAR_EXTENSION,
};
use vstd::prelude::*;
use vstd::string::*;

verus! {

/// The names that the metadata file and its symbols go by.
pub proof fn law_names_of_the_metadata()
    ensures
        SAVED_WBG_PREFIX@ == "__saved_wbg_"@,
        SIDECAR_EXTENSION@ == "hotpatch-metadata.json"@,
{
}

/// The set of symbols holds exactly the symbols that are recorded, and so does that of placeholder
/// imports.
pub proof fn law_sets_hold_what_is_recorded(raw: RawWasmHotpatchMetadata, name: Seq<char>)
    ensures
        ({
            let tables = Tables::read(Sidecar::Parsed(raw));
            let symbols = raw.bindgen_symbol_set@;
            let imports = raw.placeholder_import_mappings@;
            &&& tables.bindgen_symbols.contains(name) <==> exists|i: int|
                0 <= i < symbols.len() && #[trigger] symbols[i]@ == name
            &&& tables.placeholders.contains(name) <==> exists|i: int|
                0 <= i < imports.len() && #[trigger] imports[i].import_name@ == name
        }),
{
    law_texts_name_by_name(raw.bindgen_symbol_set@);
    let imports = raw.placeholder_import_mappings@;
    let all = imports.map_values(|m: RawHotpatchPlaceholderMapping| m.import_name@);
    if all.contains(name) {
        let i = choose|i: int| 0 <= i < all.len() && all[i] == name;
        assert(imports[i].import_name@ == name);
    }
    if exists|i: int| 0 <= i < imports.len() && #[trigger] imports[i].import_name@ == name {
        let i = choose|i: int| 0 <= i < imports.len() && #[trigger] imports[i].import_name@ == name;
        assert(all[i] == name);
    }
}

/// Whether a cast mapping lists a function.
pub open spec fn lists(mapping: RawHotpatchCastMapping, function: Seq<char>) -> bool {
    exists|k: int|
        0 <= k < mapping.original_function_names@.len()
            && #[trigger] mapping.original_function_names@[k]@ == function
}

/// A generated import stands for the functions that the last mapping of its name lists, and a function
/// has the import of the last mapping that lists it. What no mapping names or lists has none.
pub proof fn law_casts_are_those_recorded(raw: RawWasmHotpatchMetadata, name: Seq<char>)
    ensures
        ({
            let tables = Tables::read(Sidecar::Parsed(raw));
            let all = raw.cast_mappings@;
            &&& tables.casts.contains_key(name) <==> exists|i: int|
                0 <= i < all.len() && #[trigger] all[i].generated_import_name@ == name
            &&& forall|i: int|
                0 <= i < all.len() && #[trigger] all[i].generated_import_name@ == name && (forall|
                    j: int,
                |
                    i < j < all.len() ==> #[trigger] all[j].generated_import_name@ != name)
                    ==> tables.casts[name] == all[i].original_function_names
            &&& tables.cast_import(name) is Some <==> exists|i: int|
                0 <= i < all.len() && lists(#[trigger] all[i], name)
            &&& forall|i: int|
                0 <= i < all.len() && lists(#[trigger] all[i], name) && (forall|j: int|
                    i < j < all.len() ==> !lists(#[trigger] all[j], name)) ==> tables.cast_import(
                    name,
                ) == Some(all[i].generated_import_name@)
        }),
{
    let all = raw.cast_mappings@;
    law_last_item_has_the_name(
        all,
        |m: RawHotpatchCastMapping, name: Seq<char>| m.generated_import_name@ == name,
        |m: RawHotpatchCastMapping| m.original_function_names,
        name,
    );
    law_last_item_has_the_name(
        all,
        |m: RawHotpatchCastMapping, name: Seq<char>|
            texts(m.original_function_names@).contains(name),
        |m: RawHotpatchCastMapping| m.generated_import_name,
        name,
    );
    assert forall|m: RawHotpatchCastMapping| #[trigger]
        lists(m, name) <==> texts(m.original_function_names@).contains(name) by {
        law_texts_name_by_name(m.original_function_names@);
    }
}

/// An imported function has the shim that is recorded last under its name, and an import the final
/// name that is recorded last. Without a record a function has no shim, and an import keeps its name.
pub proof fn law_shims_and_renames_are_those_recorded(
    raw: RawWasmHotpatchMetadata,
    name: Seq<char>,
)
    ensures
        ({
            let tables = Tables::read(Sidecar::Parsed(raw));
            let shims = raw.externref_import_shims@;
            let renames = raw.import_renames@;
            &&& tables.externref_shims.contains_key(name) <==> exists|i: int|
                0 <= i < shims.len() && is_of(#[trigger] shims[i], name)
            &&& forall|i: int|
                0 <= i < shims.len() && is_of(#[trigger] shims[i], name) && (forall|j: int|
                    i < j < shims.len() ==> !is_of(#[trigger] shims[j], name))
                    ==> tables.externref_shims[name] == shims[i].shim_func_name
            &&& forall|i: int|
                0 <= i < renames.len() && #[trigger] renames[i].original_name@ == name && (forall|
                    j: int,
                |
                    i < j < renames.len() ==> #[trigger] renames[j].original_name@ != name)
                    ==> tables.renamed(name) == renames[i].final_name@
            &&& (forall|i: int|
                0 <= i < renames.len() ==> #[trigger] renames[i].original_name@ != name)
                ==> tables.renamed(name) == name
        }),
{
    law_last_item_has_the_name(
        raw.externref_import_shims@,
        |m: RawExternrefShimMapping, name: Seq<char>|
            m.original_func_name is Some && m.original_func_name->0@ == name,
        |m: RawExternrefShimMapping| m.shim_func_name,
        name,
    );
    law_last_item_has_the_name(
        raw.import_renames@,
        |m: RawImportRename, name: Seq<char>| m.original_name@ == name,
        |m: RawImportRename| m.final_name,
        name,
    );
}

/// Whether a shim is recorded for a function.
pub open spec fn is_of(shim: RawExternrefShimMapping, function: Seq<char>) -> bool {
    shim.original_func_name is Some && shim.original_func_name->0@ == function
}

/// Where the metadata could not be had, nothing is known: no symbol, no cast, no shim, no new name.
pub proof fn law_nothing_is_known_without_metadata(
    sidecar: Sidecar,
    name: Seq<char>,
    slots: Map<Seq<char>, i32>,
)
    requires
        !(sidecar is Parsed),
    ensures
        ({
            let tables = Tables::read(sidecar);
            &&& !tables.is_bindgen(name)
            &&& !tables.is_placeholder(name)
            &&& tables.cast_import(name) is None
            &&& tables.cast_slot(name, slots) is None
            &&& !tables.externref_shims.contains_key(name)
            &&& tables.renamed(name) == name
        }),
{
}

/// Saved symbols are looked for under the name behind every prefix, and no other symbol loses any of
/// its name.
pub proof fn law_saved_names_lose_the_prefix(symbol: Seq<char>)
    ensures
        unsaved("__saved_wbg_"@ + symbol) == unsaved(symbol),
        symbol.len() < "__saved_wbg_"@.len() ==> unsaved(symbol) == symbol,
        (exists|i: int|
            0 <= i < "__saved_wbg_"@.len() && i < symbol.len() && symbol[i] != "__saved_wbg_"@[i])
            ==> unsaved(symbol) == symbol,
{
    reveal_strlit("__saved_wbg_");
    law_all_prefixes_go(symbol, "__saved_wbg_"@);
}

/// A symbol is wasm-bindgen's own exactly where it is recorded as it is or without its prefixes, and
/// likewise a placeholder import.
pub proof fn law_symbols_are_known_by_either_name(tables: Tables, symbol: Seq<char>)
    ensures
        tables.is_bindgen(symbol) <==> tables.bindgen_symbols.contains(symbol)
            || tables.bindgen_symbols.contains(unsaved(symbol)),
        tables.is_placeholder(symbol) <==> tables.placeholders.contains(symbol)
            || tables.placeholders.contains(unsaved(symbol)),
{
}

/// An import that no cast is recorded for has no slot, whatever slots there are, under its own name
/// or another.
pub proof fn law_no_cast_no_slot(
    raw: RawWasmHotpatchMetadata,
    import: Seq<char>,
    slots: Map<Seq<char>, i32>,
)
    requires
        forall|i: int|
            0 <= i < raw.cast_mappings@.len()
                ==> #[trigger] raw.cast_mappings@[i].generated_import_name@ != unsaved(import),
    ensures
        Tables::read(Sidecar::Parsed(raw)).cast_slot(import, slots) is None,
{
    law_casts_are_those_recorded(raw, unsaved(import));
}

/// A cast stands at the slot of the first function with a slot in its mapping, and at none where none
/// of those functions has one: no slot of any other function is taken.
pub proof fn law_cast_stands_at_its_functions_slot(
    raw: RawWasmHotpatchMetadata,
    i: int,
    import: Seq<char>,
    slots: Map<Seq<char>, i32>,
)
    requires
        0 <= i < raw.cast_mappings@.len(),
        raw.cast_mappings@[i].generated_import_name@ == unsaved(import),
        forall|j: int|
            i < j < raw.cast_mappings@.len()
                ==> #[trigger] raw.cast_mappings@[j].generated_import_name@ != unsaved(import),
    ensures
        ({
            let functions = raw.cast_mappings@[i].original_function_names@;
            let slot = Tables::read(Sidecar::Parsed(raw)).cast_slot(import, slots);
            &&& forall|k: int|
                0 <= k < functions.len() && slots.contains_key(#[trigger] functions[k]@) && (forall|
                    j: int,
                |
                    0 <= j < k ==> !slots.contains_key(#[trigger] functions[j]@)) ==> slot == Some(
                    slots[functions[k]@],
                )
            &&& (forall|k: int|
                0 <= k < functions.len() ==> !slots.contains_key(#[trigger] functions[k]@))
                ==> slot is None
        }),
{
    law_casts_are_those_recorded(raw, unsaved(import));
    let mapping = raw.cast_mappings@[i];
    let functions = mapping.original_function_names@;
    let tables = Tables::read(Sidecar::Parsed(raw));
    assert(tables.casts[unsaved(import)] == mapping.original_function_names);
    law_texts_name_by_name(functions);
    law_cast_slot_is_of_its_functions(tables, import, slots);
    let names = texts(functions);
    assert forall|k: int|
        0 <= k < functions.len() && slots.contains_key(#[trigger] functions[k]@) && (forall|j: int|
            0 <= j < k ==> !slots.contains_key(#[trigger] functions[j]@)) implies tables.cast_slot(
        import,
        slots,
    ) == Some(slots[functions[k]@]) by {
        assert(names[k] == functions[k]@);
        match tables.cast_slot(import, slots) {
            Some(slot) => {
                let found = choose|n: int|
                    0 <= n < names.len() && slots.contains_key(#[trigger] names[n])
                        && slots[names[n]] == slot && forall|j: int|
                        0 <= j < n ==> !slots.contains_key(#[trigger] names[j]);
                assert(names[found] == functions[found]@);
                if found < k {
                    assert(!slots.contains_key(functions[found]@));
                }
                assert(found == k);
            },
            None => {},
        }
    }
    if forall|k: int| 0 <= k < functions.len() ==> !slots.contains_key(#[trigger] functions[k]@) {
        match tables.cast_slot(import, slots) {
            Some(slot) => {
                let found = choose|n: int|
                    0 <= n < names.len() && slots.contains_key(#[trigger] names[n])
                        && slots[names[n]] == slot;
                assert(names[found] == functions[found]@);
            },
            None => {},
        }
    }
}

} // verus!
