pub mod artifacts;
pub mod artifacts_laws;
pub mod build_state;
pub mod build_state_laws;
pub mod hotpatch_laws;
pub mod names;
pub mod paths;
pub mod publication;
pub mod response_file;
pub mod rustc_laws;
pub mod rustcwrapper;
pub mod scrub;
pub mod scrub_laws;
pub mod text;
pub mod text_laws;
pub mod wasm_hotpatch_metadata;
