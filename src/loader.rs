use vstd::prelude::*;
use vstd::utf8::{decode_utf8, valid_utf8};
use includedir::Files;
use rlua::{Function, Lua, Table};

verus! {

#[verifier::external_type_specification]
#[verifier::external_body]
pub struct ExFiles(Files);

#[verifier::external_type_specification]
#[verifier::external_body]
pub struct ExFunction<'lua>(Function<'lua>);

#[verifier::external_type_specification]
#[verifier::external_body]
pub struct ExTable<'lua>(Table<'lua>);

/// Relies on includedir's `Files::file_names`: the names of the bundled
/// files, in the bundle's own order.
#[verifier::external_body]
fn bundle_names(files: &'static Files) -> (r: Vec<String>) {
    files.file_names().map(|f| f.to_string()).collect()
}

/// Relies on includedir's `Files::get`: the contents of a bundled file,
/// or the I/O error, rendered with `Display`.
#[verifier::external_body]
fn bundle_bytes(files: &Files, lib: &str) -> (r: Result<Vec<u8>, String>) {
    match files.get(lib) {
        Ok(b) => Ok(b.into_owned()),
        Err(e) => Err(format!("{}", e)),
    }
}

/// Relies on `std::str::from_utf8`, which accepts exactly the valid UTF-8
/// byte strings.
#[verifier::external_body]
fn decode(bytes: &[u8]) -> (r: Result<String, String>)
    ensures
        r is Ok <==> valid_utf8(bytes@),
        r matches Ok(s) ==> s@ == decode_utf8(bytes@),
{
    match std::str::from_utf8(bytes) {
        Ok(s) => Ok(s.to_string()),
        Err(e) => Err(format!("{}", e)),
    }
}

/// Relies on rlua's `Lua::load`: compiles `source` into a function, or
/// renders the error with `Display`.
#[verifier::external_body]
fn compile_chunk<'lua>(vm: &'lua Lua, source: &str) -> (r: Result<Function<'lua>, String>) {
    vm.load(source, None).map_err(|e| format!("{}", e))
}

/// Relies on rlua's `Function::call` with no arguments and a table as
/// its result.
#[verifier::external_body]
fn call_for_table<'lua>(f: Function<'lua>) -> (r: Result<Table<'lua>, String>) {
    f.call::<(), Table>(()).map_err(|e| format!("{}", e))
}

/// Relies on rlua's `Lua::globals`: the table of global variables.
#[verifier::external_body]
fn globals<'lua>(vm: &'lua Lua) -> (r: Table<'lua>) {
    vm.globals()
}

/// Relies on rlua's `Table::set`: binds `key` to `value` in `table`.
#[verifier::external_body]
fn set_table<'lua>(table: &Table<'lua>, key: &str, value: Table<'lua>) -> (r: Result<(), String>) {
    table.set(key, value).map_err(|e| format!("{}", e))
}

/// The stages of loading a bundled library, each of which may fail.
pub ghost enum LoadStage {
    Read,
    Decode,
    Compile,
    Run,
    Bind,
}

pub open spec fn stage_text(st: LoadStage) -> Seq<char> {
    match st {
        LoadStage::Read => "failed to get binary data"@,
        LoadStage::Decode => "failed to parse UTF-8"@,
        LoadStage::Compile => "Lua load failed"@,
        LoadStage::Run => "Lua require failed"@,
        LoadStage::Bind => "failed to set library"@,
    }
}

/// The message of a failure at stage `st`, for the underlying `cause`.
pub open spec fn stage_failure(st: LoadStage, cause: Seq<char>) -> Seq<char> {
    stage_text(st) + ": "@ + cause
}

/// The message of `load_all` when library `lib` fails with `cause`.
pub open spec fn load_failure(lib: Seq<char>, cause: Seq<char>) -> Seq<char> {
    "failed to load "@ + lib + ": "@ + cause
}


fn with_cause(stage: &str, cause: String) -> (r: String)
    ensures
        r@ == stage@ + ": "@ + cause@,
{
    String::from_str(stage).concat(": ").concat(cause.as_str())
}

/// Attempts to load the bundled library `lib` into the given vm: its
/// source is run as a chunk, and the table it returns is bound to the
/// global `inspect`. A failure names the stage that failed and its cause;
/// a source that is not UTF-8 fails at decoding.
pub fn load_lib(vm: &Lua, files: &Files, lib: &str) -> (r: Result<(), String>)
    ensures
        r matches Err(e) ==> exists|st: LoadStage, cause: Seq<char>|
            e@ == #[trigger] stage_failure(st, cause),
{
    let bytes = match bundle_bytes(files, lib) {
        Ok(b) => b,
        Err(e) => {
            let r = with_cause("failed to get binary data", e);
            assert(r@ == stage_failure(LoadStage::Read, e@));
            return Err(r);
        },
    };
    let source = match decode(bytes.as_slice()) {
        Ok(s) => s,
        Err(e) => {
            let r = with_cause("failed to parse UTF-8", e);
            assert(r@ == stage_failure(LoadStage::Decode, e@));
            return Err(r);
        },
    };
    let chunk = match compile_chunk(vm, source.as_str()) {
        Ok(f) => f,
        Err(e) => {
            let r = with_cause("Lua load failed", e);
            assert(r@ == stage_failure(LoadStage::Compile, e@));
            return Err(r);
        },
    };
    let module = match call_for_table(chunk) {
        Ok(t) => t,
        Err(e) => {
            let r = with_cause("Lua require failed", e);
            assert(r@ == stage_failure(LoadStage::Run, e@));
            return Err(r);
        },
    };
    let g = globals(vm);
    match set_table(&g, "inspect", module) {
        Ok(()) => Ok(()),
        Err(e) => {
            let r = with_cause("failed to set library", e);
            assert(r@ == stage_failure(LoadStage::Bind, e@));
            Err(r)
        },
    }
}

/// Loads the libraries named in `libs`, in order, stopping at the first
/// one that fails; its failure is reported with its name.
pub fn load_listed(vm: &Lua, files: &Files, libs: &Vec<String>) -> (r: Result<(), String>)
    ensures
        r matches Err(e) ==> exists|i: int, st: LoadStage, cause: Seq<char>|
            0 <= i < libs@.len() && e@ == #[trigger] load_failure(
                libs@[i]@,
                stage_failure(st, cause),
            ),
{
    let mut i: usize = 0;
    while i < libs.len()
        invariant
            i <= libs.len(),
        decreases libs.len() - i,
    {
        match load_lib(vm, files, libs[i].as_str()) {
            Ok(()) => {},
            Err(e) => {
                let r = String::from_str("failed to load ").concat(libs[i].as_str()).concat(
                    ": ",
                ).concat(e.as_str());
                let ghost w = choose|st: LoadStage, cause: Seq<char>|
                    e@ == #[trigger] stage_failure(st, cause);
                assert(r@ == load_failure(libs@[i as int]@, stage_failure(w.0, w.1)));
                return Err(r);
            },
        }
        i = i + 1;
    }
    Ok(())
}

/// Loads all libraries in the bundle, in the bundle's order.
pub fn load_all(vm: &Lua, files: &'static Files) -> (r: Result<(), String>)
    ensures
        r matches Err(e) ==> exists|lib: Seq<char>, st: LoadStage, cause: Seq<char>|
            e@ == #[trigger] load_failure(lib, stage_failure(st, cause)),
{
    let names = bundle_names(files);
    let r = load_listed(vm, files, &names);
    r
}

} // verus!
