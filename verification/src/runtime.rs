//! The protocol by which host and plugin hand strings to each other through
//! the plugin's linear memory: which export serves which hook, how a
//! returned string reference is packed, and the checked copies into and
//! out of the memory.

use vstd::prelude::*;

use wasmtime::{Engine, Instance, Linker, Module, Store, Val};
use wasmtime_wasi::p1::{self, WasiP1Ctx};

use crate::event::{hooks_for, PluginEvent};
use crate::manager::{live_targets, PluginManager};
use crate::plugin_error::PluginError;
use crate::text::{chars_to_string, concat3, str_to_chars};

verus! {

broadcast use vstd::string::group_string_axioms;

/// The export a plugin provides for the hook of an event.
pub open spec fn hook_export(event: PluginEvent) -> Seq<char> {
    match event {
        PluginEvent::Command { .. } => "minal_on_command"@,
        PluginEvent::Output { .. } => "minal_on_output"@,
        PluginEvent::Error { .. } => "minal_on_error"@,
    }
}

/// The export a plugin provides for the hook of an event.
pub fn hook_export_name(event: &PluginEvent) -> (name: &'static str)
    ensures
        name@ == hook_export(*event),
{
    match event {
        PluginEvent::Command { .. } => "minal_on_command",
        PluginEvent::Output { .. } => "minal_on_output",
        PluginEvent::Error { .. } => "minal_on_error",
    }
}

/// A string reference returned by a plugin export, packed into 64 bits:
/// the offset in the high 32 bits and the length in the low 32 bits, with
/// zero standing for no string.
pub open spec fn unpacked(packed: i64) -> Option<(nat, nat)> {
    if packed == 0 {
        None
    } else {
        let bits = packed as u64;
        Some(((bits / 0x1_0000_0000) as nat, (bits % 0x1_0000_0000) as nat))
    }
}

/// Splits a packed string reference into offset and length.
pub fn unpack_string_ref(packed: i64) -> (r: Option<(usize, usize)>)
    ensures
        match unpacked(packed) {
            Some((o, l)) => r matches Some((ro, rl)) && ro == o && rl == l,
            None => r is None,
        },
{
    if packed == 0 {
        return None;
    }
    let hi: u32 = (packed >> 32u64) as u32;
    let lo: u32 = (packed & 0xFFFF_FFFFi64) as u32;
    proof {
        let bits = packed as u64;
        assert(hi == bits / 0x1_0000_0000 && lo == bits % 0x1_0000_0000) by (bit_vector)
            requires
                hi == (packed >> 32u64) as u32,
                lo == (packed & 0xFFFF_FFFFi64) as u32,
                bits == packed as u64,
        ;
    }
    Some((hi as usize, lo as usize))
}

/// The decimal digit of `d`.
pub open spec fn digit(d: nat) -> char {
    (('0' as u32) + d) as char
}

/// The decimal notation of `n`.
pub open spec fn decimal(n: nat) -> Seq<char>
    decreases n,
{
    if n < 10 {
        seq![digit(n)]
    } else {
        decimal(n / 10) + seq![digit(n % 10)]
    }
}

/// Appends the decimal notation of `n` to `out`.
fn push_decimal(n: usize, out: &mut Vec<char>)
    ensures
        final(out)@ == old(out)@ + decimal(n as nat),
    decreases n,
{
    if n >= 10 {
        push_decimal(n / 10, out);
    }
    let d: u8 = (n % 10) as u8;
    let c: char = (48u8 + d) as char;
    proof {
        assert(c == digit((n % 10) as nat));
    }
    out.push(c);
    proof {
        if n >= 10 {
            assert(final(out)@ =~= old(out)@ + decimal(n as nat));
        } else {
            assert(final(out)@ =~= old(out)@ + decimal(n as nat));
        }
    }
}

/// A message made of three labelled numbers: `head`, then `a`, then
/// `mid1`, `b`, `mid2` and `c`.
pub open spec fn numbers_message(
    head: Seq<char>,
    a: nat,
    mid1: Seq<char>,
    b: nat,
    mid2: Seq<char>,
    c: nat,
) -> Seq<char> {
    head + decimal(a) + mid1 + decimal(b) + mid2 + decimal(c)
}

fn numbers_text(head: &str, a: usize, mid1: &str, b: usize, mid2: &str, c: usize) -> (t: String)
    ensures
        t@ == numbers_message(head@, a as nat, mid1@, b as nat, mid2@, c as nat),
{
    let mut v = str_to_chars(head);
    push_decimal(a, &mut v);
    let mut m1 = str_to_chars(mid1);
    v.append(&mut m1);
    push_decimal(b, &mut v);
    let mut m2 = str_to_chars(mid2);
    v.append(&mut m2);
    push_decimal(c, &mut v);
    chars_to_string(v.as_slice())
}

/// The range `offset .. offset + length` lies within a memory of
/// `mem_len` bytes.
pub open spec fn in_bounds(offset: nat, length: nat, mem_len: nat) -> bool {
    offset + length <= mem_len
}

/// The message of a write that does not fit the plugin's memory.
pub open spec fn write_bounds_message(ptr: nat, len: nat, mem: nat) -> Seq<char> {
    numbers_message(
        "minal_alloc returned out-of-bounds pointer: ptr="@,
        ptr,
        ", len="@,
        len,
        ", mem="@,
        mem,
    )
}

/// The message of a read outside the plugin's memory.
pub open spec fn read_bounds_message(offset: nat, length: nat, mem: nat) -> Seq<char> {
    numbers_message("out-of-bounds read: offset="@, offset, ", length="@, length, ", mem="@, mem)
}

/// Copies the UTF-8 bytes of `s` into `memory` at `ptr`, the place the
/// plugin's allocator gave for them; fails, leaving the memory as it is,
/// when they would not fit.
pub fn write_string_to_memory(memory: &mut [u8], ptr: usize, s: &str) -> (r: Result<
    (usize, usize),
    PluginError,
>)
    ensures
        in_bounds(ptr as nat, vstd::utf8::encode_utf8(s@).len(), old(memory)@.len()) ==> {
            &&& r matches Ok((p, l)) && p == ptr && l == vstd::utf8::encode_utf8(s@).len()
            &&& final(memory)@ == old(memory)@.take(ptr as int) + vstd::utf8::encode_utf8(s@) + old(
                memory,
            )@.skip(ptr + vstd::utf8::encode_utf8(s@).len())
        },
        !in_bounds(ptr as nat, vstd::utf8::encode_utf8(s@).len(), old(memory)@.len()) ==> {
            &&& r matches Err(PluginError::Call(m)) && m@ == write_bounds_message(
                ptr as nat,
                vstd::utf8::encode_utf8(s@).len(),
                old(memory)@.len(),
            )
            &&& final(memory)@ == old(memory)@
        },
{
    let bytes = s.as_bytes();
    let len = bytes.len();
    let mem = memory.len();
    let fits = match ptr.checked_add(len) {
        Some(end) => end <= mem,
        None => false,
    };
    if !fits {
        return Err(
            PluginError::Call(
                numbers_text(
                    "minal_alloc returned out-of-bounds pointer: ptr=",
                    ptr,
                    ", len=",
                    len,
                    ", mem=",
                    mem,
                ),
            ),
        );
    }
    let ghost before = memory@;
    let mut i: usize = 0;
    while i < len
        invariant
            len == bytes@.len(),
            mem == memory@.len(),
            ptr + len <= mem,
            i <= len,
            memory@.len() == before.len(),
            forall|j: int| 0 <= j < ptr ==> memory@[j] == before[j],
            forall|j: int| 0 <= j < i ==> memory@[ptr + j] == bytes@[j],
            forall|j: int| ptr + len <= j < mem ==> memory@[j] == before[j],
        decreases len - i,
    {
        memory[ptr + i] = bytes[i];
        i = i + 1;
    }
    proof {
        assert(memory@ =~= before.take(ptr as int) + bytes@ + before.skip(ptr + len));
    }
    Ok((ptr, len))
}

/// What `String::from_utf8` of std says, in its error's text, of bytes
/// that are not UTF-8.
pub uninterp spec fn utf8_error_text(bytes: Seq<u8>) -> Seq<char>;

/// `String::from_utf8` of std: the text the bytes encode when they are
/// valid UTF-8, else the text of the error it reports.
#[verifier::external_body]
fn string_from_utf8(bytes: Vec<u8>) -> (r: Result<String, String>)
    ensures
        r is Ok <==> vstd::utf8::valid_utf8(bytes@),
        r matches Ok(s) ==> s@ == vstd::utf8::decode_utf8(bytes@),
        r matches Err(e) ==> e@ == utf8_error_text(bytes@),
{
    String::from_utf8(bytes).map_err(|e| e.to_string())
}

/// The bytes `offset .. offset + length` of `memory`.
pub open spec fn memory_range(memory: Seq<u8>, offset: nat, length: nat) -> Seq<u8> {
    memory.subrange(offset as int, (offset + length) as int)
}

/// Reads the string at `offset`, `length` bytes long, out of the plugin's
/// memory: an error when the range leaves the memory or the bytes are not
/// UTF-8.
pub fn read_string_from_memory(memory: &[u8], offset: usize, length: usize) -> (r: Result<
    String,
    PluginError,
>)
    ensures
        !in_bounds(offset as nat, length as nat, memory@.len()) ==> (r matches Err(
            PluginError::InvalidResponse(m),
        ) && m@ == read_bounds_message(offset as nat, length as nat, memory@.len())),
        in_bounds(offset as nat, length as nat, memory@.len()) ==> {
            let bytes = memory_range(memory@, offset as nat, length as nat);
            &&& vstd::utf8::valid_utf8(bytes) ==> (r matches Ok(s) && s@
                == vstd::utf8::decode_utf8(bytes))
            &&& !vstd::utf8::valid_utf8(bytes) ==> (r matches Err(PluginError::InvalidResponse(m))
                && m@ == "invalid UTF-8: "@ + utf8_error_text(bytes))
        },
{
    let mem = memory.len();
    let fits = match offset.checked_add(length) {
        Some(end) => end <= mem,
        None => false,
    };
    if !fits {
        return Err(
            PluginError::InvalidResponse(
                numbers_text("out-of-bounds read: offset=", offset, ", length=", length, ", mem=", mem),
            ),
        );
    }
    let end = offset + length;
    let mut bytes: Vec<u8> = Vec::new();
    let mut i: usize = offset;
    while i < end
        invariant
            end == offset + length,
            end <= memory@.len(),
            offset <= i <= end,
            bytes@ == memory@.subrange(offset as int, i as int),
        decreases end - i,
    {
        bytes.push(memory[i]);
        i = i + 1;
        proof {
            assert(bytes@ =~= memory@.subrange(offset as int, i as int));
        }
    }
    match string_from_utf8(bytes) {
        Ok(s) => Ok(s),
        Err(e) => {
            let mut v = str_to_chars("invalid UTF-8: ");
            let mut w = str_to_chars(e.as_str());
            v.append(&mut w);
            Err(PluginError::InvalidResponse(chars_to_string(v.as_slice())))
        },
    }
}

/// What an AI completion call of a plugin yields: the completion it
/// returned, its error as it is, or an error when it returned nothing.
pub fn require_completion(r: Result<Option<String>, PluginError>) -> (c: Result<String, PluginError>)
    ensures
        match r {
            Ok(Some(s)) => c == Ok::<String, PluginError>(s),
            Ok(None) => c matches Err(PluginError::Call(m)) && m@
                == "plugin did not return a completion"@,
            Err(e) => c == Err::<String, PluginError>(e),
        },
{
    match r {
        Ok(Some(s)) => Ok(s),
        Ok(None) => Err(PluginError::Call("plugin did not return a completion".to_string())),
        Err(e) => Err(e),
    }
}

/// A string the host writes into the plugin's memory reads back as the
/// same string from the offset and length that the write returned.
pub proof fn law_read_returns_written(memory: Seq<u8>, ptr: nat, s: Seq<char>)
    requires
        in_bounds(ptr, vstd::utf8::encode_utf8(s).len(), memory.len()),
    ensures
        ({
            let len = vstd::utf8::encode_utf8(s).len();
            let after = memory.take(ptr as int) + vstd::utf8::encode_utf8(s) + memory.skip(
                (ptr + len) as int,
            );
            &&& in_bounds(ptr, len, after.len())
            &&& vstd::utf8::valid_utf8(memory_range(after, ptr, len))
            &&& vstd::utf8::decode_utf8(memory_range(after, ptr, len)) == s
        }),
{
    let bytes = vstd::utf8::encode_utf8(s);
    let len = bytes.len();
    let after = memory.take(ptr as int) + bytes + memory.skip((ptr + len) as int);
    assert(memory_range(after, ptr, len) =~= bytes);
    vstd::utf8::encode_utf8_valid_utf8(s);
    vstd::utf8::encode_utf8_decode_utf8(s);
}

/// An offset and a length of at most 32 bits each, packed by a plugin as
/// the high and the low half of a 64-bit value, unpack to themselves; only
/// offset and length both zero read as no string.
pub proof fn law_unpack_inverts_packing(offset: u64, length: u64)
    requires
        offset < 0x1_0000_0000,
        length < 0x1_0000_0000,
        offset != 0 || length != 0,
    ensures
        unpacked(((offset << 32u64) | length) as i64) == Some((offset as nat, length as nat)),
{
    let packed: u64 = (offset << 32u64) | length;
    assert(packed != 0 && packed / 0x1_0000_0000 == offset && packed % 0x1_0000_0000 == length)
        by (bit_vector)
        requires
            packed == (offset << 32u64) | length,
            offset < 0x1_0000_0000,
            length < 0x1_0000_0000,
            offset != 0 || length != 0,
    ;
    assert((packed as i64) as u64 == packed) by (bit_vector);
}

/// A store of the WASM engine, holding the state of its instances.
#[verifier::external_type_specification]
#[verifier::external_body]
#[verifier::reject_recursive_types(T)]
pub struct ExStore<T: 'static>(Store<T>);

/// An instantiated WASM module of the engine.
#[verifier::external_type_specification]
#[verifier::external_body]
pub struct ExInstance(Instance);

/// The WASM engine that compiles and runs plugin modules.
#[verifier::external_type_specification]
#[verifier::external_body]
pub struct ExEngine(Engine);

/// A WASM module compiled by an engine.
#[verifier::external_type_specification]
#[verifier::external_body]
pub struct ExModule(Module);

/// The WASI state of a plugin's store.
#[verifier::external_type_specification]
#[verifier::external_body]
pub struct ExWasiP1Ctx(WasiP1Ctx);

/// Why the engine made no instance of a module, with its message: the WASI
/// imports could not be linked, or the module could not be instantiated.
enum InstantiateFailure {
    Link(String),
    Instantiate(String),
}

/// `Store::new`, `Linker::new`, `p1::add_to_linker_sync` of `wasmtime` and
/// `wasmtime-wasi`, then `Linker::instantiate`: the module instantiated in a
/// new store of `engine` that holds `wasi`, with the WASI imports linked.
/// Store and linker come from the one engine, so that the engine's checks
/// on ownership hold; a module of another engine is refused with an error.
/// Which modules instantiate is not stated.
#[verifier::external_body]
fn instantiate_in_new_store(engine: &Engine, module: &Module, wasi: WasiP1Ctx) -> (r: Result<
    (Store<WasiP1Ctx>, Instance),
    InstantiateFailure,
>) {
    let mut store = Store::new(engine, wasi);
    let mut linker = Linker::new(engine);
    if let Err(e) = p1::add_to_linker_sync(&mut linker, |ctx: &mut WasiP1Ctx| ctx) {
        return Err(InstantiateFailure::Link(format!("{e}")));
    }
    match linker.instantiate(&mut store, module) {
        Ok(instance) => Ok((store, instance)),
        Err(e) => Err(InstantiateFailure::Instantiate(format!("{e}"))),
    }
}

/// Whether `Instance::get_func` of `wasmtime` finds a function exported
/// under `name` by `instance`: what the instance's module exports.
pub uninterp spec fn exports_function(instance: Instance, name: Seq<char>) -> bool;

/// What `Instance::get_memory` and `Memory::data_mut` of `wasmtime` give in
/// `store` for the memory exported under `name` by the instance the store
/// holds: its bytes, `None` when there is no such memory.
pub uninterp spec fn memory_contents(store: Store<WasiP1Ctx>, name: Seq<char>) -> Option<Seq<u8>>;

/// A call the host made of a plugin export: the export's name, the
/// arguments, the state of the plugin before the call, what came back (the
/// engine's error text, or the result as a number when it was of the type
/// asked for), and the state after it.
pub struct ExportCall {
    pub name: Seq<char>,
    pub args: Seq<i32>,
    pub before: Store<WasiP1Ctx>,
    pub answer: Result<Option<int>, Seq<char>>,
    pub after: Store<WasiP1Ctx>,
}

/// `Instance::get_func` of `wasmtime`, on the plugin's own store: whether
/// the module exports a function named `name`. No export is called.
#[verifier::external_body]
fn exports_func(p: &mut PluginInstance, name: &str) -> (found: bool)
    ensures
        final(p).instance_of() == old(p).instance_of(),
        final(p).calls() == old(p).calls(),
        found == exports_function(old(p).instance_of(), name@),
{
    p.instance.get_func(&mut p.store, name).is_some()
}

/// `Instance::get_func` and `Func::call` of `wasmtime`, on the plugin's own
/// store: the export `name` called with no arguments for no results; `None`
/// when there is no such function, else the text of the error when the call
/// fails. The call is kept in the plugin's log of calls; what the function
/// does is not stated.
#[verifier::external_body]
fn call_unit_export(p: &mut PluginInstance, name: &str) -> (r: Option<Result<(), String>>)
    ensures
        final(p).instance_of() == old(p).instance_of(),
        r is Some <==> exports_function(old(p).instance_of(), name@),
        r is None ==> final(p).calls() == old(p).calls(),
        r matches Some(a) ==> final(p).calls() == old(p).calls().push(
            (ExportCall {
                name: name@,
                args: Seq::empty(),
                before: old(p).store_of(),
                answer: match a {
                    Ok(_) => Ok(None),
                    Err(t) => Err(t@),
                },
                after: final(p).store_of(),
            }),
        ),
{
    let f = p.instance.get_func(&mut p.store, name)?;
    match f.call(&mut p.store, &[], &mut []) {
        Ok(()) => Some(Ok(())),
        Err(e) => Some(Err(format!("{e}"))),
    }
}

/// `Instance::get_func` and `Func::call` of `wasmtime`, on the plugin's own
/// store: the export `name` called with the 32-bit integer arguments
/// `args` for one result; `None` when there is no such function, else the
/// text of the error when the call fails, or the result as a 64-bit integer
/// (`None` when it is of another type). The call is kept in the plugin's
/// log of calls; what the function returns is not stated.
#[verifier::external_body]
fn call_export_for_i64(p: &mut PluginInstance, name: &str, args: &[i32]) -> (r: Option<
    Result<Option<i64>, String>,
>)
    ensures
        final(p).instance_of() == old(p).instance_of(),
        r is Some <==> exports_function(old(p).instance_of(), name@),
        r is None ==> final(p).calls() == old(p).calls(),
        r matches Some(a) ==> final(p).calls() == old(p).calls().push(
            (ExportCall {
                name: name@,
                args: args@,
                before: old(p).store_of(),
                answer: match a {
                    Ok(Some(x)) => Ok(Some(x as int)),
                    Ok(None) => Ok(None),
                    Err(t) => Err(t@),
                },
                after: final(p).store_of(),
            }),
        ),
{
    let f = p.instance.get_func(&mut p.store, name)?;
    let params: Vec<Val> = args.iter().map(|a| Val::I32(*a)).collect();
    let mut results = [Val::I64(0)];
    match f.call(&mut p.store, &params, &mut results) {
        Ok(()) => Some(Ok(results[0].i64())),
        Err(e) => Some(Err(format!("{e}"))),
    }
}

/// As [`call_export_for_i64`], for a result read as a 32-bit integer.
#[verifier::external_body]
fn call_export_for_i32(p: &mut PluginInstance, name: &str, args: &[i32]) -> (r: Option<
    Result<Option<i32>, String>,
>)
    ensures
        final(p).instance_of() == old(p).instance_of(),
        r is Some <==> exports_function(old(p).instance_of(), name@),
        r is None ==> final(p).calls() == old(p).calls(),
        r matches Some(a) ==> final(p).calls() == old(p).calls().push(
            (ExportCall {
                name: name@,
                args: args@,
                before: old(p).store_of(),
                answer: match a {
                    Ok(Some(x)) => Ok(Some(x as int)),
                    Ok(None) => Ok(None),
                    Err(t) => Err(t@),
                },
                after: final(p).store_of(),
            }),
        ),
{
    let f = p.instance.get_func(&mut p.store, name)?;
    let params: Vec<Val> = args.iter().map(|a| Val::I32(*a)).collect();
    let mut results = [Val::I32(0)];
    match f.call(&mut p.store, &params, &mut results) {
        Ok(()) => Some(Ok(results[0].i32())),
        Err(e) => Some(Err(format!("{e}"))),
    }
}

/// `Instance::get_memory` and `Memory::data_mut` of `wasmtime`, on the
/// plugin's own store: the bytes of the memory exported as `name`, `None`
/// when there is none. What is written to the bytes is what the memory
/// holds afterwards. No export is called.
#[verifier::external_body]
fn exported_memory<'a>(p: &'a mut PluginInstance, name: &str) -> (m: Option<&'a mut [u8]>)
    ensures
        final(p).instance_of() == old(p).instance_of(),
        final(p).calls() == old(p).calls(),
        m is None ==> memory_contents(old(p).store_of(), name@) is None,
        m matches Some(bytes) ==> {
            &&& memory_contents(old(p).store_of(), name@) == Some(bytes@)
            &&& memory_contents(final(p).store_of(), name@) == Some(final(bytes)@)
        },
{
    let memory = p.instance.get_memory(&mut p.store, name)?;
    Some(memory.data_mut(&mut p.store))
}

/// What reading the answer at `offset`, `length` bytes long, out of a
/// memory holding `mem` gives: an out-of-bounds error, the text the bytes
/// encode, or the error that they are not UTF-8.
pub open spec fn read_outcome(mem: Seq<u8>, offset: nat, length: nat, r: Result<Option<String>, PluginError>) -> bool {
    if !in_bounds(offset, length, mem.len()) {
        r matches Err(PluginError::InvalidResponse(m)) && m@ == read_bounds_message(offset, length, mem.len())
    } else {
        let bytes = memory_range(mem, offset, length);
        if vstd::utf8::valid_utf8(bytes) {
            r matches Ok(Some(s)) && s@ == vstd::utf8::decode_utf8(bytes)
        } else {
            r matches Err(PluginError::InvalidResponse(m)) && m@ == "invalid UTF-8: "@ + utf8_error_text(bytes)
        }
    }
}

/// What reading the answer of a packed reference out of the plugin's
/// memory `mem` gives: no answer for zero; else the error that the plugin
/// has no memory, or what reading the reference out of it gives.
pub open spec fn packed_answer(mem: Option<Seq<u8>>, packed: i64, r: Result<Option<String>, PluginError>) -> bool {
    match unpacked(packed) {
        None => r matches Ok(None),
        Some((offset, length)) => match mem {
            None => r matches Err(PluginError::Call(m)) && m@ == "plugin has no exported memory"@,
            Some(bytes) => read_outcome(bytes, offset, length, r),
        },
    }
}

/// The number an export answered with; zero when its result was of another
/// type.
pub open spec fn answer_value(v: Option<int>) -> int {
    match v {
        Some(x) => x,
        None => 0,
    }
}

/// What the host makes of the string answer of call `c` of export `name`:
/// the call's failure, or the string its packed answer refers to in the
/// memory after the call.
pub open spec fn string_answer(c: ExportCall, name: Seq<char>, r: Result<Option<String>, PluginError>) -> bool {
    match c.answer {
        Err(t) => r matches Err(PluginError::Call(m)) && m@ == name + " failed: "@ + t,
        Ok(v) => packed_answer(memory_contents(c.after, "memory"@), answer_value(v) as i64, r),
    }
}

/// The call of export `name`, with no arguments, that took the plugin from
/// `p0` to `p1` and gave `r` as its string answer; no call and no answer
/// when the module has no such export.
pub open spec fn string_call(p0: PluginInstance, p1: PluginInstance, name: Seq<char>, r: Result<
    Option<String>,
    PluginError,
>) -> bool {
    &&& p1.instance_of() == p0.instance_of()
    &&& if exports_function(p0.instance_of(), name) {
        &&& p1.calls().len() == p0.calls().len() + 1
        &&& p1.calls().drop_last() == p0.calls()
        &&& p1.calls().last().name == name
        &&& p1.calls().last().args == Seq::<i32>::empty()
        &&& p1.calls().last().before == p0.store_of()
        &&& string_answer(p1.calls().last(), name, r)
    } else {
        &&& r matches Ok(None)
        &&& p1.calls() == p0.calls()
    }
}

/// The call of `minal_init` that took the plugin from `p0` to `p1`: it
/// fails when the call fails; nothing is called when there is no such
/// export.
pub open spec fn init_call(p0: PluginInstance, p1: PluginInstance, r: Result<(), PluginError>) -> bool {
    &&& p1.instance_of() == p0.instance_of()
    &&& if exports_function(p0.instance_of(), "minal_init"@) {
        &&& p1.calls().len() == p0.calls().len() + 1
        &&& p1.calls().drop_last() == p0.calls()
        &&& p1.calls().last().name == "minal_init"@
        &&& p1.calls().last().args == Seq::<i32>::empty()
        &&& p1.calls().last().before == p0.store_of()
        &&& match p1.calls().last().answer {
            Err(t) => r matches Err(PluginError::Call(m)) && m@ == "minal_init"@ + " failed: "@ + t,
            Ok(_) => r is Ok,
        }
    } else {
        &&& r is Ok
        &&& p1.calls() == p0.calls()
    }
}

/// `mem` with `bytes` written over it from `at` on.
pub open spec fn spliced(mem: Seq<u8>, at: int, bytes: Seq<u8>) -> Seq<u8> {
    mem.take(at) + bytes + mem.skip(at + bytes.len())
}

/// Where the text `s` goes after the call `a` of `minal_alloc`: the place
/// it answered (zero for an answer of another type) and the length of the
/// text's UTF-8 bytes; else the message of why it cannot be written: the
/// allocation failed, there is no memory, or the bytes do not fit there.
pub open spec fn write_place(a: ExportCall, s: Seq<char>) -> Result<(usize, usize), Seq<char>> {
    let len = vstd::utf8::encode_utf8(s).len();
    match a.answer {
        Err(t) => Err("minal_alloc"@ + " failed: "@ + t),
        Ok(v) => {
            let at = answer_value(v) as usize;
            match memory_contents(a.after, "memory"@) {
                None => Err("plugin has no exported memory"@),
                Some(mem) => if in_bounds(at as nat, len, mem.len()) {
                    Ok((at, len as usize))
                } else {
                    Err(write_bounds_message(at as nat, len, mem.len()))
                },
            }
        },
    }
}

/// The call of export `name` with the text `input` that took the plugin
/// from `p0` to `p1` and gave `r`. Nothing is called when the module has no
/// such export, or no `minal_alloc`. Else `minal_alloc` is called with the
/// length of the input's UTF-8 bytes; when they can be written where it
/// answers, `name` is called with that place and length, its memory then
/// holding the bytes there, and `r` is its string answer; else `r` is the
/// error of the write.
pub open spec fn input_call(p0: PluginInstance, p1: PluginInstance, name: Seq<char>, input: Seq<char>, r: Result<
    Option<String>,
    PluginError,
>) -> bool {
    let n = p0.calls().len() as int;
    let bytes = vstd::utf8::encode_utf8(input);
    &&& p1.instance_of() == p0.instance_of()
    &&& if !exports_function(p0.instance_of(), name) {
        &&& r matches Ok(None)
        &&& p1.calls() == p0.calls()
    } else if !exports_function(p0.instance_of(), "minal_alloc"@) {
        &&& r matches Err(PluginError::Call(m)) && m@ == "plugin does not export minal_alloc"@
        &&& p1.calls() == p0.calls()
    } else {
        &&& p1.calls().len() > n
        &&& p1.calls().take(n) == p0.calls()
        &&& p1.calls()[n].name == "minal_alloc"@
        &&& p1.calls()[n].args == seq![bytes.len() as i32]
        &&& match write_place(p1.calls()[n], input) {
            Err(m) => {
                &&& p1.calls().len() == n + 1
                &&& r matches Err(PluginError::Call(e)) && e@ == m
            },
            Ok((at, len)) => {
                let c = p1.calls()[n + 1];
                &&& p1.calls().len() == n + 2
                &&& c.name == name
                &&& c.args == seq![at as i32, len as i32]
                &&& memory_contents(c.before, "memory"@) == Some(
                    spliced(memory_contents(p1.calls()[n].after, "memory"@)->0, at as int, bytes),
                )
                &&& string_answer(c, name, r)
            },
        }
    }
}

/// Some call of export `name` with the text `input` on the plugin whose
/// module is instantiated as `instance` gave `r` (see [`input_call`]).
pub open spec fn answered(instance: Instance, name: Seq<char>, input: Seq<char>, r: Result<
    Option<String>,
    PluginError,
>) -> bool {
    exists|p0: PluginInstance, p1: PluginInstance|
        #![trigger input_call(p0, p1, name, input, r)]
        p0.instance_of() == instance && input_call(p0, p1, name, input, r)
}

/// The error of a module the engine could not instantiate: `failed to link
/// WASI: ` or `failed to instantiate module: `, then the engine's message.
pub open spec fn instantiate_failure(e: PluginError) -> bool {
    e matches PluginError::Runtime(m) && exists|t: Seq<char>|
        m@ == "failed to link WASI: "@ + t || m@ == "failed to instantiate module: "@ + t
}

/// A plugin module instantiated in a store of its own, with the log of the
/// calls the host made of its exports. Only [`PluginInstance::instantiate`]
/// makes one, so that the instance and the store it lives in always belong
/// together.
pub struct PluginInstance {
    store: Store<WasiP1Ctx>,
    instance: Instance,
    calls: Ghost<Seq<ExportCall>>,
}

impl PluginInstance {
    /// The instantiated module.
    pub closed spec fn instance_of(self) -> Instance {
        self.instance
    }

    /// The state of the plugin: its store.
    pub closed spec fn store_of(self) -> Store<WasiP1Ctx> {
        self.store
    }

    /// The calls the host made of the plugin's exports, oldest first.
    pub closed spec fn calls(self) -> Seq<ExportCall> {
        self.calls@
    }

    /// Instantiates `module` in a new store of `engine` that holds the WASI
    /// state `wasi`, with the WASI imports linked.
    pub fn instantiate(engine: &Engine, module: &Module, wasi: WasiP1Ctx) -> (r: Result<
        PluginInstance,
        PluginError,
    >)
        ensures
            r matches Ok(p) ==> p.calls() == Seq::<ExportCall>::empty(),
            r matches Err(e) ==> instantiate_failure(e),
    {
        match instantiate_in_new_store(engine, module, wasi) {
            Ok((store, instance)) => Ok(PluginInstance { store, instance, calls: Ghost(Seq::empty()) }),
            Err(InstantiateFailure::Link(t)) => {
                let m = concat3("failed to link WASI: ", "", t.as_str());
                proof {
                    reveal_strlit("");
                    assert(m@ == "failed to link WASI: "@ + t@);
                }
                Err(PluginError::Runtime(m))
            },
            Err(InstantiateFailure::Instantiate(t)) => {
                let m = concat3("failed to instantiate module: ", "", t.as_str());
                proof {
                    reveal_strlit("");
                    assert(m@ == "failed to instantiate module: "@ + t@);
                }
                Err(PluginError::Runtime(m))
            },
        }
    }

    /// Calls the plugin's `minal_init`, if it exports one.
    pub fn call_init(&mut self) -> (r: Result<(), PluginError>)
        ensures
            init_call(*old(self), *final(self), r),
    {
        let r = match call_unit_export(self, "minal_init") {
            Some(Err(t)) => Err(PluginError::Call(concat3("minal_init", " failed: ", t.as_str()))),
            Some(Ok(())) => Ok(()),
            None => Ok(()),
        };
        proof {
            if exports_function(old(self).instance_of(), "minal_init"@) {
                assert(self.calls().drop_last() =~= old(self).calls());
            }
        }
        r
    }

    /// The plugin's metadata as JSON, from `minal_info`.
    pub fn call_info(&mut self) -> (r: Result<Option<String>, PluginError>)
        ensures
            string_call(*old(self), *final(self), "minal_info"@, r),
    {
        self.call_string_export("minal_info")
    }

    /// Calls the hook export of `event` with the event as JSON, and hands
    /// back the plugin's answer as JSON; `None` when the plugin has no such
    /// hook or gives no answer.
    pub fn dispatch_event_json(&mut self, event: &PluginEvent, event_json: &str) -> (r: Result<
        Option<String>,
        PluginError,
    >)
        ensures
            input_call(*old(self), *final(self), hook_export(*event), event_json@, r),
    {
        let func_name = hook_export_name(event);
        if !self.has_export(func_name) {
            return Ok(None);
        }
        self.call_string_with_input(func_name, event_json)
    }

    /// Asks the plugin to complete the JSON context.
    pub fn call_ai_complete(&mut self, context_json: &str) -> (r: Result<Option<String>, PluginError>)
        ensures
            input_call(*old(self), *final(self), "minal_ai_complete"@, context_json@, r),
    {
        self.call_string_with_input("minal_ai_complete", context_json)
    }

    /// Asks the plugin to analyse the JSON error.
    pub fn call_ai_analyze_error(&mut self, error_json: &str) -> (r: Result<Option<String>, PluginError>)
        ensures
            input_call(*old(self), *final(self), "minal_ai_analyze_error"@, error_json@, r),
    {
        self.call_string_with_input("minal_ai_analyze_error", error_json)
    }

    /// Whether the plugin exports a function of that name.
    pub fn has_export(&mut self, name: &str) -> (found: bool)
        ensures
            found == exports_function(old(self).instance_of(), name@),
            final(self).instance_of() == old(self).instance_of(),
            final(self).calls() == old(self).calls(),
    {
        exports_func(self, name)
    }

    /// Reads the string a plugin export returned as a packed reference.
    fn read_packed(&mut self, packed: i64) -> (r: Result<Option<String>, PluginError>)
        ensures
            packed_answer(memory_contents(old(self).store_of(), "memory"@), packed, r),
            final(self).instance_of() == old(self).instance_of(),
            final(self).calls() == old(self).calls(),
    {
        match unpack_string_ref(packed) {
            None => Ok(None),
            Some((offset, length)) => match exported_memory(self, "memory") {
                None => Err(PluginError::Call("plugin has no exported memory".to_string())),
                Some(bytes) => match read_string_from_memory(bytes, offset, length) {
                    Ok(s) => Ok(Some(s)),
                    Err(e) => Err(e),
                },
            },
        }
    }

    /// Calls an export that takes nothing and returns a packed string
    /// reference; a result of another type reads as no answer.
    fn call_string_export(&mut self, name: &str) -> (r: Result<Option<String>, PluginError>)
        ensures
            string_call(*old(self), *final(self), name@, r),
    {
        let args: [i32; 0] = [];
        assert(args@ =~= Seq::<i32>::empty());
        let r = match call_export_for_i64(self, name, &args) {
            None => Ok(None),
            Some(Err(t)) => Err(PluginError::Call(concat3(name, " failed: ", t.as_str()))),
            Some(Ok(result)) => {
                let packed = result.unwrap_or(0);
                self.read_packed(packed)
            },
        };
        proof {
            if exports_function(old(self).instance_of(), name@) {
                assert(self.calls().drop_last() =~= old(self).calls());
            }
        }
        r
    }

    /// Writes `s` into the plugin's memory, at the place its `minal_alloc`
    /// gives (zero when it answers with another type).
    fn write_string(&mut self, s: &str) -> (r: Result<(usize, usize), PluginError>)
        ensures
            final(self).instance_of() == old(self).instance_of(),
            !exports_function(old(self).instance_of(), "minal_alloc"@) ==> {
                &&& r matches Err(PluginError::Call(m)) && m@ == "plugin does not export minal_alloc"@
                &&& final(self).calls() == old(self).calls()
            },
            exports_function(old(self).instance_of(), "minal_alloc"@) ==> {
                let a = final(self).calls().last();
                &&& final(self).calls().len() == old(self).calls().len() + 1
                &&& final(self).calls().drop_last() == old(self).calls()
                &&& a.name == "minal_alloc"@
                &&& a.args == seq![vstd::utf8::encode_utf8(s@).len() as i32]
                &&& match write_place(a, s@) {
                    Err(m) => r matches Err(PluginError::Call(e)) && e@ == m,
                    Ok((at, len)) => {
                        &&& r == Ok::<(usize, usize), PluginError>((at, len))
                        &&& memory_contents(final(self).store_of(), "memory"@) == Some(
                            spliced(memory_contents(a.after, "memory"@)->0, at as int, vstd::utf8::encode_utf8(s@)),
                        )
                    },
                }
            },
    {
        let len = s.as_bytes().len();
        let size: i32 = #[verifier::truncate] (len as i32);
        let args: [i32; 1] = [size];
        assert(args@ == seq![size]);
        let ptr: i32 = match call_export_for_i32(self, "minal_alloc", &args) {
            None => {
                return Err(PluginError::Call("plugin does not export minal_alloc".to_string()));
            },
            Some(Err(t)) => {
                return Err(PluginError::Call(concat3("minal_alloc", " failed: ", t.as_str())));
            },
            Some(Ok(p)) => p.unwrap_or(0),
        };
        let at: usize = #[verifier::truncate] (ptr as usize);
        match exported_memory(self, "memory") {
            None => Err(PluginError::Call("plugin has no exported memory".to_string())),
            Some(bytes) => write_string_to_memory(bytes, at, s),
        }
    }

    /// Calls an export that takes a string and returns a packed string
    /// reference; a result of another type reads as no answer.
    fn call_string_with_input(&mut self, name: &str, input: &str) -> (r: Result<
        Option<String>,
        PluginError,
    >)
        ensures
            input_call(*old(self), *final(self), name@, input@, r),
    {
        let ghost p0 = *self;
        let ghost n = p0.calls().len() as int;
        if !exports_func(self, name) {
            return Ok(None);
        }
        let (ptr, len) = match self.write_string(input) {
            Err(e) => {
                proof {
                    if exports_function(p0.instance_of(), "minal_alloc"@) {
                        assert(self.calls().take(n) =~= p0.calls());
                        assert(self.calls()[n] == self.calls().last());
                    }
                }
                return Err(e);
            },
            Ok(pl) => pl,
        };
        let ghost written = *self;
        proof {
            assert(written.calls().take(n) =~= p0.calls());
            assert(written.calls()[n] == written.calls().last());
        }
        let p: i32 = #[verifier::truncate] (ptr as i32);
        let l: i32 = #[verifier::truncate] (len as i32);
        let args: [i32; 2] = [p, l];
        assert(args@ == seq![p, l]);
        let r = match call_export_for_i64(self, name, &args) {
            None => Ok(None),
            Some(Err(t)) => Err(PluginError::Call(concat3(name, " failed: ", t.as_str()))),
            Some(Ok(result)) => {
                let packed = result.unwrap_or(0);
                self.read_packed(packed)
            },
        };
        proof {
            assert(self.calls().take(n) =~= p0.calls());
            assert(self.calls()[n] == written.calls()[n]);
            assert(self.calls()[n + 1] == self.calls().last());
        }
        r
    }
}

impl PluginManager<PluginInstance> {
    /// Calls the hook of `event`, with the event as JSON, on every
    /// subscriber that still has an instance, in call order; the answer of
    /// each (see [`PluginInstance::dispatch_event_json`]).
    pub fn dispatch_event_json(&mut self, event: &PluginEvent, event_json: &str) -> (results: Vec<
        Result<Option<String>, PluginError>,
    >)
        requires
            old(self).wf(),
        ensures
            final(self).wf(),
            final(self).registry() == old(self).registry(),
            results@.len() == live_targets(old(self).entries(), hooks_for(old(self).registry(), *event)).len(),
            forall|k: int|
                0 <= k < results@.len() ==> answered(
                    old(self).entries()[live_targets(
                        old(self).entries(),
                        hooks_for(old(self).registry(), *event),
                    )[k] as int].instance->0.instance_of(),
                    hook_export(*event),
                    event_json@,
                    #[trigger] results@[k],
                ),
    {
        let targets = self.dispatch_targets(event);
        proof {
            crate::manager::law_targets_are_live(self.entries(), hooks_for(self.registry(), *event));
        }
        let ghost start = self.entries();
        let mut results: Vec<Result<Option<String>, PluginError>> = Vec::new();
        let mut i: usize = 0;
        while i < targets.len()
            invariant
                self.wf(),
                i <= targets@.len(),
                results@.len() == i,
                self.registry() == old(self).registry(),
                self.entries().len() == start.len(),
                forall|k: int| 0 <= k < targets@.len() ==> #[trigger] targets@[k] < self.entries().len()
                    && self.entries()[targets@[k] as int].instance is Some
                    && start[targets@[k] as int].instance is Some
                    && self.entries()[targets@[k] as int].instance->0.instance_of()
                    == start[targets@[k] as int].instance->0.instance_of(),
                forall|k: int|
                    0 <= k < results@.len() ==> answered(
                        start[targets@[k] as int].instance->0.instance_of(),
                        hook_export(*event),
                        event_json@,
                        #[trigger] results@[k],
                    ),
            decreases targets@.len() - i,
        {
            let index = targets[i];
            assert(targets@[i as int] == index);
            let ghost before = self.entries();
            let ghost prior = results@;
            let ghost mut witness: Option<(PluginInstance, PluginInstance)> = None;
            match self.instance_mut(index) {
                Some(instance) => {
                    let ghost p0 = *instance;
                    assert(p0.instance_of() == start[index as int].instance->0.instance_of());
                    let r = instance.dispatch_event_json(event, event_json);
                    proof {
                        witness = Some((p0, *instance));
                    }
                    results.push(r);
                },
                None => {
                    assert(false);
                },
            }
            assert forall|k: int| 0 <= k < results@.len() implies answered(
                start[targets@[k] as int].instance->0.instance_of(),
                hook_export(*event),
                event_json@,
                #[trigger] results@[k],
            ) by {
                if k < i {
                    assert(results@[k] == prior[k]);
                } else {
                    let (w0, w1) = witness->0;
                    assert(input_call(w0, w1, hook_export(*event), event_json@, results@[k]));
                }
            }
            assert forall|k: int| 0 <= k < targets@.len() implies #[trigger] targets@[k] < self.entries().len()
                && self.entries()[targets@[k] as int].instance is Some
                && start[targets@[k] as int].instance is Some
                && self.entries()[targets@[k] as int].instance->0.instance_of()
                == start[targets@[k] as int].instance->0.instance_of() by {
                assert(before[targets@[k] as int].instance is Some);
            }
            i = i + 1;
        }
        results
    }
}

} // verus!
