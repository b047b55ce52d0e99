//! Assembly of the final program: a preamble that declares and initialises
//! the globals, writes the data segments and calls the start function; the
//! text of each function in index order; and a postamble that pads the
//! execution with a loop up to the machine's fixed number of steps.
use vstd::prelude::*;
use vstd::string::StringSliceAdditionalSpecFns;
use crate::labels::{optimize_labels, optimized, LabelError};
use crate::module::{GlobalInit, ZkasmModuleInfo};
use crate::reloc::{
    first_misplaced, patch_relocations, patched, sites_ok, PatchError, RelocTarget, Relocation,
};
use crate::text::{decimal, lines_of, push_decimal, push_str, split_lines, text_of};

verus! {

/// The output of the instruction selector for one function: its text, with
/// one placeholder line for each relocation.
pub struct CompiledFunction {
    pub code: Vec<u8>,
    pub relocs: Vec<Relocation>,
}

/// Why no program could be assembled.
#[derive(Clone, Copy, Debug, PartialEq, Eq, Structural)]
pub enum CodegenError {
    /// The module has no start function.
    NoStartFunction,
    /// The global initialiser at this position is not a constant.
    UnsupportedGlobalInit(usize),
    /// The data segment at this position reaches past the last address.
    DataOutOfRange(usize),
    /// The start function, with this index, has no body among the compiled
    /// functions.
    StartWithoutBody(usize),
    /// Relocation `reloc` of function body `func` has no resolved target.
    UnresolvedRelocation { func: usize, reloc: usize },
    /// A relocation of function body `func` is not placed as patching needs.
    Patch { func: usize, patch: PatchError },
    /// The labels of function body `func` could not be processed.
    Label { func: usize, label: LabelError },
}

/// The line that opens the text of function `f`.
pub open spec fn function_label(f: nat) -> Seq<u8> {
    "function_".spec_bytes() + decimal(f) + ":".spec_bytes()
}

/// The position of the first relocation from `k` on whose target is
/// unresolved, or `-1`.
pub open spec fn first_unresolved(rs: Seq<Relocation>, k: int) -> int
    decreases rs.len() - k,
{
    if k < 0 || k >= rs.len() {
        -1
    } else if rs[k].target == RelocTarget::Unresolved {
        k
    } else {
        first_unresolved(rs, k + 1)
    }
}

/// The text of function `f`, from its code and relocations: patched, split
/// into lines, and with its labels renamed and elided.
pub open spec fn function_body(code: Seq<u8>, rs: Seq<Relocation>, f: nat) -> Result<
    Seq<Seq<u8>>,
    LabelError,
> {
    optimized(lines_of(patched(code, rs)), f)
}

/// `body`, the function with index `f`, can be assembled.
pub open spec fn body_ok(body: CompiledFunction, f: nat) -> bool {
    &&& first_unresolved(body.relocs@, 0) == -1
    &&& sites_ok(body.code@, body.relocs@)
    &&& function_body(body.code@, body.relocs@, f) is Ok
}

/// The lines of function `f`: its label line, then its text.
pub open spec fn body_lines(body: CompiledFunction, f: nat) -> Seq<Seq<u8>> {
    seq![function_label(f)] + function_body(body.code@, body.relocs@, f)->Ok_0
}

/// The lines of the first `n` bodies, numbered from `first`.
pub open spec fn bodies_text(bodies: Seq<CompiledFunction>, first: nat, n: int) -> Seq<Seq<u8>>
    decreases n,
{
    if n <= 0 {
        Seq::empty()
    } else {
        bodies_text(bodies, first, n - 1) + body_lines(bodies[n - 1], first + (n - 1) as nat)
    }
}

/// The storage declaration of global `i`.
pub open spec fn global_decl(i: nat) -> Seq<u8> {
    "VAR GLOBAL global_".spec_bytes() + decimal(i)
}

/// The unsigned bit pattern of a constant initialiser, or `None` for any
/// other initialiser.
pub open spec fn init_value(init: GlobalInit) -> Option<nat> {
    match init {
        GlobalInit::I32Const(v) => Some(
            if v < 0 {
                (v + 0x1_0000_0000) as nat
            } else {
                v as nat
            },
        ),
        GlobalInit::I64Const(v) => Some(
            if v < 0 {
                (v + 0x1_0000_0000_0000_0000) as nat
            } else {
                v as nat
            },
        ),
        _ => None,
    }
}

/// The store of `v` to the cell of global `i`.
pub open spec fn init_line(i: nat, v: nat) -> Seq<u8> {
    "  ".spec_bytes() + decimal(v) + " :MSTORE(global_".spec_bytes() + decimal(i) + ")".spec_bytes()
}

/// The number of 8-byte words that `len` bytes take.
pub open spec fn word_count(len: nat) -> nat {
    (len + 7) / 8
}

/// The number whose little-endian bytes are `s`.
pub open spec fn le_value(s: Seq<u8>) -> nat
    decreases s.len(),
{
    if s.len() == 0 {
        0
    } else {
        s[0] as nat + 256 * le_value(s.drop_first())
    }
}

/// Word `k` of `data`: its bytes `8k..8k+8`, or fewer at the end, read little-endian.
pub open spec fn word_of(data: Seq<u8>, k: nat) -> nat {
    let end: int = if 8 * k + 8 <= data.len() {
        (8 * k + 8) as int
    } else {
        data.len() as int
    };
    le_value(data.subrange(8 * k as int, end))
}

/// The store of word `w` at memory address `addr`.
pub open spec fn data_line(addr: nat, w: nat) -> Seq<u8> {
    "  ".spec_bytes() + decimal(w) + " :MSTORE(MEM:".spec_bytes() + decimal(addr) + ")".spec_bytes()
}

/// Every word of a segment of `len` bytes at `offset` has a 64-bit address.
pub open spec fn segment_fits(offset: u64, len: nat) -> bool {
    word_count(len) == 0 || offset + 8 * (word_count(len) - 1) <= u64::MAX
}

/// The stores that write the data segment `data` at `offset`, word by word.
pub open spec fn segment_lines(offset: u64, data: Seq<u8>) -> Seq<Seq<u8>> {
    Seq::new(
        word_count(data.len()),
        |k: int| data_line((offset + 8 * k) as nat, word_of(data, k as nat)),
    )
}

/// The stores of the first `n` data segments.
pub open spec fn data_lines(segs: Seq<(u64, Vec<u8>)>, n: int) -> Seq<Seq<u8>>
    decreases n,
{
    if n <= 0 {
        Seq::empty()
    } else {
        data_lines(segs, n - 1) + segment_lines(segs[n - 1].0, segs[n - 1].1@)
    }
}

/// The preamble of a module with `n_globals` globals, initialisers `inits`,
/// data segments `segs` and start function `start`.
pub open spec fn preamble(
    n_globals: nat,
    inits: Seq<(usize, GlobalInit)>,
    segs: Seq<(u64, Vec<u8>)>,
    start: nat,
) -> Seq<Seq<u8>> {
    Seq::new(n_globals, |i: int| global_decl(i as nat)) + seq!["start:".spec_bytes()] + Seq::new(
        inits.len(),
        |k: int| init_line(inits[k].0 as nat, init_value(inits[k].1)->Some_0),
    ) + data_lines(segs, segs.len() as int) + seq![
        "  0xffff => SP".spec_bytes(),
        "  zkPC + 2 => RR".spec_bytes(),
        "  :JMP(function_".spec_bytes() + decimal(start) + ")".spec_bytes(),
        "  :JMP(finalizeExecution)".spec_bytes(),
    ]
}

/// The padding loop that ends every program: until the last step of the
/// trace it jumps back to itself.
pub open spec fn postamble() -> Seq<Seq<u8>> {
    seq![
        "finalizeExecution:".spec_bytes(),
        "  ${beforeLast()}  :JMPN(finalizeExecution)".spec_bytes(),
        "                   :JMP(start)".spec_bytes(),
    ]
}

/// Every global initialiser is a constant.
pub open spec fn inits_ok(inits: Seq<(usize, GlobalInit)>) -> bool {
    forall|k: int| 0 <= k < inits.len() ==> (#[trigger] init_value(inits[k].1)) is Some
}

/// Every data segment fits the address space.
pub open spec fn segments_ok(segs: Seq<(u64, Vec<u8>)>) -> bool {
    forall|k: int| 0 <= k < segs.len() ==> #[trigger] segment_fits(segs[k].0, segs[k].1@.len())
}

/// Every function body can be assembled.
pub open spec fn bodies_ok(bodies: Seq<CompiledFunction>, first: nat) -> bool {
    forall|d: int| 0 <= d < bodies.len() ==> #[trigger] body_ok(bodies[d], first + d as nat)
}

/// `e` is the error that assembling function body `func`, with function
/// index `f`, reports: its first unresolved relocation, else a misplaced
/// relocation, else what label processing reports.
pub open spec fn body_error(body: CompiledFunction, func: usize, f: nat, e: CodegenError) -> bool {
    match e {
        CodegenError::UnresolvedRelocation { func: d, reloc } => d == func && reloc as int
            == first_unresolved(body.relocs@, 0),
        CodegenError::Patch { func: d, patch: PatchError::MisplacedSite(k) } => d == func
            && first_unresolved(body.relocs@, 0) == -1 && !sites_ok(body.code@, body.relocs@)
            && k == first_misplaced(body.code@, body.relocs@, 0, 0),
        CodegenError::Label { func: d, label } => d == func && first_unresolved(body.relocs@, 0)
            == -1 && sites_ok(body.code@, body.relocs@) && function_body(body.code@, body.relocs@, f)
            == Err::<Seq<Seq<u8>>, LabelError>(label),
        _ => false,
    }
}

/// The preamble of `info` can be assembled.
pub open spec fn preamble_ok(info: &ZkasmModuleInfo) -> bool {
    info.start_func is Some && inits_ok(info.global_inits@) && segments_ok(info.data_inits@)
}

/// The start function of `info` is one of the `n_bodies` functions that the
/// module defines, whose indices follow those of the imported functions.
pub open spec fn start_has_body(info: &ZkasmModuleInfo, n_bodies: nat) -> bool {
    match info.start_func {
        Some(s) => info.imported_funcs@.len() <= s < info.imported_funcs@.len() + n_bodies,
        None => false,
    }
}

/// `e` is the error that assembling the preamble of `info` reports: a missing
/// start function, else its first global initialiser that is not a constant,
/// else its first data segment that does not fit.
pub open spec fn preamble_error(info: &ZkasmModuleInfo, e: CodegenError) -> bool {
    match e {
        CodegenError::NoStartFunction => info.start_func is None,
        CodegenError::UnsupportedGlobalInit(k) => info.start_func is Some && k
            < info.global_inits@.len() && init_value(info.global_inits@[k as int].1) is None
            && forall|j: int|
            0 <= j < k ==> (#[trigger] init_value(info.global_inits@[j].1)) is Some,
        CodegenError::DataOutOfRange(k) => info.start_func is Some && inits_ok(info.global_inits@)
            && k < info.data_inits@.len() && !segment_fits(
            info.data_inits@[k as int].0,
            info.data_inits@[k as int].1@.len(),
        ) && forall|j: int|
            0 <= j < k ==> #[trigger] segment_fits(info.data_inits@[j].0, info.data_inits@[j].1@.len()),
        _ => false,
    }
}

/// The position of the first relocation of `relocs` whose target is unresolved.
fn find_unresolved(relocs: &Vec<Relocation>) -> (r: Option<usize>)
    ensures
        r is None ==> first_unresolved(relocs@, 0) == -1,
        r is Some ==> r->Some_0 as int == first_unresolved(relocs@, 0),
{
    let mut k: usize = 0;
    while k < relocs.len()
        invariant
            k <= relocs@.len(),
            first_unresolved(relocs@, 0) == first_unresolved(relocs@, k as int),
        decreases relocs@.len() - k,
    {
        if relocs[k].target == RelocTarget::Unresolved {
            return Some(k);
        }
        k += 1;
    }
    None
}

/// The lines of function body `func`, with function index `f`: its label
/// line, then its code with every relocation patched and its labels renamed
/// and elided.
pub fn function_text(func: usize, f: u64, body: &CompiledFunction) -> (r: Result<
    Vec<Vec<u8>>,
    CodegenError,
>)
    ensures
        r is Ok <==> body_ok(*body, f as nat),
        r matches Ok(lines) ==> text_of(lines@) == body_lines(*body, f as nat),
        r matches Err(e) ==> body_error(*body, func, f as nat, e),
{
    if let Some(k) = find_unresolved(&body.relocs) {
        return Err(CodegenError::UnresolvedRelocation { func, reloc: k });
    }
    let code = match patch_relocations(&body.code, &body.relocs) {
        Ok(code) => code,
        Err(e) => {
            return Err(CodegenError::Patch { func, patch: e });
        },
    };
    let lines = split_lines(&code);
    match optimize_labels(&lines, f) {
        Ok(text) => {
            let mut text = text;
            let mut label: Vec<u8> = Vec::new();
            push_str(&mut label, "function_");
            push_decimal(&mut label, f);
            push_str(&mut label, ":");
            let mut out: Vec<Vec<u8>> = Vec::new();
            out.push(label);
            let ghost rest = text@;
            out.append(&mut text);
            proof {
                assert(text_of(out@) =~= seq![function_label(f as nat)] + text_of(rest));
            }
            Ok(out)
        },
        Err(e) => Err(CodegenError::Label { func, label: e }),
    }
}

/// `256` to the power `n`.
pub open spec fn pow256(n: nat) -> nat
    decreases n,
{
    if n == 0 {
        1
    } else {
        256 * pow256((n - 1) as nat)
    }
}

proof fn lemma_pow256_mono(a: nat, b: nat)
    requires
        a <= b,
    ensures
        pow256(a) <= pow256(b),
    decreases b - a,
{
    if a < b {
        lemma_pow256_mono(a, (b - 1) as nat);
    }
}

/// The number whose little-endian bytes are `data[start..end]`.
fn le_word(data: &Vec<u8>, start: usize, end: usize) -> (r: u64)
    requires
        start <= end <= data@.len(),
        end - start <= 8,
    ensures
        r as nat == le_value(data@.subrange(start as int, end as int)),
{
    let mut w: u64 = 0;
    let mut j: usize = end;
    proof {
        reveal_with_fuel(pow256, 8);
        assert(data@.subrange(end as int, end as int) =~= Seq::<u8>::empty());
    }
    while j > start
        invariant
            start <= j <= end <= data@.len(),
            end - start <= 8,
            w as nat == le_value(data@.subrange(j as int, end as int)),
            w < pow256((end - j) as nat),
        decreases j - start,
    {
        proof {
            lemma_pow256_mono((end - j) as nat, 7);
            reveal_with_fuel(pow256, 8);
            assert(w * 256 + 255 <= u64::MAX) by (nonlinear_arith)
                requires
                    w < 72057594037927936,
            ;
            assert(data@.subrange(j - 1, end as int).drop_first() =~= data@.subrange(
                j as int,
                end as int,
            ));
        }
        j -= 1;
        w = w * 256 + data[j] as u64;
    }
    w
}

/// Appends to `out` the store of each word of the data segment `data` at `offset`.
fn push_segment_lines(out: &mut Vec<Vec<u8>>, offset: u64, data: &Vec<u8>)
    requires
        segment_fits(offset, data@.len()),
    ensures
        text_of(final(out)@) == text_of(old(out)@) + segment_lines(offset, data@),
{
    let len = data.len();
    let n = len / 8 + if len % 8 == 0 {
        0
    } else {
        1
    };
    assert(n == word_count(len as nat));
    let mut k: usize = 0;
    while k < n
        invariant
            k <= n == word_count(data@.len()),
            len == data@.len(),
            segment_fits(offset, data@.len()),
            text_of(out@) == text_of(old(out)@) + segment_lines(offset, data@).subrange(0, k as int),
        decreases n - k,
    {
        let start = 8 * k;
        let end = if len - start >= 8 {
            start + 8
        } else {
            len
        };
        let w = le_word(data, start, end);
        let addr: u64 = offset + 8 * (k as u64);
        let mut line: Vec<u8> = Vec::new();
        push_str(&mut line, "  ");
        push_decimal(&mut line, w);
        push_str(&mut line, " :MSTORE(MEM:");
        push_decimal(&mut line, addr);
        push_str(&mut line, ")");
        let ghost prev = out@;
        out.push(line);
        proof {
            assert(text_of(out@) =~= text_of(prev).push(line@));
            assert(line@ =~= data_line(addr as nat, word_of(data@, k as nat)));
            assert(segment_lines(offset, data@)[k as int] == line@);
            assert(text_of(out@) =~= text_of(old(out)@) + segment_lines(offset, data@).subrange(
                0,
                k + 1,
            ));
        }
        k += 1;
    }
    proof {
        assert(segment_lines(offset, data@).subrange(0, k as int) =~= segment_lines(offset, data@));
    }
}

/// Whether the data segment `data` at `offset` fits the address space.
fn check_segment(offset: u64, data: &Vec<u8>) -> (r: bool)
    ensures
        r == segment_fits(offset, data@.len()),
{
    let len = data.len();
    let n = len / 8 + if len % 8 == 0 {
        0
    } else {
        1
    };
    assert(n == word_count(len as nat));
    n == 0 || ((8 * (n - 1)) as u64) <= u64::MAX - offset
}

/// Appends `line` to `out`.
fn push_line(out: &mut Vec<Vec<u8>>, line: Vec<u8>)
    ensures
        text_of(final(out)@) == text_of(old(out)@).push(line@),
{
    out.push(line);
    proof {
        assert(text_of(final(out)@) =~= text_of(old(out)@).push(line@));
    }
}

/// A line that holds `s`.
fn text_line(s: &str) -> (r: Vec<u8>)
    ensures
        r@ == s.spec_bytes(),
{
    let mut line: Vec<u8> = Vec::new();
    push_str(&mut line, s);
    proof {
        assert(line@ =~= s.spec_bytes());
    }
    line
}

/// The preamble of the program: a storage cell for each global, then, at
/// `start`, the stores of the globals' initial values and of the data
/// segments, the stack pointer set to its largest value, and a call of the
/// start function followed by a jump to the padding loop.
pub fn generate_preamble(info: &ZkasmModuleInfo) -> (r: Result<Vec<Vec<u8>>, CodegenError>)
    ensures
        r is Ok <==> preamble_ok(info),
        r matches Ok(lines) ==> text_of(lines@) == preamble(
            info.globals@.len(),
            info.global_inits@,
            info.data_inits@,
            info.start_func->Some_0 as nat,
        ),
        r matches Err(e) ==> preamble_error(info, e),
{
    let start = match info.start_func {
        None => {
            return Err(CodegenError::NoStartFunction);
        },
        Some(s) => s,
    };
    let inits = &info.global_inits;
    let segs = &info.data_inits;
    let mut k: usize = 0;
    while k < inits.len()
        invariant
            k <= inits@.len(),
            inits == &info.global_inits,
            info.start_func == Some(start),
            forall|j: int| 0 <= j < k ==> (#[trigger] init_value(inits@[j].1)) is Some,
        decreases inits@.len() - k,
    {
        match inits[k].1 {
            GlobalInit::I32Const(_) => {},
            GlobalInit::I64Const(_) => {},
            _ => {
                proof {
                    assert(init_value(inits@[k as int].1) is None);
                }
                return Err(CodegenError::UnsupportedGlobalInit(k));
            },
        }
        k += 1;
    }
    let mut k: usize = 0;
    while k < segs.len()
        invariant
            k <= segs@.len(),
            segs == &info.data_inits,
            info.start_func == Some(start),
            inits_ok(info.global_inits@),
            forall|j: int| 0 <= j < k ==> #[trigger] segment_fits(segs@[j].0, segs@[j].1@.len()),
        decreases segs@.len() - k,
    {
        if !check_segment(segs[k].0, &segs[k].1) {
            return Err(CodegenError::DataOutOfRange(k));
        }
        k += 1;
    }
    let mut out: Vec<Vec<u8>> = Vec::new();
    let n_globals = info.globals.len();
    let mut i: usize = 0;
    while i < n_globals
        invariant
            i <= n_globals == info.globals@.len(),
            text_of(out@) == Seq::new(i as nat, |g: int| global_decl(g as nat)),
        decreases n_globals - i,
    {
        let mut line: Vec<u8> = Vec::new();
        push_str(&mut line, "VAR GLOBAL global_");
        push_decimal(&mut line, i as u64);
        push_line(&mut out, line);
        i += 1;
        proof {
            assert(text_of(out@) =~= Seq::new(i as nat, |g: int| global_decl(g as nat)));
        }
    }
    push_line(&mut out, text_line("start:"));
    let ghost head = text_of(out@);
    let mut k: usize = 0;
    while k < inits.len()
        invariant
            k <= inits@.len(),
            inits == &info.global_inits,
            inits_ok(inits@),
            text_of(out@) == head + Seq::new(
                k as nat,
                |j: int| init_line(inits@[j].0 as nat, init_value(inits@[j].1)->Some_0),
            ),
        decreases inits@.len() - k,
    {
        let (g, init) = inits[k];
        let v: u64 = match init {
            GlobalInit::I32Const(v) => if v < 0 {
                (v as i64 + 0x1_0000_0000i64) as u64
            } else {
                v as u64
            },
            GlobalInit::I64Const(v) => if v < 0 {
                u64::MAX - ((-(v + 1)) as u64)
            } else {
                v as u64
            },
            _ => {
                proof {
                    assert(init_value(inits@[k as int].1) is Some);
                }
                0
            },
        };
        let mut line: Vec<u8> = Vec::new();
        push_str(&mut line, "  ");
        push_decimal(&mut line, v);
        push_str(&mut line, " :MSTORE(global_");
        push_decimal(&mut line, g as u64);
        push_str(&mut line, ")");
        push_line(&mut out, line);
        k += 1;
        proof {
            assert(text_of(out@) =~= head + Seq::new(
                k as nat,
                |j: int| init_line(inits@[j].0 as nat, init_value(inits@[j].1)->Some_0),
            ));
        }
    }
    let ghost with_inits = text_of(out@);
    let mut k: usize = 0;
    while k < segs.len()
        invariant
            k <= segs@.len(),
            segs == &info.data_inits,
            segments_ok(segs@),
            text_of(out@) == with_inits + data_lines(segs@, k as int),
        decreases segs@.len() - k,
    {
        assert(segment_fits(segs@[k as int].0, segs@[k as int].1@.len()));
        push_segment_lines(&mut out, segs[k].0, &segs[k].1);
        k += 1;
        proof {
            assert(text_of(out@) =~= with_inits + data_lines(segs@, k as int));
        }
    }
    push_line(&mut out, text_line("  0xffff => SP"));
    push_line(&mut out, text_line("  zkPC + 2 => RR"));
    let mut call: Vec<u8> = Vec::new();
    push_str(&mut call, "  :JMP(function_");
    push_decimal(&mut call, start as u64);
    push_str(&mut call, ")");
    push_line(&mut out, call);
    push_line(&mut out, text_line("  :JMP(finalizeExecution)"));
    proof {
        assert(text_of(out@) =~= preamble(
            info.globals@.len(),
            info.global_inits@,
            info.data_inits@,
            start as nat,
        ));
    }
    Ok(out)
}

/// The padding loop that ends the program.
pub fn generate_postamble() -> (r: Vec<Vec<u8>>)
    ensures
        text_of(r@) == postamble(),
{
    let mut out: Vec<Vec<u8>> = Vec::new();
    push_line(&mut out, text_line("finalizeExecution:"));
    push_line(&mut out, text_line("  ${beforeLast()}  :JMPN(finalizeExecution)"));
    push_line(&mut out, text_line("                   :JMP(start)"));
    proof {
        assert(text_of(out@) =~= postamble());
    }
    out
}

/// The whole program for the module `info` whose defined functions compiled
/// to `bodies`, in order: the preamble, the text of each function, labelled
/// `function_<i>` with `i` its index among all functions (imports first), and
/// the postamble. Fails, without a partial program, on the first defect found.
pub fn generate_zkasm(info: &ZkasmModuleInfo, bodies: &Vec<CompiledFunction>) -> (r: Result<
    Vec<Vec<u8>>,
    CodegenError,
>)
    requires
        info.imported_funcs@.len() + bodies@.len() <= u64::MAX,
    ensures
        r is Ok <==> preamble_ok(info) && start_has_body(info, bodies@.len()) && bodies_ok(
            bodies@,
            info.imported_funcs@.len(),
        ),
        r matches Ok(lines) ==> text_of(lines@) == preamble(
            info.globals@.len(),
            info.global_inits@,
            info.data_inits@,
            info.start_func->Some_0 as nat,
        ) + bodies_text(bodies@, info.imported_funcs@.len(), bodies@.len() as int) + postamble(),
        r matches Err(e) ==> preamble_error(info, e) || (preamble_ok(info) && !start_has_body(
            info,
            bodies@.len(),
        ) && e == CodegenError::StartWithoutBody(info.start_func->Some_0)) || (preamble_ok(info)
            && start_has_body(info, bodies@.len()) && exists|d: int|
            #![trigger body_error(bodies@[d], d as usize, info.imported_funcs@.len() + d as nat, e)]
            0 <= d < bodies@.len() && (forall|j: int|
                0 <= j < d ==> #[trigger] body_ok(bodies@[j], info.imported_funcs@.len() + j as nat))
                && body_error(bodies@[d], d as usize, info.imported_funcs@.len() + d as nat, e)),
{
    let mut out = match generate_preamble(info) {
        Ok(lines) => lines,
        Err(e) => {
            return Err(e);
        },
    };
    let ghost pre = text_of(out@);
    let first = info.imported_funcs.len();
    let start = match info.start_func {
        Some(s) => s,
        None => {
            return Err(CodegenError::NoStartFunction);
        },
    };
    if start < first || start - first >= bodies.len() {
        return Err(CodegenError::StartWithoutBody(start));
    }
    let mut d: usize = 0;
    while d < bodies.len()
        invariant
            d <= bodies@.len(),
            first == info.imported_funcs@.len(),
            first + bodies@.len() <= u64::MAX,
            preamble_ok(info),
            start_has_body(info, bodies@.len()),
            forall|j: int| 0 <= j < d ==> #[trigger] body_ok(bodies@[j], first as nat + j as nat),
            text_of(out@) == pre + bodies_text(bodies@, first as nat, d as int),
        decreases bodies@.len() - d,
    {
        let f = first as u64 + d as u64;
        match function_text(d, f, &bodies[d]) {
            Ok(lines) => {
                let mut lines = lines;
                let ghost added = text_of(lines@);
                let ghost before = out@;
                out.append(&mut lines);
                proof {
                    assert(text_of(out@) =~= text_of(before) + added);
                    assert(text_of(out@) =~= pre + bodies_text(bodies@, first as nat, d + 1));
                }
            },
            Err(e) => {
                proof {
                    let di = d as int;
                    let fi: nat = first as nat + di as nat;
                    assert(f as nat == fi);
                    assert(!body_ok(bodies@[di], fi));
                    assert(!bodies_ok(bodies@, first as nat));
                    assert(body_error(bodies@[di], di as usize, fi, e));
                    assert(forall|j: int|
                        0 <= j < di ==> #[trigger] body_ok(
                            bodies@[j],
                            info.imported_funcs@.len() + j as nat,
                        ));
                }
                return Err(e);
            },
        }
        d += 1;
    }
    let mut post = generate_postamble();
    let ghost before = out@;
    out.append(&mut post);
    proof {
        assert(text_of(out@) =~= text_of(before) + postamble());
    }
    Ok(out)
}

/// Every program ends in the padding loop, and the preamble's last line, which
/// control reaches when the start function returns, jumps to that loop.
pub proof fn lemma_program_shape(
    n_globals: nat,
    inits: Seq<(usize, GlobalInit)>,
    segs: Seq<(u64, Vec<u8>)>,
    start: nat,
    bodies: Seq<CompiledFunction>,
    first: nat,
)
    ensures
        ({
            let pre = preamble(n_globals, inits, segs, start);
            let program = pre + bodies_text(bodies, first, bodies.len() as int) + postamble();
            &&& pre.last() == "  :JMP(finalizeExecution)".spec_bytes()
            &&& pre[pre.len() - 2] == "  :JMP(function_".spec_bytes() + decimal(start) + ")".spec_bytes()
            &&& program.subrange(program.len() - 3, program.len() as int) == postamble()
            &&& postamble()[0] == "finalizeExecution:".spec_bytes()
        }),
{
    let pre = preamble(n_globals, inits, segs, start);
    let program = pre + bodies_text(bodies, first, bodies.len() as int) + postamble();
    assert(program.subrange(program.len() - 3, program.len() as int) =~= postamble());
}

} // verus!
