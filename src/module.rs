//! What the translator records of a WebAssembly module: signatures, functions,
//! globals and their initial values, tables, memories, data segments and the
//! start function.
//!
//! Imported entities of each kind are declared, and so indexed, before the
//! ones that the module defines.
use vstd::prelude::*;

verus! {

/// A value type of WebAssembly.
#[derive(Clone, Copy, Debug, PartialEq, Eq, Structural)]
pub enum WasmType {
    I32,
    I64,
    F32,
    F64,
    V128,
    Ref,
}

/// A function signature.
#[derive(Debug)]
pub struct FuncType {
    pub params: Vec<WasmType>,
    pub returns: Vec<WasmType>,
}

/// A value type of the intermediate representation.
#[derive(Clone, Copy, Debug, PartialEq, Eq, Structural)]
pub enum IrType {
    I32,
    I64,
    F32,
    F64,
    I8X16,
    R32,
    R64,
}

/// The width of a pointer on the target.
#[derive(Clone, Copy, Debug, PartialEq, Eq, Structural)]
pub enum PointerWidth {
    Bits32,
    Bits64,
}

impl PointerWidth {
    /// The number of bytes of a pointer.
    pub open spec fn spec_bytes(&self) -> u8 {
        match *self {
            PointerWidth::Bits32 => 4,
            PointerWidth::Bits64 => 8,
        }
    }

    /// The number of bytes of a pointer.
    pub fn bytes(&self) -> (r: u8)
        ensures
            r == self.spec_bytes(),
    {
        match *self {
            PointerWidth::Bits32 => 4,
            PointerWidth::Bits64 => 8,
        }
    }
}

/// A calling convention.
#[derive(Clone, Copy, Debug, PartialEq, Eq, Structural)]
pub enum CallConv {
    /// The fast convention that functions of a module use among themselves.
    Fast,
}

/// A function signature in the intermediate representation.
#[derive(Debug)]
pub struct IrSignature {
    pub call_conv: CallConv,
    pub params: Vec<IrType>,
    pub returns: Vec<IrType>,
}

/// The type that a value of `ty` has in a signature, on a target whose
/// pointers have width `pw`: a reference is a reference of pointer width, and
/// a vector is sixteen bytes.
pub open spec fn abi_type(ty: WasmType, pw: PointerWidth) -> IrType {
    match ty {
        WasmType::I32 => IrType::I32,
        WasmType::I64 => IrType::I64,
        WasmType::F32 => IrType::F32,
        WasmType::F64 => IrType::F64,
        WasmType::V128 => IrType::I8X16,
        WasmType::Ref => match pw {
            PointerWidth::Bits32 => IrType::R32,
            PointerWidth::Bits64 => IrType::R64,
        },
    }
}

/// The type with which a global of type `ty` is stored: as in a signature, but
/// a reference is always a 64-bit reference.
pub open spec fn global_type(ty: WasmType) -> IrType {
    abi_type(ty, PointerWidth::Bits64)
}

/// The type that a value of `ty` has in a signature on a target whose pointers
/// have width `pw`.
pub fn ir_type_of(ty: WasmType, pw: PointerWidth) -> (r: IrType)
    ensures
        r == abi_type(ty, pw),
{
    match ty {
        WasmType::I32 => IrType::I32,
        WasmType::I64 => IrType::I64,
        WasmType::F32 => IrType::F32,
        WasmType::F64 => IrType::F64,
        WasmType::V128 => IrType::I8X16,
        WasmType::Ref => match pw {
            PointerWidth::Bits32 => IrType::R32,
            PointerWidth::Bits64 => IrType::R64,
        },
    }
}

/// The type with which a global of type `ty` is stored.
pub fn global_ir_type(ty: WasmType) -> (r: IrType)
    ensures
        r == global_type(ty),
{
    ir_type_of(ty, PointerWidth::Bits64)
}

/// The types of `tys` in a signature on a target whose pointers have width `pw`.
fn abi_types(tys: &Vec<WasmType>, pw: PointerWidth) -> (r: Vec<IrType>)
    ensures
        r@ == tys@.map_values(|t: WasmType| abi_type(t, pw)),
{
    let mut out: Vec<IrType> = Vec::new();
    let mut i: usize = 0;
    while i < tys.len()
        invariant
            i <= tys@.len(),
            out@ == tys@.subrange(0, i as int).map_values(|t: WasmType| abi_type(t, pw)),
        decreases tys@.len() - i,
    {
        out.push(ir_type_of(tys[i], pw));
        i += 1;
        proof {
            assert(out@ =~= tys@.subrange(0, i as int).map_values(|t: WasmType| abi_type(t, pw)));
        }
    }
    proof {
        assert(tys@.subrange(0, i as int) =~= tys@);
    }
    out
}

/// The wasm features that translation turns on besides the parser's defaults.
#[derive(Clone, Copy, Debug, PartialEq, Eq, Structural)]
pub struct WasmFeatures {
    pub multi_value: bool,
    pub simd: bool,
    pub reference_types: bool,
    pub bulk_memory: bool,
}

/// A global variable's type.
#[derive(Clone, Copy, Debug, PartialEq, Eq, Structural)]
pub struct Global {
    pub wasm_ty: WasmType,
    pub mutable: bool,
}

/// The initial value of a global variable.
#[derive(Clone, Copy, Debug, PartialEq, Eq, Structural)]
pub enum GlobalInit {
    I32Const(i32),
    I64Const(i64),
    /// The value of another global.
    GetGlobal(u32),
    /// A null reference.
    RefNullConst,
    /// A reference to a function.
    RefFunc(u32),
}

/// A table's limits.
#[derive(Clone, Copy, Debug, PartialEq, Eq, Structural)]
pub struct Table {
    pub minimum: u32,
    pub maximum: Option<u32>,
}

/// A linear memory's limits, in pages.
#[derive(Clone, Copy, Debug, PartialEq, Eq, Structural)]
pub struct Memory {
    pub minimum: u64,
    pub maximum: Option<u64>,
}

/// A collection of names under which a given entity is exported.
pub struct Exportable<T> {
    /// A wasm entity.
    pub entity: T,
    /// Names under which the entity is exported.
    pub export_names: Vec<String>,
}

impl<T> Exportable<T> {
    /// An entity exported under no name.
    pub fn new(entity: T) -> (r: Self)
        ensures
            r.entity == entity,
            r.export_names@.len() == 0,
    {
        Exportable { entity, export_names: Vec::new() }
    }
}

/// The declarations of a module, in the order in which they were made.
pub struct ZkasmModuleInfo {
    /// The width of the target's pointers.
    pub pointer_width: PointerWidth,
    /// Signatures as provided by `declare_type_func`.
    pub signatures: Vec<IrSignature>,
    /// Module and field names of imported functions.
    pub imported_funcs: Vec<(String, String)>,
    /// Module and field names of imported globals.
    pub imported_globals: Vec<(String, String)>,
    /// Module and field names of imported tables.
    pub imported_tables: Vec<(String, String)>,
    /// Module and field names of imported memories.
    pub imported_memories: Vec<(String, String)>,
    /// Functions, imported and local, each with its signature index.
    pub functions: Vec<Exportable<usize>>,
    /// Tables, imported and local.
    pub tables: Vec<Exportable<Table>>,
    /// Memories, imported and local.
    pub memories: Vec<Exportable<Memory>>,
    /// Globals, imported and local.
    pub globals: Vec<Exportable<Global>>,
    /// Initial values of the globals that the module defines, by global index.
    pub global_inits: Vec<(usize, GlobalInit)>,
    /// Data segments: a byte offset into linear memory and the bytes.
    pub data_inits: Vec<(u64, Vec<u8>)>,
    /// The start function.
    pub start_func: Option<usize>,
}

impl ZkasmModuleInfo {
    /// A module with no declarations, for a target whose pointers have width
    /// `pointer_width`.
    pub fn new(pointer_width: PointerWidth) -> (r: Self)
        ensures
            r.pointer_width == pointer_width,
            r.signatures@.len() == 0,
            r.imported_funcs@.len() == 0,
            r.imported_globals@.len() == 0,
            r.imported_tables@.len() == 0,
            r.imported_memories@.len() == 0,
            r.functions@.len() == 0,
            r.tables@.len() == 0,
            r.memories@.len() == 0,
            r.globals@.len() == 0,
            r.global_inits@.len() == 0,
            r.data_inits@.len() == 0,
            r.start_func is None,
    {
        ZkasmModuleInfo {
            pointer_width,
            signatures: Vec::new(),
            imported_funcs: Vec::new(),
            imported_globals: Vec::new(),
            imported_tables: Vec::new(),
            imported_memories: Vec::new(),
            functions: Vec::new(),
            tables: Vec::new(),
            memories: Vec::new(),
            globals: Vec::new(),
            global_inits: Vec::new(),
            data_inits: Vec::new(),
            start_func: None,
        }
    }
}

/// `a` and `b` agree on everything that program assembly reads: functions,
/// imported functions, globals and their initialisers, data segments, the
/// start function and the pointer width.
pub open spec fn same_program_fields(a: &ZkasmModuleInfo, b: &ZkasmModuleInfo) -> bool {
    &&& a.functions@ == b.functions@
    &&& a.imported_funcs@ == b.imported_funcs@
    &&& a.globals@ == b.globals@
    &&& a.global_inits@ == b.global_inits@
    &&& a.data_inits@ == b.data_inits@
    &&& a.start_func == b.start_func
    &&& a.pointer_width == b.pointer_width
}

/// Collects the declarations of a module as the translator reports them.
pub struct ZkasmEnvironment {
    /// Module information.
    pub info: ZkasmModuleInfo,
    /// Size in bytes of the bytecode of each defined function.
    pub func_bytecode_sizes: Vec<usize>,
    /// Name of the module from the wasm file.
    pub module_name: Option<String>,
    /// Function names, by function index; `None` where no name was given.
    pub function_names: Vec<Option<String>>,
}

impl ZkasmEnvironment {
    /// The name given to each function, by function index.
    pub open spec fn names(&self) -> Seq<Option<String>> {
        self.function_names@
    }

    /// An environment with no declarations, for a target whose pointers have
    /// width `pointer_width`.
    pub fn new(pointer_width: PointerWidth) -> (r: Self)
        ensures
            r.info.pointer_width == pointer_width,
            r.info.signatures@.len() == 0,
            r.names().len() == 0,
            r.info.functions@.len() == 0,
            r.info.imported_funcs@.len() == 0,
            r.info.globals@.len() == 0,
            r.info.global_inits@.len() == 0,
            r.info.data_inits@.len() == 0,
            r.info.start_func is None,
            r.func_bytecode_sizes@.len() == 0,
            r.module_name is None,
    {
        ZkasmEnvironment {
            info: ZkasmModuleInfo::new(pointer_width),
            func_bytecode_sizes: Vec::new(),
            module_name: None,
            function_names: Vec::new(),
        }
    }

    /// The signature index of the function at the given index.
    pub fn get_func_type(&self, func_index: usize) -> (r: usize)
        requires
            func_index < self.info.functions@.len(),
        ensures
            r == self.info.functions@[func_index as int].entity,
    {
        self.info.functions[func_index].entity
    }

    /// The number of imported functions.
    pub fn get_num_func_imports(&self) -> (r: usize)
        ensures
            r == self.info.imported_funcs@.len(),
    {
        self.info.imported_funcs.len()
    }

    /// Records the signature of `wasm`: its parameter and result types in the
    /// intermediate representation, with the fast calling convention.
    pub fn declare_type_func(&mut self, wasm: FuncType)
        ensures
            final(self).info.imported_funcs@ == old(self).info.imported_funcs@,
            final(self).info.signatures@.len() == old(self).info.signatures@.len() + 1,
            forall|i: int|
                0 <= i < old(self).info.signatures@.len() ==> final(self).info.signatures@[i]
                    == old(self).info.signatures@[i],
            final(self).info.signatures@.last().call_conv == CallConv::Fast,
            final(self).info.signatures@.last().params@ == wasm.params@.map_values(
                |t: WasmType| abi_type(t, old(self).info.pointer_width),
            ),
            final(self).info.signatures@.last().returns@ == wasm.returns@.map_values(
                |t: WasmType| abi_type(t, old(self).info.pointer_width),
            ),
            final(self).info.pointer_width == old(self).info.pointer_width,
            final(self).info.functions@ == old(self).info.functions@,
            final(self).info.globals@ == old(self).info.globals@,
            final(self).info.global_inits@ == old(self).info.global_inits@,
            final(self).info.data_inits@ == old(self).info.data_inits@,
            final(self).info.start_func == old(self).info.start_func,
    {
        let pw = self.info.pointer_width;
        let sig = IrSignature {
            call_conv: CallConv::Fast,
            params: abi_types(&wasm.params, pw),
            returns: abi_types(&wasm.returns, pw),
        };
        self.info.signatures.push(sig);
    }

    /// Records an imported function with signature `index`. Imported functions
    /// come before the functions that the module defines.
    pub fn declare_func_import(&mut self, index: usize, module: String, field: String)
        requires
            old(self).info.functions@.len() == old(self).info.imported_funcs@.len(),
        ensures
            final(self).info.functions@.len() == old(self).info.functions@.len() + 1,
            final(self).info.functions@.drop_last() == old(self).info.functions@,
            final(self).info.functions@.last().entity == index,
            final(self).info.functions@.last().export_names@.len() == 0,
            final(self).info.imported_funcs@ == old(self).info.imported_funcs@.push((module, field)),
            final(self).info.globals@ == old(self).info.globals@,
            final(self).info.global_inits@ == old(self).info.global_inits@,
            final(self).info.data_inits@ == old(self).info.data_inits@,
            final(self).info.start_func == old(self).info.start_func,
    {
        self.info.functions.push(Exportable::new(index));
        self.info.imported_funcs.push((module, field));
    }

    /// Records a function that the module defines, with signature `index`.
    pub fn declare_func_type(&mut self, index: usize)
        ensures
            final(self).info.functions@.len() == old(self).info.functions@.len() + 1,
            final(self).info.functions@.drop_last() == old(self).info.functions@,
            final(self).info.functions@.last().entity == index,
            final(self).info.functions@.last().export_names@.len() == 0,
            final(self).info.imported_funcs@ == old(self).info.imported_funcs@,
            final(self).info.globals@ == old(self).info.globals@,
            final(self).info.global_inits@ == old(self).info.global_inits@,
            final(self).info.data_inits@ == old(self).info.data_inits@,
            final(self).info.start_func == old(self).info.start_func,
    {
        self.info.functions.push(Exportable::new(index));
    }

    /// Records a global that the module defines, with its initial value.
    pub fn declare_global(&mut self, global: Global, init: GlobalInit)
        ensures
            final(self).info.globals@.len() == old(self).info.globals@.len() + 1,
            final(self).info.globals@.drop_last() == old(self).info.globals@,
            final(self).info.globals@.last().entity == global,
            final(self).info.globals@.last().export_names@.len() == 0,
            final(self).info.global_inits@ == old(self).info.global_inits@.push(
                (old(self).info.globals@.len() as usize, init),
            ),
            final(self).info.functions@ == old(self).info.functions@,
            final(self).info.imported_funcs@ == old(self).info.imported_funcs@,
            final(self).info.data_inits@ == old(self).info.data_inits@,
            final(self).info.start_func == old(self).info.start_func,
    {
        let index = self.info.globals.len();
        self.info.globals.push(Exportable::new(global));
        self.info.global_inits.push((index, init));
    }

    /// Records an imported global.
    pub fn declare_global_import(&mut self, global: Global, module: String, field: String)
        ensures
            final(self).info.globals@.len() == old(self).info.globals@.len() + 1,
            final(self).info.globals@.drop_last() == old(self).info.globals@,
            final(self).info.globals@.last().entity == global,
            final(self).info.imported_globals@ == old(self).info.imported_globals@.push(
                (module, field),
            ),
            final(self).info.global_inits@ == old(self).info.global_inits@,
            final(self).info.functions@ == old(self).info.functions@,
            final(self).info.data_inits@ == old(self).info.data_inits@,
            final(self).info.start_func == old(self).info.start_func,
    {
        self.info.globals.push(Exportable::new(global));
        self.info.imported_globals.push((module, field));
    }

    /// Records a table that the module defines.
    pub fn declare_table(&mut self, table: Table)
        ensures
            same_program_fields(&final(self).info, &old(self).info),
            final(self).info.tables@.len() == old(self).info.tables@.len() + 1,
            final(self).info.tables@.drop_last() == old(self).info.tables@,
            final(self).info.tables@.last().entity == table,
            final(self).info.imported_tables@ == old(self).info.imported_tables@,
    {
        self.info.tables.push(Exportable::new(table));
    }

    /// Records an imported table.
    pub fn declare_table_import(&mut self, table: Table, module: String, field: String)
        ensures
            same_program_fields(&final(self).info, &old(self).info),
            final(self).info.tables@.len() == old(self).info.tables@.len() + 1,
            final(self).info.tables@.drop_last() == old(self).info.tables@,
            final(self).info.tables@.last().entity == table,
            final(self).info.imported_tables@ == old(self).info.imported_tables@.push(
                (module, field),
            ),
    {
        self.info.tables.push(Exportable::new(table));
        self.info.imported_tables.push((module, field));
    }

    /// Records a memory that the module defines.
    pub fn declare_memory(&mut self, memory: Memory)
        ensures
            same_program_fields(&final(self).info, &old(self).info),
            final(self).info.memories@.len() == old(self).info.memories@.len() + 1,
            final(self).info.memories@.drop_last() == old(self).info.memories@,
            final(self).info.memories@.last().entity == memory,
            final(self).info.imported_memories@ == old(self).info.imported_memories@,
    {
        self.info.memories.push(Exportable::new(memory));
    }

    /// Records an imported memory.
    pub fn declare_memory_import(&mut self, memory: Memory, module: String, field: String)
        ensures
            same_program_fields(&final(self).info, &old(self).info),
            final(self).info.memories@.len() == old(self).info.memories@.len() + 1,
            final(self).info.memories@.drop_last() == old(self).info.memories@,
            final(self).info.memories@.last().entity == memory,
            final(self).info.imported_memories@ == old(self).info.imported_memories@.push(
                (module, field),
            ),
    {
        self.info.memories.push(Exportable::new(memory));
        self.info.imported_memories.push((module, field));
    }

    /// Records a data segment of memory `0` at a constant offset. Segments of
    /// other memories, and offsets taken from a global, are not supported:
    /// callers must not declare them.
    pub fn declare_data_initialization(
        &mut self,
        memory_index: usize,
        base: Option<usize>,
        offset: u64,
        data: Vec<u8>,
    )
        requires
            memory_index == 0,
            base is None,
        ensures
            final(self).info.imported_funcs@ == old(self).info.imported_funcs@,
            final(self).info.data_inits@ == old(self).info.data_inits@.push((offset, data)),
            final(self).info.functions@ == old(self).info.functions@,
            final(self).info.globals@ == old(self).info.globals@,
            final(self).info.global_inits@ == old(self).info.global_inits@,
            final(self).info.start_func == old(self).info.start_func,
    {
        self.info.data_inits.push((offset, data));
    }

    /// Adds `name` to the export names of function `func_index`.
    pub fn declare_func_export(&mut self, func_index: usize, name: String)
        requires
            func_index < old(self).info.functions@.len(),
        ensures
            final(self).info.functions@.len() == old(self).info.functions@.len(),
            forall|i: int|
                0 <= i < old(self).info.functions@.len() && i != func_index ==> final(self).info.functions@[i] == old(self).info.functions@[i],
            final(self).info.functions@[func_index as int].entity == old(self).info.functions@[func_index as int].entity,
            final(self).info.functions@[func_index as int].export_names@ == old(self).info.functions@[func_index as int].export_names@.push(name),
            final(self).info.imported_funcs@ == old(self).info.imported_funcs@,
            final(self).info.globals@ == old(self).info.globals@,
            final(self).info.global_inits@ == old(self).info.global_inits@,
            final(self).info.data_inits@ == old(self).info.data_inits@,
            final(self).info.start_func == old(self).info.start_func,
    {
        let mut f = self.info.functions.remove(func_index);
        f.export_names.push(name);
        self.info.functions.insert(func_index, f);
    }

    /// Adds `name` to the export names of table `table_index`.
    pub fn declare_table_export(&mut self, table_index: usize, name: String)
        requires
            table_index < old(self).info.tables@.len(),
        ensures
            same_program_fields(&final(self).info, &old(self).info),
            final(self).info.tables@.len() == old(self).info.tables@.len(),
            forall|i: int|
                0 <= i < old(self).info.tables@.len() && i != table_index ==> final(self).info.tables@[i]
                    == old(self).info.tables@[i],
            final(self).info.tables@[table_index as int].entity == old(self).info.tables@[table_index as int].entity,
            final(self).info.tables@[table_index as int].export_names@ == old(self).info.tables@[table_index as int].export_names@.push(name),
            final(self).info.functions@ == old(self).info.functions@,
            final(self).info.globals@ == old(self).info.globals@,
            final(self).info.memories@ == old(self).info.memories@,
    {
        let mut t = self.info.tables.remove(table_index);
        t.export_names.push(name);
        self.info.tables.insert(table_index, t);
    }

    /// Adds `name` to the export names of memory `memory_index`.
    pub fn declare_memory_export(&mut self, memory_index: usize, name: String)
        requires
            memory_index < old(self).info.memories@.len(),
        ensures
            same_program_fields(&final(self).info, &old(self).info),
            final(self).info.memories@.len() == old(self).info.memories@.len(),
            forall|i: int|
                0 <= i < old(self).info.memories@.len() && i != memory_index ==> final(self).info.memories@[i]
                    == old(self).info.memories@[i],
            final(self).info.memories@[memory_index as int].entity == old(self).info.memories@[memory_index as int].entity,
            final(self).info.memories@[memory_index as int].export_names@ == old(self).info.memories@[memory_index as int].export_names@.push(name),
            final(self).info.functions@ == old(self).info.functions@,
            final(self).info.globals@ == old(self).info.globals@,
            final(self).info.tables@ == old(self).info.tables@,
    {
        let mut m = self.info.memories.remove(memory_index);
        m.export_names.push(name);
        self.info.memories.insert(memory_index, m);
    }

    /// Adds `name` to the export names of global `global_index`.
    pub fn declare_global_export(&mut self, global_index: usize, name: String)
        requires
            global_index < old(self).info.globals@.len(),
        ensures
            final(self).info.globals@.len() == old(self).info.globals@.len(),
            forall|i: int|
                0 <= i < old(self).info.globals@.len() && i != global_index ==> final(self).info.globals@[i] == old(self).info.globals@[i],
            final(self).info.globals@[global_index as int].entity == old(self).info.globals@[global_index as int].entity,
            final(self).info.globals@[global_index as int].export_names@ == old(self).info.globals@[global_index as int].export_names@.push(name),
            final(self).info.functions@ == old(self).info.functions@,
            final(self).info.global_inits@ == old(self).info.global_inits@,
            final(self).info.data_inits@ == old(self).info.data_inits@,
            final(self).info.start_func == old(self).info.start_func,
    {
        let mut g = self.info.globals.remove(global_index);
        g.export_names.push(name);
        self.info.globals.insert(global_index, g);
    }

    /// Records the start function.
    pub fn declare_start_func(&mut self, func_index: usize)
        ensures
            final(self).info.start_func == Some(func_index),
            final(self).info.functions@ == old(self).info.functions@,
            final(self).info.imported_funcs@ == old(self).info.imported_funcs@,
            final(self).info.globals@ == old(self).info.globals@,
            final(self).info.global_inits@ == old(self).info.global_inits@,
            final(self).info.data_inits@ == old(self).info.data_inits@,
    {
        self.info.start_func = Some(func_index);
    }

    /// Records the size in bytes of the next defined function's bytecode, and
    /// returns that function's index: the imported functions come first.
    pub fn define_function_body(&mut self, bytecode_size: usize) -> (r: usize)
        requires
            old(self).info.imported_funcs@.len() + old(self).func_bytecode_sizes@.len() <= usize::MAX,
        ensures
            r == old(self).info.imported_funcs@.len() + old(self).func_bytecode_sizes@.len(),
            final(self).func_bytecode_sizes@ == old(self).func_bytecode_sizes@.push(bytecode_size),
            final(self).info.imported_funcs@ == old(self).info.imported_funcs@,
            final(self).info.functions@ == old(self).info.functions@,
            final(self).info.globals@ == old(self).info.globals@,
            final(self).info.global_inits@ == old(self).info.global_inits@,
            final(self).info.data_inits@ == old(self).info.data_inits@,
            final(self).info.start_func == old(self).info.start_func,
    {
        let index = self.info.imported_funcs.len() + self.func_bytecode_sizes.len();
        self.func_bytecode_sizes.push(bytecode_size);
        index
    }

    /// Gives function `func_index` the name `name`.
    pub fn declare_func_name(&mut self, func_index: usize, name: String)
        ensures
            final(self).names().len() == if func_index < old(self).names().len() {
                old(self).names().len() as int
            } else {
                func_index + 1
            },
            forall|i: int|
                0 <= i < final(self).names().len() && i != func_index ==> final(self).names()[i]
                    == if i < old(self).names().len() {
                    old(self).names()[i]
                } else {
                    None
                },
            final(self).names()[func_index as int] == Some(name),
            final(self).info.functions@ == old(self).info.functions@,
            final(self).info.globals@ == old(self).info.globals@,
            final(self).info.global_inits@ == old(self).info.global_inits@,
            final(self).info.data_inits@ == old(self).info.data_inits@,
            final(self).info.start_func == old(self).info.start_func,
    {
        let ghost before = self.function_names@;
        while self.function_names.len() <= func_index
            invariant
                before.len() <= self.function_names@.len(),
                before.len() <= func_index ==> self.function_names@.len() <= func_index + 1,
                before.len() > func_index ==> self.function_names@.len() == before.len(),
                forall|i: int|
                    0 <= i < self.function_names@.len() ==> self.function_names@[i] == if i
                        < before.len() {
                        before[i]
                    } else {
                        None
                    },
                self.info == old(self).info,
            decreases func_index + 1 - self.function_names@.len(),
        {
            self.function_names.push(None);
        }
        let _ = self.function_names.remove(func_index);
        self.function_names.insert(func_index, Some(name));
    }

    /// The name of function `func_index`, if one was given.
    pub fn get_func_name(&self, func_index: usize) -> (r: Option<&String>)
        ensures
            func_index < self.names().len() && self.names()[func_index as int] is Some ==> r
                == Some(&self.names()[func_index as int]->Some_0),
            !(func_index < self.names().len() && self.names()[func_index as int] is Some) ==> r
                is None,
    {
        if func_index < self.function_names.len() {
            self.function_names[func_index].as_ref()
        } else {
            None
        }
    }

    /// The wasm features that translation turns on besides the parser's
    /// defaults: multiple results, SIMD, reference types and bulk memory.
    pub fn wasm_features(&self) -> (r: WasmFeatures)
        ensures
            r == (WasmFeatures {
                multi_value: true,
                simd: true,
                reference_types: true,
                bulk_memory: true,
            }),
    {
        WasmFeatures { multi_value: true, simd: true, reference_types: true, bulk_memory: true }
    }

    /// Records the module's name.
    pub fn declare_module_name(&mut self, name: String)
        ensures
            final(self).module_name == Some(name),
            final(self).info.functions@ == old(self).info.functions@,
            final(self).info.globals@ == old(self).info.globals@,
            final(self).info.global_inits@ == old(self).info.global_inits@,
            final(self).info.data_inits@ == old(self).info.data_inits@,
            final(self).info.start_func == old(self).info.start_func,
    {
        self.module_name = Some(name);
    }
}

} // verus!
