//! Reading modules out of bytes.

use unwasm_core::module::parse::assemble;
use unwasm_core::module::wire::Part;
use unwasm_core::module::{
    Atomic, AtomicKind, BlockType, ConstExpr, ExportKind, FuncType, GlobalDef, LoadKind, MemArg, Op,
    RmwKind, StoreKind,
};
use unwasm_core::ops::NumOp;
use unwasm_core::{Error, Module, ValType};

// ---- writing modules ----

fn unsigned(mut value: u64) -> Vec<u8> {
    let mut out = Vec::new();
    loop {
        let byte = (value & 0x7f) as u8;
        value >>= 7;
        if value == 0 {
            out.push(byte);
            return out;
        }
        out.push(byte | 0x80);
    }
}

fn signed(mut value: i64) -> Vec<u8> {
    let mut out = Vec::new();
    loop {
        let byte = (value & 0x7f) as u8;
        value >>= 7;
        if (value == 0 && byte & 0x40 == 0) || (value == -1 && byte & 0x40 != 0) {
            out.push(byte);
            return out;
        }
        out.push(byte | 0x80);
    }
}

fn text(value: &str) -> Vec<u8> {
    let mut out = unsigned(value.len() as u64);
    out.extend_from_slice(value.as_bytes());
    out
}

fn list(items: &[Vec<u8>]) -> Vec<u8> {
    let mut out = unsigned(items.len() as u64);
    for item in items {
        out.extend_from_slice(item);
    }
    out
}

fn section(id: u8, contents: &[u8]) -> Vec<u8> {
    let mut out = vec![id];
    out.extend(unsigned(contents.len() as u64));
    out.extend_from_slice(contents);
    out
}

fn file(sections: &[Vec<u8>]) -> Vec<u8> {
    let mut out = b"\0asm\x01\0\0\0".to_vec();
    for part in sections {
        out.extend_from_slice(part);
    }
    out
}

fn i32_const(value: i32) -> Vec<u8> {
    let mut out = vec![0x41];
    out.extend(signed(i64::from(value)));
    out
}

/// A function body: runs of locals, then code and the closing `end`.
fn body(locals: &[(u32, u8)], code: &[u8]) -> Vec<u8> {
    let runs: Vec<Vec<u8>> = locals
        .iter()
        .map(|(count, ty)| {
            let mut run = unsigned(u64::from(*count));
            run.push(*ty);
            run
        })
        .collect();
    let mut inner = list(&runs);
    inner.extend_from_slice(code);
    inner.push(0x0b);
    let mut out = unsigned(inner.len() as u64);
    out.extend(inner);
    out
}

/// A module of one function without parameters.
fn one_function(code: &[u8]) -> Vec<u8> {
    file(&[
        section(1, &list(&[vec![0x60, 0, 0]])),
        section(3, &list(&[vec![0]])),
        section(10, &list(&[body(&[], code)])),
    ])
}

fn ops_of(code: &[u8]) -> Vec<String> {
    let module = Module::parse(&one_function(code)).expect("a module");
    module.funcs[0].body.iter().map(|op| format!("{op:?}")).collect()
}

fn failure(bytes: &[u8]) -> (String, String) {
    match Module::parse(bytes) {
        Err(Error::Unsupported { construct, location }) => (construct, location),
        other => panic!("{other:?}"),
    }
}

// ---- what a whole module becomes ----

fn whole_module() -> Vec<u8> {
    let types = section(
        1,
        &list(&[vec![0x60, 2, 0x7f, 0x7e, 1, 0x7d], vec![0x60, 0, 1, 0x7c]]),
    );
    let mut import = text("env");
    import.extend(text("ask"));
    import.extend([0x00, 0]);
    let imports = section(2, &list(&[import]));
    let functions = section(3, &list(&[vec![1], vec![0]]));
    let memory = section(5, &list(&[vec![1, 1, 4]]));
    let mut pointer = vec![0x7f, 1];
    pointer.extend(i32_const(65536));
    pointer.push(0x0b);
    let mut wide = vec![0x7e, 0, 0x42];
    wide.extend(signed(-5));
    wide.push(0x0b);
    let mut half = vec![0x7d, 0, 0x43];
    half.extend(1.5f32.to_bits().to_le_bytes());
    half.push(0x0b);
    let mut double = vec![0x7c, 0, 0x44];
    double.extend((-2.25f64).to_bits().to_le_bytes());
    double.push(0x0b);
    let globals = section(6, &list(&[pointer, wide, half, double]));
    let mut run = text("run");
    run.extend([0x00, 1]);
    let mut sp = text("__stack_pointer");
    sp.extend([0x03, 0]);
    let mut mem = text("memory");
    mem.extend([0x02, 0]);
    let exports = section(7, &list(&[run, sp, mem]));
    let start = section(8, &[1]);
    // An active list of indices, and a passive list of expressions.
    let mut active = vec![0x00];
    active.extend(i32_const(7));
    active.push(0x0b);
    active.extend(list(&[vec![1], vec![2]]));
    let mut passive = vec![0x05, 0x70];
    passive.extend(list(&[vec![0xd2, 2, 0x0b], vec![0xd2, 0, 0x0b]]));
    let elements = section(9, &list(&[active, passive]));
    let code = section(
        10,
        &list(&[
            body(&[(2, 0x7f), (1, 0x7e)], &[0x20, 0, 0x1a]),
            body(&[], &[0x01]),
        ]),
    );
    let mut here = vec![0x00];
    here.extend(i32_const(1024));
    here.push(0x0b);
    here.extend(text("hello"));
    let mut nowhere = vec![0x01];
    nowhere.extend(text("passive"));
    let data = section(11, &list(&[here, nowhere]));
    let mut names = text("name");
    let mut one = vec![1];
    one.extend(text("main"));
    names.extend(section(1, &list(&[one])));
    let mut zero = vec![0];
    zero.extend(text("sp"));
    names.extend(section(7, &list(&[zero])));
    let names = section(0, &names);
    let other = section(0, &text("producers"));
    file(&[
        types, imports, functions, memory, globals, exports, start, elements, code, data, names,
        other,
    ])
}

#[test]
fn every_section_of_a_module_is_read() {
    let bytes = whole_module();
    let module = Module::parse(&bytes).expect("a module");
    assert_eq!(
        module.types,
        vec![
            FuncType {
                params: vec![ValType::I32, ValType::I64],
                results: vec![ValType::F32]
            },
            FuncType {
                params: Vec::new(),
                results: vec![ValType::F64]
            },
        ]
    );
    assert_eq!(module.func_imports.len(), 1);
    assert_eq!(module.func_imports[0].module, "env");
    assert_eq!(module.func_imports[0].field, "ask");
    assert_eq!(module.func_imports[0].type_index, 0);
    let memory = module.memory.as_ref().expect("a memory");
    assert_eq!((memory.min_pages, memory.max_pages), (1, Some(4)));
    assert!(!memory.shared);
    assert_eq!(memory.imported, None);
    assert_eq!(
        module.globals,
        vec![
            GlobalDef {
                ty: ValType::I32,
                mutable: true,
                init: ConstExpr::I32(65536)
            },
            GlobalDef {
                ty: ValType::I64,
                mutable: false,
                init: ConstExpr::I64(-5)
            },
            GlobalDef {
                ty: ValType::F32,
                mutable: false,
                init: ConstExpr::F32(1.5f32.to_bits())
            },
            GlobalDef {
                ty: ValType::F64,
                mutable: false,
                init: ConstExpr::F64((-2.25f64).to_bits())
            },
        ]
    );
    let exports: Vec<(&str, ExportKind, u32)> = module
        .exports
        .iter()
        .map(|export| (export.name.as_str(), export.kind, export.index))
        .collect();
    assert_eq!(
        exports,
        vec![
            ("run", ExportKind::Func, 1),
            ("__stack_pointer", ExportKind::Global, 0),
            ("memory", ExportKind::Memory, 0),
        ]
    );
    assert_eq!(module.start, Some(1));
    assert_eq!(module.elems.len(), 2);
    assert_eq!(module.elems[0].offset, Some(ConstExpr::I32(7)));
    assert_eq!(module.elems[0].funcs, vec![1, 2]);
    assert_eq!(module.elems[1].offset, None);
    assert_eq!(module.elems[1].funcs, vec![2, 0]);
    assert_eq!(module.datas.len(), 2);
    assert_eq!(module.datas[0].offset, Some(ConstExpr::I32(1024)));
    assert_eq!(module.datas[0].bytes, b"hello");
    let at = module.datas[0].file_offset as usize;
    assert_eq!(&bytes[at..at + 5], b"hello", "where the bytes stand in the file");
    assert_eq!(module.datas[1].offset, None);
    assert_eq!(module.datas[1].bytes, b"passive");
    assert_eq!(module.func_names, vec![(1, "main".to_string())]);
    assert_eq!(module.global_names, vec![(0, "sp".to_string())]);
    assert_eq!(module.func_name(1), Some("main"));
    assert_eq!(module.func_name(2), None);
    assert_eq!(module.func_type(2), Some(&module.types[0]));
    assert_eq!(module.func_type(0), Some(&module.types[0]));
    assert_eq!(module.func_type(9), None);

    assert_eq!(module.funcs.len(), 2);
    assert_eq!(module.funcs[0].type_index, 1);
    assert_eq!(
        module.funcs[0].locals,
        vec![ValType::I32, ValType::I32, ValType::I64]
    );
    // The closing `end` stands for the function's own return.
    let body: Vec<String> = module.funcs[0].body.iter().map(|op| format!("{op:?}")).collect();
    assert_eq!(body, vec!["LocalGet(0)", "Drop"]);
    assert_eq!(module.funcs[0].offsets.len(), 2);
    let (start, length) = module.funcs[0].offsets[0];
    assert_eq!(&bytes[start as usize..(start + length) as usize], &[0x20, 0]);
    let (start, length) = module.funcs[0].offsets[1];
    assert_eq!(&bytes[start as usize..(start + length) as usize], &[0x1a]);
}

#[test]
fn an_empty_module_has_nothing_in_it() {
    let module = Module::parse(&file(&[])).expect("a module");
    assert!(module.types.is_empty() && module.funcs.is_empty() && module.datas.is_empty());
    assert!(module.memory.is_none() && module.start.is_none());
}

#[test]
fn an_imported_memory_says_where_it_comes_from() {
    let mut import = text("env");
    import.extend(text("memory"));
    import.extend([0x02, 0x03, 2, 10]);
    let module = Module::parse(&file(&[section(2, &list(&[import]))])).expect("a module");
    let memory = module.memory.expect("a memory");
    assert_eq!((memory.min_pages, memory.max_pages), (2, Some(10)));
    assert!(memory.shared);
    assert_eq!(
        memory.imported,
        Some(("env".to_string(), "memory".to_string()))
    );
}

#[test]
fn a_memory_without_a_ceiling_has_none() {
    let module = Module::parse(&file(&[section(5, &list(&[vec![0, 3]]))])).expect("a module");
    let memory = module.memory.expect("a memory");
    assert_eq!((memory.min_pages, memory.max_pages), (3, None));
}

// ---- instructions ----

#[test]
fn every_numeric_opcode_is_lowered_to_itself() {
    let mut code = Vec::new();
    for opcode in 0x45..=0xc4u8 {
        code.push(opcode);
    }
    for opcode in 0..8u8 {
        code.extend([0xfc, opcode]);
    }
    let module = Module::parse(&one_function(&code)).expect("a module");
    let mut found: Vec<String> = module.funcs[0]
        .body
        .iter()
        .map(|op| match op {
            Op::Num(num) => num.name().to_string(),
            other => panic!("{other:?}"),
        })
        .collect();
    assert_eq!(found.len(), 136);
    assert_eq!(found[0], "I32Eqz");
    assert_eq!(found[0x6a - 0x45], "I32Add");
    assert_eq!(found[135], "I64TruncSatF64U");
    let mut all: Vec<String> = NumOp::all().iter().map(|op| op.name().to_string()).collect();
    found.sort();
    all.sort();
    assert_eq!(found, all);
}

#[test]
fn control_flow_keeps_its_types_and_depths() {
    let code = [
        0x00, 0x01, 0x02, 0x40, 0x03, 0x7f, 0x04, 0x01, 0x05, 0x0b, 0x0b, 0x0b, 0x0c, 2, 0x0d, 1,
        0x0e, 3, 1, 0, 2, 5, 0x0f, 0x10, 3, 0x11, 4, 0, 0x1a, 0x1b,
    ];
    assert_eq!(
        ops_of(&code),
        vec![
            "Unreachable",
            "Nop",
            "Block(Empty)",
            "Loop(Value(I32))",
            "If(Func(1))",
            "Else",
            "End",
            "End",
            "End",
            "Br(2)",
            "BrIf(1)",
            "BrTable { targets: [1, 0, 2], default: 5 }",
            "Return",
            "Call(3)",
            "CallIndirect { type_index: 4 }",
            "Drop",
            "Select",
        ]
    );
}

#[test]
fn variables_and_constants_keep_their_values() {
    let mut code = vec![0x20, 1, 0x21, 2, 0x22, 3, 0x23, 4, 0x24, 5];
    code.extend(i32_const(-1));
    code.extend(i32_const(i32::MIN));
    code.push(0x42);
    code.extend(signed(i64::MIN));
    code.push(0x43);
    code.extend(f32::NAN.to_bits().to_le_bytes());
    code.push(0x44);
    code.extend((-0.0f64).to_bits().to_le_bytes());
    let module = Module::parse(&one_function(&code)).expect("a module");
    let body = &module.funcs[0].body;
    assert!(matches!(body[0], Op::LocalGet(1)));
    assert!(matches!(body[1], Op::LocalSet(2)));
    assert!(matches!(body[2], Op::LocalTee(3)));
    assert!(matches!(body[3], Op::GlobalGet(4)));
    assert!(matches!(body[4], Op::GlobalSet(5)));
    assert!(matches!(body[5], Op::I32Const(-1)));
    assert!(matches!(body[6], Op::I32Const(i32::MIN)));
    assert!(matches!(body[7], Op::I64Const(i64::MIN)));
    assert!(matches!(body[8], Op::F32Const(bits) if bits == f32::NAN.to_bits()));
    assert!(matches!(body[9], Op::F64Const(bits) if bits == (-0.0f64).to_bits()));
}

#[test]
fn every_load_and_store_keeps_its_kind_and_offset() {
    let loads = [
        LoadKind::I32,
        LoadKind::I64,
        LoadKind::F32,
        LoadKind::F64,
        LoadKind::I32Load8S,
        LoadKind::I32Load8U,
        LoadKind::I32Load16S,
        LoadKind::I32Load16U,
        LoadKind::I64Load8S,
        LoadKind::I64Load8U,
        LoadKind::I64Load16S,
        LoadKind::I64Load16U,
        LoadKind::I64Load32S,
        LoadKind::I64Load32U,
    ];
    let stores = [
        StoreKind::I32,
        StoreKind::I64,
        StoreKind::F32,
        StoreKind::F64,
        StoreKind::I32Store8,
        StoreKind::I32Store16,
        StoreKind::I64Store8,
        StoreKind::I64Store16,
        StoreKind::I64Store32,
    ];
    let mut code = Vec::new();
    for at in 0..loads.len() as u8 {
        code.extend([0x28 + at, 0, at]);
    }
    for at in 0..stores.len() as u8 {
        code.extend([0x36 + at, 0]);
        code.extend(unsigned(1000 + u64::from(at)));
    }
    let module = Module::parse(&one_function(&code)).expect("a module");
    let body = &module.funcs[0].body;
    for (at, wanted) in loads.iter().enumerate() {
        assert!(
            matches!(&body[at], Op::Load { kind, mem: MemArg { offset } } if kind == wanted && *offset == at as u64),
            "{:?}",
            body[at]
        );
    }
    for (at, wanted) in stores.iter().enumerate() {
        let op = &body[loads.len() + at];
        assert!(
            matches!(op, Op::Store { kind, mem: MemArg { offset } } if kind == wanted && *offset == 1000 + at as u64),
            "{op:?}"
        );
    }
}

#[test]
fn memory_instructions_keep_their_segments() {
    let code = [
        0x3f, 0, 0x40, 0, 0xfc, 8, 3, 0, 0xfc, 9, 4, 0xfc, 10, 0, 0, 0xfc, 11, 0,
    ];
    assert_eq!(
        ops_of(&code),
        vec![
            "MemorySize",
            "MemoryGrow",
            "MemoryInit(3)",
            "DataDrop(4)",
            "MemoryCopy",
            "MemoryFill"
        ]
    );
}

fn atomic(code: &[u8]) -> Atomic {
    let module = Module::parse(&one_function(code)).expect("a module");
    match &module.funcs[0].body[0] {
        Op::Atomic { op, mem } => {
            assert_eq!(mem.offset, 16);
            *op
        }
        other => panic!("{other:?}"),
    }
}

#[test]
fn atomics_keep_what_they_do_and_how_wide() {
    assert_eq!(
        atomic(&[0xfe, 0x00, 2, 16]),
        Atomic {
            kind: AtomicKind::Notify,
            ty: ValType::I32,
            width: 4
        }
    );
    assert_eq!(
        atomic(&[0xfe, 0x02, 3, 16]),
        Atomic {
            kind: AtomicKind::Wait,
            ty: ValType::I64,
            width: 8
        }
    );
    assert_eq!(
        atomic(&[0xfe, 0x12, 0, 16]),
        Atomic {
            kind: AtomicKind::Load,
            ty: ValType::I32,
            width: 1
        }
    );
    assert_eq!(
        atomic(&[0xfe, 0x1d, 2, 16]),
        Atomic {
            kind: AtomicKind::Store,
            ty: ValType::I64,
            width: 4
        }
    );
    assert_eq!(
        atomic(&[0xfe, 0x20, 0, 16]),
        Atomic {
            kind: AtomicKind::Rmw(RmwKind::Add),
            ty: ValType::I32,
            width: 1
        }
    );
    assert_eq!(
        atomic(&[0xfe, 0x42, 3, 16]),
        Atomic {
            kind: AtomicKind::Rmw(RmwKind::Xchg),
            ty: ValType::I64,
            width: 8
        }
    );
    assert_eq!(
        atomic(&[0xfe, 0x4b, 1, 16]),
        Atomic {
            kind: AtomicKind::Cmpxchg,
            ty: ValType::I32,
            width: 2
        }
    );
    assert_eq!(ops_of(&[0xfe, 0x03, 0]), vec!["AtomicFence"]);
}

#[test]
fn all_sixty_seven_atomic_instructions_are_read() {
    let mut code = Vec::new();
    for opcode in 0x00..=0x4eu8 {
        match opcode {
            0x03 => code.extend([0xfe, 0x03, 0]),
            0x04..=0x0f => {}
            _ => code.extend([0xfe, opcode, 0, 0]),
        }
    }
    let module = Module::parse(&one_function(&code)).expect("a module");
    assert_eq!(module.funcs[0].body.len(), 67);
    assert!(module.funcs[0]
        .body
        .iter()
        .all(|op| matches!(op, Op::Atomic { .. } | Op::AtomicFence)));
    // Every width that occurs is one an access can have.
    for op in &module.funcs[0].body {
        if let Op::Atomic { op, .. } = op {
            assert!([1, 2, 4, 8].contains(&op.width), "{op:?}");
        }
    }
}

#[test]
fn a_subsection_of_names_that_cannot_be_read_contributes_nothing() {
    let mut good = vec![0];
    good.extend(text("first"));
    // The second name says it is longer than the subsection.
    let bad = vec![1, 40, b's'];
    let mut names = text("name");
    names.extend(section(1, &list(&[good, bad])));
    let mut global = vec![0];
    global.extend(text("sp"));
    names.extend(section(7, &list(&[global])));
    let module = Module::parse(&file(&[section(0, &names)])).expect("names are a convenience");
    assert_eq!(module.func_names, Vec::new());
    assert_eq!(module.global_names, vec![(0, "sp".to_string())]);
}

#[test]
fn entries_a_file_only_claims_are_an_error() {
    let claimed = unsigned(0xffff_ffff);
    for id in [1, 2, 3, 5, 6, 7, 9, 11] {
        let parsed = Module::parse(&file(&[section(id, &claimed)]));
        assert!(matches!(parsed, Err(Error::Decode(_))), "section {id}: {parsed:?}");
    }
    // The locals of a body.
    let mut code = unsigned(claimed.len() as u64);
    code.extend_from_slice(&claimed);
    let parsed = Module::parse(&file(&[
        section(1, &list(&[vec![0x60, 0, 0]])),
        section(3, &list(&[vec![0]])),
        section(10, &list(&[code])),
    ]));
    assert!(matches!(parsed, Err(Error::Decode(_))), "{parsed:?}");
    // The functions of an element segment.
    let mut functions = vec![1, 0];
    functions.extend_from_slice(&claimed);
    let parsed = Module::parse(&file(&[section(9, &list(&[functions]))]));
    assert!(matches!(parsed, Err(Error::Decode(_))), "{parsed:?}");
    // Names are a convenience.
    let mut names = text("name");
    names.extend(section(1, &claimed));
    let module = Module::parse(&file(&[section(0, &names)])).expect("a module without names");
    assert!(module.func_names.is_empty());
}

// ---- what is refused ----

#[test]
fn an_unmodelled_instruction_is_named_with_its_function() {
    // `v128.const`, which is not modelled.
    let mut code = vec![0xfd, 12];
    code.extend([0u8; 16]);
    let (construct, location) = failure(&one_function(&code));
    assert!(construct.contains("V128Const"), "{construct}");
    assert_eq!(location, "function #0");
    // `table.get` among instructions that are.
    let (construct, _) = failure(&one_function(&[0x01, 0x25, 0, 0x1a]));
    assert!(construct.contains("TableGet"), "{construct}");
}

#[test]
fn a_constant_expression_of_two_operands_is_refused() {
    let mut global = vec![0x7f, 0];
    global.extend(i32_const(1));
    global.extend(i32_const(2));
    global.extend([0x6a, 0x0b]);
    let (construct, _) = failure(&file(&[section(6, &list(&[global]))]));
    assert!(construct.ends_with("in a constant expression"), "{construct}");
}

#[test]
fn imports_that_are_not_modelled_say_what_they_are() {
    let import = |kind: &[u8]| {
        let mut out = text("env");
        out.extend(text("thing"));
        out.extend_from_slice(kind);
        file(&[section(2, &list(&[out]))])
    };
    assert_eq!(failure(&import(&[0x03, 0x7f, 0])).0, "imported global");
    assert_eq!(failure(&import(&[0x01, 0x70, 0, 1])).0, "imported table");
    assert_eq!(failure(&import(&[0x04, 0, 0])).0, "imported tag");
    let (_, location) = failure(&import(&[0x03, 0x7f, 0]));
    assert!(location.contains("env") && location.contains("thing"), "{location}");
}

#[test]
fn memories_that_are_not_modelled_are_refused() {
    let two = file(&[section(5, &list(&[vec![0, 1], vec![0, 1]]))]);
    assert_eq!(
        failure(&two),
        ("multiple memories".to_string(), "memory section".to_string())
    );
    let wide = file(&[section(5, &list(&[vec![4, 1]]))]);
    assert_eq!(failure(&wide).0, "64-bit memory");
    let mut elsewhere = vec![0x02, 1];
    elsewhere.extend(i32_const(0));
    elsewhere.push(0x0b);
    elsewhere.extend(text("x"));
    let data = file(&[section(11, &list(&[elsewhere]))]);
    assert_eq!(failure(&data).0, "multiple memories");
}

#[test]
fn types_and_values_that_are_not_modelled_are_refused() {
    // A struct type, and a reference parameter.
    let (construct, location) = failure(&file(&[section(1, &list(&[vec![0x5f, 0]]))]));
    assert_eq!(construct, "non-function type (struct, array or continuation)");
    assert_eq!(location, "type section");
    let reference = file(&[section(1, &list(&[vec![0x60, 1, 0x70, 0]]))]);
    assert_eq!(failure(&reference).0, "reference type");
    let vector = file(&[section(1, &list(&[vec![0x60, 0, 1, 0x7b]]))]);
    assert_eq!(failure(&vector).0, "v128 (SIMD)");
    // Several results are read: whether they can be written out is not decided here.
    let several = file(&[section(1, &list(&[vec![0x60, 0, 2, 0x7f, 0x7e]]))]);
    let module = Module::parse(&several).expect("a module");
    assert_eq!(module.types[0].results, vec![ValType::I32, ValType::I64]);
}

#[test]
fn a_select_with_a_type_is_a_select() {
    assert_eq!(ops_of(&[0x1c, 1, 0x7f]), vec!["Select"]);
}

#[test]
fn an_exported_tag_is_refused() {
    let mut export = text("oops");
    export.extend([0x04, 0]);
    assert_eq!(
        failure(&file(&[section(7, &list(&[export]))])),
        ("exported tag".to_string(), "export oops".to_string())
    );
}

#[test]
fn an_element_that_is_not_a_function_is_refused() {
    let mut passive = vec![0x05, 0x70];
    passive.extend(list(&[vec![0xd0, 0x70, 0x0b]]));
    let (construct, location) = failure(&file(&[section(9, &list(&[passive]))]));
    assert!(construct.ends_with("in an element segment"), "{construct}");
    assert_eq!(location, "element segment #0");
}

#[test]
fn a_file_cut_short_is_a_decoding_failure() {
    let whole = whole_module();
    for cut in [3, 9, whole.len() / 2, whole.len() - 3] {
        let error = Module::parse(&whole[..cut]).expect_err("it ran out");
        assert!(matches!(error, Error::Decode(_)), "{error:?}");
        assert!(error.source().is_some());
    }
    assert!(Module::parse(&whole).is_ok());
}

#[test]
fn bodies_and_declarations_have_to_agree() {
    // The pieces a file is in, put together by hand.
    let parts = vec![Ok(Part::Other), Ok(Part::Body(0, 0))];
    match assemble(&parts, b"") {
        Err(Error::Invalid { problem, location }) => {
            assert_eq!(
                problem,
                "more function bodies than the function section declared"
            );
            assert_eq!(location, "function body #0");
        }
        other => panic!("{other:?}"),
    }
    let bytes = list(&[vec![0], vec![0]]);
    let parts = vec![Ok(Part::Section("FunctionSection".to_string(), 0, bytes.len()))];
    match assemble(&parts, &bytes) {
        Err(Error::Invalid { problem, location }) => {
            assert_eq!(
                problem,
                "the function section declared 2 functions but the code section has 0"
            );
            assert_eq!(location, "code section");
        }
        other => panic!("{other:?}"),
    }
    let parts = vec![Err("stopped here".to_string())];
    assert!(matches!(assemble(&parts, b""), Err(Error::Decode(words)) if words == "stopped here"));
}

#[test]
fn a_block_type_is_one_of_three() {
    let module = Module::parse(&one_function(&[0x02, 0x7c, 0x0b])).expect("a module");
    assert!(matches!(
        module.funcs[0].body[0],
        Op::Block(BlockType::Value(ValType::F64))
    ));
}
