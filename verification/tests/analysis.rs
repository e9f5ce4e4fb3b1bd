//! What is read out of a module, on modules built by hand.

use std::collections::BTreeMap;
use unwasm_core::analysis::demangle::demangle_type;
use unwasm_core::analysis::{
    accesses_at, analyse, classes, deepest_nesting, fingerprint, pointer_table, static_i32,
    static_text, static_text_of_length, AddressOf, DataImage, Evidence, Frame, Kind, Placement,
    Slot,
};
use unwasm_core::module::{
    Atomic, AtomicKind, BlockType, ConstExpr, DataSegment, Export, ExportKind, Func, FuncType,
    GlobalDef, ImportedFunc, LoadKind, MemArg, Module, Op, StoreKind, ValType,
};
use unwasm_core::ops::NumOp;

#[test]
fn a_function_whose_type_is_missing_still_fingerprints() {
    // A module can name a type index that is not there. The fingerprint
    // has to come out regardless — refusing here would mean a catalogue
    // could not be built from a module the decoder accepted.
    let module = Module {
        funcs: vec![Func {
            type_index: 9,
            locals: Vec::new(),
            body: vec![Op::I32Const(1), Op::Drop],
            offsets: Vec::new(),
        }],
        ..Module::default()
    };
    let without = fingerprint(&module, &module.funcs[0]);

    let mut typed = module.clone();
    typed.types = vec![FuncType {
        params: vec![ValType::I32],
        results: Vec::new(),
    }];
    typed.funcs[0].type_index = 0;
    assert_ne!(
        without,
        fingerprint(&typed, &typed.funcs[0]),
        "and a known signature is part of it"
    );
}

fn module_with_globals(count: usize, mutable: bool) -> Module {
    Module {
        types: vec![FuncType::default()],
        globals: (0..count)
            .map(|_| GlobalDef {
                ty: ValType::I32,
                mutable,
                init: ConstExpr::I32(65536),
            })
            .collect(),
        ..Module::default()
    }
}

fn prologue(global: u32) -> Vec<Op> {
    vec![
        Op::GlobalGet(global),
        Op::I32Const(32),
        Op::Num(NumOp::I32Sub),
        Op::LocalTee(0),
        Op::GlobalSet(global),
    ]
}

fn with_bodies(mut module: Module, bodies: Vec<Vec<Op>>) -> Module {
    module.funcs = bodies
        .into_iter()
        .map(|body| Func {
            type_index: 0,
            locals: Vec::new(),
            body,
            offsets: Vec::new(),
        })
        .collect();
    module
}

#[test]
fn an_exported_name_settles_it() {
    let mut module = module_with_globals(3, true);
    module.exports.push(Export {
        name: "__stack_pointer".into(),
        kind: ExportKind::Global,
        index: 2,
    });
    let found = analyse(&module).stack_pointer.expect("named");
    assert_eq!(found.global, 2);
    assert_eq!(found.evidence, Evidence::Exported);
}

#[test]
fn a_global_exported_under_another_name_is_not_taken_for_it() {
    let mut module = module_with_globals(1, true);
    module.exports.push(Export {
        name: "__heap_base".into(),
        kind: ExportKind::Global,
        index: 0,
    });
    assert!(analyse(&module).stack_pointer.is_none());
}

#[test]
fn the_deepest_nesting_is_the_deepest_one_function_reaches() {
    // Two functions, and the answer is the deeper one — not the sum, and
    // not the last. Nesting that closes and reopens is not deeper.
    let shallow = vec![
        Op::Block(BlockType::Empty),
        Op::End,
        Op::Block(BlockType::Empty),
        Op::Block(BlockType::Empty),
        Op::End,
        Op::End,
    ];
    let deep = vec![
        Op::Block(BlockType::Empty),
        Op::Loop(BlockType::Empty),
        Op::If(BlockType::Empty),
        Op::End,
        Op::End,
        Op::End,
    ];
    let module = with_bodies(module_with_globals(1, true), vec![shallow, deep]);
    assert_eq!(deepest_nesting(&module), Some((1, 3)));
    assert_eq!(deepest_nesting(&Module::default()), None);
}

#[test]
fn the_name_section_settles_it_when_nothing_exports_it() {
    // A debug build names the stack pointer and does not necessarily export
    // it: `--export-all` under some linkers leaves the mutable global out.
    // The name is still the module saying which global it is.
    let mut module = module_with_globals(3, true);
    module.global_names.push((1, "__stack_pointer".into()));
    let found = analyse(&module).stack_pointer.expect("named");
    assert_eq!(found.global, 1);
    assert_eq!(found.evidence, Evidence::Named);
}

#[test]
fn an_export_outranks_a_name() {
    // Both are conclusive, so this is only about which one is quoted back;
    // the export is the module's interface and cannot be stripped without
    // changing it.
    let mut module = module_with_globals(3, true);
    module.global_names.push((1, "__stack_pointer".into()));
    module.exports.push(Export {
        name: "__stack_pointer".into(),
        kind: ExportKind::Global,
        index: 2,
    });
    let found = analyse(&module).stack_pointer.expect("named");
    assert_eq!(found.global, 2);
    assert_eq!(found.evidence, Evidence::Exported);
}

#[test]
fn a_global_named_something_else_is_not_taken_for_it() {
    let mut module = module_with_globals(1, true);
    module.global_names.push((0, "__heap_base".into()));
    assert!(analyse(&module).stack_pointer.is_none());
}

#[test]
fn a_name_for_a_global_that_is_not_there_names_nothing() {
    // The index reaches the output as a field name. One past the end would
    // be `self.g9_stack_pointer` on a struct that declares one global, and
    // the generated Rust would not compile — which is the one thing it must
    // always do. Both naming routes are checked, since a malformed module
    // can carry either.
    let mut module = module_with_globals(1, true);
    module.global_names.push((9, "__stack_pointer".into()));
    assert!(analyse(&module).stack_pointer.is_none());

    let mut module = module_with_globals(1, true);
    module.exports.push(Export {
        name: "__stack_pointer".into(),
        kind: ExportKind::Global,
        index: 9,
    });
    assert!(analyse(&module).stack_pointer.is_none());
}

#[test]
fn the_prologue_identifies_it_in_a_stripped_module() {
    let module = with_bodies(
        module_with_globals(2, true),
        vec![prologue(1), prologue(1), vec![Op::Nop]],
    );
    let found = analyse(&module).stack_pointer.expect("found by its use");
    assert_eq!(found.global, 1);
    assert_eq!(found.evidence, Evidence::Prologue { functions: 2 });
}

#[test]
fn one_prologue_is_a_coincidence_and_is_not_reported() {
    let module = with_bodies(module_with_globals(1, true), vec![prologue(0)]);
    assert!(
        analyse(&module).stack_pointer.is_none(),
        "a single match is not a calling convention"
    );
}

#[test]
fn an_immutable_global_is_never_the_stack_pointer() {
    // The shape can appear around a constant — `base - 32` — and a stack
    // pointer that cannot be written to is not one.
    let module = with_bodies(
        module_with_globals(1, false),
        vec![prologue(0), prologue(0)],
    );
    assert!(analyse(&module).stack_pointer.is_none());
}

#[test]
fn a_prologue_that_stores_somewhere_else_does_not_count() {
    let body = vec![
        Op::GlobalGet(0),
        Op::I32Const(32),
        Op::Num(NumOp::I32Sub),
        Op::GlobalSet(1),
    ];
    let module = with_bodies(module_with_globals(2, true), vec![body.clone(), body]);
    assert!(analyse(&module).stack_pointer.is_none());
}

#[test]
fn adding_to_a_global_is_an_epilogue_not_a_prologue() {
    let body = vec![
        Op::GlobalGet(0),
        Op::I32Const(32),
        Op::Num(NumOp::I32Add),
        Op::GlobalSet(0),
    ];
    let module = with_bodies(module_with_globals(1, true), vec![body.clone(), body]);
    assert!(analyse(&module).stack_pointer.is_none());
}

#[test]
fn a_module_with_no_globals_reports_nothing() {
    assert!(analyse(&Module::default()).stack_pointer.is_none());
    let module = with_bodies(module_with_globals(0, true), vec![prologue(0)]);
    assert!(analyse(&module).stack_pointer.is_none());
}

fn module_with_data(offset: i32, bytes: &[u8]) -> Module {
    Module {
        datas: vec![DataSegment {
            file_offset: 0,
            offset: Some(ConstExpr::I32(offset)),
            bytes: bytes.to_vec(),
        }],
        ..Module::default()
    }
}

/// A one-function module: one i32 parameter, `locals` extra i32 locals.
fn module_with_body(locals: usize, body: Vec<Op>) -> Module {
    Module {
        types: vec![FuncType {
            params: vec![ValType::I32],
            results: Vec::new(),
        }],
        funcs: vec![Func {
            type_index: 0,
            locals: vec![ValType::I32; locals],
            body,
            offsets: Vec::new(),
        }],
        ..Module::default()
    }
}

fn store8(offset: u64) -> Op {
    Op::Store {
        kind: StoreKind::I32Store8,
        mem: MemArg { offset },
    }
}

#[test]
fn a_store_through_a_displaced_base_reports_the_offset_it_never_encodes() {
    // `l1 = p0 - 8; store8(l1 + 854)` writes p0 + 846, and 846 is nowhere
    // in the instruction stream. This is the write a grep does not find.
    let module = module_with_body(
        1,
        vec![
            Op::LocalGet(0),
            Op::I32Const(-8),
            Op::Num(NumOp::I32Add),
            Op::LocalSet(1),
            Op::LocalGet(1),
            Op::I32Const(9),
            store8(854),
            Op::End,
        ],
    );
    let report = accesses_at(&module, 846, Some(1), Kind::Store, false);
    assert_eq!(report.found.len(), 1, "{:?}", report.found);
    assert_eq!(
        report.found[0].address,
        AddressOf::Local {
            local: 0,
            displacement: -8
        }
    );
    assert_eq!(report.found[0].encoded, 854);
    assert!(report.lost.is_empty());

    // And the literal search finds it at 854 and not at 846, which is the
    // whole difference.
    assert!(
        accesses_at(&module, 846, Some(1), Kind::Store, true)
            .found
            .is_empty()
    );
    assert_eq!(
        accesses_at(&module, 854, Some(1), Kind::Store, true)
            .found
            .len(),
        1
    );
}

#[test]
fn a_local_that_cannot_be_described_still_describes_itself() {
    // `frame = g0 - 1264` is the shadow stack, and almost every store in a
    // C function goes through it. Treating the global as unknown and
    // stopping there would lose all of them.
    let module = Module {
        globals: vec![GlobalDef {
            ty: ValType::I32,
            mutable: true,
            init: ConstExpr::I32(0),
        }],
        ..module_with_body(
            1,
            vec![
                Op::GlobalGet(0),
                Op::I32Const(1264),
                Op::Num(NumOp::I32Sub),
                Op::LocalSet(1),
                Op::LocalGet(1),
                Op::I32Const(7),
                store8(846),
                Op::End,
            ],
        )
    };
    let report = accesses_at(&module, 846, Some(1), Kind::Store, false);
    assert_eq!(report.found.len(), 1);
    assert_eq!(
        report.found[0].address,
        AddressOf::Local {
            local: 1,
            displacement: 0
        },
        "the offset is relative to the frame, which is what a struct field is"
    );
}

#[test]
fn a_chain_across_a_reassignment_is_dropped_rather_than_carried() {
    // `l1 = p0 + 100; p0 = something else; store8(l1 + 46)` no longer
    // writes p0 + 146 — p0 moved. Keeping the chain is the one way this
    // reports a confident wrong number.
    let module = module_with_body(
        1,
        vec![
            Op::LocalGet(0),
            Op::I32Const(100),
            Op::Num(NumOp::I32Add),
            Op::LocalSet(1),
            Op::I32Const(4096),
            Op::LocalSet(0),
            Op::LocalGet(1),
            Op::I32Const(7),
            store8(46),
            Op::End,
        ],
    );
    assert!(
        accesses_at(&module, 146, Some(1), Kind::Store, false)
            .found
            .is_empty(),
        "p0 is not what it was"
    );
    // It is still found relative to the local it actually goes through.
    let report = accesses_at(&module, 46, Some(1), Kind::Store, false);
    assert_eq!(
        report.found[0].address,
        AddressOf::Local {
            local: 1,
            displacement: 0
        }
    );
}

#[test]
fn a_displacement_formed_inside_a_loop_does_not_cross_the_back_edge() {
    // The walk is forward only, so a value carried round a loop is not
    // something it can claim to know.
    let module = module_with_body(
        1,
        vec![
            Op::Loop(BlockType::Empty),
            Op::LocalGet(1),
            Op::I32Const(7),
            store8(846),
            Op::LocalGet(0),
            Op::I32Const(-8),
            Op::Num(NumOp::I32Add),
            Op::LocalSet(1),
            Op::End,
            Op::End,
        ],
    );
    let report = accesses_at(&module, 846, Some(1), Kind::Store, false);
    assert_eq!(report.found.len(), 1);
    assert_eq!(
        report.found[0].address,
        AddressOf::Local {
            local: 1,
            displacement: 0
        },
        "not p0 - 8: that assignment happens after this read, and again before it"
    );
}

#[test]
fn a_store_at_a_constant_address_is_not_a_field_of_anything() {
    let module = module_with_body(
        0,
        vec![Op::I32Const(1024), Op::I32Const(7), store8(20), Op::End],
    );
    let report = accesses_at(&module, 1044, Some(1), Kind::Store, false);
    assert_eq!(report.found.len(), 1);
    assert_eq!(report.found[0].address, AddressOf::Absolute(1024));
}

#[test]
fn loads_and_stores_are_asked_for_separately() {
    let module = module_with_body(
        0,
        vec![
            Op::LocalGet(0),
            Op::Load {
                kind: LoadKind::I32,
                mem: MemArg { offset: 20 },
            },
            Op::Drop,
            Op::End,
        ],
    );
    assert!(
        accesses_at(&module, 20, Some(4), Kind::Store, false)
            .found
            .is_empty()
    );
    assert_eq!(
        accesses_at(&module, 20, Some(4), Kind::Load, false)
            .found
            .len(),
        1
    );
    assert_eq!(
        accesses_at(&module, 20, Some(4), Kind::Both, false)
            .found
            .len(),
        1
    );
    // The width matters: the same offset at another width is another field.
    assert!(
        accesses_at(&module, 20, Some(1), Kind::Load, false)
            .found
            .is_empty()
    );
}

#[test]
fn the_data_image_says_which_segment_covers_an_address() {
    let module = Module {
        datas: vec![
            DataSegment {
                file_offset: 100,
                offset: Some(ConstExpr::I32(1024)),
                bytes: vec![1, 2, 3, 4],
            },
            DataSegment {
                file_offset: 200,
                offset: Some(ConstExpr::I32(4096)),
                bytes: vec![9, 9],
            },
        ],
        ..Module::default()
    };
    let image = DataImage::of(&module, &Default::default());
    let found = image.locate(1026).expect("covered");
    assert_eq!(found.segment, 0);
    assert_eq!(found.offset, 2);
    assert_eq!(found.address(), 1026);
    // The file offset is the whole point: an address and an offset into the
    // wasm file are different numbers, and recovering one from the other by
    // subtracting a constant holds for one segment and not for the next.
    assert_eq!(found.file_offset, 102);
    assert!(found.active);
    assert_eq!(image.locate(4097).map(|found| found.file_offset), Some(201));

    // A gap is not an error; it is memory the module never initialises.
    assert_eq!(image.locate(2048), None);
    assert_eq!(image.extent(), Some((1024, 4098)));
    assert_eq!(image.nearest_below(2048).map(|near| near.segment), Some(0));
    // And a read that would span two segments is answered by neither: the
    // bytes between them are not in the module at all.
    assert_eq!(image.bytes(1026, 4), None);
}

#[test]
fn a_passive_segment_is_addressable_once_its_placement_is_known() {
    let module = Module {
        datas: vec![DataSegment {
            file_offset: 42,
            offset: None,
            bytes: vec![7, 0, 0, 0],
        }],
        ..Module::default()
    };
    // Unplaced, a passive segment has no address at all.
    let image = DataImage::of(&module, &Default::default());
    assert!(!image.holds(2048));

    let placements = [(
        0u32,
        Placement {
            address: 2048,
            offset: 0,
            length: 4,
        },
    )]
    .into_iter()
    .collect();
    let image = DataImage::of(&module, &placements);
    assert_eq!(image.read32(2048), Some(7));
    let found = image.locate(2048).expect("placed");
    assert!(
        !found.active,
        "placed by a memory.init, not by its own offset"
    );
    assert_eq!(found.file_offset, 42);
}

#[test]
fn find32_locates_a_word_no_instruction_ever_pushes() {
    // A function pointer installed in a vtable is written by the linker,
    // not by any code, so a search of the instructions finds nothing.
    let module = module_with_data(1024, &[0, 0, 0, 0, 0x2f, 0x14, 0, 0]);
    let image = DataImage::of(&module, &Default::default());
    let found = image.find32(5167);
    assert_eq!(found.len(), 1);
    assert_eq!(found[0].address(), 1028);
}

#[test]
fn a_pointer_table_stops_where_it_stops_looking_like_one() {
    let table: BTreeMap<u32, u32> =
        [(1u32, 10u32), (2, 20), (3, 30)].into_iter().collect();
    let mut bytes = Vec::new();
    for word in [1i32, 2, 0, 0, 3, -1, 1] {
        bytes.extend_from_slice(&word.to_le_bytes());
    }
    let module = module_with_data(1024, &bytes);
    let image = DataImage::of(&module, &Default::default());

    // The nulls in the middle are pure virtuals — a real entry follows
    // them. The -1 is not a table index, and it ends the table; the 1 after
    // it belongs to whatever comes next.
    let slots = pointer_table(&image, &table, 1024, None);
    assert_eq!(
        slots,
        vec![Some(10), Some(20), None, None, Some(30)],
        "a null slot is kept, so the numbering after it stays right"
    );

    // An explicit count reads what was asked for, whatever is there.
    let slots = pointer_table(&image, &table, 1024, Some(7));
    assert_eq!(slots.len(), 7);
    assert_eq!(slots[5], None, "-1 is not a table index");
}

#[test]
fn a_run_of_nulls_that_nothing_follows_is_the_end_of_the_table() {
    // The case that matters: two vtables laid out next to each other. The
    // second one's `{0, type_info}` header would read as a null slot and a
    // huge word — and following it would report the next class's methods as
    // this one's.
    let table: BTreeMap<u32, u32> =
        [(1u32, 10u32), (2, 20)].into_iter().collect();
    let mut bytes = Vec::new();
    for word in [1i32, 0, 999_999, 2] {
        bytes.extend_from_slice(&word.to_le_bytes());
    }
    let module = module_with_data(1024, &bytes);
    let image = DataImage::of(&module, &Default::default());
    let slots = pointer_table(&image, &table, 1024, None);
    assert_eq!(slots, vec![Some(10)], "the next object is not this table");
}

#[test]
fn a_constant_that_addresses_text_reads_back_as_that_text() {
    let module = module_with_data(1024, b"hello, world\0and more\0");
    assert_eq!(static_text(&module, 1024).as_deref(), Some("hello, world"));
    // Mid-string is still text: it is where a suffix would start.
    assert_eq!(static_text(&module, 1031).as_deref(), Some("world"));
    assert_eq!(static_text(&module, 1037).as_deref(), Some("and more"));
}

#[test]
fn bytes_that_are_not_text_are_not_reported_as_text() {
    // A struct whose first field happens to be small integers.
    let module = module_with_data(0, &[0x01, 0x02, 0x03, 0x04, 0x00]);
    assert_eq!(static_text(&module, 0), None);
    // Text that is too short to be a name rather than a coincidence.
    let module = module_with_data(0, b"ab\0");
    assert_eq!(static_text(&module, 0), None);
    // High bytes: UTF-8 or binary, either way not something to quote raw.
    let module = module_with_data(0, &[b'a', b'b', b'c', 0xE2, 0x82, 0xAC, 0]);
    assert_eq!(static_text(&module, 0), None);
}

#[test]
fn text_without_a_terminator_is_not_reported() {
    let module = module_with_data(0, b"unterminated");
    assert_eq!(static_text(&module, 0), None);
}

#[test]
fn a_very_long_string_is_cut_rather_than_pasted_whole() {
    let long = "x".repeat(300);
    let mut bytes = long.into_bytes();
    bytes.push(0);
    let module = module_with_data(0, &bytes);
    let text = static_text(&module, 0).expect("text");
    assert!(text.ends_with('…'), "{text}");
    assert!(text.chars().count() <= 121);
}

// ---- frames ----

fn framed_module(body: Vec<Op>) -> Module {
    let mut module = module_with_globals(1, true);
    module.exports.push(Export {
        name: "__stack_pointer".into(),
        kind: ExportKind::Global,
        index: 0,
    });
    module.types = vec![FuncType::default()];
    with_bodies(module, vec![body])
}

/// `global.get $sp; i32.const size; i32.sub; local.tee $base; global.set $sp`
fn frame_prologue(size: i32, base: u32) -> Vec<Op> {
    vec![
        Op::GlobalGet(0),
        Op::I32Const(size),
        Op::Num(NumOp::I32Sub),
        Op::LocalTee(base),
        Op::GlobalSet(0),
    ]
}

fn frame_epilogue(size: i32, base: u32) -> Vec<Op> {
    vec![
        Op::LocalGet(base),
        Op::I32Const(size),
        Op::Num(NumOp::I32Add),
        Op::GlobalSet(0),
    ]
}

fn frame_of(body: Vec<Op>) -> Frame {
    let module = framed_module(body);
    analyse(&module)
        .frames
        .get(&0)
        .cloned()
        .expect("the function has a frame")
}

fn store(offset: u64) -> Op {
    Op::Store {
        kind: StoreKind::I32,
        mem: MemArg { offset },
    }
}

fn load(offset: u64) -> Op {
    Op::Load {
        kind: LoadKind::I32,
        mem: MemArg { offset },
    }
}

/// The same frame, spelled the way clang 18 spells it at `-O0`: every
/// intermediate value parked in its own local, including the stack pointer
/// and the size, so the subtraction reads two locals rather than the
/// operand stack.
fn unfolded_prologue(size: i32, base: u32) -> Vec<Op> {
    vec![
        Op::GlobalGet(0),
        Op::LocalSet(8),
        Op::I32Const(size),
        Op::LocalSet(9),
        Op::LocalGet(8),
        Op::LocalGet(9),
        Op::Num(NumOp::I32Sub),
        Op::LocalSet(base),
        Op::LocalGet(base),
        Op::GlobalSet(0),
    ]
}

/// The epilogue that goes with it: the size through a local again, and the
/// restored pointer through one more before it reaches the global.
fn unfolded_epilogue(size: i32, base: u32) -> Vec<Op> {
    vec![
        Op::I32Const(size),
        Op::LocalSet(9),
        Op::LocalGet(base),
        Op::LocalGet(9),
        Op::Num(NumOp::I32Add),
        Op::LocalSet(10),
        Op::LocalGet(10),
        Op::GlobalSet(0),
    ]
}

#[test]
fn a_frame_reads_the_same_whether_the_prologue_is_folded_or_not() {
    // The two compilers describe the same frame. An analysis that only
    // knows the folded spelling reports that a module built by the other
    // one has no frames at all, which is a statement about the compiler
    // dressed up as one about the code.
    let mut folded = frame_prologue(32, 4);
    folded.extend([Op::LocalGet(4), Op::I32Const(7), store(12)]);
    folded.extend(frame_epilogue(32, 4));

    let mut unfolded = unfolded_prologue(32, 4);
    unfolded.extend([Op::LocalGet(4), Op::I32Const(7), store(12)]);
    unfolded.extend(unfolded_epilogue(32, 4));

    let (folded, unfolded) = (frame_of(folded), frame_of(unfolded));
    // Everything but the prologue's length, which *is* the spelling: five
    // instructions against ten, describing the same frame.
    assert_eq!(folded.prologue, 5);
    assert_eq!(unfolded.prologue, 10);
    assert_eq!(
        Frame {
            prologue: 5,
            ..unfolded.clone()
        },
        folded
    );
    assert_eq!(unfolded.size, 32);
    assert_eq!(unfolded.base_local, 4);
    assert!(unfolded.publishes);
    assert!(
        !unfolded.escapes,
        "the address only ever went into locals this walk follows"
    );
    assert_eq!(unfolded.slots[&12].writes, 1);
}

#[test]
fn an_unfolded_leaf_prologue_is_read_and_marked_unpublished() {
    // clang drops the write-back for a function that calls nothing, in this
    // spelling as in the folded one.
    let mut body = unfolded_prologue(16, 3);
    body.truncate(8);
    body.extend([Op::LocalGet(3), Op::I32Const(1), store(4)]);
    let frame = frame_of(body);
    assert_eq!(frame.size, 16);
    assert_eq!(frame.base_local, 3);
    assert!(!frame.publishes);
    assert_eq!(frame.slots[&4].writes, 1);
}

#[test]
fn an_unfolded_prologue_identifies_the_stack_pointer_too() {
    // No export, no name section: the shape is the only evidence, and it
    // has to be countable in this spelling as well.
    let module = with_bodies(
        module_with_globals(2, true),
        vec![
            {
                let mut body = unfolded_prologue(32, 4);
                body.extend(unfolded_epilogue(32, 4));
                body
            },
            {
                let mut body = unfolded_prologue(16, 4);
                body.extend(unfolded_epilogue(16, 4));
                body
            },
        ],
    );
    let found = analyse(&module).stack_pointer.expect("found by its use");
    assert_eq!(found.global, 0);
    assert_eq!(found.evidence, Evidence::Prologue { functions: 2 });
}

#[test]
fn the_unfolded_prologue_is_matched_exactly_and_not_by_its_shape() {
    // The four instructions between the two `local.set`s say *which* locals
    // are subtracted. Reading a different pair is arithmetic on a global
    // that happens to start the same way, and a frame claimed for it would
    // have the wrong base and the wrong size.
    let module = |body: Vec<Op>| {
        let mut module = module_with_globals(1, true);
        module.exports.push(Export {
            name: "__stack_pointer".into(),
            kind: ExportKind::Global,
            index: 0,
        });
        with_bodies(module, vec![body])
    };
    let good = unfolded_prologue(16, 3);
    for spoiled in [
        // Not the local the stack pointer went into.
        (4, Op::LocalGet(7)),
        // Not the local the size went into.
        (5, Op::LocalGet(7)),
        // Not a subtraction.
        (6, Op::Num(NumOp::I32Add)),
    ] {
        let (at, op) = spoiled;
        let mut body = good.clone();
        body[at] = op;
        assert!(
            analyse(&module(body)).frames.is_empty(),
            "the prologue was matched with instruction {at} replaced"
        );
    }
    assert!(!analyse(&module(good)).frames.is_empty(), "and unspoiled");
}

#[test]
fn leaf_prologues_are_evidence_only_when_they_address_memory() {
    // Nothing writes the stack pointer back in a module of leaves, so the
    // reservations are all there is — and a reservation that never becomes
    // an address is indistinguishable from arithmetic on a global.
    let bare = || {
        let mut body = unfolded_prologue(16, 3);
        body.truncate(8);
        body
    };
    let module = with_bodies(module_with_globals(1, true), vec![bare(), bare()]);
    assert!(
        analyse(&module).stack_pointer.is_none(),
        "a number, not a frame"
    );

    let addressing = || {
        let mut body = bare();
        body.extend([Op::LocalGet(3), Op::I32Const(1), store(4)]);
        body
    };
    let module = with_bodies(
        module_with_globals(1, true),
        vec![addressing(), addressing()],
    );
    let found = analyse(&module).stack_pointer.expect("found by its use");
    assert_eq!(found.evidence, Evidence::Prologue { functions: 2 });
}

#[test]
fn a_frame_records_its_size_and_the_local_that_holds_it() {
    let mut body = frame_prologue(32, 1);
    body.extend(frame_epilogue(32, 1));
    let frame = frame_of(body);
    assert_eq!(frame.size, 32);
    assert_eq!(frame.base_local, 1);
    assert!(!frame.escapes);
    assert!(frame.slots.is_empty());
}

#[test]
fn a_store_past_the_end_of_the_frame_is_reported() {
    let mut body = frame_prologue(32, 0);
    // frame[28] is the last word inside a 32-byte frame; frame[32] is the
    // first one in the caller's.
    body.extend([Op::LocalGet(0), Op::I32Const(1), store(28)]);
    body.extend([Op::LocalGet(0), Op::I32Const(1), store(32)]);
    let frame = frame_of(body);
    assert_eq!(frame.writes_outside(), vec![(32, 4)]);
}

#[test]
fn a_store_straddling_the_end_of_the_frame_is_reported() {
    // The off-by-one a comparison of the start address alone would miss:
    // the last byte of this store is outside.
    let mut body = frame_prologue(32, 0);
    body.extend([Op::LocalGet(0), Op::I32Const(1), store(30)]);
    assert_eq!(frame_of(body).writes_outside(), vec![(30, 4)]);
}

#[test]
fn reading_past_the_end_of_the_frame_is_not_reported() {
    // Some ABIs put the caller's arguments up there, so a list that
    // included reads would not be short enough to act on.
    let mut body = frame_prologue(32, 0);
    body.extend([Op::LocalGet(0), load(48), Op::Drop]);
    let frame = frame_of(body);
    assert!(frame.writes_outside().is_empty());
    assert!(frame.slots.contains_key(&48), "it is still a slot");
}

#[test]
fn a_store_inside_the_frame_is_not_reported() {
    let mut body = frame_prologue(32, 0);
    body.extend([Op::LocalGet(0), Op::I32Const(1), store(28)]);
    assert!(frame_of(body).writes_outside().is_empty());
}

#[test]
fn a_store_through_a_computed_frame_address_is_counted_separately() {
    // `frame + n` with `n` unknown: an indexed array in the frame. The
    // offset cannot be checked, and this is the count that says so.
    let mut body = frame_prologue(32, 0);
    body.extend([
        Op::LocalGet(0),
        Op::LocalGet(1),
        Op::Num(NumOp::I32Add),
        Op::I32Const(1),
        store(0),
    ]);
    let frame = frame_of(body);
    assert_eq!(frame.computed_writes, 1);
    assert!(frame.escapes, "an offset nobody knows is still an escape");
    assert!(
        frame.writes_outside().is_empty(),
        "and it is not claimed to be outside, because nobody knows"
    );
}

#[test]
fn arithmetic_that_never_touched_the_frame_is_not_a_computed_write() {
    let mut body = frame_prologue(32, 0);
    body.extend([
        Op::LocalGet(1),
        Op::LocalGet(2),
        Op::Num(NumOp::I32Add),
        Op::I32Const(1),
        store(0),
    ]);
    assert_eq!(frame_of(body).computed_writes, 0);
}

#[test]
fn a_function_with_no_prologue_has_no_frame() {
    let module = framed_module(vec![Op::I32Const(1), Op::Drop]);
    assert!(analyse(&module).frames.is_empty());
}

#[test]
fn slots_are_collected_with_their_width_and_direction() {
    let mut body = frame_prologue(48, 0);
    // frame[12] = x, twice
    body.extend([Op::LocalGet(0), Op::I32Const(7), store(12)]);
    body.extend([Op::LocalGet(0), Op::I32Const(9), store(12)]);
    // read frame[12] and frame[16]
    body.extend([Op::LocalGet(0), load(12), Op::Drop]);
    body.extend([Op::LocalGet(0), load(16), Op::Drop]);
    // a byte at frame[20]
    body.extend([
        Op::LocalGet(0),
        Op::I32Const(1),
        Op::Store {
            kind: StoreKind::I32Store8,
            mem: MemArg { offset: 20 },
        },
    ]);
    body.extend(frame_epilogue(48, 0));

    let frame = frame_of(body);
    assert!(!frame.escapes, "nothing here leaves the function");
    assert_eq!(frame.slots.len(), 3);
    assert_eq!(
        frame.slots[&12],
        Slot {
            width: 4,
            reads: 1,
            writes: 2,
            uniform: Some((4, ValType::I32)),
            mixed: false,
            indirect: false,
        }
    );
    assert_eq!(
        frame.slots[&16],
        Slot {
            width: 4,
            reads: 1,
            writes: 0,
            uniform: Some((4, ValType::I32)),
            mixed: false,
            indirect: false,
        }
    );
    assert_eq!(
        frame.slots[&20],
        Slot {
            width: 1,
            reads: 0,
            writes: 1,
            uniform: Some((1, ValType::I32)),
            mixed: false,
            indirect: false,
        }
    );
}

#[test]
fn an_offset_added_before_the_access_lands_in_the_same_place() {
    // `frame + 8` then `i32.load offset=4` is frame[12], the same slot the
    // direct `i32.load offset=12` reaches.
    let mut body = frame_prologue(16, 0);
    body.extend([
        Op::LocalGet(0),
        Op::I32Const(8),
        Op::Num(NumOp::I32Add),
        load(4),
        Op::Drop,
    ]);
    body.extend([Op::LocalGet(0), load(12), Op::Drop]);
    body.extend(frame_epilogue(16, 0));

    let frame = frame_of(body);
    assert_eq!(frame.slots.len(), 1, "{:?}", frame.slots);
    assert_eq!(frame.slots[&12].reads, 2);
}

#[test]
fn passing_the_frame_address_to_a_call_is_an_escape() {
    let mut module = module_with_globals(1, true);
    module.exports.push(Export {
        name: "__stack_pointer".into(),
        kind: ExportKind::Global,
        index: 0,
    });
    module.types = vec![
        FuncType::default(),
        FuncType {
            params: vec![ValType::I32],
            results: Vec::new(),
        },
    ];
    let mut body = frame_prologue(16, 0);
    body.extend([Op::LocalGet(0), Op::Call(1)]);
    body.extend(frame_epilogue(16, 0));
    let mut module = with_bodies(module, vec![body, Vec::new()]);
    module.funcs[1].type_index = 1;

    let frame = analyse(&module).frames[&0].clone();
    assert!(
        frame.escapes,
        "the callee can do anything with that address"
    );
}

#[test]
fn storing_the_frame_address_into_memory_is_an_escape() {
    let mut body = frame_prologue(16, 0);
    // frame[0] = frame — a self-referential pointer, and an address that
    // now lives somewhere this walk cannot follow.
    body.extend([Op::LocalGet(0), Op::LocalGet(0), store(0)]);
    body.extend(frame_epilogue(16, 0));
    assert!(frame_of(body).escapes);
}

#[test]
fn a_copy_of_the_frame_address_is_followed_through_the_local() {
    // A copy is not an escape by itself: the walk knows which local it went
    // into, so an access through the copy is an access to the frame and
    // lands in the table like any other. Giving up here is what made an
    // unoptimised build — where every value goes through a local — report a
    // frame it could say nothing about.
    let mut body = frame_prologue(16, 0);
    body.extend([
        Op::LocalGet(0),
        Op::LocalSet(3),
        Op::LocalGet(3),
        Op::I32Const(7),
        store(4),
    ]);
    body.extend(frame_epilogue(16, 0));
    let frame = frame_of(body);
    assert!(!frame.escapes, "the copy never left the function");
    assert_eq!(frame.slots[&4].writes, 1, "the write went to `frame + 4`");
}

#[test]
fn a_copy_of_the_frame_address_live_across_control_flow_is_an_escape() {
    // The other side of following a copy: the walk follows one path, so at
    // a branch it forgets what a local holds — and a local holding the
    // frame address when that happens has gone where it cannot be followed.
    let mut body = frame_prologue(16, 0);
    body.extend([
        Op::LocalGet(0),
        Op::LocalSet(3),
        Op::Block(BlockType::Empty),
        Op::End,
    ]);
    body.extend(frame_epilogue(16, 0));
    assert!(frame_of(body).escapes);
}

#[test]
fn reassigning_the_base_local_is_an_escape() {
    let mut body = frame_prologue(16, 0);
    body.extend([Op::I32Const(1234), Op::LocalSet(0)]);
    body.extend(frame_epilogue(16, 0));
    assert!(frame_of(body).escapes);
}

#[test]
fn arithmetic_that_is_not_a_constant_offset_is_an_escape() {
    // `frame + n` where n is a parameter: the slot could be anywhere.
    let mut body = frame_prologue(16, 0);
    body.extend([
        Op::LocalGet(0),
        Op::LocalGet(1),
        Op::Num(NumOp::I32Add),
        load(0),
        Op::Drop,
    ]);
    body.extend(frame_epilogue(16, 0));
    assert!(frame_of(body).escapes);
}

#[test]
fn a_frame_address_live_across_control_flow_ends_the_analysis() {
    let mut body = frame_prologue(16, 0);
    body.extend([Op::LocalGet(0), Op::Block(BlockType::Empty)]);
    body.extend(frame_epilogue(16, 0));
    assert!(
        frame_of(body).escapes,
        "the walk cannot follow it, so it must not claim to"
    );
}

#[test]
fn control_flow_with_no_frame_address_pending_is_fine() {
    let mut body = frame_prologue(16, 0);
    body.extend([Op::LocalGet(0), Op::I32Const(1), store(4)]);
    body.push(Op::Block(BlockType::Empty));
    body.push(Op::End);
    body.extend([Op::LocalGet(0), load(4), Op::Drop]);
    body.extend(frame_epilogue(16, 0));
    let frame = frame_of(body);
    assert!(!frame.escapes);
    assert_eq!(
        frame.slots[&4],
        Slot {
            width: 4,
            reads: 1,
            writes: 1,
            uniform: Some((4, ValType::I32)),
            mixed: false,
            indirect: false,
        }
    );
}

#[test]
fn an_epilogue_that_restores_the_wrong_amount_is_an_escape() {
    // Off by a frame size means the stack pointer is left somewhere else,
    // and whatever this function is doing is not the shape assumed here.
    let mut body = frame_prologue(16, 0);
    body.extend(frame_epilogue(32, 0));
    assert!(frame_of(body).escapes);
}

#[test]
fn an_instruction_the_walk_does_not_model_ends_it() {
    let mut body = frame_prologue(16, 0);
    body.push(Op::LocalGet(0));
    // A call_indirect naming a type that does not exist: the walk cannot
    // know the arity, so it must stop rather than lose track of the stack.
    body.push(Op::CallIndirect { type_index: 99 });
    assert!(frame_of(body).escapes);
}

#[test]
fn a_prologue_written_with_a_set_and_a_get_is_recognised() {
    let mut body = vec![
        Op::GlobalGet(0),
        Op::I32Const(64),
        Op::Num(NumOp::I32Sub),
        Op::LocalSet(2),
        Op::LocalGet(2),
        Op::GlobalSet(0),
    ];
    body.extend([Op::LocalGet(2), Op::I32Const(5), store(8)]);
    body.extend(frame_epilogue(64, 2));
    let frame = frame_of(body);
    assert_eq!(frame.size, 64);
    assert_eq!(frame.base_local, 2);
    assert!(!frame.escapes);
    assert_eq!(frame.slots[&8].writes, 1);
}

#[test]
fn the_walk_keeps_its_footing_through_the_rest_of_the_instruction_set() {
    // None of these involve the frame address, and all of them have to
    // leave the abstract stack balanced — if the arity were wrong, a later
    // `local.get $base` would be popped by the wrong instruction and an
    // escape would go unnoticed.
    let mut body = frame_prologue(32, 0);
    body.extend([
        Op::Nop,
        Op::I64Const(1),
        Op::Drop,
        Op::F32Const(1.0f32.to_bits()),
        Op::Drop,
        Op::F64Const(1.0f64.to_bits()),
        Op::Drop,
        Op::I32Const(2),
        Op::I32Const(3),
        Op::Num(NumOp::I32Add),
        Op::Drop,
        Op::MemorySize,
        Op::Drop,
        Op::I32Const(1),
        Op::MemoryGrow,
        Op::Drop,
        Op::I32Const(0),
        Op::I32Const(0),
        Op::I32Const(0),
        Op::MemoryFill,
        Op::I32Const(0),
        Op::I32Const(0),
        Op::I32Const(0),
        Op::MemoryCopy,
        Op::I32Const(0),
        Op::I32Const(0),
        Op::I32Const(0),
        Op::MemoryInit(0),
        Op::DataDrop(0),
        Op::I32Const(1),
        Op::I32Const(2),
        Op::I32Const(3),
        Op::Select,
        Op::Drop,
        Op::I32Const(7),
        Op::LocalTee(4),
        Op::Drop,
        Op::I32Const(9),
        Op::GlobalSet(0),
    ]);
    // And after all of that, an access still lands in the right slot.
    body.extend([Op::LocalGet(0), Op::I32Const(11), store(4)]);
    let frame = frame_of(body);
    assert_eq!(frame.slots[&4].writes, 1, "{:?}", frame.slots);
}

#[test]
fn eight_byte_accesses_are_recorded_as_eight_bytes() {
    let mut body = frame_prologue(32, 0);
    body.extend([
        Op::LocalGet(0),
        Op::I64Const(1),
        Op::Store {
            kind: StoreKind::I64,
            mem: MemArg { offset: 0 },
        },
        Op::LocalGet(0),
        Op::Load {
            kind: LoadKind::F64,
            mem: MemArg { offset: 8 },
        },
        Op::Drop,
    ]);
    let frame = frame_of(body);
    assert_eq!(frame.slots[&0].width, 8);
    assert_eq!(frame.slots[&8].width, 8);
}

#[test]
fn a_call_to_a_function_that_is_not_there_ends_the_walk() {
    // The arity is unknown, so the stack cannot be kept straight past it.
    let mut body = frame_prologue(16, 0);
    body.push(Op::Call(77));
    assert!(frame_of(body).escapes);
}

#[test]
fn a_call_that_does_not_take_the_frame_address_is_not_an_escape() {
    let mut module = module_with_globals(1, true);
    module.exports.push(Export {
        name: "__stack_pointer".into(),
        kind: ExportKind::Global,
        index: 0,
    });
    module.types = vec![
        FuncType::default(),
        FuncType {
            params: vec![ValType::I32],
            results: vec![ValType::I32],
        },
    ];
    let mut body = frame_prologue(16, 0);
    body.extend([Op::I32Const(5), Op::Call(1), Op::Drop]);
    body.extend([Op::LocalGet(0), Op::I32Const(1), store(0)]);
    let mut module = with_bodies(module, vec![body, Vec::new()]);
    module.funcs[1].type_index = 1;

    let frame = analyse(&module).frames[&0].clone();
    assert!(!frame.escapes, "{frame:?}");
    assert_eq!(frame.slots[&0].writes, 1);
}

#[test]
fn an_indirect_call_taking_the_frame_address_is_an_escape() {
    let mut module = module_with_globals(1, true);
    module.exports.push(Export {
        name: "__stack_pointer".into(),
        kind: ExportKind::Global,
        index: 0,
    });
    module.types = vec![
        FuncType::default(),
        FuncType {
            params: vec![ValType::I32],
            results: Vec::new(),
        },
    ];
    let mut body = frame_prologue(16, 0);
    body.extend([
        Op::LocalGet(0),
        Op::I32Const(0),
        Op::CallIndirect { type_index: 1 },
    ]);
    let module = with_bodies(module, vec![body]);
    assert!(analyse(&module).frames[&0].escapes);
}

#[test]
fn a_prologue_that_is_not_one_is_refused_at_every_step() {
    let cases: Vec<Vec<Op>> = vec![
        // Does not start with the stack pointer.
        vec![Op::I32Const(16), Op::Num(NumOp::I32Sub)],
        // Reads a different global.
        vec![
            Op::GlobalGet(1),
            Op::I32Const(16),
            Op::Num(NumOp::I32Sub),
            Op::LocalTee(0),
        ],
        // Reserves nothing.
        vec![
            Op::GlobalGet(0),
            Op::I32Const(0),
            Op::Num(NumOp::I32Sub),
            Op::LocalTee(0),
        ],
        // Adds instead of subtracting: that is an epilogue.
        vec![
            Op::GlobalGet(0),
            Op::I32Const(16),
            Op::Num(NumOp::I32Add),
            Op::LocalTee(0),
        ],
        // Keeps the result nowhere this analysis can name.
        vec![
            Op::GlobalGet(0),
            Op::I32Const(16),
            Op::Num(NumOp::I32Sub),
            Op::GlobalSet(0),
        ],
        // Runs out before it says where the address went.
        vec![Op::GlobalGet(0), Op::I32Const(16), Op::Num(NumOp::I32Sub)],
    ];
    for (at, body) in cases.into_iter().enumerate() {
        let module = framed_module(body);
        assert!(
            analyse(&module).frames.is_empty(),
            "case {at} was read as a prologue"
        );
    }
}

#[test]
fn a_leaf_prologue_is_recognised_and_marked_unpublished() {
    // No `global.set`: clang omits it for a function that calls nothing.
    let mut body = vec![
        Op::GlobalGet(0),
        Op::I32Const(16),
        Op::Num(NumOp::I32Sub),
        Op::LocalSet(1),
    ];
    body.extend([Op::LocalGet(1), Op::I32Const(3), store(0)]);
    let frame = frame_of(body);
    assert!(!frame.publishes);
    assert_eq!(frame.base_local, 1);
    assert_eq!(frame.slots[&0].writes, 1);

    // The `local.tee` spelling of the same thing.
    let mut body = vec![
        Op::GlobalGet(0),
        Op::I32Const(16),
        Op::Num(NumOp::I32Sub),
        Op::LocalTee(1),
        Op::Drop,
    ];
    body.extend([Op::LocalGet(1), Op::I32Const(3), store(0)]);
    let frame = frame_of(body);
    assert!(!frame.publishes);
}

#[test]
fn a_published_prologue_says_so() {
    let mut body = frame_prologue(16, 0);
    body.extend(frame_epilogue(16, 0));
    assert!(frame_of(body).publishes);
}

// ---- trampolines ----

/// A module with the three things a trampoline needs: a stack pointer, an
/// exported `setThrew`, and a type for what the table holds.
fn trampoline_module(import_params: Vec<ValType>, import_results: Vec<ValType>) -> Module {
    let mut module = module_with_globals(1, true);
    module.exports.push(Export {
        name: "__stack_pointer".into(),
        kind: ExportKind::Global,
        index: 0,
    });
    module.exports.push(Export {
        name: "setThrew".into(),
        kind: ExportKind::Func,
        index: 1,
    });
    module.types = vec![
        FuncType {
            params: import_params,
            results: import_results,
        },
        // The callee's type: one i32, no result.
        FuncType {
            params: vec![ValType::I32],
            results: Vec::new(),
        },
    ];
    module.func_imports.push(ImportedFunc {
        module: "env".into(),
        field: "invoke_vi".into(),
        type_index: 0,
    });
    // Two prologues, so the stack pointer is identified by use as well.
    with_bodies(module, vec![prologue(0), prologue(0)])
}

#[test]
fn a_trampoline_is_found_by_its_name_and_checked_by_its_signature() {
    let module = trampoline_module(vec![ValType::I32, ValType::I32], Vec::new());
    let analysis = analyse(&module);
    assert_eq!(analysis.invokes.len(), 1);
    assert_eq!(analysis.invokes[0].import, 0);
    assert_eq!(
        analysis.invokes[0].callee_type, 1,
        "the type without the index"
    );
    assert_eq!(analysis.set_threw, Some(1));
}

#[test]
fn an_invoke_with_no_leading_table_index_is_not_one() {
    // The name matches and the signature does not: nothing to dispatch.
    let module = trampoline_module(Vec::new(), Vec::new());
    assert!(analyse(&module).invokes.is_empty());
    // A first parameter that is not an index either.
    let module = trampoline_module(vec![ValType::F64, ValType::I32], Vec::new());
    assert!(analyse(&module).invokes.is_empty());
}

#[test]
fn an_invoke_whose_callee_type_the_module_lacks_is_left_alone() {
    // `(i32, i64) -> ()` would dispatch to `(i64) -> ()`, and the module
    // declares no such type — so there is no dispatcher to call.
    let module = trampoline_module(vec![ValType::I32, ValType::I64], Vec::new());
    assert!(analyse(&module).invokes.is_empty());
}

#[test]
fn an_invoke_whose_type_index_is_missing_is_left_alone() {
    let mut module = trampoline_module(vec![ValType::I32, ValType::I32], Vec::new());
    module.func_imports[0].type_index = 99;
    assert!(analyse(&module).invokes.is_empty());
}

#[test]
fn an_import_that_is_not_an_invoke_is_never_taken_for_one() {
    let mut module = trampoline_module(vec![ValType::I32, ValType::I32], Vec::new());
    module.func_imports[0].field = "call_something".into();
    assert!(analyse(&module).invokes.is_empty());
}

#[test]
fn without_set_threw_no_trampoline_is_generated() {
    let mut module = trampoline_module(vec![ValType::I32, ValType::I32], Vec::new());
    module.exports.retain(|export| export.name != "setThrew");
    let analysis = analyse(&module);
    assert!(analysis.set_threw.is_none());
    assert!(analysis.invokes.is_empty());
}

#[test]
fn the_underscored_spelling_of_set_threw_counts_too() {
    let mut module = trampoline_module(vec![ValType::I32, ValType::I32], Vec::new());
    for export in &mut module.exports {
        if export.name == "setThrew" {
            export.name = "_setThrew".into();
        }
    }
    assert_eq!(analyse(&module).set_threw, Some(1));
}

#[test]
fn a_global_exported_as_set_threw_is_not_a_function() {
    let mut module = trampoline_module(vec![ValType::I32, ValType::I32], Vec::new());
    for export in &mut module.exports {
        if export.name == "setThrew" {
            export.kind = ExportKind::Global;
        }
    }
    assert!(analyse(&module).set_threw.is_none());
}

#[test]
fn frames_are_not_looked_for_without_a_stack_pointer() {
    // No stack pointer identified means no basis for calling anything a
    // frame — the prologue shape alone is not enough.
    let module = with_bodies(module_with_globals(1, false), vec![frame_prologue(16, 0)]);
    let analysis = analyse(&module);
    assert!(analysis.stack_pointer.is_none());
    assert!(analysis.frames.is_empty());
}

#[test]
fn a_function_with_two_unique_messages_keeps_the_more_specific_one() {
    // Both belong to it alone; the longer identifier says more.
    let module = Module {
        datas: vec![DataSegment {
            file_offset: 0,
            offset: Some(ConstExpr::I32(0)),
            bytes: b"short_one: x\0handle_incoming_signalling_offer: y\0".to_vec(),
        }],
        types: vec![FuncType::default()],
        ..Module::default()
    };
    let module = with_bodies(
        module,
        vec![vec![Op::I32Const(0), Op::Drop, Op::I32Const(13), Op::Drop]],
    );
    let derived = analyse(&module).derived_names;
    assert_eq!(
        derived[&0].name, "handle_incoming_signalling_offer",
        "{derived:?}"
    );
}

#[test]
fn static_reads_skip_segments_that_cannot_answer() {
    // Three ways a segment is not the one holding an address: it is placed
    // by a global, it is passive with no known placement, and it sits
    // after the address being asked about.
    let module = Module {
        datas: vec![
            DataSegment {
                file_offset: 0,
                offset: Some(ConstExpr::GlobalGet(0)),
                bytes: vec![1, 2, 3, 4],
            },
            DataSegment {
                file_offset: 0,
                offset: None,
                bytes: vec![5, 6, 7, 8],
            },
            DataSegment {
                file_offset: 0,
                offset: Some(ConstExpr::I32(4096)),
                bytes: vec![9, 0, 0, 0],
            },
        ],
        ..Module::default()
    };
    let placements = Default::default();
    // Before every segment that could answer.
    assert_eq!(static_i32(&module, &placements, 0), None);
    // And the one that can.
    assert_eq!(static_i32(&module, &placements, 4096), Some(9));
}

#[test]
fn a_segment_placed_by_a_global_offset_is_not_read_from() {
    // Only an imported global can mean this, and its value is not known
    // here — so nothing in that segment resolves.
    let module = Module {
        datas: vec![DataSegment {
            file_offset: 0,
            offset: Some(ConstExpr::GlobalGet(0)),
            bytes: b"unreachable_text\0".to_vec(),
        }],
        ..Module::default()
    };
    assert_eq!(static_text(&module, 0), None);
}

#[test]
fn an_instruction_outside_the_walks_vocabulary_ends_it() {
    // An atomic: the walk models plain loads and stores, not these, and
    // stopping is the only safe answer to an instruction it cannot account
    // for on the stack.
    let mut body = frame_prologue(16, 0);
    body.push(Op::Atomic {
        op: Atomic {
            kind: AtomicKind::Load,
            ty: ValType::I32,
            width: 4,
        },
        mem: MemArg { offset: 0 },
    });
    assert!(frame_of(body).escapes);
}

#[test]
fn a_prologue_whose_second_instruction_is_not_a_size_is_not_one() {
    let module = framed_module(vec![Op::GlobalGet(0), Op::Nop, Op::LocalTee(0)]);
    assert!(analyse(&module).frames.is_empty());
}

#[test]
fn a_call_that_is_not_a_registration_is_walked_past() {
    // The embind scan has to keep going through every other call in the
    // module, of which there are rather more.
    let mut module = Module {
        types: vec![
            FuncType::default(),
            FuncType {
                params: vec![ValType::I32; 7],
                results: Vec::new(),
            },
        ],
        datas: vec![DataSegment {
            file_offset: 0,
            offset: Some(ConstExpr::I32(0)),
            bytes: b"registered_name\0".to_vec(),
        }],
        ..Module::default()
    };
    module.func_imports.push(ImportedFunc {
        module: "env".into(),
        field: "_embind_register_function".into(),
        type_index: 1,
    });
    module.func_imports.push(ImportedFunc {
        module: "env".into(),
        field: "something_else".into(),
        type_index: 0,
    });
    let body = vec![
        Op::Call(1),
        Op::I32Const(0),
        Op::I32Const(0),
        Op::I32Const(0),
        Op::I32Const(0),
        Op::I32Const(0),
        Op::I32Const(0),
        Op::I32Const(0),
        Op::Call(0),
        Op::Call(1),
    ];
    let module = with_bodies(module, vec![body]);
    let registrations = analyse(&module).registrations;
    assert_eq!(registrations.len(), 1, "{registrations:?}");
    assert_eq!(registrations[0].name.as_deref(), Some("registered_name"));
}

#[test]
fn a_prologue_that_never_stores_back_is_not_one() {
    // `global.get; i32.const; i32.sub` and then something else entirely:
    // arithmetic on a global, not a frame being reserved. It is the same
    // shape a leaf function's prologue has, which is why the leaf spelling
    // counts as evidence only when the address is then used to reach
    // memory — and nothing here ever is.
    let body = vec![
        Op::GlobalGet(0),
        Op::I32Const(32),
        Op::Num(NumOp::I32Sub),
        Op::LocalSet(0),
        Op::LocalSet(1),
        Op::LocalSet(2),
    ];
    let module = with_bodies(module_with_globals(1, true), vec![body.clone(), body]);
    assert!(analyse(&module).stack_pointer.is_none());
}

#[test]
fn a_body_too_short_to_be_a_prologue_is_not_one() {
    let module = with_bodies(
        module_with_globals(1, true),
        vec![
            vec![Op::GlobalGet(0)],
            vec![Op::GlobalGet(0), Op::I32Const(4)],
        ],
    );
    assert!(analyse(&module).stack_pointer.is_none());
}

#[test]
fn a_length_that_runs_past_the_segment_is_refused() {
    let module = module_with_data(0, b"short");
    assert_eq!(static_text_of_length(&module, 0, 50), None);
    // And a length that is not a length at all.
    assert_eq!(static_text_of_length(&module, 0, 0), None);
    assert_eq!(static_text_of_length(&module, 0, 100_000), None);
}

#[test]
fn a_length_that_covers_only_binary_is_refused() {
    let module = module_with_data(0, &[0x01, 0x02, 0x03, 0x04, 0x05]);
    assert_eq!(static_text_of_length(&module, 0, 4), None);
}

#[test]
fn a_length_shorter_than_a_name_is_refused() {
    let module = module_with_data(0, b"abcdef");
    assert_eq!(static_text_of_length(&module, 0, 2), None);
    assert_eq!(
        static_text_of_length(&module, 0, 6).as_deref(),
        Some("abcdef")
    );
}

#[test]
fn a_very_long_slice_is_cut_like_a_very_long_string() {
    let bytes = "y".repeat(300).into_bytes();
    let module = module_with_data(0, &bytes);
    let text = static_text_of_length(&module, 0, 300).expect("text");
    assert!(text.ends_with('…'), "{text}");
}

#[test]
fn an_address_outside_every_segment_reads_back_as_nothing() {
    let module = module_with_data(1024, b"hello\0");
    assert_eq!(static_text(&module, 0), None);
    assert_eq!(static_text(&module, 2048), None);
    // Passive segments are not at any address until `memory.init` puts them
    // somewhere, so they cannot answer this question.
    let module = Module {
        datas: vec![DataSegment {
            file_offset: 0,
            offset: None,
            bytes: b"hello\0".to_vec(),
        }],
        ..Module::default()
    };
    assert_eq!(static_text(&module, 0), None);
}

// ---- the C++ RTTI, laid out by hand ----

/// Lays out an image the way the Itanium ABI does, so the rules below are
/// tested against a layout rather than against a module nobody can edit.
///
/// The base is 1024 because address 0 is not a `type_info` anywhere — a null
/// vptr is how "no kind" is spelled, and starting at 0 would make the first
/// object indistinguishable from it.
struct Image {
    bytes: Vec<u8>,
}

impl Image {
    const BASE: i32 = 1024;

    fn new() -> Self {
        Self { bytes: Vec::new() }
    }

    fn here(&self) -> i32 {
        Self::BASE + self.bytes.len() as i32
    }

    fn word(&mut self, value: i32) -> i32 {
        let at = self.here();
        self.bytes.extend_from_slice(&value.to_le_bytes());
        at
    }

    fn text(&mut self, value: &str) -> i32 {
        let at = self.here();
        self.bytes.extend_from_slice(value.as_bytes());
        self.bytes.push(0);
        while !self.bytes.len().is_multiple_of(4) {
            self.bytes.push(0);
        }
        at
    }

    /// Somewhere for a `type_info`'s vptr to point at. It has to be inside
    /// the image — a vptr that addresses nothing is not one — and two zero
    /// words are not a `type_info` themselves.
    fn vtable(&mut self) -> i32 {
        let at = self.word(0);
        self.word(0);
        at
    }

    /// `{vptr, name}` — a class with no base, which is what Itanium's
    /// `__class_type_info` is.
    fn plain(&mut self, kind: i32, name: &str) -> i32 {
        let name_at = self.text(name);
        let at = self.word(kind);
        self.word(name_at);
        at
    }

    /// `{vptr, name, base}` — `__si_class_type_info`.
    fn derived(&mut self, kind: i32, name: &str, base: i32) -> i32 {
        let at = self.plain(kind, name);
        self.word(base);
        at
    }

    fn module(self) -> Module {
        module_with_data(Self::BASE, &self.bytes)
    }
}

fn class_names(module: &Module) -> Vec<String> {
    let (classes, _) = classes(module, &Default::default());
    classes.into_iter().map(|class| class.name).collect()
}

#[test]
fn a_vtable_pointer_too_few_type_infos_share_is_not_one() {
    // Two candidates agreeing on a word is two words that lined up. The
    // floor is what separates that from a `__class_type_info` vtable, and
    // it is the whole defence against naming a class that is not there.
    let mut image = Image::new();
    let kind = image.vtable();
    image.plain(kind, "5Alpha");
    image.plain(kind, "4Beta");
    assert_eq!(class_names(&image.module()), Vec::<String>::new());

    let mut image = Image::new();
    let kind = image.vtable();
    image.plain(kind, "5Alpha");
    image.plain(kind, "4Beta");
    image.plain(kind, "5Gamma");
    assert_eq!(class_names(&image.module()), ["Alpha", "Beta", "Gamma"]);
}

#[test]
fn a_base_a_confirmed_class_names_is_a_class_the_count_missed() {
    // Three derived classes confirm their kind; the base each of them points
    // at has a kind of its own that nothing else shares, so only the base
    // pointers can name it. That is a statement the module makes, not one
    // this inferred.
    let mut image = Image::new();
    let (si, alone) = (image.vtable(), image.vtable());
    let base = image.plain(alone, "5Shape");
    for name in ["6Square", "6Circle", "9Rectangle"] {
        image.derived(si, name, base);
    }
    let module = image.module();
    let (classes, evidence) = classes(&module, &Default::default());

    let names: Vec<&str> = classes.iter().map(|class| class.name.as_str()).collect();
    assert_eq!(names, ["Shape", "Square", "Circle", "Rectangle"]);
    assert_eq!(evidence.by_base, 1, "one of them the count did not reach");
    assert_eq!(evidence.kinds, 1, "and only one kind was ever confirmed");
    let square = classes
        .iter()
        .find(|class| class.name == "Square")
        .expect("declared");
    assert_eq!(square.base, Some(base));
    let shape = classes
        .iter()
        .find(|class| class.name == "Shape")
        .expect("named by its derived classes");
    assert_eq!(
        shape.base, None,
        "one hop: an admitted class's own third word is not read as a base"
    );
}

#[test]
fn a_kind_whose_members_carry_no_base_pointer_reads_none() {
    // Three two-word objects are packed, so each one's third word is the
    // next one's first. Reading that as a base would give every class in the
    // module a bogus parent, and the last one a parent past the segment.
    let mut image = Image::new();
    let kind = image.vtable();
    for name in ["5Alpha", "4Beta", "5Gamma"] {
        image.plain(kind, name);
    }
    let module = image.module();
    let (classes, evidence) = classes(&module, &Default::default());
    assert_eq!(classes.len(), 3);
    assert!(
        classes.iter().all(|class| class.base.is_none()),
        "{classes:?}"
    );
    assert_eq!(evidence.by_base, 0);
}

#[test]
fn a_base_pointing_inside_its_own_object_is_not_a_base() {
    // A three-word `type_info` occupies twelve bytes, so a base pointer into
    // those twelve is the object overlapping itself. The three that do point
    // outside are enough to confirm the kind, which is what makes the fourth
    // a rejection rather than a group that never formed.
    let mut image = Image::new();
    let (si, alone) = (image.vtable(), image.vtable());
    let base = image.plain(alone, "5Shape");
    for name in ["6Square", "6Circle", "9Rectangle"] {
        image.derived(si, name, base);
    }
    let liar = image.here() + 8; // the object itself, past its own name
    image.derived(si, "5Wrong", liar);

    let module = image.module();
    let (classes, _) = classes(&module, &Default::default());
    let wrong = classes
        .iter()
        .find(|class| class.name == "Wrong")
        .expect("still a class: its kind was confirmed");
    assert_eq!(wrong.base, None, "but the word inside it is not a base");
}

#[test]
fn a_mangled_type_reads_as_far_as_it_can_and_no_further() {
    // What it reads: source names, nesting, `St`, and a template argument
    // list elided as a whole.
    assert_eq!(
        demangle_type("20WasmShimErrorHandler"),
        (
            "WasmShimErrorHandler".to_string(),
            "WasmShimErrorHandler".to_string()
        )
    );
    assert_eq!(
        demangle_type("N10__cxxabiv120__si_class_type_infoE"),
        (
            "__cxxabiv1::__si_class_type_info".to_string(),
            "__si_class_type_info".to_string()
        )
    );
    let (name, short) =
        demangle_type("NSt3__212basic_stringIcNS_11char_traitsIcEENS_9allocatorIcEEEE");
    assert_eq!(name, "std::__2::basic_string<…>");
    assert_eq!(short, "basic_string", "the short name drops the arguments");

    // Skipping the argument list is where this can go wrong quietly. The
    // anonymous namespace is a *source name* holding an `N`, a substitution
    // holds base-36 digits, and `St` is two characters with no `_` — count
    // any of those as structure and the skip runs past the `E` that closes
    // the name, which reads as a demangling that worked.
    assert_eq!(
        demangle_type(
            "N5folly6detail30StaticSingletonManagerWithRtti3SrcINS_11ThreadLocalINS_20Single\
             tonThreadLocalINS_12_GLOBAL__N_120BufferedRandomDeviceENS5_9RandomTagEvS7_E7Wr\
             apperES7_vEES7_EE"
        )
        .0,
        "folly::detail::StaticSingletonManagerWithRtti::Src<…>"
    );
    assert_eq!(
        demangle_type("N5folly5tag_tIJvEEE").0,
        "folly::tag_t<…>",
        "`J` opens an argument pack"
    );
    assert_eq!(
        demangle_type("NSt3__210__function6__baseIFvmEEE").0,
        "std::__2::__function::__base<…>",
        "`F` opens a function type"
    );

    // And what it refuses. A substitution refers back to a component by
    // number; resolving one wrongly is a name that says something the
    // module did not, so the mangled string comes back untouched.
    for mangled in [
        "NS_9allocatorIS1_EE", // a substitution
        "PKc",                 // a pointer, not a class
        "N10__cxxabiv1",       // nesting that never closes
        "12Truncated",         // a length past the end of the string
        "IcE",                 // arguments with nothing to attach them to
        "3AbcE",               // an `E` with nothing open
    ] {
        assert_eq!(
            demangle_type(mangled),
            (mangled.to_string(), mangled.to_string()),
            "{mangled} is not something this can read"
        );
    }
}

#[test]
fn a_type_info_whose_name_is_not_a_type_is_not_a_candidate() {
    // `_ZTS` holds a mangled type; a word pointing at ordinary text is a
    // word pointing at ordinary text.
    let mut image = Image::new();
    let kind = image.vtable();
    for name in ["hello, world", "GET /index.html", "%s: %d\n"] {
        image.plain(kind, name);
    }
    assert_eq!(class_names(&image.module()), Vec::<String>::new());
}
