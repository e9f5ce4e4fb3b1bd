//! More of what is read out of a module: names, registrations, calls and classes.

use std::collections::{BTreeMap, BTreeSet};
use unwasm_core::analysis::demangle::{demangle_type, is_mangled_type};
use unwasm_core::analysis::fingerprint::shape_of;
use unwasm_core::analysis::names::{best_messages, identifier_in, is_c_identifier};
use unwasm_core::analysis::{
    accesses_at, analyse, classes, deepest_nesting, embind_name_argument, fingerprint, placed_name,
    placed_text, pointer_table, promotable_slots, static_i32, type_index_of, AddressOf, Analysis, DataImage, Kind, NameSource,
    Placement, FINGERPRINT_FLOOR, HOT_ADDRESS_FUNCTIONS, NESTING_RUSTC_HANDLES,
};
use unwasm_core::module::{
    Atomic, AtomicKind, BlockType, ConstExpr, DataSegment, ElemSegment, Export, ExportKind, Func,
    FuncType, GlobalDef, ImportedFunc, LoadKind, MemArg, MemoryDef, Module, Op, RmwKind, StoreKind,
    ValType,
};
use unwasm_core::ops::NumOp;
use unwasm_core::text::table::TextMap;

fn func(body: Vec<Op>) -> Func {
    Func {
        type_index: 0,
        locals: Vec::new(),
        body,
        offsets: Vec::new(),
    }
}

fn data(offset: i32, bytes: &[u8]) -> DataSegment {
    DataSegment {
        file_offset: 0,
        offset: Some(ConstExpr::I32(offset)),
        bytes: bytes.to_vec(),
    }
}

fn module_of(funcs: Vec<Vec<Op>>, datas: Vec<DataSegment>) -> Module {
    Module {
        types: vec![FuncType::default()],
        funcs: funcs.into_iter().map(func).collect(),
        datas,
        ..Module::default()
    }
}

fn import(field: &str, type_index: u32) -> ImportedFunc {
    ImportedFunc {
        module: "env".to_string(),
        field: field.to_string(),
        type_index,
    }
}

fn export(name: &str, index: u32) -> Export {
    Export {
        name: name.to_string(),
        kind: ExportKind::Func,
        index,
    }
}

// ---- fingerprints ----

#[test]
fn an_instruction_is_spelled_the_way_it_is_shown() {
    let ops = vec![
        Op::Unreachable,
        Op::Nop,
        Op::Block(BlockType::Empty),
        Op::Loop(BlockType::Value(ValType::F64)),
        Op::If(BlockType::Func(12)),
        Op::Else,
        Op::End,
        Op::Br(0),
        Op::BrIf(4294967295),
        Op::BrTable {
            targets: vec![],
            default: 3,
        },
        Op::BrTable {
            targets: vec![1],
            default: 3,
        },
        Op::BrTable {
            targets: vec![1, 20, 300],
            default: 0,
        },
        Op::Return,
        Op::Drop,
        Op::Select,
        Op::LocalGet(1),
        Op::LocalSet(22),
        Op::LocalTee(333),
        Op::MemorySize,
        Op::MemoryGrow,
        Op::MemoryCopy,
        Op::MemoryFill,
        Op::AtomicFence,
    ];
    for op in &ops {
        assert_eq!(shape_of(op), format!("{op:?}"));
    }
    for num in NumOp::all() {
        assert_eq!(shape_of(&Op::Num(num)), format!("{:?}", Op::Num(num)));
    }
}

#[test]
fn what_a_rebuild_renumbers_is_left_out_of_a_shape() {
    assert_eq!(shape_of(&Op::I32Const(7)), "c");
    assert_eq!(shape_of(&Op::I64Const(-7)), "C");
    assert_eq!(shape_of(&Op::F32Const(1)), "F");
    assert_eq!(shape_of(&Op::F64Const(1)), "F");
    assert_eq!(shape_of(&Op::Call(3)), "k");
    assert_eq!(shape_of(&Op::CallIndirect { type_index: 3 }), "K");
    assert_eq!(shape_of(&Op::GlobalGet(3)), "g");
    assert_eq!(shape_of(&Op::GlobalSet(3)), "g");
    assert_eq!(shape_of(&Op::MemoryInit(3)), "d");
    assert_eq!(shape_of(&Op::DataDrop(3)), "d");
    let mem = MemArg { offset: 12 };
    assert_eq!(
        shape_of(&Op::Load {
            kind: LoadKind::I64Load16U,
            mem
        }),
        format!("l{:?}", LoadKind::I64Load16U)
    );
    assert_eq!(
        shape_of(&Op::Store {
            kind: StoreKind::F32,
            mem
        }),
        format!("s{:?}", StoreKind::F32)
    );
    let xor = Atomic {
        kind: AtomicKind::Rmw(RmwKind::Xor),
        ty: ValType::I64,
        width: 2,
    };
    assert_eq!(shape_of(&Op::Atomic { op: xor, mem }), format!("a{xor:?}"));
    let wait = Atomic {
        kind: AtomicKind::Wait,
        ty: ValType::I32,
        width: 4,
    };
    assert_eq!(
        shape_of(&Op::Atomic { op: wait, mem }),
        shape_of(&Op::Atomic {
            op: wait,
            mem: MemArg { offset: 987654321 }
        })
    );
    assert_ne!(
        shape_of(&Op::Atomic { op: wait, mem }),
        shape_of(&Op::Atomic { op: xor, mem })
    );
}

/// The hash by its definition, over one text.
fn fnv(text: &str) -> u64 {
    let mut hash: u64 = 0xcbf2_9ce4_8422_2325;
    for byte in text.bytes() {
        hash ^= u64::from(byte);
        hash = hash.wrapping_mul(0x0000_0100_0000_01b3);
    }
    hash
}

#[test]
fn a_fingerprint_is_the_hash_of_the_shape() {
    let module = Module {
        types: vec![FuncType {
            params: vec![ValType::I32, ValType::F64],
            results: vec![ValType::I64],
        }],
        funcs: vec![func(vec![Op::LocalGet(0), Op::I32Const(9), Op::Drop])],
        ..Module::default()
    };
    assert_eq!(
        fingerprint(&module, &module.funcs[0]),
        fnv("pI32pF64rI64LocalGet(0)cDrop")
    );
    assert_eq!(
        fingerprint(&Module::default(), &func(Vec::new())),
        0xcbf2_9ce4_8422_2325
    );
}

#[test]
fn two_builds_of_one_function_fingerprint_alike() {
    let build = |constant, callee, offset, global, segment| {
        vec![
            Op::I32Const(constant),
            Op::Call(callee),
            Op::Load {
                kind: LoadKind::I32,
                mem: MemArg { offset },
            },
            Op::GlobalSet(global),
            Op::MemoryInit(segment),
        ]
    };
    let one = module_of(vec![build(1, 2, 3, 4, 5)], Vec::new());
    let other = module_of(vec![build(10, 20, 30, 40, 50)], Vec::new());
    assert_eq!(
        fingerprint(&one, &one.funcs[0]),
        fingerprint(&other, &other.funcs[0])
    );
    // The kind of an access is part of the shape.
    let mut wider = one.clone();
    wider.funcs[0].body[2] = Op::Load {
        kind: LoadKind::I64,
        mem: MemArg { offset: 3 },
    };
    assert_ne!(
        fingerprint(&one, &one.funcs[0]),
        fingerprint(&wider, &wider.funcs[0])
    );
    assert_eq!(FINGERPRINT_FLOOR, 20);
}

// ---- calls ----

#[test]
fn calls_are_read_both_ways_and_counted_by_site() {
    let module = module_of(
        vec![
            vec![Op::Call(1), Op::Call(1), Op::Call(2)],
            vec![Op::CallIndirect { type_index: 0 }],
            vec![Op::Call(1)],
        ],
        Vec::new(),
    );
    let graph = analyse(&module).call_graph;
    assert_eq!(graph.calls_from(0), BTreeSet::from([1, 2]));
    assert_eq!(graph.callers_of(1), BTreeSet::from([0, 2]));
    assert_eq!(graph.sites_reaching(1), 3, "two callers, three sites");
    assert_eq!(graph.sites_reaching(0), 0);
    assert!(graph.callers_of(0).is_empty());
    assert_eq!(graph.calls_indirectly[&1], BTreeSet::from([0]));
}

#[test]
fn an_indirect_call_reaches_every_slot_of_its_type() {
    let mut module = module_of(
        vec![
            vec![Op::Call(1)],
            vec![Op::CallIndirect { type_index: 0 }],
            vec![],
            vec![],
            vec![],
        ],
        Vec::new(),
    );
    module.types.push(FuncType {
        params: vec![ValType::I32],
        results: Vec::new(),
    });
    module.funcs[3].type_index = 1;
    module.elems = vec![ElemSegment {
        offset: Some(ConstExpr::I32(1)),
        funcs: vec![2, 3],
    }];
    let analysis: Analysis = analyse(&module);
    assert_eq!(analysis.table, BTreeMap::from([(1, 2), (2, 3)]));
    // Function 3 is in the table with another type, and 4 is not in it at all.
    assert_eq!(
        analysis.reachable_from(&module, 0),
        BTreeSet::from([0, 1, 2])
    );
    assert_eq!(
        analysis.directly_reachable_from(&module, 0),
        BTreeSet::from([0, 1])
    );
    assert_eq!(analysis.reachable_from(&module, 4), BTreeSet::from([4]));
    assert_eq!(type_index_of(&module, 3), Some(1));
    assert_eq!(type_index_of(&module, 5), None);
    assert_eq!(Analysis::PTHREAD_STACK_OFFSETS, (48, 52));
}

#[test]
fn a_segment_that_is_not_active_is_not_in_the_table() {
    let mut module = module_of(vec![vec![]], Vec::new());
    module.elems = vec![
        ElemSegment {
            offset: None,
            funcs: vec![0],
        },
        ElemSegment {
            offset: Some(ConstExpr::I32(5)),
            funcs: vec![0, 0],
        },
    ];
    assert_eq!(analyse(&module).table, BTreeMap::from([(5, 0), (6, 0)]));
}

// ---- nesting ----

#[test]
fn the_first_of_two_equally_deep_functions_is_reported() {
    let deep = vec![Op::Block(BlockType::Empty), Op::End];
    let module = module_of(vec![vec![], deep.clone(), deep], Vec::new());
    assert_eq!(deepest_nesting(&module), Some((1, 1)));
    // An `end` too many closes nothing.
    let odd = vec![Op::End, Op::Block(BlockType::Empty)];
    assert_eq!(deepest_nesting(&module_of(vec![odd], Vec::new())), Some((0, 1)));
    assert_eq!(NESTING_RUSTC_HANDLES, 300);
}

// ---- placements and shared addresses ----

fn init(address: i32, offset: i32, length: i32, segment: u32) -> Vec<Op> {
    vec![
        Op::I32Const(address),
        Op::I32Const(offset),
        Op::I32Const(length),
        Op::MemoryInit(segment),
    ]
}

fn passive(bytes: &[u8]) -> DataSegment {
    DataSegment {
        file_offset: 0,
        offset: None,
        bytes: bytes.to_vec(),
    }
}

#[test]
fn a_segment_placed_twice_is_placed_nowhere() {
    let module = module_of(vec![init(1024, 0, 5, 0)], vec![passive(b"hello\0")]);
    let placed = analyse(&module).placements;
    assert_eq!(
        placed,
        BTreeMap::from([(
            0,
            Placement {
                address: 1024,
                offset: 0,
                length: 5
            }
        )])
    );
    assert_eq!(
        placed_text(&module, &placed, 1024, None).as_deref(),
        Some("hello")
    );
    assert_eq!(
        placed_text(&module, &placed, 1024, Some(4)).as_deref(),
        Some("hell")
    );

    let twice = module_of(
        vec![init(1024, 0, 5, 0), init(2048, 0, 5, 0)],
        vec![passive(b"hello\0")],
    );
    assert!(analyse(&twice).placements.is_empty());
    // The same place twice is one place.
    let again = module_of(
        vec![init(1024, 0, 5, 0), init(1024, 0, 5, 0)],
        vec![passive(b"hello\0")],
    );
    assert_eq!(analyse(&again).placements.len(), 1);
}

#[test]
fn a_short_name_is_a_name_where_one_is_expected() {
    let module = module_of(Vec::new(), vec![data(0, b"int\0\0")]);
    assert_eq!(placed_text(&module, &BTreeMap::new(), 0, None), None);
    assert_eq!(
        placed_name(&module, &BTreeMap::new(), 0).as_deref(),
        Some("int")
    );
    assert_eq!(placed_name(&module, &BTreeMap::new(), 3), None);
}

#[test]
fn an_address_that_many_functions_use_is_pointed_out() {
    let user = vec![Op::I32Const(1028), Op::Drop, Op::I32Const(1028), Op::Drop];
    let mut bytes = vec![1u8, 2, 3, 4, 5, 6, 7, 8];
    bytes.extend_from_slice(b"some text\0");
    let mut bodies = vec![user; HOT_ADDRESS_FUNCTIONS];
    let module = module_of(bodies.clone(), vec![data(1024, &bytes)]);
    assert_eq!(analyse(&module).hot_addresses, BTreeMap::from([(1028, 8)]));

    // One function fewer is not many, text is not state, and a number outside the
    // data is arithmetic.
    bodies.pop();
    let module = module_of(bodies, vec![data(1024, &bytes)]);
    assert!(analyse(&module).hot_addresses.is_empty());
    let texts = vec![vec![Op::I32Const(1032), Op::Drop]; 9];
    assert!(analyse(&module_of(texts, vec![data(1024, &bytes)]))
        .hot_addresses
        .is_empty());
    let outside = vec![vec![Op::I32Const(2147483647), Op::Drop]; 9];
    assert!(analyse(&module_of(outside, vec![data(1024, &bytes)]))
        .hot_addresses
        .is_empty());
    // A segment nobody placed leaves the span unknown.
    let users = vec![vec![Op::I32Const(1028), Op::Drop]; 9];
    let unplaced = module_of(users, vec![data(1024, &bytes), passive(b"x")]);
    assert!(analyse(&unplaced).hot_addresses.is_empty());
}

// ---- names ----

#[test]
fn an_identifier_is_what_a_message_starts_with() {
    assert_eq!(
        identifier_in("parse_xmpp_offer: invalid jid").as_deref(),
        Some("parse_xmpp_offer")
    );
    assert_eq!(
        identifier_in("fill_relay_info Failed to copy uuid").as_deref(),
        Some("fill_relay_info")
    );
    assert_eq!(identifier_in("do_call(1)").as_deref(), Some("do_call"));
    assert_eq!(identifier_in("call_control::ffi: bad"), None, "a module path");
    assert_eq!(identifier_in("a_b: x"), None, "too short");
    assert_eq!(identifier_in("Some_thing: x"), None, "an upper-case letter");
    assert_eq!(identifier_in("plainword: x"), None, "no underscore");
    assert_eq!(identifier_in("_leading_one: x"), None);
    let long = format!("{}_x: y", "a".repeat(59));
    assert_eq!(identifier_in(&long), None, "too long");
    assert_eq!(identifier_in(""), None);
    assert!(is_c_identifier("__func__"));
    assert!(is_c_identifier("X9"));
    assert!(!is_c_identifier("9x"));
    assert!(!is_c_identifier("a-b"));
    assert!(!is_c_identifier(""));
    assert!(!is_c_identifier(&"x".repeat(121)));
}

fn counts(entries: &[(&str, usize)]) -> TextMap<usize> {
    let mut map = TextMap::new();
    for (text, count) in entries {
        map.insert((*text).to_string(), *count);
    }
    map
}

#[test]
fn names_are_ranked_by_how_often_their_message_is_logged() {
    let messages = counts(&[
        ("create_participant: failed", 11),
        ("quality_manager_create error", 1),
        ("shared_by_others: x", 1),
        ("aaa_second: y", 2),
        ("bbb_second: y", 2),
        ("longer_second: y", 2),
        ("shared_second_one: y", 2),
        ("create_participant", 3),
    ]);
    let owners = counts(&[
        ("shared_by_others: x", 2),
        ("shared_second_one: y", 5),
        ("create_participant: failed", 1),
    ]);
    let list = best_messages(&messages, &owners, 10);
    let names: Vec<(&str, usize, bool)> = list
        .iter()
        .map(|found| (found.name.as_str(), found.references, found.unique))
        .collect();
    assert_eq!(
        names,
        vec![
            ("create_participant", 11, true),
            ("longer_second", 2, true),
            ("aaa_second", 2, true),
            ("bbb_second", 2, true),
            ("shared_second_one", 2, false),
            ("quality_manager_create", 1, true),
        ],
        "logged once by two functions is refused, and one name counts once"
    );
    assert_eq!(list[0].text, "create_participant: failed");
    assert_eq!(best_messages(&messages, &owners, 2).len(), 2);
}

#[test]
fn an_assertion_names_its_function_and_beats_what_it_logs() {
    let mut module = module_of(
        vec![vec![
            Op::I32Const(0),
            Op::Drop,
            Op::I32Const(0),
            Op::I32Const(0),
            Op::I32Const(42),
            Op::I32Const(20),
            Op::Call(0),
        ]],
        vec![data(0, b"logged_often: x\0\0\0\0\0real_name\0")],
    );
    module.func_imports.push(import("__assert_fail", 0));
    let names = analyse(&module).derived_names;
    let named = &names[&1];
    assert_eq!(named.name, "real_name");
    assert_eq!(named.evidence, "__assert_fail(.., \"real_name\")");
    assert_eq!(named.source, NameSource::Assert);
    assert_eq!(named.rejected, vec!["logged_often".to_string()]);
}

#[test]
fn a_function_with_a_name_of_its_own_keeps_it() {
    let mut module = module_of(
        vec![vec![Op::I32Const(0), Op::Drop]],
        vec![data(0, b"handle_offer: x\0")],
    );
    let found = analyse(&module).derived_names;
    assert_eq!(found[&0].name, "handle_offer");
    assert_eq!(found[&0].evidence, "handle_offer: x");
    assert_eq!(
        found[&0].source,
        NameSource::Message {
            references: 1,
            unique: true
        }
    );
    assert!(found[&0].rejected.is_empty());
    module.func_names.push((0, "its_own".to_string()));
    assert!(analyse(&module).derived_names.is_empty());
}

#[test]
fn a_length_beside_an_address_says_where_the_message_ends() {
    let module = module_of(
        vec![vec![Op::I32Const(0), Op::I32Const(16), Op::Drop, Op::Drop]],
        vec![data(0, b"parse_the_header: wrong")],
    );
    let found = analyse(&module).derived_names;
    assert_eq!(found[&0].evidence, "parse_the_header");
}

// ---- embind ----

#[test]
fn a_registration_reads_its_types_wherever_they_were_registered() {
    // Names at 0.., the array of type ids at 64.
    let mut bytes = Vec::new();
    bytes.extend_from_slice(b"int\0void\0std::string\0start\0Thing\0");
    bytes.resize(64, 0);
    for id in [1000i32, 2000, 3000, 4001] {
        bytes.extend_from_slice(&id.to_le_bytes());
    }
    let mut module = module_of(
        vec![
            vec![
                Op::I32Const(21),
                Op::I32Const(4),
                Op::I32Const(64),
                Op::Call(0),
            ],
            vec![
                Op::I32Const(1000),
                Op::I32Const(4),
                Op::Call(1),
                Op::I32Const(2000),
                Op::I32Const(9),
                Op::Call(2),
            ],
        ],
        vec![data(0, &bytes)],
    );
    module.types.push(FuncType {
        params: vec![ValType::I32; 3],
        results: Vec::new(),
    });
    module.types.push(FuncType {
        params: vec![ValType::I32; 2],
        results: Vec::new(),
    });
    module.func_imports = vec![
        import("_embind_register_function", 1),
        import("_embind_register_void", 2),
        import("_embind_register_std_string", 2),
    ];
    let list = analyse(&module).registrations;
    assert_eq!(list.len(), 3);
    assert_eq!(list[0].name.as_deref(), Some("start"));
    assert_eq!(
        list[0].signature.as_deref(),
        Some("void start(std::string, type@3000, type@4001)")
    );
    assert_eq!(list[1].name.as_deref(), Some("void"));
    assert_eq!(list[1].signature, None);
    assert_eq!(list[0].class, None);
    assert_eq!(embind_name_argument("_embind_register_class"), Some(10));
    assert_eq!(embind_name_argument("_embind_register_function"), Some(0));
    assert_eq!(embind_name_argument("_embind_finalize"), None);
}

#[test]
fn a_method_belongs_to_the_class_registered_before_it() {
    let mut bytes = Vec::new();
    bytes.extend_from_slice(b"Thing\0push\0");
    bytes.resize(16, 0);
    for id in [701i32, 700, 702] {
        bytes.extend_from_slice(&id.to_le_bytes());
    }
    let mut class = vec![Op::I32Const(700), Op::I32Const(701), Op::I32Const(702)];
    class.extend(vec![Op::I32Const(-1); 7]);
    class.extend([Op::I32Const(0), Op::I32Const(0), Op::I32Const(0), Op::Call(0)]);
    class.extend([
        Op::I32Const(700),
        Op::I32Const(6),
        Op::I32Const(3),
        Op::I32Const(16),
        Op::Call(1),
    ]);
    class.extend([
        Op::I32Const(700),
        Op::I32Const(2),
        Op::I32Const(16),
        Op::Call(2),
    ]);
    let mut module = module_of(vec![class], vec![data(0, &bytes)]);
    for arity in [13, 4, 3] {
        module.types.push(FuncType {
            params: vec![ValType::I32; arity],
            results: Vec::new(),
        });
    }
    module.func_imports = vec![
        import("_embind_register_class", 1),
        import("_embind_register_class_function", 2),
        import("_embind_register_class_constructor", 3),
    ];
    let list = analyse(&module).registrations;
    assert_eq!(list[0].name.as_deref(), Some("Thing"));
    assert_eq!(list[1].class.as_deref(), Some("Thing"));
    assert_eq!(
        list[1].signature.as_deref(),
        Some("Thing* push(Thing, const Thing*)")
    );
    assert_eq!(list[2].class.as_deref(), Some("Thing"));
    assert_eq!(list[2].signature.as_deref(), Some("Thing(Thing)"));
}

#[test]
fn an_argument_that_is_not_a_constant_leaves_the_name_unknown() {
    let mut module = module_of(
        vec![vec![Op::LocalGet(0), Op::Call(0)]],
        vec![data(0, b"name\0")],
    );
    module.types.push(FuncType {
        params: vec![ValType::I32],
        results: Vec::new(),
    });
    module.func_imports = vec![import("_embind_register_constant", 1)];
    let list = analyse(&module).registrations;
    assert_eq!(list.len(), 1);
    assert_eq!(list[0].kind, "_embind_register_constant");
    assert_eq!(list[0].name, None);
}

// ---- classes ----

fn words(values: &[i32]) -> Vec<u8> {
    values.iter().flat_map(|value| value.to_le_bytes()).collect()
}

#[test]
fn a_vtable_is_a_zero_a_class_and_live_slots() {
    // At 1024: the shared kind; then three names, three objects and a vtable.
    let mut bytes = words(&[0, 0]);
    let names: Vec<i32> = ["1Aab", "1Bbb", "1Ccc"]
        .iter()
        .map(|name| {
            let at = 1024 + bytes.len() as i32;
            bytes.extend_from_slice(name.as_bytes());
            bytes.extend_from_slice(&[0, 0, 0, 0]);
            at
        })
        .collect();
    let mut objects = Vec::new();
    for name in &names {
        objects.push(1024 + bytes.len() as i32);
        bytes.extend(words(&[1024, *name]));
    }
    let vtable = 1024 + bytes.len() as i32;
    bytes.extend(words(&[0, objects[1], 7, 0, 8, -1]));
    let mut module = module_of(vec![vec![], vec![]], vec![data(1024, &bytes)]);
    module.elems = vec![ElemSegment {
        offset: Some(ConstExpr::I32(7)),
        funcs: vec![1, 0],
    }];
    let (list, evidence) = classes(&module, &BTreeMap::new());
    assert_eq!(list.len(), 3);
    assert_eq!(evidence.kinds, 1);
    assert_eq!(evidence.classes, 3);
    assert_eq!(evidence.with_vtables, 1);
    assert_eq!(list[1].type_info, objects[1]);
    assert_eq!(list[1].mangled, "1Bbb");
    assert_eq!(list[1].vtable, Some(vtable));
    assert_eq!(list[1].methods, vec![Some(1), None, Some(0)]);
    assert_eq!(list[0].vtable, None);
}

#[test]
fn a_name_with_letters_outside_ascii_is_counted_in_bytes() {
    // Two letters, three bytes.
    assert_eq!(
        demangle_type("3\u{e9}a"),
        ("\u{e9}a".to_string(), "\u{e9}a".to_string())
    );
    // A length that ends inside a letter reads nothing.
    assert_eq!(
        demangle_type("1\u{e9}"),
        ("1\u{e9}".to_string(), "1\u{e9}".to_string())
    );
    assert_eq!(
        demangle_type("99999999999999999999999a"),
        (
            "99999999999999999999999a".to_string(),
            "99999999999999999999999a".to_string()
        )
    );
    assert!(is_mangled_type("3Abc"));
    assert!(is_mangled_type("N3Abc"));
    assert!(!is_mangled_type("PKc"));
    assert!(!is_mangled_type("3A"));
    assert!(!is_mangled_type("3A b"));
}

// ---- frames ----

#[test]
fn slots_that_share_no_byte_become_variables() {
    let store = |kind, offset| Op::Store {
        kind,
        mem: MemArg { offset },
    };
    let body = vec![
        Op::GlobalGet(0),
        Op::I32Const(32),
        Op::Num(NumOp::I32Sub),
        Op::LocalTee(1),
        Op::GlobalSet(0),
        Op::LocalGet(1),
        Op::I32Const(1),
        store(StoreKind::I32, 0),
        Op::LocalGet(1),
        Op::I32Const(1),
        store(StoreKind::I32Store8, 8),
        Op::LocalGet(1),
        Op::I32Const(1),
        store(StoreKind::I32, 16),
        Op::LocalGet(1),
        Op::I32Const(1),
        store(StoreKind::I32, 18),
    ];
    let mut module = module_of(vec![body], Vec::new());
    module.globals.push(GlobalDef {
        ty: ValType::I32,
        mutable: true,
        init: ConstExpr::I32(65536),
    });
    module.exports.push(Export {
        name: "__stack_pointer".to_string(),
        kind: ExportKind::Global,
        index: 0,
    });
    let frame = analyse(&module).frames[&0].clone();
    let promoted = promotable_slots(&frame, &module.funcs[0].body);
    assert_eq!(
        promoted,
        BTreeMap::from([(0, (4, ValType::I32)), (8, (1, ValType::I32))]),
        "the two at 16 and 18 overlap"
    );
    let mut filled = module.funcs[0].body.clone();
    filled.push(Op::MemoryFill);
    assert!(promotable_slots(&frame, &filled).is_empty());
    let mut escaping = frame.clone();
    escaping.escapes = true;
    assert!(promotable_slots(&escaping, &module.funcs[0].body).is_empty());
}

// ---- accesses ----

#[test]
fn a_function_whose_stack_is_lost_is_reported() {
    let module = module_of(vec![vec![Op::Drop, Op::I32Const(0)]], Vec::new());
    let report = accesses_at(&module, 0, None, Kind::Both, false);
    assert_eq!(report.lost, vec![0]);
    assert!(report.found.is_empty());
}

#[test]
fn an_atomic_is_an_access_through_its_deepest_operand() {
    let mut module = module_of(
        vec![vec![
            Op::I32Const(256),
            Op::I32Const(1),
            Op::I32Const(2),
            Op::Atomic {
                op: Atomic {
                    kind: AtomicKind::Cmpxchg,
                    ty: ValType::I32,
                    width: 4,
                },
                mem: MemArg { offset: 8 },
            },
            Op::Drop,
        ]],
        Vec::new(),
    );
    module.funcs[0].offsets = vec![(10, 1), (11, 1), (12, 1), (13, 4), (17, 1)];
    let report = accesses_at(&module, 264, Some(4), Kind::Load, false);
    assert_eq!(report.found.len(), 1);
    assert_eq!(report.found[0].address, AddressOf::Absolute(256));
    assert_eq!(report.found[0].position, 3);
    assert_eq!(report.found[0].file_offset, Some(13));
    assert_eq!(report.found[0].effective(), 264);
    assert!(report.lost.is_empty());
}

#[test]
fn code_after_a_branch_is_walked_again_where_it_is_reached() {
    let store = Op::Store {
        kind: StoreKind::I32,
        mem: MemArg { offset: 4 },
    };
    let module = module_of(
        vec![vec![
            Op::Block(BlockType::Empty),
            Op::Br(0),
            Op::Drop,
            Op::Block(BlockType::Empty),
            Op::End,
            Op::End,
            Op::I32Const(96),
            Op::I32Const(0),
            store,
        ]],
        Vec::new(),
    );
    let report = accesses_at(&module, 100, None, Kind::Store, false);
    assert_eq!(report.found.len(), 1);
    assert!(report.lost.is_empty());
}

// ---- the glue ----

#[test]
fn threads_need_every_part_of_the_glue() {
    let mut module = module_of(vec![vec![], vec![], vec![]], Vec::new());
    module.types = vec![
        FuncType {
            params: vec![ValType::I32; 4],
            results: vec![ValType::I32],
        },
        FuncType {
            params: vec![ValType::I32],
            results: vec![ValType::I32],
        },
        FuncType {
            params: vec![ValType::I32; 6],
            results: Vec::new(),
        },
    ];
    module.func_imports.push(import("__pthread_create_js", 0));
    module.funcs[0].type_index = 2;
    module.exports.push(export("_emscripten_thread_init", 1));
    module.memory = Some(MemoryDef {
        min_pages: 1,
        max_pages: Some(2),
        shared: true,
        imported: None,
    });
    let spawn = analyse(&module).spawn.expect("every part is there");
    assert_eq!(spawn.import, 0);
    assert_eq!(spawn.thread_init, 1);
    assert_eq!(spawn.thread_init_arity, 6);
    assert_eq!(spawn.entry_type, 1);
    assert_eq!(spawn.stack_set_limits, None);
    let mut plain = module.clone();
    plain.memory = None;
    assert!(analyse(&plain).spawn.is_none());
    let mut silent = module.clone();
    silent.exports.clear();
    assert!(analyse(&silent).spawn.is_none());
}

// ---- the image ----

#[test]
fn an_image_reads_words_and_texts_where_they_stand() {
    let mut bytes = words(&[-2]);
    bytes.extend_from_slice(b"with space\0nospace\0");
    let module = module_of(Vec::new(), vec![data(512, &bytes)]);
    let image = DataImage::of(&module, &BTreeMap::new());
    assert_eq!(image.placed(), 1);
    assert_eq!(image.read32(512), Some(-2));
    assert_eq!(image.read32(511), None);
    assert_eq!(image.text(516).as_deref(), Some("with space"));
    assert_eq!(image.cstring(516), None, "a mangled name has no space");
    assert_eq!(image.cstring(527).as_deref(), Some("nospace"));
    assert_eq!(image.bytes(516, 4), Some(&b"with"[..]));
    assert_eq!(image.extent(), Some((512, 512 + bytes.len() as u32)));
    assert_eq!(image.find32(-2).len(), 1);
    assert!(image.find32(77).is_empty());
}

#[test]
fn where_segments_overlap_one_that_covers_the_range_answers() {
    let module = module_of(
        Vec::new(),
        vec![data(100, b"abcdefghijklmnop"), data(104, b"XY")],
    );
    let image = DataImage::of(&module, &BTreeMap::new());
    assert_eq!(image.bytes(104, 2), Some(&b"XY"[..]), "the nearest below comes first");
    assert_eq!(image.bytes(104, 4), Some(&b"efgh"[..]));
    assert_eq!(image.bytes(108, 1), Some(&b"i"[..]));
    assert!(image.holds(108));
    assert_eq!(image.holds(108), image.locate(108).is_some());
    assert!(image.holds(115));
    assert!(!image.holds(116));
    assert_eq!(image.bytes(114, 4), None);
}

#[test]
fn a_word_is_read_across_the_middle_of_the_address_space() {
    let bytes = [1, 2, 3, 4, 5, 6, 7, 8];
    let module = module_of(Vec::new(), vec![data(i32::MAX - 1, &bytes)]);
    let none = BTreeMap::new();
    assert_eq!(static_i32(&module, &none, i32::MAX - 1), Some(0x0403_0201));
    assert_eq!(static_i32(&module, &none, i32::MIN), Some(0x0605_0403));
    assert_eq!(static_i32(&module, &none, i32::MIN + 3), None);
    let high = module_of(Vec::new(), vec![data(i32::MIN, &bytes)]);
    assert_eq!(static_i32(&high, &none, i32::MAX), None);
    assert_eq!(static_i32(&high, &none, i32::MIN + 4), Some(0x0807_0605));
}

#[test]
fn a_table_goes_on_past_the_last_address() {
    let table: BTreeMap<u32, u32> = [(1u32, 10u32), (2, 20), (3, 30)].into_iter().collect();
    let module = module_of(
        Vec::new(),
        vec![data(-8, &words(&[1, 0])), data(0, &words(&[2, 3, -1]))],
    );
    let image = DataImage::of(&module, &BTreeMap::new());
    assert_eq!(
        pointer_table(&image, &table, -8, None),
        vec![Some(10), None, Some(20), Some(30)]
    );
    assert_eq!(pointer_table(&image, &table, -8, Some(3)), vec![Some(10), None, Some(20)]);
}

#[test]
fn bytes_are_those_where_the_address_is_located() {
    // Two segments that touch: a range into the second is not read from the first.
    let module = module_of(Vec::new(), vec![data(104, b"efgh"), data(100, b"abcd")]);
    let image = DataImage::of(&module, &BTreeMap::new());
    let place = image.locate(102).expect("a segment");
    assert_eq!((place.segment, place.offset, place.length), (1, 2, 4));
    assert_eq!(image.bytes(102, 2), Some(&module.datas[1].bytes[2..4]));
    assert_eq!(image.bytes(102, 3), None);
    assert_eq!(image.locate(104).map(|place| place.segment), Some(0));
    assert_eq!(image.bytes(104, 4), Some(&b"efgh"[..]));
    assert_eq!(image.bytes(99, 1), None);
}

#[test]
fn a_search_finds_each_address_the_word_is_read_at() {
    // Overlapping and unaligned, and in two segments.
    let module = module_of(Vec::new(), vec![data(64, &[7; 6]), data(9, &[1, 7, 7, 7, 7])]);
    let image = DataImage::of(&module, &BTreeMap::new());
    let wanted = 0x0707_0707;
    let found: Vec<u32> = image.find32(wanted).iter().map(|place| place.address()).collect();
    assert_eq!(found, vec![10, 64, 65, 66]);
    for address in 0..100 {
        assert_eq!(
            image.read32(address) == Some(wanted),
            found.contains(&(address as u32)),
            "{address}"
        );
    }
}

#[test]
fn a_text_is_what_stands_there() {
    let longest = [b'x'; 512];
    let mut bytes = longest.to_vec();
    bytes.extend_from_slice(b"\0a b\0\x7f\0");
    let module = module_of(Vec::new(), vec![data(1024, &bytes)]);
    let image = DataImage::of(&module, &BTreeMap::new());
    assert_eq!(image.text(1024).map(|text| text.len()), Some(512));
    assert_eq!(image.cstring(1024), image.text(1024));
    assert_eq!(image.text(1536), None, "an empty text is none");
    assert_eq!(image.text(1537).as_deref(), Some("a b"));
    assert_eq!(image.cstring(1537), None);
    assert_eq!(image.cstring(1539).as_deref(), Some("b"));
    assert_eq!(image.text(1541), None, "delete is not readable");
    // One more than is read.
    let mut long = vec![b'x'; 513];
    long.push(0);
    let module = module_of(Vec::new(), vec![data(1024, &long)]);
    let image = DataImage::of(&module, &BTreeMap::new());
    assert_eq!(image.text(1024), None);
    assert_eq!(image.text(1025).map(|text| text.len()), Some(512));
}

#[test]
fn two_functions_that_name_no_type_may_be_the_same_code() {
    let mut one = module_of(vec![vec![Op::I32Const(1), Op::Drop]], Vec::new());
    let mut other = module_of(vec![vec![Op::I32Const(2), Op::Drop]], Vec::new());
    one.types.clear();
    other.types.clear();
    other.funcs[0].type_index = 9;
    assert_eq!(
        fingerprint(&one, &one.funcs[0]),
        fingerprint(&other, &other.funcs[0])
    );
}

#[test]
fn one_past_the_last_byte_is_no_address() {
    let uses = |address: i32| {
        let user = vec![Op::I32Const(address), Op::Drop];
        let module = module_of(vec![user; HOT_ADDRESS_FUNCTIONS], vec![data(1024, &[0; 8])]);
        analyse(&module).hot_addresses
    };
    assert_eq!(uses(1024), BTreeMap::from([(1024, 8)]));
    assert_eq!(uses(1031), BTreeMap::from([(1031, 8)]));
    assert!(uses(1032).is_empty());
    assert!(uses(1023).is_empty());
}
