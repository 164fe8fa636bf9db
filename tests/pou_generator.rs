use pou_codegen::model::{
    ConstantExpr, Implementation, ImplementationEntry, ImplementationType, Index, PouEntry, PouType,
    TargetType, TypeCategory, TypeEntry, TypeNature, VariableEntry, VariableKind,
};
use pou_codegen::names::{initializer_name, return_slot_name};
use pou_codegen::pou_generator::{
    generate_global_constants_for_pou_members, generate_implementation_stubs, FunctionContext,
    PouGenerator,
};
use pou_codegen::target::{
    Dest, Diagnostic, FunctionDecl, FunctionType, GlobalConstant, InitialValue, Instr, Param, Slot,
    TargetIndex,
};

fn var(container: &str, name: &str, ty: &str, kind: VariableKind, init: Option<u64>) -> VariableEntry {
    VariableEntry {
        name: name.to_string(),
        qualified_name: format!("{}.{}", container, name),
        container: container.to_string(),
        data_type: ty.to_string(),
        initial_value: init,
        kind,
        location: 7,
    }
}

fn imp(call: &str, kind: ImplementationType, class: Option<&str>) -> ImplementationEntry {
    ImplementationEntry {
        call_name: call.to_string(),
        owner_type: call.to_string(),
        implementation_type: kind,
        associated_class: class.map(|c| c.to_string()),
    }
}

fn pou(name: &str, generic: bool) -> PouEntry {
    PouEntry { name: name.to_string(), is_generic: generic, is_variadic: false }
}

fn target_type(category: TypeCategory, size: Option<u64>) -> TargetType {
    TargetType { category, size }
}

fn ty(name: &str, nature: TypeNature, category: TypeCategory, size: Option<u64>) -> TypeEntry {
    TypeEntry { name: name.to_string(), nature, target: target_type(category, size) }
}

fn int_type() -> TargetType {
    target_type(TypeCategory::Int, Some(2))
}

fn value(data_type: &str, t: TargetType) -> Param {
    Param::Value { data_type: data_type.to_string(), ty: t }
}

fn dest(scope: &str, name: &str, slot: Slot) -> Dest {
    Dest { scope: scope.to_string(), name: name.to_string(), slot }
}

fn base_types() -> Vec<TypeEntry> {
    vec![
        ty("INT", TypeNature::Scalar, TypeCategory::Int, Some(2)),
        ty("DINT", TypeNature::Scalar, TypeCategory::Int, Some(4)),
        ty("BYTE", TypeNature::Scalar, TypeCategory::Int, Some(1)),
        ty("DATE", TypeNature::Scalar, TypeCategory::Int, Some(8)),
        ty("MyStruct", TypeNature::Struct, TypeCategory::Struct, Some(8)),
        ty("MyArray", TypeNature::Array, TypeCategory::Array, Some(40)),
        ty("Unsized", TypeNature::Struct, TypeCategory::Struct, None),
        ty("Vec4", TypeNature::Scalar, TypeCategory::Vector, Some(16)),
    ]
}

fn index(
    variables: Vec<VariableEntry>,
    implementations: Vec<ImplementationEntry>,
    pous: Vec<PouEntry>,
    constants: Vec<ConstantExpr>,
) -> Index {
    let mut types = base_types();
    for p in &pous {
        types.push(ty(&p.name, TypeNature::Struct, TypeCategory::Struct, Some(16)));
    }
    Index { variables, implementations, pous, types, constants }
}

fn empty_target() -> TargetIndex {
    TargetIndex { globals: vec![], initial_values: vec![], implementations: vec![] }
}

fn with_stubs(index: &Index, globals: Vec<GlobalConstant>) -> TargetIndex {
    let stubs = generate_implementation_stubs(index, &empty_target()).unwrap();
    TargetIndex { globals, initial_values: vec![], implementations: stubs }
}

fn implementation(name: &str, pou_type: PouType) -> Implementation {
    Implementation { name: name.to_string(), owner_type: name.to_string(), pou_type, location: 3 }
}

fn generic_max_index() -> Index {
    index(
        vec![
            var("MAX", "MAX", "T", VariableKind::Return, None),
            var("MAX", "in1", "T", VariableKind::Input, None),
            var("MAX", "in2", "T", VariableKind::Input, None),
        ],
        vec![imp("MAX", ImplementationType::Function, None)],
        vec![pou("MAX", true)],
        vec![],
    )
}

#[test]
fn generic_function_has_no_declaration() {
    let idx = generic_max_index();
    let decls = generate_implementation_stubs(&idx, &empty_target()).unwrap();
    assert!(decls.is_empty());
}

#[test]
fn generic_function_call_generates_real_type_call() {
    let mut idx = generic_max_index();
    idx.variables.push(var("MAX__DINT", "MAX__DINT", "DINT", VariableKind::Return, None));
    idx.variables.push(var("MAX__DINT", "in1", "DINT", VariableKind::Input, None));
    idx.variables.push(var("MAX__DINT", "in2", "DINT", VariableKind::Input, None));
    idx.variables.push(var("prg", "a", "INT", VariableKind::Local, None));
    idx.variables.push(var("prg", "b", "INT", VariableKind::Local, None));
    idx.implementations.push(imp("MAX__DINT", ImplementationType::Function, None));
    idx.implementations.push(imp("prg", ImplementationType::Program, None));
    idx.pous.push(pou("MAX__DINT", false));
    idx.pous.push(pou("prg", false));
    idx.types.push(ty("prg", TypeNature::Struct, TypeCategory::Struct, Some(4)));
    let dint = target_type(TypeCategory::Int, Some(4));
    let decls = generate_implementation_stubs(&idx, &empty_target()).unwrap();
    assert_eq!(
        decls,
        vec![
            FunctionDecl {
                name: "MAX__DINT".to_string(),
                ty: FunctionType {
                    params: vec![value("DINT", dint), value("DINT", dint)],
                    return_type: Some(dint),
                    variadic: false,
                },
            },
            FunctionDecl {
                name: "prg".to_string(),
                ty: FunctionType {
                    params: vec![Param::InstancePointer("prg".to_string())],
                    return_type: None,
                    variadic: false,
                },
            },
        ]
    );
}

#[test]
fn generic_output_parameter() {
    let idx = index(
        vec![
            var("foo", "foo", "T", VariableKind::Return, None),
            var("foo", "in1", "DATE", VariableKind::Input, None),
            var("foo", "out1", "T", VariableKind::Output, None),
            var("foo__INT", "foo__INT", "INT", VariableKind::Return, None),
            var("foo__INT", "in1", "DATE", VariableKind::Input, None),
            var("foo__INT", "out1", "INT", VariableKind::Output, None),
            var("foo__BYTE", "foo__BYTE", "BYTE", VariableKind::Return, None),
            var("foo__BYTE", "in1", "DATE", VariableKind::Input, None),
            var("foo__BYTE", "out1", "BYTE", VariableKind::Output, None),
            var("prg", "theInt", "INT", VariableKind::Local, None),
            var("prg", "data", "DATE", VariableKind::Local, None),
        ],
        vec![
            imp("foo", ImplementationType::Function, None),
            imp("foo__INT", ImplementationType::Function, None),
            imp("foo__BYTE", ImplementationType::Function, None),
            imp("prg", ImplementationType::Program, None),
        ],
        vec![pou("foo", true), pou("foo__INT", false), pou("foo__BYTE", false), pou("prg", false)],
        vec![],
    );
    let decls = generate_implementation_stubs(&idx, &empty_target()).unwrap();
    let names: Vec<&str> = decls.iter().map(|d| d.name.as_str()).collect();
    assert_eq!(names, vec!["foo__INT", "foo__BYTE", "prg"]);
    let date = target_type(TypeCategory::Int, Some(8));
    let byte = target_type(TypeCategory::Int, Some(1));
    assert_eq!(decls[0].ty.params, vec![value("DATE", date), value("INT", int_type())]);
    assert_eq!(decls[0].ty.return_type, Some(int_type()));
    assert_eq!(decls[1].ty.params, vec![value("DATE", date), value("BYTE", byte)]);
    assert_eq!(decls[2].ty.params, vec![Param::InstancePointer("prg".to_string())]);
}

#[test]
fn initializer_and_return_slot_names() {
    assert_eq!(initializer_name("prg.x"), "__prg.x__init");
    assert_eq!(initializer_name("MyStruct"), "__MyStruct__init");
    assert_eq!(return_slot_name("foo"), "foo_ret");
}

fn scenario_a_index() -> Index {
    index(
        vec![
            var("add", "add", "INT", VariableKind::Return, None),
            var("add", "in1", "INT", VariableKind::Input, None),
            var("add", "in2", "INT", VariableKind::Input, None),
        ],
        vec![imp("add", ImplementationType::Function, None)],
        vec![pou("add", false)],
        vec![],
    )
}

#[test]
fn function_with_two_inputs_returns_its_defaulted_slot() {
    let idx = scenario_a_index();
    let target = with_stubs(&idx, vec![]);
    assert_eq!(target.implementations[0].ty.params, vec![value("INT", int_type()), value("INT", int_type())]);
    assert_eq!(target.implementations[0].ty.return_type, Some(int_type()));
    let generator = PouGenerator::new(&idx, &target);
    let body = generator.generate_implementation(&implementation("add", PouType::Function)).unwrap();
    let slots: Vec<(String, Slot)> =
        body.bindings.iter().map(|b| (b.name.clone(), b.slot)).collect();
    assert_eq!(
        slots,
        vec![
            ("add".to_string(), Slot::ReturnSlot(int_type())),
            ("in1".to_string(), Slot::Argument { ty: int_type(), arg: 0 }),
            ("in2".to_string(), Slot::Argument { ty: int_type(), arg: 1 }),
        ]
    );
    assert!(body.bindings.iter().all(|b| b.scope == "add"));
    assert_eq!(
        body.instrs,
        vec![
            Instr::StoreDefault { dest: dest("add", "add", Slot::ReturnSlot(int_type())), ty: int_type() },
            Instr::Body,
            Instr::Load(dest("add", "add", Slot::ReturnSlot(int_type()))),
            Instr::ReturnValue,
        ]
    );
}

#[test]
fn function_block_struct_member_is_hoisted_once() {
    let idx = index(
        vec![var("fb", "s", "MyStruct", VariableKind::Local, Some(1))],
        vec![imp("fb", ImplementationType::FunctionBlock, None)],
        vec![pou("fb", false)],
        vec![ConstantExpr { id: 1, value: 42 }],
    );
    let globals = generate_global_constants_for_pou_members(&idx, &empty_target()).unwrap();
    assert_eq!(
        globals,
        vec![GlobalConstant {
            initializes: "fb.s".to_string(),
            data_type: "MyStruct".to_string(),
            value: 42,
            alignment: 0,
        }]
    );
    assert_eq!(initializer_name(&globals[0].initializes), "__fb.s__init");
    let target = with_stubs(&idx, globals);
    let generator = PouGenerator::new(&idx, &target);
    let body =
        generator.generate_implementation(&implementation("fb", PouType::FunctionBlock)).unwrap();
    assert_eq!(body.bindings[0].slot, Slot::Field { arg: 0, field: 0 });
    // persistent locals of a function block are initialized with its instance
    assert_eq!(body.instrs, vec![Instr::Body, Instr::ReturnVoid]);
}

#[test]
fn struct_member_with_hoisted_global_is_copied() {
    let idx = index(
        vec![var("f", "s", "MyStruct", VariableKind::Local, Some(1))],
        vec![imp("f", ImplementationType::Function, None)],
        vec![pou("f", false)],
        vec![ConstantExpr { id: 1, value: 42 }],
    );
    let globals = generate_global_constants_for_pou_members(&idx, &empty_target()).unwrap();
    let target = with_stubs(&idx, globals);
    let generator = PouGenerator::new(&idx, &target);
    let body = generator.generate_implementation(&implementation("f", PouType::Function)).unwrap();
    let slot = Slot::Stack(target_type(TypeCategory::Struct, Some(8)));
    assert_eq!(
        body.instrs,
        vec![
            Instr::Memcpy { dest: dest("f", "s", slot), source: "f.s".to_string(), align: 1, size: 8 },
            Instr::Body,
            Instr::ReturnVoid,
        ]
    );
}

#[test]
fn type_level_global_is_copied_with_its_alignment() {
    let idx = index(
        vec![var("f", "s", "MyStruct", VariableKind::Temp, None)],
        vec![imp("f", ImplementationType::Function, None)],
        vec![pou("f", false)],
        vec![],
    );
    let global = GlobalConstant {
        initializes: "MyStruct".to_string(),
        data_type: "MyStruct".to_string(),
        value: 5,
        alignment: 8,
    };
    let target = with_stubs(&idx, vec![global]);
    let generator = PouGenerator::new(&idx, &target);
    let body = generator.generate_implementation(&implementation("f", PouType::Function)).unwrap();
    let slot = Slot::Stack(target_type(TypeCategory::Struct, Some(8)));
    assert_eq!(
        body.instrs[0],
        Instr::Memcpy { dest: dest("f", "s", slot), source: "MyStruct".to_string(), align: 8, size: 8 }
    );
}

#[test]
fn uninitialized_members_get_zero_fill_or_default() {
    let idx = index(
        vec![
            var("f", "arr", "MyArray", VariableKind::Local, None),
            var("f", "i", "INT", VariableKind::Local, None),
            var("f", "j", "INT", VariableKind::Temp, Some(9)),
        ],
        vec![imp("f", ImplementationType::Function, None)],
        vec![pou("f", false)],
        vec![ConstantExpr { id: 9, value: -3 }],
    );
    let target = with_stubs(&idx, vec![]);
    let generator = PouGenerator::new(&idx, &target);
    let body = generator.generate_implementation(&implementation("f", PouType::Function)).unwrap();
    let arr = Slot::Stack(target_type(TypeCategory::Array, Some(40)));
    assert_eq!(
        body.instrs,
        vec![
            Instr::Memset { dest: dest("f", "arr", arr), size: 40 },
            Instr::StoreDefault { dest: dest("f", "i", Slot::Stack(int_type())), ty: int_type() },
            Instr::Store { dest: dest("f", "j", Slot::Stack(int_type())), value: -3 },
            Instr::Body,
            Instr::ReturnVoid,
        ]
    );
}

#[test]
fn generic_callable_without_instance_gets_no_declaration() {
    let mut idx = generic_max_index();
    idx.variables.push(var("prg", "a", "INT", VariableKind::Local, None));
    idx.implementations.push(imp("prg", ImplementationType::Program, None));
    idx.pous.push(pou("prg", false));
    idx.types.push(ty("prg", TypeNature::Struct, TypeCategory::Struct, Some(2)));
    let decls = generate_implementation_stubs(&idx, &empty_target()).unwrap();
    assert_eq!(decls.len(), 1);
    assert!(decls.iter().all(|d| d.name != "MAX"));
}

fn method_index() -> Index {
    index(
        vec![
            var("cls", "x", "INT", VariableKind::Local, None),
            var("cls", "y", "DINT", VariableKind::Local, None),
            var("cls.m", "p", "INT", VariableKind::Input, None),
            var("cls.m", "t", "INT", VariableKind::Temp, None),
            var("cls.m", "q", "INT", VariableKind::Local, None),
        ],
        vec![imp("cls.m", ImplementationType::Method, Some("cls"))],
        vec![pou("cls", false), pou("cls.m", false)],
        vec![],
    )
}

#[test]
fn method_takes_class_and_own_instance_pointers() {
    let idx = method_index();
    let target = with_stubs(&idx, vec![]);
    assert_eq!(
        target.implementations[0].ty.params,
        vec![
            Param::InstancePointer("cls".to_string()),
            Param::InstancePointer("cls.m".to_string()),
        ]
    );
    let generator = PouGenerator::new(&idx, &target);
    let method = implementation("cls.m", PouType::Method { owner: "cls".to_string() });
    let body = generator.generate_implementation(&method).unwrap();
    let slots: Vec<(String, String, Slot)> =
        body.bindings.iter().map(|b| (b.scope.clone(), b.name.clone(), b.slot)).collect();
    assert_eq!(
        slots,
        vec![
            ("cls".to_string(), "x".to_string(), Slot::Field { arg: 0, field: 0 }),
            ("cls".to_string(), "y".to_string(), Slot::Field { arg: 0, field: 1 }),
            ("cls.m".to_string(), "p".to_string(), Slot::Field { arg: 1, field: 0 }),
            ("cls.m".to_string(), "t".to_string(), Slot::Stack(int_type())),
            ("cls.m".to_string(), "q".to_string(), Slot::Field { arg: 1, field: 1 }),
        ]
    );
    assert_eq!(
        body.instrs,
        vec![
            Instr::StoreDefault { dest: dest("cls.m", "t", Slot::Stack(int_type())), ty: int_type() },
            Instr::StoreDefault {
                dest: dest("cls.m", "q", Slot::Field { arg: 1, field: 1 }),
                ty: int_type(),
            },
            Instr::Body,
            Instr::ReturnVoid,
        ]
    );
}

#[test]
fn program_initializes_only_temps() {
    let idx = index(
        vec![
            var("prg", "a", "INT", VariableKind::Local, Some(1)),
            var("prg", "t", "INT", VariableKind::Temp, Some(1)),
        ],
        vec![imp("prg", ImplementationType::Program, None)],
        vec![pou("prg", false)],
        vec![ConstantExpr { id: 1, value: 11 }],
    );
    let target = with_stubs(&idx, vec![]);
    let generator = PouGenerator::new(&idx, &target);
    let body = generator.generate_implementation(&implementation("prg", PouType::Program)).unwrap();
    assert_eq!(
        body.instrs,
        vec![
            Instr::Store { dest: dest("prg", "t", Slot::Stack(int_type())), value: 11 },
            Instr::Body,
            Instr::ReturnVoid,
        ]
    );
}

#[test]
fn hoisting_skips_existing_and_duplicate_names() {
    let idx = index(
        vec![
            var("fb", "s", "MyStruct", VariableKind::Local, Some(1)),
            var("fb", "arr", "MyArray", VariableKind::Temp, Some(2)),
            var("fb", "i", "INT", VariableKind::Local, Some(1)),
        ],
        vec![
            imp("fb", ImplementationType::FunctionBlock, None),
            imp("fb", ImplementationType::FunctionBlock, None),
        ],
        vec![pou("fb", false)],
        vec![ConstantExpr { id: 1, value: 4 }, ConstantExpr { id: 2, value: 6 }],
    );
    let first = generate_global_constants_for_pou_members(&idx, &empty_target()).unwrap();
    let names: Vec<&str> = first.iter().map(|g| g.initializes.as_str()).collect();
    assert_eq!(names, vec!["fb.s", "fb.arr"]);
    let target = TargetIndex { globals: first, initial_values: vec![], implementations: vec![] };
    let second = generate_global_constants_for_pou_members(&idx, &target).unwrap();
    assert!(second.is_empty());
}

#[test]
fn hoisting_prefers_propagated_initial_value() {
    let idx = index(
        vec![var("fb", "s", "MyStruct", VariableKind::Local, Some(1))],
        vec![imp("fb", ImplementationType::FunctionBlock, None)],
        vec![pou("fb", false)],
        vec![ConstantExpr { id: 1, value: 4 }],
    );
    let target = TargetIndex {
        globals: vec![],
        initial_values: vec![InitialValue { qualified_name: "fb.s".to_string(), value: 99 }],
        implementations: vec![],
    };
    let globals = generate_global_constants_for_pou_members(&idx, &target).unwrap();
    assert_eq!(globals[0].value, 99);
}

#[test]
fn hoisting_unresolved_initializer_fails() {
    let idx = index(
        vec![var("fb", "s", "MyStruct", VariableKind::Local, Some(5))],
        vec![imp("fb", ImplementationType::FunctionBlock, None)],
        vec![pou("fb", false)],
        vec![],
    );
    assert_eq!(
        generate_global_constants_for_pou_members(&idx, &empty_target()),
        Err(Diagnostic::CannotGenerateInitializer { qualified_name: "fb.s".to_string(), location: 7 })
    );
}

#[test]
fn missing_stub_is_reported() {
    let idx = scenario_a_index();
    let target = empty_target();
    let generator = PouGenerator::new(&idx, &target);
    assert_eq!(
        generator.generate_implementation(&implementation("add", PouType::Function)),
        Err(Diagnostic::MissingStub { name: "add".to_string(), location: 3 })
    );
}

#[test]
fn missing_argument_is_reported() {
    let idx = scenario_a_index();
    let short = FunctionDecl {
        name: "add".to_string(),
        ty: FunctionType { params: vec![value("INT", int_type())], return_type: None, variadic: false },
    };
    let target = TargetIndex { globals: vec![], initial_values: vec![], implementations: vec![short] };
    let generator = PouGenerator::new(&idx, &target);
    assert_eq!(
        generator.generate_implementation(&implementation("add", PouType::Function)),
        Err(Diagnostic::MissingFunctionArgument { location: 7 })
    );
}

#[test]
fn unsupported_return_type_is_reported() {
    let idx = index(
        vec![var("v", "v", "Vec4", VariableKind::Return, None)],
        vec![imp("v", ImplementationType::Function, None)],
        vec![pou("v", false)],
        vec![],
    );
    assert_eq!(
        generate_implementation_stubs(&idx, &empty_target()),
        Err(Diagnostic::UnsupportedReturnType)
    );
}

#[test]
fn missing_associated_type_is_reported() {
    let idx = index(
        vec![var("f", "in1", "Unknown", VariableKind::Input, None)],
        vec![imp("f", ImplementationType::Function, None)],
        vec![pou("f", false)],
        vec![],
    );
    let target = empty_target();
    let generator = PouGenerator::new(&idx, &target);
    assert_eq!(
        generator.generate_implementation_stub(&idx.implementations[0]),
        Err(Diagnostic::MissingAssociatedType { name: "Unknown".to_string() })
    );
}

#[test]
fn unresolved_initializer_in_body_is_reported() {
    let idx = index(
        vec![var("f", "i", "INT", VariableKind::Local, Some(3))],
        vec![imp("f", ImplementationType::Function, None)],
        vec![pou("f", false)],
        vec![],
    );
    let target = with_stubs(&idx, vec![]);
    let generator = PouGenerator::new(&idx, &target);
    assert_eq!(
        generator.generate_implementation(&implementation("f", PouType::Function)),
        Err(Diagnostic::CannotGenerateInitializer { qualified_name: "f.i".to_string(), location: 7 })
    );
}

#[test]
fn unknown_type_size_is_reported() {
    let idx = index(
        vec![var("f", "s", "Unsized", VariableKind::Local, None)],
        vec![imp("f", ImplementationType::Function, None)],
        vec![pou("f", false)],
        vec![],
    );
    let global = GlobalConstant {
        initializes: "Unsized".to_string(),
        data_type: "Unsized".to_string(),
        value: 0,
        alignment: 0,
    };
    let target = with_stubs(&idx, vec![global]);
    let generator = PouGenerator::new(&idx, &target);
    assert_eq!(
        generator.generate_implementation(&implementation("f", PouType::Function)),
        Err(Diagnostic::UnknownTypeSize { location: 7 })
    );
}

#[test]
fn return_without_bound_slot_is_reported() {
    let idx = scenario_a_index();
    let target = empty_target();
    let generator = PouGenerator::new(&idx, &target);
    let context = FunctionContext { owner_type: "add".to_string(), call_name: "add".to_string() };
    assert_eq!(
        generator.generate_return_statement(&context, &vec![]),
        Err(Diagnostic::MissingReturnSlot { call_name: "add".to_string() })
    );
    let void_context =
        FunctionContext { owner_type: "prg".to_string(), call_name: "prg".to_string() };
    assert_eq!(generator.generate_return_statement(&void_context, &vec![]), Ok(vec![Instr::ReturnVoid]));
}
