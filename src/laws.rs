//! Properties that hold across the generation functions.
use vstd::prelude::*;
use crate::model::{
    members_of, type_entry, ImplementationEntry, ImplementationType, Index,
    TypeCategory, VariableEntry,
};
use crate::names::initializer_name_spec;
use crate::pou_generator::{
    count_params, function_bindings, function_params, is_concrete, stubs_of, struct_bindings, hoist_step, hoisted_all, hoisted_members, initial_statement,
    dest_of, initialization, initializer_global, stub_of, DeclView,
};
use crate::target::{binding_slot, global_entry, GlobalConstant, Instr, LocalBinding, Slot, TargetIndex};

verus! {

/// Every global in `gs` has a name that `existing` does not hold and that no
/// earlier global of `gs` holds.
pub open spec fn names_fresh(existing: Seq<GlobalConstant>, gs: Seq<GlobalConstant>) -> bool {
    forall|i: int|
        0 <= i < gs.len() ==> global_entry(existing, initializer_name_spec(#[trigger] gs[i].initializes@))
            is None && global_entry(gs.subrange(0, i), initializer_name_spec(gs[i].initializes@))
            is None
}

proof fn lemma_hoist_step_fresh(
    idx: Index,
    target: TargetIndex,
    acc: Seq<GlobalConstant>,
    v: VariableEntry,
)
    requires
        names_fresh(target.globals@, acc),
    ensures
        match hoist_step(idx, target, acc, v) {
            Ok(a) => names_fresh(target.globals@, a),
            Err(_) => true,
        },
{
    match hoist_step(idx, target, acc, v) {
        Ok(a) => {
            if a != acc {
                assert(a.len() == acc.len() + 1);
                assert(a.subrange(0, acc.len() as int) =~= acc);
                assert forall|i: int| 0 <= i < a.len() implies global_entry(
                    target.globals@,
                    initializer_name_spec(#[trigger] a[i].initializes@),
                ) is None && global_entry(a.subrange(0, i), initializer_name_spec(a[i].initializes@))
                    is None by {
                    if i < acc.len() {
                        assert(a[i] == acc[i]);
                        assert(a.subrange(0, i) =~= acc.subrange(0, i));
                    }
                }
            }
        },
        Err(_) => {},
    }
}

proof fn lemma_hoisted_members_fresh(
    idx: Index,
    target: TargetIndex,
    acc: Seq<GlobalConstant>,
    ms: Seq<VariableEntry>,
)
    requires
        names_fresh(target.globals@, acc),
    ensures
        match hoisted_members(idx, target, acc, ms) {
            Ok(a) => names_fresh(target.globals@, a),
            Err(_) => true,
        },
    decreases ms.len(),
{
    if ms.len() > 0 {
        lemma_hoist_step_fresh(idx, target, acc, ms[0]);
        match hoist_step(idx, target, acc, ms[0]) {
            Ok(a) => lemma_hoisted_members_fresh(idx, target, a, ms.drop_first()),
            Err(_) => {},
        }
    }
}

proof fn lemma_hoisted_all_fresh(
    idx: Index,
    target: TargetIndex,
    acc: Seq<GlobalConstant>,
    imps: Seq<ImplementationEntry>,
)
    requires
        names_fresh(target.globals@, acc),
    ensures
        match hoisted_all(idx, target, acc, imps) {
            Ok(a) => names_fresh(target.globals@, a),
            Err(_) => true,
        },
    decreases imps.len(),
{
    if imps.len() > 0 {
        let ms = members_of(idx.variables@, imps[0].owner_type@);
        lemma_hoisted_members_fresh(idx, target, acc, ms);
        match hoisted_members(idx, target, acc, ms) {
            Ok(a) => lemma_hoisted_all_fresh(idx, target, a, imps.drop_first()),
            Err(_) => {},
        }
    }
}

/// Hoisting creates each global once: no new global takes a name that already
/// exists, and no two new globals share a name.
pub proof fn law_hoisting_creates_each_name_once(idx: Index, target: TargetIndex)
    ensures
        match hoisted_all(idx, target, Seq::empty(), idx.implementations@) {
            Ok(gs) => names_fresh(target.globals@, gs),
            Err(_) => true,
        },
{
    lemma_hoisted_all_fresh(idx, target, Seq::empty(), idx.implementations@);
}

/// Hoisting a variable whose initializer name is already taken adds nothing.
pub proof fn law_hoisting_existing_name_is_noop(
    idx: Index,
    target: TargetIndex,
    acc: Seq<GlobalConstant>,
    v: VariableEntry,
)
    requires
        global_entry(acc, initializer_name_spec(v.qualified_name@)) is Some,
        initial_statement(idx, v) is Ok,
    ensures
        hoist_step(idx, target, acc, v) == Ok::<Seq<GlobalConstant>, crate::target::Diagnostic>(acc),
{
}

/// A variable with a hoisted global for its name or its type is initialized by a
/// bulk copy of that global.
pub proof fn law_hoisted_global_is_copied(idx: Index, target: TargetIndex, v: VariableEntry, left: Slot)
    requires
        initializer_global(target, v) is Some,
        initialization(idx, target, v, left) is Ok,
    ensures
        initialization(idx, target, v, left)->Ok_0 is Memcpy,
        initialization(idx, target, v, left)->Ok_0->Memcpy_source == initializer_global(
            target,
            v,
        )->Some_0.initializes,
{
}

/// A variable without initializer and without a hoisted global receives its type's
/// default when the type is not an array, and a zero fill when it is.
pub proof fn law_uninitialized_gets_default(
    idx: Index,
    target: TargetIndex,
    v: VariableEntry,
    left: Slot,
)
    requires
        v.initial_value is None,
        initializer_global(target, v) is None,
        type_entry(idx.types@, v.data_type@) is Some,
        type_entry(idx.types@, v.data_type@)->Some_0.target.size is Some,
    ensures
        type_entry(idx.types@, v.data_type@)->Some_0.target.category == TypeCategory::Array
            ==> initialization(idx, target, v, left) == Ok::<Instr, crate::target::Diagnostic>(
            Instr::Memset {
                dest: dest_of(v, left),
                size: type_entry(idx.types@, v.data_type@)->Some_0.target.size->Some_0,
            },
        ),
        type_entry(idx.types@, v.data_type@)->Some_0.target.category != TypeCategory::Array
            ==> initialization(idx, target, v, left) == Ok::<Instr, crate::target::Diagnostic>(
            Instr::StoreDefault {
                dest: dest_of(v, left),
                ty: type_entry(idx.types@, v.data_type@)->Some_0.target,
            },
        ),
{
}

/// The implementations that get a declaration, in order.
pub open spec fn concrete_implementations(idx: Index, imps: Seq<ImplementationEntry>) -> Seq<
    ImplementationEntry,
>
    decreases imps.len(),
{
    if imps.len() == 0 {
        Seq::empty()
    } else {
        let rest = concrete_implementations(idx, imps.drop_last());
        if is_concrete(idx, imps.last()) {
            rest.push(imps.last())
        } else {
            rest
        }
    }
}

/// The parameter count a declaration has: one per parameter-kind member for a
/// function, two pointers for a method, one pointer otherwise.
pub open spec fn expected_param_count(idx: Index, imp: ImplementationEntry) -> nat {
    match imp.implementation_type {
        ImplementationType::Function => count_params(members_of(idx.variables@, imp.call_name@)),
        ImplementationType::Method => 2,
        _ => 1,
    }
}

proof fn lemma_function_params_len(idx: Index, ms: Seq<VariableEntry>)
    ensures
        function_params(idx, ms) is Ok ==> function_params(idx, ms)->Ok_0.len() == count_params(ms),
    decreases ms.len(),
{
    if ms.len() > 0 {
        lemma_function_params_len(idx, ms.drop_last());
    }
}

proof fn lemma_stub_param_count(idx: Index, imp: ImplementationEntry)
    ensures
        stub_of(idx, imp) is Ok ==> stub_of(idx, imp)->Ok_0.1.len() == expected_param_count(idx, imp),
{
    lemma_function_params_len(idx, members_of(idx.variables@, imp.call_name@));
}

/// Declaring succeeds with exactly one declaration per concrete (known, non-generic)
/// implementation, in order, each with the parameter count its kind calls for.
pub proof fn law_one_declaration_per_concrete_callable(idx: Index, imps: Seq<ImplementationEntry>)
    ensures
        match stubs_of(idx, imps) {
            Ok(ds) => {
                let cs = concrete_implementations(idx, imps);
                &&& ds.len() == cs.len()
                &&& forall|k: int|
                    0 <= k < ds.len() ==> stub_of(idx, #[trigger] cs[k]) == Ok::<
                        DeclView,
                        crate::target::Diagnostic,
                    >(ds[k]) && ds[k].1.len() == expected_param_count(idx, cs[k])
            },
            Err(_) => true,
        },
    decreases imps.len(),
{
    if imps.len() > 0 {
        law_one_declaration_per_concrete_callable(idx, imps.drop_last());
        lemma_stub_param_count(idx, imps.last());
        match stubs_of(idx, imps) {
            Ok(ds) => {
                let cs = concrete_implementations(idx, imps);
                let cs0 = concrete_implementations(idx, imps.drop_last());
                let ds0 = stubs_of(idx, imps.drop_last())->Ok_0;
                if is_concrete(idx, imps.last()) {
                    assert(ds == ds0.push(stub_of(idx, imps.last())->Ok_0));
                    assert forall|k: int| 0 <= k < ds.len() implies stub_of(idx, #[trigger] cs[k])
                        == Ok::<DeclView, crate::target::Diagnostic>(ds[k]) && ds[k].1.len()
                        == expected_param_count(idx, cs[k]) by {
                        if k < ds0.len() {
                            assert(cs[k] == cs0[k]);
                            assert(stub_of(idx, cs0[k]) == Ok::<DeclView, crate::target::Diagnostic>(ds0[k]));
                        }
                    }
                }
            },
            Err(_) => {},
        }
    }
}

/// The names of the members are pairwise distinct.
pub open spec fn names_distinct(ms: Seq<VariableEntry>) -> bool {
    forall|i: int, j: int| 0 <= i < j < ms.len() ==> ms[i].name@ != ms[j].name@
}

/// Binding `ms` yields one binding per member, in order, each under `scope` and the
/// member's name.
pub open spec fn binds_each_member(scope: String, ms: Seq<VariableEntry>, bs: Seq<LocalBinding>) -> bool {
    &&& bs.len() == ms.len()
    &&& forall|i: int|
        0 <= i < bs.len() ==> (#[trigger] bs[i]).scope == scope && bs[i].name == ms[i].name
}

proof fn lemma_function_bindings_aligned(idx: Index, scope: String, ms: Seq<VariableEntry>, pc: nat)
    ensures
        function_bindings(idx, scope, ms, pc) is Ok ==> binds_each_member(
            scope,
            ms,
            function_bindings(idx, scope, ms, pc)->Ok_0,
        ),
    decreases ms.len(),
{
    if ms.len() > 0 {
        lemma_function_bindings_aligned(idx, scope, ms.drop_last(), pc);
        if function_bindings(idx, scope, ms, pc) is Ok {
            let bs = function_bindings(idx, scope, ms, pc)->Ok_0;
            let bs0 = function_bindings(idx, scope, ms.drop_last(), pc)->Ok_0;
            assert forall|i: int| 0 <= i < bs.len() implies (#[trigger] bs[i]).scope == scope
                && bs[i].name == ms[i].name by {
                if i < bs0.len() {
                    assert(bs[i] == bs0[i]);
                    assert(ms.drop_last()[i] == ms[i]);
                }
            }
        }
    }
}

proof fn lemma_struct_bindings_aligned(
    idx: Index,
    scope: String,
    ms: Seq<VariableEntry>,
    arg: nat,
    pc: nat,
)
    ensures
        struct_bindings(idx, scope, ms, arg, pc) is Ok ==> binds_each_member(
            scope,
            ms,
            struct_bindings(idx, scope, ms, arg, pc)->Ok_0,
        ),
    decreases ms.len(),
{
    if ms.len() > 0 {
        lemma_struct_bindings_aligned(idx, scope, ms.drop_last(), arg, pc);
        if struct_bindings(idx, scope, ms, arg, pc) is Ok {
            let bs = struct_bindings(idx, scope, ms, arg, pc)->Ok_0;
            let bs0 = struct_bindings(idx, scope, ms.drop_last(), arg, pc)->Ok_0;
            assert forall|i: int| 0 <= i < bs.len() implies (#[trigger] bs[i]).scope == scope
                && bs[i].name == ms[i].name by {
                if i < bs0.len() {
                    assert(bs[i] == bs0[i]);
                    assert(ms.drop_last()[i] == ms[i]);
                }
            }
        }
    }
}

proof fn lemma_binding_slot_at(bs: Seq<LocalBinding>, scope: Seq<char>, name: Seq<char>, i: int)
    requires
        0 <= i < bs.len(),
        bs[i].scope@ == scope && bs[i].name@ == name,
        forall|j: int| 0 <= j < i ==> !((#[trigger] bs[j]).scope@ == scope && bs[j].name@ == name),
    ensures
        binding_slot(bs, scope, name) == Some(bs[i].slot),
    decreases i,
{
    if i > 0 {
        assert(!(bs[0].scope@ == scope && bs[0].name@ == name));
        assert forall|j: int| 0 <= j < i - 1 implies !((#[trigger] bs.drop_first()[j]).scope@ == scope
            && bs.drop_first()[j].name@ == name) by {
            assert(bs.drop_first()[j] == bs[j + 1]);
        }
        lemma_binding_slot_at(bs.drop_first(), scope, name, i - 1);
    }
}

/// Each member with a distinct name is bound exactly once: its binding is the
/// only one under its scope and name, and looking it up finds that binding.
pub open spec fn bound_exactly_once(scope: String, ms: Seq<VariableEntry>, bs: Seq<LocalBinding>) -> bool {
    forall|i: int|
        0 <= i < ms.len() ==> binding_slot(bs, scope@, (#[trigger] ms[i]).name@) == Some(bs[i].slot)
            && forall|k: int|
            0 <= k < bs.len() && bs[k].scope@ == scope@ && bs[k].name@ == ms[i].name@ ==> k == i
}

proof fn lemma_aligned_bound_once(scope: String, ms: Seq<VariableEntry>, bs: Seq<LocalBinding>)
    requires
        names_distinct(ms),
        binds_each_member(scope, ms, bs),
    ensures
        bound_exactly_once(scope, ms, bs),
{
    assert forall|i: int| 0 <= i < ms.len() implies binding_slot(
        bs,
        scope@,
        (#[trigger] ms[i]).name@,
    ) == Some(bs[i].slot) && forall|k: int|
        0 <= k < bs.len() && bs[k].scope@ == scope@ && bs[k].name@ == ms[i].name@ ==> k == i by {
        assert(bs[i].scope == scope && bs[i].name == ms[i].name);
        assert forall|j: int| 0 <= j < i implies !((#[trigger] bs[j]).scope@ == scope@ && bs[j].name@
            == ms[i].name@) by {
            assert(bs[j].name == ms[j].name);
        }
        lemma_binding_slot_at(bs, scope@, ms[i].name@, i);
        assert forall|k: int|
            0 <= k < bs.len() && bs[k].scope@ == scope@ && bs[k].name@ == ms[i].name@ implies k
            == i by {
            assert(bs[k].name == ms[k].name);
        }
    }
}

/// Binding the members of a function binds each member with a distinct name
/// exactly once, under the function's scope.
pub proof fn law_function_members_bound_once(
    idx: Index,
    scope: String,
    ms: Seq<VariableEntry>,
    param_count: nat,
)
    requires
        names_distinct(ms),
    ensures
        function_bindings(idx, scope, ms, param_count) is Ok ==> binds_each_member(
            scope,
            ms,
            function_bindings(idx, scope, ms, param_count)->Ok_0,
        ) && bound_exactly_once(scope, ms, function_bindings(idx, scope, ms, param_count)->Ok_0),
{
    lemma_function_bindings_aligned(idx, scope, ms, param_count);
    if function_bindings(idx, scope, ms, param_count) is Ok {
        lemma_aligned_bound_once(scope, ms, function_bindings(idx, scope, ms, param_count)->Ok_0);
    }
}

/// Binding the members of a struct-instance callable binds each member with a
/// distinct name exactly once, under the callable's scope.
pub proof fn law_struct_members_bound_once(
    idx: Index,
    scope: String,
    ms: Seq<VariableEntry>,
    arg: nat,
    param_count: nat,
)
    requires
        names_distinct(ms),
    ensures
        struct_bindings(idx, scope, ms, arg, param_count) is Ok ==> binds_each_member(
            scope,
            ms,
            struct_bindings(idx, scope, ms, arg, param_count)->Ok_0,
        ) && bound_exactly_once(
            scope,
            ms,
            struct_bindings(idx, scope, ms, arg, param_count)->Ok_0,
        ),
{
    lemma_struct_bindings_aligned(idx, scope, ms, arg, param_count);
    if struct_bindings(idx, scope, ms, arg, param_count) is Ok {
        lemma_aligned_bound_once(
            scope,
            ms,
            struct_bindings(idx, scope, ms, arg, param_count)->Ok_0,
        );
    }
}

} // verus!
