//! What the virtual machine does, as functions on the views of its classes
//! and frames: how a method is found, how a frame is made for it, what one
//! step of the machine is, and what a run of steps comes to.

use vstd::prelude::*;

use crate::attr::AttributeView;
use crate::constant_pool::spec_resolve_method_ref;
use crate::descriptor::spec_argument_slots;
use crate::error::VmError;
use crate::frame::{spec_entry_frame, spec_push, value_slots, FrameView, Value};
use crate::interp::{
    lemma_execute_within_limits, spec_decode, spec_execute, spec_operand_count, Step,
};
use crate::model::{ClassView, MethodView};

verus! {

/// What of a `Code` attribute the machine runs.
pub struct CodeView {
    pub max_stack: u16,
    pub max_locals: u16,
    pub code: Seq<u8>,
}

/// The first `Code` attribute among `attributes`, from `from` on.
pub open spec fn first_code(attributes: Seq<AttributeView>, from: int) -> Option<CodeView>
    decreases attributes.len() - from,
{
    if from < 0 || from >= attributes.len() {
        None
    } else {
        match attributes[from] {
            AttributeView::Code { max_stack, max_locals, code, .. } => Some(
                CodeView { max_stack, max_locals, code },
            ),
            _ => first_code(attributes, from + 1),
        }
    }
}

/// The index of the first class with the name `name`, from `from` on.
pub open spec fn find_class_from(classes: Seq<ClassView>, name: Seq<char>, from: int) -> Option<
    int,
>
    decreases classes.len() - from,
{
    if from < 0 || from >= classes.len() {
        None
    } else if classes[from].name == name {
        Some(from)
    } else {
        find_class_from(classes, name, from + 1)
    }
}

/// The index of the first class with the name `name`.
pub open spec fn find_class(classes: Seq<ClassView>, name: Seq<char>) -> Option<int> {
    find_class_from(classes, name, 0)
}

/// True when the method has this name and this descriptor.
pub open spec fn is_method(method: MethodView, name: Seq<char>, descriptor: Seq<char>) -> bool {
    method.name == name && method.descriptor == descriptor
}

/// The index of the first method with this name and descriptor, from `from`
/// on.
pub open spec fn find_method_from(
    methods: Seq<MethodView>,
    name: Seq<char>,
    descriptor: Seq<char>,
    from: int,
) -> Option<int>
    decreases methods.len() - from,
{
    if from < 0 || from >= methods.len() {
        None
    } else if is_method(methods[from], name, descriptor) {
        Some(from)
    } else {
        find_method_from(methods, name, descriptor, from + 1)
    }
}

/// The index of the first method with this name and descriptor.
pub open spec fn find_method(methods: Seq<MethodView>, name: Seq<char>, descriptor: Seq<char>)
    -> Option<int> {
    find_method_from(methods, name, descriptor, 0)
}

/// The method with this name and descriptor in the class `class_name` or,
/// where that class has none, in the nearest of its ancestors that has one:
/// the index of the class and the index of the method in it. The walk up the
/// superclasses visits at most `steps` classes, and ends where a class has
/// no superclass or is not loaded.
pub open spec fn lookup(
    classes: Seq<ClassView>,
    class_name: Seq<char>,
    name: Seq<char>,
    descriptor: Seq<char>,
    steps: nat,
) -> Option<(int, int)>
    decreases steps,
{
    if steps == 0 {
        None
    } else {
        match find_class(classes, class_name) {
            None => None,
            Some(class_index) => match find_method(
                classes[class_index].methods,
                name,
                descriptor,
            ) {
                Some(method_index) => Some((class_index, method_index)),
                None => match classes[class_index].super_class_name {
                    None => None,
                    Some(super_class_name) => lookup(
                        classes,
                        super_class_name,
                        name,
                        descriptor,
                        (steps - 1) as nat,
                    ),
                },
            },
        }
    }
}

/// The method that an invocation of `name` with `descriptor` on the class
/// `class_name` runs. A chain of superclasses is never longer than the number
/// of loaded classes, unless it runs in a circle.
pub open spec fn spec_resolve_method(
    classes: Seq<ClassView>,
    class_name: Seq<char>,
    name: Seq<char>,
    descriptor: Seq<char>,
) -> Option<(int, int)> {
    lookup(classes, class_name, name, descriptor, classes.len())
}

/// The code of the method `method_index` of the class `class_index`. Fails
/// with `MethodNotFound` where there is no such method, and with
/// `MissingCode` where it has no `Code` attribute.
pub open spec fn spec_method_code(classes: Seq<ClassView>, class_index: int, method_index: int)
    -> Result<CodeView, VmError> {
    if !(0 <= class_index < classes.len()) || !(0 <= method_index
        < classes[class_index].methods.len()) {
        Err(VmError::MethodNotFound)
    } else {
        match first_code(classes[class_index].methods[method_index].attributes, 0) {
            None => Err(VmError::MissingCode),
            Some(code) => Ok(code),
        }
    }
}

/// The frame in which that method starts on the argument slots `arguments`.
pub open spec fn spec_method_frame(
    classes: Seq<ClassView>,
    class_index: int,
    method_index: int,
    arguments: Seq<u32>,
) -> Result<FrameView, VmError> {
    match spec_method_code(classes, class_index, method_index) {
        Err(e) => Err(e),
        Ok(code) => spec_entry_frame(
            class_index as nat,
            method_index as nat,
            code.max_stack,
            code.max_locals,
            arguments,
        ),
    }
}

/// The slots of the values `arguments`, one value after the other.
pub open spec fn argument_values_slots(arguments: Seq<Value>) -> Seq<u32>
    decreases arguments.len(),
{
    if arguments.len() == 0 {
        Seq::empty()
    } else {
        argument_values_slots(arguments.drop_last()) + value_slots(arguments.last())
    }
}

/// The invocation that the frame `caller` makes through the pool entry
/// `method_ref` of its class: the caller without the arguments, and the frame
/// of the method. The reference is resolved in the pool of the caller's class
/// (else `UnresolvedReference`); the method is looked up from the class it
/// names (else `MethodNotFound`); its descriptor says how many slots the
/// arguments take (else `InvalidDescriptor`), to which a receiver adds one;
/// so many slots leave the caller's stack (else `OperandStackUnderflow`) and
/// become the first local variables of the new frame.
pub open spec fn spec_call(
    classes: Seq<ClassView>,
    caller: FrameView,
    method_ref: u16,
    receiver: bool,
) -> Result<(FrameView, FrameView), VmError> {
    if caller.class_index >= classes.len() {
        Err(VmError::MethodNotFound)
    } else {
        match spec_resolve_method_ref(classes[caller.class_index as int].constant_pool, method_ref) {
            Err(e) => Err(VmError::UnresolvedReference(e)),
            Ok((class_name, name, descriptor)) => match spec_resolve_method(
                classes,
                class_name,
                name,
                descriptor,
            ) {
                None => Err(VmError::MethodNotFound),
                Some((class_index, method_index)) => match spec_argument_slots(descriptor) {
                    None => Err(VmError::InvalidDescriptor),
                    Some(count) => {
                        let total = count + if receiver {
                            1int
                        } else {
                            0int
                        };
                        let held = caller.op_stack.len() as int;
                        if held < total {
                            Err(VmError::OperandStackUnderflow)
                        } else {
                            match spec_method_frame(
                                classes,
                                class_index,
                                method_index,
                                caller.op_stack.subrange(held - total, held),
                            ) {
                                Err(e) => Err(e),
                                Ok(callee) => Ok(
                                    (
                                        caller.with_stack(caller.op_stack.take(held - total)),
                                        callee,
                                    ),
                                ),
                            }
                        }
                    },
                },
            },
        }
    }
}

/// The frames of one chain of nested invocations: the one that runs, and
/// below it those that wait for a callee to return, the outermost first.
pub struct MachineView {
    pub callers: Seq<FrameView>,
    pub current: FrameView,
}

/// What one step of the machine comes to.
pub enum MachineStep {
    /// The machine goes on in this state.
    Next(MachineView),
    /// The outermost method has returned, with this value if it has one.
    Done(Option<Value>),
    /// The chain of invocations ends with this fault.
    Fault(VmError),
}

/// The frame that runs returns `value`: to the caller that waits for it,
/// which gets the value pushed, or, where none does, out of the machine.
pub open spec fn spec_return(m: MachineView, value: Option<Value>) -> MachineStep {
    if m.callers.len() == 0 {
        MachineStep::Done(value)
    } else {
        let caller = m.callers.last();
        match value {
            None => MachineStep::Next(
                MachineView { callers: m.callers.drop_last(), current: caller },
            ),
            Some(v) => match spec_push(caller, v) {
                Err(e) => MachineStep::Fault(e),
                Ok(resumed) => MachineStep::Next(
                    MachineView { callers: m.callers.drop_last(), current: resumed },
                ),
            },
        }
    }
}

/// One step of the machine: the instruction at the program counter of the
/// frame that runs is decoded and executed. A program counter at the end of
/// the code returns without a value. An invocation makes the chain one frame
/// longer, which `max_depth` frames may not exceed.
pub open spec fn spec_machine_step(classes: Seq<ClassView>, m: MachineView, max_depth: nat)
    -> MachineStep {
    let f = m.current;
    match spec_method_code(classes, f.class_index as int, f.method_index as int) {
        Err(e) => MachineStep::Fault(e),
        Ok(code) => if f.pc >= code.code.len() {
            spec_return(m, None)
        } else {
            match spec_decode(code.code, f.pc as int) {
                Err(e) => MachineStep::Fault(e),
                Ok((instruction, next)) => match spec_execute(f, instruction, next as nat) {
                    Step::Fault(e) => MachineStep::Fault(e),
                    Step::Continue(g) => MachineStep::Next(
                        MachineView { callers: m.callers, current: g },
                    ),
                    Step::Return(value) => spec_return(m, value),
                    Step::Invoke { frame, method_ref, receiver } => if m.callers.len() + 1
                        >= max_depth {
                        MachineStep::Fault(VmError::FrameStackOverflow)
                    } else {
                        match spec_call(classes, frame, method_ref, receiver) {
                            Err(e) => MachineStep::Fault(e),
                            Ok((caller, callee)) => MachineStep::Next(
                                MachineView { callers: m.callers.push(caller), current: callee },
                            ),
                        }
                    },
                },
            }
        },
    }
}

/// What a run of at most `steps` steps from the state `m` comes to: the value
/// that the outermost method returns, the first fault, or
/// `StepLimitExceeded`.
pub open spec fn spec_run(classes: Seq<ClassView>, m: MachineView, max_depth: nat, steps: nat)
    -> Result<Option<Value>, VmError>
    decreases steps,
{
    if steps == 0 {
        Err(VmError::StepLimitExceeded)
    } else {
        match spec_machine_step(classes, m, max_depth) {
            MachineStep::Fault(e) => Err(e),
            MachineStep::Done(value) => Ok(value),
            MachineStep::Next(next) => spec_run(classes, next, max_depth, (steps - 1) as nat),
        }
    }
}

/// What running the method `method_index` of the class `class_index` on
/// `arguments` comes to.
pub open spec fn spec_invoke_method(
    classes: Seq<ClassView>,
    class_index: int,
    method_index: int,
    arguments: Seq<Value>,
    max_depth: nat,
    steps: nat,
) -> Result<Option<Value>, VmError> {
    match spec_method_frame(
        classes,
        class_index,
        method_index,
        argument_values_slots(arguments),
    ) {
        Err(e) => Err(e),
        Ok(frame) => spec_run(
            classes,
            MachineView { callers: Seq::empty(), current: frame },
            max_depth,
            steps,
        ),
    }
}

/// What invoking `name` with `descriptor` on the class `class_name` comes
/// to: `MethodNotFound` where neither the class nor an ancestor has such a
/// method, else what running that method comes to.
pub open spec fn spec_invoke(
    classes: Seq<ClassView>,
    class_name: Seq<char>,
    name: Seq<char>,
    descriptor: Seq<char>,
    arguments: Seq<Value>,
    max_depth: nat,
    steps: nat,
) -> Result<Option<Value>, VmError> {
    match spec_resolve_method(classes, class_name, name, descriptor) {
        None => Err(VmError::MethodNotFound),
        Some((class_index, method_index)) => spec_invoke_method(
            classes,
            class_index,
            method_index,
            arguments,
            max_depth,
            steps,
        ),
    }
}

/// What starting the program comes to: the method `main` of the first class,
/// which takes an array of strings and returns nothing, is run without
/// arguments, so that its local variables all start as 0.
pub open spec fn spec_start(classes: Seq<ClassView>, max_depth: nat, steps: nat) -> Result<
    Option<Value>,
    VmError,
> {
    if classes.len() == 0 {
        Err(VmError::MethodNotFound)
    } else {
        match find_method(classes[0].methods, "main"@, "([Ljava/lang/String;)V"@) {
            None => Err(VmError::MethodNotFound),
            Some(method_index) => spec_invoke_method(
                classes,
                0,
                method_index,
                Seq::empty(),
                max_depth,
                steps,
            ),
        }
    }
}

/// The classes after `class` was loaded: it takes the place of the first
/// class of its name, or comes last where there is none.
pub open spec fn spec_add_class(classes: Seq<ClassView>, class: ClassView) -> Seq<ClassView> {
    match find_class(classes, class.name) {
        Some(i) => classes.update(i, class),
        None => classes.push(class),
    }
}

/// The class that stands `k` steps up the chain of superclasses from the
/// class `class_name`, if the chain is that long and all its classes are
/// loaded. The class itself stands 0 steps up.
pub open spec fn ancestor(classes: Seq<ClassView>, class_name: Seq<char>, k: nat) -> Option<int>
    decreases k,
{
    if k == 0 {
        find_class(classes, class_name)
    } else {
        match ancestor(classes, class_name, (k - 1) as nat) {
            None => None,
            Some(c) => match classes[c].super_class_name {
                None => None,
                Some(super_class_name) => find_class(classes, super_class_name),
            },
        }
    }
}

/// The class that a search finds is the first of its name.
pub proof fn lemma_find_class(classes: Seq<ClassView>, name: Seq<char>, from: int)
    requires
        0 <= from,
    ensures
        match find_class_from(classes, name, from) {
            Some(i) => from <= i < classes.len() && classes[i].name == name && forall|j: int|
                from <= j < i ==> classes[j].name != name,
            None => forall|j: int| from <= j < classes.len() ==> classes[j].name != name,
        },
    decreases classes.len() - from,
{
    if from < classes.len() && classes[from].name != name {
        lemma_find_class(classes, name, from + 1);
    }
}

/// The method that a search finds is the first of its name and descriptor.
pub proof fn lemma_find_method(
    methods: Seq<MethodView>,
    name: Seq<char>,
    descriptor: Seq<char>,
    from: int,
)
    requires
        0 <= from,
    ensures
        match find_method_from(methods, name, descriptor, from) {
            Some(i) => from <= i < methods.len() && is_method(methods[i], name, descriptor)
                && forall|j: int| from <= j < i ==> !is_method(methods[j], name, descriptor),
            None => forall|j: int|
                from <= j < methods.len() ==> !is_method(methods[j], name, descriptor),
        },
    decreases methods.len() - from,
{
    if from < methods.len() && !is_method(methods[from], name, descriptor) {
        lemma_find_method(methods, name, descriptor, from + 1);
    }
}

/// A method that the lookup finds has the name and the descriptor that were
/// asked for.
pub proof fn lemma_lookup_found(
    classes: Seq<ClassView>,
    class_name: Seq<char>,
    name: Seq<char>,
    descriptor: Seq<char>,
    steps: nat,
)
    ensures
        lookup(classes, class_name, name, descriptor, steps) matches Some((c, m)) ==> 0 <= c
            < classes.len() && 0 <= m < classes[c].methods.len() && is_method(
            classes[c].methods[m],
            name,
            descriptor,
        ),
    decreases steps,
{
    if steps > 0 {
        lemma_find_class(classes, class_name, 0);
        if let Some(c) = find_class(classes, class_name) {
            lemma_find_method(classes[c].methods, name, descriptor, 0);
            if find_method(classes[c].methods, name, descriptor) is None {
                if let Some(super_class_name) = classes[c].super_class_name {
                    lemma_lookup_found(
                        classes,
                        super_class_name,
                        name,
                        descriptor,
                        (steps - 1) as nat,
                    );
                }
            }
        }
    }
}

/// The chain of a superclass is the chain of the class, one step on.
proof fn lemma_ancestor_of_super(
    classes: Seq<ClassView>,
    class_name: Seq<char>,
    super_class_name: Seq<char>,
    k: nat,
)
    requires
        find_class(classes, class_name) matches Some(c) && classes[c].super_class_name == Some(
            super_class_name,
        ),
    ensures
        ancestor(classes, super_class_name, k) == ancestor(classes, class_name, k + 1),
    decreases k,
{
    if k > 0 {
        lemma_ancestor_of_super(classes, class_name, super_class_name, (k - 1) as nat);
    }
    assert(ancestor(classes, class_name, 1) == find_class(classes, super_class_name)) by {
        assert(ancestor(classes, class_name, 0) == find_class(classes, class_name));
    }
}

/// Where neither the class nor any of its ancestors has a method of this
/// name and descriptor, the lookup finds none.
pub proof fn lemma_lookup_absent(
    classes: Seq<ClassView>,
    class_name: Seq<char>,
    name: Seq<char>,
    descriptor: Seq<char>,
    steps: nat,
)
    requires
        forall|k: nat|
            (#[trigger] ancestor(classes, class_name, k)) matches Some(c) ==> find_method(
                classes[c].methods,
                name,
                descriptor,
            ) is None,
    ensures
        lookup(classes, class_name, name, descriptor, steps) is None,
    decreases steps,
{
    if steps > 0 {
        assert(ancestor(classes, class_name, 0) == find_class(classes, class_name));
        if let Some(c) = find_class(classes, class_name) {
            if let Some(super_class_name) = classes[c].super_class_name {
                assert forall|k: nat|
                    (#[trigger] ancestor(classes, super_class_name, k)) is Some implies find_method(
                    classes[ancestor(classes, super_class_name, k)->Some_0].methods,
                    name,
                    descriptor,
                ) is None by {
                    lemma_ancestor_of_super(classes, class_name, super_class_name, k);
                    assert(ancestor(classes, class_name, k + 1) is Some);
                }
                lemma_lookup_absent(
                    classes,
                    super_class_name,
                    name,
                    descriptor,
                    (steps - 1) as nat,
                );
            }
        }
    }
}

/// Invoking a method that neither the class nor any of its ancestors has
/// fails with `MethodNotFound`.
pub proof fn lemma_invoke_absent_method(
    classes: Seq<ClassView>,
    class_name: Seq<char>,
    name: Seq<char>,
    descriptor: Seq<char>,
    arguments: Seq<Value>,
    max_depth: nat,
    steps: nat,
)
    requires
        forall|k: nat|
            (#[trigger] ancestor(classes, class_name, k)) matches Some(c) ==> find_method(
                classes[c].methods,
                name,
                descriptor,
            ) is None,
    ensures
        spec_invoke(classes, class_name, name, descriptor, arguments, max_depth, steps) == Err::<
            Option<Value>,
            VmError,
        >(VmError::MethodNotFound),
{
    lemma_lookup_absent(classes, class_name, name, descriptor, classes.len());
}

/// True when the operand stack of every frame is within its limit, and the
/// chain holds at most `max_depth` frames.
pub open spec fn within_limits(m: MachineView, max_depth: nat) -> bool {
    &&& m.callers.len() + 1 <= max_depth
    &&& m.current.op_stack.len() <= m.current.max_stack
    &&& forall|i: int|
        0 <= i < m.callers.len() ==> (#[trigger] m.callers[i]).op_stack.len()
            <= m.callers[i].max_stack
}

/// A step of the machine keeps every operand stack within its limit and the
/// chain of frames within `max_depth`.
pub proof fn lemma_step_within_limits(classes: Seq<ClassView>, m: MachineView, max_depth: nat)
    requires
        within_limits(m, max_depth),
    ensures
        spec_machine_step(classes, m, max_depth) matches MachineStep::Next(next) ==> within_limits(
            next,
            max_depth,
        ),
{
    let f = m.current;
    if let Ok(code) = spec_method_code(classes, f.class_index as int, f.method_index as int) {
        if f.pc < code.code.len() {
            if let Ok((instruction, next)) = spec_decode(code.code, f.pc as int) {
                lemma_execute_within_limits(f, instruction, next as nat);
            }
        }
    }
}

/// A run that ends within its steps ends the same with more steps: the limit
/// on the steps changes no result, it only cuts runs off.
pub proof fn lemma_run_with_more_steps(
    classes: Seq<ClassView>,
    m: MachineView,
    max_depth: nat,
    steps: nat,
    more: nat,
)
    requires
        steps <= more,
        spec_run(classes, m, max_depth, steps) != Err::<Option<Value>, VmError>(
            VmError::StepLimitExceeded,
        ),
    ensures
        spec_run(classes, m, max_depth, more) == spec_run(classes, m, max_depth, steps),
    decreases steps,
{
    if steps > 0 {
        if let MachineStep::Next(next) = spec_machine_step(classes, m, max_depth) {
            lemma_run_with_more_steps(
                classes,
                next,
                max_depth,
                (steps - 1) as nat,
                (more - 1) as nat,
            );
        }
    }
}

/// A run that comes to a byte outside the instruction table ends at once with
/// `UnsupportedOpcode`, which names the byte.
pub proof fn lemma_run_unsupported_opcode(
    classes: Seq<ClassView>,
    m: MachineView,
    max_depth: nat,
    steps: nat,
)
    requires
        steps > 0,
        spec_method_code(
            classes,
            m.current.class_index as int,
            m.current.method_index as int,
        ) matches Ok(code) && m.current.pc < code.code.len() && spec_operand_count(
            code.code[m.current.pc as int],
        ) is None,
    ensures
        spec_run(classes, m, max_depth, steps) == Err::<Option<Value>, VmError>(
            VmError::UnsupportedOpcode(
                spec_method_code(
                    classes,
                    m.current.class_index as int,
                    m.current.method_index as int,
                )->Ok_0.code[m.current.pc as int],
            ),
        ),
{
}

} // verus!
