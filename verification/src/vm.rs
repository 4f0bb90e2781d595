//! The virtual machine: the loaded classes, and an explicit stack of frames
//! on which methods run.

use vstd::prelude::*;

use crate::attr::{attrs_view, lemma_attrs_view, AttributeInfo};
use crate::class::format::spec_load;
use crate::class::loading::ClassFileLoader;
use crate::constant_pool::resolve_method_ref;
use crate::descriptor::argument_slots;
use crate::error::{ClassFormatError, VmError};
use crate::frame::{value_slots, Frame, FrameView, Value};
use crate::interp::{decode, execute, Action};
use crate::machine::{
    argument_values_slots, find_class, find_class_from, find_method, find_method_from, first_code,
    lookup, spec_add_class, spec_call, spec_invoke, spec_invoke_method, spec_machine_step,
    spec_method_code, spec_method_frame, spec_resolve_method, spec_return, spec_run, spec_start,
    CodeView, MachineStep, MachineView,
};
use crate::model::{
    class_views, method_views, spec_class, Class, ClassView, Method, Object,
};
use crate::util::text_eq;

verus! {

/// The depth of nested invocations that a new machine allows.
pub const DEFAULT_MAX_DEPTH: usize = 1024;

/// The number of steps that a new machine allows to one invocation.
pub const DEFAULT_STEP_LIMIT: u64 = 0xffff_ffff_ffff_ffff;

#[derive(Debug)]
pub struct VirtualMachine {
    /// The loaded classes. A class is found by its name; of two classes with
    /// one name the first is found.
    pub classes: Vec<Class>,
    pub objects: Vec<Object>,
    /// The frames of suspended callers, the outermost first. Between two
    /// invocations it is as it was before the first.
    pub frame_stack: Vec<Frame>,
    /// The number of frames that one chain of nested invocations may hold.
    pub max_depth: usize,
    /// The number of steps that one invocation may take.
    pub step_limit: u64,
}

/// The views of a list of frames, one by one.
pub open spec fn frame_views(frames: Seq<Frame>) -> Seq<FrameView> {
    Seq::new(frames.len(), |i: int| frames[i]@)
}

/// The class that `bytes` hold, as a model, or why they hold none.
pub open spec fn spec_load_class(bytes: Seq<u8>) -> Result<ClassView, ClassFormatError> {
    match spec_load(bytes) {
        Err(e) => Err(e),
        Ok(file) => spec_class(file),
    }
}

/// The code of a method: its two limits and its bytecode.
struct CodeRef<'a> {
    max_stack: u16,
    max_locals: u16,
    code: &'a Vec<u8>,
}

impl<'a> View for CodeRef<'a> {
    type V = CodeView;

    closed spec fn view(&self) -> CodeView {
        CodeView { max_stack: self.max_stack, max_locals: self.max_locals, code: self.code@ }
    }
}

/// Finds the first class with the name `name`.
pub fn class_index(classes: &Vec<Class>, name: &str) -> (r: Option<usize>)
    ensures
        match r {
            Some(i) => find_class(class_views(classes@), name@) == Some(i as int) && i
                < classes.len(),
            None => find_class(class_views(classes@), name@) is None,
        },
{
    let mut i: usize = 0;
    while i < classes.len()
        invariant
            i <= classes.len(),
            find_class(class_views(classes@), name@) == find_class_from(
                class_views(classes@),
                name@,
                i as int,
            ),
        decreases classes.len() - i,
    {
        if text_eq(classes[i].name.as_str(), name) {
            return Some(i);
        }
        i += 1;
    }
    None
}

/// Finds the first method with this name and descriptor.
pub fn method_index(methods: &Vec<Method>, name: &str, descriptor: &str) -> (r: Option<usize>)
    ensures
        match r {
            Some(i) => find_method(method_views(methods@), name@, descriptor@)
                == Some(i as int) && i < methods.len(),
            None => find_method(method_views(methods@), name@, descriptor@) is None,
        },
{
    let ghost views = method_views(methods@);
    let mut i: usize = 0;
    while i < methods.len()
        invariant
            i <= methods.len(),
            views == method_views(methods@),
            find_method(views, name@, descriptor@) == find_method_from(
                views,
                name@,
                descriptor@,
                i as int,
            ),
        decreases methods.len() - i,
    {
        if text_eq(methods[i].name.as_str(), name) && text_eq(
            methods[i].descriptor.as_str(),
            descriptor,
        ) {
            return Some(i);
        }
        i += 1;
    }
    None
}

/// Finds the method that an invocation of `name` with `descriptor` on the
/// class `class_name` runs: in that class or, where it has none, in the
/// nearest ancestor that has one.
pub fn resolve_method(classes: &Vec<Class>, class_name: &str, name: &str, descriptor: &str) -> (r:
    Option<(usize, usize)>)
    ensures
        match r {
            Some((c, m)) => spec_resolve_method(
                class_views(classes@),
                class_name@,
                name@,
                descriptor@,
            ) == Some((c as int, m as int)) && c < classes.len() && m < classes[c as int].methods.len(),
            None => spec_resolve_method(class_views(classes@), class_name@, name@, descriptor@)
                is None,
        },
{
    let ghost views = class_views(classes@);
    let mut steps: usize = classes.len();
    let mut current: &str = class_name;
    while steps > 0
        invariant
            views == class_views(classes@),
            spec_resolve_method(views, class_name@, name@, descriptor@) == lookup(
                views,
                current@,
                name@,
                descriptor@,
                steps as nat,
            ),
        decreases steps,
    {
        steps -= 1;
        let c = match class_index(classes, current) {
            None => {
                return None;
            },
            Some(c) => c,
        };
        match method_index(&classes[c].methods, name, descriptor) {
            Some(m) => {
                return Some((c, m));
            },
            None => {},
        }
        match &classes[c].super_class_name {
            None => {
                return None;
            },
            Some(super_class_name) => {
                current = super_class_name.as_str();
            },
        }
    }
    None
}

/// Finds the code of a method among its attributes.
fn method_code(method: &Method) -> (r: Option<CodeRef<'_>>)
    ensures
        match r {
            Some(code) => first_code(method@.attributes, 0) == Some(code@),
            None => first_code(method@.attributes, 0) is None,
        },
{
    let ghost views = attrs_view(method.attributes@);
    proof {
        lemma_attrs_view(method.attributes@);
    }
    let mut i: usize = 0;
    while i < method.attributes.len()
        invariant
            i <= method.attributes.len(),
            views == attrs_view(method.attributes@),
            views.len() == method.attributes@.len(),
            forall|k: int| 0 <= k < views.len() ==> (#[trigger] views[k]) == method.attributes@[k]@,
            first_code(views, 0) == first_code(views, i as int),
        decreases method.attributes.len() - i,
    {
        match &method.attributes[i] {
            AttributeInfo::Code { max_stack, max_locals, code, .. } => {
                assert(views[i as int] == method.attributes@[i as int]@);
                return Some(CodeRef { max_stack: *max_stack, max_locals: *max_locals, code });
            },
            _ => {
                assert(views[i as int] == method.attributes@[i as int]@);
            },
        }
        i += 1;
    }
    None
}

/// Finds the code of the method `method_index` of the class `class_index`.
fn code_of(classes: &Vec<Class>, class_index: usize, method_index: usize) -> (r: Result<
    CodeRef<'_>,
    VmError,
>)
    ensures
        match r {
            Ok(code) => spec_method_code(
                class_views(classes@),
                class_index as int,
                method_index as int,
            ) == Ok::<CodeView, VmError>(code@),
            Err(e) => spec_method_code(
                class_views(classes@),
                class_index as int,
                method_index as int,
            ) == Err::<CodeView, VmError>(e),
        },
{
    if class_index >= classes.len() || method_index >= classes[class_index].methods.len() {
        return Err(VmError::MethodNotFound);
    }
    match method_code(&classes[class_index].methods[method_index]) {
        None => Err(VmError::MissingCode),
        Some(code) => Ok(code),
    }
}

/// Makes the frame in which a method starts on the argument slots
/// `arguments`.
fn method_frame(
    classes: &Vec<Class>,
    class_index: usize,
    method_index: usize,
    arguments: &Vec<u32>,
) -> (r: Result<Frame, VmError>)
    ensures
        match r {
            Ok(frame) => spec_method_frame(
                class_views(classes@),
                class_index as int,
                method_index as int,
                arguments@,
            ) == Ok::<FrameView, VmError>(frame@),
            Err(e) => spec_method_frame(
                class_views(classes@),
                class_index as int,
                method_index as int,
                arguments@,
            ) == Err::<FrameView, VmError>(e),
        },
{
    let code = code_of(classes, class_index, method_index)?;
    Frame::new(class_index, method_index, code.max_stack, code.max_locals, arguments)
}

/// Makes the invocation that `caller` asks for through the pool entry
/// `method_ref`: takes the arguments off its stack and returns the frame of
/// the method.
fn call(classes: &Vec<Class>, caller: &mut Frame, method_ref: u16, receiver: bool) -> (r: Result<
    Frame,
    VmError,
>)
    ensures
        match r {
            Ok(callee) => spec_call(class_views(classes@), old(caller)@, method_ref, receiver)
                == Ok::<(FrameView, FrameView), VmError>((final(caller)@, callee@)),
            Err(e) => spec_call(class_views(classes@), old(caller)@, method_ref, receiver) == Err::<
                (FrameView, FrameView),
                VmError,
            >(e),
        },
{
    if caller.class_index >= classes.len() {
        return Err(VmError::MethodNotFound);
    }
    let pool = &classes[caller.class_index].constant_pool;
    let (class_name, name, descriptor) = match resolve_method_ref(pool, method_ref) {
        Err(e) => {
            return Err(VmError::UnresolvedReference(e));
        },
        Ok(resolved) => resolved,
    };
    let (class_index, method_index) = match resolve_method(classes, class_name, name, descriptor) {
        None => {
            return Err(VmError::MethodNotFound);
        },
        Some(found) => found,
    };
    let count = match argument_slots(descriptor) {
        None => {
            return Err(VmError::InvalidDescriptor);
        },
        Some(count) => count,
    };
    let total: usize = count as usize + if receiver {
        1
    } else {
        0
    };
    let held = caller.op_stack.len();
    if held < total {
        return Err(VmError::OperandStackUnderflow);
    }
    let first = held - total;
    let mut arguments: Vec<u32> = Vec::new();
    let mut i: usize = 0;
    while i < total
        invariant
            i <= total,
            first + total == held,
            held == caller.op_stack@.len(),
            arguments@ == caller.op_stack@.subrange(first as int, first + i),
        decreases total - i,
    {
        arguments.push(caller.op_stack[first + i]);
        i += 1;
    }
    let callee = method_frame(classes, class_index, method_index, &arguments)?;
    caller.op_stack.truncate(first);
    assert(caller.op_stack@ =~= old(caller).op_stack@.take(first as int));
    Ok(callee)
}

/// Takes the frames above `base` off the stack.
fn unwind(frames: &mut Vec<Frame>, base: usize)
    requires
        base <= old(frames)@.len(),
    ensures
        final(frames)@ == old(frames)@.take(base as int),
{
    frames.truncate(base);
}

/// Runs the machine from the frame `entry` until its method returns, a
/// fault occurs, or `step_limit` steps are taken. The frames of suspended
/// callers stand on `frames`, above what it held before; it is left as it
/// was.
#[verifier::loop_isolation(false)]
fn run(
    classes: &Vec<Class>,
    frames: &mut Vec<Frame>,
    entry: Frame,
    max_depth: usize,
    step_limit: u64,
) -> (r: Result<Option<Value>, VmError>)
    ensures
        final(frames)@ == old(frames)@,
        r == spec_run(
            class_views(classes@),
            MachineView { callers: Seq::empty(), current: entry@ },
            max_depth as nat,
            step_limit as nat,
        ),
{
    let ghost views = class_views(classes@);
    let ghost depth = max_depth as nat;
    let ghost start = MachineView { callers: Seq::<FrameView>::empty(), current: entry@ };
    let base = frames.len();
    let mut current = entry;
    let mut budget = step_limit;
    assert(frames@.take(base as int) =~= old(frames)@);
    assert(frame_views(frames@.skip(base as int)) =~= Seq::<FrameView>::empty());
    while budget > 0
        invariant
            base <= frames@.len(),
            base == old(frames)@.len(),
            frames@.take(base as int) == old(frames)@,
            spec_run(views, start, depth, step_limit as nat) == spec_run(
                views,
                MachineView {
                    callers: frame_views(frames@.skip(base as int)),
                    current: current@,
                },
                depth,
                budget as nat,
            ),
        decreases budget,
    {
        let ghost m = MachineView {
            callers: frame_views(frames@.skip(base as int)),
            current: current@,
        };
        let ghost before = frames@;
        budget -= 1;
        let code = match code_of(classes, current.class_index, current.method_index) {
            Err(e) => {
                unwind(frames, base);
                return Err(e);
            },
            Ok(code) => code,
        };
        let action = if current.pc >= code.code.len() {
            Action::Return(None)
        } else {
            let (instruction, next) = match decode(code.code, current.pc) {
                Err(e) => {
                    unwind(frames, base);
                    return Err(e);
                },
                Ok(decoded) => decoded,
            };
            match execute(&mut current, instruction, next) {
                Err(e) => {
                    unwind(frames, base);
                    return Err(e);
                },
                Ok(action) => action,
            }
        };
        match action {
            Action::Continue => {
                assert(spec_machine_step(views, m, depth) == MachineStep::Next(
                    MachineView { callers: m.callers, current: current@ },
                ));
            },
            Action::Return(value) => {
                assert(spec_machine_step(views, m, depth) == spec_return(m, value));
                if frames.len() == base {
                    return Ok(value);
                }
                let mut caller = frames.pop().unwrap();
                assert(caller@ == m.callers.last());
                assert(frame_views(frames@.skip(base as int)) =~= m.callers.drop_last());
                assert(frames@.take(base as int) =~= before.take(base as int));
                if let Some(v) = value {
                    match caller.push(v) {
                        Err(e) => {
                            unwind(frames, base);
                            assert(frames@ =~= before.take(base as int));
                            return Err(e);
                        },
                        Ok(()) => {},
                    }
                }
                current = caller;
            },
            Action::Invoke { method_ref, receiver } => {
                if max_depth == 0 || frames.len() - base >= max_depth - 1 {
                    unwind(frames, base);
                    return Err(VmError::FrameStackOverflow);
                }
                let callee = match call(classes, &mut current, method_ref, receiver) {
                    Err(e) => {
                        unwind(frames, base);
                        return Err(e);
                    },
                    Ok(callee) => callee,
                };
                let ghost suspended = current@;
                frames.push(current);
                assert(frame_views(frames@.skip(base as int)) =~= m.callers.push(suspended));
                assert(frames@.take(base as int) =~= before.take(base as int));
                current = callee;
            },
        }
    }
    unwind(frames, base);
    Err(VmError::StepLimitExceeded)
}

/// Writes the values `arguments` into slots, one value after the other.
fn argument_slots_of(arguments: &Vec<Value>) -> (r: Vec<u32>)
    ensures
        r@ == argument_values_slots(arguments@),
{
    let mut slots: Vec<u32> = Vec::new();
    let mut i: usize = 0;
    assert(arguments@.take(0) =~= Seq::<Value>::empty());
    while i < arguments.len()
        invariant
            i <= arguments.len(),
            slots@ == argument_values_slots(arguments@.take(i as int)),
        decreases arguments.len() - i,
    {
        let ghost before = slots@;
        let value = arguments[i];
        let (first, second) = value.to_slots();
        slots.push(first);
        if value.kind().width() == 2 {
            slots.push(second);
        }
        assert(arguments@.take(i + 1).drop_last() =~= arguments@.take(i as int));
        assert(slots@ =~= before + value_slots(value));
        i += 1;
    }
    assert(arguments@.take(arguments@.len() as int) =~= arguments@);
    slots
}

impl VirtualMachine {
    /// True when the machine differs from `before` in nothing.
    pub open spec fn unchanged(&self, before: &VirtualMachine) -> bool {
        &&& self.classes == before.classes
        &&& self.objects == before.objects
        &&& self.frame_stack@ == before.frame_stack@
        &&& self.max_depth == before.max_depth
        &&& self.step_limit == before.step_limit
    }

    pub fn new(classes: Vec<Class>) -> (vm: VirtualMachine)
        ensures
            vm.classes == classes,
            vm.objects@.len() == 0,
            vm.frame_stack@.len() == 0,
            vm.max_depth == DEFAULT_MAX_DEPTH,
            vm.step_limit == DEFAULT_STEP_LIMIT,
    {
        VirtualMachine {
            classes,
            objects: Vec::new(),
            frame_stack: Vec::new(),
            max_depth: DEFAULT_MAX_DEPTH,
            step_limit: DEFAULT_STEP_LIMIT,
        }
    }

    /// Loads the class that `bytes` hold. It takes the place of the first
    /// loaded class of its name, or comes last where there is none. Where
    /// the bytes hold no class, the machine stays as it is.
    pub fn load_class(&mut self, bytes: Vec<u8>) -> (r: Result<(), ClassFormatError>)
        ensures
            match spec_load_class(bytes@) {
                Err(e) => r == Err::<(), ClassFormatError>(e) && final(self).unchanged(old(self)),
                Ok(class) => {
                    &&& r == Ok::<(), ClassFormatError>(())
                    &&& class_views(final(self).classes@) == spec_add_class(
                        class_views(old(self).classes@),
                        class,
                    )
                    &&& final(self).objects == old(self).objects
                    &&& final(self).frame_stack@ == old(self).frame_stack@
                    &&& final(self).max_depth == old(self).max_depth
                    &&& final(self).step_limit == old(self).step_limit
                },
            },
    {
        let class_file = ClassFileLoader::new(bytes).load()?;
        let class = Class::from_class_file(class_file)?;
        let ghost view = class@;
        let ghost before = class_views(self.classes@);
        match class_index(&self.classes, class.name.as_str()) {
            Some(i) => {
                self.classes.set(i, class);
                assert(class_views(self.classes@) =~= before.update(i as int, view));
            },
            None => {
                self.classes.push(class);
                assert(class_views(self.classes@) =~= before.push(view));
            },
        }
        Ok(())
    }

    /// Runs the method `method_index` of the class `class_index` on
    /// `arguments`, which become its first local variables. Returns what the
    /// method returns, or the fault that ended it. Either way the machine is
    /// afterwards as it was before.
    pub fn invoke_method(
        &mut self,
        class_index: usize,
        method_index: usize,
        arguments: Vec<Value>,
    ) -> (r: Result<Option<Value>, VmError>)
        ensures
            final(self).unchanged(old(self)),
            r == spec_invoke_method(
                class_views(old(self).classes@),
                class_index as int,
                method_index as int,
                arguments@,
                old(self).max_depth as nat,
                old(self).step_limit as nat,
            ),
    {
        let slots = argument_slots_of(&arguments);
        let entry = method_frame(&self.classes, class_index, method_index, &slots)?;
        run(&self.classes, &mut self.frame_stack, entry, self.max_depth, self.step_limit)
    }

    /// Invokes the method `method_name` with `descriptor` on the class
    /// `class_name`: the method of that name and descriptor in the class or
    /// in the nearest ancestor that has one is run on `arguments`. Either way
    /// the machine is afterwards as it was before.
    pub fn invoke(
        &mut self,
        class_name: &str,
        method_name: &str,
        descriptor: &str,
        arguments: Vec<Value>,
    ) -> (r: Result<Option<Value>, VmError>)
        ensures
            final(self).unchanged(old(self)),
            r == spec_invoke(
                class_views(old(self).classes@),
                class_name@,
                method_name@,
                descriptor@,
                arguments@,
                old(self).max_depth as nat,
                old(self).step_limit as nat,
            ),
    {
        match resolve_method(&self.classes, class_name, method_name, descriptor) {
            None => Err(VmError::MethodNotFound),
            Some((class_index, method_index)) => self.invoke_method(
                class_index,
                method_index,
                arguments,
            ),
        }
    }

    /// Starts the program: runs the method `main` of the first class.
    pub fn start(&mut self) -> (r: Result<Option<Value>, VmError>)
        ensures
            final(self).unchanged(old(self)),
            r == spec_start(
                class_views(old(self).classes@),
                old(self).max_depth as nat,
                old(self).step_limit as nat,
            ),
    {
        if self.classes.len() == 0 {
            return Err(VmError::MethodNotFound);
        }
        match method_index(&self.classes[0].methods, "main", "([Ljava/lang/String;)V") {
            None => Err(VmError::MethodNotFound),
            Some(method_index) => self.invoke_method(0, method_index, Vec::new()),
        }
    }
}

} // verus!
