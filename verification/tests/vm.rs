use jvmmy::attr::AttributeInfo;
use jvmmy::constant_pool::ConstantPoolInfo;
use jvmmy::error::{ClassFormatError, ConstantKind, VmError};
use jvmmy::frame::Value;
use jvmmy::model::{Class, Method};
use jvmmy::vm::{
    class_index, method_index, resolve_method, VirtualMachine, DEFAULT_MAX_DEPTH,
    DEFAULT_STEP_LIMIT,
};

fn utf8(text: &str) -> ConstantPoolInfo {
    ConstantPoolInfo::Utf8 { string: text.to_string() }
}

fn method(name: &str, descriptor: &str, max_stack: u16, max_locals: u16, code: &[u8]) -> Method {
    Method {
        name: name.to_string(),
        descriptor: descriptor.to_string(),
        class_name: String::new(),
        attributes: vec![AttributeInfo::Code {
            max_stack,
            max_locals,
            code: code.to_vec(),
            exception_tables: vec![],
            attributes: vec![],
        }],
    }
}

fn class(
    name: &str,
    super_class_name: Option<&str>,
    mut methods: Vec<Method>,
    constant_pool: Vec<ConstantPoolInfo>,
) -> Class {
    for m in methods.iter_mut() {
        m.class_name = name.to_string();
    }
    Class {
        name: name.to_string(),
        super_class_name: super_class_name.map(|s| s.to_string()),
        methods,
        constant_pool,
    }
}

/// A pool in which entry `3 + 4 k` is a reference to the `k`-th method of
/// `methods` (class, name, descriptor): #1 is the name of a Long, to be no
/// text; #2 is unused.
fn pool_of(methods: &[(&str, &str, &str)]) -> Vec<ConstantPoolInfo> {
    let mut pool = vec![ConstantPoolInfo::Long { high_bytes: 0, low_bytes: 0 }, ConstantPoolInfo::Unusable];
    for (class, name, descriptor) in methods {
        let base = pool.len() as u16 + 1;
        // base: MethodRef, +1: Class, +2: NameAndType, +3.. texts
        pool.push(ConstantPoolInfo::MethodRef {
            class_index: base + 1,
            name_and_type_index: base + 2,
        });
        pool.push(ConstantPoolInfo::Class { name_index: base + 3 });
        pool.push(ConstantPoolInfo::NameAndType {
            name_index: base + 4,
            descriptor_index: base + 5,
        });
        pool.push(utf8(class));
        pool.push(utf8(name));
        pool.push(utf8(descriptor));
    }
    pool
}

fn machine(classes: Vec<Class>) -> VirtualMachine {
    VirtualMachine::new(classes)
}

fn single(m: Method) -> VirtualMachine {
    machine(vec![class("Main", None, vec![m], vec![])])
}

#[test]
fn new_machine_has_the_default_limits() {
    let vm = machine(vec![]);
    assert!(vm.classes.is_empty());
    assert!(vm.objects.is_empty());
    assert!(vm.frame_stack.is_empty());
    assert_eq!(vm.max_depth, DEFAULT_MAX_DEPTH);
    assert_eq!(vm.step_limit, DEFAULT_STEP_LIMIT);
    assert_eq!(DEFAULT_MAX_DEPTH, 1024);
    assert_eq!(DEFAULT_STEP_LIMIT, u64::MAX);
}

#[test]
fn two_pushes_a_duplicate_and_a_return_run_to_completion() {
    let mut vm = single(method("run", "()V", 3, 0, &[0x05, 0x03, 0x59, 0xb1]));
    assert_eq!(vm.invoke("Main", "run", "()V", vec![]), Ok(None));
    assert!(vm.frame_stack.is_empty());
    // with room for two slots only, the duplicate overflows
    let mut vm = single(method("run", "()V", 2, 0, &[0x05, 0x03, 0x59, 0xb1]));
    assert_eq!(vm.invoke("Main", "run", "()V", vec![]), Err(VmError::OperandStackOverflow));
}

#[test]
fn iconst_0_pushes_zero() {
    let mut vm = single(method("zero", "()I", 1, 0, &[0x03, 0xac]));
    assert_eq!(vm.invoke("Main", "zero", "()I", vec![]), Ok(Some(Value::Int(0))));
    let mut vm = single(method("two", "()I", 1, 0, &[0x05, 0xac]));
    assert_eq!(vm.invoke("Main", "two", "()I", vec![]), Ok(Some(Value::Int(2))));
}

#[test]
fn unsupported_opcode_is_a_fault() {
    let mut vm = machine(vec![class(
        "Main",
        None,
        vec![
            method("good", "()I", 1, 0, &[0x08, 0xac]),
            method("bad", "()V", 1, 0, &[0x04, 0xff, 0xb1]),
        ],
        vec![],
    )]);
    assert_eq!(vm.invoke("Main", "good", "()I", vec![]), Ok(Some(Value::Int(5))));
    assert_eq!(vm.invoke("Main", "bad", "()V", vec![]), Err(VmError::UnsupportedOpcode(0xff)));
    assert!(vm.frame_stack.is_empty());
    assert_eq!(vm.classes.len(), 1);
    // the machine is of use as before
    assert_eq!(vm.invoke("Main", "good", "()I", vec![]), Ok(Some(Value::Int(5))));
}

#[test]
fn unsupported_opcode_in_a_callee_unwinds_the_whole_chain() {
    let pool = pool_of(&[("Main", "bad", "()V")]);
    let mut vm = machine(vec![class(
        "Main",
        None,
        vec![
            method("outer", "()V", 1, 0, &[0x04, 0xb8, 0x00, 0x03, 0xb1]),
            method("bad", "()V", 1, 0, &[0xca]),
        ],
        pool,
    )]);
    assert_eq!(vm.invoke("Main", "outer", "()V", vec![]), Err(VmError::UnsupportedOpcode(0xca)));
    assert!(vm.frame_stack.is_empty());
}

#[test]
fn frames_that_were_on_the_stack_stay_there() {
    let mut vm = single(method("bad", "()V", 1, 0, &[0xff]));
    let waiting = jvmmy::frame::Frame::new(7, 7, 1, 1, &vec![42]).unwrap();
    vm.frame_stack.push(waiting);
    assert_eq!(vm.invoke("Main", "bad", "()V", vec![]), Err(VmError::UnsupportedOpcode(0xff)));
    assert_eq!(vm.frame_stack.len(), 1);
    assert_eq!(vm.frame_stack[0].local_vars, vec![42]);
    assert_eq!(vm.frame_stack[0].class_index, 7);
}

#[test]
fn method_absent_from_class_and_ancestors_is_not_found() {
    let mut vm = machine(vec![
        class("A", None, vec![method("a", "()V", 0, 0, &[0xb1])], vec![]),
        class("B", Some("A"), vec![method("b", "()V", 0, 0, &[0xb1])], vec![]),
    ]);
    assert_eq!(vm.invoke("B", "c", "()V", vec![]), Err(VmError::MethodNotFound));
    // the name is there, the descriptor is another
    assert_eq!(vm.invoke("B", "a", "(I)V", vec![]), Err(VmError::MethodNotFound));
    // a method of a descendant is not one of the class
    assert_eq!(vm.invoke("A", "b", "()V", vec![]), Err(VmError::MethodNotFound));
    // a class that is not loaded has no methods
    assert_eq!(vm.invoke("C", "a", "()V", vec![]), Err(VmError::MethodNotFound));
    assert_eq!(vm.invoke("B", "b", "()V", vec![]), Ok(None));
}

#[test]
fn lookup_walks_up_the_superclasses() {
    let classes = vec![
        class(
            "A",
            Some("java/lang/Object"),
            vec![method("m", "()I", 1, 0, &[0x04, 0xac]), method("n", "()I", 1, 0, &[0x05, 0xac])],
            vec![],
        ),
        class("B", Some("A"), vec![method("n", "()I", 1, 0, &[0x06, 0xac])], vec![]),
        class("C", Some("B"), vec![], vec![]),
    ];
    assert_eq!(resolve_method(&classes, "C", "m", "()I"), Some((0, 0)));
    assert_eq!(resolve_method(&classes, "C", "n", "()I"), Some((1, 0)));
    assert_eq!(resolve_method(&classes, "A", "n", "()I"), Some((0, 1)));
    assert_eq!(resolve_method(&classes, "C", "o", "()I"), None);
    assert_eq!(resolve_method(&classes, "java/lang/Object", "m", "()I"), None);
    let mut vm = machine(classes);
    assert_eq!(vm.invoke("C", "m", "()I", vec![]), Ok(Some(Value::Int(1))));
    assert_eq!(vm.invoke("C", "n", "()I", vec![]), Ok(Some(Value::Int(3))));
    assert_eq!(vm.invoke("A", "n", "()I", vec![]), Ok(Some(Value::Int(2))));
}

#[test]
fn lookup_in_a_circle_of_superclasses_ends() {
    let classes = vec![
        class("A", Some("B"), vec![], vec![]),
        class("B", Some("A"), vec![method("m", "()V", 0, 0, &[0xb1])], vec![]),
    ];
    assert_eq!(resolve_method(&classes, "A", "m", "()V"), Some((1, 0)));
    assert_eq!(resolve_method(&classes, "A", "x", "()V"), None);
    assert_eq!(resolve_method(&classes, "B", "x", "()V"), None);
}

#[test]
fn the_first_class_and_method_of_a_name_are_found() {
    let classes = vec![
        class("A", None, vec![method("m", "()V", 0, 0, &[]), method("m", "()V", 0, 0, &[])], vec![]),
        class("A", None, vec![method("other", "()V", 0, 0, &[])], vec![]),
    ];
    assert_eq!(class_index(&classes, "A"), Some(0));
    assert_eq!(class_index(&classes, "B"), None);
    assert_eq!(method_index(&classes[0].methods, "m", "()V"), Some(0));
    assert_eq!(method_index(&classes[0].methods, "m", "()I"), None);
    assert_eq!(resolve_method(&classes, "A", "other", "()V"), None);
}

#[test]
fn arguments_are_the_first_local_variables() {
    // iload_0, iload_1, isub, ireturn
    let mut vm = single(method("sub", "(II)I", 2, 2, &[0x1a, 0x1b, 0x64, 0xac]));
    assert_eq!(
        vm.invoke("Main", "sub", "(II)I", vec![Value::Int(10), Value::Int(3)]),
        Ok(Some(Value::Int(7)))
    );
    // lload_1, lreturn: the long comes after the int
    let mut vm = single(method("second", "(IJ)J", 2, 3, &[0x1f, 0xad]));
    assert_eq!(
        vm.invoke("Main", "second", "(IJ)J", vec![Value::Int(1), Value::Long(-5)]),
        Ok(Some(Value::Long(-5)))
    );
    // more arguments than local variables
    assert_eq!(
        vm.invoke("Main", "second", "(IJ)J", vec![Value::Long(1), Value::Long(2)]),
        Err(VmError::LocalVariableOutOfBounds)
    );
}

#[test]
fn static_invocation_passes_arguments_and_the_result() {
    let pool = pool_of(&[("Main", "add", "(II)I")]);
    // iconst_2, iconst_3, invokestatic #3, ireturn
    let main = method("main", "()I", 2, 0, &[0x05, 0x06, 0xb8, 0x00, 0x03, 0xac]);
    // iload_0, iload_1, iadd, ireturn
    let add = method("add", "(II)I", 2, 2, &[0x1a, 0x1b, 0x60, 0xac]);
    let mut vm = machine(vec![class("Main", None, vec![main, add], pool)]);
    assert_eq!(vm.invoke("Main", "main", "()I", vec![]), Ok(Some(Value::Int(5))));
    assert!(vm.frame_stack.is_empty());
}

#[test]
fn invocation_with_a_receiver_passes_one_slot_more() {
    let pool = pool_of(&[("Main", "second", "(I)I")]);
    // aconst_null, bipush 9, invokevirtual #3, ireturn
    let main = method("main", "()I", 2, 0, &[0x01, 0x10, 0x09, 0xb6, 0x00, 0x03, 0xac]);
    // iload_1, ireturn
    let second = method("second", "(I)I", 1, 2, &[0x1b, 0xac]);
    let mut vm = machine(vec![class("Main", None, vec![main, second], pool)]);
    assert_eq!(vm.invoke("Main", "main", "()I", vec![]), Ok(Some(Value::Int(9))));
    // without the receiver on the stack there are too few slots
    let main = method("main", "()I", 2, 0, &[0x10, 0x09, 0xb7, 0x00, 0x03, 0xac]);
    let second = method("second", "(I)I", 1, 2, &[0x1b, 0xac]);
    let pool = pool_of(&[("Main", "second", "(I)I")]);
    let mut vm = machine(vec![class("Main", None, vec![main, second], pool)]);
    assert_eq!(vm.invoke("Main", "main", "()I", vec![]), Err(VmError::OperandStackUnderflow));
}

#[test]
fn invocation_resolves_through_the_superclass() {
    let pool = pool_of(&[("B", "value", "()I")]);
    // invokestatic #3, ireturn
    let main = method("main", "()I", 1, 0, &[0xb8, 0x00, 0x03, 0xac]);
    let mut vm = machine(vec![
        class("Main", None, vec![main], pool),
        class("A", None, vec![method("value", "()I", 1, 0, &[0x07, 0xac])], vec![]),
        class("B", Some("A"), vec![], vec![]),
    ]);
    assert_eq!(vm.invoke("Main", "main", "()I", vec![]), Ok(Some(Value::Int(4))));
}

#[test]
fn invocation_faults() {
    let pool = pool_of(&[
        ("Main", "missing", "()V"),
        ("Main", "odd", "(Q)V"),
        ("Main", "bare", "()V"),
        ("Main", "big", "(I)V"),
    ]);
    let call = |index: u8| vec![0x04, 0xb8, 0x00, index, 0xb1];
    let bare = Method {
        name: "bare".to_string(),
        descriptor: "()V".to_string(),
        class_name: "Main".to_string(),
        attributes: vec![AttributeInfo::SourceFile { sourcefile_index: 1 }],
    };
    let mut vm = machine(vec![class(
        "Main",
        None,
        vec![
            method("a", "()V", 1, 0, &call(3)),
            method("b", "()V", 1, 0, &call(9)),
            method("c", "()V", 1, 0, &call(15)),
            method("d", "()V", 1, 0, &call(21)),
            method("e", "()V", 1, 0, &call(4)),
            method("f", "()V", 1, 0, &call(1)),
            method("odd", "(Q)V", 0, 0, &[0xb1]),
            bare,
            method("big", "(I)V", 0, 0, &[0xb1]),
        ],
        pool,
    )]);
    assert_eq!(vm.invoke("Main", "a", "()V", vec![]), Err(VmError::MethodNotFound));
    assert_eq!(vm.invoke("Main", "b", "()V", vec![]), Err(VmError::InvalidDescriptor));
    assert_eq!(vm.invoke("Main", "c", "()V", vec![]), Err(VmError::MissingCode));
    // the callee has no local variable for its argument
    assert_eq!(vm.invoke("Main", "d", "()V", vec![]), Err(VmError::LocalVariableOutOfBounds));
    assert_eq!(
        vm.invoke("Main", "e", "()V", vec![]),
        Err(VmError::UnresolvedReference(ClassFormatError::ConstantPoolTypeMismatch {
            expected: ConstantKind::MethodRef,
            index: 4
        }))
    );
    assert_eq!(
        vm.invoke("Main", "f", "()V", vec![]),
        Err(VmError::UnresolvedReference(ClassFormatError::ConstantPoolTypeMismatch {
            expected: ConstantKind::MethodRef,
            index: 1
        }))
    );
    assert_eq!(vm.invoke("Main", "bare", "()V", vec![]), Err(VmError::MissingCode));
    assert!(vm.frame_stack.is_empty());
}

#[test]
fn a_returned_value_needs_room_on_the_callers_stack() {
    let pool = pool_of(&[("Main", "one", "()I")]);
    // invokestatic #3, return
    let main = method("main", "()V", 0, 0, &[0xb8, 0x00, 0x03, 0xb1]);
    let one = method("one", "()I", 1, 0, &[0x04, 0xac]);
    let mut vm = machine(vec![class("Main", None, vec![main, one], pool)]);
    assert_eq!(vm.invoke("Main", "main", "()V", vec![]), Err(VmError::OperandStackOverflow));
    assert!(vm.frame_stack.is_empty());
}

#[test]
fn a_loop_counts_down() {
    // 0: bipush 10  2: istore_0  3: iload_0  4: ifeq 13  7: iinc 0 -1
    // 10: goto 3  13: iload_0  14: ireturn
    let code = [
        0x10, 10, 0x3b, 0x1a, 0x99, 0x00, 0x09, 0x84, 0x00, 0xff, 0xa7, 0xff, 0xf9, 0x1a, 0xac,
    ];
    let mut vm = single(method("count", "()I", 1, 1, &code));
    assert_eq!(vm.invoke("Main", "count", "()I", vec![]), Ok(Some(Value::Int(0))));
    // 2 steps, then 4 for each of the 10 rounds, then 2, then the return's 2
    vm.step_limit = 46;
    assert_eq!(vm.invoke("Main", "count", "()I", vec![]), Ok(Some(Value::Int(0))));
    vm.step_limit = 45;
    assert_eq!(vm.invoke("Main", "count", "()I", vec![]), Err(VmError::StepLimitExceeded));
}

#[test]
fn an_endless_loop_meets_the_step_limit() {
    let mut vm = single(method("spin", "()V", 0, 0, &[0xa7, 0x00, 0x00]));
    vm.step_limit = 1000;
    assert_eq!(vm.invoke("Main", "spin", "()V", vec![]), Err(VmError::StepLimitExceeded));
    vm.step_limit = 0;
    assert_eq!(vm.invoke("Main", "spin", "()V", vec![]), Err(VmError::StepLimitExceeded));
    assert!(vm.frame_stack.is_empty());
}

#[test]
fn endless_recursion_meets_the_depth_limit() {
    let pool = pool_of(&[("Main", "again", "()V")]);
    let again = method("again", "()V", 0, 0, &[0xb8, 0x00, 0x03, 0xb1]);
    let mut vm = machine(vec![class("Main", None, vec![again], pool)]);
    assert_eq!(vm.invoke("Main", "again", "()V", vec![]), Err(VmError::FrameStackOverflow));
    assert!(vm.frame_stack.is_empty());
    vm.max_depth = 1;
    assert_eq!(vm.invoke("Main", "again", "()V", vec![]), Err(VmError::FrameStackOverflow));
    vm.max_depth = 0;
    assert_eq!(vm.invoke("Main", "again", "()V", vec![]), Err(VmError::FrameStackOverflow));
}

#[test]
fn recursion_within_the_depth_limit_returns() {
    let pool = pool_of(&[("Main", "down", "(I)I")]);
    // 0: iload_0  1: ifeq 12  4: iinc 0 -1  7: iload_0  8: invokestatic #3
    // 11: ireturn  12: bipush 77  14: ireturn
    let code = [
        0x1a, 0x99, 0x00, 0x0b, 0x84, 0x00, 0xff, 0x1a, 0xb8, 0x00, 0x03, 0xac, 0x10, 77, 0xac,
    ];
    let mut vm = machine(vec![class("Main", None, vec![method("down", "(I)I", 1, 1, &code)], pool)]);
    vm.max_depth = 6;
    assert_eq!(vm.invoke("Main", "down", "(I)I", vec![Value::Int(5)]), Ok(Some(Value::Int(77))));
    assert_eq!(
        vm.invoke("Main", "down", "(I)I", vec![Value::Int(6)]),
        Err(VmError::FrameStackOverflow)
    );
}

#[test]
fn code_that_ends_without_a_return_returns_nothing() {
    let mut vm = single(method("run", "()V", 1, 0, &[0x04]));
    assert_eq!(vm.invoke("Main", "run", "()V", vec![]), Ok(None));
    let mut vm = single(method("run", "()V", 0, 0, &[]));
    assert_eq!(vm.invoke("Main", "run", "()V", vec![]), Ok(None));
}

#[test]
fn long_arithmetic_runs() {
    // lconst_1, lconst_1, ladd, lstore_0, lload_0, lconst_1, lsub, lreturn
    let code = [0x0a, 0x0a, 0x61, 0x3f, 0x1e, 0x0a, 0x65, 0xad];
    let mut vm = single(method("run", "()J", 4, 2, &code));
    assert_eq!(vm.invoke("Main", "run", "()J", vec![]), Ok(Some(Value::Long(1))));
}

#[test]
fn invoke_method_runs_a_method_by_its_indices() {
    let mut vm = machine(vec![class(
        "Main",
        None,
        vec![method("a", "()I", 1, 0, &[0x04, 0xac]), method("b", "()I", 1, 0, &[0x05, 0xac])],
        vec![],
    )]);
    assert_eq!(vm.invoke_method(0, 1, vec![]), Ok(Some(Value::Int(2))));
    assert_eq!(vm.invoke_method(0, 2, vec![]), Err(VmError::MethodNotFound));
    assert_eq!(vm.invoke_method(1, 0, vec![]), Err(VmError::MethodNotFound));
}

#[test]
fn start_runs_main_of_the_first_class() {
    let main = method("main", "([Ljava/lang/String;)V", 1, 1, &[0x2a, 0x57, 0xb1]);
    let mut vm = machine(vec![class("Main", None, vec![method("other", "()V", 0, 0, &[]), main], vec![])]);
    assert_eq!(vm.start(), Ok(None));
    let mut vm = machine(vec![
        class("Other", None, vec![method("main", "()V", 0, 0, &[])], vec![]),
        class("Main", None, vec![method("main", "([Ljava/lang/String;)V", 0, 0, &[])], vec![]),
    ]);
    assert_eq!(vm.start(), Err(VmError::MethodNotFound));
    let mut vm = machine(vec![]);
    assert_eq!(vm.start(), Err(VmError::MethodNotFound));
    let mut vm = single(method("main", "([Ljava/lang/String;)V", 0, 0, &[0xff]));
    assert_eq!(vm.start(), Err(VmError::UnsupportedOpcode(0xff)));
}

fn put_u16(bytes: &mut Vec<u8>, v: u16) {
    bytes.push((v >> 8) as u8);
    bytes.push(v as u8);
}

/// The bytes of a class `name` with the superclass `java/lang/Object` and one
/// method `value()I` that returns `result` (0 to 5).
fn class_bytes(name: &str, result: u8) -> Vec<u8> {
    let mut bytes = vec![0xca, 0xfe, 0xba, 0xbe, 0, 0, 0, 61];
    put_u16(&mut bytes, 8);
    for text in [name, "java/lang/Object", "value", "()I", "Code"] {
        bytes.push(1);
        put_u16(&mut bytes, text.len() as u16);
        bytes.extend_from_slice(text.as_bytes());
    }
    bytes.extend_from_slice(&[7, 0, 1, 7, 0, 2]); // #6 Class #1, #7 Class #2
    put_u16(&mut bytes, 0x0021);
    put_u16(&mut bytes, 6);
    put_u16(&mut bytes, 7);
    put_u16(&mut bytes, 0); // interfaces
    put_u16(&mut bytes, 0); // fields
    put_u16(&mut bytes, 1); // methods
    put_u16(&mut bytes, 0x0009);
    put_u16(&mut bytes, 3);
    put_u16(&mut bytes, 4);
    put_u16(&mut bytes, 1);
    put_u16(&mut bytes, 5);
    bytes.extend_from_slice(&[0, 0, 0, 14]);
    put_u16(&mut bytes, 1);
    put_u16(&mut bytes, 0);
    bytes.extend_from_slice(&[0, 0, 0, 2, 0x03 + result, 0xac]);
    put_u16(&mut bytes, 0);
    put_u16(&mut bytes, 0);
    put_u16(&mut bytes, 0); // attributes
    bytes
}

#[test]
fn load_class_adds_a_class() {
    let mut vm = machine(vec![]);
    assert_eq!(vm.load_class(class_bytes("One", 1)), Ok(()));
    assert_eq!(vm.load_class(class_bytes("Two", 2)), Ok(()));
    assert_eq!(vm.classes.len(), 2);
    assert_eq!(vm.classes[0].name, "One");
    assert_eq!(vm.classes[1].name, "Two");
    assert_eq!(vm.classes[1].super_class_name, Some("java/lang/Object".to_string()));
    assert_eq!(vm.invoke("One", "value", "()I", vec![]), Ok(Some(Value::Int(1))));
    assert_eq!(vm.invoke("Two", "value", "()I", vec![]), Ok(Some(Value::Int(2))));
}

#[test]
fn load_class_replaces_a_class_of_the_same_name() {
    let mut vm = machine(vec![]);
    assert_eq!(vm.load_class(class_bytes("One", 1)), Ok(()));
    assert_eq!(vm.load_class(class_bytes("Two", 2)), Ok(()));
    assert_eq!(vm.load_class(class_bytes("One", 5)), Ok(()));
    assert_eq!(vm.classes.len(), 2);
    assert_eq!(vm.classes[0].name, "One");
    assert_eq!(vm.invoke("One", "value", "()I", vec![]), Ok(Some(Value::Int(5))));
    assert_eq!(vm.invoke("Two", "value", "()I", vec![]), Ok(Some(Value::Int(2))));
}

#[test]
fn load_class_of_bad_bytes_leaves_the_machine_alone() {
    let mut vm = machine(vec![]);
    assert_eq!(vm.load_class(class_bytes("One", 1)), Ok(()));
    let mut cut = class_bytes("Two", 2);
    cut.pop();
    assert_eq!(vm.load_class(cut), Err(ClassFormatError::UnexpectedEof));
    assert_eq!(vm.load_class(vec![1, 2, 3, 4]), Err(ClassFormatError::InvalidMagic));
    assert_eq!(vm.classes.len(), 1);
    assert_eq!(vm.invoke("One", "value", "()I", vec![]), Ok(Some(Value::Int(1))));
}
