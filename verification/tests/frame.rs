use jvmmy::error::VmError;
use jvmmy::frame::{Frame, Value, VariableType};

fn frame(max_stack: u16, max_locals: u16) -> Frame {
    Frame::new(0, 0, max_stack, max_locals, &vec![]).unwrap()
}

#[test]
fn new_frame_is_empty() {
    let frame = Frame::new(3, 4, 2, 5, &vec![7, 8]).unwrap();
    assert_eq!(frame.local_vars, vec![7, 8, 0, 0, 0]);
    assert!(frame.op_stack.is_empty());
    assert_eq!(frame.max_stack, 2);
    assert_eq!(frame.pc, 0);
    assert_eq!(frame.class_index, 3);
    assert_eq!(frame.method_index, 4);
}

#[test]
fn new_frame_needs_room_for_its_arguments() {
    assert!(Frame::new(0, 0, 1, 2, &vec![1, 2]).is_ok());
    assert_eq!(
        Frame::new(0, 0, 1, 2, &vec![1, 2, 3]).unwrap_err(),
        VmError::LocalVariableOutOfBounds
    );
    assert_eq!(Frame::new(0, 0, 1, 0, &vec![1]).unwrap_err(), VmError::LocalVariableOutOfBounds);
}

#[test]
fn push_beyond_max_stack_overflows() {
    let mut frame = frame(2, 0);
    assert_eq!(frame.push(Value::Int(1)), Ok(()));
    assert_eq!(frame.push(Value::Int(2)), Ok(()));
    assert_eq!(frame.push(Value::Int(3)), Err(VmError::OperandStackOverflow));
    assert_eq!(frame.op_stack, vec![1, 2]);
}

#[test]
fn push_on_a_frame_without_stack_overflows() {
    let mut frame = frame(0, 1);
    assert_eq!(frame.push(Value::Reference(0)), Err(VmError::OperandStackOverflow));
    assert!(frame.op_stack.is_empty());
}

#[test]
fn pop_of_an_empty_stack_underflows() {
    let mut frame = frame(2, 0);
    assert_eq!(frame.pop(VariableType::Int), Err(VmError::OperandStackUnderflow));
    assert_eq!(frame.pop(VariableType::Reference), Err(VmError::OperandStackUnderflow));
    assert_eq!(frame.pop(VariableType::Long), Err(VmError::OperandStackUnderflow));
}

#[test]
fn a_long_takes_two_slots() {
    let mut frame = frame(3, 0);
    assert_eq!(frame.push(Value::Int(1)), Ok(()));
    assert_eq!(frame.push(Value::Long(0x1122334455667788)), Ok(()));
    assert_eq!(frame.op_stack, vec![1, 0x11223344, 0x55667788]);
    assert_eq!(frame.push(Value::Int(2)), Err(VmError::OperandStackOverflow));
    assert_eq!(frame.pop(VariableType::Long), Ok(Value::Long(0x1122334455667788)));
    assert_eq!(frame.op_stack, vec![1]);
    // one slot is left: a long does not fit, in either direction
    assert_eq!(frame.pop(VariableType::Long), Err(VmError::OperandStackUnderflow));
    assert_eq!(frame.op_stack, vec![1]);
    assert_eq!(frame.pop(VariableType::Int), Ok(Value::Int(1)));
    assert_eq!(frame.push(Value::Long(1)), Ok(()));
    assert_eq!(frame.push(Value::Long(1)), Err(VmError::OperandStackOverflow));
}

#[test]
fn values_come_back_as_they_went_in() {
    let values = [
        Value::Int(0),
        Value::Int(-1),
        Value::Int(i32::MIN),
        Value::Int(i32::MAX),
        Value::Long(0),
        Value::Long(-1),
        Value::Long(i64::MIN),
        Value::Long(i64::MAX),
        Value::Long(0x1_0000_0000),
        Value::Reference(0),
        Value::Reference(u32::MAX),
    ];
    for value in values {
        let mut frame = frame(2, 2);
        assert_eq!(frame.push(value), Ok(()));
        assert_eq!(frame.pop(value.kind()), Ok(value));
        assert!(frame.op_stack.is_empty());
        assert_eq!(frame.store_local(0, value), Ok(()));
        assert_eq!(frame.load_local(value.kind(), 0), Ok(value));
    }
}

#[test]
fn slots_are_twos_complement() {
    assert_eq!(Value::Int(-1).to_slots().0, 0xffff_ffff);
    assert_eq!(Value::Int(i32::MIN).to_slots().0, 0x8000_0000);
    assert_eq!(Value::Long(-2).to_slots(), (0xffff_ffff, 0xffff_fffe));
    assert_eq!(Value::Long(i64::MIN).to_slots(), (0x8000_0000, 0));
    assert_eq!(Value::Reference(9).to_slots().0, 9);
    assert_eq!(VariableType::Int.from_slots(0xffff_fffe, 5), Value::Int(-2));
    assert_eq!(VariableType::Reference.from_slots(0xffff_fffe, 5), Value::Reference(0xffff_fffe));
    assert_eq!(VariableType::Long.from_slots(0, 5), Value::Long(5));
    assert_eq!(VariableType::Long.from_slots(0xffff_ffff, 0xffff_ffff), Value::Long(-1));
}

#[test]
fn slots_carry_no_type() {
    let mut frame = frame(2, 0);
    assert_eq!(frame.push(Value::Int(-1)), Ok(()));
    assert_eq!(frame.pop(VariableType::Reference), Ok(Value::Reference(0xffff_ffff)));
    assert_eq!(frame.push(Value::Int(1)), Ok(()));
    assert_eq!(frame.push(Value::Int(2)), Ok(()));
    assert_eq!(frame.pop(VariableType::Long), Ok(Value::Long(0x1_0000_0002)));
}

#[test]
fn widths_are_one_or_two() {
    assert_eq!(VariableType::Int.width(), 1);
    assert_eq!(VariableType::Reference.width(), 1);
    assert_eq!(VariableType::Long.width(), 2);
    assert_eq!(Value::Int(3).kind(), VariableType::Int);
    assert_eq!(Value::Long(3).kind(), VariableType::Long);
    assert_eq!(Value::Reference(3).kind(), VariableType::Reference);
}

#[test]
fn locals_are_bounded() {
    let mut frame = frame(0, 3);
    assert_eq!(frame.store_local(2, Value::Int(5)), Ok(()));
    assert_eq!(frame.store_local(3, Value::Int(5)), Err(VmError::LocalVariableOutOfBounds));
    assert_eq!(frame.load_local(VariableType::Int, 2), Ok(Value::Int(5)));
    assert_eq!(
        frame.load_local(VariableType::Int, 3),
        Err(VmError::LocalVariableOutOfBounds)
    );
    assert_eq!(
        frame.load_local(VariableType::Int, usize::MAX),
        Err(VmError::LocalVariableOutOfBounds)
    );
    assert_eq!(frame.local_vars, vec![0, 0, 5]);
}

#[test]
fn a_wide_local_needs_both_slots() {
    let mut frame = frame(0, 3);
    assert_eq!(frame.store_local(1, Value::Long(-1)), Ok(()));
    assert_eq!(frame.local_vars, vec![0, 0xffff_ffff, 0xffff_ffff]);
    assert_eq!(frame.store_local(2, Value::Long(7)), Err(VmError::LocalVariableOutOfBounds));
    assert_eq!(frame.local_vars, vec![0, 0xffff_ffff, 0xffff_ffff]);
    assert_eq!(frame.load_local(VariableType::Long, 1), Ok(Value::Long(-1)));
    assert_eq!(
        frame.load_local(VariableType::Long, 2),
        Err(VmError::LocalVariableOutOfBounds)
    );
    assert_eq!(frame.load_local(VariableType::Long, 0), Ok(Value::Long(0xffff_ffff)));
}

#[test]
fn a_frame_without_locals_has_none() {
    let mut frame = frame(1, 0);
    assert_eq!(frame.store_local(0, Value::Int(1)), Err(VmError::LocalVariableOutOfBounds));
    assert_eq!(
        frame.load_local(VariableType::Reference, 0),
        Err(VmError::LocalVariableOutOfBounds)
    );
}
