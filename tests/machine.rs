use toyvm::error::Error;
use toyvm::exec::{Inst, InstType};
use toyvm::machine::Machine;
use toyvm::semantics::{NumClass, Request, Status};
use toyvm::stack::Stack;
use toyvm::utils::FileMode;
use toyvm::word::{Pointer, Word};

fn inst(t: InstType, a: Word) -> Inst {
    Inst::new(t, [a, Word::Nil])
}

fn inst2(t: InstType, a: Word, b: Word) -> Inst {
    Inst::new(t, [a, b])
}

fn run(program: Vec<Inst>) -> (Machine, Result<Status, Error>) {
    let mut m = Machine::new(program);
    let r = m.exec(1000);
    (m, r)
}

fn cells(m: &Machine) -> Vec<Word> {
    m.stack().cells().clone()
}

#[test]
fn push_then_pop_is_last_in_first_out() {
    let mut s = Stack::new();
    s.push(Word::Int(9)).unwrap();
    let h = s.height();
    for v in [1, 2, 3] {
        s.push(Word::Int(v)).unwrap();
    }
    assert_eq!(s.height(), h + 3);
    assert_eq!(s.pop(), Ok(Word::Int(3)));
    assert_eq!(s.pop(), Ok(Word::Int(2)));
    assert_eq!(s.pop(), Ok(Word::Int(1)));
    assert_eq!(s.height(), h);
    assert_eq!(s.pop(), Ok(Word::Int(9)));
    assert_eq!(s.pop(), Err(Error::StackUnderflow));
}

#[test]
fn dup_and_frames() {
    let mut s = Stack::new();
    assert_eq!(s.dup(), Err(Error::StackUnderflow));
    s.push(Word::Char('x')).unwrap();
    s.dup().unwrap();
    assert_eq!(s.cells(), &vec![Word::Char('x'), Word::Char('x')]);
    s.enter_frame();
    assert_eq!(s.frame_base(), 2);
    s.push(Word::Int(1)).unwrap();
    s.push(Word::Int(2)).unwrap();
    s.pop_frame();
    assert_eq!(s.height(), 2);
}

#[test]
fn push_segment_writes_header_and_points_past_it() {
    let mut s = Stack::new();
    s.push(Word::Int(7)).unwrap();
    let p = s.push_segment(&[Word::Char('h'), Word::Char('i')]).unwrap();
    assert_eq!(p, Pointer::Stack(2));
    assert_eq!(s.cells(), &vec![Word::Int(7), Word::Int(2), Word::Char('h'), Word::Char('i')]);
}

#[test]
fn malloc_free_malloc_reuses_cells() {
    let mut m = Machine::new(vec![]);
    let p1 = m.malloc(3).unwrap();
    assert_eq!(p1, Pointer::Heap(1));
    assert_eq!(m.heap(), &vec![Word::Int(3), Word::Int(0), Word::Int(0), Word::Int(0)]);
    let len = m.heap().len();
    m.free(p1).unwrap();
    assert_eq!(m.heap(), &vec![Word::Free; 4]);
    let p2 = m.malloc(3).unwrap();
    assert_eq!(p2, p1);
    assert_eq!(m.heap().len(), len);
}

#[test]
fn malloc_is_first_fit() {
    let mut m = Machine::new(vec![]);
    let a = m.malloc(1).unwrap();
    let b = m.malloc(2).unwrap();
    let c = m.malloc(1).unwrap();
    assert_eq!((a, b, c), (Pointer::Heap(1), Pointer::Heap(3), Pointer::Heap(6)));
    m.free(b).unwrap();
    // a run of three free cells: too small for four, large enough for two
    assert_eq!(m.malloc(3).unwrap(), Pointer::Heap(8));
    assert_eq!(m.malloc(1).unwrap(), Pointer::Heap(3));
}

#[test]
fn free_errors() {
    let mut m = Machine::new(vec![]);
    assert_eq!(m.free(Pointer::Register(0)), Err(Error::InvalidPointer));
    assert_eq!(m.free(Pointer::Heap(1)), Err(Error::SegmentationFault));
    let p = m.malloc(2).unwrap();
    m.free(p).unwrap();
    // double free: the header is now Free
    assert_eq!(m.free(p), Err(Error::TypeMismatch));
    let z = m.malloc(0).unwrap();
    assert_eq!(m.free(z), Err(Error::SegmentationFault));
}

#[test]
fn setelem_checks_the_cell() {
    let mut m = Machine::new(vec![]);
    let p = m.malloc(2).unwrap();
    m.setelem(Pointer::Heap(2), Word::Char('q')).unwrap();
    assert_eq!(m.read_arr(p), Ok(vec![Word::Int(0), Word::Char('q')]));
    assert_eq!(m.setelem(Pointer::Heap(3), Word::Int(1)), Err(Error::SegmentationFault));
    m.free(p).unwrap();
    assert_eq!(m.setelem(Pointer::Heap(1), Word::Int(1)), Err(Error::SegmentationFault));
    assert_eq!(m.setelem(Pointer::Data(0), Word::Int(1)), Err(Error::InvalidPointer));
}

#[test]
fn read_arr_round_trip() {
    let mut m = Machine::new(vec![]);
    let line = vec![Word::Char('o'), Word::Char('k'), Word::Int(5)];
    assert_eq!(m.read(&line), Ok(4));
    assert_eq!(m.read_arr(Pointer::Stack(1)), Ok(line));
    assert_eq!(m.read_arr(Pointer::Stack(0)), Err(Error::SegmentationFault));
    assert_eq!(m.read_arr(Pointer::Stack(2)), Err(Error::InvalidPointer));
    assert_eq!(m.read_arr(Pointer::Files(1)), Err(Error::InvalidPointer));
}

#[test]
fn plus_promotes_int_to_float() {
    let three = 3.0f32.to_bits();
    let (mut m, r) = run(vec![
        inst(InstType::Pushi, Word::Int(2)),
        inst(InstType::Pushf, Word::Float(three)),
        inst(InstType::Plus, Word::Nil),
    ]);
    assert_eq!(
        r,
        Ok(Status::Waiting(Request::Arith {
            op: InstType::Plus,
            class: NumClass::Float,
            left: Word::Int(2),
            right: Word::Float(three),
        }))
    );
    let five = (2i64 as f32 + f32::from_bits(three)).to_bits();
    m.complete_arith(Word::Float(five)).unwrap();
    assert_eq!(cells(&m), vec![Word::Float(5.0f32.to_bits())]);
}

#[test]
fn plus_int_and_char_is_illegal() {
    let (m, r) = run(vec![
        inst(InstType::Pushi, Word::Int(2)),
        inst(InstType::Pushc, Word::Char('a')),
        inst(InstType::Plus, Word::Nil),
    ]);
    assert_eq!(r, Err(Error::IllegalInst));
    assert_eq!(cells(&m), vec![Word::Int(2), Word::Char('a')]);
}

#[test]
fn float_and_double_promote_to_double() {
    let (_, r) = run(vec![
        inst(InstType::Pushf, Word::Float(1.5f32.to_bits())),
        inst(InstType::Pushd, Word::Double(2.0f64.to_bits())),
        inst(InstType::Mul, Word::Nil),
    ]);
    match r {
        Ok(Status::Waiting(Request::Arith { class, .. })) => assert_eq!(class, NumClass::Double),
        other => panic!("unexpected {:?}", other),
    }
    let (_, r) = run(vec![
        inst(InstType::Pushi, Word::Int(1)),
        inst(InstType::Pushd, Word::Double(2.0f64.to_bits())),
        inst(InstType::Sub, Word::Nil),
    ]);
    assert_eq!(r, Err(Error::IllegalInst));
}

#[test]
fn div_by_int_zero_keeps_the_stack() {
    let (m, r) = run(vec![
        inst(InstType::Pushi, Word::Int(7)),
        inst(InstType::Pushi, Word::Int(0)),
        inst(InstType::Div, Word::Nil),
    ]);
    assert_eq!(r, Err(Error::DivByZero));
    assert_eq!(cells(&m), vec![Word::Int(7), Word::Int(0)]);
}

#[test]
fn div_by_negative_float_zero() {
    let (m, r) = run(vec![
        inst(InstType::Pushf, Word::Float(1.0f32.to_bits())),
        inst(InstType::Pushf, Word::Float((-0.0f32).to_bits())),
        inst(InstType::Div, Word::Nil),
    ]);
    assert_eq!(r, Err(Error::DivByZero));
    assert_eq!(m.stack().height(), 2);
}

#[test]
fn jmp_bounds() {
    let (_, r) = run(vec![inst(InstType::Jmp, Word::Int(2)), inst(InstType::Halt, Word::Nil)]);
    assert_eq!(r, Err(Error::IllegalJmp));
    let (m, r) = run(vec![inst(InstType::Jmp, Word::Int(1)), inst(InstType::Halt, Word::Nil)]);
    assert_eq!(r, Ok(Status::Halted));
    assert_eq!(m.ip(), 2);
    let (_, r) = run(vec![inst(InstType::Jmp, Word::Int(-1))]);
    assert_eq!(r, Err(Error::IllegalJmp));
}

#[test]
fn multiply_then_divide_halts_with_69() {
    let (m, r) = run(vec![
        inst(InstType::Pushi, Word::Int(69)),
        inst(InstType::Pushi, Word::Int(2)),
        inst(InstType::Mul, Word::Nil),
        inst(InstType::Pushi, Word::Int(2)),
        inst(InstType::Div, Word::Nil),
        inst(InstType::Halt, Word::Nil),
    ]);
    assert_eq!(r, Ok(Status::Halted));
    assert!(m.is_halted());
    assert_eq!(cells(&m), vec![Word::Int(69)]);
}

#[test]
fn alloc_free_alloc_returns_the_same_pointer() {
    let (m, r) = run(vec![
        inst(InstType::Alloc, Word::Int(3)),
        inst(InstType::Pushi, Word::Int(5)),
        inst(InstType::SetElem, Word::Ptr(Pointer::Heap(1))),
        inst(InstType::Free, Word::Ptr(Pointer::Heap(1))),
        inst(InstType::Alloc, Word::Int(3)),
        inst(InstType::Halt, Word::Nil),
    ]);
    assert_eq!(r, Ok(Status::Halted));
    let s = cells(&m);
    assert_eq!(s.len(), 2);
    assert_eq!(s[0], Word::Ptr(Pointer::Heap(1)));
    assert_eq!(s[1], s[0]);
    assert_eq!(m.heap().len(), 4);
}

#[test]
fn call_then_return_restores_ip_and_frame() {
    let mut m = Machine::new(vec![
        inst(InstType::Pushi, Word::Int(4)),
        inst(InstType::Call, Word::Int(3)),
        inst(InstType::Halt, Word::Nil),
        inst(InstType::Return, Word::Nil),
    ]);
    assert_eq!(m.step(), Ok(Request::Continue));
    let base = m.stack().frame_base();
    assert_eq!(m.step(), Ok(Request::Continue));
    assert_eq!(m.ip(), 3);
    assert_eq!(m.stack().frame_base(), 2);
    assert_eq!(cells(&m), vec![Word::Int(4), Word::Int(0), Word::Int(2)]);
    assert_eq!(m.step(), Ok(Request::Continue));
    assert_eq!(m.ip(), 2);
    assert_eq!(m.stack().frame_base(), base);
    assert_eq!(cells(&m), vec![Word::Int(4)]);
    assert_eq!(m.exec(10), Ok(Status::Halted));
}

#[test]
fn return_errors() {
    let (_, r) = run(vec![inst(InstType::Return, Word::Nil)]);
    assert_eq!(r, Err(Error::StackUnderflow));
    let (_, r) = run(vec![
        inst(InstType::Pushc, Word::Char('a')),
        inst(InstType::Pushi, Word::Int(0)),
        inst(InstType::Return, Word::Nil),
    ]);
    assert_eq!(r, Err(Error::IllegalInst));
    let (_, r) = run(vec![
        inst(InstType::Pushi, Word::Int(0)),
        inst(InstType::Pushi, Word::Int(9)),
        inst(InstType::Return, Word::Nil),
    ]);
    assert_eq!(r, Err(Error::IllegalJmp));
}

#[test]
fn conditional_jumps() {
    let (m, r) = run(vec![
        inst(InstType::Pushi, Word::Int(3)),
        inst(InstType::Pushi, Word::Int(3)),
        inst(InstType::Cmp, Word::Nil),
        inst(InstType::Jeq, Word::Int(5)),
        inst(InstType::Pushi, Word::Int(100)),
        inst(InstType::Pushi, Word::Int(0)),
        inst(InstType::Jne, Word::Int(8)),
        inst(InstType::Pushi, Word::Int(200)),
        inst(InstType::Halt, Word::Nil),
    ]);
    assert_eq!(r, Ok(Status::Halted));
    assert_eq!(cells(&m), vec![]);
    let (_, r) = run(vec![inst(InstType::Jeq, Word::Int(0))]);
    assert_eq!(r, Err(Error::StackUnderflow));
    let (_, r) = run(vec![inst(InstType::Jne, Word::Char('x'))]);
    assert_eq!(r, Err(Error::IllegalJmp));
}

#[test]
fn integer_arithmetic_results() {
    let cases = [
        (InstType::Plus, 40, 2, 42),
        (InstType::Sub, 2, 44, -42),
        (InstType::Mul, -6, 7, -42),
        (InstType::Div, -7, 2, -3),
        (InstType::Div, 7, -2, -3),
        (InstType::Div, i64::MIN, -1, i64::MIN),
        (InstType::Plus, i64::MAX, 1, i64::MIN),
        (InstType::And, 12, 10, 8),
        (InstType::Or, 12, 10, 14),
        (InstType::Xor, 12, 10, 6),
        (InstType::Cmp, 5, 5, 1),
        (InstType::Cmp, 5, 6, 0),
    ];
    for (op, a, b, want) in cases {
        let (m, r) = run(vec![
            inst(InstType::Pushi, Word::Int(a)),
            inst(InstType::Pushi, Word::Int(b)),
            inst(op, Word::Nil),
        ]);
        assert_eq!(r, Ok(Status::Exhausted));
        assert_eq!(cells(&m), vec![Word::Int(want)], "{:?} {} {}", op, a, b);
    }
}

#[test]
fn not_and_bitwise_types() {
    let (m, r) = run(vec![inst(InstType::Pushi, Word::Int(0)), inst(InstType::Not, Word::Nil)]);
    assert_eq!(r, Ok(Status::Exhausted));
    assert_eq!(cells(&m), vec![Word::Int(-1)]);
    let (_, r) = run(vec![inst(InstType::Pushc, Word::Char('a')), inst(InstType::Not, Word::Nil)]);
    assert_eq!(r, Err(Error::IllegalInst));
    let (_, r) = run(vec![inst(InstType::Not, Word::Nil)]);
    assert_eq!(r, Err(Error::StackUnderflow));
    let f = Word::Float(1.0f32.to_bits());
    let (_, r) = run(vec![inst(InstType::Pushf, f), inst(InstType::Pushf, f), inst(InstType::And, Word::Nil)]);
    assert_eq!(r, Err(Error::IllegalInst));
    let (_, r) = run(vec![inst(InstType::Pushi, Word::Int(1)), inst(InstType::Plus, Word::Nil)]);
    assert_eq!(r, Err(Error::StackUnderflow));
}

#[test]
fn push_literal_types() {
    let (_, r) = run(vec![inst(InstType::Pushi, Word::Char('a'))]);
    assert_eq!(r, Err(Error::IllegalInst));
    let (_, r) = run(vec![inst(InstType::Pushc, Word::Int(1))]);
    assert_eq!(r, Err(Error::IllegalInst));
    let (_, r) = run(vec![inst(InstType::Pop, Word::Nil)]);
    assert_eq!(r, Err(Error::StackUnderflow));
}

#[test]
fn pushs_copies_a_literal_segment() {
    let mut m = Machine::new(vec![inst(InstType::Pushs, Word::Ptr(Pointer::Data(0)))]);
    let d = m.add_data(vec![Word::Char('h'), Word::Char('i')]);
    assert_eq!(d, Pointer::Data(0));
    assert_eq!(m.exec(10), Ok(Status::Exhausted));
    assert_eq!(
        cells(&m),
        vec![Word::Int(2), Word::Char('h'), Word::Char('i'), Word::Ptr(Pointer::Stack(1))]
    );
    assert_eq!(m.write(Pointer::Stack(1)), Ok(vec!['h', 'i']));
    let (_, r) = run(vec![inst(InstType::Pushs, Word::Ptr(Pointer::Data(0)))]);
    assert_eq!(r, Err(Error::SegmentationFault));
    let (_, r) = run(vec![inst(InstType::Pushs, Word::Ptr(Pointer::Heap(0)))]);
    assert_eq!(r, Err(Error::InvalidPointer));
}

#[test]
fn registers() {
    let (m, r) = run(vec![
        inst2(InstType::Mov, Word::Ptr(Pointer::Register(2)), Word::Int(11)),
        inst(InstType::Pushr, Word::Ptr(Pointer::Register(2))),
        inst(InstType::Storer, Word::Ptr(Pointer::Register(2))),
        inst2(InstType::Loadr, Word::Ptr(Pointer::Register(3)), Word::Ptr(Pointer::Heap(1))),
        inst(InstType::Halt, Word::Nil),
    ]);
    assert_eq!(r, Ok(Status::Halted));
    assert_eq!(cells(&m), vec![Word::Int(11)]);
    assert_eq!(m.heap(), &vec![Word::Int(1), Word::Int(11)]);
    assert_eq!(m.register(2), Some(Word::Ptr(Pointer::Heap(1))));
    assert_eq!(m.register(3), Some(Word::Int(11)));
    assert_eq!(m.register(0), Some(Word::Free));
    assert_eq!(m.register(8), None);
    let (_, r) = run(vec![inst2(InstType::Mov, Word::Ptr(Pointer::Register(8)), Word::Int(1))]);
    assert_eq!(r, Err(Error::IllegalInst));
    let (_, r) = run(vec![inst2(InstType::Mov, Word::Ptr(Pointer::Heap(0)), Word::Int(1))]);
    assert_eq!(r, Err(Error::InvalidPointer));
    let (_, r) = run(vec![inst2(InstType::Loadr, Word::Ptr(Pointer::Register(0)), Word::Ptr(Pointer::Heap(0)))]);
    assert_eq!(r, Err(Error::SegmentationFault));
}

#[test]
fn alloc_operands() {
    let (_, r) = run(vec![inst(InstType::Alloc, Word::Int(-1))]);
    assert_eq!(r, Err(Error::IllegalOperandType));
    let (_, r) = run(vec![inst(InstType::Alloc, Word::Char('a'))]);
    assert_eq!(r, Err(Error::IllegalInst));
    let (_, r) = run(vec![inst(InstType::Free, Word::Int(1))]);
    assert_eq!(r, Err(Error::IllegalInst));
}

#[test]
fn set_failure_keeps_the_value_on_the_stack() {
    let (m, r) = run(vec![
        inst(InstType::Pushi, Word::Int(5)),
        inst(InstType::SetElem, Word::Ptr(Pointer::Heap(0))),
    ]);
    assert_eq!(r, Err(Error::SegmentationFault));
    assert_eq!(cells(&m), vec![Word::Int(5)]);
    let (_, r) = run(vec![inst(InstType::SetElem, Word::Ptr(Pointer::Heap(0)))]);
    assert_eq!(r, Err(Error::StackUnderflow));
}

#[test]
fn exit_pushes_its_code() {
    let (m, r) = run(vec![inst(InstType::Exit, Word::Int(3)), inst(InstType::Pushi, Word::Int(1))]);
    assert_eq!(r, Ok(Status::Exited));
    assert!(m.is_exited());
    assert_eq!(cells(&m), vec![Word::Int(3)]);
}

#[test]
fn step_budget_runs_out() {
    let (m, r) = {
        let mut m = Machine::new(vec![inst(InstType::Jmp, Word::Int(0))]);
        let r = m.exec(5);
        (m, r)
    };
    assert_eq!(r, Ok(Status::Running));
    assert_eq!(m.ip(), 0);
}

#[test]
fn io_requests() {
    let (_, r) = run(vec![inst(InstType::Read, Word::Nil)]);
    assert_eq!(r, Ok(Status::Waiting(Request::ReadLine)));
    let (_, r) = run(vec![inst(InstType::Write, Word::Ptr(Pointer::Stack(1)))]);
    assert_eq!(r, Ok(Status::Waiting(Request::Write(Pointer::Stack(1)))));
    let (_, r) = run(vec![inst2(InstType::Open, Word::Ptr(Pointer::Stack(1)), Word::Int(1))]);
    assert_eq!(r, Ok(Status::Waiting(Request::Open(Pointer::Stack(1), 1))));
    let (_, r) = run(vec![inst2(InstType::Open, Word::Ptr(Pointer::Stack(1)), Word::Char('w'))]);
    assert_eq!(r, Err(Error::IllegalOperandType));
    let (_, r) = run(vec![inst(InstType::Close, Word::Ptr(Pointer::Heap(1)))]);
    assert_eq!(r, Err(Error::FileNotFound));
}

#[test]
fn write_needs_chars() {
    let mut m = Machine::new(vec![]);
    m.read(&[Word::Char('a'), Word::Int(1)]).unwrap();
    assert_eq!(m.write(Pointer::Stack(1)), Err(Error::TypeMismatch));
    assert_eq!(m.write(Pointer::Register(1)), Err(Error::InvalidPointer));
}

#[test]
fn open_and_close_files() {
    let mut m = Machine::new(vec![]);
    m.read(&[Word::Char('f')]).unwrap();
    assert_eq!(m.open_request(Pointer::Stack(1), 2), Ok((vec!['f'], FileMode::Append)));
    assert_eq!(m.open_request(Pointer::Stack(1), 0), Ok((vec!['f'], FileMode::Read)));
    assert_eq!(m.open_request(Pointer::Stack(1), 1), Ok((vec!['f'], FileMode::Truncate)));
    assert_eq!(m.open_request(Pointer::Stack(1), 3), Err(Error::IllegalInst));
    assert_eq!(m.open(false), Err(Error::FileNotFound));
    assert_eq!(m.open(true), Ok(Pointer::Files(0)));
    assert_eq!(m.open(true), Ok(Pointer::Files(1)));
    assert_eq!(m.close(Pointer::Files(0)), Ok(()));
    assert_eq!(m.close(Pointer::Stack(0)), Err(Error::FileNotFound));
}

#[test]
fn pointer_index() {
    assert_eq!(Pointer::Register(3).as_usize(), 3);
    assert_eq!(Pointer::Data(9).as_usize(), 9);
    assert_eq!(Pointer::Files(0).as_usize(), 0);
}

#[test]
fn empty_segment_cannot_be_read_back() {
    let mut m = Machine::new(vec![]);
    assert_eq!(m.read(&[]), Ok(1));
    assert_eq!(m.read_arr(Pointer::Stack(1)), Err(Error::SegmentationFault));
}

#[test]
fn reuse_after_trailing_free_cells_starts_lower() {
    let mut m = Machine::new(vec![]);
    let a = m.malloc(1).unwrap();
    m.free(a).unwrap();
    // two free cells at the end of the heap: too few for three
    let p1 = m.malloc(2).unwrap();
    assert_eq!(p1, Pointer::Heap(3));
    let len = m.heap().len();
    m.free(p1).unwrap();
    let p2 = m.malloc(2).unwrap();
    assert_eq!(p2, Pointer::Heap(1));
    assert_eq!(m.heap().len(), len);
}
