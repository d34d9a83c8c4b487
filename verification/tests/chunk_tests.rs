use sapphire::chunk::{Chunk, Constant, OpCode};

#[test]
fn constant_round_trip() {
    let mut chunk = Chunk::new();
    let idx = chunk.add_constant(Constant::Int(42));
    chunk.write(OpCode::Constant(idx), 1);
    chunk.write(OpCode::Return, 1);

    assert_eq!(chunk.code.len(), 2);
    assert!(matches!(chunk.constants[idx], Constant::Int(42)));
    assert_eq!(chunk.code[0], OpCode::Constant(0));
    assert_eq!(chunk.code[1], OpCode::Return);
}

#[test]
fn patch_jump_lands_after_last_instruction() {
    let mut chunk = Chunk::new();
    chunk.write(OpCode::True, 1);
    chunk.write(OpCode::JumpIfFalse(0), 1);
    chunk.write(OpCode::Nil, 2);
    chunk.write(OpCode::Pop, 2);
    chunk.patch_jump(1);
    assert_eq!(chunk.code[1], OpCode::JumpIfFalse(2));
    assert_eq!(chunk.lines, vec![1, 1, 2, 2]);
}

#[test]
fn patch_rescue_keeps_slot() {
    let mut chunk = Chunk::new();
    chunk.write(OpCode::BeginRescue { handler_offset: 0, rescue_var_slot: 3 }, 1);
    chunk.write(OpCode::Nil, 1);
    chunk.write(OpCode::PopRescue, 1);
    chunk.patch_rescue(0);
    assert_eq!(chunk.code[0], OpCode::BeginRescue { handler_offset: 2, rescue_var_slot: 3 });
}

#[test]
fn add_constant_returns_successive_indices() {
    let mut chunk = Chunk::new();
    assert_eq!(chunk.add_constant(Constant::Str("a".to_string())), 0);
    assert_eq!(chunk.add_constant(Constant::Int(7)), 1);
    assert_eq!(chunk.constants.len(), 2);
}

#[test]
fn disassemble_lines_format() {
    let mut chunk = Chunk::new();
    let idx = chunk.add_constant(Constant::Int(42));
    chunk.write(OpCode::Constant(idx), 1);
    chunk.write(OpCode::GetLocal(3), 1);
    chunk.write(OpCode::Invoke(2, 1), 12);
    chunk.write(OpCode::Return, 12);
    let lines = chunk.disassemble_lines("main");
    assert_eq!(lines[0], "=== main ===");
    assert_eq!(lines[1], "0000     1  CONSTANT          0  (42)");
    assert_eq!(lines[2], "0001     |  GET_LOCAL         3");
    assert_eq!(lines[3], "0002    12  INVOKE                 2  argc=1");
    assert_eq!(lines[4], "0003     |  Return");
}

#[test]
fn disassemble_does_not_panic() {
    let mut chunk = Chunk::new();
    let i = chunk.add_constant(Constant::Float("3.14".to_string()));
    chunk.write(OpCode::Constant(i), 1);
    chunk.write(OpCode::Negate, 1);
    chunk.write(OpCode::Return, 1);
    let lines = chunk.disassemble_lines("test chunk");
    assert_eq!(lines.len(), 4);
    assert_eq!(lines[1], "0000     1  CONSTANT          0  (3.14)");
}
