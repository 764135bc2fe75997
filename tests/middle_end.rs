use crucible::ir::{Instruction, Value};
use crucible::irgen::flatten;
use crucible::lexer::lex;
use crucible::parser::parse;
use crucible::resolve::resolve;

fn tac(source: &str) -> Vec<Instruction> {
    flatten(resolve(parse(lex(source).unwrap()).unwrap()).unwrap()).function.body
}

#[test]
fn logical_and_jumps_before_right_operand() {
    let code = tac("int main(void){int a = 1; int b = 2; return a && b;}");
    let text = format!("{:?}", code);
    assert_eq!(
        text,
        "[Copy { src: Constant(1), dst: \"a.0\" }, Copy { src: Constant(2), dst: \"b.1\" }, \
         JumpIfZero { condition: Variable(\"a.0\"), target: \"and_false.0\" }, \
         Binary { op: NotEqual, dst: \"tmp.1\", src1: Variable(\"b.1\"), src2: Constant(0) }, \
         Copy { src: Variable(\"tmp.1\"), dst: \"tmp.0\" }, Jump { target: \"and_end.1\" }, \
         Label(\"and_false.0\"), Copy { src: Constant(0), dst: \"tmp.0\" }, Label(\"and_end.1\"), \
         Return(Variable(\"tmp.0\"))]"
    );
}

#[test]
fn logical_or_jumps_on_nonzero() {
    let code = tac("int main(void){return 0 || 2;}");
    assert!(matches!(&code[0], Instruction::JumpIfNotZero { condition: Value::Constant(0), target } if target == "or_true.0"));
    assert!(matches!(&code[5], Instruction::Copy { src: Value::Constant(1), dst } if dst == "tmp.0"));
}

#[test]
fn left_operand_is_lowered_first() {
    let code = tac("int main(void){return -1 + ~2;}");
    assert_eq!(
        format!("{:?}", code),
        "[Unary { op: Negate, dst: \"tmp.0\", src: Constant(1) }, \
         Unary { op: Complement, dst: \"tmp.1\", src: Constant(2) }, \
         Binary { op: Add, dst: \"tmp.2\", src1: Variable(\"tmp.0\"), src2: Variable(\"tmp.1\") }, \
         Return(Variable(\"tmp.2\"))]"
    );
}

#[test]
fn body_without_return_gets_one() {
    let code = tac("int main(void){int a = 4; a = a * 2;}");
    assert!(matches!(code.last(), Some(Instruction::Return(Value::Constant(0)))));
    let code = tac("int main(void){;}");
    assert_eq!(code.len(), 1);
    assert!(matches!(&code[0], Instruction::Return(Value::Constant(0))));
}

#[test]
fn body_ending_in_return_is_kept() {
    let code = tac("int main(void){return 3;}");
    assert_eq!(code.len(), 1);
    assert!(matches!(&code[0], Instruction::Return(Value::Constant(3))));
}

#[test]
fn assignment_value_is_the_variable() {
    let code = tac("int main(void){int a; return a = 5;}");
    assert_eq!(
        format!("{:?}", code),
        "[Copy { src: Constant(5), dst: \"a.0\" }, Return(Variable(\"a.0\"))]"
    );
}
