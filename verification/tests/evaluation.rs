use std::collections::HashMap;

use iced_x86::{Decoder, DecoderOptions, Instruction, Mnemonic, OpKind, Register};
use risp::codegen::x86_64::encoder::{assemble, fit_code};
use risp::codegen::x86_64::machine::Program;
use risp::evaluator::{read_input, Action, Evaluator};
use risp::compiler::error::{CompileError, CompilerError};
use risp::compiler::Symbol;
use risp::parser::{parse, Identifier, Statement};
use risp::value::{EncodedValue, RawValue, Value};

const STACK_TOP: u64 = 0x7000_0000;
const RETURN_TO_HOST: u64 = 0xFFFF_0000;

/// A machine that runs the encoded instructions: enough of x86-64 for the
/// code that the compiler emits.
struct Machine {
    functions: Vec<(u64, Vec<u8>)>,
    registers: HashMap<Register, u64>,
    memory: HashMap<u64, u8>,
    compared: (i64, i64),
    strings: HashMap<u64, String>,
}

impl Machine {
    fn new() -> Machine {
        Machine {
            functions: Vec::new(),
            registers: HashMap::new(),
            memory: HashMap::new(),
            compared: (0, 0),
            strings: HashMap::new(),
        }
    }

    fn register(&self, register: Register) -> u64 {
        *self.registers.get(&register).unwrap_or(&0)
    }

    fn read(&self, address: u64) -> u64 {
        let mut value = 0u64;
        for index in 0..8 {
            let byte = *self.memory.get(&address.wrapping_add(index)).unwrap_or(&0);
            value |= (byte as u64) << (8 * index);
        }
        value
    }

    fn write(&mut self, address: u64, value: u64) {
        for index in 0..8 {
            self.memory.insert(address.wrapping_add(index), (value >> (8 * index)) as u8);
        }
    }

    fn push(&mut self, value: u64) {
        let top = self.register(Register::RSP).wrapping_sub(8);
        self.registers.insert(Register::RSP, top);
        self.write(top, value);
    }

    fn pop(&mut self) -> u64 {
        let top = self.register(Register::RSP);
        self.registers.insert(Register::RSP, top.wrapping_add(8));
        self.read(top)
    }

    fn decode(&self, ip: u64) -> Instruction {
        for (base, code) in &self.functions {
            if *base <= ip && ip < *base + code.len() as u64 {
                let offset = (ip - *base) as usize;
                let mut decoder = Decoder::with_ip(64, &code[offset..], ip, DecoderOptions::NONE);
                return decoder.decode();
            }
        }
        panic!("no code at {:#x}", ip);
    }

    fn address(&self, instruction: &Instruction) -> u64 {
        self.register(instruction.memory_base()).wrapping_add(instruction.memory_displacement64())
    }

    fn operand(&self, instruction: &Instruction, index: u32) -> u64 {
        match instruction.op_kind(index) {
            OpKind::Register => self.register(instruction.op_register(index)),
            OpKind::Memory => self.read(self.address(instruction)),
            OpKind::Immediate64 => instruction.immediate64(),
            OpKind::Immediate32to64 => instruction.immediate32to64() as u64,
            OpKind::Immediate8to64 => instruction.immediate8to64() as u64,
            kind => panic!("operand kind {:?}", kind),
        }
    }

    fn store(&mut self, instruction: &Instruction, value: u64) {
        match instruction.op_kind(0) {
            OpKind::Register => {
                self.registers.insert(instruction.op_register(0), value);
            }
            OpKind::Memory => {
                let address = self.address(instruction);
                self.write(address, value);
            }
            kind => panic!("destination kind {:?}", kind),
        }
    }

    fn call(&mut self, entry: u64, arguments: &[u64]) -> u64 {
        let parameters =
            [Register::RDI, Register::RSI, Register::RDX, Register::RCX, Register::R8, Register::R9];
        for (register, argument) in parameters.iter().zip(arguments) {
            self.registers.insert(*register, *argument);
        }
        self.registers.insert(Register::RSP, STACK_TOP);
        self.push(RETURN_TO_HOST);
        let mut ip = entry;
        let mut steps = 0;
        while ip != RETURN_TO_HOST {
            steps += 1;
            assert!(steps < 100_000, "the code does not return");
            let instruction = self.decode(ip);
            let mut next = instruction.next_ip();
            let (lhs, rhs) = self.compared;
            let taken = |condition: bool, target: u64, next: u64| if condition { target } else { next };
            match instruction.mnemonic() {
                Mnemonic::Push => {
                    let value = self.operand(&instruction, 0);
                    self.push(value);
                }
                Mnemonic::Pop => {
                    let value = self.pop();
                    self.store(&instruction, value);
                }
                Mnemonic::Ret => next = self.pop(),
                Mnemonic::Mov => {
                    let value = self.operand(&instruction, 1);
                    self.store(&instruction, value);
                }
                Mnemonic::Add => {
                    let value =
                        self.operand(&instruction, 0).wrapping_add(self.operand(&instruction, 1));
                    self.store(&instruction, value);
                }
                Mnemonic::Sub => {
                    let value =
                        self.operand(&instruction, 0).wrapping_sub(self.operand(&instruction, 1));
                    self.store(&instruction, value);
                }
                Mnemonic::Imul => {
                    let value =
                        self.operand(&instruction, 0).wrapping_mul(self.operand(&instruction, 1));
                    self.store(&instruction, value);
                }
                Mnemonic::Test => {
                    let value = self.operand(&instruction, 0) & self.operand(&instruction, 1);
                    self.compared = (value as i64, 0);
                }
                Mnemonic::Cmp => {
                    self.compared =
                        (self.operand(&instruction, 0) as i64, self.operand(&instruction, 1) as i64);
                }
                Mnemonic::Call => {
                    self.push(next);
                    next = instruction.near_branch_target();
                }
                Mnemonic::Jmp => next = instruction.near_branch_target(),
                Mnemonic::Je => next = taken(lhs == rhs, instruction.near_branch_target(), next),
                Mnemonic::Jne => next = taken(lhs != rhs, instruction.near_branch_target(), next),
                Mnemonic::Jl => next = taken(lhs < rhs, instruction.near_branch_target(), next),
                Mnemonic::Jle => next = taken(lhs <= rhs, instruction.near_branch_target(), next),
                Mnemonic::Jg => next = taken(lhs > rhs, instruction.near_branch_target(), next),
                Mnemonic::Jge => next = taken(lhs >= rhs, instruction.near_branch_target(), next),
                mnemonic => panic!("instruction {:?} at {:#x}", mnemonic, ip),
            }
            ip = next;
        }
        self.register(Register::RAX)
    }
}

/// An evaluator together with the machine that stands for the processor.
struct Session {
    evaluator: Evaluator<'static>,
    machine: Machine,
}

impl Session {
    fn new() -> Session {
        Session { evaluator: Evaluator::new(), machine: Machine::new() }
    }

    fn load(&mut self, program: &Program) -> Result<u64, String> {
        let base = 0x10_0000 + 0x1000 * self.machine.functions.len() as u64;
        let mut addresses = Vec::new();
        for string in &program.strings {
            let address = 0x5000_0000 + 64 * self.machine.strings.len() as u64;
            self.machine.strings.insert(address, string.clone());
            addresses.push(address);
        }
        let code = assemble(program, base, &addresses).map_err(|error| format!("{:?}", error))?;
        let code = fit_code(code, 4096).map_err(|error| format!("{:?}", error))?;
        self.machine.functions.push((base, code));
        Ok(base)
    }

    fn evaluate(&mut self, line: &str) -> Result<Value, String> {
        let (block, unread) = read_input(line).map_err(|error| format!("{:?}", error))?;
        let mut from = 0;
        let program = loop {
            let action =
                self.evaluator.next_action(&block, from).map_err(|error| format!("{:?}", error))?;
            match action {
                Action::Define { statement, program } => {
                    let address = self.load(&program)?;
                    match &block.0[statement] {
                        Statement::FunctionDefinition(definition) => {
                            self.evaluator.define_function(definition, address as usize)
                        }
                        other => panic!("{:?} defines no function", other),
                    }
                    from = statement + 1;
                }
                Action::Run { program } => break program,
            }
        };
        let entry = self.load(&program)?;
        let word = self.machine.call(entry, &[]);
        let raw = EncodedValue::from_word(word).decode().map_err(|error| format!("{:?}", error))?;
        let string = match raw {
            RawValue::String(address) => self.machine.strings[&address].clone(),
            _ => String::new(),
        };
        let value = raw.into_value(string);
        match unread {
            None => Ok(value),
            Some(unread) => self.evaluate(&unread),
        }
    }
}

fn eval(code: &str) -> Value {
    Session::new().evaluate(code).expect("evaluation failed")
}

#[test]
fn test_arithmetic() {
    assert_eq!(eval("55 + 42"), Value::Integer(97));
    assert_eq!(eval("21 * 2"), Value::Integer(42));
    assert_eq!(eval("1+2*3"), Value::Integer(7));
    assert_eq!(eval("2*3+3*4"), Value::Integer(18));
}

#[test]
fn test_bracketed_expressions() {
    assert_eq!(eval("1+(2*3)"), Value::Integer(7));
    assert_eq!(eval("(2*3)+(3*4)"), Value::Integer(18));
}

#[test]
fn test_function_evaluation() {
    assert_eq!(
        eval(
            "def add_one(x) { 
                    1 + x
                } 
                add_one(54)"
        ),
        Value::Integer(55)
    );
}

#[test]
fn test_reuse_function_argument() {
    assert_eq!(eval("def square (x) { x * x } square(3)"), Value::Integer(9))
}

#[test]
fn test_string_value() {
    assert_eq!(eval("\"Hello world!\""), Value::String("Hello world!".to_string()));
}

#[test]
fn test_let() {
    assert_eq!(
        eval("def square (x) { let result = x * x\n  result }\nsquare(3)"),
        Value::Integer(9)
    )
}

#[test]
fn test_if() {
    assert_eq!(
        eval(
            "
            def is_one(x) { 
                if x {
                    return 1
                }
                
                0
            } is_one(1)"
        ),
        Value::Integer(1)
    );

    assert_eq!(
        eval(
            "
            def is_one(x) { 
                if x {
                    return 1
                }
                0
            } is_one(0)"
        ),
        Value::Integer(0)
    );

    assert_eq!(
        eval(
            "
            def is_one(x) { 
                if x {
                    return 1
                } else {
                    return 0
                }
                2
            } is_one(0)"
        ),
        Value::Integer(0)
    );

    assert_eq!(
        eval(
            "
            def is_one(x) { 
                if x {
                    return 1
                } else {
                    return 0
                }
                2
            } is_one(1)"
        ),
        Value::Integer(1)
    );

    assert_eq!(
        eval(
            "
            def this_or_that(x,y) { 
                if x {
                    return 1
                } else if y {
                    return 2
                }
                3
            } this_or_that(1,0)"
        ),
        Value::Integer(1)
    );

    assert_eq!(
        eval(
            "
            def this_or_that(x,y) { 
                if x {
                    return 1
                } else if y {
                    return 2
                }
                3
            } this_or_that(0,1)"
        ),
        Value::Integer(2)
    );

    assert_eq!(
        eval(
            "
            def this_or_that(x,y) { 
                if x {
                    return 1
                } else if y {
                    return 2
                }
                3
            } this_or_that(0,0)"
        ),
        Value::Integer(3)
    );
}

#[test]
fn square_with_a_variable_on_its_own_line() {
    assert_eq!(eval("def square(x) { let r = x * x\n r }\n square(3)"), Value::Integer(9));
}

#[test]
fn a_function_is_callable_in_a_later_input() {
    let mut session = Session::new();
    assert_eq!(session.evaluate("def add_one(x) { 1 + x }"), Ok(Value::Integer(0)));
    assert_eq!(session.evaluate("add_one(54)"), Ok(Value::Integer(55)));
    assert_eq!(session.evaluate("add_one(2) + 1"), Ok(Value::Integer(4)));
}

#[test]
fn a_loop_counts_down() {
    assert_eq!(
        eval("def count(n) { let total = 0\n while n { total = total + n\n n = n - 1 }\n total }\n count(4)"),
        Value::Integer(10)
    );
}

#[test]
fn a_comparison_guards_a_branch() {
    let source = "def smaller(a, b) { if a < b { return a } else { return b }\n 0 }\n";
    assert_eq!(eval(&format!("{}smaller(3, 8)", source)), Value::Integer(3));
    assert_eq!(eval(&format!("{}smaller(9, 8)", source)), Value::Integer(8));
}

#[test]
fn sums_and_products() {
    assert_eq!(eval("55 + 42"), Value::Integer(97));
    assert_eq!(eval("21 * 2"), Value::Integer(42));
    assert_eq!(eval("(2*3)+(3*4)"), Value::Integer(18));
    assert_eq!(eval("7 - 2"), Value::Integer(5));
}

#[test]
fn a_defined_function_is_called() {
    assert_eq!(eval("def add_one(x) { 1 + x }  add_one(54)"), Value::Integer(55));
}

#[test]
fn both_branches_of_a_condition_return() {
    let source = "def is_one(x) { if x { return 1 } else { return 0 }\n 2 }\n ";
    assert_eq!(eval(&format!("{}is_one(0)", source)), Value::Integer(0));
    assert_eq!(eval(&format!("{}is_one(1)", source)), Value::Integer(1));
}

#[test]
fn a_chain_of_conditions_falls_through() {
    let source = "def this_or_that(x,y) { if x { return 1 } else if y { return 2 }\n 3 }\n ";
    assert_eq!(eval(&format!("{}this_or_that(0,0)", source)), Value::Integer(3));
    assert_eq!(eval(&format!("{}this_or_that(1,0)", source)), Value::Integer(1));
    assert_eq!(eval(&format!("{}this_or_that(0,1)", source)), Value::Integer(2));
}

#[test]
fn a_string_is_returned_from_its_box() {
    assert_eq!(eval("\"Hello world!\""), Value::String("Hello world!".to_string()));
    let mut session = Session::new();
    assert_eq!(session.evaluate("\"first\""), Ok(Value::String("first".to_string())));
    assert_eq!(session.evaluate("\"second\""), Ok(Value::String("second".to_string())));
}

#[test]
fn errors_are_reported_and_leave_the_session_usable() {
    let mut session = Session::new();
    assert!(session.evaluate("nothing(1)").unwrap_err().contains("UnresolvedSymbol"));
    assert!(session.evaluate("}").unwrap_err().contains("ParseError"));
    assert!(session.evaluate("def f(a) { a }").is_ok());
    assert!(session.evaluate("f(1, 2)").unwrap_err().contains("IncorrectArity"));
    assert!(session.evaluate("def g(a, b, c, d, e, f, g) { a }").is_ok());
    assert!(session.evaluate("g(1, 2, 3, 4, 5, 6, 7)").unwrap_err().contains("NotImplemented"));
    assert_eq!(session.evaluate("f(5)"), Ok(Value::Integer(5)));
}

#[test]
fn a_returned_string_can_be_returned_again() {
    let mut session = Session::new();
    assert!(session.evaluate("def greet() { \"hello\" }").is_ok());
    assert_eq!(session.evaluate("greet()"), Ok(Value::String("hello".to_string())));
    assert_eq!(session.evaluate("greet()"), Ok(Value::String("hello".to_string())));
}

#[test]
fn what_is_not_read_is_an_input_of_its_own() {
    let lines = ["1 + 2", "1 + 2 }", "def f(a) { a } f(1) )", "\"ab\" \u{e9}t\u{e9} 1", "7\n", "3 ]"];
    for line in lines {
        let (rest, token) = parse(line).unwrap();
        let (block, unread) = read_input(line).unwrap();
        assert_eq!(block, token.value);
        let characters: Vec<char> = line.chars().collect();
        if rest == characters.len() {
            assert_eq!(unread, None);
        } else {
            assert_eq!(unread, Some(characters[rest..].iter().collect::<String>()));
        }
    }
    assert_eq!(read_input("1 + 2").unwrap().1, None);
    assert!(read_input("1 + 2 }").unwrap().1.unwrap().ends_with('}'));
    assert!(read_input("\"ab\" \u{e9}t\u{e9} 1").unwrap().1.unwrap().ends_with("\u{e9}t\u{e9} 1"));
    assert_eq!(read_input("}"), Err(parse("}").unwrap_err()));
}

#[test]
fn definitions_come_first_and_in_their_order() {
    let (block, unread) = read_input("def f(a) { a } 1 def g(b, c) { f(b) } g(2, 3)").unwrap();
    assert_eq!(unread, None);
    assert_eq!(block.0.len(), 4);

    let mut evaluator = Evaluator::new();
    assert!(matches!(
        evaluator.next_action(&block, 1),
        Err(CompilerError::CompileError(CompileError::UnresolvedSymbol(name))) if name.0 == "f"
    ));
    assert!(matches!(
        evaluator.next_action(&block, 4),
        Err(CompilerError::CompileError(CompileError::UnresolvedSymbol(name))) if name.0 == "g"
    ));
    assert_eq!(evaluator.resolve(&Identifier::new("f")), None);

    let Ok(Action::Define { statement, program }) = evaluator.next_action(&block, 0) else {
        panic!("the first definition comes first");
    };
    assert_eq!(statement, 0);
    assert!(!program.instructions.is_empty());
    let Statement::FunctionDefinition(first) = &block.0[0] else {
        panic!("the first statement is a definition");
    };
    evaluator.define_function(first, 0x1000);
    assert_eq!(evaluator.resolve(&Identifier::new("f")), Some(Symbol::Function(0x1000, 1)));

    let Ok(Action::Define { statement, .. }) = evaluator.next_action(&block, 1) else {
        panic!("the second definition comes next");
    };
    assert_eq!(statement, 2);
    let Statement::FunctionDefinition(second) = &block.0[2] else {
        panic!("the third statement is a definition");
    };
    evaluator.define_function(second, 0x2000);
    assert_eq!(evaluator.resolve(&Identifier::new("g")), Some(Symbol::Function(0x2000, 2)));
    assert_eq!(evaluator.resolve(&Identifier::new("b")), None);

    assert!(matches!(evaluator.next_action(&block, 3), Ok(Action::Run { .. })));
    assert!(matches!(evaluator.next_action(&block, 9), Ok(Action::Run { .. })));
}

#[test]
fn only_a_definition_is_compiled_by_itself() {
    let (block, _) = read_input("def f(a) { a } f(1)").unwrap();
    let evaluator = Evaluator::new();
    assert!(matches!(evaluator.evaluate_statement(&block.0[0]), Ok(Some(_))));
    assert!(matches!(evaluator.evaluate_statement(&block.0[1]), Ok(None)));
}
