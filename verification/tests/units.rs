use rlox::chunk::{Chunk, OpCode};
use rlox::compiler::Compiler;
use rlox::num;
use rlox::scanner::Scanner;
use rlox::text;
use rlox::token::{Token, TT};
use rlox::tokenizer::Tokenizer;
use rlox::value::{Value, ValueArray};
use rlox::vm::{CallFrame, Globals, InterpretResult};

#[test]
fn opcodes_round_trip_through_bytes() {
    for b in 0u8..24u8 {
        let op = OpCode::from_byte(b).unwrap();
        assert_eq!(op.as_byte(), b);
    }
    assert!(OpCode::from_byte(24).is_none());
    assert!(OpCode::from_byte(255).is_none());
}

#[test]
fn decimal_rendering() {
    assert_eq!(text::usize_to_string(0), "0");
    assert_eq!(text::usize_to_string(42), "42");
    assert_eq!(text::usize_to_string(65535), "65535");
    assert_eq!(text::dec_zero_padded(7, 4), "0007");
    assert_eq!(text::dec_padded(7, 4), "   7");
    assert_eq!(text::pad_right("OP_ADD", 16), "OP_ADD          ");
}

fn number_bits(v: Value) -> u64 {
    match v {
        Value::Number(b) => b,
        other => panic!("expected a number, got {:?}", other),
    }
}

#[test]
fn value_arithmetic_matches_hardware_doubles() {
    let cases: &[(f64, f64)] = &[(1.0, 2.0), (0.1, 0.2), (-3.5, 1.25), (1e300, 1e300), (7.0, 0.0)];
    for &(x, y) in cases {
        let a = || Value::Number(x.to_bits());
        let b = || Value::Number(y.to_bits());
        assert_eq!(number_bits(a().add_values(b())), (x + y).to_bits());
        assert_eq!(number_bits(a().sub_values(b())), (x - y).to_bits());
        assert_eq!(number_bits(a().mul_values(b())), (x * y).to_bits());
        assert_eq!(number_bits(a().div_values(b())), (x / y).to_bits());
        assert_eq!(number_bits(a().negate_value()), (-x).to_bits());
    }
}

#[test]
fn number_comparison_and_negation_match_hardware_doubles() {
    let nan = f64::NAN.to_bits();
    let one = 1.0f64.to_bits();
    let two = 2.0f64.to_bits();
    let zero = 0.0f64.to_bits();
    let neg_zero = (-0.0f64).to_bits();
    assert!(num::less_than(one, two));
    assert!(!num::less_than(two, one));
    assert!(!num::less_than(nan, one));
    assert!(!num::less_than(one, nan));
    assert!(num::less_than((-1.0f64).to_bits(), zero));
    assert!(num::equal_num(zero, neg_zero));
    assert!(!num::equal_num(nan, nan));
    assert!(num::equal_num(one, one));
    assert_eq!(num::negate(one), (-1.0f64).to_bits());
    assert_eq!(num::negate(nan), (-f64::NAN).to_bits());
    assert!(num::is_nan(nan));
    assert!(!num::is_nan(one));
    assert!(num::num_is_zero(zero));
    assert!(num::num_is_zero(neg_zero));
    assert!(!num::num_is_zero(one));
}

#[test]
fn scanned_number_literals_are_correctly_rounded() {
    let mut scanner = Scanner::new("3.5 0.1 12345");
    let expected = [3.5f64, 0.1f64, 12345.0f64];
    for want in expected.iter() {
        let token = scanner.scan_token();
        assert_eq!(token.ttype, TT::Number);
        match token.literal {
            Some(rlox::token::Literal::Number(bits)) => assert_eq!(bits, want.to_bits()),
            other => panic!("unexpected literal {:?}", other),
        }
    }
}

#[test]
fn number_rendering_is_plain_for_small_values() {
    assert_eq!(Value::Number(7.0f64.to_bits()).to_text(), "7");
    assert_eq!(Value::Number(0.0f64.to_bits()).to_text(), "0");
    assert_eq!(Value::Number(0.75f64.to_bits()).to_text(), "0.75");
    assert_eq!(Value::Number((-3.0f64).to_bits()).to_text(), "-3");
}

#[test]
fn values_compare_by_variant_and_payload() {
    let one = Value::Number(1.0f64.to_bits());
    let one_too = Value::Number(1.0f64.to_bits());
    let two = Value::Number(2.0f64.to_bits());
    assert!(one.equal_value(&one_too));
    assert!(!one.equal_value(&two));
    assert!(Value::Nil.equal_value(&Value::Nil));
    assert!(!Value::Nil.equal_value(&Value::Boolean(false)));
    assert!(Value::Str("a".to_string()).equal_value(&Value::Str("a".to_string())));
    assert!(!Value::Str("a".to_string()).equal_value(&Value::Str("b".to_string())));
    assert!(Value::Boolean(true).equal_value(&Value::Boolean(true)));
}

#[test]
fn falsiness_is_nil_or_false() {
    assert!(Value::Nil.is_falsy());
    assert!(Value::Boolean(false).is_falsy());
    assert!(!Value::Boolean(true).is_falsy());
    assert!(!Value::Number(0.0f64.to_bits()).is_falsy());
    assert!(!Value::Str(String::new()).is_falsy());
}

#[test]
fn value_array_appends_in_order() {
    let mut pool = ValueArray::new();
    assert_eq!(pool.write(Value::Nil), 0);
    assert_eq!(pool.write(Value::Boolean(true)), 1);
    assert!(matches!(pool.read_at(1), Value::Boolean(true)));
    pool.free();
    assert_eq!(pool.write(Value::Nil), 0);
}

#[test]
fn chunk_tracks_lines_alongside_code() {
    let mut chunk = Chunk::new();
    chunk.write(7, 1);
    chunk.emit_bytes(OpCode::Constant, 0, 2);
    assert_eq!(chunk.size(), 3);
    assert_eq!(chunk.get_line(0), 1);
    assert_eq!(chunk.get_line(2), 2);
    assert_eq!(chunk.read(1), OpCode::Constant.as_byte());
    chunk.write_at(0, 9);
    assert_eq!(chunk.read(0), 9);
    chunk.reset();
    assert_eq!(chunk.size(), 0);
}

#[test]
fn make_constant_caps_at_a_byte() {
    let mut chunk = Chunk::new();
    for i in 0..256 {
        assert_eq!(chunk.make_constant(Value::Number(i as u64)), Some(i as u8));
    }
    assert_eq!(chunk.make_constant(Value::Nil), None);
}

#[test]
fn jump_offset_reads_big_endian() {
    let mut chunk = Chunk::new();
    chunk.write(0xAB, 1);
    chunk.write(0xCD, 1);
    chunk.write(0, 1);
    assert_eq!(chunk.jump_offset(0), 0xAB * 256 + 0xCD);
}

#[test]
fn scanner_recognizes_kinds_and_lines() {
    let mut scanner = Scanner::new("var answer = 42;\nprint answer;");
    let kinds = [
        TT::Var,
        TT::Identifier,
        TT::Assign,
        TT::Number,
        TT::Semicolon,
        TT::Print,
        TT::Identifier,
        TT::Semicolon,
        TT::EndOfFile,
    ];
    let lines = [1, 1, 1, 1, 1, 2, 2, 2, 2];
    for (kind, line) in kinds.iter().zip(lines.iter()) {
        let token = scanner.scan_token();
        assert_eq!(token.ttype, *kind);
        assert_eq!(token.line, *line);
    }
}

#[test]
fn scanner_keywords_are_exact_matches_only() {
    let mut scanner = Scanner::new("classy orchid class or iffy if");
    let kinds = [TT::Identifier, TT::Identifier, TT::Class, TT::Or, TT::Identifier, TT::If];
    for kind in kinds.iter() {
        assert_eq!(scanner.scan_token().ttype, *kind);
    }
}

#[test]
fn scanner_takes_maximal_lexemes() {
    let mut scanner = Scanner::new("3.25for formal \"ab\"cd");
    let t1 = scanner.scan_token();
    assert_eq!(t1.ttype, TT::Number);
    assert_eq!(t1.lexeme, "3.25");
    let t2 = scanner.scan_token();
    assert_eq!(t2.ttype, TT::For);
    assert_eq!(t2.lexeme, "for");
    let t3 = scanner.scan_token();
    assert_eq!(t3.ttype, TT::Identifier);
    assert_eq!(t3.lexeme, "formal");
    let t4 = scanner.scan_token();
    assert_eq!(t4.ttype, TT::Str);
    assert_eq!(t4.lexeme, "\"ab\"");
    let t5 = scanner.scan_token();
    assert_eq!(t5.ttype, TT::Identifier);
    assert_eq!(t5.lexeme, "cd");
}

#[test]
fn scanner_counts_lines_inside_strings() {
    let mut scanner = Scanner::new("\"a\nb\nc\" x");
    let t1 = scanner.scan_token();
    assert_eq!(t1.ttype, TT::Str);
    assert_eq!(t1.line, 3);
    let t2 = scanner.scan_token();
    assert_eq!(t2.ttype, TT::Identifier);
    assert_eq!(t2.line, 3);
}

#[test]
fn scanner_two_character_operators() {
    let mut scanner = Scanner::new("! != = == < <= > >=");
    let kinds = [
        TT::Bang,
        TT::BangEquals,
        TT::Assign,
        TT::Equals,
        TT::Less,
        TT::LessEquals,
        TT::Greater,
        TT::GreaterEquals,
    ];
    for kind in kinds.iter() {
        assert_eq!(scanner.scan_token().ttype, *kind);
    }
}

#[test]
fn scanner_skips_comments_and_reports_unterminated_strings() {
    let mut scanner = Scanner::new("// a comment\n\"open");
    let token = scanner.scan_token();
    assert_eq!(token.ttype, TT::Error);
    assert_eq!(token.lexeme, "Unterminated string");
}

#[test]
fn scanner_string_literal_trims_quotes() {
    let mut scanner = Scanner::new("\"hello\"");
    let token = scanner.scan_token();
    assert_eq!(token.ttype, TT::Str);
    assert_eq!(token.lexeme, "\"hello\"");
    match token.literal {
        Some(rlox::token::Literal::Str(s)) => assert_eq!(s, "hello"),
        other => panic!("unexpected literal {:?}", other),
    }
}

#[test]
fn globals_define_get_and_set() {
    let mut globals = Globals::new();
    assert!(globals.get(&"a".to_string()).is_none());
    globals.define("a".to_string(), Value::Number(1.0f64.to_bits()));
    assert!(matches!(globals.get(&"a".to_string()), Some(Value::Number(_))));
    assert!(globals.set_existing(&"a".to_string(), Value::Nil));
    assert!(matches!(globals.get(&"a".to_string()), Some(Value::Nil)));
    assert!(!globals.set_existing(&"b".to_string(), Value::Nil));
    globals.define("a".to_string(), Value::Boolean(true));
    assert!(matches!(globals.get(&"a".to_string()), Some(Value::Boolean(true))));
}

#[test]
fn call_frame_moves_its_instruction_pointer() {
    let mut frame = CallFrame { func_index: 0, ip: 10, slot: 1 };
    frame.inc(5);
    assert_eq!(frame.ip, 15);
    frame.dec(3);
    assert_eq!(frame.ip, 12);
}

#[test]
fn compile_then_disassemble_is_deterministic() {
    let source = "var x = 1; { var y = 2; print x + y; } if (x < 2) print \"small\"; while (false) { print nil; }";
    let mut first = Compiler::new();
    let mut second = Compiler::new();
    let f1 = first.compile(source).unwrap();
    let f2 = second.compile(source).unwrap();
    let d1 = f1.disassemble();
    let d2 = f2.disassemble();
    assert_eq!(d1, d2);
    assert!(!d1.is_empty());
}

#[test]
fn disassembly_lists_emitted_instructions() {
    let mut compiler = Compiler::new();
    let function = compiler.compile("print 1 + 2;").unwrap();
    let listing = function.disassemble();
    assert!(listing.contains("OP_CONSTANT"));
    assert!(listing.contains("OP_ADD"));
    assert!(listing.contains("OP_PRINT"));
    assert!(listing.contains("OP_RETURN"));
}

#[test]
fn interpret_result_messages() {
    assert_eq!(InterpretResult::CompilerError.message(), "Fail to compile source code");
    assert_eq!(InterpretResult::RuntimeError.message(), "Runtime error");
}

#[test]
fn test_tokenize_result_check() {
    let sut: Tokenizer = Tokenizer::new("+");
    let result = sut.tokenize();

    assert!(result.is_ok())
}

#[test]
fn test_tokenize_result_empty_input() {
    let sut: Tokenizer = Tokenizer::new("");
    let result = sut.tokenize();

    assert!(result.is_err())
}

#[test]
fn test_tokenize_result_single_token() {
    let sut: Tokenizer = Tokenizer::new("+");
    let result = sut.tokenize().unwrap();
    assert_eq!(result.first().unwrap(), &Token::new(TT::Plus, 1, "+".to_string()));
    assert_eq!(result.last().unwrap(), &Token::new(TT::EndOfFile, 1, "".to_string()));
}
