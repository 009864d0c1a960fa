use rlox::compiler::Compiler;

fn compiles(source: &str) -> bool {
    let mut compiler = Compiler::new();
    compiler.compile(source).is_ok()
}

/// One constant-pool entry per statement.
fn constants_program(n: usize) -> String {
    let mut src = String::new();
    for i in 0..n {
        src.push_str(&format!("print {};", i));
    }
    src
}

#[test]
fn pool_of_256_constants_compiles() {
    assert!(compiles(&constants_program(256)));
}

#[test]
fn pool_of_257_constants_is_compile_error() {
    assert!(!compiles(&constants_program(257)));
}

#[test]
fn local_255_plus_one_compiles() {
    let mut src = String::from("{");
    for i in 0..256 {
        src.push_str(&format!("var v{} = nil;", i));
    }
    src.push('}');
    assert!(compiles(&src));
}

#[test]
fn local_257_is_compile_error() {
    let mut src = String::from("{");
    for i in 0..257 {
        src.push_str(&format!("var v{} = nil;", i));
    }
    src.push('}');
    assert!(!compiles(&src));
}

/// A while body of `pairs` two-byte statements plus one nine-byte empty
/// if-statement, so the backward loop distance can hit any parity.
fn while_program(pairs: usize) -> String {
    let mut src = String::from("while (true) {if(nil){}");
    for _ in 0..pairs {
        src.push_str("print nil;");
    }
    src.push('}');
    src
}

#[test]
fn loop_distance_65535_compiles() {
    // distance = 2 * pairs + 17
    assert!(compiles(&while_program(32759)));
}

#[test]
fn loop_distance_65537_is_compile_error() {
    assert!(!compiles(&while_program(32760)));
}

/// An if body whose forward jump distance is `2 * pairs + 9 * ifs + 4`.
fn if_program(pairs: usize, ifs: usize) -> String {
    let mut src = String::from("if (nil) {");
    for _ in 0..ifs {
        src.push_str("if(nil){}");
    }
    for _ in 0..pairs {
        src.push_str("print nil;");
    }
    src.push('}');
    src
}

#[test]
fn forward_jump_of_65535_compiles() {
    assert!(compiles(&if_program(32761, 1)));
}

#[test]
fn forward_jump_of_65536_is_compile_error() {
    assert!(!compiles(&if_program(32757, 2)));
}
