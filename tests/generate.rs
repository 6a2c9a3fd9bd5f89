use codegen_meta::gen_types::generate;

#[test]
fn generation_is_deterministic() {
    let a = generate().contents();
    let b = generate().contents();
    assert_eq!(a, b);
}

#[test]
fn generated_file_blocks() {
    let fmt = generate();
    let lines = fmt.lines();
    assert_eq!(
        lines[0],
        "/// CPU flags representing the result of an integer comparison. These flags can be tested with an :type:`intcc` condition code.\n"
    );
    assert_eq!(lines[1], "pub const IFLAGS: Type = Type(0x1);\n\n");
    let text = fmt.contents();
    assert!(text.contains("/// A boolean type with 8 bits.\npub const B8: Type = Type(0x71);\n\n"));
    assert!(text.contains("pub const F64: Type = Type(0x7a);\n\n"));
    assert!(text.contains(
        "/// A SIMD vector with 4 lanes containing a `i32` each.\npub const I32X4: Type = Type(0xa7);\n\n"
    ));
    assert!(text.contains("pub const I8X64: Type = Type(0xe5);\n\n"));
    assert!(!text.contains("B1X"));
    assert!(!text.contains("I64X1"));
}

#[test]
fn generated_file_order() {
    let text = generate().contents();
    let pos = |s: &str| text.find(s).unwrap();
    assert!(pos("IFLAGS:") < pos("FFLAGS:"));
    assert!(pos("FFLAGS:") < pos("B1:"));
    assert!(pos("B64:") < pos("I8:"));
    assert!(pos("I64:") < pos("F32:"));
    assert!(pos("F64:") < pos("B8X8:"));
    assert!(pos("I32X2:") < pos("B8X16:"));
    // 13 scalars; vectors of 64 bits: 7, of 128: 10, of 256: 10, of 512: 10.
    assert_eq!(text.matches("pub const ").count(), 13 + 7 + 10 + 10 + 10);
}
