use riscv_assembler::{
    create_register_map, lookup_operation, parse_btype, parse_instruction, parse_itype,
    parse_jtype, parse_rtype, parse_stype, parse_tokens, parse_utype, BType, BTypeInstruction,
    IType, ITypeInstruction, Instruction, JType, JTypeInstruction, Operation, RType,
    RTypeInstruction, SType, STypeInstruction, UType, UTypeInstruction,
};

fn tokens(line: &str) -> Vec<String> {
    line.split(' ').map(|s| s.to_string()).collect()
}

fn parse(line: &str) -> Option<Instruction> {
    parse_instruction(tokens(line))
}

#[test]
fn every_mnemonic_is_looked_up() {
    let table = [
        ("add", Operation::R(RTypeInstruction::Add)),
        ("sub", Operation::R(RTypeInstruction::Sub)),
        ("sll", Operation::R(RTypeInstruction::Sll)),
        ("slt", Operation::R(RTypeInstruction::Slt)),
        ("sltu", Operation::R(RTypeInstruction::Sltu)),
        ("xor", Operation::R(RTypeInstruction::Xor)),
        ("srl", Operation::R(RTypeInstruction::Srl)),
        ("sra", Operation::R(RTypeInstruction::Sra)),
        ("or", Operation::R(RTypeInstruction::Or)),
        ("and", Operation::R(RTypeInstruction::And)),
        ("addi", Operation::I(ITypeInstruction::Addi)),
        ("slti", Operation::I(ITypeInstruction::Slti)),
        ("sltiu", Operation::I(ITypeInstruction::Sltiu)),
        ("xori", Operation::I(ITypeInstruction::Xori)),
        ("ori", Operation::I(ITypeInstruction::Ori)),
        ("andi", Operation::I(ITypeInstruction::Andi)),
        ("lb", Operation::I(ITypeInstruction::Lb)),
        ("lh", Operation::I(ITypeInstruction::Lh)),
        ("lw", Operation::I(ITypeInstruction::Lw)),
        ("lbu", Operation::I(ITypeInstruction::Lbu)),
        ("lhu", Operation::I(ITypeInstruction::Lhu)),
        ("jalr", Operation::I(ITypeInstruction::Jalr)),
        ("sb", Operation::S(STypeInstruction::Sb)),
        ("sh", Operation::S(STypeInstruction::Sh)),
        ("sw", Operation::S(STypeInstruction::Sw)),
        ("beq", Operation::B(BTypeInstruction::Beq)),
        ("bne", Operation::B(BTypeInstruction::Bne)),
        ("blt", Operation::B(BTypeInstruction::Blt)),
        ("bge", Operation::B(BTypeInstruction::Bge)),
        ("bltu", Operation::B(BTypeInstruction::Bltu)),
        ("bgeu", Operation::B(BTypeInstruction::Bgeu)),
        ("lui", Operation::U(UTypeInstruction::Lui)),
        ("auipc", Operation::U(UTypeInstruction::Auipc)),
        ("jal", Operation::J(JTypeInstruction::Jal)),
    ];
    for (name, operation) in table {
        assert_eq!(lookup_operation(name), Some(operation), "{}", name);
    }
}

#[test]
fn unknown_mnemonic_is_not_looked_up() {
    for name in ["", "xyz", "ADD", "Add", "ad", "addd", "add ", " add", "startupilhu", "mul", "nop", "li", "j", "ret", "lwu", "sd", "ld"] {
        assert_eq!(lookup_operation(name), None, "{:?}", name);
    }
}

#[test]
fn rtype_line() {
    let registers = create_register_map();
    assert_eq!(
        parse_rtype(&tokens("add x1 x2 x3"), RTypeInstruction::Add, &registers),
        Some(Instruction::RType(RType { instruction: RTypeInstruction::Add, rd: 1, rs1: 2, rs2: 3 }))
    );
    assert_eq!(
        parse_rtype(&tokens("anything a0 fp t6"), RTypeInstruction::Xor, &registers),
        Some(Instruction::RType(RType { instruction: RTypeInstruction::Xor, rd: 10, rs1: 8, rs2: 31 }))
    );
}

#[test]
fn rtype_line_that_fails() {
    let registers = create_register_map();
    for line in ["add", "add x1", "add x1 x2", "add x1 x2 x3 x4", "add q x2 x3", "add x1 q x3", "add x1 x2 q", "add x1 x2 3", "add x1 x2 x256"] {
        assert_eq!(parse_rtype(&tokens(line), RTypeInstruction::Add, &registers), None, "{}", line);
    }
    assert_eq!(parse_rtype(&[], RTypeInstruction::Add, &registers), None);
}

#[test]
fn itype_line() {
    let registers = create_register_map();
    assert_eq!(
        parse_itype(&tokens("addi x2 x2 4"), ITypeInstruction::Addi, &registers),
        Some(Instruction::IType(IType { instruction: ITypeInstruction::Addi, rd: 2, rs1: 2, imm: 4 }))
    );
    assert_eq!(
        parse_itype(&tokens("lw ra sp -32768"), ITypeInstruction::Lw, &registers),
        Some(Instruction::IType(IType { instruction: ITypeInstruction::Lw, rd: 1, rs1: 2, imm: -32768 }))
    );
    assert_eq!(
        parse_itype(&tokens("jalr x0 x1 +32767"), ITypeInstruction::Jalr, &registers),
        Some(Instruction::IType(IType { instruction: ITypeInstruction::Jalr, rd: 0, rs1: 1, imm: 32767 }))
    );
}

#[test]
fn itype_line_that_fails() {
    let registers = create_register_map();
    for line in ["addi x1 x2", "addi x1 x2 3 4", "addi q x2 3", "addi x1 q 3", "addi x1 x2 x3", "addi x1 x2 32768", "addi x1 x2 -32769", "addi x1 x2 0x10", "addi x1 x2 ", "lw x1 8(x2)", "lw x1 8(x2) 0"] {
        assert_eq!(parse_itype(&tokens(line), ITypeInstruction::Addi, &registers), None, "{:?}", line);
    }
}

#[test]
fn stype_line() {
    assert_eq!(
        parse_stype(&tokens("sw x10 0(x2)"), STypeInstruction::Sw),
        Some(Instruction::SType(SType { instruction: STypeInstruction::Sw, rs1: 2, rs2: 10, imm: 0 }))
    );
    assert_eq!(
        parse_stype(&tokens("sb x31 -2048(x255)"), STypeInstruction::Sb),
        Some(Instruction::SType(SType { instruction: STypeInstruction::Sb, rs1: 255, rs2: 31, imm: -2048 }))
    );
}

#[test]
fn stype_operand_is_cut_at_any_parenthesis() {
    let expected =
        Some(Instruction::SType(SType { instruction: STypeInstruction::Sh, rs1: 2, rs2: 10, imm: 8 }));
    for line in ["sh x10 8(x2)", "sh x10 8(x2", "sh x10 8)x2", "sh x10 (8)(x2)", "sh x10 ((8))x2", "sh x10 )8(x2("] {
        assert_eq!(parse_stype(&tokens(line), STypeInstruction::Sh), expected, "{}", line);
    }
}

#[test]
fn stype_line_that_fails() {
    for line in ["sw", "sw x10", "sw x10 0(x2) x3", "sw x10 0", "sw x10 (x2)", "sw x10 0()", "sw x10 0(x2)(x3)", "sw x10 x2", "sw a0 0(x2)", "sw x10 0(a2)", "sw r10 0(x2)", "sw x10 0(r2)", "sw 910 0(x2)", "sw é10 0(x2)", "sw s11 0(x2)", "sw x10 0(t3)", "sw x10 0(sp)", "sw x10 q(x2)", "sw x 0(x2)", "sw x10 0(x)", "sw x256 0(x2)", "sw x10 32768(x2)", "sw  0(x2)", "sw x10 "] {
        assert_eq!(parse_stype(&tokens(line), STypeInstruction::Sw), None, "{:?}", line);
    }
}

#[test]
fn btype_line() {
    let registers = create_register_map();
    assert_eq!(
        parse_btype(&tokens("beq x1 x2 16"), BTypeInstruction::Beq, &registers),
        Some(Instruction::BType(BType { instruction: BTypeInstruction::Beq, rs1: 1, rs2: 2, imm: 16 }))
    );
    assert_eq!(
        parse_btype(&tokens("bgeu a0 zero -6"), BTypeInstruction::Bgeu, &registers),
        Some(Instruction::BType(BType { instruction: BTypeInstruction::Bgeu, rs1: 10, rs2: 0, imm: -6 }))
    );
}

#[test]
fn btype_line_that_fails() {
    let registers = create_register_map();
    for line in ["beq x1 x2", "beq x1 x2 16 0", "beq q x2 16", "beq x1 q 16", "beq x1 x2 label", "beq x1 x2 40000"] {
        assert_eq!(parse_btype(&tokens(line), BTypeInstruction::Beq, &registers), None, "{}", line);
    }
}

#[test]
fn utype_line() {
    let registers = create_register_map();
    assert_eq!(
        parse_utype(&tokens("lui x5 305418240"), UTypeInstruction::Lui, &registers),
        Some(Instruction::UType(UType { instruction: UTypeInstruction::Lui, rd: 5, imm: 0x12345000 }))
    );
    assert_eq!(
        parse_utype(&tokens("auipc gp -2147483648"), UTypeInstruction::Auipc, &registers),
        Some(Instruction::UType(UType { instruction: UTypeInstruction::Auipc, rd: 3, imm: i32::MIN }))
    );
}

#[test]
fn utype_line_that_fails() {
    let registers = create_register_map();
    for line in ["lui x5", "lui x5 1 2", "lui q 1", "lui x5 0x12345", "lui x5 2147483648", "lui x5 x6"] {
        assert_eq!(parse_utype(&tokens(line), UTypeInstruction::Lui, &registers), None, "{}", line);
    }
}

#[test]
fn jtype_line() {
    let registers = create_register_map();
    assert_eq!(
        parse_jtype(&tokens("jal x1 512"), &registers),
        Some(Instruction::JType(JType { _instruction: JTypeInstruction::Jal, rd: 1, imm: 512 }))
    );
    assert_eq!(
        parse_jtype(&tokens("jal ra -4"), &registers),
        Some(Instruction::JType(JType { _instruction: JTypeInstruction::Jal, rd: 1, imm: -4 }))
    );
}

#[test]
fn jtype_line_that_fails() {
    let registers = create_register_map();
    for line in ["jal x1", "jal x1 2 3", "jal q 2", "jal x1 0x20000", "jal x1 label", "jal 512"] {
        assert_eq!(parse_jtype(&tokens(line), &registers), None, "{}", line);
    }
}

#[test]
fn dispatch_selects_the_format_of_the_mnemonic() {
    assert_eq!(
        parse("sra x1 x2 x3"),
        Some(Instruction::RType(RType { instruction: RTypeInstruction::Sra, rd: 1, rs1: 2, rs2: 3 }))
    );
    assert_eq!(
        parse("lhu x1 x2 3"),
        Some(Instruction::IType(IType { instruction: ITypeInstruction::Lhu, rd: 1, rs1: 2, imm: 3 }))
    );
    assert_eq!(
        parse("sb x1 3(x2)"),
        Some(Instruction::SType(SType { instruction: STypeInstruction::Sb, rs1: 2, rs2: 1, imm: 3 }))
    );
    assert_eq!(
        parse("bltu x1 x2 4"),
        Some(Instruction::BType(BType { instruction: BTypeInstruction::Bltu, rs1: 1, rs2: 2, imm: 4 }))
    );
    assert_eq!(
        parse("auipc x1 4096"),
        Some(Instruction::UType(UType { instruction: UTypeInstruction::Auipc, rd: 1, imm: 4096 }))
    );
    assert_eq!(
        parse("jal x1 4"),
        Some(Instruction::JType(JType { _instruction: JTypeInstruction::Jal, rd: 1, imm: 4 }))
    );
}

#[test]
fn dispatch_fails_on_what_is_no_instruction() {
    assert_eq!(parse_instruction(Vec::new()), None);
    for line in ["", "xyz x1 x2 x3", "ADD x1 x2 x3", "add", "add x1 x2 x3 x4", "sw x10", "lw x1 0(x2)", "startupilhu x1 x2 3", "x1 x2 x3", "addi x1 x2 x3"] {
        assert_eq!(parse(line), None, "{:?}", line);
    }
}

#[test]
fn parse_tokens_uses_the_table_it_is_given() {
    let mut registers = create_register_map();
    assert_eq!(parse_tokens(&tokens("add bp x2 x3"), &registers), None);
    registers.insert("bp".to_string(), 8);
    assert_eq!(
        parse_tokens(&tokens("add bp x2 x3"), &registers),
        Some(Instruction::RType(RType { instruction: RTypeInstruction::Add, rd: 8, rs1: 2, rs2: 3 }))
    );
}
