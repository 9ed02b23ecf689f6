use openvm_aot::compiler::compile_and_execute_aot;
use openvm_aot::instruction::{
    BaseAluOpcode, Instruction, Program, VmExe, RV32_IMM_AS, RV32_REGISTER_AS,
};

#[test]
fn test_aot_base_alu_add_immediate() {
    // Create a simple instruction: addi x10, x0, 42
    let instruction = Instruction {
        opcode: BaseAluOpcode::ADD.global_opcode(),
        a: 10,               // rd = x10
        b: 0,                // rs1 = x0
        c: 42,               // imm = 42
        d: RV32_REGISTER_AS, // register format
        e: RV32_IMM_AS,      // immediate format
        f: 0,
        g: 0,
    };

    let program = Program::from_instructions(&[instruction]);

    let exe = VmExe {
        program,
        pc_start: 0,
    };

    // Test AOT compilation
    let assembly = compile_and_execute_aot(&exe).expect("AOT compilation should succeed");

    // Verify assembly contains expected patterns
    assert!(
        assembly.contains("openvm_aot_start"),
        "Should contain entry point"
    );
    assert!(assembly.contains(".pc_00000000"), "Should contain PC label");
    assert!(
        assembly.contains("addi x10, x0, 42"),
        "Should contain instruction comment"
    );
    assert!(
        assembly.contains("mov dword ptr [rbx + 40], 42"),
        "Should contain direct immediate store"
    );

    println!("Generated assembly:");
    println!("{}", assembly);
}

#[test]
fn test_aot_base_alu_add_register() {
    // Create an instruction: add x10, x1, x2
    let instruction = Instruction {
        opcode: BaseAluOpcode::ADD.global_opcode(),
        a: 10,               // rd = x10
        b: 1,                // rs1 = x1
        c: 2,                // rs2 = x2
        d: RV32_REGISTER_AS, // register format
        e: RV32_REGISTER_AS, // register format
        f: 0,
        g: 0,
    };

    let program = Program::from_instructions(&[instruction]);

    let exe = VmExe {
        program,
        pc_start: 0,
    };

    // Test AOT compilation
    let assembly = compile_and_execute_aot(&exe).expect("AOT compilation should succeed");

    // Verify assembly contains expected patterns
    assert!(
        assembly.contains("add x10, x1, x2"),
        "Should contain instruction comment"
    );
    assert!(
        assembly.contains("mov r15d, dword ptr [rbx + 4]"),
        "Should load from x1"
    );
    assert!(
        assembly.contains("add r15d, dword ptr [rbx + 8]"),
        "Should add x2"
    );
    assert!(
        assembly.contains("mov dword ptr [rbx + 40], r15d"),
        "Should store to x10"
    );

    println!("Generated register add assembly:");
    println!("{}", assembly);
}

#[test]
fn test_aot_base_alu_sub_immediate() {
    // Create an instruction: subi x5, x1, 10
    let instruction = Instruction {
        opcode: BaseAluOpcode::SUB.global_opcode(),
        a: 5,  // rd = x5
        b: 1,  // rs1 = x1
        c: 10, // imm = 10
        d: RV32_REGISTER_AS,
        e: RV32_IMM_AS,
        f: 0,
        g: 0,
    };

    let program = Program::from_instructions(&[instruction]);

    let exe = VmExe {
        program,
        pc_start: 0,
    };

    let assembly = compile_and_execute_aot(&exe).expect("AOT compilation should succeed");

    assert!(
        assembly.contains("subi x5, x1, 10"),
        "Should contain instruction comment"
    );
    assert!(
        assembly.contains("sub r15d, 10"),
        "Should subtract immediate"
    );

    println!("Generated SUB immediate assembly:");
    println!("{}", assembly);
}

#[test]
fn test_aot_base_alu_xor_register() {
    // Create an instruction: xor x3, x1, x2
    let instruction = Instruction {
        opcode: BaseAluOpcode::XOR.global_opcode(),
        a: 3, // rd = x3
        b: 1, // rs1 = x1
        c: 2, // rs2 = x2
        d: RV32_REGISTER_AS,
        e: RV32_REGISTER_AS,
        f: 0,
        g: 0,
    };

    let program = Program::from_instructions(&[instruction]);

    let exe = VmExe {
        program,
        pc_start: 0,
    };

    let assembly = compile_and_execute_aot(&exe).expect("AOT compilation should succeed");

    assert!(
        assembly.contains("xor x3, x1, x2"),
        "Should contain instruction comment"
    );
    assert!(
        assembly.contains("xor r15d, dword ptr [rbx + 8]"),
        "Should XOR with x2"
    );

    println!("Generated XOR register assembly:");
    println!("{}", assembly);
}

#[test]
fn test_aot_base_alu_or_immediate() {
    // Create an instruction: ori x7, x0, 255
    let instruction = Instruction {
        opcode: BaseAluOpcode::OR.global_opcode(),
        a: 7,   // rd = x7
        b: 0,   // rs1 = x0
        c: 255, // imm = 255
        d: RV32_REGISTER_AS,
        e: RV32_IMM_AS,
        f: 0,
        g: 0,
    };

    let program = Program::from_instructions(&[instruction]);

    let exe = VmExe {
        program,
        pc_start: 0,
    };

    let assembly = compile_and_execute_aot(&exe).expect("AOT compilation should succeed");

    assert!(
        assembly.contains("ori x7, x0, 255"),
        "Should contain instruction comment"
    );
    assert!(
        assembly.contains("mov dword ptr [rbx + 28], 255"),
        "Should store immediate result"
    );

    println!("Generated OR immediate assembly:");
    println!("{}", assembly);
}

#[test]
fn test_aot_base_alu_and_register() {
    // Create an instruction: and x4, x1, x2
    let instruction = Instruction {
        opcode: BaseAluOpcode::AND.global_opcode(),
        a: 4, // rd = x4
        b: 1, // rs1 = x1
        c: 2, // rs2 = x2
        d: RV32_REGISTER_AS,
        e: RV32_REGISTER_AS,
        f: 0,
        g: 0,
    };

    let program = Program::from_instructions(&[instruction]);

    let exe = VmExe {
        program,
        pc_start: 0,
    };

    let assembly = compile_and_execute_aot(&exe).expect("AOT compilation should succeed");

    assert!(
        assembly.contains("and x4, x1, x2"),
        "Should contain instruction comment"
    );
    assert!(
        assembly.contains("and r15d, dword ptr [rbx + 8]"),
        "Should AND with x2"
    );

    println!("Generated AND register assembly:");
    println!("{}", assembly);
}

#[test]
fn test_aot_base_alu_zero_optimizations() {
    // Test AND with x0 (should always result in 0)
    let instruction = Instruction {
        opcode: BaseAluOpcode::AND.global_opcode(),
        a: 5, // rd = x5
        b: 0, // rs1 = x0
        c: 7, // rs2 = x7
        d: RV32_REGISTER_AS,
        e: RV32_REGISTER_AS,
        f: 0,
        g: 0,
    };

    let program = Program::from_instructions(&[instruction]);

    let exe = VmExe {
        program,
        pc_start: 0,
    };

    let assembly = compile_and_execute_aot(&exe).expect("AOT compilation should succeed");

    assert!(
        assembly.contains("and x5, x0, x7"),
        "Should contain instruction comment"
    );
    assert!(
        assembly.contains("mov dword ptr [rbx + 20], 0"),
        "Should store 0 directly (X&0 = 0)"
    );

    println!("Generated zero optimization assembly:");
    println!("{}", assembly);
}
