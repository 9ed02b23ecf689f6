use openvm_aot::base_alu::{
    generate_add_imm_assembly, generate_add_reg_assembly, generate_and_imm_assembly,
    generate_and_reg_assembly, generate_or_imm_assembly, generate_or_reg_assembly,
    generate_sub_imm_assembly, generate_sub_reg_assembly, generate_xor_imm_assembly,
    generate_xor_reg_assembly,
};

#[test]
fn fragment_add_imm_exact() {
    assert_eq!(
        generate_add_imm_assembly(10, 0, 42),
        "    ; addi x10, x0, 42 (rd=rs1+imm)\n    mov dword ptr [rbx + 40], 42  ; x10 = 42"
    );
    assert_eq!(
        generate_add_imm_assembly(5, 1, 10),
        "    ; addi x5, x1, 10 (rd=rs1+imm)\n    mov r15d, dword ptr [rbx + 4] ; Load x1\n    add r15d, 10                  ; Add immediate\n    mov dword ptr [rbx + 20], r15d ; Store to x5"
    );
    assert_eq!(
        generate_add_imm_assembly(31, 7, -5),
        "    ; addi x31, x7, -5 (rd=rs1+imm)\n    mov r15d, dword ptr [rbx + 28] ; Load x7\n    add r15d, -5                  ; Add immediate\n    mov dword ptr [rbx + 124], r15d ; Store to x31"
    );
    assert_eq!(
        generate_add_imm_assembly(3, 0, -1),
        "    ; addi x3, x0, -1 (rd=rs1+imm)\n    mov dword ptr [rbx + 12], -1  ; x3 = -1"
    );
    assert_eq!(
        generate_add_imm_assembly(0, 0, 0),
        "    ; addi x0, x0, 0 (rd=rs1+imm)\n    mov dword ptr [rbx + 0], 0  ; x0 = 0"
    );
    assert_eq!(
        generate_add_imm_assembly(1, 2, 2147483647),
        "    ; addi x1, x2, 2147483647 (rd=rs1+imm)\n    mov r15d, dword ptr [rbx + 8] ; Load x2\n    add r15d, 2147483647                  ; Add immediate\n    mov dword ptr [rbx + 4], r15d ; Store to x1"
    );
}

#[test]
fn fragment_add_reg_exact() {
    assert_eq!(
        generate_add_reg_assembly(10, 1, 2),
        "    ; add x10, x1, x2 (rd=rs1+rs2)\n    mov r15d, dword ptr [rbx + 4] ; Load x1\n    add r15d, dword ptr [rbx + 8] ; Add x2\n    mov dword ptr [rbx + 40], r15d ; Store to x10"
    );
    assert_eq!(
        generate_add_reg_assembly(5, 0, 7),
        "    ; add x5, x0, x7 (rd=rs1+rs2)\n    mov r15d, dword ptr [rbx + 28] ; Load x7\n    mov dword ptr [rbx + 20], r15d ; Store to x5 (0+rs2 = rs2)"
    );
    assert_eq!(
        generate_add_reg_assembly(4, 1, 0),
        "    ; add x4, x1, x0 (rd=rs1+rs2)\n    mov r15d, dword ptr [rbx + 4] ; Load x1\n    mov dword ptr [rbx + 16], r15d ; Store to x4 (rs1+0 = rs1)"
    );
    assert_eq!(
        generate_add_reg_assembly(6, 0, 0),
        "    ; add x6, x0, x0 (rd=rs1+rs2)\n    mov dword ptr [rbx + 24], 0  ; x6 = 0+0"
    );
    assert_eq!(
        generate_add_reg_assembly(31, 31, 31),
        "    ; add x31, x31, x31 (rd=rs1+rs2)\n    mov r15d, dword ptr [rbx + 124] ; Load x31\n    add r15d, dword ptr [rbx + 124] ; Add x31\n    mov dword ptr [rbx + 124], r15d ; Store to x31"
    );
}

#[test]
fn fragment_sub_imm_exact() {
    assert_eq!(
        generate_sub_imm_assembly(10, 0, 42),
        "    ; subi x10, x0, 42 (rd=rs1-imm)\n    mov dword ptr [rbx + 40], 4294967254  ; x10 = 0-42"
    );
    assert_eq!(
        generate_sub_imm_assembly(5, 1, 10),
        "    ; subi x5, x1, 10 (rd=rs1-imm)\n    mov r15d, dword ptr [rbx + 4] ; Load x1\n    sub r15d, 10                  ; Subtract immediate\n    mov dword ptr [rbx + 20], r15d ; Store to x5"
    );
    assert_eq!(
        generate_sub_imm_assembly(31, 7, -5),
        "    ; subi x31, x7, -5 (rd=rs1-imm)\n    mov r15d, dword ptr [rbx + 28] ; Load x7\n    sub r15d, -5                  ; Subtract immediate\n    mov dword ptr [rbx + 124], r15d ; Store to x31"
    );
    assert_eq!(
        generate_sub_imm_assembly(3, 0, -1),
        "    ; subi x3, x0, -1 (rd=rs1-imm)\n    mov dword ptr [rbx + 12], 1  ; x3 = 0--1"
    );
    assert_eq!(
        generate_sub_imm_assembly(0, 0, 0),
        "    ; subi x0, x0, 0 (rd=rs1-imm)\n    mov dword ptr [rbx + 0], 0  ; x0 = 0-0"
    );
    assert_eq!(
        generate_sub_imm_assembly(1, 2, 2147483647),
        "    ; subi x1, x2, 2147483647 (rd=rs1-imm)\n    mov r15d, dword ptr [rbx + 8] ; Load x2\n    sub r15d, 2147483647                  ; Subtract immediate\n    mov dword ptr [rbx + 4], r15d ; Store to x1"
    );
}

#[test]
fn fragment_sub_reg_exact() {
    assert_eq!(
        generate_sub_reg_assembly(10, 1, 2),
        "    ; sub x10, x1, x2 (rd=rs1-rs2)\n    mov r15d, dword ptr [rbx + 4] ; Load x1\n    sub r15d, dword ptr [rbx + 8] ; Subtract x2\n    mov dword ptr [rbx + 40], r15d ; Store to x10"
    );
    assert_eq!(
        generate_sub_reg_assembly(5, 0, 7),
        "    ; sub x5, x0, x7 (rd=rs1-rs2)\n    mov r15d, dword ptr [rbx + 28] ; Load x7\n    neg r15d                      ; Negate (0-rs2)\n    mov dword ptr [rbx + 20], r15d ; Store to x5"
    );
    assert_eq!(
        generate_sub_reg_assembly(4, 1, 0),
        "    ; sub x4, x1, x0 (rd=rs1-rs2)\n    mov r15d, dword ptr [rbx + 4] ; Load x1\n    mov dword ptr [rbx + 16], r15d ; Store to x4 (rs1-0 = rs1)"
    );
    assert_eq!(
        generate_sub_reg_assembly(6, 0, 0),
        "    ; sub x6, x0, x0 (rd=rs1-rs2)\n    mov dword ptr [rbx + 24], 0  ; x6 = 0-0"
    );
    assert_eq!(
        generate_sub_reg_assembly(31, 31, 31),
        "    ; sub x31, x31, x31 (rd=rs1-rs2)\n    mov r15d, dword ptr [rbx + 124] ; Load x31\n    sub r15d, dword ptr [rbx + 124] ; Subtract x31\n    mov dword ptr [rbx + 124], r15d ; Store to x31"
    );
}

#[test]
fn fragment_xor_imm_exact() {
    assert_eq!(
        generate_xor_imm_assembly(10, 0, 42),
        "    ; xori x10, x0, 42 (rd=rs1^imm)\n    mov dword ptr [rbx + 40], 42  ; x10 = 0^42"
    );
    assert_eq!(
        generate_xor_imm_assembly(5, 1, 10),
        "    ; xori x5, x1, 10 (rd=rs1^imm)\n    mov r15d, dword ptr [rbx + 4] ; Load x1\n    xor r15d, 10                  ; XOR immediate\n    mov dword ptr [rbx + 20], r15d ; Store to x5"
    );
    assert_eq!(
        generate_xor_imm_assembly(31, 7, -5),
        "    ; xori x31, x7, -5 (rd=rs1^imm)\n    mov r15d, dword ptr [rbx + 28] ; Load x7\n    xor r15d, -5                  ; XOR immediate\n    mov dword ptr [rbx + 124], r15d ; Store to x31"
    );
    assert_eq!(
        generate_xor_imm_assembly(3, 0, -1),
        "    ; xori x3, x0, -1 (rd=rs1^imm)\n    mov dword ptr [rbx + 12], 4294967295  ; x3 = 0^-1"
    );
    assert_eq!(
        generate_xor_imm_assembly(0, 0, 0),
        "    ; xori x0, x0, 0 (rd=rs1^imm)\n    mov dword ptr [rbx + 0], 0  ; x0 = 0^0"
    );
    assert_eq!(
        generate_xor_imm_assembly(1, 2, 2147483647),
        "    ; xori x1, x2, 2147483647 (rd=rs1^imm)\n    mov r15d, dword ptr [rbx + 8] ; Load x2\n    xor r15d, 2147483647                  ; XOR immediate\n    mov dword ptr [rbx + 4], r15d ; Store to x1"
    );
}

#[test]
fn fragment_xor_reg_exact() {
    assert_eq!(
        generate_xor_reg_assembly(10, 1, 2),
        "    ; xor x10, x1, x2 (rd=rs1^rs2)\n    mov r15d, dword ptr [rbx + 4] ; Load x1\n    xor r15d, dword ptr [rbx + 8] ; XOR x2\n    mov dword ptr [rbx + 40], r15d ; Store to x10"
    );
    assert_eq!(
        generate_xor_reg_assembly(5, 0, 7),
        "    ; xor x5, x0, x7 (rd=rs1^rs2)\n    mov r15d, dword ptr [rbx + 28] ; Load x7\n    mov dword ptr [rbx + 20], r15d ; Store to x5 (0^rs2 = rs2)"
    );
    assert_eq!(
        generate_xor_reg_assembly(4, 1, 0),
        "    ; xor x4, x1, x0 (rd=rs1^rs2)\n    mov r15d, dword ptr [rbx + 4] ; Load x1\n    mov dword ptr [rbx + 16], r15d ; Store to x4 (rs1^0 = rs1)"
    );
    assert_eq!(
        generate_xor_reg_assembly(6, 0, 0),
        "    ; xor x6, x0, x0 (rd=rs1^rs2)\n    mov dword ptr [rbx + 24], 0  ; x6 = 0^0"
    );
    assert_eq!(
        generate_xor_reg_assembly(31, 31, 31),
        "    ; xor x31, x31, x31 (rd=rs1^rs2)\n    mov r15d, dword ptr [rbx + 124] ; Load x31\n    xor r15d, dword ptr [rbx + 124] ; XOR x31\n    mov dword ptr [rbx + 124], r15d ; Store to x31"
    );
}

#[test]
fn fragment_or_imm_exact() {
    assert_eq!(
        generate_or_imm_assembly(10, 0, 42),
        "    ; ori x10, x0, 42 (rd=rs1|imm)\n    mov dword ptr [rbx + 40], 42  ; x10 = 0|42"
    );
    assert_eq!(
        generate_or_imm_assembly(5, 1, 10),
        "    ; ori x5, x1, 10 (rd=rs1|imm)\n    mov r15d, dword ptr [rbx + 4] ; Load x1\n    or r15d, 10                   ; OR immediate\n    mov dword ptr [rbx + 20], r15d ; Store to x5"
    );
    assert_eq!(
        generate_or_imm_assembly(31, 7, -5),
        "    ; ori x31, x7, -5 (rd=rs1|imm)\n    mov r15d, dword ptr [rbx + 28] ; Load x7\n    or r15d, -5                   ; OR immediate\n    mov dword ptr [rbx + 124], r15d ; Store to x31"
    );
    assert_eq!(
        generate_or_imm_assembly(3, 0, -1),
        "    ; ori x3, x0, -1 (rd=rs1|imm)\n    mov dword ptr [rbx + 12], 4294967295  ; x3 = 0|-1"
    );
    assert_eq!(
        generate_or_imm_assembly(0, 0, 0),
        "    ; ori x0, x0, 0 (rd=rs1|imm)\n    mov dword ptr [rbx + 0], 0  ; x0 = 0|0"
    );
    assert_eq!(
        generate_or_imm_assembly(1, 2, 2147483647),
        "    ; ori x1, x2, 2147483647 (rd=rs1|imm)\n    mov r15d, dword ptr [rbx + 8] ; Load x2\n    or r15d, 2147483647                   ; OR immediate\n    mov dword ptr [rbx + 4], r15d ; Store to x1"
    );
}

#[test]
fn fragment_or_reg_exact() {
    assert_eq!(
        generate_or_reg_assembly(10, 1, 2),
        "    ; or x10, x1, x2 (rd=rs1|rs2)\n    mov r15d, dword ptr [rbx + 4] ; Load x1\n    or r15d, dword ptr [rbx + 8]  ; OR x2\n    mov dword ptr [rbx + 40], r15d ; Store to x10"
    );
    assert_eq!(
        generate_or_reg_assembly(5, 0, 7),
        "    ; or x5, x0, x7 (rd=rs1|rs2)\n    mov r15d, dword ptr [rbx + 28] ; Load x7\n    mov dword ptr [rbx + 20], r15d ; Store to x5 (0|rs2 = rs2)"
    );
    assert_eq!(
        generate_or_reg_assembly(4, 1, 0),
        "    ; or x4, x1, x0 (rd=rs1|rs2)\n    mov r15d, dword ptr [rbx + 4] ; Load x1\n    mov dword ptr [rbx + 16], r15d ; Store to x4 (rs1|0 = rs1)"
    );
    assert_eq!(
        generate_or_reg_assembly(6, 0, 0),
        "    ; or x6, x0, x0 (rd=rs1|rs2)\n    mov dword ptr [rbx + 24], 0  ; x6 = 0|0"
    );
    assert_eq!(
        generate_or_reg_assembly(31, 31, 31),
        "    ; or x31, x31, x31 (rd=rs1|rs2)\n    mov r15d, dword ptr [rbx + 124] ; Load x31\n    or r15d, dword ptr [rbx + 124]  ; OR x31\n    mov dword ptr [rbx + 124], r15d ; Store to x31"
    );
}

#[test]
fn fragment_and_imm_exact() {
    assert_eq!(
        generate_and_imm_assembly(10, 0, 42),
        "    ; andi x10, x0, 42 (rd=rs1&imm)\n    mov dword ptr [rbx + 40], 0  ; x10 = 0&42 = 0"
    );
    assert_eq!(
        generate_and_imm_assembly(5, 1, 10),
        "    ; andi x5, x1, 10 (rd=rs1&imm)\n    mov r15d, dword ptr [rbx + 4] ; Load x1\n    and r15d, 10                  ; AND immediate\n    mov dword ptr [rbx + 20], r15d ; Store to x5"
    );
    assert_eq!(
        generate_and_imm_assembly(31, 7, -5),
        "    ; andi x31, x7, -5 (rd=rs1&imm)\n    mov r15d, dword ptr [rbx + 28] ; Load x7\n    and r15d, -5                  ; AND immediate\n    mov dword ptr [rbx + 124], r15d ; Store to x31"
    );
    assert_eq!(
        generate_and_imm_assembly(3, 0, -1),
        "    ; andi x3, x0, -1 (rd=rs1&imm)\n    mov dword ptr [rbx + 12], 0  ; x3 = 0&-1 = 0"
    );
    assert_eq!(
        generate_and_imm_assembly(0, 0, 0),
        "    ; andi x0, x0, 0 (rd=rs1&imm)\n    mov dword ptr [rbx + 0], 0  ; x0 = 0&0 = 0"
    );
    assert_eq!(
        generate_and_imm_assembly(1, 2, 2147483647),
        "    ; andi x1, x2, 2147483647 (rd=rs1&imm)\n    mov r15d, dword ptr [rbx + 8] ; Load x2\n    and r15d, 2147483647                  ; AND immediate\n    mov dword ptr [rbx + 4], r15d ; Store to x1"
    );
}

#[test]
fn fragment_and_reg_exact() {
    assert_eq!(
        generate_and_reg_assembly(10, 1, 2),
        "    ; and x10, x1, x2 (rd=rs1&rs2)\n    mov r15d, dword ptr [rbx + 4] ; Load x1\n    and r15d, dword ptr [rbx + 8] ; AND x2\n    mov dword ptr [rbx + 40], r15d ; Store to x10"
    );
    assert_eq!(
        generate_and_reg_assembly(5, 0, 7),
        "    ; and x5, x0, x7 (rd=rs1&rs2)\n    mov dword ptr [rbx + 20], 0  ; x5 = X&0 = 0"
    );
    assert_eq!(
        generate_and_reg_assembly(4, 1, 0),
        "    ; and x4, x1, x0 (rd=rs1&rs2)\n    mov dword ptr [rbx + 16], 0  ; x4 = X&0 = 0"
    );
    assert_eq!(
        generate_and_reg_assembly(6, 0, 0),
        "    ; and x6, x0, x0 (rd=rs1&rs2)\n    mov dword ptr [rbx + 24], 0  ; x6 = X&0 = 0"
    );
    assert_eq!(
        generate_and_reg_assembly(31, 31, 31),
        "    ; and x31, x31, x31 (rd=rs1&rs2)\n    mov r15d, dword ptr [rbx + 124] ; Load x31\n    and r15d, dword ptr [rbx + 124] ; AND x31\n    mov dword ptr [rbx + 124], r15d ; Store to x31"
    );
}

#[test]
fn fragments_hold_no_label_jump_or_cell_register() {
    let fragments = vec![
        generate_add_imm_assembly(10, 0, 42),
        generate_add_imm_assembly(14, 14, 14),
        generate_add_reg_assembly(14, 1, 4),
        generate_sub_imm_assembly(5, 1, -2147483648),
        generate_sub_reg_assembly(31, 0, 14),
        generate_xor_imm_assembly(1, 14, 114),
        generate_xor_reg_assembly(3, 0, 0),
        generate_or_imm_assembly(0, 0, 0),
        generate_or_reg_assembly(14, 14, 0),
        generate_and_imm_assembly(7, 0, 9),
        generate_and_reg_assembly(7, 14, 14),
    ];
    for text in &fragments {
        assert!(!text.contains(':'), "{}", text);
        assert!(!text.contains('j'), "{}", text);
        assert!(!text.contains('l'), "{}", text);
        assert!(!text.contains("r14"), "{}", text);
        assert!(!text.contains("rsi"), "{}", text);
        assert!(!text.contains("rdx"), "{}", text);
        assert!(text.contains("rbx"), "{}", text);
    }
}
