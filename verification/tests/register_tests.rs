use openvm_aot::instruction::{RV32_MEMORY_AS, RV32_REGISTER_AS};
use openvm_aot::memory::{AotExecState, GuestMemory, VmState};
use openvm_aot::register_ops::{
    openvm_sync_registers_from_memory, openvm_sync_registers_to_memory, AotRegisterOps,
};

fn state() -> AotExecState {
    AotExecState::new(VmState::new_with_defaults(0, 0, GuestMemory::new(3, 256), 0, 0))
}

#[test]
fn memory_starts_zeroed() {
    let memory = GuestMemory::new(3, 256);
    assert_eq!(memory.mem.len(), 3);
    assert!(memory.mem.iter().all(|space| space.len() == 256 && space.iter().all(|b| *b == 0)));
    assert_eq!(memory.read(RV32_MEMORY_AS, 8), [0, 0, 0, 0]);
}

#[test]
fn memory_write_then_read() {
    let mut memory = GuestMemory::new(3, 16);
    memory.write(RV32_MEMORY_AS, 4, [1, 2, 3, 4]);
    assert_eq!(memory.read(RV32_MEMORY_AS, 4), [1, 2, 3, 4]);
    assert_eq!(memory.read(RV32_MEMORY_AS, 2), [0, 0, 1, 2]);
    assert_eq!(memory.mem[2], vec![0, 0, 0, 0, 1, 2, 3, 4, 0, 0, 0, 0, 0, 0, 0, 0]);
    assert_eq!(memory.mem[1], vec![0; 16]);
}

#[test]
fn registers_are_little_endian_words() {
    let mut state = state();
    state.write_register(1, 0x1234_5678);
    assert_eq!(state.vm_state.memory.mem[RV32_REGISTER_AS as usize][4..8], [0x78, 0x56, 0x34, 0x12]);
    assert_eq!(state.read_register(1), 0x1234_5678);
    state.write_register(31, u32::MAX);
    assert_eq!(state.read_register(31), u32::MAX);
    assert_eq!(state.vm_state.memory.mem[1][124..128], [255, 255, 255, 255]);
    assert_eq!(state.read_register(2), 0);
    assert_eq!(state.read_register(30), 0);
    // nothing outside the register file is touched
    assert!(state.vm_state.memory.mem[1][128..].iter().all(|b| *b == 0));
    assert!(state.vm_state.memory.mem[2].iter().all(|b| *b == 0));
}

#[test]
fn register_zero_reads_zero_and_ignores_writes() {
    let mut state = state();
    state.write_register(0, 99);
    assert_eq!(state.read_register(0), 0);
    assert_eq!(state.vm_state.memory.mem[1][0..4], [0, 0, 0, 0]);
    // whatever the bytes of register zero are, it reads zero and is never written
    state.vm_state.memory.write(RV32_REGISTER_AS, 0, [9, 9, 9, 9]);
    assert_eq!(state.read_register(0), 0);
    let mut buffer = [7u32; 32];
    state.read_all_registers(&mut buffer);
    assert_eq!(buffer, [0u32; 32]);
    state.write_all_registers(&[5u32; 32]);
    assert_eq!(state.vm_state.memory.mem[1][0..4], [9, 9, 9, 9]);
    assert_eq!(state.read_register(0), 0);
    assert_eq!(state.read_register(1), 5);
}

#[test]
fn bulk_write_and_read_exchange_registers() {
    let mut state = state();
    let mut buffer = [0u32; 32];
    for (i, slot) in buffer.iter_mut().enumerate() {
        *slot = 1000 + i as u32 * 0x0101_0101;
    }
    openvm_sync_registers_to_memory(&mut state, &buffer);
    for reg in 1..32u8 {
        assert_eq!(state.read_register(reg), buffer[reg as usize]);
    }
    assert_eq!(state.read_register(0), 0);
    let mut back = [1u32; 32];
    openvm_sync_registers_from_memory(&state, &mut back);
    assert_eq!(back[0], 0);
    assert_eq!(back[1..], buffer[1..]);
    assert_eq!(state.vm_state.pc, 0);
    assert_eq!(state.vm_state.instret, 0);
}
