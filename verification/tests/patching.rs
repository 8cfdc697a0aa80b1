use debugrs::context::low_byte;
use debugrs::context::with_low_byte;
use debugrs::context::TRAP_OPCODE;

#[test]
fn trap_patch_touches_only_the_low_byte() {
    // Every high byte non-zero, so corruption of any of them shows.
    let word: u64 = 0x1122334455667788;
    let patched = with_low_byte(word, TRAP_OPCODE);
    assert_eq!(patched, 0x11223344556677cc);
}

#[test]
fn apply_then_remove_restores_the_word_exactly() {
    let word: u64 = 0xdeadbeefcafebabe;
    let displaced = low_byte(word);
    let installed = with_low_byte(word, TRAP_OPCODE);
    assert_eq!(low_byte(installed), TRAP_OPCODE);
    let restored = with_low_byte(installed, displaced);
    assert_eq!(restored, word);
}

#[test]
fn round_trip_holds_for_a_zero_low_byte() {
    let word: u64 = 0xffffffffffffff00;
    let restored = with_low_byte(with_low_byte(word, TRAP_OPCODE), low_byte(word));
    assert_eq!(restored, word);
}

#[test]
fn low_byte_extracts_the_least_significant_byte() {
    assert_eq!(low_byte(0x1122334455667788), 0x88);
    assert_eq!(low_byte(0xff), 0xff);
    assert_eq!(low_byte(0), 0);
}
