use debugrs::user_instruction::parse_hex_address;
use debugrs::user_instruction::UserInstruction;
use debugrs::user_instruction::UserInstructionParseError;

#[test]
fn single_letter_commands_parse() {
    assert_eq!(
        UserInstruction::parse("c"),
        Ok(UserInstruction::ContinueUntilBreakpoint)
    );
    assert_eq!(
        UserInstruction::parse("s"),
        Ok(UserInstruction::ContinueUntilSyscall)
    );
    assert_eq!(UserInstruction::parse("h"), Ok(UserInstruction::ShowHelp));
    assert_eq!(
        UserInstruction::parse("r"),
        Ok(UserInstruction::ShowRegisters)
    );
    assert_eq!(UserInstruction::parse("n"), Ok(UserInstruction::SingleStep));
}

#[test]
fn surrounding_whitespace_is_ignored() {
    assert_eq!(
        UserInstruction::parse("  c\n"),
        Ok(UserInstruction::ContinueUntilBreakpoint)
    );
    assert_eq!(
        UserInstruction::parse("\tm 0x10\r\n"),
        Ok(UserInstruction::ShowMemory { address: 0x10 })
    );
    // Vertical tab and form feed count as whitespace too.
    assert_eq!(
        UserInstruction::parse("c\x0b"),
        Ok(UserInstruction::ContinueUntilBreakpoint)
    );
    assert_eq!(
        UserInstruction::parse("\x0c r \x0b"),
        Ok(UserInstruction::ShowRegisters)
    );
}

#[test]
fn surrounding_unicode_whitespace_is_ignored() {
    // No-break space, next line, em space, ideographic space.
    assert_eq!(
        UserInstruction::parse("\u{a0}c\u{a0}"),
        Ok(UserInstruction::ContinueUntilBreakpoint)
    );
    assert_eq!(
        UserInstruction::parse("n\u{85}"),
        Ok(UserInstruction::SingleStep)
    );
    assert_eq!(
        UserInstruction::parse("\u{2003}b 0xdead\u{3000}"),
        Ok(UserInstruction::AddBreakpoint { address: 0xdead })
    );
    // A non-whitespace multi-byte character is not trimmed.
    assert_eq!(
        UserInstruction::parse("c\u{e9}"),
        Err(UserInstructionParseError::UnknownInstruction)
    );
}

#[test]
fn address_commands_parse() {
    assert_eq!(
        UserInstruction::parse("m 0x1000"),
        Ok(UserInstruction::ShowMemory { address: 0x1000 })
    );
    assert_eq!(
        UserInstruction::parse("b 0xdead"),
        Ok(UserInstruction::AddBreakpoint { address: 0xdead })
    );
}

#[test]
fn unknown_lines_are_rejected() {
    assert_eq!(
        UserInstruction::parse("q"),
        Err(UserInstructionParseError::UnknownInstruction)
    );
    assert_eq!(
        UserInstruction::parse(""),
        Err(UserInstructionParseError::UnknownInstruction)
    );
    assert_eq!(
        UserInstruction::parse("mm 0x10"),
        Err(UserInstructionParseError::UnknownInstruction)
    );
}

#[test]
fn addresses_must_start_with_the_hex_prefix() {
    assert_eq!(
        UserInstruction::parse("m 123"),
        Err(UserInstructionParseError::AddressShouldStartWith0x)
    );
    assert_eq!(
        parse_hex_address("dead"),
        Err(UserInstructionParseError::AddressShouldStartWith0x)
    );
}

#[test]
fn malformed_addresses_are_rejected() {
    assert_eq!(
        UserInstruction::parse("b 0xzz"),
        Err(UserInstructionParseError::UnparseableAddress)
    );
    assert_eq!(
        parse_hex_address("0x"),
        Err(UserInstructionParseError::UnparseableAddress)
    );
    // One digit past the largest 64-bit value.
    assert_eq!(
        parse_hex_address("0x10000000000000000"),
        Err(UserInstructionParseError::UnparseableAddress)
    );
}

#[test]
fn hex_addresses_parse_exactly() {
    assert_eq!(parse_hex_address("0x0"), Ok(0));
    assert_eq!(parse_hex_address("0xdead"), Ok(0xdead));
    assert_eq!(parse_hex_address("0xDEAD"), Ok(0xdead));
    assert_eq!(parse_hex_address("0x00401000"), Ok(0x401000));
    assert_eq!(parse_hex_address("0xffffffffffffffff"), Ok(u64::MAX));
}
