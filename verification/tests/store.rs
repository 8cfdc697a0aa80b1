use debugrs::context::Breakpoint;
use debugrs::context::Context;

#[test]
fn adding_same_address_twice_keeps_one_breakpoint() {
    let mut context = Context::new();
    context.add_breakpoint(Breakpoint {
        address: 0xdead,
        previous_byte: 0x90,
    });
    context.add_breakpoint(Breakpoint {
        address: 0xdead,
        previous_byte: 0xcc,
    });
    assert_eq!(context.breakpoint_count(), 1);
    let found = context.breakpoint_at(0xdead);
    assert_eq!(
        found,
        Some(Breakpoint {
            address: 0xdead,
            previous_byte: 0x90,
        })
    );
}

#[test]
fn first_captured_byte_survives_reinstallation_attempts() {
    let mut context = Context::new();
    context.add_breakpoint(Breakpoint {
        address: 0x401000,
        previous_byte: 0x55,
    });
    // A later add at the same address, e.g. after the trap byte has
    // been installed, must not re-capture the (now patched) byte.
    context.add_breakpoint(Breakpoint {
        address: 0x401000,
        previous_byte: 0xcc,
    });
    let found = context.breakpoint_at(0x401000).unwrap();
    assert_eq!(found.previous_byte, 0x55);
}

#[test]
fn distinct_addresses_are_kept_separately() {
    let mut context = Context::new();
    context.add_breakpoint(Breakpoint {
        address: 0x1000,
        previous_byte: 0x01,
    });
    context.add_breakpoint(Breakpoint {
        address: 0x2000,
        previous_byte: 0x02,
    });
    assert_eq!(context.breakpoint_count(), 2);
    assert_eq!(context.breakpoint_at(0x1000).unwrap().previous_byte, 0x01);
    assert_eq!(context.breakpoint_at(0x2000).unwrap().previous_byte, 0x02);
}

#[test]
fn lookup_misses_unknown_address() {
    let mut context = Context::new();
    assert_eq!(context.breakpoint_at(0x1234), None);
    context.add_breakpoint(Breakpoint {
        address: 0x1000,
        previous_byte: 0x01,
    });
    assert_eq!(context.breakpoint_at(0x1001), None);
}
