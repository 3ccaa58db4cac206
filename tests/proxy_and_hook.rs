use frame_delay_shim::interceptor::{InitError, Interceptor, Phase, DELAY_FN_OFFSET};
use frame_delay_shim::lifecycle::{starts_initialization, DLL_PROCESS_ATTACH};
use frame_delay_shim::proxy::{create_route, CreateRoute, ShowJoyCPL, E_FAIL};
use std::cell::RefCell;

#[test]
fn factory_forwards_only_when_library_and_export_are_found() {
    assert_eq!(create_route(true, true), CreateRoute::Forward);
    assert_eq!(create_route(false, true), CreateRoute::Fail(E_FAIL));
    assert_eq!(create_route(true, false), CreateRoute::Fail(E_FAIL));
    assert_eq!(create_route(false, false), CreateRoute::Fail(E_FAIL));
}

#[test]
fn failure_code_is_the_generic_platform_failure() {
    assert_eq!(E_FAIL as u32, 0x8000_4005);
}

#[test]
fn control_panel_stub_does_nothing() {
    let mut hook = Interceptor::new(7);
    hook.resolve_target(Some(0x40_0000)).unwrap();
    ShowJoyCPL(0);
    ShowJoyCPL(0xdead_beef);
    assert_eq!(hook.configured_delay(), 7);
    assert_eq!(hook.phase(), Phase::TargetResolved);
    assert_eq!(hook.target_address(), Some(0x40_0000 + DELAY_FN_OFFSET));
}

#[test]
fn only_process_attach_starts_initialization() {
    assert!(starts_initialization(DLL_PROCESS_ATTACH));
    assert!(starts_initialization(1));
    for reason in [0u32, 2, 3, 4, u32::MAX] {
        assert!(!starts_initialization(reason));
    }
}

#[test]
fn target_is_base_plus_offset() {
    let mut hook = Interceptor::new(1);
    assert_eq!(hook.target_address(), None);
    assert_eq!(hook.resolve_target(Some(0x40_0000)), Ok(0x98_0aa0));
    assert_eq!(hook.target_address(), Some(0x98_0aa0));
}

#[test]
fn missing_module_handle_stops_initialization() {
    let mut hook = Interceptor::new(1);
    assert_eq!(hook.resolve_target(None), Err(InitError::NoModuleHandle));
    assert_eq!(hook.phase(), Phase::Uninitialized);
}

#[test]
fn address_past_the_end_is_refused() {
    let mut hook = Interceptor::new(1);
    assert_eq!(hook.resolve_target(Some(usize::MAX - 10)), Err(InitError::AddressOverflow));
    assert_eq!(hook.phase(), Phase::Uninitialized);
}

#[test]
fn steps_run_once_and_in_order() {
    let mut hook = Interceptor::new(3);
    assert_eq!(hook.record_registration(true), Err(InitError::OutOfOrder));
    assert_eq!(hook.record_enable(true), Err(InitError::OutOfOrder));
    assert!(hook.resolve_target(Some(0x1000)).is_ok());
    assert_eq!(hook.resolve_target(Some(0x2000)), Err(InitError::OutOfOrder));
    assert_eq!(hook.target_address(), Some(0x1000 + 0x58_0aa0));
    assert_eq!(hook.record_enable(true), Err(InitError::OutOfOrder));
    assert_eq!(hook.record_registration(true), Ok(()));
    assert_eq!(hook.phase(), Phase::Registered);
    assert_eq!(hook.record_registration(true), Err(InitError::OutOfOrder));
    assert_eq!(hook.record_enable(true), Ok(()));
    assert_eq!(hook.phase(), Phase::Active);
    assert_eq!(hook.record_enable(true), Err(InitError::OutOfOrder));
    assert_eq!(hook.configured_delay(), 3);
}

#[test]
fn failed_registration_leaves_hook_inactive() {
    let mut hook = Interceptor::new(3);
    hook.resolve_target(Some(0x1000)).unwrap();
    assert_eq!(hook.record_registration(false), Err(InitError::RegistrationFailed));
    assert_eq!(hook.phase(), Phase::TargetResolved);
    assert_eq!(hook.record_enable(true), Err(InitError::OutOfOrder));
}

#[test]
fn failed_enable_leaves_hook_inactive() {
    let mut hook = Interceptor::new(3);
    hook.resolve_target(Some(0x1000)).unwrap();
    hook.record_registration(true).unwrap();
    assert_eq!(hook.record_enable(false), Err(InitError::EnableFailed));
    assert_eq!(hook.phase(), Phase::Registered);
}

#[test]
fn intercepted_call_passes_configured_delay() {
    let hook = Interceptor::new(7);
    let seen = RefCell::new(Vec::new());
    let original = |a: usize, b: usize, d: usize| {
        seen.borrow_mut().push((a, b, d));
        a.wrapping_mul(31) ^ b ^ (d << 8)
    };
    let handle_a = 0x1111usize;
    let handle_b = 0x2222usize;
    let r = hook.call_original(&original, handle_a, handle_b, 42);
    assert_eq!(seen.borrow().as_slice(), &[(handle_a, handle_b, 7)]);
    assert_eq!(r, handle_a.wrapping_mul(31) ^ handle_b ^ (7 << 8));
}

#[test]
fn every_call_in_a_sequence_uses_configured_delay() {
    let mut hook = Interceptor::new(5);
    hook.resolve_target(Some(0x1000)).unwrap();
    hook.record_registration(true).unwrap();
    hook.record_enable(true).unwrap();
    let original = |a: usize, b: usize, d: usize| a + b + d;
    for (a, b, d) in [(1usize, 2usize, 0usize), (3, 4, 100), (0, 0, usize::MAX)] {
        assert_eq!(hook.call_original(&original, a, b, d), a + b + 5);
    }
}

#[test]
fn zero_delay_is_passed_unchanged() {
    let hook = Interceptor::new(0);
    let r = hook.call_original(&|_a: usize, _b: usize, d: usize| d, 9, 9, 42);
    assert_eq!(r, 0);
}
