use artemis::primitives::Address;
use artemis::state_override_middleware::StateOverrideMiddleware;
use ethers::types::{Bytes, H160};

fn addr(n: u8) -> Address {
    let mut bytes = [0u8; 20];
    bytes[0] = 0xaa;
    bytes[19] = n;
    Address { bytes }
}

fn code_at<M>(middleware: &StateOverrideMiddleware<M>, address: Address) -> Option<Vec<u8>> {
    let mut state = middleware.state().clone();
    state.account(H160(address.bytes)).code.clone().map(|code| code.to_vec())
}

#[test]
fn new_middleware_overrides_nothing() {
    let middleware = StateOverrideMiddleware::new(7u32);
    assert_eq!(*middleware.inner(), 7u32);
    assert_eq!(serde_json::to_string(middleware.state()).unwrap(), "{}");
    assert_eq!(code_at(&middleware, addr(1)), None);
}

#[test]
fn code_is_installed_at_the_given_address() {
    let mut middleware = StateOverrideMiddleware::new(());
    middleware.add_code_to_address(addr(1), vec![0x60, 0x00, 0xf3]);
    assert_eq!(code_at(&middleware, addr(1)), Some(vec![0x60, 0x00, 0xf3]));
    assert_eq!(code_at(&middleware, addr(2)), None);
    let expected = format!(
        "{{\"0x{}\":{{\"code\":\"0x6000f3\"}}}}",
        addr(1).bytes.iter().map(|b| format!("{:02x}", b)).collect::<String>()
    );
    assert_eq!(serde_json::to_string(middleware.state()).unwrap(), expected);
}

#[test]
fn second_install_at_an_address_replaces_the_first() {
    let mut middleware = StateOverrideMiddleware::new(());
    middleware.add_code_to_address(addr(1), vec![1, 2, 3]);
    middleware.add_code_to_address(addr(2), vec![4]);
    middleware.add_code_to_address(addr(1), vec![5, 6]);
    assert_eq!(code_at(&middleware, addr(1)), Some(vec![5, 6]));
    assert_eq!(code_at(&middleware, addr(2)), Some(vec![4]));
}

#[test]
fn install_at_a_fresh_address_returns_where_the_code_stands() {
    let mut middleware = StateOverrideMiddleware::new("client");
    middleware.add_code_to_address(addr(1), vec![9]);
    let address = middleware.add_code(vec![0xde, 0xad, 0xbe, 0xef]);
    assert_eq!(code_at(&middleware, address), Some(vec![0xde, 0xad, 0xbe, 0xef]));
    if address != addr(1) {
        assert_eq!(code_at(&middleware, addr(1)), Some(vec![9]));
    }
    assert_eq!(*middleware.inner(), "client");
}

#[test]
fn two_installs_stand_at_two_addresses() {
    let mut middleware = StateOverrideMiddleware::new(());
    let first = middleware.add_code(vec![1]);
    let second = middleware.add_code(vec![2]);
    assert!(first != second);
    assert_eq!(code_at(&middleware, first), Some(vec![1]));
    assert_eq!(code_at(&middleware, second), Some(vec![2]));
}

#[test]
fn empty_code_is_still_an_override() {
    let mut middleware = StateOverrideMiddleware::new(());
    middleware.add_code_to_address(addr(3), Vec::new());
    assert_eq!(code_at(&middleware, addr(3)), Some(Vec::new()));
    let state = middleware.state().clone();
    assert_eq!(
        {
            let mut state = state;
            state.account(H160(addr(3).bytes)).code.clone()
        },
        Some(Bytes::from(Vec::<u8>::new()))
    );
}
