use wellenbrecher::ring_coordination::{
    connection_closed, connection_opened, decide_signal, get_or_create_user_state, is_exit_signal,
    mask_ip, next_lackey, IpAddress, SignalAction, UserState, SIGINT, SIGQUIT, SIGTERM,
};

const FULL_V4: u32 = 0xffffffff;
const FULL_V6: u128 = 0xffffffffffffffffffffffffffffffff;

#[test]
fn masks_apply_per_family() {
    assert_eq!(
        mask_ip(IpAddress::V4(0x0a0b0c0d), 0xffffff00, FULL_V6),
        IpAddress::V4(0x0a0b0c00)
    );
    assert_eq!(
        mask_ip(IpAddress::V6(0x20010db8_00000000_00000000_00000001), FULL_V4, !0u128 << 64),
        IpAddress::V6(0x20010db8_00000000_00000000_00000000)
    );
}

#[test]
fn same_masked_ip_shares_a_user() {
    let mut clients: Vec<UserState> = Vec::new();
    let a = get_or_create_user_state(&mut clients, IpAddress::V4(0x0a000001), 0xffffff00, FULL_V6);
    let b = get_or_create_user_state(&mut clients, IpAddress::V4(0x0a000002), 0xffffff00, FULL_V6);
    assert_eq!(a, 1);
    assert_eq!(b, 1);
    assert_eq!(clients.len(), 1);
}

#[test]
fn distinct_masked_ips_get_distinct_users() {
    // As on the accept path: every looked-up user gets its connection
    // recorded before the next lookup, so its slot counts as busy.
    let mut clients: Vec<UserState> = Vec::new();
    let a = get_or_create_user_state(&mut clients, IpAddress::V4(1), FULL_V4, FULL_V6);
    connection_opened(&mut clients, a);
    let b = get_or_create_user_state(&mut clients, IpAddress::V4(2), FULL_V4, FULL_V6);
    connection_opened(&mut clients, b);
    assert_eq!((a, b), (1, 2));
    assert_eq!(clients.len(), 2);
}

#[test]
fn vacated_slot_is_reused_before_growing() {
    let mut clients: Vec<UserState> = Vec::new();
    let a = get_or_create_user_state(&mut clients, IpAddress::V4(1), FULL_V4, FULL_V6);
    connection_opened(&mut clients, a);
    let b = get_or_create_user_state(&mut clients, IpAddress::V4(2), FULL_V4, FULL_V6);
    connection_opened(&mut clients, b);
    assert_eq!(clients.len(), 2);

    // The first user's last connection closes; its slot is vacant.
    connection_closed(&mut clients, a);
    assert_eq!(clients[0].connections, 0);

    // A connection from a third address takes over slot 1 instead of
    // growing the registry.
    let c = get_or_create_user_state(&mut clients, IpAddress::V4(3), FULL_V4, FULL_V6);
    assert_eq!(c, 1);
    assert_eq!(clients.len(), 2);
    assert_eq!(clients[0].ip, IpAddress::V4(3));
}

#[test]
fn busy_slots_are_never_reused() {
    let mut clients: Vec<UserState> = Vec::new();
    let a = get_or_create_user_state(&mut clients, IpAddress::V4(1), FULL_V4, FULL_V6);
    connection_opened(&mut clients, a);
    let b = get_or_create_user_state(&mut clients, IpAddress::V4(2), FULL_V4, FULL_V6);
    connection_opened(&mut clients, b);
    let c = get_or_create_user_state(&mut clients, IpAddress::V4(3), FULL_V4, FULL_V6);
    assert_eq!(c, 3);
    assert_eq!(clients.len(), 3);
}

#[test]
fn round_robin_cycles_over_the_rings() {
    let mut idx: usize = 0;
    assert_eq!(next_lackey(&mut idx, 3), 0);
    assert_eq!(next_lackey(&mut idx, 3), 1);
    assert_eq!(next_lackey(&mut idx, 3), 2);
    assert_eq!(next_lackey(&mut idx, 3), 0);
    let mut wrapped: usize = usize::MAX;
    assert_eq!(next_lackey(&mut wrapped, 7), usize::MAX % 7);
    assert_eq!(wrapped, 0);
}

#[test]
fn exit_signals_are_the_three_termination_signals() {
    assert!(is_exit_signal(SIGINT));
    assert!(is_exit_signal(SIGQUIT));
    assert!(is_exit_signal(SIGTERM));
    assert!(!is_exit_signal(1));
    assert!(!is_exit_signal(9));
}

#[test]
fn first_exit_signal_fans_out_a_second_aborts() {
    assert_eq!(decide_signal(SIGTERM, 3600), SignalAction::Fanout);
    assert_eq!(decide_signal(SIGTERM, 3), SignalAction::Abort);
    assert_eq!(decide_signal(SIGINT, 10), SignalAction::Fanout);
    assert_eq!(decide_signal(SIGQUIT, 9), SignalAction::Abort);
    assert_eq!(decide_signal(1, 0), SignalAction::Ignore);
}
