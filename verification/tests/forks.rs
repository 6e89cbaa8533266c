use bench_from_rpc::fork::{
    fork_for_block, CANCUN, CANCUN_TIMESTAMP, OSAKA, OSAKA_TIMESTAMP, PRAGUE, PRAGUE_TIMESTAMP,
};

#[test]
fn guest_numbers() {
    assert_eq!((CANCUN, PRAGUE, OSAKA), (0, 1, 2));
    assert_eq!(CANCUN_TIMESTAMP, 1_710_338_135);
    assert_eq!(PRAGUE_TIMESTAMP, 1_746_612_311);
    assert_eq!(OSAKA_TIMESTAMP, 1_764_798_551);
}

#[test]
fn forks_take_effect_at_their_timestamps() {
    assert_eq!(fork_for_block(CANCUN_TIMESTAMP, 19_426_587), 0);
    assert_eq!(fork_for_block(PRAGUE_TIMESTAMP - 1, 22_431_083), 0);
    assert_eq!(fork_for_block(PRAGUE_TIMESTAMP, 22_431_084), 1);
    assert_eq!(fork_for_block(OSAKA_TIMESTAMP - 1, 23_935_693), 1);
    assert_eq!(fork_for_block(OSAKA_TIMESTAMP, 23_935_694), 2);
    assert_eq!(fork_for_block(u64::MAX, 0), 2);
}

#[test]
fn the_block_number_does_not_matter() {
    for timestamp in [CANCUN_TIMESTAMP, PRAGUE_TIMESTAMP, OSAKA_TIMESTAMP] {
        assert_eq!(fork_for_block(timestamp, 0), fork_for_block(timestamp, u64::MAX));
    }
}

#[test]
fn forks_never_go_back() {
    let times = [
        CANCUN_TIMESTAMP,
        PRAGUE_TIMESTAMP - 1,
        PRAGUE_TIMESTAMP,
        OSAKA_TIMESTAMP - 1,
        OSAKA_TIMESTAMP,
    ];
    for pair in times.windows(2) {
        assert!(fork_for_block(pair[0], 1) <= fork_for_block(pair[1], 1));
    }
}
