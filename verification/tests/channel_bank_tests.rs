use bdd_plus::channel_bank::ChannelBank;

#[test]
fn new_bank_has_no_channel() {
    let bank: ChannelBank<u32> = ChannelBank::new();
    assert_eq!(bank.channel_count(), 0);
}

#[test]
fn resize_grows_with_fresh_states() {
    let mut bank: ChannelBank<u32> = ChannelBank::new();
    bank.resize(2, 7);
    assert_eq!(bank.channel_count(), 2);
    assert_eq!(bank.state(0), 7);
    assert_eq!(bank.state(1), 7);
}

#[test]
fn resize_keeps_existing_states() {
    let mut bank: ChannelBank<u32> = ChannelBank::new();
    bank.resize(2, 0);
    *bank.state_mut(0) = 11;
    *bank.state_mut(1) = 22;
    bank.resize(4, 5);
    assert_eq!(bank.channel_count(), 4);
    assert_eq!(bank.state(0), 11);
    assert_eq!(bank.state(1), 22);
    assert_eq!(bank.state(2), 5);
    assert_eq!(bank.state(3), 5);
    bank.resize(1, 9);
    assert_eq!(bank.channel_count(), 1);
    assert_eq!(bank.state(0), 11);
    bank.resize(0, 9);
    assert_eq!(bank.channel_count(), 0);
}

#[test]
fn reset_makes_every_channel_fresh() {
    let mut bank: ChannelBank<(u32, i64)> = ChannelBank::new();
    bank.resize(3, (0, 0));
    *bank.state_mut(0) = (1, -1);
    *bank.state_mut(2) = (3, -3);
    bank.reset((0, 0));
    assert_eq!(bank.channel_count(), 3);
    for c in 0..3 {
        assert_eq!(bank.state(c), (0, 0));
    }
    bank.reset((0, 0));
    assert_eq!(bank.channel_count(), 3);
}

#[test]
fn writing_one_channel_leaves_the_others() {
    let mut bank: ChannelBank<f32> = ChannelBank::new();
    bank.resize(2, 0.0);
    *bank.state_mut(1) += 0.5;
    assert_eq!(bank.state(0), 0.0);
    assert_eq!(bank.state(1), 0.5);
}

#[test]
fn prepare_sequence_gives_layout_channel_count() {
    // Resize to the layout's channel count, then reset: as the engine does.
    let mut bank: ChannelBank<u32> = ChannelBank::new();
    bank.resize(5, 0);
    *bank.state_mut(4) = 99;
    let channels = bdd_plus::host::output_channel_count(Some(2));
    bank.resize(channels, 0);
    bank.reset(0);
    assert_eq!(bank.channel_count(), 2);
    assert_eq!(bank.state(0), 0);
    assert_eq!(bank.state(1), 0);
}
