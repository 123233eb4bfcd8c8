use aquilla::config::default_config;
use aquilla::dispatch::{dispatch_group_ids_for, shares_mirror, ToggleError};
use aquilla::events::Event;
use aquilla::state::{ActiveCall, Gateway};

fn gateway() -> Gateway {
    Gateway::from_config(&default_config())
}

fn call(channel_id: u32) -> ActiveCall {
    ActiveCall {
        channel_id,
        target_ip: "a".to_string(),
        target_port: 1,
        local_ip: "b".to_string(),
        local_sip_port: 2,
        local_rtp_port: 3,
        call_id: format!("c{}", channel_id),
        from_tag: String::new(),
        to_tag: None,
    }
}

/// The channels that a list of events announces, and whether they are patched.
fn updates(events: &[Event]) -> Vec<(u32, bool)> {
    events
        .iter()
        .filter_map(|e| match e {
            Event::Update { channel } => Some((channel.id, channel.dispatch_connected)),
            _ => None,
        })
        .collect()
}

fn patched(g: &Gateway) -> Vec<u32> {
    g.channels.iter().filter(|c| c.dispatch_connected).map(|c| c.id).collect()
}

#[test]
fn groups_of_a_channel_are_found() {
    let mut g = gateway();
    g.dispatch_groups[0].member_ids = vec![3, 5];
    g.dispatch_groups[2].member_ids = vec![5];
    assert_eq!(dispatch_group_ids_for(&g.dispatch_groups, 5), vec![1, 3]);
    assert!(dispatch_group_ids_for(&g.dispatch_groups, 4).is_empty());
    assert!(g.is_on_roster(1, 3));
    assert!(!g.is_on_roster(2, 3));
    assert!(!g.is_on_roster(9, 3));
}

#[test]
fn a_call_starts_in_the_groups_of_its_channel() {
    let mut g = gateway();
    g.dispatch_groups[1].member_ids = vec![5];
    g.add_call(call(5));
    assert!(g.open_groups(5).is_empty());
    assert_eq!(g.live_groups(5), vec![2]);
    assert!(g.has_flag(5, 2));
    assert!(!g.has_flag(5, 1));
    assert_eq!(g.flags.len(), 4);
    g.add_call(call(6));
    assert!(g.open_groups(6).is_empty());
    assert!(g.live_groups(6).is_empty());
    g.end_by_peer(5, true);
    assert!(g.live_groups(5).is_empty());
    assert_eq!(g.flags.len(), 4);
}

#[test]
fn a_toggle_takes_effect_at_once() {
    let mut g = gateway();
    g.add_call(call(5));
    g.open_groups(5);
    let (joined, events) = g.toggle_member(3, 5).unwrap();
    assert!(joined);
    assert_eq!(g.dispatch_groups[2].member_ids, vec![5]);
    assert_eq!(g.live_groups(5), vec![3]);
    assert!(!g.channels[4].dispatch_connected);
    assert_eq!(events.len(), 2);
    match &events[0] {
        Event::Matrix { groups } => assert_eq!(groups[2].member_ids, vec![5]),
        _ => panic!("the groups"),
    }
    assert!(matches!(&events[1], Event::Update { channel } if channel.id == 5));
    let (joined, _) = g.toggle_member(3, 5).unwrap();
    assert!(!joined);
    assert!(g.dispatch_groups[2].member_ids.is_empty());
    assert!(g.live_groups(5).is_empty());
    assert!(!g.channels[4].dispatch_connected);
}

#[test]
fn a_channel_is_patched_while_another_member_is_on_a_call() {
    let mut g = gateway();
    g.add_call(call(5));
    g.add_call(call(7));
    g.open_groups(5);
    g.open_groups(7);
    let (joined, events) = g.toggle_member(3, 5).unwrap();
    assert!(joined);
    assert_eq!(updates(&events), vec![(5, false)]);
    assert!(patched(&g).is_empty());
    let (_, events) = g.toggle_member(3, 7).unwrap();
    assert_eq!(updates(&events), vec![(7, true), (5, true)]);
    assert_eq!(patched(&g), vec![5, 7]);
    let (_, events) = g.toggle_member(3, 8).unwrap();
    assert_eq!(updates(&events), vec![(8, false)]);
    assert_eq!(patched(&g), vec![5, 7]);
    let (joined, events) = g.toggle_member(3, 5).unwrap();
    assert!(!joined);
    assert_eq!(updates(&events), vec![(5, false), (7, false)]);
    assert!(patched(&g).is_empty());
}

#[test]
fn members_that_come_and_go_are_told_of() {
    let mut g = gateway();
    g.dispatch_groups[0].member_ids = vec![2, 3];
    g.dispatch_groups[1].member_ids = vec![3, 4];
    for id in [2, 3] {
        g.add_call(call(id));
    }
    assert!(g.open_groups(2).is_empty());
    assert_eq!(updates(&g.open_groups(3)), vec![(2, true), (3, true)]);
    g.add_call(call(4));
    assert_eq!(updates(&g.open_groups(4)), vec![(4, true)]);
    assert_eq!(patched(&g), vec![2, 3, 4]);
    let done = g.hang_up(2);
    assert!(done.found);
    assert!(updates(&done.events).is_empty());
    assert_eq!(patched(&g), vec![3, 4]);
    let start = g.begin_call(4, "rtp://10.0.0.9:5004");
    assert_eq!(start.ended.unwrap().channel_id, 4);
    assert_eq!(updates(&start.events), vec![(3, false), (4, false)]);
    assert!(patched(&g).is_empty());
    g.add_call(call(4));
    assert_eq!(updates(&g.open_groups(4)), vec![(3, true), (4, true)]);
    let (_, events) = g.end_by_peer(4, false);
    assert_eq!(updates(&events), vec![(3, false)]);
    g.add_call(call(4));
    g.open_groups(4);
    let events = g.fail_call(4, "SIP/2.0 500 Server Error");
    assert_eq!(updates(&events), vec![(3, false)]);
    assert!(patched(&g).is_empty());
    assert_eq!(g.active_calls.len(), 1);
    assert_eq!(g.flags.len(), 4);
}

#[test]
fn a_toggle_without_a_call_changes_the_roster_only() {
    let mut g = gateway();
    g.dispatch_groups[0].member_ids = vec![4, 5, 6];
    let (joined, _) = g.toggle_member(1, 5).unwrap();
    assert!(!joined);
    assert_eq!(g.dispatch_groups[0].member_ids, vec![4, 6]);
    assert!(g.flags.is_empty());
    g.toggle_member(1, 5).unwrap();
    assert_eq!(g.dispatch_groups[0].member_ids, vec![4, 6, 5]);
    assert!(!g.channels[4].dispatch_connected);
}

#[test]
fn wrong_toggles_are_refused() {
    let mut g = gateway();
    assert!(matches!(g.toggle_member(0, 5), Err(ToggleError::BadGroup)));
    assert!(matches!(g.toggle_member(5, 5), Err(ToggleError::BadGroup)));
    assert!(matches!(g.toggle_member(1, 0), Err(ToggleError::BadChannel)));
    assert!(matches!(g.toggle_member(1, 13), Err(ToggleError::BadChannel)));
    g.dispatch_groups.remove(1);
    assert!(matches!(g.toggle_member(2, 5), Err(ToggleError::NoGroup)));
    assert_eq!(ToggleError::BadGroup.message(), "Invalid group id");
    assert_eq!(ToggleError::BadChannel.message(), "Invalid channel id");
    assert_eq!(ToggleError::NoGroup.message(), "Group not found");
}

#[test]
fn outside_parties_are_planned() {
    let mut g = gateway();
    assert!(g.plan_mirror(2).is_none());
    g.dispatch_groups[1].mirror_enabled = true;
    let plan = g.plan_mirror(2).unwrap();
    assert_eq!((plan.ip.as_str(), plan.port, plan.local_port), ("127.0.0.1", 9006, 11006));
    g.dispatch_groups[1].mirror_local_port = Some(7000);
    assert_eq!(g.plan_mirror(2).unwrap().local_port, 7000);
    g.dispatch_groups[1].mirror_ip = "  ".to_string();
    assert!(g.plan_mirror(2).is_none());
    assert!(shares_mirror(false, true));
    assert!(shares_mirror(true, false));
    assert!(!shares_mirror(true, true));
}

#[test]
fn toggling_twice_keeps_the_members() {
    let mut g = gateway();
    g.dispatch_groups[0].member_ids = vec![4, 5, 6];
    g.toggle_member(1, 4).unwrap();
    g.toggle_member(1, 4).unwrap();
    assert_eq!(g.dispatch_groups[0].member_ids, vec![5, 6, 4]);
    g.toggle_member(1, 9).unwrap();
    g.toggle_member(1, 9).unwrap();
    assert_eq!(g.dispatch_groups[0].member_ids, vec![5, 6, 4]);
}
