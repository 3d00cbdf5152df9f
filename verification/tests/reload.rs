use xraft_server::config::{DriverConfig, DEFAULT_FETCH_SNAPSHOT_DEADLINE};
use xraft_server::reload::{
    finish_reload, plan_reload, restart_required, FixedSetting, NodeSettings, ReloadPlan, VoterSeat,
};
use xraft_server::status::{NodeStatus, StatusPublisher};
use xraft_server::types::NodeId;

fn settings() -> NodeSettings {
    NodeSettings {
        node_id: 1,
        cluster_id: "c".to_string(),
        listen_addr: "127.0.0.1:6900".to_string(),
        data_dir: "/var/lib/xraft".to_string(),
        voters: vec![VoterSeat {
            node_id: 1,
            directory_id: "d".to_string(),
            host: "127.0.0.1".to_string(),
            port: 6000,
        }],
        admin_listen_addr: None,
        tick_interval_ms: 10,
    }
}

#[test]
fn tick_interval_can_change_without_a_restart() {
    let mut new = settings();
    new.tick_interval_ms = 25;
    assert!(restart_required(&settings(), &new).is_empty());
    match plan_reload(&settings(), Some(new)) {
        ReloadPlan::Adopt { settings, restart } => {
            assert_eq!(settings.tick_interval_ms, 25);
            assert!(restart.is_empty());
        }
        ReloadPlan::Keep => panic!("the new settings are adopted"),
    }
}

#[test]
fn every_other_change_needs_a_restart() {
    let mut new = settings();
    new.node_id = 2;
    assert_eq!(restart_required(&settings(), &new), vec![FixedSetting::NodeId]);
    new.cluster_id = "d".to_string();
    new.listen_addr = "x".to_string();
    new.data_dir = "y".to_string();
    new.voters[0].port = 6001;
    new.admin_listen_addr = Some("z".to_string());
    assert_eq!(
        restart_required(&settings(), &new),
        vec![
            FixedSetting::NodeId,
            FixedSetting::ClusterId,
            FixedSetting::ListenAddr,
            FixedSetting::DataDir,
            FixedSetting::Voters,
            FixedSetting::AdminListenAddr,
        ]
    );
}

#[test]
fn changed_roster_is_noticed() {
    let mut longer = settings();
    longer.voters.push(longer.voters[0].clone());
    assert_eq!(restart_required(&settings(), &longer), vec![FixedSetting::Voters]);
    for change in 0..3 {
        let mut new = settings();
        match change {
            0 => new.voters[0].node_id = 9,
            1 => new.voters[0].directory_id = "e".to_string(),
            _ => new.voters[0].host = "h".to_string(),
        }
        assert_eq!(restart_required(&settings(), &new), vec![FixedSetting::Voters]);
    }
}

#[test]
fn unreadable_settings_change_nothing() {
    assert!(matches!(plan_reload(&settings(), None), ReloadPlan::Keep));
}

#[test]
fn only_applied_reloads_are_counted() {
    let mut publisher = StatusPublisher::from_status(NodeStatus::placeholder(NodeId(1)));
    assert_eq!(finish_reload(false, &mut publisher), None);
    assert_eq!(publisher.config_revision(), 0);
    assert_eq!(finish_reload(true, &mut publisher), Some(1));
    assert_eq!(finish_reload(true, &mut publisher), Some(2));
    assert_eq!(publisher.config_revision(), 2);
}

#[test]
fn driver_defaults() {
    let c = DriverConfig::default();
    assert_eq!(c.tick_interval, 10);
    assert_eq!(c.max_fetch_batch, 64);
    assert_eq!(c.shutdown_drain_deadline, 5000);
    assert_eq!(c.fetch_snapshot_deadline, DEFAULT_FETCH_SNAPSHOT_DEADLINE);
    assert_eq!(c.fetch_snapshot_deadline, 30000);
}
