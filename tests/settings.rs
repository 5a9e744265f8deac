use elevator_fleet::config::{BackupConfig, ConfigFile, MasterConfig, SlaveConfig};
use elevator_fleet::timer::{timer_start, timer_stop, timer_timed_out, DoorTimer};

fn file() -> ConfigFile {
    ConfigFile {
        update_ports: vec![1000, 1001],
        command_ports: vec![2000, 2001],
        slave_pp_update_ports: vec![3000, 3001],
        slave_pp_ack_ports: vec![4000, 4001],
        backup_update_ports: vec![5000],
        backup_ack_ports: vec![6000],
        master_pp_ports: vec![7000],
        backup_pp_ports: vec![8000],
        server_port: 15657,
        num_floors: 4,
    }
}

#[test]
fn slave_config_picks_ports_of_its_car() {
    let c = SlaveConfig::get(&file(), 1, 15658).unwrap();
    assert_eq!(c.elevnum, 1);
    assert_eq!(c.network.update_port, 1001);
    assert_eq!(c.network.command_port, 2001);
    assert_eq!(c.network.pp_update_port, 3001);
    assert_eq!(c.network.pp_ack_port, 4001);
    assert_eq!(c.server.port, 15658);
    assert_eq!(c.elevator.num_floors, 4);
    assert!(SlaveConfig::get(&file(), 2, 15657).is_none());
}

#[test]
fn master_and_backup_configs() {
    let m = MasterConfig::get(&file(), "hall_request_assigner".to_string()).unwrap();
    assert_eq!(m.network.update_ports, vec![1000, 1001]);
    assert_eq!(m.network.command_ports, vec![2000, 2001]);
    assert_eq!(m.network.backup_update_port, 5000);
    assert_eq!(m.network.backup_ack_port, 6000);
    assert_eq!(m.network.pp_port, 7000);
    assert_eq!(m.hall_request_assigner.exec_path, "hall_request_assigner");
    let b = BackupConfig::get(&file()).unwrap();
    assert_eq!(b.network.pp_port, 8000);
    assert_eq!(b.elevator.num_floors, 4);
    let mut f = file();
    f.backup_pp_ports = vec![];
    assert!(BackupConfig::get(&f).is_none());
    assert!(MasterConfig::get(&f, String::new()).is_some());
}

#[test]
fn door_timer_fires_after_deadline_until_stopped() {
    let mut t = DoorTimer::new();
    assert!(!timer_timed_out(&t, 10));
    timer_start(&mut t, 100, 3_000);
    assert!(!timer_timed_out(&t, 3_100));
    assert!(timer_timed_out(&t, 3_101));
    timer_stop(&mut t);
    assert!(!timer_timed_out(&t, 10_000));
    timer_start(&mut t, u64::MAX - 1, 10);
    assert_eq!(t.end_time, u64::MAX);
}
