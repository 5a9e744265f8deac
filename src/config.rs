//! Ports and sizes of a deployment, picked out of the settings file's lists.
use vstd::prelude::*;

verus! {

/// The settings file: per-car port lists indexed by car number, the shared
/// ports as one-element lists, the default server port and the floor count.
#[derive(Debug, Clone)]
pub struct ConfigFile {
    pub update_ports: Vec<u16>,
    pub command_ports: Vec<u16>,
    pub slave_pp_update_ports: Vec<u16>,
    pub slave_pp_ack_ports: Vec<u16>,
    pub backup_update_ports: Vec<u16>,
    pub backup_ack_ports: Vec<u16>,
    pub master_pp_ports: Vec<u16>,
    pub backup_pp_ports: Vec<u16>,
    pub server_port: u16,
    pub num_floors: u8,
}

#[derive(Debug, Clone)]
pub struct NetworkConfig {
    pub update_port: u16,
    pub command_port: u16,
    pub pp_update_port: u16,
    pub pp_ack_port: u16,
}

#[derive(Debug, Clone)]
pub struct ServerConfig {
    pub port: u16,
}

#[derive(Debug, Clone)]
pub struct ElevatorConfig {
    pub num_floors: u8,
}

/// The settings of car number `elevnum`.
#[derive(Debug, Clone)]
pub struct SlaveConfig {
    pub elevnum: u8,
    pub network: NetworkConfig,
    pub server: ServerConfig,
    pub elevator: ElevatorConfig,
}

#[derive(Debug, Clone)]
pub struct MasterNetworkConfig {
    pub update_ports: Vec<u16>,
    pub command_ports: Vec<u16>,
    pub backup_update_port: u16,
    pub backup_ack_port: u16,
    pub pp_port: u16,
}

#[derive(Debug, Clone)]
pub struct HallRequestAssignerConfig {
    pub exec_path: String,
}

#[derive(Debug, Clone)]
pub struct MasterConfig {
    pub network: MasterNetworkConfig,
    pub elevator: ElevatorConfig,
    pub hall_request_assigner: HallRequestAssignerConfig,
}

#[derive(Debug, Clone)]
pub struct BackupNetworkConfig {
    pub backup_update_port: u16,
    pub backup_ack_port: u16,
    pub pp_port: u16,
}

#[derive(Debug, Clone)]
pub struct BackupConfig {
    pub network: BackupNetworkConfig,
    pub elevator: ElevatorConfig,
}

fn copy_ports(ports: &Vec<u16>) -> (r: Vec<u16>)
    ensures
        r@ == ports@,
{
    let r = ports.clone();
    assert(r@ =~= ports@);
    r
}

impl SlaveConfig {
    /// The settings of car `elevnum` with server port `serverport`; `None`
    /// when a per-car list has no entry for that car.
    pub fn get(file: &ConfigFile, elevnum: u8, serverport: u16) -> (r: Option<SlaveConfig>)
        ensures
            r.is_some() <==> (elevnum < file.update_ports@.len() && elevnum
                < file.command_ports@.len() && elevnum < file.slave_pp_update_ports@.len()
                && elevnum < file.slave_pp_ack_ports@.len()),
            r.is_some() ==> {
                let c = r.unwrap();
                &&& c.elevnum == elevnum
                &&& c.network.update_port == file.update_ports@[elevnum as int]
                &&& c.network.command_port == file.command_ports@[elevnum as int]
                &&& c.network.pp_update_port == file.slave_pp_update_ports@[elevnum as int]
                &&& c.network.pp_ack_port == file.slave_pp_ack_ports@[elevnum as int]
                &&& c.server.port == serverport
                &&& c.elevator.num_floors == file.num_floors
            },
    {
        let i = elevnum as usize;
        if i < file.update_ports.len() && i < file.command_ports.len() && i
            < file.slave_pp_update_ports.len() && i < file.slave_pp_ack_ports.len() {
            Some(
                SlaveConfig {
                    elevnum,
                    network: NetworkConfig {
                        update_port: file.update_ports[i],
                        command_port: file.command_ports[i],
                        pp_update_port: file.slave_pp_update_ports[i],
                        pp_ack_port: file.slave_pp_ack_ports[i],
                    },
                    server: ServerConfig { port: serverport },
                    elevator: ElevatorConfig { num_floors: file.num_floors },
                },
            )
        } else {
            None
        }
    }
}

impl MasterConfig {
    /// The coordinator's settings, with the assignment program at `exec_path`;
    /// `None` when a shared port list is empty.
    pub fn get(file: &ConfigFile, exec_path: String) -> (r: Option<MasterConfig>)
        ensures
            r.is_some() <==> (file.backup_update_ports@.len() > 0 && file.backup_ack_ports@.len() > 0
                && file.master_pp_ports@.len() > 0),
            r.is_some() ==> {
                let c = r.unwrap();
                &&& c.network.update_ports@ == file.update_ports@
                &&& c.network.command_ports@ == file.command_ports@
                &&& c.network.backup_update_port == file.backup_update_ports@[0]
                &&& c.network.backup_ack_port == file.backup_ack_ports@[0]
                &&& c.network.pp_port == file.master_pp_ports@[0]
                &&& c.elevator.num_floors == file.num_floors
                &&& c.hall_request_assigner.exec_path@ == exec_path@
            },
    {
        if file.backup_update_ports.len() > 0 && file.backup_ack_ports.len() > 0
            && file.master_pp_ports.len() > 0 {
            Some(
                MasterConfig {
                    network: MasterNetworkConfig {
                        update_ports: copy_ports(&file.update_ports),
                        command_ports: copy_ports(&file.command_ports),
                        backup_update_port: file.backup_update_ports[0],
                        backup_ack_port: file.backup_ack_ports[0],
                        pp_port: file.master_pp_ports[0],
                    },
                    elevator: ElevatorConfig { num_floors: file.num_floors },
                    hall_request_assigner: HallRequestAssignerConfig { exec_path },
                },
            )
        } else {
            None
        }
    }
}

impl BackupConfig {
    /// The standby coordinator's settings; `None` when a shared port list is empty.
    pub fn get(file: &ConfigFile) -> (r: Option<BackupConfig>)
        ensures
            r.is_some() <==> (file.backup_update_ports@.len() > 0 && file.backup_ack_ports@.len() > 0
                && file.backup_pp_ports@.len() > 0),
            r.is_some() ==> {
                let c = r.unwrap();
                &&& c.network.backup_update_port == file.backup_update_ports@[0]
                &&& c.network.backup_ack_port == file.backup_ack_ports@[0]
                &&& c.network.pp_port == file.backup_pp_ports@[0]
                &&& c.elevator.num_floors == file.num_floors
            },
    {
        if file.backup_update_ports.len() > 0 && file.backup_ack_ports.len() > 0
            && file.backup_pp_ports.len() > 0 {
            Some(
                BackupConfig {
                    network: BackupNetworkConfig {
                        backup_update_port: file.backup_update_ports[0],
                        backup_ack_port: file.backup_ack_ports[0],
                        pp_port: file.backup_pp_ports[0],
                    },
                    elevator: ElevatorConfig { num_floors: file.num_floors },
                },
            )
        } else {
            None
        }
    }
}

} // verus!
