//! The vocabulary spoken with a device: requests, the reply each of them is
//! answered with, and actions, which are not answered.
//!
//! Every request is of one [`RequestKind`], and so is every reply. A reply
//! answers a request exactly when the two are of the same kind.

use crate::error::ExchangeError;
use crate::terminal::Geometry;
use vstd::prelude::*;

verus! {

/// What a request asks for, and so what its reply holds.
#[derive(Clone, Copy, Debug, PartialEq, Eq, Hash, Structural)]
pub enum RequestKind {
    Host,
    ReadConfig,
    Processes,
    Software,
    Command,
    Services,
    Cpu,
    Temp,
    Mem,
    Disk,
    NetIO,
}

/// A measurement that is a real number on the device, carried as the bit
/// pattern of its single-precision encoding.
#[derive(Clone, Copy, Debug, PartialEq, Eq, Structural)]
pub struct Sample {
    pub bits: u32,
}

/// A program to run on the device, and its arguments.
#[derive(Clone, Debug, PartialEq, Eq)]
pub struct CommandAction {
    pub cmd: String,
    pub args: Vec<String>,
}

/// A question put to a device.
#[derive(Clone, Debug, PartialEq, Eq)]
pub enum Request {
    Host,
    ReadConfig,
    Processes,
    Software,
    Command(CommandAction),
    Services,
    Cpu,
    Temp,
    Mem,
    Disk,
    NetIO,
}

impl Request {
    /// The kind of this request.
    pub open spec fn kind_spec(&self) -> RequestKind {
        match self {
            Request::Host => RequestKind::Host,
            Request::ReadConfig => RequestKind::ReadConfig,
            Request::Processes => RequestKind::Processes,
            Request::Software => RequestKind::Software,
            Request::Command(_) => RequestKind::Command,
            Request::Services => RequestKind::Services,
            Request::Cpu => RequestKind::Cpu,
            Request::Temp => RequestKind::Temp,
            Request::Mem => RequestKind::Mem,
            Request::Disk => RequestKind::Disk,
            Request::NetIO => RequestKind::NetIO,
        }
    }

    /// The kind of this request.
    #[verifier::when_used_as_spec(kind_spec)]
    pub fn kind(&self) -> (k: RequestKind)
        ensures
            k == self.kind_spec(),
    {
        match self {
            Request::Host => RequestKind::Host,
            Request::ReadConfig => RequestKind::ReadConfig,
            Request::Processes => RequestKind::Processes,
            Request::Software => RequestKind::Software,
            Request::Command(_) => RequestKind::Command,
            Request::Services => RequestKind::Services,
            Request::Cpu => RequestKind::Cpu,
            Request::Temp => RequestKind::Temp,
            Request::Mem => RequestKind::Mem,
            Request::Disk => RequestKind::Disk,
            Request::NetIO => RequestKind::NetIO,
        }
    }
}

/// What a device says of itself.
#[derive(Clone, Debug, PartialEq, Eq)]
pub struct HostInfo {
    pub hostname: String,
    pub nic: String,
    /// Seconds since the device booted.
    pub uptime: u64,
    pub num_pkgs: u32,
    pub os_version: String,
    pub kernel: String,
    pub dp_version: String,
    pub arch: String,
}

/// What a process is doing. The variants are in the order in which a list
/// sorted by status shows them.
#[derive(Clone, Copy, Debug, PartialEq, Eq, Structural)]
pub enum ProcessStatus {
    Running,
    Paused,
    Sleeping,
    Other,
}

/// One process on the device.
#[derive(Clone, Debug, PartialEq, Eq)]
pub struct ProcessInfo {
    pub pid: u32,
    pub name: String,
    pub status: ProcessStatus,
    /// Share of one processor in use, in percent.
    pub cpu: Sample,
    /// Resident memory in bytes.
    pub mem: u64,
}

/// One package of the software catalogue.
#[derive(Clone, Debug, PartialEq, Eq)]
pub struct SoftwareInfo {
    pub id: u16,
    pub name: String,
    pub desc: String,
    pub deps: String,
    pub docs: String,
}

/// The software catalogue, split by whether a package is installed.
#[derive(Clone, Debug, PartialEq, Eq)]
pub struct SoftwareCatalogue {
    pub uninstalled: Vec<SoftwareInfo>,
    pub installed: Vec<SoftwareInfo>,
}

/// What a command printed.
#[derive(Clone, Debug, PartialEq, Eq)]
pub struct CommandOutput {
    pub output: Vec<u8>,
}

/// Whether a service is up.
#[derive(Clone, Copy, Debug, PartialEq, Eq, Structural)]
pub enum ServiceStatus {
    Active,
    Inactive,
    Failed,
    Unknown,
}

/// One service on the device.
#[derive(Clone, Debug, PartialEq, Eq)]
pub struct ServiceInfo {
    pub name: String,
    pub status: ServiceStatus,
    pub err_log: String,
    pub start: String,
}

/// Processor load, overall and per core, in percent.
#[derive(Clone, Debug, PartialEq, Eq)]
pub struct CpuUsage {
    pub global_cpu: Sample,
    pub cpus: Vec<Sample>,
}

/// Processor temperature in degrees Celsius, where the device has a sensor.
#[derive(Clone, Copy, Debug, PartialEq, Eq)]
pub struct Temperature {
    pub temp: Option<Sample>,
}

/// How much of something is in use, in bytes.
#[derive(Clone, Copy, Debug, PartialEq, Eq, Structural)]
pub struct Usage {
    pub used: u64,
    pub total: u64,
}

/// Memory in use.
#[derive(Clone, Copy, Debug, PartialEq, Eq, Structural)]
pub struct MemUsage {
    pub ram: Usage,
    pub swap: Usage,
}

/// One mounted disk.
#[derive(Clone, Debug, PartialEq, Eq)]
pub struct DiskInfo {
    pub name: String,
    pub mnt_point: String,
    pub usage: Usage,
}

/// Bytes sent and received over the network since the last reading.
#[derive(Clone, Copy, Debug, PartialEq, Eq, Structural)]
pub struct NetworkIo {
    pub sent: u64,
    pub recv: u64,
}

/// A device's answer to a request.
#[derive(Clone, Debug, PartialEq, Eq)]
pub enum Response {
    Host(HostInfo),
    ReadConfig(String),
    Processes(Vec<ProcessInfo>),
    Software(SoftwareCatalogue),
    Command(CommandOutput),
    Services(Vec<ServiceInfo>),
    Cpu(CpuUsage),
    Temp(Temperature),
    Mem(MemUsage),
    Disk(Vec<DiskInfo>),
    NetIO(NetworkIo),
}

impl Response {
    /// The kind of request that this reply answers.
    pub open spec fn kind_spec(&self) -> RequestKind {
        match self {
            Response::Host(_) => RequestKind::Host,
            Response::ReadConfig(_) => RequestKind::ReadConfig,
            Response::Processes(_) => RequestKind::Processes,
            Response::Software(_) => RequestKind::Software,
            Response::Command(_) => RequestKind::Command,
            Response::Services(_) => RequestKind::Services,
            Response::Cpu(_) => RequestKind::Cpu,
            Response::Temp(_) => RequestKind::Temp,
            Response::Mem(_) => RequestKind::Mem,
            Response::Disk(_) => RequestKind::Disk,
            Response::NetIO(_) => RequestKind::NetIO,
        }
    }

    /// The kind of request that this reply answers.
    #[verifier::when_used_as_spec(kind_spec)]
    pub fn kind(&self) -> (k: RequestKind)
        ensures
            k == self.kind_spec(),
    {
        match self {
            Response::Host(_) => RequestKind::Host,
            Response::ReadConfig(_) => RequestKind::ReadConfig,
            Response::Processes(_) => RequestKind::Processes,
            Response::Software(_) => RequestKind::Software,
            Response::Command(_) => RequestKind::Command,
            Response::Services(_) => RequestKind::Services,
            Response::Cpu(_) => RequestKind::Cpu,
            Response::Temp(_) => RequestKind::Temp,
            Response::Mem(_) => RequestKind::Mem,
            Response::Disk(_) => RequestKind::Disk,
            Response::NetIO(_) => RequestKind::NetIO,
        }
    }

    /// The host information, from the reply to a `Host` request.
    pub fn into_host(self) -> (r: Result<HostInfo, ExchangeError>)
        ensures
            r == (match self {
                Response::Host(x) => Ok::<HostInfo, ExchangeError>(x),
                _ => Err(ExchangeError::ProtocolViolation),
            }),
    {
        match self {
            Response::Host(x) => Ok(x),
            _ => Err(ExchangeError::ProtocolViolation),
        }
    }

    /// The configuration text, from the reply to a `ReadConfig` request.
    pub fn into_config(self) -> (r: Result<String, ExchangeError>)
        ensures
            r == (match self {
                Response::ReadConfig(x) => Ok::<String, ExchangeError>(x),
                _ => Err(ExchangeError::ProtocolViolation),
            }),
    {
        match self {
            Response::ReadConfig(x) => Ok(x),
            _ => Err(ExchangeError::ProtocolViolation),
        }
    }

    /// The process list, from the reply to a `Processes` request.
    pub fn into_processes(self) -> (r: Result<Vec<ProcessInfo>, ExchangeError>)
        ensures
            r == (match self {
                Response::Processes(x) => Ok::<Vec<ProcessInfo>, ExchangeError>(x),
                _ => Err(ExchangeError::ProtocolViolation),
            }),
    {
        match self {
            Response::Processes(x) => Ok(x),
            _ => Err(ExchangeError::ProtocolViolation),
        }
    }

    /// The software catalogue, from the reply to a `Software` request.
    pub fn into_software(self) -> (r: Result<SoftwareCatalogue, ExchangeError>)
        ensures
            r == (match self {
                Response::Software(x) => Ok::<SoftwareCatalogue, ExchangeError>(x),
                _ => Err(ExchangeError::ProtocolViolation),
            }),
    {
        match self {
            Response::Software(x) => Ok(x),
            _ => Err(ExchangeError::ProtocolViolation),
        }
    }

    /// The output of a command, from the reply to a `Command` request.
    pub fn into_command(self) -> (r: Result<CommandOutput, ExchangeError>)
        ensures
            r == (match self {
                Response::Command(x) => Ok::<CommandOutput, ExchangeError>(x),
                _ => Err(ExchangeError::ProtocolViolation),
            }),
    {
        match self {
            Response::Command(x) => Ok(x),
            _ => Err(ExchangeError::ProtocolViolation),
        }
    }

    /// The service list, from the reply to a `Services` request.
    pub fn into_services(self) -> (r: Result<Vec<ServiceInfo>, ExchangeError>)
        ensures
            r == (match self {
                Response::Services(x) => Ok::<Vec<ServiceInfo>, ExchangeError>(x),
                _ => Err(ExchangeError::ProtocolViolation),
            }),
    {
        match self {
            Response::Services(x) => Ok(x),
            _ => Err(ExchangeError::ProtocolViolation),
        }
    }

    /// The processor load, from the reply to a `Cpu` request.
    pub fn into_cpu(self) -> (r: Result<CpuUsage, ExchangeError>)
        ensures
            r == (match self {
                Response::Cpu(x) => Ok::<CpuUsage, ExchangeError>(x),
                _ => Err(ExchangeError::ProtocolViolation),
            }),
    {
        match self {
            Response::Cpu(x) => Ok(x),
            _ => Err(ExchangeError::ProtocolViolation),
        }
    }

    /// The temperature, from the reply to a `Temp` request.
    pub fn into_temp(self) -> (r: Result<Temperature, ExchangeError>)
        ensures
            r == (match self {
                Response::Temp(x) => Ok::<Temperature, ExchangeError>(x),
                _ => Err(ExchangeError::ProtocolViolation),
            }),
    {
        match self {
            Response::Temp(x) => Ok(x),
            _ => Err(ExchangeError::ProtocolViolation),
        }
    }

    /// The memory in use, from the reply to a `Mem` request.
    pub fn into_mem(self) -> (r: Result<MemUsage, ExchangeError>)
        ensures
            r == (match self {
                Response::Mem(x) => Ok::<MemUsage, ExchangeError>(x),
                _ => Err(ExchangeError::ProtocolViolation),
            }),
    {
        match self {
            Response::Mem(x) => Ok(x),
            _ => Err(ExchangeError::ProtocolViolation),
        }
    }

    /// The disks, from the reply to a `Disk` request.
    pub fn into_disks(self) -> (r: Result<Vec<DiskInfo>, ExchangeError>)
        ensures
            r == (match self {
                Response::Disk(x) => Ok::<Vec<DiskInfo>, ExchangeError>(x),
                _ => Err(ExchangeError::ProtocolViolation),
            }),
    {
        match self {
            Response::Disk(x) => Ok(x),
            _ => Err(ExchangeError::ProtocolViolation),
        }
    }

    /// The network traffic, from the reply to a `NetIO` request.
    pub fn into_net_io(self) -> (r: Result<NetworkIo, ExchangeError>)
        ensures
            r == (match self {
                Response::NetIO(x) => Ok::<NetworkIo, ExchangeError>(x),
                _ => Err(ExchangeError::ProtocolViolation),
            }),
    {
        match self {
            Response::NetIO(x) => Ok(x),
            _ => Err(ExchangeError::ProtocolViolation),
        }
    }
}

/// A signal for a process.
#[derive(Clone, Copy, Debug, PartialEq, Eq, Structural)]
pub enum Signal {
    Kill,
    Term,
    Pause,
    Resume,
}

/// A signal and the process it is for.
#[derive(Clone, Copy, Debug, PartialEq, Eq, Structural)]
pub struct SignalAction {
    pub pid: u32,
    pub signal: Signal,
}

/// A message to a device that is not answered.
#[derive(Clone, Debug, PartialEq, Eq)]
pub enum Action {
    /// Keystrokes for the device's terminal.
    Terminal(Vec<u8>),
    /// A new size for the device's terminal.
    ResizeTerminal(Geometry),
    /// A signal for one of the device's processes.
    Signal(SignalAction),
}

} // verus!
