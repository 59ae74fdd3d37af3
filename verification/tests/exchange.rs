use dashboard_core::error::{ExchangeError, Unreachable};
use dashboard_core::exchange::{action_outcome, pair, request_outcome, Correlator};
use dashboard_core::message::{
    CommandAction, CommandOutput, MemUsage, NetworkIo, Request, RequestKind, Response, Temperature,
    Usage,
};

fn reply_of(kind: RequestKind) -> Response {
    match kind {
        RequestKind::Mem => Response::Mem(MemUsage {
            ram: Usage { used: 1, total: 2 },
            swap: Usage { used: 3, total: 4 },
        }),
        RequestKind::NetIO => Response::NetIO(NetworkIo { sent: 5, recv: 6 }),
        RequestKind::Temp => Response::Temp(Temperature { temp: None }),
        RequestKind::ReadConfig => Response::ReadConfig("listen = 5252".to_string()),
        _ => Response::Command(CommandOutput { output: b"ok".to_vec() }),
    }
}

#[test]
fn identifiers_are_given_out_in_order() {
    let mut table: Correlator<&str> = Correlator::new();
    assert!(table.is_open());
    assert_eq!(table.issue(RequestKind::Mem, "a"), Ok(0));
    assert_eq!(table.issue(RequestKind::Cpu, "b"), Ok(1));
    assert_eq!(table.issue(RequestKind::Mem, "c"), Ok(2));
    assert_eq!(table.outstanding(), 3);
}

#[test]
fn replies_in_any_order_reach_their_own_requests() {
    let kinds = [
        RequestKind::Mem,
        RequestKind::NetIO,
        RequestKind::Temp,
        RequestKind::ReadConfig,
        RequestKind::Command,
    ];
    let orders: [[usize; 5]; 4] =
        [[0, 1, 2, 3, 4], [4, 3, 2, 1, 0], [2, 0, 4, 1, 3], [1, 4, 0, 3, 2]];
    for order in orders {
        let mut table: Correlator<usize> = Correlator::new();
        let ids: Vec<u64> =
            kinds.iter().enumerate().map(|(j, k)| table.issue(*k, j).unwrap()).collect();
        for j in order {
            let delivery = table.settle(ids[j], reply_of(kinds[j])).unwrap();
            assert_eq!(delivery.slot, j);
            assert_eq!(delivery.result, Ok(reply_of(kinds[j])));
        }
        assert_eq!(table.outstanding(), 0);
    }
}

#[test]
fn reply_of_another_kind_is_a_protocol_violation() {
    let mut table: Correlator<u8> = Correlator::new();
    let id = table.issue(RequestKind::Mem, 9).unwrap();
    let delivery = table.settle(id, reply_of(RequestKind::NetIO)).unwrap();
    assert_eq!(delivery.slot, 9);
    assert_eq!(delivery.result, Err(ExchangeError::ProtocolViolation));
    assert_eq!(table.outstanding(), 0);
}

#[test]
fn a_reply_resolves_at_most_once() {
    let mut table: Correlator<u8> = Correlator::new();
    let id = table.issue(RequestKind::Mem, 1).unwrap();
    assert!(table.settle(id, reply_of(RequestKind::Mem)).is_some());
    assert!(table.settle(id, reply_of(RequestKind::Mem)).is_none());
    assert!(table.settle(77, reply_of(RequestKind::Mem)).is_none());
}

#[test]
fn close_fails_every_outstanding_request_once() {
    let mut table: Correlator<char> = Correlator::new();
    let a = table.issue(RequestKind::Mem, 'a').unwrap();
    let b = table.issue(RequestKind::Cpu, 'b').unwrap();
    let c = table.issue(RequestKind::Disk, 'c').unwrap();
    assert!(table.settle(b, reply_of(RequestKind::Cpu)).is_some());
    assert_eq!(table.close(), vec!['a', 'c']);
    assert!(!table.is_open());
    assert_eq!(table.outstanding(), 0);
    assert!(table.settle(a, reply_of(RequestKind::Mem)).is_none());
    assert!(table.settle(c, reply_of(RequestKind::Disk)).is_none());
    assert_eq!(table.close(), Vec::<char>::new());
}

#[test]
fn nothing_is_accepted_after_close() {
    let mut table: Correlator<&str> = Correlator::new();
    assert!(table.close().is_empty());
    assert_eq!(table.issue(RequestKind::Host, "late"), Err("late"));
    assert_eq!(table.outstanding(), 0);
}

#[test]
fn pair_checks_the_kind() {
    assert_eq!(pair(RequestKind::Mem, reply_of(RequestKind::Mem)), Ok(reply_of(RequestKind::Mem)));
    assert_eq!(
        pair(RequestKind::Host, reply_of(RequestKind::Mem)),
        Err(ExchangeError::ProtocolViolation)
    );
}

#[test]
fn every_request_is_of_its_kind() {
    let command = CommandAction { cmd: "ls".to_string(), args: vec!["-l".to_string()] };
    let pairs = [
        (Request::Host, RequestKind::Host),
        (Request::ReadConfig, RequestKind::ReadConfig),
        (Request::Processes, RequestKind::Processes),
        (Request::Software, RequestKind::Software),
        (Request::Command(command), RequestKind::Command),
        (Request::Services, RequestKind::Services),
        (Request::Cpu, RequestKind::Cpu),
        (Request::Temp, RequestKind::Temp),
        (Request::Mem, RequestKind::Mem),
        (Request::Disk, RequestKind::Disk),
        (Request::NetIO, RequestKind::NetIO),
    ];
    for (request, kind) in pairs {
        assert_eq!(request.kind(), kind);
    }
    assert_eq!(reply_of(RequestKind::Mem).kind(), RequestKind::Mem);
    assert_eq!(reply_of(RequestKind::Temp).kind(), RequestKind::Temp);
}

#[test]
fn replies_unwrap_only_as_their_own_kind() {
    assert_eq!(
        reply_of(RequestKind::Mem).into_mem(),
        Ok(MemUsage { ram: Usage { used: 1, total: 2 }, swap: Usage { used: 3, total: 4 } })
    );
    assert_eq!(reply_of(RequestKind::Mem).into_net_io(), Err(ExchangeError::ProtocolViolation));
    assert_eq!(reply_of(RequestKind::NetIO).into_net_io(), Ok(NetworkIo { sent: 5, recv: 6 }));
    assert_eq!(reply_of(RequestKind::ReadConfig).into_config(), Ok("listen = 5252".to_string()));
    assert_eq!(reply_of(RequestKind::ReadConfig).into_host(), Err(ExchangeError::ProtocolViolation));
    assert_eq!(
        reply_of(RequestKind::Command).into_command(),
        Ok(CommandOutput { output: b"ok".to_vec() })
    );
    assert_eq!(reply_of(RequestKind::Temp).into_temp(), Ok(Temperature { temp: None }));
    assert!(reply_of(RequestKind::Temp).into_cpu().is_err());
    assert!(reply_of(RequestKind::Temp).into_disks().is_err());
    assert!(reply_of(RequestKind::Temp).into_services().is_err());
    assert!(reply_of(RequestKind::Temp).into_software().is_err());
    assert!(reply_of(RequestKind::Temp).into_processes().is_err());
}

#[test]
fn senders_learn_that_the_device_is_unreachable() {
    assert_eq!(action_outcome(true), Ok(()));
    assert_eq!(action_outcome(false), Err(Unreachable));
    let reply = reply_of(RequestKind::Mem);
    assert_eq!(request_outcome(true, Some(Ok(reply.clone()))), Ok(reply.clone()));
    assert_eq!(
        request_outcome(true, Some(Err(ExchangeError::ProtocolViolation))),
        Err(ExchangeError::ProtocolViolation)
    );
    assert_eq!(request_outcome(true, None), Err(ExchangeError::Unreachable));
    assert_eq!(request_outcome(false, Some(Ok(reply))), Err(ExchangeError::Unreachable));
    assert_eq!(Unreachable.message(), "device unreachable");
    assert_eq!(ExchangeError::Unreachable.message(), "device unreachable");
    assert_eq!(ExchangeError::ProtocolViolation.message(), "reply does not match its request");
}

#[test]
fn many_requests_settle_out_of_order() {
    let mut table: Correlator<u64> = Correlator::new();
    let n = 500u64;
    for j in 0..n {
        assert_eq!(table.issue(RequestKind::Cpu, j * 10), Ok(j));
    }
    let mut id = 0u64;
    for _ in 0..n {
        id = (id + 271) % n;
        let delivery = table.settle(id, Response::ReadConfig(String::new()));
        let delivery = delivery.unwrap();
        assert_eq!(delivery.slot, id * 10);
        assert_eq!(delivery.result, Err(ExchangeError::ProtocolViolation));
    }
    assert_eq!(table.outstanding(), 0);
}
