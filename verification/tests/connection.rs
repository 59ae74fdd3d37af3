use dashboard_core::connection::{Input, Outbound, Output};
use dashboard_core::error::ExchangeError;
use dashboard_core::exchange::{Correlator, Reply};
use dashboard_core::message::{Action, NetworkIo, Request, Response, Signal, SignalAction};

fn net() -> Response {
    Response::NetIO(NetworkIo { sent: 1, recv: 2 })
}

/// The messages that these outputs put on the transport.
fn transmitted(outputs: &[Output<char>]) -> Vec<Outbound> {
    outputs
        .iter()
        .filter_map(|o| match o {
            Output::Transmit(m) => Some(m.clone()),
            Output::Resolve(_) => None,
        })
        .collect()
}

/// The slots that these outputs resolve, each with its result.
fn resolved(outputs: &[Output<char>]) -> Vec<(char, Result<Response, ExchangeError>)> {
    outputs
        .iter()
        .filter_map(|o| match o {
            Output::Resolve(d) => Some((d.slot, d.result.clone())),
            Output::Transmit(_) => None,
        })
        .collect()
}

#[test]
fn requests_go_out_with_consecutive_identifiers() {
    let mut c: Correlator<char> = Correlator::new();
    let out = c.react(Input::Request(Request::NetIO, 'a'));
    assert_eq!(transmitted(&out), vec![Outbound::Request { id: 0, request: Request::NetIO }]);
    assert!(resolved(&out).is_empty());
    let out = c.react(Input::Request(Request::Cpu, 'b'));
    assert_eq!(transmitted(&out), vec![Outbound::Request { id: 1, request: Request::Cpu }]);
    assert_eq!(c.outstanding(), 2);
}

#[test]
fn actions_go_out_unanswered() {
    let mut c: Correlator<char> = Correlator::new();
    let action = Action::Signal(SignalAction { pid: 4, signal: Signal::Term });
    let out = c.react(Input::Action(action.clone()));
    assert_eq!(transmitted(&out), vec![Outbound::Action(action)]);
    assert_eq!(c.outstanding(), 0);
}

#[test]
fn replies_resolve_their_slots() {
    let mut c: Correlator<char> = Correlator::new();
    c.react(Input::Request(Request::Cpu, 'a'));
    c.react(Input::Request(Request::NetIO, 'b'));
    let out = c.react(Input::Reply(Reply { id: 1, response: net() }));
    assert_eq!(resolved(&out), vec![('b', Ok(net()))]);
    assert!(transmitted(&out).is_empty());
    let out = c.react(Input::Reply(Reply { id: 0, response: net() }));
    assert_eq!(resolved(&out), vec![('a', Err(ExchangeError::ProtocolViolation))]);
    let out = c.react(Input::Reply(Reply { id: 0, response: net() }));
    assert!(out.is_empty());
}

#[test]
fn loss_fails_all_outstanding_requests_as_unreachable() {
    let mut c: Correlator<char> = Correlator::new();
    c.react(Input::Request(Request::Cpu, 'a'));
    c.react(Input::Request(Request::NetIO, 'b'));
    c.react(Input::Request(Request::Mem, 'c'));
    c.react(Input::Reply(Reply { id: 1, response: net() }));
    let out = c.react(Input::Lost);
    assert_eq!(
        resolved(&out),
        vec![('a', Err(ExchangeError::Unreachable)), ('c', Err(ExchangeError::Unreachable))]
    );
    assert!(!c.is_open());
    assert_eq!(c.outstanding(), 0);
    assert!(c.react(Input::Lost).is_empty());
    assert!(c.react(Input::Reply(Reply { id: 0, response: net() })).is_empty());
}

#[test]
fn a_closed_connection_refuses_requests_and_drops_actions() {
    let mut c: Correlator<char> = Correlator::new();
    c.react(Input::Lost);
    let out = c.react(Input::Request(Request::Cpu, 'z'));
    assert_eq!(resolved(&out), vec![('z', Err(ExchangeError::Unreachable))]);
    assert!(transmitted(&out).is_empty());
    assert!(c.react(Input::Action(Action::Terminal(vec![1]))).is_empty());
}

#[test]
fn every_slot_is_resolved_exactly_once() {
    let mut c: Correlator<char> = Correlator::new();
    let mut seen = Vec::new();
    let mut note = |outputs: Vec<Output<char>>| {
        for (slot, _) in resolved(&outputs) {
            seen.push(slot);
        }
    };
    note(c.react(Input::Request(Request::Cpu, 'a')));
    note(c.react(Input::Request(Request::Mem, 'b')));
    note(c.react(Input::Reply(Reply { id: 1, response: net() })));
    note(c.react(Input::Request(Request::Disk, 'c')));
    note(c.react(Input::Reply(Reply { id: 1, response: net() })));
    note(c.react(Input::Reply(Reply { id: 9, response: net() })));
    note(c.react(Input::Lost));
    note(c.react(Input::Request(Request::Temp, 'd')));
    note(c.react(Input::Lost));
    seen.sort();
    assert_eq!(seen, vec!['a', 'b', 'c', 'd']);
}

#[test]
fn messages_go_out_in_the_order_of_submission() {
    let mut c: Correlator<char> = Correlator::new();
    let mut wire = Vec::new();
    let inputs = vec![
        Input::Request(Request::Cpu, 'a'),
        Input::Action(Action::Terminal(b"x".to_vec())),
        Input::Reply(Reply { id: 0, response: net() }),
        Input::Request(Request::Mem, 'b'),
        Input::Action(Action::Terminal(b"y".to_vec())),
        Input::Request(Request::Disk, 'c'),
    ];
    for input in inputs {
        wire.extend(transmitted(&c.react(input)));
    }
    assert_eq!(
        wire,
        vec![
            Outbound::Request { id: 0, request: Request::Cpu },
            Outbound::Action(Action::Terminal(b"x".to_vec())),
            Outbound::Request { id: 1, request: Request::Mem },
            Outbound::Action(Action::Terminal(b"y".to_vec())),
            Outbound::Request { id: 2, request: Request::Disk },
        ]
    );
}
