use benchmark::config::{parse_config, Compression, Mode, Reuse, Workload};
use benchmark::lockstep::{ClientAction, ClientSession, RunError, ServerAction, ServerSession};

/// Drives a client session with the given verdicts, one per request, and
/// returns the markers of the requests it sent and how the run ended.
fn drive_client(total: u64, verdicts: &[bool]) -> (Vec<u64>, Result<(), RunError>) {
    let mut s = ClientSession::new(total);
    let mut sent = Vec::new();
    let mut it = verdicts.iter();
    loop {
        match s.next_action() {
            ClientAction::Send(k) => {
                sent.push(k);
                s.on_sent();
            }
            ClientAction::Await(k) => {
                let ok = *it.next().expect("a verdict for each request");
                if let Err(e) = s.on_response(k, ok) {
                    return (sent, Err(e));
                }
            }
            ClientAction::Finish => return (sent, Ok(())),
        }
    }
}

#[test]
fn zero_iterations_exchange_nothing() {
    assert_eq!(ClientSession::new(0).next_action(), ClientAction::Finish);
    assert_eq!(ServerSession::new(0).next_action(), ServerAction::Finish);
    assert_eq!(drive_client(0, &[]), (vec![], Ok(())));
}

#[test]
fn every_iteration_is_validated() {
    let (sent, r) = drive_client(5, &[true; 5]);
    assert_eq!(sent, vec![0, 1, 2, 3, 4]);
    assert_eq!(r, Ok(()));
}

#[test]
fn a_client_awaits_before_the_next_request() {
    let mut s = ClientSession::new(3);
    assert_eq!(s.next_action(), ClientAction::Send(0));
    s.on_sent();
    assert_eq!(s.next_action(), ClientAction::Await(0));
    assert_eq!(s.on_response(0, true), Ok(()));
    assert_eq!(s.next_action(), ClientAction::Send(1));
    s.on_sent();
    assert_eq!(s.next_action(), ClientAction::Await(1));
    assert_eq!(s, ClientSession { total: 3, sent: 2, validated: 1 });
}

#[test]
fn a_wrong_response_aborts_the_run() {
    let (sent, r) = drive_client(4, &[true, true, false, true]);
    assert_eq!(sent, vec![0, 1, 2]);
    assert_eq!(r, Err(RunError::IncorrectResponse));
    assert_eq!(RunError::IncorrectResponse.message(), "Incorrect response.");
}

#[test]
fn a_response_out_of_order_aborts_the_run() {
    let mut s = ClientSession::new(2);
    s.on_sent();
    assert_eq!(s.on_response(1, true), Err(RunError::OutOfOrder));
    assert_eq!(s, ClientSession { total: 2, sent: 1, validated: 0 });
    assert_eq!(RunError::OutOfOrder.message(), "Response out of order.");
}

#[test]
fn a_server_answers_each_request_before_the_next() {
    let mut s = ServerSession::new(2);
    let mut trace = Vec::new();
    loop {
        let a = s.next_action();
        trace.push(a);
        match a {
            ServerAction::Receive(_) => s.on_received(),
            ServerAction::Respond(_) => s.on_responded(),
            ServerAction::Finish => break,
        }
    }
    assert_eq!(
        trace,
        vec![
            ServerAction::Receive(0),
            ServerAction::Respond(0),
            ServerAction::Receive(1),
            ServerAction::Respond(1),
            ServerAction::Finish,
        ]
    );
}

#[test]
fn client_and_server_stay_in_lockstep() {
    // Markers travel in the payload: the server echoes the marker it read.
    let mut c = ClientSession::new(3);
    let mut s = ServerSession::new(3);
    let mut wire: Vec<u64> = Vec::new();
    let mut seen: Vec<u64> = Vec::new();
    while let ClientAction::Send(k) = c.next_action() {
        wire.push(k);
        c.on_sent();
        assert_eq!(s.next_action(), ServerAction::Receive(k));
        let req = wire.pop().unwrap();
        s.on_received();
        assert_eq!(s.next_action(), ServerAction::Respond(req));
        wire.push(req);
        s.on_responded();
        let ClientAction::Await(want) = c.next_action() else { panic!("no request outstanding") };
        let got = wire.pop().unwrap();
        seen.push(got);
        assert_eq!(c.on_response(got, got == want), Ok(()));
    }
    assert_eq!(seen, vec![0, 1, 2]);
    assert_eq!(c.next_action(), ClientAction::Finish);
    assert_eq!(s.next_action(), ServerAction::Finish);
}

fn text_message(s: &str) -> capnp::message::Builder<capnp::message::HeapAllocator> {
    let mut m = capnp::message::Builder::new_default();
    m.set_root::<capnp::text::Owned>(s).unwrap();
    m
}

fn round_trip(m: &capnp::message::Builder<capnp::message::HeapAllocator>) -> String {
    let mut bytes: Vec<u8> = Vec::new();
    capnp::serialize::write_message(&mut bytes, m).unwrap();
    let reader =
        capnp::serialize::read_message(&mut &bytes[..], capnp::message::ReaderOptions::new())
            .unwrap();
    let text: capnp::text::Reader = reader.get_root().unwrap();
    text.to_str().unwrap().to_string()
}

#[test]
fn one_byte_round_trip_iteration_of_the_second_workload() {
    let f: Vec<String> = ["catrank", "bytes", "no-reuse", "none", "1"]
        .iter()
        .map(|s| s.to_string())
        .collect();
    let c = parse_config(&f).unwrap();
    assert_eq!(c.workload, Workload::CatRank);
    assert_eq!(c.mode, Mode::Bytes);
    assert_eq!(c.reuse, Reuse::NoReuse);
    assert_eq!(c.compression, Compression::Uncompressed);
    let mut s = ClientSession::new(c.iterations);
    let mut requests = 0;
    loop {
        match s.next_action() {
            ClientAction::Send(k) => {
                requests += 1;
                s.on_sent();
                let request = round_trip(&text_message(&format!("request {}", k)));
                let response = round_trip(&text_message(&request.to_uppercase()));
                let ClientAction::Await(m) = s.next_action() else { panic!() };
                assert_eq!(s.on_response(m, response == format!("REQUEST {}", k)), Ok(()));
            }
            ClientAction::Await(_) => panic!("a response is checked right after its request"),
            ClientAction::Finish => break,
        }
    }
    assert_eq!(requests, 1);
}
