use punch::client::{ForwardEvent, ForwardStep};
use punch::parse::{parse_ports, Mapping};
use punch::server::{route, AllowList, Refusal, Route};
use punch::supervise::Ending;
use punch::wire::encode_header;

const MAPPING: Mapping = Mapping { local: 4000, remote: 8080 };

#[test]
fn forwarding_opens_sends_the_header_pumps_and_ends() {
    let step = ForwardStep::start();
    assert_eq!(step, ForwardStep::Open);
    let step = step.after(&MAPPING, ForwardEvent::Opened(true));
    assert_eq!(step, ForwardStep::SendHeader(8080));
    let step = step.after(&MAPPING, ForwardEvent::HeaderSent(true));
    assert_eq!(step, ForwardStep::Pump);
    assert_eq!(
        step.after(&MAPPING, ForwardEvent::Pumped(Ending::Clean)),
        ForwardStep::Done(Ending::Clean)
    );
    assert_eq!(
        step.after(&MAPPING, ForwardEvent::Pumped(Ending::Failed)),
        ForwardStep::Done(Ending::Failed)
    );
}

#[test]
fn forwarding_asks_for_the_remote_port_not_the_local_one() {
    for (local, remote) in [(4000u16, 8080u16), (8080, 4000), (1, 65535), (22, 22)] {
        let mapping = Mapping { local, remote };
        assert_eq!(
            ForwardStep::start().after(&mapping, ForwardEvent::Opened(true)),
            ForwardStep::SendHeader(remote)
        );
    }
}

#[test]
fn forwarding_fails_where_no_stream_opens() {
    let step = ForwardStep::start().after(&MAPPING, ForwardEvent::Opened(false));
    assert_eq!(step, ForwardStep::Done(Ending::Failed));
}

#[test]
fn forwarding_resets_the_stream_whose_header_does_not_go_through() {
    let step = ForwardStep::SendHeader(8080).after(&MAPPING, ForwardEvent::HeaderSent(false));
    assert_eq!(step, ForwardStep::Reset);
    assert_eq!(step.after(&MAPPING, ForwardEvent::WasReset), ForwardStep::Done(Ending::Failed));
}

#[test]
fn forwarding_is_not_moved_by_what_does_not_answer_its_step() {
    let all = [
        ForwardEvent::Opened(true),
        ForwardEvent::Opened(false),
        ForwardEvent::HeaderSent(true),
        ForwardEvent::HeaderSent(false),
        ForwardEvent::Pumped(Ending::Clean),
        ForwardEvent::Pumped(Ending::Failed),
        ForwardEvent::WasReset,
    ];
    for event in all {
        let moved = |step: ForwardStep| step.after(&MAPPING, event) != step;
        assert_eq!(moved(ForwardStep::Open), matches!(event, ForwardEvent::Opened(_)));
        assert_eq!(moved(ForwardStep::SendHeader(8080)), matches!(event, ForwardEvent::HeaderSent(_)));
        assert_eq!(moved(ForwardStep::Pump), matches!(event, ForwardEvent::Pumped(_)));
        assert_eq!(moved(ForwardStep::Reset), matches!(event, ForwardEvent::WasReset));
        assert!(!moved(ForwardStep::Done(Ending::Clean)));
        assert!(!moved(ForwardStep::Done(Ending::Failed)));
    }
}

#[test]
fn header_of_a_mapping_is_routed_to_its_remote_port() {
    let args: Vec<String> = vec!["8080".into(), "22".into()];
    let allowed = AllowList::new(&parse_ports(&args).unwrap());
    for (remote, exposed) in [(8080u16, true), (22, true), (4000, false), (9999, false)] {
        let mapping = Mapping { local: 4000, remote };
        let header = match ForwardStep::start().after(&mapping, ForwardEvent::Opened(true)) {
            ForwardStep::SendHeader(port) => encode_header(port),
            other => panic!("no header asked for, but {:?}", other),
        };
        let expected = if exposed {
            Route::Dial(remote)
        } else {
            Route::Reset(Refusal::NotExposed(remote))
        };
        assert_eq!(route(&allowed, Some(header)), expected);
    }
}
