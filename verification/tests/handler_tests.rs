use balancebeam::handler::{
    handle_connection, Action, Connection, Event, Phase, RequestError, BAD_GATEWAY, BAD_REQUEST,
    PAYLOAD_TOO_LARGE, SERVICE_UNAVAILABLE, TOO_MANY_REQUESTS,
};
use balancebeam::rate::RateLimiter;
use balancebeam::upstream::{connect_to_upstream, Upstream};
use rand::rngs::StdRng;
use rand::SeedableRng;

type Ev = Event<String, String>;
type Act = Action<String, String>;

fn serving(limit: usize, ip: &str) -> (Connection, RateLimiter) {
    let mut rates = RateLimiter::new(limit);
    let mut connection = Connection::accept(ip.to_string(), &mut rates);
    let action: Act = handle_connection(&mut connection, &mut rates, Ev::UpstreamConnected);
    assert_eq!(action, Action::ReadRequest);
    (connection, rates)
}

fn at(phase: Phase, limit: usize) -> (Connection, RateLimiter) {
    let (mut connection, mut rates) = serving(limit, "1.2.3.4");
    let mut events: Vec<Ev> = Vec::new();
    match phase {
        Phase::AwaitUpstream => {
            let mut rates = RateLimiter::new(limit);
            let connection = Connection::accept("1.2.3.4".to_string(), &mut rates);
            return (connection, rates);
        }
        Phase::AwaitRequest => {}
        Phase::Forwarding => events.push(Event::Request("q".to_string())),
        Phase::AwaitResponse => {
            events.push(Event::Request("q".to_string()));
            events.push(Event::Forwarded);
        }
        Phase::Replying => events.push(Event::RequestFailed(RequestError::MalformedRequest)),
        Phase::Closed => events.push(Event::RequestFailed(RequestError::ConnectionError)),
    }
    for event in events {
        handle_connection(&mut connection, &mut rates, event);
    }
    assert_eq!(connection.phase(), phase);
    (connection, rates)
}

#[test]
fn status_codes_are_the_standard_ones() {
    assert_eq!(BAD_REQUEST, 400);
    assert_eq!(PAYLOAD_TOO_LARGE, 413);
    assert_eq!(TOO_MANY_REQUESTS, 429);
    assert_eq!(BAD_GATEWAY, 502);
    assert_eq!(SERVICE_UNAVAILABLE, 503);
}

#[test]
fn error_status_of_each_defect() {
    assert_eq!(RequestError::IncompleteRequest(0).error_status(), 400);
    assert_eq!(RequestError::IncompleteRequest(17).error_status(), 400);
    assert_eq!(RequestError::MalformedRequest.error_status(), 400);
    assert_eq!(RequestError::InvalidContentLength.error_status(), 400);
    assert_eq!(RequestError::ContentLengthMismatch.error_status(), 400);
    assert_eq!(RequestError::RequestBodyTooLarge.error_status(), 413);
    assert_eq!(RequestError::ConnectionError.error_status(), 503);
}

#[test]
fn only_a_clean_end_and_a_broken_connection_hang_up() {
    assert!(RequestError::IncompleteRequest(0).is_hang_up());
    assert!(RequestError::ConnectionError.is_hang_up());
    assert!(!RequestError::IncompleteRequest(1).is_hang_up());
    assert!(!RequestError::IncompleteRequest(usize::MAX).is_hang_up());
    assert!(!RequestError::MalformedRequest.is_hang_up());
    assert!(!RequestError::InvalidContentLength.is_hang_up());
    assert!(!RequestError::ContentLengthMismatch.is_hang_up());
    assert!(!RequestError::RequestBodyTooLarge.is_hang_up());
}

#[test]
fn accept_registers_the_client_and_waits_for_an_upstream() {
    let mut rates = RateLimiter::new(3);
    let connection = Connection::accept("1.2.3.4".to_string(), &mut rates);
    assert_eq!(connection.phase(), Phase::AwaitUpstream);
    assert_eq!(connection.client_ip(), "1.2.3.4");
    assert!(!connection.is_closed());
    assert_eq!(rates.count(&"1.2.3.4".to_string()), Some(0));
}

#[test]
fn accept_keeps_the_count_of_a_returning_client() {
    let (mut connection, mut rates) = serving(5, "1.2.3.4");
    let action: Act =
        handle_connection(&mut connection, &mut rates, Event::Request("q".to_string()));
    assert_eq!(action, Action::Forward("q".to_string()));
    let again = Connection::accept("1.2.3.4".to_string(), &mut rates);
    assert_eq!(again.phase(), Phase::AwaitUpstream);
    assert_eq!(rates.count(&"1.2.3.4".to_string()), Some(1));
}

#[test]
fn a_connected_upstream_starts_the_serving_loop() {
    let (mut connection, mut rates) = at(Phase::AwaitUpstream, 0);
    let action: Act = handle_connection(&mut connection, &mut rates, Event::UpstreamConnected);
    assert_eq!(action, Action::ReadRequest);
    assert_eq!(connection.phase(), Phase::AwaitRequest);
}

#[test]
fn no_upstream_answers_bad_gateway_and_closes() {
    let (mut connection, mut rates) = at(Phase::AwaitUpstream, 0);
    let action: Act = handle_connection(&mut connection, &mut rates, Event::UpstreamUnavailable);
    assert_eq!(action, Action::Abort(502));
    assert!(connection.is_closed());
}

#[test]
fn all_upstreams_dead_ends_a_new_connection_with_bad_gateway() {
    let mut upstreams =
        Upstream::new_vec(vec!["a:1".to_string(), "b:2".to_string(), "c:3".to_string()]);
    for upstream in upstreams.iter_mut() {
        upstream.set_alive(false);
    }
    let mut rates = RateLimiter::new(0);
    let mut rng = StdRng::seed_from_u64(11);
    let mut connection = Connection::accept("1.2.3.4".to_string(), &mut rates);
    let event: Ev = match connect_to_upstream(&mut upstreams, &mut rng, None) {
        Some(_) => Event::UpstreamConnected,
        None => Event::UpstreamUnavailable,
    };
    assert_eq!(event, Event::UpstreamUnavailable);
    let action = handle_connection(&mut connection, &mut rates, event);
    assert_eq!(action, Action::Abort(BAD_GATEWAY));
    assert_eq!(connection.phase(), Phase::Closed);
    let later: Act =
        handle_connection(&mut connection, &mut rates, Event::Request("q".to_string()));
    assert_eq!(later, Action::Close);
}

#[test]
fn upstreams_that_refuse_one_after_another_end_in_bad_gateway() {
    let mut upstreams = Upstream::new_vec(vec!["a:1".to_string(), "b:2".to_string()]);
    let mut rates = RateLimiter::new(0);
    let mut rng = StdRng::seed_from_u64(12);
    let mut connection = Connection::accept("1.2.3.4".to_string(), &mut rates);
    let mut candidate = connect_to_upstream(&mut upstreams, &mut rng, None);
    let mut attempts = 0;
    while let Some(i) = candidate {
        attempts += 1;
        candidate = connect_to_upstream(&mut upstreams, &mut rng, Some(i));
    }
    assert_eq!(attempts, 2);
    let action: Act = handle_connection(&mut connection, &mut rates, Event::UpstreamUnavailable);
    assert_eq!(action, Action::Abort(502));
    assert!(connection.is_closed());
    assert!(!upstreams[0].is_alive() && !upstreams[1].is_alive());
}

#[test]
fn a_request_is_forwarded_as_it_came() {
    let (mut connection, mut rates) = serving(0, "1.2.3.4");
    let request = "GET /a HTTP/1.1\r\nHost: x\r\n\r\n".to_string();
    let action: Act =
        handle_connection(&mut connection, &mut rates, Event::Request(request.clone()));
    assert_eq!(action, Action::Forward(request));
    assert_eq!(connection.phase(), Phase::Forwarding);
}

#[test]
fn a_response_is_relayed_as_it_came() {
    let (mut connection, mut rates) = at(Phase::AwaitResponse, 0);
    let response = "HTTP/1.1 200 OK\r\nContent-Length: 2\r\n\r\nhi".to_string();
    let action: Act =
        handle_connection(&mut connection, &mut rates, Event::Response(response.clone()));
    assert_eq!(action, Action::Relay(response));
    assert_eq!(connection.phase(), Phase::Replying);
}

#[test]
fn a_whole_exchange_returns_to_reading() {
    let (mut connection, mut rates) = serving(0, "1.2.3.4");
    let a: Act = handle_connection(&mut connection, &mut rates, Event::Request("q".to_string()));
    assert_eq!(a, Action::Forward("q".to_string()));
    let b: Act = handle_connection(&mut connection, &mut rates, Event::Forwarded);
    assert_eq!(b, Action::ReadResponse);
    assert_eq!(connection.phase(), Phase::AwaitResponse);
    let c: Act = handle_connection(&mut connection, &mut rates, Event::Response("r".to_string()));
    assert_eq!(c, Action::Relay("r".to_string()));
    let d: Act = handle_connection(&mut connection, &mut rates, Event::Replied);
    assert_eq!(d, Action::ReadRequest);
    assert_eq!(connection.phase(), Phase::AwaitRequest);
    assert_eq!(connection.client_ip(), "1.2.3.4");
}

#[test]
fn a_response_with_an_error_status_is_relayed_too() {
    let mut rates = RateLimiter::new(0);
    let mut connection = Connection::accept("1.2.3.4".to_string(), &mut rates);
    let events: Vec<Event<u32, u16>> =
        vec![Event::UpstreamConnected, Event::Request(7), Event::Forwarded, Event::Response(500)];
    let mut last = Action::Close;
    for event in events {
        last = handle_connection(&mut connection, &mut rates, event);
    }
    assert_eq!(last, Action::Relay(500));
}

#[test]
fn a_failed_relay_closes_the_connection() {
    let (mut connection, mut rates) = at(Phase::AwaitResponse, 0);
    let a: Act = handle_connection(&mut connection, &mut rates, Event::Response("r".to_string()));
    assert_eq!(a, Action::Relay("r".to_string()));
    let b: Act = handle_connection(&mut connection, &mut rates, Event::ReplyFailed);
    assert_eq!(b, Action::Close);
    assert!(connection.is_closed());
}

#[test]
fn a_failed_forward_answers_bad_gateway_and_closes() {
    let (mut connection, mut rates) = at(Phase::Forwarding, 0);
    let action: Act = handle_connection(&mut connection, &mut rates, Event::ForwardFailed);
    assert_eq!(action, Action::Abort(502));
    assert!(connection.is_closed());
}

#[test]
fn a_failed_response_read_answers_bad_gateway_and_closes() {
    let (mut connection, mut rates) = at(Phase::AwaitResponse, 0);
    let action: Act = handle_connection(&mut connection, &mut rates, Event::ResponseFailed);
    assert_eq!(action, Action::Abort(502));
    assert!(connection.is_closed());
}

#[test]
fn a_bad_request_is_answered_and_the_connection_goes_on() {
    let cases = [
        (RequestError::IncompleteRequest(12), 400),
        (RequestError::MalformedRequest, 400),
        (RequestError::InvalidContentLength, 400),
        (RequestError::ContentLengthMismatch, 400),
        (RequestError::RequestBodyTooLarge, 413),
    ];
    for (error, status) in cases {
        let (mut connection, mut rates) = serving(1, "1.2.3.4");
        let a: Act = handle_connection(&mut connection, &mut rates, Event::RequestFailed(error));
        assert_eq!(a, Action::Reject(status));
        assert_eq!(connection.phase(), Phase::Replying);
        let b: Act = handle_connection(&mut connection, &mut rates, Event::Replied);
        assert_eq!(b, Action::ReadRequest);
        assert_eq!(connection.phase(), Phase::AwaitRequest);
        assert_eq!(rates.count(&"1.2.3.4".to_string()), Some(0));
        let c: Act =
            handle_connection(&mut connection, &mut rates, Event::Request("q".to_string()));
        assert_eq!(c, Action::Forward("q".to_string()));
    }
}

#[test]
fn a_client_that_hangs_up_closes_the_connection_without_a_response() {
    for error in [RequestError::IncompleteRequest(0), RequestError::ConnectionError] {
        let (mut connection, mut rates) = serving(1, "1.2.3.4");
        let action: Act =
            handle_connection(&mut connection, &mut rates, Event::RequestFailed(error));
        assert_eq!(action, Action::Close);
        assert!(connection.is_closed());
    }
}

#[test]
fn a_failed_error_response_closes_the_connection() {
    let (mut connection, mut rates) = at(Phase::Replying, 0);
    let action: Act = handle_connection(&mut connection, &mut rates, Event::ReplyFailed);
    assert_eq!(action, Action::Close);
    assert!(connection.is_closed());
}

#[test]
fn the_third_request_over_a_threshold_of_two_gets_too_many_requests() {
    let mut upstreams = Upstream::new_vec(vec!["u1:80".to_string(), "u2:80".to_string()]);
    upstreams[1].set_alive(false);
    let mut rates = RateLimiter::new(2);
    let mut rng = StdRng::seed_from_u64(13);
    let mut connection = Connection::accept("1.2.3.4".to_string(), &mut rates);
    assert_eq!(connect_to_upstream(&mut upstreams, &mut rng, None), Some(0));
    let start: Act = handle_connection(&mut connection, &mut rates, Event::UpstreamConnected);
    assert_eq!(start, Action::ReadRequest);
    for n in 1..=2 {
        let request = format!("request {}", n);
        let response = format!("response {}", n);
        let a: Act =
            handle_connection(&mut connection, &mut rates, Event::Request(request.clone()));
        assert_eq!(a, Action::Forward(request));
        let b: Act = handle_connection(&mut connection, &mut rates, Event::Forwarded);
        assert_eq!(b, Action::ReadResponse);
        let c: Act =
            handle_connection(&mut connection, &mut rates, Event::Response(response.clone()));
        assert_eq!(c, Action::Relay(response));
        let d: Act = handle_connection(&mut connection, &mut rates, Event::Replied);
        assert_eq!(d, Action::ReadRequest);
    }
    let third: Act =
        handle_connection(&mut connection, &mut rates, Event::Request("request 3".to_string()));
    assert_eq!(third, Action::Reject(429));
    assert_eq!(connection.phase(), Phase::Replying);
    let after: Act = handle_connection(&mut connection, &mut rates, Event::Replied);
    assert_eq!(after, Action::ReadRequest);
    assert!(!connection.is_closed());
    assert_eq!(rates.count(&"1.2.3.4".to_string()), Some(3));
    assert!(upstreams[0].is_alive());
}

#[test]
fn a_rejected_client_is_served_again_after_the_reset() {
    let (mut connection, mut rates) = serving(1, "1.2.3.4");
    let a: Act = handle_connection(&mut connection, &mut rates, Event::Request("1".to_string()));
    assert_eq!(a, Action::Forward("1".to_string()));
    handle_connection(&mut connection, &mut rates, Ev::Forwarded);
    handle_connection(&mut connection, &mut rates, Ev::Response("r".to_string()));
    handle_connection(&mut connection, &mut rates, Ev::Replied);
    let b: Act = handle_connection(&mut connection, &mut rates, Event::Request("2".to_string()));
    assert_eq!(b, Action::Reject(TOO_MANY_REQUESTS));
    handle_connection(&mut connection, &mut rates, Ev::Replied);
    rates.reset_rates_with_fixed_window();
    let c: Act = handle_connection(&mut connection, &mut rates, Event::Request("3".to_string()));
    assert_eq!(c, Action::Forward("3".to_string()));
}

#[test]
fn with_limiting_off_nothing_is_counted_or_rejected() {
    let (mut connection, mut rates) = serving(0, "1.2.3.4");
    for n in 0..50 {
        let a: Act = handle_connection(&mut connection, &mut rates, Event::Request(n.to_string()));
        assert_eq!(a, Action::Forward(n.to_string()));
        handle_connection(&mut connection, &mut rates, Ev::Forwarded);
        handle_connection(&mut connection, &mut rates, Ev::Response("r".to_string()));
        handle_connection(&mut connection, &mut rates, Ev::Replied);
    }
    assert_eq!(rates.count(&"1.2.3.4".to_string()), Some(0));
}

#[test]
fn two_connections_of_one_client_share_the_count() {
    let mut rates = RateLimiter::new(2);
    let mut first = Connection::accept("1.2.3.4".to_string(), &mut rates);
    let mut second = Connection::accept("1.2.3.4".to_string(), &mut rates);
    let mut other = Connection::accept("5.6.7.8".to_string(), &mut rates);
    handle_connection(&mut first, &mut rates, Ev::UpstreamConnected);
    handle_connection(&mut second, &mut rates, Ev::UpstreamConnected);
    handle_connection(&mut other, &mut rates, Ev::UpstreamConnected);
    let a: Act = handle_connection(&mut first, &mut rates, Event::Request("a".to_string()));
    let b: Act = handle_connection(&mut second, &mut rates, Event::Request("b".to_string()));
    handle_connection(&mut first, &mut rates, Ev::Forwarded);
    handle_connection(&mut first, &mut rates, Ev::Response("r".to_string()));
    handle_connection(&mut first, &mut rates, Ev::Replied);
    let c: Act = handle_connection(&mut first, &mut rates, Event::Request("c".to_string()));
    let d: Act = handle_connection(&mut other, &mut rates, Event::Request("d".to_string()));
    assert_eq!(a, Action::Forward("a".to_string()));
    assert_eq!(b, Action::Forward("b".to_string()));
    assert_eq!(c, Action::Reject(429));
    assert_eq!(d, Action::Forward("d".to_string()));
}

#[test]
fn an_event_out_of_turn_closes_the_connection() {
    let out_of_turn: Vec<(Phase, Vec<Ev>)> = vec![
        (
            Phase::AwaitUpstream,
            vec![
                Event::Request("q".to_string()),
                Event::RequestFailed(RequestError::MalformedRequest),
                Event::Forwarded,
                Event::ForwardFailed,
                Event::Response("r".to_string()),
                Event::ResponseFailed,
                Event::Replied,
                Event::ReplyFailed,
            ],
        ),
        (
            Phase::AwaitRequest,
            vec![
                Event::UpstreamConnected,
                Event::UpstreamUnavailable,
                Event::Forwarded,
                Event::ForwardFailed,
                Event::Response("r".to_string()),
                Event::ResponseFailed,
                Event::Replied,
                Event::ReplyFailed,
            ],
        ),
        (
            Phase::Forwarding,
            vec![
                Event::UpstreamConnected,
                Event::UpstreamUnavailable,
                Event::Request("q".to_string()),
                Event::RequestFailed(RequestError::MalformedRequest),
                Event::Response("r".to_string()),
                Event::ResponseFailed,
                Event::Replied,
                Event::ReplyFailed,
            ],
        ),
        (
            Phase::AwaitResponse,
            vec![
                Event::UpstreamConnected,
                Event::UpstreamUnavailable,
                Event::Request("q".to_string()),
                Event::RequestFailed(RequestError::MalformedRequest),
                Event::Forwarded,
                Event::ForwardFailed,
                Event::Replied,
                Event::ReplyFailed,
            ],
        ),
        (
            Phase::Replying,
            vec![
                Event::UpstreamConnected,
                Event::UpstreamUnavailable,
                Event::Request("q".to_string()),
                Event::RequestFailed(RequestError::MalformedRequest),
                Event::Forwarded,
                Event::ForwardFailed,
                Event::Response("r".to_string()),
                Event::ResponseFailed,
            ],
        ),
    ];
    for (phase, events) in out_of_turn {
        for event in events {
            let (mut connection, mut rates) = at(phase, 1);
            let counted = rates.count(&"1.2.3.4".to_string());
            let action = handle_connection(&mut connection, &mut rates, event);
            assert_eq!(action, Action::Close);
            assert!(connection.is_closed());
            assert_eq!(rates.count(&"1.2.3.4".to_string()), counted);
        }
    }
}

#[test]
fn a_closed_connection_stays_closed() {
    let events: Vec<Ev> = vec![
        Event::UpstreamConnected,
        Event::UpstreamUnavailable,
        Event::Request("q".to_string()),
        Event::RequestFailed(RequestError::MalformedRequest),
        Event::Forwarded,
        Event::ForwardFailed,
        Event::Response("r".to_string()),
        Event::ResponseFailed,
        Event::Replied,
        Event::ReplyFailed,
    ];
    let (mut connection, mut rates) = at(Phase::Closed, 1);
    for event in events {
        let action = handle_connection(&mut connection, &mut rates, event);
        assert_eq!(action, Action::Close);
        assert!(connection.is_closed());
        assert_eq!(rates.count(&"1.2.3.4".to_string()), Some(0));
    }
}

#[test]
fn forwarded_for_header_is_named_as_usual() {
    assert_eq!(balancebeam::handler::FORWARDED_FOR, "x-forwarded-for");
}

#[test]
fn forwarded_for_of_a_fresh_request_is_the_client() {
    assert_eq!(balancebeam::handler::forwarded_for(None, "1.2.3.4"), b"1.2.3.4".to_vec());
    assert_eq!(balancebeam::handler::forwarded_for(None, ""), Vec::<u8>::new());
}

#[test]
fn forwarded_for_keeps_the_proxies_before() {
    assert_eq!(
        balancebeam::handler::forwarded_for(Some(b"9.9.9.9"), "1.2.3.4"),
        b"9.9.9.9, 1.2.3.4".to_vec()
    );
    assert_eq!(
        balancebeam::handler::forwarded_for(Some(b"9.9.9.9, 8.8.8.8"), "::1"),
        b"9.9.9.9, 8.8.8.8, ::1".to_vec()
    );
    assert_eq!(balancebeam::handler::forwarded_for(Some(b""), "1.2.3.4"), b", 1.2.3.4".to_vec());
    assert_eq!(
        balancebeam::handler::forwarded_for(Some(&[0xff, 0x00]), "a"),
        vec![0xff, 0x00, 0x2c, 0x20, 0x61]
    );
}
