use esp32_http_servo::command::AngleCommand;
use esp32_http_servo::http_server::handle_request;
use esp32_http_servo::http_task::{
    awaited_action, HttpServer, ServerAction, ServerEvent, ServerPhase, ServerStep,
    ACCEPT_PAUSE_MS, HTTP_PORT, IDLE_TIMEOUT_MS, RX_BUFFER_SIZE, TX_BUFFER_SIZE,
};

const ACCEPT: ServerAction = ServerAction::Accept { port: 80, timeout_ms: 10_000 };
const READ: ServerAction = ServerAction::Read { capacity: 1024 };
const CLOSE: ServerAction = ServerAction::Close { pause_ms: 100 };

fn quiet(action: ServerAction) -> ServerStep {
    ServerStep { action, command: None }
}

fn reading() -> HttpServer {
    let mut server = HttpServer::new();
    server.step(ServerEvent::Accepted);
    server
}

#[test]
fn server_constants() {
    assert_eq!(HTTP_PORT, 80);
    assert_eq!(IDLE_TIMEOUT_MS, 10_000);
    assert_eq!(ACCEPT_PAUSE_MS, 100);
    assert_eq!(RX_BUFFER_SIZE, 1024);
    assert_eq!(TX_BUFFER_SIZE, 1024);
}

#[test]
fn new_server_waits_for_a_client() {
    let server = HttpServer::new();
    assert_eq!(server.phase(), ServerPhase::Accepting);
    assert_eq!(server.awaited(), ACCEPT);
    assert!(server.unsent().is_empty());
}

#[test]
fn every_phase_awaits_one_action() {
    assert_eq!(awaited_action(ServerPhase::Accepting), ACCEPT);
    assert_eq!(awaited_action(ServerPhase::Reading), READ);
    assert_eq!(awaited_action(ServerPhase::Writing), ServerAction::Write);
    assert_eq!(awaited_action(ServerPhase::Closing), CLOSE);
}

#[test]
fn failed_accept_is_followed_by_another_accept() {
    let mut server = HttpServer::new();
    for _ in 0..3 {
        assert_eq!(server.step(ServerEvent::AcceptFailed), quiet(ACCEPT));
        assert_eq!(server.phase(), ServerPhase::Accepting);
    }
}

#[test]
fn accepted_client_is_read_from() {
    let mut server = HttpServer::new();
    assert_eq!(server.step(ServerEvent::Accepted), quiet(READ));
    assert_eq!(server.phase(), ServerPhase::Reading);
}

#[test]
fn request_is_answered_in_one_write() {
    let mut server = reading();
    let request = "GET /health HTTP/1.1\r\n\r\n";
    let response = handle_request(request).response;
    assert_eq!(server.step(ServerEvent::Received(request.as_bytes())), quiet(ServerAction::Write));
    assert_eq!(server.phase(), ServerPhase::Writing);
    assert_eq!(server.unsent(), response.as_bytes());
    assert_eq!(server.step(ServerEvent::Written(response.len())), quiet(CLOSE));
    assert_eq!(server.phase(), ServerPhase::Closing);
    assert!(server.unsent().is_empty());
    assert_eq!(server.step(ServerEvent::Closed), quiet(ACCEPT));
    assert_eq!(server.phase(), ServerPhase::Accepting);
}

#[test]
fn response_is_written_in_pieces_and_in_order() {
    let mut server = reading();
    let request = "GET / HTTP/1.1\r\n\r\n";
    let response = handle_request(request).response;
    server.step(ServerEvent::Received(request.as_bytes()));
    let mut written: Vec<u8> = Vec::new();
    let mut writes = 0;
    loop {
        let unsent = server.unsent();
        let take = unsent.len().min(7);
        written.extend_from_slice(&unsent[..take]);
        writes += 1;
        let step = server.step(ServerEvent::Written(take));
        if step.action != ServerAction::Write {
            assert_eq!(step, quiet(CLOSE));
            break;
        }
    }
    assert_eq!(written, response.as_bytes());
    assert_eq!(writes, response.len().div_ceil(7));
}

#[test]
fn write_of_nothing_is_tried_again() {
    let mut server = reading();
    server.step(ServerEvent::Received(b"GET /health"));
    let before = server.unsent().to_vec();
    assert_eq!(server.step(ServerEvent::Written(0)), quiet(ServerAction::Write));
    assert_eq!(server.unsent(), before.as_slice());
}

#[test]
fn write_of_more_than_was_left_ends_the_response() {
    let mut server = reading();
    server.step(ServerEvent::Received(b"GET /health"));
    assert_eq!(server.step(ServerEvent::Written(usize::MAX)), quiet(CLOSE));
    assert_eq!(server.phase(), ServerPhase::Closing);
}

#[test]
fn servo_request_publishes_with_the_step_that_receives_it() {
    let mut server = reading();
    let step = server.step(ServerEvent::Received(b"GET /servo/90 HTTP/1.1\r\n\r\n"));
    assert_eq!(step, ServerStep { action: ServerAction::Write, command: AngleCommand::new(90) });
    assert!(step.command.is_some());
    assert_eq!(server.unsent(), handle_request("GET /servo/90").response.as_bytes());
    let step = server.step(ServerEvent::Written(5));
    assert_eq!(step, quiet(ServerAction::Write));
}

#[test]
fn refused_request_is_answered_and_publishes_nothing() {
    let mut server = reading();
    let step = server.step(ServerEvent::Received(b"GET /servo/200 HTTP/1.1\r\n\r\n"));
    assert_eq!(step, quiet(ServerAction::Write));
    assert_eq!(server.unsent(), handle_request("GET /servo/200").response.as_bytes());
}

#[test]
fn client_that_hangs_up_is_closed() {
    let mut server = reading();
    assert_eq!(server.step(ServerEvent::Received(&[])), quiet(CLOSE));
    assert_eq!(server.phase(), ServerPhase::Closing);
}

#[test]
fn request_that_is_not_utf8_is_closed_without_response() {
    let mut server = reading();
    let step = server.step(ServerEvent::Received(b"GET /servo/90 \xff\r\n"));
    assert_eq!(step, quiet(CLOSE));
    assert_eq!(server.phase(), ServerPhase::Closing);
    assert!(server.unsent().is_empty());
}

#[test]
fn failed_read_closes_the_connection() {
    let mut server = reading();
    assert_eq!(server.step(ServerEvent::ReadFailed), quiet(CLOSE));
    assert_eq!(server.step(ServerEvent::Closed), quiet(ACCEPT));
}

#[test]
fn failed_write_closes_the_connection() {
    let mut server = reading();
    server.step(ServerEvent::Received(b"GET /"));
    server.step(ServerEvent::Written(3));
    assert_eq!(server.step(ServerEvent::WriteFailed), quiet(CLOSE));
    assert!(server.unsent().is_empty());
    assert_eq!(server.step(ServerEvent::Closed), quiet(ACCEPT));
}

#[test]
fn unexpected_event_asks_again() {
    let mut server = HttpServer::new();
    assert_eq!(server.step(ServerEvent::Closed), quiet(ACCEPT));
    assert_eq!(server.step(ServerEvent::Received(b"GET /servo/90")), quiet(ACCEPT));
    assert_eq!(server.step(ServerEvent::Written(1)), quiet(ACCEPT));
    assert_eq!(server.phase(), ServerPhase::Accepting);
    let mut server = reading();
    assert_eq!(server.step(ServerEvent::Accepted), quiet(READ));
    assert_eq!(server.step(ServerEvent::WriteFailed), quiet(READ));
    server.step(ServerEvent::Received(b"GET /"));
    let before = server.unsent().to_vec();
    assert_eq!(server.step(ServerEvent::ReadFailed), quiet(ServerAction::Write));
    assert_eq!(server.step(ServerEvent::Received(b"GET /servo/1")), quiet(ServerAction::Write));
    assert_eq!(server.unsent(), before.as_slice());
    server.step(ServerEvent::WriteFailed);
    assert_eq!(server.step(ServerEvent::Accepted), quiet(CLOSE));
    assert_eq!(server.phase(), ServerPhase::Closing);
}

#[test]
fn connections_are_served_one_after_another() {
    let mut server = HttpServer::new();
    let mut published = Vec::new();
    for angle in [10u8, 20, 30] {
        assert_eq!(server.awaited(), ACCEPT);
        server.step(ServerEvent::Accepted);
        let request = format!("GET /servo/{angle} HTTP/1.1\r\n\r\n");
        let step = server.step(ServerEvent::Received(request.as_bytes()));
        published.extend(step.command.map(|c| c.degrees()));
        let len = server.unsent().len();
        assert_eq!(server.step(ServerEvent::Written(len)), quiet(CLOSE));
        assert_eq!(server.step(ServerEvent::Closed), quiet(ACCEPT));
    }
    assert_eq!(published, vec![10, 20, 30]);
}
