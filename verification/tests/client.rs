use rudderanalytics::client::{Request, RudderAnalytics, status_message, REQUEST_TIMEOUT_SECS};
use rudderanalytics::errors::SendError;
use rudderanalytics::message::{Alias, Batch, Identify, Message, Track};
use rudderanalytics::value::{Object, Value};
use rudderanalytics::wire::envelope;
use std::cell::Cell;

const NOW: &str = "2024-05-06T07:08:09.010Z";

fn client() -> RudderAnalytics {
    RudderAnalytics::load("write-key".to_string(), "https://plane.example.com".to_string())
}

fn purchase() -> Message {
    Message::Track(Track {
        user_id: Some("u1".to_string()),
        event: "Purchased".to_string(),
        context: Some(Object::new()),
        ..Track::default()
    })
}

fn transport_failure() -> reqwest::Error {
    reqwest::Client::new().get("not an address").build().unwrap_err()
}

#[test]
fn load_keeps_the_key_and_the_address() {
    let client = client();
    assert_eq!(client.write_key, "write-key");
    assert_eq!(client.data_plane_url, "https://plane.example.com");
    assert_eq!(REQUEST_TIMEOUT_SECS, 10);
}

#[test]
fn track_event_against_an_endpoint_that_answers_200() {
    let seen: Cell<Option<Request>> = Cell::new(None);
    let sent = client().send(&purchase(), NOW, |request| {
        seen.set(Some(request));
        Ok(200)
    });
    assert!(matches!(sent, Ok(())));
    let request = seen.take().expect("the transport was not called");
    assert_eq!(request.url, "https://plane.example.com/v1/track");
    assert_eq!(request.username, "write-key");
    assert_eq!(request.password, "");
    assert_eq!(request.body, envelope(&purchase(), NOW));
    assert_eq!(request.body.get("event"), Some(&Value::String("Purchased".to_string())));
    assert_eq!(request.body.get("userId"), Some(&Value::String("u1".to_string())));
    assert_eq!(request.body.get("sentAt"), Some(&Value::String(NOW.to_string())));
}

#[test]
fn track_event_against_an_endpoint_that_answers_400() {
    let calls = Cell::new(0);
    let sent = client().send(&purchase(), NOW, |_| {
        calls.set(calls.get() + 1);
        Ok(400)
    });
    assert_eq!(calls.get(), 1);
    match sent {
        Err(SendError::InvalidRequest(text)) => {
            assert!(text.contains("400"));
            assert_eq!(text, "status code: 400 Bad Request, message: Invalid request");
        },
        other => panic!("expected an invalid request, got {:?}", other),
    }
}

#[test]
fn identify_event_without_identity_never_reaches_the_endpoint() {
    let calls = Cell::new(0);
    let sent = client().send(&Message::Identify(Identify::default()), NOW, |_| {
        calls.set(calls.get() + 1);
        Ok(200)
    });
    assert_eq!(calls.get(), 0);
    match sent {
        Err(SendError::InvalidRequest(text)) => {
            assert!(text.contains("user_id or anonymous_id"));
            assert_eq!(text, "Either of user_id or anonymous_id is required");
        },
        other => panic!("expected an invalid request, got {:?}", other),
    }
}

#[test]
fn reserved_key_never_reaches_the_endpoint() {
    let mut context = Object::new();
    context.insert("library".to_string(), Value::Null);
    let message = Message::Alias(Alias {
        previous_id: "old".to_string(),
        context: Some(context),
        ..Alias::default()
    });
    let calls = Cell::new(0);
    let sent = client().send(&message, NOW, |_| {
        calls.set(calls.get() + 1);
        Ok(200)
    });
    assert_eq!(calls.get(), 0);
    match sent {
        Err(SendError::InvalidRequest(text)) => {
            assert_eq!(text, "Reserve keyword present in context")
        },
        other => panic!("expected an invalid request, got {:?}", other),
    }
    assert!(matches!(client().request(&message, NOW), Err(SendError::InvalidRequest(_))));
}

#[test]
fn transport_failure_is_handed_on_and_not_tried_again() {
    let calls = Cell::new(0);
    let sent = client().send(&purchase(), NOW, |_| {
        calls.set(calls.get() + 1);
        Err(transport_failure())
    });
    assert_eq!(calls.get(), 1);
    match sent {
        Err(SendError::RequestError(failure)) => assert!(failure.is_builder()),
        other => panic!("expected the transport's failure, got {:?}", other),
    }
}

#[test]
fn only_200_is_success() {
    assert!(matches!(RudderAnalytics::outcome(Ok(200)), Ok(())));
    let others = [
        (0u16, "0"),
        (99, "99"),
        (100, "100 Continue"),
        (199, "199 <unknown status code>"),
        (201, "201 Created"),
        (204, "204 No Content"),
        (301, "301 Moved Permanently"),
        (404, "404 Not Found"),
        (500, "500 Internal Server Error"),
        (999, "999 <unknown status code>"),
        (1000, "1000"),
        (65535, "65535"),
    ];
    for (status, shown) in others {
        let expected = format!("status code: {}, message: Invalid request", shown);
        assert_eq!(status_message(status), expected);
        match RudderAnalytics::outcome(Ok(status)) {
            Err(SendError::InvalidRequest(text)) => assert_eq!(text, expected),
            other => panic!("expected an invalid request, got {:?}", other),
        }
    }
    assert!(matches!(
        RudderAnalytics::outcome(Err(transport_failure())),
        Err(SendError::RequestError(_))
    ));
}

#[test]
fn status_is_shown_as_the_http_client_shows_it() {
    for code in [100u16, 200, 226, 308, 418, 451, 511, 600, 999] {
        let shown = reqwest::StatusCode::from_u16(code).unwrap().to_string();
        assert!(shown.starts_with(&code.to_string()));
        assert_eq!(
            status_message(code),
            format!("status code: {}, message: Invalid request", shown)
        );
    }
    assert_eq!(status_message(200), "status code: 200 OK, message: Invalid request");
}

#[test]
fn transport_failure_converts_into_the_error_of_sending() {
    assert!(matches!(SendError::from(transport_failure()), SendError::RequestError(_)));
}

#[test]
fn request_goes_to_the_path_of_the_kind() {
    let client = RudderAnalytics::load("k".to_string(), "http://localhost:8080/".to_string());
    let batch = Message::Batch(Batch::default());
    let request = client.request(&batch, NOW).expect("a batch needs no identity");
    assert_eq!(request.url, "http://localhost:8080//v1/batch");
    assert_eq!(request.username, "k");
    assert_eq!(request.password, "");
    assert_eq!(request.body, envelope(&batch, NOW));
    let identify = Message::Identify(Identify {
        anonymous_id: Some("a1".to_string()),
        ..Identify::default()
    });
    let request = client.request(&identify, NOW).expect("an anonymous id is an identity");
    assert_eq!(request.url, "http://localhost:8080//v1/identify");
}
