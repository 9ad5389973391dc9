use file_relay::error::CustomError;
use file_relay::text::decode;
use file_relay::transmit::{
    conclude, prepare, send_to_remote_server, Field, Reply, Request, LINK, LINK_FIELD,
    MESSAGE_FIELD, REMOTE_SERVER_URL,
};

fn ok_reply() -> Reply {
    Reply::Status { code: 200, text: "OK".to_string() }
}

#[test]
fn bytes_that_are_not_text_make_no_request() {
    let mut calls = 0;
    let result = send_to_remote_server(&[0x66, 0x6f, 0xff, 0x6f], |_request| {
        calls += 1;
        ok_reply()
    });
    assert!(matches!(result, Err(CustomError::DecodeError(_))));
    assert_eq!(calls, 0);
}

#[test]
fn text_makes_exactly_one_request_with_the_text_as_message() {
    let mut requests: Vec<Request> = Vec::new();
    let result = send_to_remote_server("topsecret".as_bytes(), |request| {
        requests.push(request);
        ok_reply()
    });
    assert_eq!(result, Ok(()));
    assert_eq!(
        requests,
        vec![Request {
            url: "http://127.0.0.1".to_string(),
            fields: vec![
                Field { name: "message".to_string(), value: "topsecret".to_string() },
                Field {
                    name: "github link".to_string(),
                    value: "https://github.com/NCGThompson/csci-485-project-3".to_string(),
                },
            ],
        }]
    );
}

#[test]
fn the_message_is_the_payload_byte_for_byte() {
    let payload = "naïve — 日本語 \u{1F600}\n\t\"quoted\" \\ \u{0}".as_bytes().to_vec();
    let mut sent: Vec<Vec<u8>> = Vec::new();
    let result = send_to_remote_server(&payload, |request| {
        sent.push(request.fields[0].value.as_bytes().to_vec());
        ok_reply()
    });
    assert_eq!(result, Ok(()));
    assert_eq!(sent, vec![payload]);
}

#[test]
fn an_empty_payload_is_sent_as_empty_text() {
    let request = prepare(&[]).unwrap();
    assert_eq!(request.fields[0].value, "");
    assert_eq!(request.fields.len(), 2);
}

#[test]
fn the_request_has_the_fixed_address_and_two_fields() {
    let request = prepare(b"hello").unwrap();
    assert_eq!(request.url, REMOTE_SERVER_URL);
    assert_eq!(request.fields.len(), 2);
    assert_eq!(request.fields[0].name, MESSAGE_FIELD);
    assert_eq!(request.fields[0].value, "hello");
    assert_eq!(request.fields[1].name, LINK_FIELD);
    assert_eq!(request.fields[1].value, LINK);
}

#[test]
fn prepare_refuses_bytes_that_are_not_text() {
    assert!(matches!(prepare(&[0xc0, 0x80]), Err(CustomError::DecodeError(_))));
    assert!(matches!(prepare(&[0xed, 0xa0, 0x80]), Err(CustomError::DecodeError(_))));
    assert!(matches!(prepare(&[0xf4, 0x90, 0x80, 0x80]), Err(CustomError::DecodeError(_))));
    assert!(matches!(prepare(&[0xe2, 0x82]), Err(CustomError::DecodeError(_))));
    assert!(matches!(prepare(&[0x80]), Err(CustomError::DecodeError(_))));
}

#[test]
fn decode_gives_the_text_of_the_bytes() {
    assert_eq!(decode(&[0x68, 0x65, 0x6c, 0x6c, 0x6f]), Ok("hello".to_string()));
    assert_eq!(decode(&[0xc3, 0xa9]), Ok("é".to_string()));
    assert_eq!(decode(&[0xf0, 0x9f, 0x98, 0x80]), Ok("\u{1F600}".to_string()));
    assert_eq!(decode(&[]), Ok(String::new()));
    assert!(matches!(decode(&[0x68, 0xff]), Err(CustomError::DecodeError(_))));
}

#[test]
fn a_status_from_200_to_299_is_success() {
    for code in [200u16, 201, 204, 250, 299] {
        assert_eq!(conclude(Reply::Status { code, text: "fine".to_string() }), Ok(()));
    }
}

#[test]
fn any_other_status_is_a_send_error() {
    for code in [0u16, 100, 199, 300, 301, 304, 400, 404, 500, 599, 65535] {
        assert_eq!(
            conclude(Reply::Status { code, text: format!("status code {}", code) }),
            Err(CustomError::SendError(format!("status code {}", code)))
        );
    }
}

#[test]
fn a_request_that_got_no_reply_is_a_send_error() {
    assert_eq!(
        conclude(Reply::Failed { text: "Connection refused".to_string() }),
        Err(CustomError::SendError("Connection refused".to_string()))
    );
}

#[test]
fn the_reply_decides_what_the_sender_returns() {
    let failed = send_to_remote_server(b"x", |_| Reply::Failed { text: "no route".to_string() });
    assert_eq!(failed, Err(CustomError::SendError("no route".to_string())));
    let refused =
        send_to_remote_server(b"x", |_| Reply::Status { code: 503, text: "busy".to_string() });
    assert_eq!(refused, Err(CustomError::SendError("busy".to_string())));
    let accepted =
        send_to_remote_server(b"x", |_| Reply::Status { code: 202, text: "later".to_string() });
    assert_eq!(accepted, Ok(()));
}
