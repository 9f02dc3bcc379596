use hokaido::message::{Error, JoinRequest, JoinResponse, Notification};
use hokaido::wire::DecodeError;

fn frame_of_request(request: &JoinRequest) -> Vec<u8> {
    let mut stream: Vec<u8> = Vec::new();
    request.send(&mut stream).unwrap();
    stream
}

fn frame_of_notification(notification: &Notification) -> Vec<u8> {
    let mut stream: Vec<u8> = Vec::new();
    notification.send(&mut stream).unwrap();
    stream
}

#[test]
fn join_request_frame_bytes() {
    let stream = frame_of_request(&JoinRequest::Watch("default".to_string()));
    let mut expected: Vec<u8> = vec![0x94, 0x00, 0x00, 0xa5];
    expected.extend_from_slice(b"watch");
    expected.push(0xa7);
    expected.extend_from_slice(b"default");
    assert_eq!(stream, expected);
}

#[test]
fn broadcast_request_frame_bytes() {
    let stream = frame_of_request(&JoinRequest::Broadcast("c".to_string()));
    let mut expected: Vec<u8> = vec![0x94, 0x00, 0x00, 0xa9];
    expected.extend_from_slice(b"broadcast");
    expected.extend_from_slice(&[0xa1, b'c']);
    assert_eq!(stream, expected);
}

#[test]
fn join_response_frame_bytes() {
    let mut stream: Vec<u8> = Vec::new();
    JoinResponse::Success.send(&mut stream).unwrap();
    assert_eq!(stream, vec![0x94, 0x00, 0x00, 0xa0, 0xc3]);
    let mut stream: Vec<u8> = Vec::new();
    JoinResponse::Failure.send(&mut stream).unwrap();
    assert_eq!(stream, vec![0x94, 0x00, 0x00, 0xa0, 0xc2]);
}

#[test]
fn notification_frame_bytes() {
    let stream = frame_of_notification(&Notification::Output("hi".to_string()));
    assert_eq!(stream, vec![0x93, 0x02, 0xa3, b'o', b'u', b't', 0xa2, b'h', b'i']);
    let stream = frame_of_notification(&Notification::Closed("".to_string()));
    assert_eq!(stream, vec![0x93, 0x02, 0xa6, b'c', b'l', b'o', b's', b'e', b'd', 0xa0]);
    let stream = frame_of_notification(&Notification::WatcherJoined("".to_string()));
    let mut expected: Vec<u8> = vec![0x93, 0x02, 0xae];
    expected.extend_from_slice(b"watcher_joined");
    expected.push(0xa0);
    assert_eq!(stream, expected);
}

#[test]
fn send_appends_to_what_the_stream_holds() {
    let mut stream: Vec<u8> = vec![0xff, 0x01];
    JoinResponse::Success.send(&mut stream).unwrap();
    assert_eq!(stream, vec![0xff, 0x01, 0x94, 0x00, 0x00, 0xa0, 0xc3]);
}

#[test]
fn string_of_thirty_one_bytes_has_a_one_byte_header() {
    let data = "x".repeat(31);
    let stream = frame_of_notification(&Notification::Output(data.clone()));
    assert_eq!(&stream[..7], &[0x93, 0x02, 0xa3, b'o', b'u', b't', 0xbf]);
    assert_eq!(&stream[7..], data.as_bytes());
}

#[test]
fn string_of_thirty_two_bytes_has_an_eight_bit_length() {
    let data = "x".repeat(32);
    let stream = frame_of_notification(&Notification::Output(data.clone()));
    assert_eq!(&stream[6..8], &[0xd9, 32]);
    assert_eq!(&stream[8..], data.as_bytes());
}

#[test]
fn string_of_three_hundred_bytes_has_a_sixteen_bit_length() {
    let data = "y".repeat(300);
    let stream = frame_of_notification(&Notification::Output(data.clone()));
    assert_eq!(&stream[6..9], &[0xda, 0x01, 0x2c]);
    assert_eq!(&stream[9..], data.as_bytes());
}

#[test]
fn string_of_seventy_thousand_bytes_has_a_thirty_two_bit_length() {
    let data = "z".repeat(70_000);
    let stream = frame_of_notification(&Notification::Output(data.clone()));
    assert_eq!(&stream[6..11], &[0xdb, 0x00, 0x01, 0x11, 0x70]);
    assert_eq!(stream.len(), 11 + 70_000);
    let (back, used) = Notification::receive(&stream).unwrap();
    assert_eq!(back, Notification::Output(data));
    assert_eq!(used, stream.len());
}

#[test]
fn length_counts_bytes_not_characters() {
    let stream = frame_of_notification(&Notification::Output("é".to_string()));
    assert_eq!(&stream[6..], &[0xa2, 0xc3, 0xa9]);
}

#[test]
fn join_request_round_trip() {
    let requests = vec![
        JoinRequest::Broadcast("room".to_string()),
        JoinRequest::Watch("room".to_string()),
        JoinRequest::Watch(String::new()),
        JoinRequest::Broadcast("канал".to_string()),
        JoinRequest::Watch("n".repeat(1000)),
    ];
    for request in requests {
        let stream = frame_of_request(&request);
        let (back, used) = JoinRequest::receive(&stream).unwrap();
        assert_eq!(back, request);
        assert_eq!(used, stream.len());
    }
}

#[test]
fn join_response_round_trip() {
    for response in [JoinResponse::Success, JoinResponse::Failure] {
        let mut stream: Vec<u8> = Vec::new();
        response.send(&mut stream).unwrap();
        let (back, used) = JoinResponse::receive(&stream).unwrap();
        assert_eq!(back, response);
        assert_eq!(used, 5);
    }
}

#[test]
fn notification_round_trip_keeps_the_payload() {
    let payloads = vec![
        String::new(),
        "echo hi\r\n".to_string(),
        "\u{1b}[8;24;80t".to_string(),
        "\u{0}\u{7}\u{1b}[2J\u{7f}".to_string(),
        "日本語 ✓".to_string(),
        "p".repeat(40_000),
    ];
    for payload in payloads {
        let notifications = vec![
            Notification::Output(payload.clone()),
            Notification::Closed(payload.clone()),
            Notification::WatcherJoined(payload.clone()),
        ];
        for notification in notifications {
            let stream = frame_of_notification(&notification);
            let (back, used) = Notification::receive(&stream).unwrap();
            assert_eq!(back, notification);
            assert_eq!(used, stream.len());
            let (_, _, data) = back.payload();
            assert_eq!(data.as_bytes(), payload.as_bytes());
        }
    }
}

#[test]
fn receive_takes_one_frame_and_counts_its_bytes() {
    let mut stream = frame_of_notification(&Notification::Output("one".to_string()));
    let first = stream.len();
    Notification::Closed("two".to_string()).send(&mut stream).unwrap();
    let (one, used) = Notification::receive(&stream).unwrap();
    assert_eq!(one, Notification::Output("one".to_string()));
    assert_eq!(used, first);
    let (two, used) = Notification::receive(&stream[first..]).unwrap();
    assert_eq!(two, Notification::Closed("two".to_string()));
    assert_eq!(used, stream.len() - first);
}

#[test]
fn unknown_role_is_an_unknown_message() {
    let mut stream: Vec<u8> = vec![0x94, 0x00, 0x00, 0xa8];
    stream.extend_from_slice(b"spectate");
    stream.extend_from_slice(&[0xa1, b'c']);
    assert_eq!(JoinRequest::receive(&stream), Err(Error::UnknownMessage));
}

#[test]
fn unknown_topic_is_an_unknown_message() {
    let mut stream: Vec<u8> = vec![0x93, 0x02, 0xa3];
    stream.extend_from_slice(b"err");
    stream.extend_from_slice(&[0xa1, b'x']);
    assert_eq!(Notification::receive(&stream), Err(Error::UnknownMessage));
}

#[test]
fn role_and_topic_are_matched_exactly() {
    assert_eq!(JoinRequest::from_payload("Broadcast", "c".to_string()), Err(Error::UnknownMessage));
    assert_eq!(JoinRequest::from_payload("watch ", "c".to_string()), Err(Error::UnknownMessage));
    assert_eq!(JoinRequest::from_payload("", "c".to_string()), Err(Error::UnknownMessage));
    assert_eq!(Notification::from_payload("output", "x".to_string()), Err(Error::UnknownMessage));
    assert_eq!(Notification::from_payload("ou", "x".to_string()), Err(Error::UnknownMessage));
}

#[test]
fn from_payload_names_the_variant() {
    assert_eq!(
        JoinRequest::from_payload("broadcast", "c".to_string()),
        Ok(JoinRequest::Broadcast("c".to_string()))
    );
    assert_eq!(JoinRequest::from_payload("watch", "c".to_string()), Ok(JoinRequest::Watch("c".to_string())));
    assert_eq!(Notification::from_payload("out", "x".to_string()), Ok(Notification::Output("x".to_string())));
    assert_eq!(Notification::from_payload("closed", "x".to_string()), Ok(Notification::Closed("x".to_string())));
    assert_eq!(
        Notification::from_payload("watcher_joined", "x".to_string()),
        Ok(Notification::WatcherJoined("x".to_string()))
    );
    assert_eq!(JoinResponse::from_payload(true), JoinResponse::Success);
    assert_eq!(JoinResponse::from_payload(false), JoinResponse::Failure);
}

#[test]
fn payload_lists_the_fields() {
    let request = JoinRequest::Broadcast("c".to_string());
    assert_eq!(request.payload(), (0u8, 0u8, "broadcast", &"c".to_string()));
    let request = JoinRequest::Watch("d".to_string());
    assert_eq!(request.payload(), (0u8, 0u8, "watch", &"d".to_string()));
    assert_eq!(JoinResponse::Success.payload(), (0u8, 0u8, "", true));
    assert_eq!(JoinResponse::Failure.payload(), (0u8, 0u8, "", false));
    assert_eq!(Notification::Output("o".to_string()).payload(), (2u8, "out", &"o".to_string()));
    assert_eq!(Notification::Closed("r".to_string()).payload(), (2u8, "closed", &"r".to_string()));
    assert_eq!(
        Notification::WatcherJoined(String::new()).payload(),
        (2u8, "watcher_joined", &String::new())
    );
}

#[test]
fn truncated_frame_is_reported() {
    let stream = frame_of_notification(&Notification::Output("hello".to_string()));
    for cut in 0..stream.len() {
        assert_eq!(
            Notification::receive(&stream[..cut]),
            Err(Error::Decode(DecodeError::Truncated)),
            "cut at {}",
            cut
        );
    }
}

#[test]
fn empty_stream_is_truncated() {
    assert_eq!(JoinRequest::receive(&[]), Err(Error::Decode(DecodeError::Truncated)));
    assert_eq!(JoinResponse::receive(&[]), Err(Error::Decode(DecodeError::Truncated)));
    assert_eq!(Notification::receive(&[]), Err(Error::Decode(DecodeError::Truncated)));
}

#[test]
fn wrong_shape_is_malformed() {
    // not an array
    assert_eq!(Notification::receive(&[0xc0]), Err(Error::Decode(DecodeError::Malformed)));
    // an array of the wrong length
    assert_eq!(
        Notification::receive(&[0x94, 0x02, 0xa0, 0xa0, 0xa0]),
        Err(Error::Decode(DecodeError::Malformed))
    );
    // a boolean where the topic should be
    assert_eq!(Notification::receive(&[0x93, 0x02, 0xc3, 0xa0]), Err(Error::Decode(DecodeError::Malformed)));
    // a header that does not fit eight bits
    assert_eq!(
        Notification::receive(&[0x93, 0xcd, 0x01, 0x00, 0xa3, b'o', b'u', b't', 0xa0]),
        Err(Error::Decode(DecodeError::Malformed))
    );
    // a string that is not UTF-8
    assert_eq!(
        Notification::receive(&[0x93, 0x02, 0xa3, b'o', b'u', b't', 0xa1, 0xff]),
        Err(Error::Decode(DecodeError::Malformed))
    );
    // a string where the result should be
    assert_eq!(
        JoinResponse::receive(&[0x94, 0x00, 0x00, 0xa0, 0xa0]),
        Err(Error::Decode(DecodeError::Malformed))
    );
}

#[test]
fn header_and_id_are_not_inspected() {
    let mut stream: Vec<u8> = vec![0x94, 0x07, 0xcc, 0xc8, 0xa5];
    stream.extend_from_slice(b"watch");
    stream.extend_from_slice(&[0xa1, b'c']);
    let (request, used) = JoinRequest::receive(&stream).unwrap();
    assert_eq!(request, JoinRequest::Watch("c".to_string()));
    assert_eq!(used, stream.len());
}

#[test]
fn wider_forms_are_read_too() {
    // the header as a sixteen-bit integer, the topic with an eight-bit length
    let mut stream: Vec<u8> = vec![0x93, 0xcd, 0x00, 0x02, 0xd9, 0x03];
    stream.extend_from_slice(b"out");
    stream.extend_from_slice(&[0xda, 0x00, 0x02, b'h', b'i']);
    let (notification, used) = Notification::receive(&stream).unwrap();
    assert_eq!(notification, Notification::Output("hi".to_string()));
    assert_eq!(used, stream.len());
}

#[test]
fn description_of_an_error() {
    assert_eq!(Error::Encode.description(), "Processing message failed");
    assert_eq!(Error::UnknownMessage.description(), "Processing message failed");
    assert_eq!(Error::Decode(DecodeError::Malformed).description(), "Processing message failed");
}

#[test]
fn clone_is_equal() {
    let notification = Notification::Output("data".to_string());
    assert_eq!(notification.clone(), notification);
    let request = JoinRequest::Watch("c".to_string());
    assert_eq!(request.clone(), request);
}
