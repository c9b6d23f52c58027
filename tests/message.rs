use dechib::message::{DechibMessage, MessageError, MessageType};

#[test]
fn should_try_from() {
    let input: &[u8] = &[b'M', 5, b'h', b'e', b'l', b'l', b'o'];
    let result = DechibMessage::try_from(input).unwrap();
    let expected = DechibMessage {
        message_type: MessageType::Message,
        message_size: 5,
        message_content: vec![104, 101, 108, 108, 111],
    };

    assert_eq!(result.message_size, expected.message_size);
    assert_eq!(result.message_content, expected.message_content);
    assert_eq!(result.message_type, expected.message_type)
}

#[test]
fn should_fail_try_from_wrong_msg_type() {
    let expected_error = "message_type is not \'I\' (init_mode) or \'M\' (message_mode)";
    let input: &[u8] = &[b'Z', 5, b'h', b'e', b'l', b'l', b'o'];
    match DechibMessage::try_from(input) {
        Ok(_v) => {
            panic!("should not have succeeded");
        }
        Err(error) => {
            assert_eq!(error.to_string(), expected_error);
        }
    }
}

#[test]
fn should_fail_try_from_wrong_size() {
    let expected_error = "incoming message does not contain message_size";
    let input: &[u8] = &[b'M'];
    match DechibMessage::try_from(input) {
        Ok(_v) => {
            panic!("should not have succeeded");
        }
        Err(error) => {
            assert_eq!(error.to_string(), expected_error);
        }
    }
}

#[test]
fn should_only_get_message_content_with_size() {
    let input: &[u8] = &[b'M', 5, b'h', b'e', b'l', b'l', b'o', b'f', b'o', b'o'];
    let result = DechibMessage::try_from(input).unwrap();
    let expected = DechibMessage {
        message_type: MessageType::Message,
        message_size: 5,
        // does not contain b"foo"
        message_content: vec![104, 101, 108, 108, 111],
    };

    assert_eq!(result.message_size, expected.message_size);
    assert_eq!(result.message_content, expected.message_content);
    assert_eq!(result.message_type, expected.message_type)
}

#[test]
fn content_less_then_size() {
    let input: &[u8] = &[b'M', 5, b'h', b'e'];
    let result = DechibMessage::try_from(input).unwrap();
    let expected = DechibMessage {
        message_type: MessageType::Message,
        message_size: 5,
        message_content: vec![104, 101, 0, 0, 0],
    };

    assert_eq!(result.message_size, expected.message_size);
    assert_eq!(result.message_content, expected.message_content);
    assert_eq!(result.message_type, expected.message_type)
}

#[test]
fn content_is_zero() {
    let input: &[u8] = &[b'M', 5];
    let result = DechibMessage::try_from(input).unwrap();
    let expected = DechibMessage {
        message_type: MessageType::Message,
        message_size: 5,
        message_content: vec![0, 0, 0, 0, 0],
    };

    assert_eq!(result.message_size, expected.message_size);
    assert_eq!(result.message_content, expected.message_content);
    assert_eq!(result.message_type, expected.message_type)
}

#[test]
fn init_message_decodes() {
    let input: &[u8] = &[b'I', 2, 7, 9];
    let result = DechibMessage::try_from(input).unwrap();
    assert_eq!(result.message_type, MessageType::Init);
    assert_eq!(result.message_size, 2);
    assert_eq!(result.message_content, vec![7, 9]);
}

#[test]
fn empty_buffer_has_no_type() {
    let input: &[u8] = &[];
    let error = DechibMessage::try_from(input).unwrap_err();
    assert_eq!(error, MessageError::MissingType);
    assert_eq!(error.to_string(), "incoming message does not contain a message_type");
}

#[test]
fn from_message_type_leaves_next_message() {
    let input: &[u8] = &[b'M', 2, b'h', b'i', b'M', 1, b'x'];
    let mut start: usize = 1;
    let first = DechibMessage::from_message_type(input, &mut start, MessageType::Message).unwrap();
    assert_eq!(first.message_content, vec![b'h', b'i']);
    assert_eq!(start, 4);
    let mut next: usize = start + 1;
    let second = DechibMessage::from_message_type(input, &mut next, MessageType::Message).unwrap();
    assert_eq!(second.message_content, vec![b'x']);
    assert_eq!(next, 7);
}

#[test]
fn largest_declared_size_is_padded() {
    let input: &[u8] = &[b'M', 255, 1];
    let result = DechibMessage::try_from(input).unwrap();
    assert_eq!(result.message_size, 255);
    assert_eq!(result.message_content.len(), 255);
    assert_eq!(result.message_content[0], 1);
    assert!(result.message_content[1..].iter().all(|b| *b == 0));
}
