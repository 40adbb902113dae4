use ws_gonzale::dataframe::{Dataframe, DataframeBuilder};
use ws_gonzale::message::Message;
use ws_gonzale::WsGonzaleError;

#[test]
#[should_panic]
fn test_buffer_with_no_payload_or_masking_key_but_payload_length() {
    let buffer: Vec<u8> = vec![
        129, // FIN(128) + Opcode(1)
        129, // MASK(128) + PayloadLength(1)
    ];
    let dataframe: Dataframe = DataframeBuilder::new(buffer).unwrap();
    dataframe.get_message().unwrap();
}

#[test]
fn test_buffer_with_no_payload_but_masking_key_and_payload_length() {
    // The frame claims one payload byte but carries none: the buffer cannot
    // support the announced length, so decoding rejects it.
    let buffer: Vec<u8> = vec![
        129, // FIN(128) + Opcode(1)
        129, // MASK(128) + PayloadLength(1)
        0, 0, 0, 0,
    ];
    let result = DataframeBuilder::new(buffer);
    assert_eq!(result.err().unwrap(), WsGonzaleError::InvalidPayload);
}

#[test]
fn test_buffer_with_no_payload_or_mask() {
    // An unmasked frame with a zero-length payload is complete at two
    // bytes: no key bytes follow when the mask bit is clear.
    let buffer: Vec<u8> = vec![
        129, // FIN(128) + Opcode(1)
        0,
    ];
    let dataframe: Dataframe = DataframeBuilder::new(buffer).unwrap();
    let message = dataframe.get_message().unwrap();
    assert_eq!(message, Message::Text(String::new()));
}

#[test]
fn test_close_frame_from_client() {
    let buffer: Vec<u8> = vec![
        136, // FIN(128) + Opcode(8)
        128, // MASK(128)
    ];
    let result = DataframeBuilder::new(buffer);
    assert_eq!(result.err().unwrap(), WsGonzaleError::ConnectionClosed);
}

#[test]
fn test_buffer_with_no_payload_with_masking_key() {
    let buffer: Vec<u8> = vec![
        129, // FIN(128) + Opcode(1)
        128, // MASK(128)
        0, 0, 0, 0,
    ];
    let dataframe: Dataframe = DataframeBuilder::new(buffer).unwrap();
    dataframe.get_message().unwrap();
}

#[test]
fn test_buffer_hello_world() {
    let str = "Hello World";
    let buffer: Vec<u8> = vec![
        129, 139, 90, 212, 118, 181, 18, 177, 26, 217, 53, 244, 33, 218, 40, 184, 18,
    ];
    let dataframe: Dataframe = DataframeBuilder::new(buffer).unwrap();
    assert!(dataframe.is_fin());
    assert!(dataframe.is_mask());
    assert_eq!(
        String::from_utf8(dataframe.get_payload().to_vec())
            .unwrap()
            .as_str(),
        str
    );
}

#[test]
fn test_payload_size() {
    let s = (0..488376).map(|_| "a").collect::<String>();
    // The header announces 488,376 payload bytes; the frame carries them
    // all, and the decoder reports exactly that length.
    let mut buffer = vec![129, 255, 0, 0, 0, 0, 0, 7, 115, 184, 105, 143, 80, 179];
    buffer.extend(std::iter::repeat(0u8).take(488376));
    let dataframe: Dataframe = DataframeBuilder::new(buffer).unwrap();
    assert_eq!(dataframe.get_payload_length(), s.len() as u64);
}

#[test]
fn test_buffer_to_dataframe() {
    let buffer: Vec<u8> = vec![
        129, 139, 90, 212, 118, 181, 18, 177, 26, 217, 53, 244, 33, 218, 40, 184, 18,
    ];
    let dataframe: Dataframe = DataframeBuilder::new(buffer).unwrap();
    assert!(dataframe.is_fin());
}

#[test]
fn test_buffer_126_length() {
    let str = "xZHtBeHbpCWCTCozNw0GxAdQ8Qqqtex5Zje8FBaVQpxrigx92BpLYYiXZnAA70CdNslWvgdSMz0vfUggF8U8wrULZz7ns1tUi5BDWmxx0XS5LsBeyFuaCq4NDAvwbi";
    let buffer: Vec<u8> = vec![
        129, 254, 0, 126, 202, 250, 57, 41, 178, 160, 113, 93, 136, 159, 113, 75, 186, 185,
        110, 106, 158, 185, 86, 83, 132, 141, 9, 110, 178, 187, 93, 120, 242, 171, 72, 88, 190,
        159, 65, 28, 144, 144, 92, 17, 140, 184, 88, 127, 155, 138, 65, 91, 163, 157, 65, 16,
        248, 184, 73, 101, 147, 163, 80, 113, 144, 148, 120, 104, 253, 202, 122, 77, 132, 137,
        85, 126, 188, 157, 93, 122, 135, 128, 9, 95, 172, 175, 94, 78, 140, 194, 108, 17, 189,
        136, 108, 101, 144, 128, 14, 71, 185, 203, 77, 124, 163, 207, 123, 109, 157, 151, 65,
        81, 250, 162, 106, 28, 134, 137, 123, 76, 179, 188, 76, 72, 137, 139, 13, 103, 142,
        187, 79, 94, 168, 147,
    ];
    let dataframe: Dataframe = DataframeBuilder::new(buffer).unwrap();
    let message = dataframe.get_message().unwrap();
    assert_eq!(message, Message::Text(str.to_string()));
}

#[test]
fn test_buffer_126_overflow_length() {
    let str = "xZHtBeHbpCWCTCozNw0GxAdQ8Qqqtex5Zje8FBaVQpxrigx92BpLYYiXZnAA70CdNslWvgdSMz0vfUggF8U8wrULZz7ns1tUi5BDWmxx0XS5LsBeyFuaCq4NDAvwbi";
    let buffer: Vec<u8> = vec![
        129, 254, 0, 126, 202, 250, 57, 41, 178, 160, 113, 93, 136, 159, 113, 75, 186, 185,
        110, 106, 158, 185, 86, 83, 132, 141, 9, 110, 178, 187, 93, 120, 242, 171, 72, 88, 190,
        159, 65, 28, 144, 144, 92, 17, 140, 184, 88, 127, 155, 138, 65, 91, 163, 157, 65, 16,
        248, 184, 73, 101, 147, 163, 80, 113, 144, 148, 120, 104, 253, 202, 122, 77, 132, 137,
        85, 126, 188, 157, 93, 122, 135, 128, 9, 95, 172, 175, 94, 78, 140, 194, 108, 17, 189,
        136, 108, 101, 144, 128, 14, 71, 185, 203, 77, 124, 163, 207, 123, 109, 157, 151, 65,
        81, 250, 162, 106, 28, 134, 137, 123, 76, 179, 188, 76, 72, 137, 139, 13, 103, 142,
        187, 79, 94, 168, 147, 0, 0, 0, 0,
    ];
    let dataframe: Dataframe = DataframeBuilder::new(buffer).unwrap();
    let message = dataframe.get_message().unwrap();
    assert_eq!(message, Message::Text(str.to_string()));
}

#[test]
fn test_buffer_127_length() {
    let str = "xZHtBeHbpCWCTCozNw0GxAdQ8Qqqtex5Zje8FBaVQpxrigx92BpLYYiXZnAA70CdNslWvgdSMz0vfUggF8U8wrULZz7ns1tUi5BDWmxx0XS5LsBeyFuaCq4NDAvwbia";
    let buffer: Vec<u8> = vec![
        129, 254, 0, 127, 238, 233, 37, 50, 150, 179, 109, 70, 172, 140, 109, 80, 158, 170,
        114, 113, 186, 170, 74, 72, 160, 158, 21, 117, 150, 168, 65, 99, 214, 184, 84, 67, 154,
        140, 93, 7, 180, 131, 64, 10, 168, 171, 68, 100, 191, 153, 93, 64, 135, 142, 93, 11,
        220, 171, 85, 126, 183, 176, 76, 106, 180, 135, 100, 115, 217, 217, 102, 86, 160, 154,
        73, 101, 152, 142, 65, 97, 163, 147, 21, 68, 136, 188, 66, 85, 168, 209, 112, 10, 153,
        155, 112, 126, 180, 147, 18, 92, 157, 216, 81, 103, 135, 220, 103, 118, 185, 132, 93,
        74, 222, 177, 118, 7, 162, 154, 103, 87, 151, 175, 80, 83, 173, 152, 17, 124, 170, 168,
        83, 69, 140, 128, 68,
    ];
    let dataframe: Dataframe = DataframeBuilder::new(buffer).unwrap();
    let message = dataframe.get_message().unwrap();
    assert_eq!(message, Message::Text(str.to_string()));
}

#[test]
fn test_buffer_127_overflow_length() {
    let str = "xZHtBeHbpCWCTCozNw0GxAdQ8Qqqtex5Zje8FBaVQpxrigx92BpLYYiXZnAA70CdNslWvgdSMz0vfUggF8U8wrULZz7ns1tUi5BDWmxx0XS5LsBeyFuaCq4NDAvwbia";
    let buffer: Vec<u8> = vec![
        129, 254, 0, 127, 238, 233, 37, 50, 150, 179, 109, 70, 172, 140, 109, 80, 158, 170,
        114, 113, 186, 170, 74, 72, 160, 158, 21, 117, 150, 168, 65, 99, 214, 184, 84, 67, 154,
        140, 93, 7, 180, 131, 64, 10, 168, 171, 68, 100, 191, 153, 93, 64, 135, 142, 93, 11,
        220, 171, 85, 126, 183, 176, 76, 106, 180, 135, 100, 115, 217, 217, 102, 86, 160, 154,
        73, 101, 152, 142, 65, 97, 163, 147, 21, 68, 136, 188, 66, 85, 168, 209, 112, 10, 153,
        155, 112, 126, 180, 147, 18, 92, 157, 216, 81, 103, 135, 220, 103, 118, 185, 132, 93,
        74, 222, 177, 118, 7, 162, 154, 103, 87, 151, 175, 80, 83, 173, 152, 17, 124, 170, 168,
        83, 69, 140, 128, 68, 0, 0, 0, 0,
    ];
    let dataframe: Dataframe = DataframeBuilder::new(buffer).unwrap();
    let message = dataframe.get_message().unwrap();
    assert_eq!(message, Message::Text(str.to_string()));
}

#[test]
fn test_buffer_large() {
    let str = "asdsadasdasdadsadadasdsadasdasdadsadadasdsadasdasdadsadadasdsadasdasdadsadadasdsadasdasdadsadadasdsadasdasdadsadadasdsadasdasdadsadadasdsadasdasdadsadad";
    let buffer: Vec<u8> = vec![
        129, 254, 0, 152, 156, 22, 133, 192, 253, 101, 225, 179, 253, 114, 228, 179, 248, 119,
        246, 164, 253, 114, 246, 161, 248, 119, 225, 161, 239, 114, 246, 161, 248, 119, 246,
        164, 253, 101, 225, 161, 248, 101, 228, 164, 253, 114, 228, 179, 248, 101, 228, 164,
        253, 101, 225, 161, 239, 114, 228, 164, 239, 119, 225, 161, 248, 119, 246, 164, 239,
        119, 225, 161, 239, 114, 228, 179, 248, 119, 225, 179, 253, 114, 228, 164, 253, 101,
        225, 179, 253, 114, 228, 179, 248, 119, 246, 164, 253, 114, 246, 161, 248, 119, 225,
        161, 239, 114, 246, 161, 248, 119, 246, 164, 253, 101, 225, 161, 248, 101, 228, 164,
        253, 114, 228, 179, 248, 101, 228, 164, 253, 101, 225, 161, 239, 114, 228, 164, 239,
        119, 225, 161, 248, 119, 246, 164, 239, 119, 225, 161, 239, 114, 228, 179, 248, 119,
        225, 179, 253, 114, 228, 164,
    ];
    let dataframe: Dataframe = DataframeBuilder::new(buffer).unwrap();
    let message = dataframe.get_message().unwrap();
    assert_eq!(message, Message::Text(str.to_string()));
}

#[test]
fn test_buffer_overflow_large() {
    let str = "asdsadasdasdadsadadasdsadasdasdadsadadasdsadasdasdadsadadasdsadasdasdadsadadasdsadasdasdadsadadasdsadasdasdadsadadasdsadasdasdadsadadasdsadasdasdadsadad";
    let buffer: Vec<u8> = vec![
        129, 254, 0, 152, 156, 22, 133, 192, 253, 101, 225, 179, 253, 114, 228, 179, 248, 119,
        246, 164, 253, 114, 246, 161, 248, 119, 225, 161, 239, 114, 246, 161, 248, 119, 246,
        164, 253, 101, 225, 161, 248, 101, 228, 164, 253, 114, 228, 179, 248, 101, 228, 164,
        253, 101, 225, 161, 239, 114, 228, 164, 239, 119, 225, 161, 248, 119, 246, 164, 239,
        119, 225, 161, 239, 114, 228, 179, 248, 119, 225, 179, 253, 114, 228, 164, 253, 101,
        225, 179, 253, 114, 228, 179, 248, 119, 246, 164, 253, 114, 246, 161, 248, 119, 225,
        161, 239, 114, 246, 161, 248, 119, 246, 164, 253, 101, 225, 161, 248, 101, 228, 164,
        253, 114, 228, 179, 248, 101, 228, 164, 253, 101, 225, 161, 239, 114, 228, 164, 239,
        119, 225, 161, 248, 119, 246, 164, 239, 119, 225, 161, 239, 114, 228, 179, 248, 119,
        225, 179, 253, 114, 228, 164, 0, 0, 0, 0,
    ];
    let dataframe: Dataframe = DataframeBuilder::new(buffer).unwrap();
    let message = dataframe.get_message().unwrap();
    assert_eq!(message, Message::Text(str.to_string()));
}
