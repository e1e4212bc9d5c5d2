use iced_dev_automation::screenshot::{
    decode_png, decoded_screenshot, encode_png, encoded_answer, handle_client, open_client,
    read_command, write_error, ClientAction, ClientEvent, ClientPhase, DecodedImage, PngError,
};
use iced_dev_automation::{CapturedScreenshot, ScreenshotRequest};

fn red_pixel() -> CapturedScreenshot {
    CapturedScreenshot { rgba: vec![255, 0, 0, 255], width: 1, height: 1 }
}

fn replied(step: (ClientPhase, ClientAction)) -> Vec<u8> {
    assert_eq!(step.0, ClientPhase::Closed);
    match step.1 {
        ClientAction::Reply(bytes) => bytes,
        other => panic!("no reply: {:?}", other),
    }
}

#[test]
fn accepts_the_screenshot_command() {
    assert_eq!(read_command(Ok(b"screenshot\n".to_vec())), Ok(b"screenshot".to_vec()));
}

#[test]
fn rejects_an_unterminated_command() {
    assert!(read_command(Ok(b"screenshot".to_vec())).is_err());
}

#[test]
fn returns_an_error_response_for_an_unknown_command() {
    let read = ClientEvent::Read(Ok(b"unknown\n".to_vec()));
    let response = String::from_utf8(replied(handle_client(ClientPhase::Reading, read))).unwrap();
    assert_eq!(response, "ERR expected `screenshot` command\n");
}

#[test]
fn encodes_rgba_as_png() {
    let screenshot = CapturedScreenshot { rgba: vec![255, 0, 0, 255], width: 1, height: 1 };

    let png = encode_png(&screenshot).expect("PNG encoding must succeed");
    assert_eq!(&png[..8], b"\x89PNG\r\n\x1a\n");
}

#[test]
fn rejects_invalid_rgba_dimensions() {
    let screenshot = CapturedScreenshot { rgba: vec![0; 3], width: 1, height: 1 };

    assert!(encode_png(&screenshot).is_err());
}

#[test]
fn the_image_has_the_size_of_the_screenshot_and_an_end() {
    let screenshot = CapturedScreenshot { rgba: vec![7; 3 * 258 * 4], width: 258, height: 3 };
    let png = encode_png(&screenshot).unwrap();
    assert_eq!(&png[8..29], b"\x00\x00\x00\x0dIHDR\x00\x00\x01\x02\x00\x00\x00\x03\x08\x06\x00\x00\x00");
    assert!(png.ends_with(b"\x00\x00\x00\x00IEND\xae\x42\x60\x82"));
}

#[test]
fn the_image_decodes_to_the_pixels() {
    for (width, height) in [(1, 1), (2, 3), (61, 40), (1, 300)] {
        let rgba: Vec<u8> =
            (0..width * height * 4).map(|i| (i * i / 7 + i % 251) as u8).collect();
        let screenshot = CapturedScreenshot { rgba: rgba.clone(), width, height };
        let png = encode_png(&screenshot).unwrap();
        assert_eq!(screenshot.rgba, rgba);
        let decoded = decode_png(&png).unwrap();
        assert_eq!((decoded.width, decoded.height), (width, height));
        assert_eq!(decoded.rgba, rgba);
    }
}

fn other_image(color: png::ColorType, depth: png::BitDepth, data: &[u8]) -> Vec<u8> {
    let mut bytes = Vec::new();
    let mut encoder = png::Encoder::new(&mut bytes, 1, 1);
    encoder.set_color(color);
    encoder.set_depth(depth);
    let mut writer = encoder.write_header().unwrap();
    writer.write_image_data(data).unwrap();
    drop(writer);
    bytes
}

#[test]
fn only_images_of_eight_bit_rgba_are_screenshots() {
    let rgb = other_image(png::ColorType::Rgb, png::BitDepth::Eight, &[1, 2, 3]);
    assert!(decode_png(&rgb).is_none());
    let deep = other_image(png::ColorType::Rgba, png::BitDepth::Sixteen, &[0; 8]);
    assert!(decode_png(&deep).is_none());
    let plain = other_image(png::ColorType::Rgba, png::BitDepth::Eight, &[1, 2, 3, 4]);
    assert_eq!(decode_png(&plain).unwrap().rgba, vec![1, 2, 3, 4]);

    let image = |color, depth| DecodedImage { width: 1, height: 1, color, depth, pixels: vec![9] };
    assert_eq!(decoded_screenshot(Some(image(6, 8))).unwrap().rgba, vec![9]);
    assert!(decoded_screenshot(Some(image(2, 8))).is_none());
    assert!(decoded_screenshot(Some(image(6, 16))).is_none());
    assert!(decoded_screenshot(None).is_none());
}

#[test]
fn bytes_that_are_no_image_are_no_screenshot() {
    assert!(decode_png(&[]).is_none());
    assert!(decode_png(&write_error("no window")).is_none());
    let mut png = encode_png(&red_pixel()).unwrap();
    assert!(decode_png(&png[..20]).is_none());
    assert!(decode_png(&png[..40]).is_none());
    for byte in &mut png[16..24] {
        *byte = 255;
    }
    assert!(decode_png(&png).is_none());
}

#[test]
fn screenshots_without_pixels_are_refused() {
    for (width, height, len) in [(0, 1, 0), (1, 0, 0), (0, 0, 0), (2, 2, 15), (2, 2, 17)] {
        let screenshot = CapturedScreenshot { rgba: vec![0; len], width, height };
        assert_eq!(
            encode_png(&screenshot),
            Err("screenshot has invalid RGBA dimensions".to_owned())
        );
    }
}

#[test]
fn encoding_errors_say_where_they_come_from() {
    assert_eq!(encoded_answer(Ok(vec![1])), Ok(vec![1]));
    assert_eq!(
        encoded_answer(Err(PngError::Header("first".to_owned()))),
        Err("could not encode PNG header: first".to_owned())
    );
    assert_eq!(
        encoded_answer(Err(PngError::Data("second".to_owned()))),
        Err("could not encode PNG data: second".to_owned())
    );
}

#[test]
fn commands_are_lines_of_at_most_64_bytes() {
    assert_eq!(read_command(Ok(b"screenshot\r\n".to_vec())), Ok(b"screenshot".to_vec()));
    assert_eq!(read_command(Ok(b"screenshot\r\r\n".to_vec())), Ok(b"screenshot\r".to_vec()));
    assert_eq!(read_command(Ok(b"\n".to_vec())), Ok(Vec::new()));
    assert_eq!(read_command(Ok(b"\r\n".to_vec())), Ok(Vec::new()));
    assert_eq!(read_command(Ok(Vec::new())), Err("empty request".to_owned()));
    assert_eq!(
        read_command(Err("reset".to_owned())),
        Err("could not read request: reset".to_owned())
    );
    let mut longest = vec![b'x'; 63];
    longest.push(b'\n');
    assert_eq!(read_command(Ok(longest.clone())), Ok(vec![b'x'; 63]));
    longest.insert(0, b'x');
    assert_eq!(
        read_command(Ok(longest)),
        Err("request must be a line no longer than 64 bytes".to_owned())
    );
}

#[test]
fn error_lines_name_the_reason() {
    assert_eq!(write_error("no window"), b"ERR no window\n".to_vec());
    assert_eq!(write_error("\u{e9}"), b"ERR \xc3\xa9\n".to_vec());
}

#[test]
fn a_response_is_addressed_to_the_client_that_waits() {
    let delivery = ScreenshotRequest { response: "client" }.respond(Err("closed".to_owned()));
    assert_eq!(delivery.to, "client");
    assert_eq!(delivery.result.unwrap_err(), "closed");

    let delivery = ScreenshotRequest { response: 7 }.respond(Ok(red_pixel()));
    assert_eq!(delivery.to, 7);
    assert_eq!(delivery.result.unwrap().rgba, vec![255, 0, 0, 255]);
}

#[test]
fn serves_a_screenshot_client_from_start_to_image() {
    let (phase, action) = open_client();
    assert!(matches!(action, ClientAction::SetReadTimeout));
    let (phase, action) = handle_client(phase, ClientEvent::TimeoutSet(Ok(())));
    assert!(matches!(action, ClientAction::SetWriteTimeout));
    let (phase, action) = handle_client(phase, ClientEvent::TimeoutSet(Ok(())));
    assert!(matches!(action, ClientAction::ReadCommand(65)));
    let (phase, action) = handle_client(phase, ClientEvent::Read(Ok(b"screenshot\r\n".to_vec())));
    assert!(matches!(action, ClientAction::Submit));
    let (phase, action) = handle_client(phase, ClientEvent::Submitted);
    assert!(matches!(action, ClientAction::AwaitAnswer));
    let (phase, action) = handle_client(phase, ClientEvent::Answered(Ok(red_pixel())));
    match action {
        ClientAction::SendImage(image) => {
            assert_eq!(image, encode_png(&red_pixel()).unwrap());
        }
        other => panic!("no image: {:?}", other),
    }
    let (phase, action) = handle_client(phase, ClientEvent::Sent(Ok(())));
    assert_eq!(phase, ClientPhase::Closed);
    assert!(matches!(action, ClientAction::Close));
}

#[test]
fn screenshot_failures_are_answered() {
    let empty = CapturedScreenshot { rgba: Vec::new(), width: 0, height: 0 };
    for (phase, event, reason) in [
        (ClientPhase::Reading, ClientEvent::Read(Ok(Vec::new())), "empty request"),
        (
            ClientPhase::Submitting,
            ClientEvent::QueueClosed,
            "application is not accepting screenshot requests",
        ),
        (ClientPhase::Waiting, ClientEvent::TimedOut, "screenshot request timed out"),
        (
            ClientPhase::Waiting,
            ClientEvent::Disconnected,
            "application stopped before the screenshot was ready",
        ),
        (ClientPhase::Waiting, ClientEvent::Answered(Err("no window".to_owned())), "no window"),
        (
            ClientPhase::Waiting,
            ClientEvent::Answered(Ok(empty)),
            "screenshot has invalid RGBA dimensions",
        ),
    ] {
        let reply = replied(handle_client(phase, event));
        assert_eq!(String::from_utf8(reply).unwrap(), format!("ERR {}\n", reason));
    }
}

#[test]
fn screenshot_timeouts_that_cannot_be_set_are_reported() {
    let failed = || ClientEvent::TimeoutSet(Err("invalid".to_owned()));
    match handle_client(ClientPhase::SettingReadTimeout, failed()) {
        (ClientPhase::Closed, ClientAction::Report(text)) => {
            assert_eq!(text, "screenshot socket could not set read timeout: invalid");
        }
        other => panic!("not reported: {:?}", other),
    }
    match handle_client(ClientPhase::SettingWriteTimeout, failed()) {
        (ClientPhase::Closed, ClientAction::Report(text)) => {
            assert_eq!(text, "screenshot socket could not set write timeout: invalid");
        }
        other => panic!("not reported: {:?}", other),
    }
}

#[test]
fn an_image_that_cannot_be_sent_is_reported() {
    match handle_client(ClientPhase::Sending, ClientEvent::Sent(Err("broken pipe".to_owned()))) {
        (ClientPhase::Closed, ClientAction::Report(text)) => {
            assert_eq!(text, "screenshot socket write error: broken pipe");
        }
        other => panic!("not reported: {:?}", other),
    }
}

#[test]
fn a_closed_screenshot_connection_gets_no_second_reply() {
    for event in [ClientEvent::TimedOut, ClientEvent::Answered(Ok(red_pixel()))] {
        let (phase, action) = handle_client(ClientPhase::Closed, event);
        assert_eq!(phase, ClientPhase::Closed);
        assert!(matches!(action, ClientAction::Close));
    }
}
