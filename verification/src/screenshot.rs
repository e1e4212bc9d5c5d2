//! Debug-only Unix-socket screenshots for local UI automation.
//!
//! A client sends `screenshot\n`. It gets one PNG image and the connection is
//! closed. On failure, it gets `ERR <message>\n`. A client is served by
//! [`handle_client`], which says, for each thing that happened, what is done
//! next; reading, waiting and writing are the caller's.

use crate::text;
use vstd::prelude::*;
use vstd::utf8::*;

verus! {

/// The longest command, line feed and all. One byte more is read of a client, so
/// that a longer command shows.
pub const MAX_COMMAND_BYTES: u64 = 64;

/// How long a client is waited for, and waits, in seconds.
pub const CLIENT_TIMEOUT_SECONDS: u64 = 10;

/// The carriage return that may stand before the line feed of a command.
pub const CARRIAGE_RETURN: u8 = 13;

/// A screenshot request received from the Unix socket. `response` is where the
/// waiting client is reached.
#[derive(Debug, Clone)]
pub struct ScreenshotRequest<S> {
    pub response: S,
}

/// A screenshot, or why there is none, on its way to the client that waits at `to`.
#[derive(Debug)]
pub struct Delivery<S> {
    pub to: S,
    pub result: Result<CapturedScreenshot, String>,
}

/// A result that is addressed to the client of a request.
pub open spec fn addressed<S>(
    request: ScreenshotRequest<S>,
    result: Result<CapturedScreenshot, String>,
) -> Delivery<S> {
    Delivery { to: request.response, result }
}

impl<S> ScreenshotRequest<S> {
    /// Addresses the screenshot result to the waiting socket client.
    pub fn respond(self, result: Result<CapturedScreenshot, String>) -> (delivery: Delivery<S>)
        ensures
            delivery.to == self.response,
            delivery.result == result,
            delivery == addressed(self, result),
    {
        Delivery { to: self.response, result }
    }
}

/// A rendered Iced viewport in physical RGBA8 pixels.
#[derive(Debug, Clone)]
pub struct CapturedScreenshot {
    pub rgba: Vec<u8>,
    pub width: u32,
    pub height: u32,
}

impl CapturedScreenshot {
    /// How many bytes the pixels take.
    pub open spec fn expected_len(&self) -> int {
        self.width * self.height * 4
    }

    /// Whether that number can be computed on this machine.
    pub open spec fn fits(&self) -> bool {
        self.expected_len() <= usize::MAX
    }

    /// Whether there are pixels, and as many bytes as they take.
    pub open spec fn has_pixels(&self) -> bool {
        self.width > 0 && self.height > 0 && self.rgba@.len() == self.expected_len()
    }
}

/// Where the encoding of a PNG image failed, with the text of the error.
#[derive(Debug)]
pub enum PngError {
    Header(String),
    Data(String),
}

/// Where the encoding of a PNG image failed, with the text of the error.
#[verifier::ext_equal]
pub enum PngErrorView {
    Header(Seq<char>),
    Data(Seq<char>),
}

/// What the encoding of a PNG image gave, by its contents.
pub open spec fn png_view(encoded: Result<Vec<u8>, PngError>) -> Result<Seq<u8>, PngErrorView> {
    match encoded {
        Ok(png) => Ok(png@),
        Err(PngError::Header(error)) => Err(PngErrorView::Header(error@)),
        Err(PngError::Data(error)) => Err(PngErrorView::Data(error@)),
    }
}

/// What the `png` crate makes of eight-bit RGBA pixels, with its default settings.
pub uninterp spec fn png_encoding(width: u32, height: u32, rgba: Seq<u8>) -> Result<
    Seq<u8>,
    PngErrorView,
>;

/// The eight bytes that every PNG image begins with.
pub open spec fn png_signature() -> Seq<u8> {
    seq![137, 80, 78, 71, 13, 10, 26, 10]
}

/// The four bytes of `number`, the highest first.
pub open spec fn big_endian(number: u32) -> Seq<u8> {
    seq![
        (number / 0x100_0000) as u8,
        (number / 0x1_0000 % 0x100) as u8,
        (number / 0x100 % 0x100) as u8,
        (number % 0x100) as u8,
    ]
}

/// The beginning of a PNG image of eight-bit RGBA pixels, not interlaced: the
/// signature and the image header.
pub open spec fn png_head(width: u32, height: u32) -> Seq<u8> {
    png_signature() + seq![0, 0, 0, 13, 73, 72, 68, 82] + big_endian(width) + big_endian(height)
        + seq![8, 6, 0, 0, 0]
}

/// The chunk that every PNG image ends with: no data, the type `IEND` and its checksum.
pub open spec fn png_end() -> Seq<u8> {
    seq![0, 0, 0, 0, 73, 69, 78, 68, 174, 66, 96, 130]
}

/// Whether `bytes` begin and end as a PNG image of that size does.
pub open spec fn is_png(bytes: Seq<u8>, width: u32, height: u32) -> bool {
    &&& bytes.len() >= png_head(width, height).len() + png_end().len()
    &&& png_head(width, height).is_prefix_of(bytes)
    &&& png_end().is_suffix_of(bytes)
}

/// The number that four bytes stand for, the highest first.
pub open spec fn from_big_endian(bytes: Seq<u8>, at: int) -> int {
    bytes[at] * 0x100_0000 + bytes[at + 1] * 0x1_0000 + bytes[at + 2] * 0x100 + bytes[at + 3]
}

/// How many bytes the pixels of an image take at most, by the size and the depth that its
/// header gives. Without a header there are no pixels.
pub open spec fn declared_len(bytes: Seq<u8>) -> int {
    if bytes.len() < 25 {
        0
    } else {
        from_big_endian(bytes, 16) * from_big_endian(bytes, 20) * if bytes[24] == 8 {
            4int
        } else {
            8int
        }
    }
}

/// An image as it was decoded. `color` and `depth` are the numbers that the PNG format gives
/// to the kind and the size of the samples: 6 and 8 for eight-bit RGBA.
#[derive(Debug)]
pub struct DecodedImage {
    pub width: u32,
    pub height: u32,
    pub color: u8,
    pub depth: u8,
    pub pixels: Vec<u8>,
}

/// An image as it was decoded, by its contents.
#[verifier::ext_equal]
pub struct ImageView {
    pub width: u32,
    pub height: u32,
    pub color: u8,
    pub depth: u8,
    pub pixels: Seq<u8>,
}

/// What a decoding gave, by its contents.
pub open spec fn image_view(decoded: Option<DecodedImage>) -> Option<ImageView> {
    match decoded {
        Some(image) => Some(
            ImageView {
                width: image.width,
                height: image.height,
                color: image.color,
                depth: image.depth,
                pixels: image.pixels@,
            },
        ),
        None => None,
    }
}

/// What `png::Decoder`, with no limit on its memory, reads from `bytes` as the first frame.
pub uninterp spec fn decoded_png(bytes: Seq<u8>) -> Option<ImageView>;

/// Decodes an image with `png::Decoder`: `new_with_limits` on the bytes, with the highest
/// limit, `read_info`, and `next_frame` of the reader that it returns, into a buffer of the
/// size that the reader asks for. What it reads, or that it reads nothing, depends on the
/// bytes alone, as long as such a buffer can be addressed.
#[verifier::external_body]
fn png_pixels(bytes: &[u8]) -> (decoded: Option<DecodedImage>)
    requires
        declared_len(bytes@) <= isize::MAX,
    ensures
        image_view(decoded) == decoded_png(bytes@),
{
    let limits = png::Limits { bytes: usize::MAX };
    let decoder = png::Decoder::new_with_limits(std::io::Cursor::new(bytes), limits);
    let mut reader = decoder.read_info().ok()?;
    let mut pixels = vec![0; reader.output_buffer_size()?];
    let info = reader.next_frame(&mut pixels).ok()?;
    let (color, depth) = (info.color_type as u8, info.bit_depth as u8);
    Some(DecodedImage { width: info.width, height: info.height, color, depth, pixels })
}

/// An image of eight-bit RGBA pixels.
pub open spec fn rgba_image(width: u32, height: u32, rgba: Seq<u8>) -> ImageView {
    ImageView { width, height, color: 6, depth: 8, pixels: rgba }
}

/// Encodes pixels with `png::Encoder`: `new` on a vector, `set_color` to RGBA,
/// `set_depth` to eight bits, `write_header`, and `write_image_data` on the writer
/// that it returns. The image, or the text of the error, depends on the arguments
/// alone. `write_header` writes the signature and the image header first, and the writer
/// writes the end chunk when it is dropped. The decoder of the same crate, as
/// [`png_pixels`] calls it, gives back what was encoded. Nothing is claimed of when the
/// compressor that `write_image_data` calls succeeds.
#[verifier::external_body]
fn png_bytes(width: u32, height: u32, rgba: &[u8]) -> (encoded: Result<Vec<u8>, PngError>)
    requires
        width > 0,
        height > 0,
        rgba@.len() == width * height * 4,
    ensures
        png_view(encoded) == png_encoding(width, height, rgba@),
        encoded matches Ok(png) ==> is_png(png@, width, height),
        encoded matches Ok(png) ==> decoded_png(png@) == Some(rgba_image(width, height, rgba@)),
{
    let mut png = Vec::new();
    let mut encoder = png::Encoder::new(&mut png, width, height);
    encoder.set_color(png::ColorType::Rgba);
    encoder.set_depth(png::BitDepth::Eight);
    let mut writer = encoder.write_header().map_err(|error| PngError::Header(error.to_string()))?;
    writer.write_image_data(rgba).map_err(|error| PngError::Data(error.to_string()))?;
    drop(writer);
    Ok(png)
}

/// The answer that an encoding gives: the image, or why there is none.
pub open spec fn encoded_view(encoded: Result<Seq<u8>, PngErrorView>) -> Result<
    Seq<u8>,
    Seq<char>,
> {
    match encoded {
        Ok(png) => Ok(png),
        Err(PngErrorView::Header(error)) => Err("could not encode PNG header: "@ + error),
        Err(PngErrorView::Data(error)) => Err("could not encode PNG data: "@ + error),
    }
}

/// The answer that an encoding gives: the image, or why there is none.
pub fn encoded_answer(encoded: Result<Vec<u8>, PngError>) -> (answer: Result<Vec<u8>, String>)
    ensures
        text::read_view(answer) == encoded_view(png_view(encoded)),
{
    match encoded {
        Ok(png) => Ok(png),
        Err(PngError::Header(error)) => Err(
            "could not encode PNG header: ".to_owned().concat(error.as_str()),
        ),
        Err(PngError::Data(error)) => Err(
            "could not encode PNG data: ".to_owned().concat(error.as_str()),
        ),
    }
}

/// The answer that a screenshot gives: the image, or why there is none.
pub open spec fn png_answer(screenshot: CapturedScreenshot) -> Result<Seq<u8>, Seq<char>> {
    if screenshot.has_pixels() {
        encoded_view(png_encoding(screenshot.width, screenshot.height, screenshot.rgba@))
    } else {
        Err("screenshot has invalid RGBA dimensions"@)
    }
}

/// Whether `bytes` are a PNG image of the screenshot: they begin and end as one of its size
/// does, and are decoded to its width, its height and its pixels.
pub open spec fn shows(bytes: Seq<u8>, screenshot: CapturedScreenshot) -> bool {
    &&& is_png(bytes, screenshot.width, screenshot.height)
    &&& decoded_png(bytes) == Some(
        rgba_image(screenshot.width, screenshot.height, screenshot.rgba@),
    )
}

/// Encodes a screenshot as a PNG image, from which its pixels can be decoded again.
pub fn encode_png(screenshot: &CapturedScreenshot) -> (answer: Result<Vec<u8>, String>)
    requires
        screenshot.fits(),
    ensures
        text::read_view(answer) == png_answer(*screenshot),
        answer matches Ok(png) ==> shows(png@, *screenshot),
{
    let expected_length: usize = screenshot.width as usize * screenshot.height as usize * 4;
    if screenshot.width == 0 || screenshot.height == 0 || screenshot.rgba.len()
        != expected_length {
        return Err("screenshot has invalid RGBA dimensions".to_owned());
    }
    encoded_answer(
        png_bytes(screenshot.width, screenshot.height, screenshot.rgba.as_slice()),
    )
}

/// The width, the height and the pixels of a screenshot.
pub open spec fn screenshot_view(screenshot: Option<CapturedScreenshot>) -> Option<
    (u32, u32, Seq<u8>),
> {
    match screenshot {
        Some(taken) => Some((taken.width, taken.height, taken.rgba@)),
        None => None,
    }
}

/// The screenshot that a decoded image is: it has eight-bit RGBA pixels.
pub open spec fn image_screenshot(decoded: Option<ImageView>) -> Option<(u32, u32, Seq<u8>)> {
    match decoded {
        Some(image) => if image.color == 6 && image.depth == 8 {
            Some((image.width, image.height, image.pixels))
        } else {
            None
        },
        None => None,
    }
}

/// The screenshot that a decoded image is, if it has eight-bit RGBA pixels.
pub fn decoded_screenshot(decoded: Option<DecodedImage>) -> (screenshot: Option<
    CapturedScreenshot,
>)
    ensures
        screenshot_view(screenshot) == image_screenshot(image_view(decoded)),
{
    match decoded {
        Some(image) => if image.color == 6 && image.depth == 8 {
            Some(
                CapturedScreenshot {
                    rgba: image.pixels,
                    width: image.width,
                    height: image.height,
                },
            )
        } else {
            None
        },
        None => None,
    }
}

/// The number that four bytes stand for, the highest first.
fn number_at(bytes: &[u8], at: usize) -> (number: u128)
    requires
        at + 4 <= bytes@.len(),
    ensures
        number == from_big_endian(bytes@, at as int),
        number <= u32::MAX,
{
    bytes[at] as u128 * 0x100_0000 + bytes[at + 1] as u128 * 0x1_0000 + bytes[at + 2] as u128
        * 0x100 + bytes[at + 3] as u128
}

/// How many bytes the pixels of an image take at most, by its header.
fn declared_bytes(bytes: &[u8]) -> (len: u128)
    ensures
        len == declared_len(bytes@),
{
    if bytes.len() < 25 {
        return 0;
    }
    let width: u128 = number_at(bytes, 16);
    let height: u128 = number_at(bytes, 20);
    let sample: u128 = if bytes[24] == 8 {
        4
    } else {
        8
    };
    assert(width * height <= u32::MAX * u32::MAX) by (nonlinear_arith)
        requires
            width <= u32::MAX,
            height <= u32::MAX,
    ;
    let pixels: u128 = width * height;
    assert(pixels * sample <= pixels * 8) by (nonlinear_arith)
        requires
            sample <= 8,
    ;
    pixels * sample
}

/// The screenshot that is read from a PNG image. There is none if the bytes are no image, if
/// its pixels are not eight-bit RGBA, or if they cannot be held in memory by its header.
pub open spec fn pictured(bytes: Seq<u8>) -> Option<(u32, u32, Seq<u8>)> {
    if declared_len(bytes) <= isize::MAX {
        image_screenshot(decoded_png(bytes))
    } else {
        None
    }
}

/// Reads a screenshot from a PNG image.
pub fn decode_png(bytes: &[u8]) -> (screenshot: Option<CapturedScreenshot>)
    ensures
        screenshot_view(screenshot) == pictured(bytes@),
{
    if declared_bytes(bytes) > isize::MAX as u128 {
        return None;
    }
    decoded_screenshot(png_pixels(bytes))
}

/// The four bytes of a number stand for it.
proof fn lemma_big_endian(number: u32, bytes: Seq<u8>, at: int)
    requires
        bytes[at] == big_endian(number)[0],
        bytes[at + 1] == big_endian(number)[1],
        bytes[at + 2] == big_endian(number)[2],
        bytes[at + 3] == big_endian(number)[3],
    ensures
        from_big_endian(bytes, at) == number,
{
    assert(number / 0x100_0000 < 0x100);
    assert(number == number / 0x100_0000 * 0x100_0000 + number / 0x1_0000 % 0x100 * 0x1_0000
        + number / 0x100 % 0x100 * 0x100 + number % 0x100);
}

/// Decoding undoes encoding: from the image of a screenshot, its width, its height and its
/// pixels are read again, whenever that many bytes can be held in memory.
pub proof fn law_decoding_undoes_encoding(bytes: Seq<u8>, screenshot: CapturedScreenshot)
    requires
        shows(bytes, screenshot),
        screenshot.expected_len() <= isize::MAX,
    ensures
        pictured(bytes) == Some((screenshot.width, screenshot.height, screenshot.rgba@)),
{
    let head = png_head(screenshot.width, screenshot.height);
    assert forall|i: int| 0 <= i < head.len() implies bytes[i] == head[i] by {
        assert(bytes.take(head.len() as int) =~= head);
        assert(bytes.take(head.len() as int)[i] == head[i]);
    }
    lemma_big_endian(screenshot.width, bytes, 16);
    lemma_big_endian(screenshot.height, bytes, 20);
    assert(bytes[24] == 8);
    assert(declared_len(bytes) == screenshot.expected_len());
}

/// The command that a line holds, without the line feed and a carriage return
/// before it.
pub open spec fn line_command(line: Seq<u8>) -> Seq<u8> {
    let body = line.drop_last();
    if body.len() > 0 && body.last() == CARRIAGE_RETURN {
        body.drop_last()
    } else {
        body
    }
}

/// The command that a read of a client gives, or why there is none.
pub open spec fn command(read: Result<Seq<u8>, Seq<char>>) -> Result<Seq<u8>, Seq<char>> {
    match read {
        Err(error) => Err("could not read request: "@ + error),
        Ok(bytes) => if bytes.len() == 0 {
            Err("empty request"@)
        } else if !text::is_line(bytes, MAX_COMMAND_BYTES as int) {
            Err("request must be a line no longer than 64 bytes"@)
        } else {
            Ok(line_command(bytes))
        },
    }
}

/// The command that a read of a client gives, or why there is none. The read takes
/// bytes up to the first line feed, and at most one byte more than
/// [`MAX_COMMAND_BYTES`].
pub fn read_command(read: Result<Vec<u8>, String>) -> (parsed: Result<Vec<u8>, String>)
    ensures
        text::read_view(parsed) == command(text::read_view(read)),
{
    let mut bytes: Vec<u8> = match read {
        Ok(bytes) => bytes,
        Err(error) => {
            return Err("could not read request: ".to_owned().concat(error.as_str()));
        },
    };
    if bytes.len() == 0 {
        return Err("empty request".to_owned());
    }
    if bytes.len() as u64 > MAX_COMMAND_BYTES || bytes[bytes.len() - 1] != text::NEWLINE {
        return Err("request must be a line no longer than 64 bytes".to_owned());
    }
    let ghost line = bytes@;
    bytes.pop();
    assert(bytes@ =~= line.drop_last());
    if bytes.len() > 0 && bytes[bytes.len() - 1] == CARRIAGE_RETURN {
        bytes.pop();
        assert(bytes@ =~= line.drop_last().drop_last());
    }
    Ok(bytes)
}

/// The command that asks for a screenshot.
pub open spec fn screenshot_command() -> Seq<u8> {
    encode_utf8("screenshot"@)
}

/// The line that tells a client why there is no screenshot.
pub open spec fn error_line(reason: Seq<char>) -> Seq<u8> {
    encode_utf8("ERR "@ + reason + "\n"@)
}

/// The line that tells a client why there is no screenshot.
pub fn write_error(error: &str) -> (line: Vec<u8>)
    ensures
        line@ == error_line(error@),
{
    let line: String = "ERR ".to_owned().concat(error).concat("\n");
    line.as_str().as_bytes_vec()
}

/// Where the serving of a client stands: what was asked of the caller last.
#[derive(Debug, Clone, Copy, PartialEq, Eq, Structural)]
pub enum ClientPhase {
    SettingReadTimeout,
    SettingWriteTimeout,
    Reading,
    Submitting,
    Waiting,
    Sending,
    Closed,
}

/// What came of the last thing that was asked of the caller.
#[derive(Debug)]
pub enum ClientEvent {
    /// A timeout was set, or could not be, with the text of the error.
    TimeoutSet(Result<(), String>),
    /// The command was read.
    Read(Result<Vec<u8>, String>),
    /// The request is in the queue.
    Submitted,
    /// Nobody takes requests from the queue.
    QueueClosed,
    /// The application answered.
    Answered(Result<CapturedScreenshot, String>),
    /// The application did not answer in time.
    TimedOut,
    /// The application dropped the request.
    Disconnected,
    /// The image was sent, or could not be, with the text of the error.
    Sent(Result<(), String>),
}

/// What the caller does next.
#[derive(Debug)]
pub enum ClientAction {
    /// Limits how long reads of the client take, to [`CLIENT_TIMEOUT_SECONDS`].
    SetReadTimeout,
    /// Limits how long writes to the client take, likewise.
    SetWriteTimeout,
    /// Reads from the client up to a line feed, and at most this many bytes.
    ReadCommand(u64),
    /// Queues a request for the application.
    Submit,
    /// Waits for the answer, for [`CLIENT_TIMEOUT_SECONDS`] at most.
    AwaitAnswer,
    /// Writes this image to the client.
    SendImage(Vec<u8>),
    /// Writes these bytes to the client and closes the connection.
    Reply(Vec<u8>),
    /// Reports a text and closes the connection.
    Report(String),
    /// Closes the connection.
    Close,
}

/// Whether `action` tells the client why there is no screenshot.
pub open spec fn replies_error(action: ClientAction, reason: Seq<char>) -> bool {
    action matches ClientAction::Reply(bytes) && bytes@ == error_line(reason)
}

/// Whether the application's answer is passed on to the client: the screenshot as a PNG
/// image, or the reason why there is none.
pub open spec fn passes_on(
    answer: Result<CapturedScreenshot, String>,
    next: ClientPhase,
    action: ClientAction,
) -> bool {
    match answer {
        Ok(screenshot) => match png_answer(screenshot) {
            Ok(png) => next == ClientPhase::Sending && (action matches ClientAction::SendImage(
                bytes,
            ) && bytes@ == png && shows(bytes@, screenshot)),
            Err(reason) => next == ClientPhase::Closed && replies_error(action, reason),
        },
        Err(reason) => next == ClientPhase::Closed && replies_error(action, reason@),
    }
}

/// How the serving of a client goes on: in `phase`, after `event`, the phase is
/// `next` and the caller does `action`. An event that answers nothing that was
/// asked closes the connection.
pub open spec fn client_step(
    phase: ClientPhase,
    event: ClientEvent,
    next: ClientPhase,
    action: ClientAction,
) -> bool {
    match (phase, event) {
        (ClientPhase::SettingReadTimeout, ClientEvent::TimeoutSet(set)) => match set {
            Ok(_) => next == ClientPhase::SettingWriteTimeout && action
                == ClientAction::SetWriteTimeout,
            Err(error) => next == ClientPhase::Closed && (action matches ClientAction::Report(text)
                && text@ == "screenshot socket could not set read timeout: "@ + error@),
        },
        (ClientPhase::SettingWriteTimeout, ClientEvent::TimeoutSet(set)) => match set {
            Ok(_) => next == ClientPhase::Reading && action == ClientAction::ReadCommand(
                (MAX_COMMAND_BYTES + 1) as u64,
            ),
            Err(error) => next == ClientPhase::Closed && (action matches ClientAction::Report(text)
                && text@ == "screenshot socket could not set write timeout: "@ + error@),
        },
        (ClientPhase::Reading, ClientEvent::Read(read)) => match command(text::read_view(read)) {
            Ok(bytes) => if bytes == screenshot_command() {
                next == ClientPhase::Submitting && action == ClientAction::Submit
            } else {
                next == ClientPhase::Closed && replies_error(
                    action,
                    "expected `screenshot` command"@,
                )
            },
            Err(reason) => next == ClientPhase::Closed && replies_error(action, reason),
        },
        (ClientPhase::Submitting, ClientEvent::Submitted) => next == ClientPhase::Waiting && action
            == ClientAction::AwaitAnswer,
        (ClientPhase::Submitting, ClientEvent::QueueClosed) => next == ClientPhase::Closed
            && replies_error(action, "application is not accepting screenshot requests"@),
        (ClientPhase::Waiting, ClientEvent::Answered(answer)) => passes_on(answer, next, action),
        (ClientPhase::Waiting, ClientEvent::TimedOut) => next == ClientPhase::Closed
            && replies_error(action, "screenshot request timed out"@),
        (ClientPhase::Waiting, ClientEvent::Disconnected) => next == ClientPhase::Closed
            && replies_error(action, "application stopped before the screenshot was ready"@),
        (ClientPhase::Sending, ClientEvent::Sent(sent)) => next == ClientPhase::Closed
            && match sent {
            Ok(_) => action == ClientAction::Close,
            Err(error) => action matches ClientAction::Report(text) && text@
                == "screenshot socket write error: "@ + error@,
        },
        _ => next == ClientPhase::Closed && action == ClientAction::Close,
    }
}

/// Begins to serve a client that has connected.
pub fn open_client() -> (opened: (ClientPhase, ClientAction))
    ensures
        opened == (ClientPhase::SettingReadTimeout, ClientAction::SetReadTimeout),
{
    (ClientPhase::SettingReadTimeout, ClientAction::SetReadTimeout)
}

/// Tells the client why there is no screenshot, which ends its connection.
fn refuse(reason: &str) -> (closing: (ClientPhase, ClientAction))
    ensures
        closing.0 == ClientPhase::Closed,
        replies_error(closing.1, reason@),
{
    (ClientPhase::Closed, ClientAction::Reply(write_error(reason)))
}

/// Serves a client: says what is done after `event`.
pub fn handle_client(phase: ClientPhase, event: ClientEvent) -> (step: (ClientPhase, ClientAction))
    requires
        event matches ClientEvent::Answered(answer) ==> (answer matches Ok(screenshot)
            ==> screenshot.fits()),
    ensures
        client_step(phase, event, step.0, step.1),
{
    match (phase, event) {
        (ClientPhase::SettingReadTimeout, ClientEvent::TimeoutSet(set)) => match set {
            Ok(_) => (ClientPhase::SettingWriteTimeout, ClientAction::SetWriteTimeout),
            Err(error) => (
                ClientPhase::Closed,
                ClientAction::Report(
                    "screenshot socket could not set read timeout: ".to_owned().concat(
                        error.as_str(),
                    ),
                ),
            ),
        },
        (ClientPhase::SettingWriteTimeout, ClientEvent::TimeoutSet(set)) => match set {
            Ok(_) => (ClientPhase::Reading, ClientAction::ReadCommand(MAX_COMMAND_BYTES + 1)),
            Err(error) => (
                ClientPhase::Closed,
                ClientAction::Report(
                    "screenshot socket could not set write timeout: ".to_owned().concat(
                        error.as_str(),
                    ),
                ),
            ),
        },
        (ClientPhase::Reading, ClientEvent::Read(read)) => match read_command(read) {
            Ok(bytes) => if text::same_bytes(bytes.as_slice(), "screenshot".as_bytes()) {
                (ClientPhase::Submitting, ClientAction::Submit)
            } else {
                refuse("expected `screenshot` command")
            },
            Err(reason) => refuse(reason.as_str()),
        },
        (ClientPhase::Submitting, ClientEvent::Submitted) => (
            ClientPhase::Waiting,
            ClientAction::AwaitAnswer,
        ),
        (ClientPhase::Submitting, ClientEvent::QueueClosed) => refuse(
            "application is not accepting screenshot requests",
        ),
        (ClientPhase::Waiting, ClientEvent::Answered(answer)) => match answer {
            Ok(screenshot) => match encode_png(&screenshot) {
                Ok(png) => (ClientPhase::Sending, ClientAction::SendImage(png)),
                Err(reason) => refuse(reason.as_str()),
            },
            Err(reason) => refuse(reason.as_str()),
        },
        (ClientPhase::Waiting, ClientEvent::TimedOut) => refuse("screenshot request timed out"),
        (ClientPhase::Waiting, ClientEvent::Disconnected) => refuse(
            "application stopped before the screenshot was ready",
        ),
        (ClientPhase::Sending, ClientEvent::Sent(sent)) => match sent {
            Ok(_) => (ClientPhase::Closed, ClientAction::Close),
            Err(error) => (
                ClientPhase::Closed,
                ClientAction::Report(
                    "screenshot socket write error: ".to_owned().concat(error.as_str()),
                ),
            ),
        },
        _ => (ClientPhase::Closed, ClientAction::Close),
    }
}

/// A line asks for a screenshot if and only if it is `screenshot`, ended by a line feed
/// or by a carriage return and a line feed.
pub proof fn law_only_screenshot_is_accepted(bytes: Seq<u8>)
    ensures
        command(Ok(bytes)) == Ok::<Seq<u8>, Seq<char>>(screenshot_command()) <==> (bytes
            == screenshot_command().push(text::NEWLINE) || bytes == screenshot_command().push(
            CARRIAGE_RETURN,
        ).push(text::NEWLINE)),
{
    let wanted = screenshot_command();
    lemma_screenshot_command();
    if command(Ok(bytes)) == Ok::<Seq<u8>, Seq<char>>(wanted) {
        let body = bytes.drop_last();
        assert(bytes =~= body.push(text::NEWLINE));
        if body.len() > 0 && body.last() == CARRIAGE_RETURN {
            assert(body =~= wanted.push(CARRIAGE_RETURN));
        }
    }
    assert(wanted.push(text::NEWLINE).drop_last() =~= wanted);
    assert(wanted.push(CARRIAGE_RETURN).push(text::NEWLINE).drop_last() =~= wanted.push(
        CARRIAGE_RETURN,
    ));
    assert(wanted.push(CARRIAGE_RETURN).drop_last() =~= wanted);
}

/// The command has ten bytes, the last of which is `t`.
proof fn lemma_screenshot_command()
    ensures
        screenshot_command().len() == 10,
        screenshot_command().last() == 116,
{
    reveal_strlit("screenshot");
    is_ascii_chars_encode_utf8("screenshot"@);
    assert("screenshot"@[9] == 't');
}

/// A client can tell by the first eight bytes whether it got an image: the line that
/// tells of an error never begins as a PNG image does.
pub proof fn law_errors_are_no_images(reason: Seq<char>)
    ensures
        error_line(reason).len() > 0,
        error_line(reason)[0] == 69,
        !png_signature().is_prefix_of(error_line(reason)),
{
    reveal_strlit("ERR ");
    let chars = "ERR "@ + reason + "\n"@;
    assert(chars[0] == 'E');
    let scalar: u32 = chars[0] as u32;
    assert(scalar == 69);
    assert((69u32 & 0x7F) as u8 == 69) by (bit_vector);
    assert(encode_scalar(scalar) =~= seq![69u8]);
    assert(error_line(reason)[0] == 69);
    assert(png_signature()[0] == 137);
}

/// The line that tells of an error holds one line feed, at its end, if the reason holds
/// none.
pub proof fn law_error_is_one_line(reason: Seq<char>)
    requires
        !reason.contains('\n'),
    ensures
        error_line(reason).len() > 0,
        error_line(reason).last() == text::NEWLINE,
        !error_line(reason).drop_last().contains(text::NEWLINE),
{
    reveal_strlit("ERR ");
    reveal_strlit("\n");
    let head = "ERR "@ + reason;
    assert forall|i: int| 0 <= i < head.len() implies head[i] != '\n' by {
        if i >= 4 {
            assert(head[i] == reason[i - 4]);
        }
    }
    text::lemma_encode_newline(head);
    text::lemma_encode_concat(head, "\n"@);
    is_ascii_chars_encode_utf8("\n"@);
    assert("\n"@[0] == '\n');
    assert(encode_utf8("\n"@) =~= seq![text::NEWLINE]);
    assert(error_line(reason).drop_last() =~= encode_utf8(head));
}

/// One step of the serving of a client.
pub struct ClientStep {
    pub phase: ClientPhase,
    pub event: ClientEvent,
    pub next: ClientPhase,
    pub action: ClientAction,
}

/// Whether `steps` are what happens to a client from when it has connected.
pub open spec fn client_run(steps: Seq<ClientStep>) -> bool {
    &&& steps.len() > 0 ==> steps[0].phase == ClientPhase::SettingReadTimeout
    &&& forall|i: int|
        #![trigger steps[i]]
        0 <= i < steps.len() ==> client_step(
            steps[i].phase,
            steps[i].event,
            steps[i].next,
            steps[i].action,
        )
    &&& forall|i: int|
        #![trigger steps[i]]
        0 < i < steps.len() ==> steps[i].phase == steps[i - 1].next
}

/// How many steps the serving of a client takes from `phase`, at most.
pub open spec fn steps_left(phase: ClientPhase) -> int {
    match phase {
        ClientPhase::SettingReadTimeout => 6,
        ClientPhase::SettingWriteTimeout => 5,
        ClientPhase::Reading => 4,
        ClientPhase::Submitting => 3,
        ClientPhase::Waiting => 2,
        ClientPhase::Sending => 1,
        ClientPhase::Closed => 0,
    }
}

/// Whether `event` is an answer to what was asked in `phase`.
pub open spec fn answers(phase: ClientPhase, event: ClientEvent) -> bool {
    match phase {
        ClientPhase::SettingReadTimeout => event is TimeoutSet,
        ClientPhase::SettingWriteTimeout => event is TimeoutSet,
        ClientPhase::Reading => event is Read,
        ClientPhase::Submitting => event is Submitted || event is QueueClosed,
        ClientPhase::Waiting => event is Answered || event is TimedOut || event is Disconnected,
        ClientPhase::Sending => event is Sent,
        ClientPhase::Closed => false,
    }
}

/// Whether an action sends the client something.
pub open spec fn is_reply(action: ClientAction) -> bool {
    action is Reply || action is SendImage
}

/// Once the client was sent something, nothing more is sent.
proof fn lemma_nothing_more(steps: Seq<ClientStep>, from: int, to: int)
    requires
        client_run(steps),
        0 <= from < to < steps.len(),
        steps[from].next == ClientPhase::Closed || steps[from].next == ClientPhase::Sending,
    ensures
        steps[to].next == ClientPhase::Closed,
        !is_reply(steps[to].action),
    decreases to - from,
{
    if to > from + 1 {
        lemma_nothing_more(steps, from, to - 1);
    }
    assert(steps[to].phase == steps[to - 1].next);
}

/// A client gets one reply at most.
pub proof fn law_one_reply(steps: Seq<ClientStep>, first: int, second: int)
    requires
        client_run(steps),
        0 <= first < second < steps.len(),
        is_reply(steps[first].action),
    ensures
        !is_reply(steps[second].action),
{
    assert(client_step(
        steps[first].phase,
        steps[first].event,
        steps[first].next,
        steps[first].action,
    ));
    lemma_nothing_more(steps, first, second);
}

/// Every connection is closed, after six steps at the latest.
pub proof fn law_every_connection_closes(steps: Seq<ClientStep>, index: int)
    requires
        client_run(steps),
        0 <= index < steps.len(),
    ensures
        steps_left(steps[index].next) <= 5 - index || steps[index].next == ClientPhase::Closed,
        index >= 5 ==> steps[index].next == ClientPhase::Closed,
    decreases index,
{
    if index > 0 {
        law_every_connection_closes(steps, index - 1);
        assert(steps[index].phase == steps[index - 1].next);
    }
    assert(client_step(
        steps[index].phase,
        steps[index].event,
        steps[index].next,
        steps[index].action,
    ));
}

/// A client whose timeouts could be set is not closed before it was sent a reply.
pub proof fn law_reply_is_owed(
    phase: ClientPhase,
    event: ClientEvent,
    next: ClientPhase,
    action: ClientAction,
)
    requires
        client_step(phase, event, next, action),
        answers(phase, event),
        phase == ClientPhase::Reading || phase == ClientPhase::Submitting || phase
            == ClientPhase::Waiting,
    ensures
        is_reply(action) || next == ClientPhase::Submitting || next == ClientPhase::Waiting,
        next == ClientPhase::Closed ==> action is Reply,
{
}

/// A client gets an image only as the application's answer to its request: whatever it is sent
/// that begins as a PNG image does is the encoding of a screenshot that the application took,
/// and is decoded to that screenshot's size and pixels.
pub proof fn law_images_are_answers(
    phase: ClientPhase,
    event: ClientEvent,
    next: ClientPhase,
    action: ClientAction,
    bytes: Vec<u8>,
)
    requires
        client_step(phase, event, next, action),
        action == ClientAction::Reply(bytes) || action == ClientAction::SendImage(bytes),
        png_signature().is_prefix_of(bytes@),
    ensures
        phase == ClientPhase::Waiting,
        event matches ClientEvent::Answered(Ok(screenshot)) && png_answer(screenshot) == Ok::<
            Seq<u8>,
            Seq<char>,
        >(bytes@) && shows(bytes@, screenshot),
{
    assert forall|reason: Seq<char>| bytes@ != #[trigger] error_line(reason) by {
        law_errors_are_no_images(reason);
    }
}

/// An image is owed: a screenshot with a width, a height and four bytes for each of its pixels
/// is answered with the image that the encoder made, and with an error only if the encoder
/// failed, with its reason. That the dimensions are invalid is answered exactly for screenshots
/// without pixels, or with more or fewer bytes than they take.
pub proof fn law_an_image_is_owed(screenshot: CapturedScreenshot)
    ensures
        screenshot.width > 0 && screenshot.height > 0 && screenshot.rgba@.len() == screenshot.width
            * screenshot.height * 4 ==> match png_encoding(
            screenshot.width,
            screenshot.height,
            screenshot.rgba@,
        ) {
            Ok(png) => png_answer(screenshot) == Ok::<Seq<u8>, Seq<char>>(png),
            Err(PngErrorView::Header(error)) => png_answer(screenshot) == Err::<
                Seq<u8>,
                Seq<char>,
            >("could not encode PNG header: "@ + error),
            Err(PngErrorView::Data(error)) => png_answer(screenshot) == Err::<Seq<u8>, Seq<char>>(
                "could not encode PNG data: "@ + error,
            ),
        },
        png_answer(screenshot) == Err::<Seq<u8>, Seq<char>>(
            "screenshot has invalid RGBA dimensions"@,
        ) <==> screenshot.width == 0 || screenshot.height == 0 || screenshot.rgba@.len()
            != screenshot.width * screenshot.height * 4,
{
    reveal_strlit("screenshot has invalid RGBA dimensions");
    reveal_strlit("could not encode PNG header: ");
    reveal_strlit("could not encode PNG data: ");
    assert("screenshot has invalid RGBA dimensions"@[0] == 's');
    assert forall|error: Seq<char>|
        #![trigger "could not encode PNG header: "@ + error]
        ("could not encode PNG header: "@ + error)[0] == 'c' by {}
    assert forall|error: Seq<char>|
        #![trigger "could not encode PNG data: "@ + error]
        ("could not encode PNG data: "@ + error)[0] == 'c' by {}
}

/// An encoded image of a screenshot tells which one it is: two screenshots with pixels that are
/// answered with the same image have the same size and the same pixels.
pub proof fn law_images_tell_their_screenshots(
    bytes: Seq<u8>,
    screenshot: CapturedScreenshot,
    other: CapturedScreenshot,
)
    requires
        shows(bytes, screenshot),
        shows(bytes, other),
    ensures
        screenshot.width == other.width,
        screenshot.height == other.height,
        screenshot.rgba@ == other.rgba@,
{
    assert(rgba_image(screenshot.width, screenshot.height, screenshot.rgba@).pixels
        == rgba_image(other.width, other.height, other.rgba@).pixels);
}

/// An image begins with the eight bytes of the format, then has the header with its width, its
/// height and the numbers of eight-bit RGBA, not interlaced, and ends with the end chunk.
#[verifier::rlimit(40)]
pub proof fn law_images_have_their_size_in_the_header(bytes: Seq<u8>, width: u32, height: u32)
    requires
        is_png(bytes, width, height),
    ensures
        bytes.len() >= 41,
        bytes.take(8) == seq![137u8, 80, 78, 71, 13, 10, 26, 10],
        bytes.subrange(8, 16) == seq![0u8, 0, 0, 13, 73, 72, 68, 82],
        bytes[16] * 0x100_0000 + bytes[17] * 0x1_0000 + bytes[18] * 0x100 + bytes[19] == width,
        bytes[20] * 0x100_0000 + bytes[21] * 0x1_0000 + bytes[22] * 0x100 + bytes[23] == height,
        bytes.subrange(24, 29) == seq![8u8, 6, 0, 0, 0],
        bytes.skip(bytes.len() - 12) == seq![0u8, 0, 0, 0, 73, 69, 78, 68, 174, 66, 96, 130],
{
    let head = png_head(width, height);
    assert forall|i: int| 0 <= i < head.len() implies bytes[i] == head[i] by {
        assert(bytes.take(head.len() as int) =~= head);
        assert(bytes.take(head.len() as int)[i] == head[i]);
    }
    lemma_big_endian(width, bytes, 16);
    lemma_big_endian(height, bytes, 20);
    assert(bytes.take(8) =~= seq![137u8, 80, 78, 71, 13, 10, 26, 10]);
    assert(bytes.subrange(8, 16) =~= seq![0u8, 0, 0, 13, 73, 72, 68, 82]);
    assert(bytes.subrange(24, 29) =~= seq![8u8, 6, 0, 0, 0]);
    assert(bytes.skip(bytes.len() - 12) =~= png_end());
}

/// A decoded image is a screenshot exactly if its pixels are eight-bit RGBA, and then has its
/// size and pixels; and bytes whose header asks for more than memory can hold are none.
pub proof fn law_only_rgba_images_are_screenshots(image: ImageView, bytes: Seq<u8>)
    ensures
        image.color == 6 && image.depth == 8 ==> image_screenshot(Some(image)) == Some(
            (image.width, image.height, image.pixels),
        ),
        image.color != 6 || image.depth != 8 ==> image_screenshot(Some(image)) is None,
        image_screenshot(None) is None,
        pictured(bytes) is Some ==> declared_len(bytes) <= isize::MAX && pictured(bytes)
            == image_screenshot(decoded_png(bytes)),
        declared_len(bytes) <= isize::MAX ==> pictured(bytes) == image_screenshot(
            decoded_png(bytes),
        ),
        bytes.len() < 25 ==> declared_len(bytes) == 0,
        bytes.len() >= 25 ==> 0 <= declared_len(bytes) <= from_big_endian(bytes, 16)
            * from_big_endian(bytes, 20) * 8,
{
    if bytes.len() >= 25 {
        let pixels = from_big_endian(bytes, 16) * from_big_endian(bytes, 20);
        assert(pixels >= 0) by (nonlinear_arith)
            requires
                pixels == from_big_endian(bytes, 16) * from_big_endian(bytes, 20),
                from_big_endian(bytes, 16) >= 0,
                from_big_endian(bytes, 20) >= 0,
        ;
    }
}

/// A line of at most 64 bytes gives the command before its line feed, less one carriage return
/// right before that; anything else gives the reason why there is no command.
pub proof fn law_commands_are_lines(body: Seq<u8>, bytes: Seq<u8>, error: Seq<char>)
    ensures
        body.len() <= 63 && (body.len() == 0 || body.last() != 13u8) ==> command(
            Ok(body.push(10u8)),
        ) == Ok::<Seq<u8>, Seq<char>>(body),
        body.len() <= 62 ==> command(Ok(body.push(13u8).push(10u8))) == Ok::<Seq<u8>, Seq<char>>(
            body,
        ),
        bytes.len() == 0 ==> command(Ok(bytes)) == Err::<Seq<u8>, Seq<char>>("empty request"@),
        bytes.len() > 64 || (bytes.len() > 0 && bytes.last() != 10u8) ==> command(Ok(bytes))
            == Err::<Seq<u8>, Seq<char>>("request must be a line no longer than 64 bytes"@),
        command(Err(error)) == Err::<Seq<u8>, Seq<char>>("could not read request: "@ + error),
{
    assert(body.push(10u8).drop_last() =~= body);
    assert(body.push(13u8).push(10u8).drop_last() =~= body.push(13u8));
    assert(body.push(13u8).drop_last() =~= body);
}

/// A reason is told as `ERR `, the reason in UTF-8 and a line feed.
pub proof fn law_reasons_are_told_as_they_are(reason: Seq<char>)
    ensures
        error_line(reason) == seq![69u8, 82, 82, 32] + encode_utf8(reason) + seq![10u8],
{
    reveal_strlit("ERR ");
    reveal_strlit("\n");
    text::lemma_encode_concat("ERR "@ + reason, "\n"@);
    text::lemma_encode_concat("ERR "@, reason);
    is_ascii_chars_encode_utf8("ERR "@);
    is_ascii_chars_encode_utf8("\n"@);
    assert("ERR "@[0] == 'E' && "ERR "@[1] == 'R' && "ERR "@[2] == 'R' && "ERR "@[3] == ' ');
    assert("\n"@[0] == '\n');
    assert(encode_utf8("ERR "@) =~= seq![69u8, 82, 82, 32]);
    assert(encode_utf8("\n"@) =~= seq![10u8]);
}

/// The command is the ten letters of `screenshot`.
proof fn lemma_screenshot_bytes()
    ensures
        screenshot_command() == seq![115u8, 99, 114, 101, 101, 110, 115, 104, 111, 116],
{
    reveal_strlit("screenshot");
    is_ascii_chars_encode_utf8("screenshot"@);
    assert("screenshot"@[0] == 's' && "screenshot"@[1] == 'c' && "screenshot"@[2] == 'r'
        && "screenshot"@[3] == 'e' && "screenshot"@[4] == 'e' && "screenshot"@[5] == 'n'
        && "screenshot"@[6] == 's' && "screenshot"@[7] == 'h' && "screenshot"@[8] == 'o'
        && "screenshot"@[9] == 't');
    assert(screenshot_command() =~= seq![115u8, 99, 114, 101, 101, 110, 115, 104, 111, 116]);
}

/// Whether `action` tells the client the reason in one line, after which the connection ends.
pub open spec fn tells(action: ClientAction, reason: Seq<char>) -> bool {
    action matches ClientAction::Reply(bytes) && bytes@ == seq![69u8, 82, 82, 32] + encode_utf8(
        reason,
    ) + seq![10u8]
}

/// A screenshot is asked of the application exactly if the client sent the line `screenshot`,
/// ended by a line feed or a carriage return and a line feed; else the client is told why not.
#[verifier::rlimit(40)]
pub proof fn law_only_the_command_asks_for_a_screenshot(
    bytes: Vec<u8>,
    next: ClientPhase,
    action: ClientAction,
)
    requires
        client_step(ClientPhase::Reading, ClientEvent::Read(Ok(bytes)), next, action),
    ensures
        action is Submit <==> bytes@ == seq![
            115u8,
            99,
            114,
            101,
            101,
            110,
            115,
            104,
            111,
            116,
            10,
        ] || bytes@ == seq![115u8, 99, 114, 101, 101, 110, 115, 104, 111, 116, 13, 10],
        action is Submit <==> next == ClientPhase::Submitting,
        bytes@.len() == 0 ==> tells(action, "empty request"@),
        bytes@.len() > 64 || (bytes@.len() > 0 && bytes@.last() != 10u8) ==> tells(
            action,
            "request must be a line no longer than 64 bytes"@,
        ),
        0 < bytes@.len() <= 64 && bytes@.last() == 10u8 && !(action is Submit) ==> tells(
            action,
            "expected `screenshot` command"@,
        ),
        !(action is Submit) ==> next == ClientPhase::Closed,
{
    let wanted = screenshot_command();
    lemma_screenshot_bytes();
    law_only_screenshot_is_accepted(bytes@);
    law_commands_are_lines(Seq::empty(), bytes@, Seq::empty());
    law_reasons_are_told_as_they_are("empty request"@);
    law_reasons_are_told_as_they_are("request must be a line no longer than 64 bytes"@);
    law_reasons_are_told_as_they_are("expected `screenshot` command"@);
    assert(wanted.push(10u8) =~= seq![115u8, 99, 114, 101, 101, 110, 115, 104, 111, 116, 10]);
    assert(wanted.push(13u8).push(10u8) =~= seq![
        115u8,
        99,
        114,
        101,
        101,
        110,
        115,
        104,
        111,
        116,
        13,
        10,
    ]);
}

/// A client that waits gets what the application answered: of a screenshot with pixels the
/// image, from which its size and pixels are decoded, unless the encoder failed; of one
/// without, that its dimensions are invalid; and the application's own reason as it is.
#[verifier::rlimit(40)]
pub proof fn law_answers_are_passed_on(
    answer: Result<CapturedScreenshot, String>,
    next: ClientPhase,
    action: ClientAction,
)
    requires
        client_step(ClientPhase::Waiting, ClientEvent::Answered(answer), next, action),
    ensures
        answer matches Err(reason) ==> tells(action, reason@) && next == ClientPhase::Closed,
        answer matches Ok(screenshot) ==> {
            let sound = screenshot.width > 0 && screenshot.height > 0 && screenshot.rgba@.len()
                == screenshot.width * screenshot.height * 4;
            let encoding = png_encoding(
                screenshot.width,
                screenshot.height,
                screenshot.rgba@,
            );
            &&& action is SendImage <==> sound && encoding is Ok
            &&& action is SendImage <==> next == ClientPhase::Sending
            &&& action matches ClientAction::SendImage(image) ==> encoding == Ok::<
                Seq<u8>,
                PngErrorView,
            >(image@) && decoded_png(image@) == Some(
                ImageView {
                    width: screenshot.width,
                    height: screenshot.height,
                    color: 6,
                    depth: 8,
                    pixels: screenshot.rgba@,
                },
            )
            &&& !(action is SendImage) ==> next == ClientPhase::Closed
            &&& !sound ==> tells(action, "screenshot has invalid RGBA dimensions"@)
            &&& sound && encoding is Err ==> match encoding->Err_0 {
                PngErrorView::Header(error) => tells(
                    action,
                    "could not encode PNG header: "@ + error,
                ),
                PngErrorView::Data(error) => tells(action, "could not encode PNG data: "@ + error),
            }
        },
{
    match answer {
        Err(reason) => {
            law_reasons_are_told_as_they_are(reason@);
        },
        Ok(screenshot) => {
            law_an_image_is_owed(screenshot);
            if let Err(reason) = png_answer(screenshot) {
                law_reasons_are_told_as_they_are(reason);
            }
        },
    }
}

/// A client is told what happened to its request, and served in this order: its timeouts are
/// set, its command is read, up to one byte more than is allowed, and submitted, and the answer
/// is waited for. What cannot be set or sent is reported.
#[verifier::rlimit(40)]
pub proof fn law_clients_are_told_what_happened(
    phase: ClientPhase,
    event: ClientEvent,
    next: ClientPhase,
    action: ClientAction,
)
    requires
        client_step(phase, event, next, action),
    ensures
        phase == ClientPhase::SettingReadTimeout && event == ClientEvent::TimeoutSet(Ok(()))
            ==> next == ClientPhase::SettingWriteTimeout && action
            == ClientAction::SetWriteTimeout,
        phase == ClientPhase::SettingWriteTimeout && event == ClientEvent::TimeoutSet(Ok(()))
            ==> next == ClientPhase::Reading && action == ClientAction::ReadCommand(65),
        phase == ClientPhase::SettingReadTimeout ==> (event matches ClientEvent::TimeoutSet(
            Err(error),
        ) ==> next == ClientPhase::Closed && (action matches ClientAction::Report(text) && text@
            == "screenshot socket could not set read timeout: "@ + error@)),
        phase == ClientPhase::SettingWriteTimeout ==> (event matches ClientEvent::TimeoutSet(
            Err(error),
        ) ==> next == ClientPhase::Closed && (action matches ClientAction::Report(text) && text@
            == "screenshot socket could not set write timeout: "@ + error@)),
        phase == ClientPhase::Reading ==> (event matches ClientEvent::Read(Err(error)) ==> next
            == ClientPhase::Closed && tells(action, "could not read request: "@ + error@)),
        phase == ClientPhase::Submitting && event is Submitted ==> next == ClientPhase::Waiting
            && action == ClientAction::AwaitAnswer,
        phase == ClientPhase::Submitting && event is QueueClosed ==> next == ClientPhase::Closed
            && tells(action, "application is not accepting screenshot requests"@),
        phase == ClientPhase::Waiting && event is TimedOut ==> next == ClientPhase::Closed
            && tells(action, "screenshot request timed out"@),
        phase == ClientPhase::Waiting && event is Disconnected ==> next == ClientPhase::Closed
            && tells(action, "application stopped before the screenshot was ready"@),
        phase == ClientPhase::Sending && event == ClientEvent::Sent(Ok(())) ==> next
            == ClientPhase::Closed && action == ClientAction::Close,
        phase == ClientPhase::Sending ==> (event matches ClientEvent::Sent(Err(error)) ==> next
            == ClientPhase::Closed && (action matches ClientAction::Report(text) && text@
            == "screenshot socket write error: "@ + error@)),
        !answers(phase, event) ==> next == ClientPhase::Closed && action == ClientAction::Close,
        action is AwaitAnswer ==> phase == ClientPhase::Submitting && event is Submitted,
        next == ClientPhase::Closed <==> action is Reply || action is Report || action is Close,
{
    law_reasons_are_told_as_they_are("application is not accepting screenshot requests"@);
    law_reasons_are_told_as_they_are("screenshot request timed out"@);
    law_reasons_are_told_as_they_are("application stopped before the screenshot was ready"@);
    if let ClientEvent::Read(Err(error)) = event {
        law_reasons_are_told_as_they_are("could not read request: "@ + error@);
    }
}

/// The limits of the service: commands of 64 bytes, ten seconds for a client to send its command
/// and to get its answer, and screenshots whose number of bytes can be computed.
pub proof fn law_limits_of_the_service(screenshot: CapturedScreenshot)
    ensures
        MAX_COMMAND_BYTES == 64,
        CLIENT_TIMEOUT_SECONDS == 10,
        screenshot.fits() <==> screenshot.width * screenshot.height * 4 <= usize::MAX,
{
}

/// A response goes to the client that waits for it, as the application gave it.
pub proof fn law_responses_reach_their_client<S>(
    request: ScreenshotRequest<S>,
    result: Result<CapturedScreenshot, String>,
)
    ensures
        addressed(request, result).to == request.response,
        addressed(request, result).result == result,
{
}

} // verus!
