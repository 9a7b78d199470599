//! Command encoding and response decoding for the Riing Quad HID protocol.
use vstd::prelude::*;

verus! {

/// Length of every response report sent back by a controller.
pub const RESPONSE_LEN: usize = 193;

/// Status byte that a controller answers with on success.
pub const STATUS_OK: u8 = 0xFC;

/// RGB mode that paints a whole fan in one static color.
pub const MODE_FULL_STATIC: u8 = 0x24;

/// Number of color triplets written with every RGB frame.
pub const RGB_TRIPLETS: usize = 52;

/// Offset of the status byte in a response.
pub const STATUS_OFFSET: usize = 2;

/// A request understood by the controller.
#[derive(Clone, Debug)]
pub enum Command {
    Init,
    GetFirmwareVersion,
    GetData { port: u8 },
    SetSpeed { port: u8, speed: u8 },
    /// Colors are `(green, red, blue)` triplets, in wire order.
    SetRgb { port: u8, mode: u8, colors: Vec<(u8, u8, u8)> },
}

/// A decoded controller answer.
#[derive(Debug, PartialEq, Eq, Structural, Clone, Copy)]
pub enum Response {
    Status(u8),
    FirmwareVersion { major: u8, minor: u8, patch: u8 },
    Data { speed: u8, rpm: u16 },
}

/// Failures of a request/response exchange with a controller.
#[derive(Debug, PartialEq, Eq, Clone)]
pub enum DeviceError {
    /// The device could not be opened.
    OpenFailed(String),
    /// The transport reported an error.
    Transport(String),
    /// Fewer bytes arrived than were asked for.
    IncompleteRead,
    /// The status byte was not the success value.
    InvalidStatus { expected: u8, got: u8 },
    /// The response buffer is too short to hold the decoded fields.
    ResponseTooShort { expected: usize, got: usize },
    /// The response is of another kind than the command asks for.
    UnexpectedResponse,
}

/// Wire bytes of a sequence of color triplets.
pub open spec fn colors_bytes(colors: Seq<(u8, u8, u8)>) -> Seq<u8>
    decreases colors.len(),
{
    if colors.len() == 0 {
        Seq::empty()
    } else {
        let c = colors.last();
        colors_bytes(colors.drop_last()) + seq![c.0, c.1, c.2]
    }
}

/// Wire bytes of a command, report id first.
pub open spec fn command_bytes(c: Command) -> Seq<u8> {
    match c {
        Command::Init => seq![0x00u8, 0xFEu8, 0x33u8],
        Command::GetFirmwareVersion => seq![0x00u8, 0x33u8, 0x50u8],
        Command::GetData { port } => seq![0x00u8, 0x33u8, 0x51u8, port],
        Command::SetSpeed { port, speed } => seq![0x00u8, 0x32u8, 0x51u8, port, 0x01u8, speed],
        Command::SetRgb { port, mode, colors } => seq![0x00u8, 0x32u8, 0x52u8, port, mode]
            + colors_bytes(colors@),
    }
}

/// Little-endian 16-bit value of two bytes.
pub open spec fn le_u16(lo: u8, hi: u8) -> u16 {
    (hi as int * 256 + lo as int) as u16
}

/// What a response buffer decodes to for a command.
pub open spec fn parse_spec(cmd: Command, buf: Seq<u8>) -> Result<Response, DeviceError> {
    match cmd {
        Command::GetFirmwareVersion => if buf.len() < 3 {
            Err(DeviceError::ResponseTooShort { expected: 3, got: buf.len() as usize })
        } else {
            Ok(Response::FirmwareVersion { major: buf[0], minor: buf[1], patch: buf[2] })
        },
        Command::GetData { .. } => if buf.len() < 5 {
            Err(DeviceError::ResponseTooShort { expected: 5, got: buf.len() as usize })
        } else {
            Ok(Response::Data { speed: buf[2], rpm: le_u16(buf[3], buf[4]) })
        },
        _ => if buf.len() < 3 {
            Err(DeviceError::ResponseTooShort { expected: 3, got: buf.len() as usize })
        } else {
            Ok(Response::Status(buf[2]))
        },
    }
}

impl Command {
    /// Encodes the command into the bytes written to the device.
    pub fn to_bytes(&self) -> (r: Vec<u8>)
        requires
            match *self {
                Command::SetRgb { colors, .. } => 5 + 3 * colors@.len() <= usize::MAX,
                _ => true,
            },
        ensures
            r@ == command_bytes(*self),
    {
        match self {
            Command::Init => vec![0x00, 0xFE, 0x33],
            Command::GetFirmwareVersion => vec![0x00, 0x33, 0x50],
            Command::GetData { port } => vec![0x00, 0x33, 0x51, *port],
            Command::SetSpeed { port, speed } => vec![0x00, 0x32, 0x51, *port, 0x01, *speed],
            Command::SetRgb { port, mode, colors } => {
                let mut buf: Vec<u8> = vec![0x00, 0x32, 0x52, *port, *mode];
                let ghost head = buf@;
                let mut i: usize = 0;
                while i < colors.len()
                    invariant
                        i <= colors@.len(),
                        head == seq![0x00u8, 0x32u8, 0x52u8, *port, *mode],
                        buf@ == head + colors_bytes(colors@.take(i as int)),
                    decreases colors@.len() - i,
                {
                    let (g, r, b) = colors[i];
                    buf.push(g);
                    buf.push(r);
                    buf.push(b);
                    proof {
                        assert(colors@.take(i + 1).drop_last() =~= colors@.take(i as int));
                    }
                    i = i + 1;
                }
                proof {
                    assert(colors@.take(i as int) =~= colors@);
                }
                buf
            },
        }
    }

    /// Length of the response buffer the device answers with.
    pub fn expected_response_len(&self) -> (r: usize)
        ensures
            r == RESPONSE_LEN,
    {
        RESPONSE_LEN
    }
}

impl Response {
    /// Decodes a response buffer read after sending `cmd`.
    pub fn parse(cmd: Command, buf: &[u8]) -> (r: Result<Response, DeviceError>)
        ensures
            r == parse_spec(cmd, buf@),
    {
        match cmd {
            Command::GetFirmwareVersion => {
                if buf.len() < 3 {
                    return Err(DeviceError::ResponseTooShort { expected: 3, got: buf.len() });
                }
                Ok(Response::FirmwareVersion { major: buf[0], minor: buf[1], patch: buf[2] })
            },
            Command::GetData { .. } => {
                if buf.len() < 5 {
                    return Err(DeviceError::ResponseTooShort { expected: 5, got: buf.len() });
                }
                let rpm: u16 = (buf[4] as u16) * 256 + (buf[3] as u16);
                Ok(Response::Data { speed: buf[2], rpm })
            },
            _ => {
                if buf.len() < 3 {
                    return Err(DeviceError::ResponseTooShort { expected: 3, got: buf.len() });
                }
                Ok(Response::Status(buf[STATUS_OFFSET]))
            },
        }
    }
}

/// The six-byte speed packet for a channel, as a fixed-size array.
pub fn build_package(channel: u8, value: u8) -> (r: [u8; 6])
    ensures
        r@ == command_bytes(Command::SetSpeed { port: channel, speed: value }),
{
    let r = [0x00, 0x32, 0x51, channel, 0x01, value];
    assert(r@ =~= seq![0x00u8, 0x32u8, 0x51u8, channel, 0x01u8, value]);
    r
}


/// Bytes of the full-report color packet: a header, then `RGB_TRIPLETS`
/// triplets of green, red, blue, the rest zero.
pub open spec fn color_package_byte(channel: u8, green: u8, red: u8, blue: u8, k: int) -> u8 {
    if k == 0 {
        0x00u8
    } else if k == 1 {
        0x32u8
    } else if k == 2 {
        0x52u8
    } else if k == 3 {
        channel
    } else if k == 4 {
        MODE_FULL_STATIC
    } else if 5 <= k < 5 + 3 * RGB_TRIPLETS {
        if (k - 5) % 3 == 0 {
            green
        } else if (k - 5) % 3 == 1 {
            red
        } else {
            blue
        }
    } else {
        0x00u8
    }
}

/// The full-report color packet for a channel.
pub fn build_color_package(channel: u8, green: u8, red: u8, blue: u8) -> (r: [u8; 193])
    ensures
        forall|k: int| 0 <= k < 193 ==> r[k] == color_package_byte(channel, green, red, blue, k),
{
    let mut package: [u8; 193] = [0u8; 193];
    package[1] = 0x32;
    package[2] = 0x52;
    package[3] = channel;
    package[4] = MODE_FULL_STATIC;
    let mut i: usize = 0;
    while i < 3 * RGB_TRIPLETS
        invariant
            i % 3 == 0,
            i <= 3 * RGB_TRIPLETS,
            package[0] == 0,
            package[1] == 0x32,
            package[2] == 0x52,
            package[3] == channel,
            package[4] == MODE_FULL_STATIC,
            forall|k: int| 5 <= k < 5 + i ==> package[k] == color_package_byte(channel, green, red, blue, k),
            forall|k: int| 5 + i <= k < 193 ==> package[k] == 0,
        decreases 3 * RGB_TRIPLETS - i,
    {
        package[5 + i] = green;
        package[5 + i + 1] = red;
        package[5 + i + 2] = blue;
        i = i + 3;
    }
    package
}

/// Whether `r` is the kind of answer that `c` asks for.
pub open spec fn answers(c: Command, r: Response) -> bool {
    match c {
        Command::GetFirmwareVersion => r is FirmwareVersion,
        Command::GetData { .. } => r is Data,
        _ => r is Status,
    }
}

/// Every full-length reply decodes, to the kind of answer the command asks
/// for; a status reply carries the byte at the status offset.
pub proof fn lemma_reply_round_trip(c: Command, buf: Seq<u8>)
    requires
        buf.len() == RESPONSE_LEN,
    ensures
        parse_spec(c, buf) is Ok,
        answers(c, parse_spec(c, buf)->Ok_0),
        answers(c, Response::Status(buf[2])) ==> parse_spec(c, buf) == Ok::<Response, DeviceError>(
            Response::Status(buf[STATUS_OFFSET as int]),
        ),
{
}

/// The speed reply carries the RPM as `(hi << 8) | lo` from bytes three and four.
pub proof fn lemma_get_data_rpm(port: u8, buf: Seq<u8>)
    requires
        buf.len() >= 5,
    ensures
        parse_spec(Command::GetData { port }, buf) == Ok::<Response, DeviceError>(
            Response::Data { speed: buf[2], rpm: ((buf[4] as u16) << 8u16) | (buf[3] as u16) },
        ),
{
    let lo = buf[3];
    let hi = buf[4];
    assert(((hi as u16) << 8u16) | (lo as u16) == (hi as u16) * 256 + (lo as u16)) by (bit_vector);
}

} // verus!
