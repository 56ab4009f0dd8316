//! Whole conversations with a daemon that is a script.
//!
//! The daemon plays back frames that a test wrote out and records what the client sent. It
//! never builds a reply from a request.
use std::collections::{BTreeMap, VecDeque};

use tdfu_cli::cli::{Cli, parse_alt, parse_index, parse_size};
use tdfu_cli::exit::{DEVICE, FILE, OpClass, PROTOCOL, TRANSFER};
use tdfu_cli::images::{Loaded, Need, Preflight};
use tdfu_cli::model::{
    AltSel, Answer as Chip, Detection, DeviceDescriptors, Error, FileError, IoKind, Phase, Progress, SocRegs, Stage,
    Variant,
};
use tdfu_cli::plan::{Action, Images, Plan, Remote, Target};
use tdfu_cli::remote::crc::crc32;
use tdfu_cli::remote::error::{Address, RemoteError};
use tdfu_cli::remote::protocol::{DeviceEntry, Request, UNKNOWN_VARIANT, WireVariant};
use tdfu_cli::remote::session::{Act, Anchor, Chosen, Event, Point, SETTLE_POLLS, Session};
use tdfu_cli::remote::wire::{
    Answer, CHUNK, Client, Dial, Filled, Filling, Frame, HEADER_LEN, HeaderFault, MAX_INTERMEDIATE,
    MAX_INTERMEDIATE_FRAMES, MAX_PAYLOAD, MAX_READ, Opening, ProgressBody, Reading, ResponseHeader, SEND_TIMEOUT,
    Status, Stopped, TOKEN_HANDSHAKE, VERSION, duration, silent, stalled, status_name,
};
use tdfu_cli::render::Bar;
use tdfu_cli::run::{self, Begun, Failure};
use tdfu_cli::target::{Discovered, EMPTY_BUS_ADVICE};
use tdfu_cli::wait::{ARRIVED, POLL_INTERVAL, REENUM_ATTEMPTS, REENUM_INTERVAL, WAITING};

type TestResult = Result<(), Box<dyn std::error::Error>>;

const PORT: u16 = 5051;
const MAGIC: u32 = 0x5444_4655;
const STATUS_OK: u8 = 0;
const STATUS_ERROR: u8 = 1;
const STATUS_PROGRESS: u8 = 2;
const STATUS_LOG: u8 = 3;
const DOWNLOAD: u8 = 3;

// ---------------------------------------------------------------------------
// The daemon.
// ---------------------------------------------------------------------------
/// One thing the daemon does when it is that step's turn.
#[derive(Debug, Clone)]
enum Step {
    Log(String),
    Progress { percent: u8, stage: u8, message: String },
    Reply(Vec<u8>),
    Fail(String),
    Header { status: u8, len: u32 },
    Raw(Vec<u8>),
    /// Say nothing for longer than any deadline.
    Pause,
    Close,
}

fn header_bytes(status: u8, len: u32) -> Vec<u8> {
    let mut out = MAGIC.to_be_bytes().to_vec();
    out.push(VERSION);
    out.push(status);
    out.extend_from_slice(&len.to_be_bytes());
    out
}

fn frame(status: u8, payload: &[u8]) -> Vec<u8> {
    let mut out = header_bytes(status, payload.len() as u32);
    out.extend_from_slice(payload);
    out
}

/// What is on the socket.
enum Item {
    Bytes(VecDeque<u8>),
    Pause,
    Close,
}

struct Daemon {
    script: VecDeque<Vec<Step>>,
    stream: VecDeque<Item>,
    token: Option<Vec<u8>>,
    requests: Vec<Request>,
}

impl Daemon {
    fn start(script: Vec<Vec<Step>>) -> Daemon {
        Daemon { script: script.into(), stream: VecDeque::new(), token: None, requests: Vec::new() }
    }

    fn play(&mut self) {
        for step in self.script.pop_front().unwrap_or(vec![Step::Close]) {
            let bytes = match step {
                Step::Log(text) => frame(STATUS_LOG, text.as_bytes()),
                Step::Progress { percent, stage, message } => {
                    let mut body = vec![percent, stage];
                    body.extend_from_slice(&(message.len() as u16).to_be_bytes());
                    body.extend_from_slice(message.as_bytes());
                    frame(STATUS_PROGRESS, &body)
                }
                Step::Reply(payload) => frame(STATUS_OK, &payload),
                Step::Fail(message) => frame(STATUS_ERROR, message.as_bytes()),
                Step::Header { status, len } => header_bytes(status, len),
                Step::Raw(bytes) => bytes,
                Step::Pause => {
                    self.stream.push_back(Item::Pause);
                    continue;
                }
                Step::Close => {
                    self.stream.push_back(Item::Close);
                    continue;
                }
            };
            self.stream.push_back(Item::Bytes(bytes.into()));
        }
    }

    /// One call of the reader. `armed` says that it has a deadline.
    fn read(&mut self, want: usize, armed: bool) -> (Reading, Vec<u8>) {
        loop {
            match self.stream.front_mut() {
                Some(Item::Bytes(bytes)) if bytes.is_empty() => {
                    self.stream.pop_front();
                }
                Some(Item::Bytes(bytes)) => {
                    let count = want.min(bytes.len());
                    let got: Vec<u8> = bytes.drain(..count).collect();
                    return (Reading::Bytes(count), got);
                }
                Some(Item::Pause) => {
                    self.stream.pop_front();
                    if armed {
                        let reason = "Resource temporarily unavailable (os error 11)".to_owned();
                        return (Reading::Failure { kind: IoKind::WouldBlock, reason }, Vec::new());
                    }
                }
                Some(Item::Close) | None => return (Reading::Bytes(0), Vec::new()),
            }
        }
    }
}

// ---------------------------------------------------------------------------
// The connection.
// ---------------------------------------------------------------------------
fn field(out: &mut Vec<u8>, bytes: &[u8]) {
    out.push(bytes.len() as u8);
    out.extend_from_slice(bytes);
}

/// A request as it goes over the wire.
fn encode(request: &Request) -> Vec<u8> {
    let mut out = Vec::new();
    match request {
        Request::Discover => {}
        Request::Diag { index } | Request::Reboot { index } => out.push(*index),
        Request::Bootstrap { index, variant, blobs } => {
            out.push(*index);
            field(&mut out, variant);
            if let Some(pair) = blobs {
                for blob in [&pair.spl, &pair.uboot] {
                    out.extend_from_slice(&(blob.len() as u32).to_be_bytes());
                    out.extend_from_slice(blob);
                }
            }
        }
        Request::Write { index, variant, alt, image, crc32, verify } => {
            out.push(*index);
            field(&mut out, variant);
            field(&mut out, alt);
            out.extend_from_slice(&(image.len() as u32).to_be_bytes());
            out.extend_from_slice(image);
            out.extend_from_slice(&crc32.to_be_bytes());
            if let Some(verify) = verify {
                out.push(u8::from(*verify));
            }
        }
        Request::Read { index, variant, alt } => {
            out.push(*index);
            field(&mut out, variant);
            if let Some(alt) = alt {
                field(&mut out, alt);
            }
        }
    }
    out
}

fn decode_header(bytes: &[u8]) -> Result<ResponseHeader, HeaderFault> {
    if bytes[..4] != MAGIC.to_be_bytes() {
        return Err(HeaderFault::BadMagic);
    }
    if bytes[4] != VERSION {
        return Err(HeaderFault::VersionMismatch);
    }
    let status = match bytes[5] {
        STATUS_OK => Status::Done,
        STATUS_ERROR => Status::Error,
        STATUS_PROGRESS => Status::Progress,
        STATUS_LOG => Status::Log,
        _ => return Err(HeaderFault::UnknownStatus),
    };
    let payload_len = u32::from_be_bytes([bytes[6], bytes[7], bytes[8], bytes[9]]);
    Ok(ResponseHeader { status, payload_len })
}

fn decode_progress(bytes: &[u8]) -> Result<ProgressBody, String> {
    if bytes.len() < 4 {
        return Err("truncated".to_owned());
    }
    let len = usize::from(u16::from_be_bytes([bytes[2], bytes[3]]));
    if bytes.len() != 4 + len {
        return Err(format!("the message is {len} bytes and {} follow", bytes.len() - 4));
    }
    let message = String::from_utf8(bytes[4..].to_vec()).map_err(|error| error.to_string())?;
    Ok(ProgressBody { percent: bytes[0], stage: bytes[1], message })
}

/// The names of the wire's variants, as far as these tests use them.
fn variant_name(ordinal: u8) -> Option<String> {
    match ordinal {
        6 => Some("t31x".to_owned()),
        24 => Some("t41nq".to_owned()),
        50 => Some("t32lq".to_owned()),
        _ => None,
    }
}

fn decode_entries(payload: &[u8]) -> Result<Vec<DeviceEntry>, String> {
    if payload.len() % 8 != 0 {
        return Err(format!("{} bytes are no whole number of rows", payload.len()));
    }
    Ok(payload
        .chunks(8)
        .map(|row| DeviceEntry {
            bus: row[0],
            address: row[1],
            vendor: u16::from_be_bytes([row[2], row[3]]),
            product: u16::from_be_bytes([row[4], row[5]]),
            stage: row[6],
            variant: WireVariant { ordinal: row[7], name: variant_name(row[7]) },
        })
        .collect())
}

fn phases() -> Vec<Phase> {
    ["detect", "stage1", "uboot", "download", "upload", "verify", "erase", "reboot"]
        .iter()
        .enumerate()
        .map(|(byte, name)| Phase { byte: byte as u8, name: (*name).to_owned() })
        .collect()
}

/// A file that takes so many bytes and then refuses.
struct Sink {
    bytes: Vec<u8>,
    room: usize,
}

impl Sink {
    fn new() -> Sink {
        Sink { bytes: Vec::new(), room: usize::MAX }
    }
}

struct Wire {
    client: Client,
    daemon: Daemon,
    bar: Bar,
    err: String,
}

impl Wire {
    fn connect(daemon: Daemon, token: Option<&str>) -> Result<Wire, RemoteError> {
        let at = Address::new("127.0.0.1".to_owned(), PORT);
        Wire::over(daemon, Client::connect(at, token), token)
    }

    fn over(daemon: Daemon, client: Client, token: Option<&str>) -> Result<Wire, RemoteError> {
        let mut wire = Wire { client, daemon, bar: Bar::new(), err: String::new() };
        if let Some(token) = token {
            let sent = Client::handshake(token, MAGIC)?;
            assert_eq!(sent[..4], MAGIC.to_be_bytes());
            assert_eq!(sent[4], VERSION);
            assert_eq!(usize::from(sent[5]), sent.len() - 6);
            wire.daemon.token = Some(sent[6..].to_vec());
            wire.daemon.play();
            let header = wire.header(TOKEN_HANDSHAKE)?;
            let length = wire.client.intermediate_payload(header.payload_len, TOKEN_HANDSHAKE)?;
            let payload = wire.fill(length as usize, TOKEN_HANDSHAKE)?;
            wire.client.first_frame_done();
            wire.client.handshake_answered(header.status, &payload)?;
        }
        Ok(wire)
    }

    fn send(&mut self, request: &Request, doing: &str) -> Result<(), RemoteError> {
        let encoded = Ok(encode(request));
        let announced = self.client.send(&encoded, doing)?;
        assert_eq!(Ok(announced as usize), encoded.map(|payload| payload.len()));
        self.daemon.requests.push(request.clone());
        self.daemon.play();
        Ok(())
    }

    fn fill(&mut self, want: usize, doing: &str) -> Result<Vec<u8>, RemoteError> {
        let mut filling = Filling::new(want);
        let mut buffer = Vec::new();
        while !filling.is_full() {
            let (reading, bytes) = self.daemon.read(want - buffer.len(), self.client.fill_first_frame());
            buffer.extend_from_slice(&bytes);
            if let Filled::Stopped(stopped) = filling.fill_from(reading) {
                return Err(self.client.stopped(&stopped, doing));
            }
        }
        Ok(buffer)
    }

    fn header(&mut self, doing: &str) -> Result<ResponseHeader, RemoteError> {
        let bytes = self.fill(HEADER_LEN, doing)?;
        self.client.header(bytes[4], bytes[5], decode_header(&bytes), doing)
    }

    fn body(&mut self, length: u32, doing: &str) -> Result<Vec<u8>, RemoteError> {
        let filled = self.fill(length as usize, doing);
        self.client.first_frame_done();
        filled
    }

    fn until_final(&mut self, doing: &str) -> Result<ResponseHeader, RemoteError> {
        let mut intermediates = 0;
        loop {
            let header = self.header(doing)?;
            let (count, frame) = self.client.until_final(intermediates, header, doing)?;
            intermediates = count;
            match frame {
                Frame::Final(header) => return Ok(header),
                Frame::Log(length) => {
                    let payload = self.body(length, doing)?;
                    Client::log(&payload, &mut self.bar, &mut self.err);
                }
                Frame::Progress(length) => {
                    let payload = self.body(length, doing)?;
                    let decoded = decode_progress(&payload);
                    self.client.progress(&payload, &decoded, doing, &phases(), &mut self.bar, &mut self.err);
                }
            }
        }
    }

    fn finish(&mut self, doing: &str) -> Result<Vec<u8>, RemoteError> {
        let header = self.until_final(doing)?;
        match self.client.finish(header, doing)? {
            Answer::Payload(length) => self.body(length, doing),
            Answer::Reason(length) => {
                let payload = self.body(length, doing)?;
                Err(self.client.refused(doing, &payload))
            }
        }
    }

    fn read_to(
        &mut self,
        doing: &str,
        out: &mut Sink,
        path: &str,
        limit: Option<u64>,
    ) -> Result<u64, RemoteError> {
        let header = self.until_final(doing)?;
        let mut download = match self.client.read_to(header, doing, path, limit)? {
            Opening::Data(download) => download,
            Opening::Reason(length) => {
                let payload = self.body(length, doing)?;
                return Err(self.client.refused(doing, &payload));
            }
        };
        while let Some(want) = download.next() {
            assert!(want <= CHUNK);
            let piece = self.body(want as u32, doing).map_err(|error| download.interrupted(error))?;
            let keep = download.arrived(&piece);
            if keep > 0 {
                if out.bytes.len() + keep > out.room {
                    return Err(download.file_failed(IoKind::StorageFull, "No space left on device"));
                }
                out.bytes.extend_from_slice(&piece[..keep]);
            }
            let (done, total) = download.counted();
            let line = format!("{done}/{} bytes", total.unwrap_or_default());
            let step = download.progress("upload".to_owned(), line);
            self.bar.render(&step, &mut self.err);
        }
        let trailer = self.fill(4, doing).map_err(|error| download.check_lost(error))?;
        let trailer = [trailer[0], trailer[1], trailer[2], trailer[3]];
        download.checked(self.client.at(), &trailer)
    }
}

// ---------------------------------------------------------------------------
// A run.
// ---------------------------------------------------------------------------
type Disk = BTreeMap<String, Vec<u8>>;

/// What one run produced.
struct Outcome {
    result: Result<(), Failure>,
    out: String,
    err: String,
    slept: Vec<u64>,
    token: Option<Vec<u8>>,
    requests: Vec<Request>,
    disk: Disk,
}

/// What an error says for itself.
fn words(error: &Error) -> String {
    match error {
        Error::Io(fault) => fault.message.clone(),
        Error::Invalid(message) => format!("invalid input: {message}"),
        Error::LoaderMissing(message) => format!("cannot read the loader {message}"),
        other => format!("{other:?}"),
    }
}

impl Outcome {
    fn refusal(&self) -> Result<(String, u8), String> {
        match &self.result {
            Ok(()) => Err(format!("the run was expected to fail; stdout {:?}", self.out)),
            Err(failure) => Ok((failure.message(&words(&failure.error)), failure.exit_code())),
        }
    }

    fn commands(&self) -> Vec<&'static str> {
        self.requests
            .iter()
            .map(|request| match request {
                Request::Discover => "discover",
                Request::Diag { .. } => "diag",
                Request::Bootstrap { .. } => "bootstrap",
                Request::Write { .. } => "write",
                Request::Read { .. } => "read",
                Request::Reboot { .. } => "reboot",
            })
            .collect()
    }

    fn payload(&self, position: usize) -> Result<Vec<u8>, String> {
        self.requests.get(position).map(encode).ok_or(format!("no request {position}"))
    }
}

/// Fill in the options of an argument list and make the plan.
fn plan_of(args: &[&str]) -> Result<Plan, String> {
    let mut cli = Cli::default();
    let mut rest = args.iter();
    while let Some(flag) = rest.next() {
        match *flag {
            "-l" => cli.list = true,
            "-b" => cli.bootstrap = true,
            "--verify" => cli.verify = true,
            "--erase" => cli.erase = true,
            "--reboot" => cli.reboot = true,
            "--diag" => cli.diag = true,
            "--wait" => cli.wait = true,
            other => {
                let raw = (*rest.next().ok_or("a value is missing")?).to_owned();
                match other {
                    "-w" => cli.write = Some(raw),
                    "-r" => cli.read = Some(raw),
                    "-i" => cli.index = parse_index(&raw)?,
                    "--alt" => cli.alt = Some(parse_alt(&raw)?),
                    "--cpu" => cli.cpu = Some(Variant { loader_dir: raw }),
                    "--spl" => cli.spl = Some(raw),
                    "--uboot" => cli.uboot = Some(raw),
                    "--size" => cli.size = Some(parse_size(&raw)?),
                    "--host" => cli.host = Some(raw),
                    "--token" => cli.token = Some(raw),
                    _ => return Err(format!("no such option: {other}")),
                }
                continue;
            }
        }
    }
    if cli.host.is_some() {
        cli.port = Some(PORT);
    }
    cli.into_plan().map_err(|error| error.message())
}

fn plan_for(args: &[&str]) -> Result<Plan, String> {
    let mut line = vec!["--host", "127.0.0.1"];
    line.extend_from_slice(args);
    plan_of(&line)
}

/// Read every file of a plan off the disk.
fn preflight(images: &Images, disk: &mut Disk) -> Result<Loaded, Error> {
    let mut files = Preflight::preflight(images.clone());
    while let Some(path) = files.path().map(str::to_owned) {
        if files.need == Need::Output {
            disk.entry(path).or_default();
            files.opened(Ok(()))?;
        } else {
            let missing = FileError { kind: IoKind::NotFound, message: "No such file or directory".to_owned() };
            files.take(disk.get(&path).cloned().ok_or(missing))?;
        }
    }
    Ok(files.loaded)
}

fn drive(plan: Plan, script: Vec<Vec<Step>>, files: &[(&str, &[u8])]) -> Outcome {
    let disk: Disk = files.iter().map(|(path, bytes)| ((*path).to_owned(), bytes.to_vec())).collect();
    let mut outcome = Outcome {
        result: Ok(()),
        out: String::new(),
        err: String::new(),
        slept: Vec::new(),
        token: None,
        requests: Vec::new(),
        disk,
    };
    assert_eq!(run::unsupported(&plan), None);
    let token = plan.remote.as_ref().and_then(|remote| remote.token.clone());
    let loaded = preflight(&plan.images, &mut outcome.disk);
    let mut session = match run::run(plan, loaded) {
        Begun::Stopped(failure) => {
            outcome.result = Err(failure);
            return outcome;
        }
        Begun::Daemon(session) => session,
        Begun::Bus(_) => panic!("a remote run must not touch the local bus"),
    };
    let mut wire = match Wire::connect(Daemon::start(script), token.as_deref()) {
        Ok(wire) => wire,
        Err(error) => {
            outcome.result = Err(error.failure(OpClass::Remote));
            return outcome;
        }
    };
    let mut event = Event::Went;
    let mut doing = "";
    outcome.result = loop {
        let turn = session.step(event);
        for line in &turn.say {
            wire.bar.note(line, &mut wire.err);
        }
        event = match turn.act {
            Act::Proceed => Event::Went,
            Act::Ask { request, doing } => {
                let answer = wire.send(&request, doing).and_then(|()| wire.finish(doing));
                match answer {
                    Err(error) => Event::Failed(error),
                    Ok(payload) if request == Request::Discover => Event::Listed(decode_entries(&payload)),
                    Ok(payload) => Event::Answered(payload),
                }
            }
            Act::Send { request, doing: name } => {
                doing = name;
                match wire.send(&request, name) {
                    Ok(()) => Event::Sent,
                    Err(error) => Event::Failed(error),
                }
            }
            Act::Stream { path, limit } => {
                let mut sink = Sink::new();
                let saved = wire.read_to(doing, &mut sink, &path, limit);
                outcome.disk.insert(path, sink.bytes);
                match saved {
                    Ok(count) => Event::Saved(count),
                    Err(error) => Event::Failed(error),
                }
            }
            Act::Sleep(millis) => {
                assert!(outcome.slept.len() < 100, "this run would never end");
                outcome.slept.push(millis);
                Event::Slept
            }
            Act::Print(text) => {
                outcome.out.push_str(&text);
                Event::Printed(Ok(()))
            }
            Act::Finish(result) => break result,
        };
    };
    wire.bar.clear(&mut wire.err);
    outcome.err = wire.err;
    outcome.token = wire.daemon.token;
    outcome.requests = wire.daemon.requests;
    outcome
}

fn row_at(address: u8, stage: u8, variant: u8) -> Vec<u8> {
    vec![1, address, 0xA1, 0x08, 0xC3, 0x09, stage, variant]
}

/// A device list with one row per pair, at consecutive addresses.
fn discovered_rows(rows: &[(u8, u8)]) -> Vec<u8> {
    rows.iter()
        .enumerate()
        .flat_map(|(position, (stage, variant))| row_at(7 + position as u8, *stage, *variant))
        .collect()
}

fn discovered(stage: u8, variant: u8) -> Vec<u8> {
    discovered_rows(&[(stage, variant)])
}

fn ok() -> Vec<u8> {
    b"OK".to_vec()
}

fn with_crc(data: &[u8]) -> Vec<u8> {
    let mut payload = data.to_vec();
    payload.extend_from_slice(&crc32(data).to_be_bytes());
    payload
}

const UNKNOWN: u8 = UNKNOWN_VARIANT;
const FW: &str = "/t/fw.bin";
const DUMP: &str = "/t/dump.bin";

fn polls() -> usize {
    SETTLE_POLLS as usize
}

// ---------------------------------------------------------------------------
// The flow.
// ---------------------------------------------------------------------------
/// Every operation, in the fixed order, over one connection.
#[test]
fn rpc_cli_remote_flow_runs_the_whole_plan_in_order() -> TestResult {
    let plan = plan_for(&["--reboot", "-r", DUMP, "-w", FW, "--verify", "--erase"])?;
    let outcome = drive(
        plan,
        vec![
            vec![Step::Reply(discovered(0, 6))],
            vec![Step::Reply(ok())],
            vec![Step::Reply(ok())],
            vec![Step::Reply(ok())],
            vec![Step::Reply(vec![0x00, 0x00, 0x00, 0x00])],
            vec![Step::Reply(Vec::new())],
        ],
        &[(FW, b"firmware")],
    );
    assert!(outcome.result.is_ok(), "{:?}", outcome.refusal());
    assert_eq!(
        outcome.commands(),
        vec!["discover", "bootstrap", "write", "write", "read", "reboot"],
        "bootstrap, erase, write and verify, read, reboot"
    );
    assert!(outcome.token.is_none(), "no --token, so no handshake");
    Ok(())
}

/// `--erase` is a write of the wipe token to the `erase` alt, byte for byte.
#[test]
fn rpc_write_erase_token_over_the_wire() -> TestResult {
    let outcome = drive(
        plan_for(&["--erase"])?,
        vec![vec![Step::Reply(discovered(2, UNKNOWN))], vec![Step::Reply(ok())]],
        &[],
    );
    assert!(outcome.result.is_ok(), "{:?}", outcome.refusal());

    let mut expected = vec![0_u8, 0, 5];
    expected.extend_from_slice(b"erase");
    expected.extend_from_slice(&17_u32.to_be_bytes());
    expected.extend_from_slice(b"XBURST-FLASH-WIPE");
    expected.extend_from_slice(&0x62B6_80A0_u32.to_be_bytes());
    assert_eq!(outcome.commands().get(1), Some(&"write"));
    assert_eq!(outcome.payload(1)?, expected, "the whole payload, field by field");
    assert_eq!(
        outcome.requests[1],
        Request::Write {
            index: 0,
            variant: Vec::new(),
            alt: b"erase".to_vec(),
            image: b"XBURST-FLASH-WIPE".to_vec(),
            crc32: 0x62B6_80A0,
            verify: None,
        }
    );
    Ok(())
}

/// Absent and present-and-zero are different things, and `-w` alone omits the byte.
#[test]
fn rpc_write_layout_and_the_optional_verify_byte() -> TestResult {
    for verify in [false, true] {
        let mut argv = vec!["-w", FW, "--alt", "flash"];
        if verify {
            argv.push("--verify");
        }
        let outcome = drive(
            plan_for(&argv)?,
            vec![vec![Step::Reply(discovered(2, UNKNOWN))], vec![Step::Reply(ok())]],
            &[(FW, b"\x01\x02\x03\x04")],
        );
        assert!(outcome.result.is_ok(), "{:?}", outcome.refusal());

        let mut expected = vec![0_u8, 0, 5];
        expected.extend_from_slice(b"flash");
        expected.extend_from_slice(&4_u32.to_be_bytes());
        expected.extend_from_slice(b"\x01\x02\x03\x04");
        expected.extend_from_slice(&0xB63C_FBCD_u32.to_be_bytes());
        if verify {
            expected.push(1);
        }
        assert_eq!(outcome.payload(1)?, expected, "verify={verify}");
        assert_eq!(
            outcome.requests[1],
            Request::Write {
                index: 0,
                variant: Vec::new(),
                alt: b"flash".to_vec(),
                image: vec![1, 2, 3, 4],
                crc32: 0xB63C_FBCD,
                verify: if verify { Some(true) } else { None },
            },
            "verify={verify}"
        );
    }
    Ok(())
}

/// A device at the firmware stage is refused, and the refusal says what it is.
#[test]
fn a_device_that_is_neither_a_bootrom_nor_a_gadget_is_refused() -> TestResult {
    let outcome = drive(plan_for(&["-w", FW])?, vec![vec![Step::Reply(discovered(1, 6))]], &[(FW, b"x")]);
    let (message, code) = outcome.refusal()?;
    assert!(
        message.contains("is running firmware, and only a device in the bootrom can be USB-booted"),
        "{message}"
    );
    assert!(
        message.contains(", which is what this transfer needs first"),
        "an auto-bootstrap says why it was there: {message}"
    );
    assert!(message.contains("Power-cycle it into the bootrom"), "{message}");
    assert_eq!(code, DEVICE, "the same refusal is a device error locally");

    let outcome = drive(plan_for(&["-b"])?, vec![vec![Step::Reply(discovered(7, 6))]], &[]);
    let (message, _) = outcome.refusal()?;
    assert!(
        message.contains("is in a stage this client does not know (7)"),
        "{message}"
    );
    assert!(
        !message.contains("which is what this transfer needs first"),
        "a requested -b was not put there by a transfer: {message}"
    );
    Ok(())
}

/// The alt a transfer targets is named in the line that announces it.
#[test]
fn the_narration_names_the_alt_it_targets() -> TestResult {
    let outcome = drive(
        plan_for(&["-w", FW, "--alt", "sdcard", "--verify"])?,
        vec![vec![Step::Reply(discovered(2, UNKNOWN))], vec![Step::Reply(ok())]],
        &[(FW, b"xy")],
    );
    assert!(outcome.result.is_ok(), "{:?}", outcome.refusal());
    assert!(outcome.err.contains("Sending 2 bytes to 127.0.0.1:"), "{}", outcome.err);
    assert!(
        outcome.err.contains("alt \"sdcard\", to be verified after writing."),
        "{}",
        outcome.err
    );

    let empty_read = || vec![vec![Step::Reply(discovered(2, UNKNOWN))], vec![Step::Reply(with_crc(b""))]];
    let outcome = drive(plan_for(&["-r", DUMP, "--alt", "1"])?, empty_read(), &[]);
    assert!(outcome.result.is_ok(), "{:?}", outcome.refusal());
    assert!(
        outcome.err.contains("Reading device 0 alt 1 from 127.0.0.1:"),
        "{}",
        outcome.err
    );
    assert!(
        outcome
            .err
            .contains("the daemon tries an alt *named* \"1\" before falling back to alt number 1"),
        "{}",
        outcome.err
    );

    let outcome = drive(plan_for(&["-r", DUMP])?, empty_read(), &[]);
    assert!(outcome.result.is_ok(), "{:?}", outcome.refusal());
    assert!(
        outcome.err.contains("Reading device 0 from 127.0.0.1:"),
        "{}",
        outcome.err
    );
    Ok(())
}

/// `--verify` with no `-w` beside it is this crate disagreeing with itself, and it says so.
#[test]
fn a_verify_with_no_write_is_a_disagreement_not_a_success() -> TestResult {
    let plan = Plan::new(
        vec![Action::Verify],
        Target { index: 0, alt: AltSel::Default, cpu: None, size: None },
        Images::default(),
        Some(Remote { host: "127.0.0.1".to_owned(), port: PORT, token: None }),
        false,
        false,
    )
    .map_err(|error| error.message())?;
    let outcome = drive(plan, vec![vec![Step::Close]], &[]);
    let (message, code) = outcome.refusal()?;
    assert!(
        message.starts_with("--verify reached the wire with no -w beside it"),
        "{message}"
    );
    assert!(
        message.ends_with("this is a bug in thingino-dfu, not in the command"),
        "{message}"
    );
    assert_eq!(code, TRANSFER);
    assert!(outcome.requests.is_empty(), "and nothing was sent: {:?}", outcome.requests);
    Ok(())
}

/// A bootrom target is detected and USB-booted first, and the auto-detect line is printed.
#[test]
fn fe_cli_autobootstrap_over_the_wire() -> TestResult {
    let outcome = drive(
        plan_for(&["-w", FW])?,
        vec![vec![Step::Reply(discovered(0, 50))], vec![Step::Reply(ok())], vec![Step::Reply(ok())]],
        &[(FW, b"x")],
    );
    assert!(outcome.result.is_ok(), "{:?}", outcome.refusal());
    assert!(
        outcome.err.contains("Auto-detected remote device: t32lq"),
        "{}",
        outcome.err
    );
    assert_eq!(outcome.payload(1)?, b"\x00\x05t32lq".to_vec(), "index, then the variant name");
    assert_eq!(
        outcome.slept,
        Vec::new(),
        "a named bootrom answers, so there is nothing to settle"
    );
    assert!(
        !outcome.err.contains("is between the bootrom and the DFU gadget"),
        "{}",
        outcome.err
    );
    Ok(())
}

/// A target that is already the gadget is not bootstrapped, and is told so.
#[test]
fn a_gadget_target_is_not_bootstrapped_again() -> TestResult {
    let outcome = drive(
        plan_for(&["--reboot"])?,
        vec![vec![Step::Reply(discovered(2, UNKNOWN))], vec![Step::Reply(Vec::new())]],
        &[],
    );
    assert!(outcome.result.is_ok(), "{:?}", outcome.refusal());
    assert!(
        outcome
            .err
            .contains("is already the U-Boot DFU gadget; nothing to bootstrap"),
        "{}",
        outcome.err
    );
    assert_eq!(
        outcome.commands(),
        vec!["discover", "reboot"],
        "no BOOTSTRAP for a device that is already the gadget"
    );
    Ok(())
}

/// A device caught between the bootrom and the gadget is waited for.
#[test]
fn a_bootrom_that_is_still_booting_is_waited_for_rather_than_refused() -> TestResult {
    let outcome = drive(
        plan_for(&["-r", DUMP])?,
        vec![
            vec![Step::Reply(discovered(0, UNKNOWN))],
            vec![Step::Reply(discovered(0, UNKNOWN))],
            vec![Step::Reply(discovered(2, UNKNOWN))],
            vec![Step::Reply(with_crc(b"settled"))],
        ],
        &[],
    );
    assert!(outcome.result.is_ok(), "{:?}", outcome.refusal());
    assert_eq!(outcome.disk[DUMP], b"settled", "the read ran, once the device settled");
    assert_eq!(
        outcome.slept,
        vec![POLL_INTERVAL; 2],
        "one poll interval per re-ask, and none after the answer that settled it"
    );
    assert_eq!(
        outcome.commands(),
        vec!["discover", "discover", "discover", "read"],
        "three asks, then the read; and no BOOTSTRAP, because the wait found a gadget"
    );
    assert_eq!(
        outcome
            .err
            .matches("is between the bootrom and the DFU gadget; waiting up to 30 s for it to re-enumerate.")
            .count(),
        1,
        "the wait announces itself once: {}",
        outcome.err
    );
    assert!(!outcome.err.contains("does not know what SoC"), "{}", outcome.err);
    Ok(())
}

/// The same wait, ending the other way: the bootrom comes back and names itself.
#[test]
fn a_bootrom_that_names_itself_late_is_bootstrapped_with_that_name() -> TestResult {
    let outcome = drive(
        plan_for(&["-b"])?,
        vec![
            vec![Step::Reply(discovered(0, UNKNOWN))],
            vec![Step::Reply(discovered(0, 50))],
            vec![Step::Reply(ok())],
        ],
        &[],
    );
    assert!(outcome.result.is_ok(), "{:?}", outcome.refusal());
    assert_eq!(outcome.slept, vec![POLL_INTERVAL], "one re-ask was enough");
    assert!(
        outcome.err.contains("Auto-detected remote device: t32lq"),
        "{}",
        outcome.err
    );
    assert_eq!(outcome.commands().get(2), Some(&"bootstrap"));
    assert_eq!(outcome.payload(2)?, b"\x00\x05t32lq".to_vec(), "the settled name, not the 0xFF");
    Ok(())
}

/// The gap has a phase in which the device is on no list at all, and that is still the gap.
#[test]
fn a_target_that_leaves_the_bus_mid_reenumeration_is_still_waited_for() -> TestResult {
    let outcome = drive(
        plan_for(&["-r", DUMP])?,
        vec![
            vec![Step::Reply(discovered(0, UNKNOWN))],
            vec![Step::Reply(Vec::new())],
            vec![Step::Reply(Vec::new())],
            vec![Step::Reply(discovered(2, UNKNOWN))],
            vec![Step::Reply(with_crc(b"re-enumerated"))],
        ],
        &[],
    );
    assert!(outcome.result.is_ok(), "{:?}", outcome.refusal());
    assert_eq!(outcome.disk[DUMP], b"re-enumerated", "the read ran, once the gadget enumerated");
    assert_eq!(
        outcome.slept,
        vec![POLL_INTERVAL; 3],
        "one poll interval per re-ask, the empty answers included"
    );
    assert_eq!(
        outcome.commands(),
        vec!["discover", "discover", "discover", "discover", "read"],
        "four asks, then the read; and no BOOTSTRAP, because the wait found a gadget"
    );
    assert!(
        !outcome.err.contains("no Ingenic devices on the daemon's bus"),
        "an empty list inside the window is not an empty bench: {}",
        outcome.err
    );
    Ok(())
}

/// A device that took the target's position over is not bootstrapped in its place.
#[test]
fn a_device_that_took_the_targets_row_is_not_bootstrapped_in_its_place() -> TestResult {
    let mut script = vec![vec![Step::Reply(row_at(7, 0, UNKNOWN))]];
    script.extend(vec![vec![Step::Reply(row_at(9, 0, 6))]; polls()]);
    let outcome = drive(plan_for(&["-b"])?, script, &[]);
    let (message, code) = outcome.refusal()?;
    assert!(
        message.contains("was bus 1 address 7 when this run picked it") && message.contains("is now bus 1 address 9"),
        "the refusal names both devices: {message}"
    );
    assert_eq!(code, DEVICE, "a bootstrap that refuses is the device class");
    assert!(
        !outcome.commands().contains(&"bootstrap"),
        "no stage 1 goes to a device the operator did not pick: {:?}",
        outcome.requests
    );
    Ok(())
}

#[test]
fn a_write_the_daemon_cannot_resolve_is_rendered_as_the_refusal_it_is() -> TestResult {
    let outcome = drive(
        plan_for(&["-w", FW])?,
        vec![
            vec![Step::Reply(discovered(2, UNKNOWN))],
            vec![Step::Fail("no DISCOVER on this connection".to_owned())],
        ],
        &[(FW, b"firmware")],
    );
    let (message, code) = outcome.refusal()?;
    assert!(
        message.ends_with("could not complete the write: no DISCOVER on this connection"),
        "the daemon's own words, quoted: {message}"
    );
    assert_eq!(code, TRANSFER, "a refused write is the transfer class");
    Ok(())
}

/// The same wait, where nothing ever comes back: the empty-bus refusal is then the true one.
#[test]
fn a_bus_that_stays_empty_for_the_window_refuses_with_the_empty_bus_sentence() -> TestResult {
    let mut script = vec![vec![Step::Reply(discovered(0, UNKNOWN))]];
    script.extend(vec![vec![Step::Reply(Vec::new())]; polls()]);
    let outcome = drive(plan_for(&["-r", DUMP])?, script, &[]);
    let (message, code) = outcome.refusal()?;
    assert_eq!(
        message,
        format!("no Ingenic devices on the daemon's bus at 127.0.0.1:{PORT}: {EMPTY_BUS_ADVICE}"),
        "the window closed on nothing, which is what makes this sentence true"
    );
    assert_eq!(
        code, DEVICE,
        "the auto-bootstrap is what refused, so it is a device error"
    );
    assert_eq!(
        outcome.requests.len(),
        polls() + 1,
        "the first ask, then one per poll; the refusal reads the last answer rather than re-asking"
    );
    assert_eq!(
        outcome.slept,
        vec![POLL_INTERVAL; polls()],
        "the refusal comes after the last poll, not before the first"
    );
    Ok(())
}

/// The target's row disappears while another device stays listed.
#[test]
fn an_index_that_vanishes_beside_another_device_is_the_same_gap() -> TestResult {
    let outcome = drive(
        plan_for(&["-i", "1", "-r", DUMP])?,
        vec![
            vec![Step::Reply(discovered_rows(&[(0, 50), (0, UNKNOWN)]))],
            vec![Step::Reply(discovered_rows(&[(0, 50)]))],
            vec![Step::Reply(discovered_rows(&[(0, 50), (2, UNKNOWN)]))],
            vec![Step::Reply(with_crc(b"the second camera"))],
        ],
        &[],
    );
    assert!(outcome.result.is_ok(), "{:?}", outcome.refusal());
    assert_eq!(
        outcome.disk[DUMP], b"the second camera",
        "the read ran on the device that came back"
    );
    assert_eq!(outcome.slept, vec![POLL_INTERVAL; 2]);
    assert!(
        !outcome.err.contains("is not on the daemon's bus"),
        "a one-row list is not proof that device 1 is gone for good: {}",
        outcome.err
    );
    let last = outcome.requests.len() - 1;
    assert_eq!(outcome.commands()[last], "read");
    assert_eq!(
        outcome.payload(last)?.first(),
        Some(&1_u8),
        "the read is for device 1, not for its neighbour"
    );
    Ok(())
}

/// `-l` prints the daemon's table on stdout and nothing else.
#[test]
fn rpc_cli_remote_list() -> TestResult {
    let outcome = drive(plan_for(&["-l"])?, vec![vec![Step::Reply(discovered(0, 6))]], &[]);
    assert!(outcome.result.is_ok(), "{:?}", outcome.refusal());
    assert!(
        outcome.out.starts_with("Found 1 device on 127.0.0.1:"),
        "{}",
        outcome.out
    );
    assert!(outcome.out.contains("a108:c309  bootrom  t31x"), "{}", outcome.out);
    assert!(
        !outcome.out.contains("Talking to"),
        "narration must stay off stdout: {}",
        outcome.out
    );
    assert_eq!(outcome.requests.first(), Some(&Request::Discover), "DISCOVER carries no payload");
    Ok(())
}

/// `--diag` puts the daemon's report on stdout, alone.
#[test]
fn rpc_diag_text_reaches_stdout() -> TestResult {
    let report = "=== thingino-dfu diagnostics ===\nSoC: T31X\n";
    let outcome = drive(
        plan_for(&["--diag", "-i", "2"])?,
        vec![vec![Step::Reply(report.as_bytes().to_vec())]],
        &[],
    );
    assert!(outcome.result.is_ok(), "{:?}", outcome.refusal());
    assert_eq!(outcome.out, "=== thingino-dfu diagnostics ===\nSoC: T31X\n");
    assert!(!outcome.err.contains("diagnostics"), "the report must not double up");
    assert_eq!(outcome.requests.first(), Some(&Request::Diag { index: 2 }), "one index byte");
    Ok(())
}

/// A report that is no text is made readable, and its control characters are shown.
#[test]
fn a_report_is_made_safe() -> TestResult {
    let outcome = drive(
        plan_for(&["--diag"])?,
        vec![vec![Step::Reply(b"a\xffb\x1b[2J\n\n\n".to_vec())]],
        &[],
    );
    assert!(outcome.result.is_ok(), "{:?}", outcome.refusal());
    assert_eq!(outcome.out, "a\u{fffd}b^[[2J\n");
    Ok(())
}

// ---------------------------------------------------------------------------
// Reading, which is the one payload that may exceed the cap.
// ---------------------------------------------------------------------------
/// `-r` streams its data into the file and checks it.
#[test]
fn rpc_read_streams_to_the_file() -> TestResult {
    let data: Vec<u8> = (0..200_000_u32).map(|byte| byte.to_le_bytes()[0]).collect();
    let outcome = drive(
        plan_for(&["-r", DUMP, "--alt", "1"])?,
        vec![vec![Step::Reply(discovered(2, UNKNOWN))], vec![Step::Reply(with_crc(&data))]],
        &[],
    );
    assert!(outcome.result.is_ok(), "{:?}", outcome.refusal());
    assert_eq!(outcome.disk[DUMP], data, "every byte, in order");
    assert!(
        outcome.err.contains("Saved 200000 bytes to") && outcome.err.contains("(CRC-32 checked)"),
        "{}",
        outcome.err
    );
    assert_eq!(outcome.payload(1)?, vec![0_u8, 0, 1, b'1'], "index, empty variant, alt \"1\"");
    Ok(())
}

/// A read past the cap is streamed, and what arrived is in the file as it arrives.
#[test]
fn rpc_cli_remote_read_may_exceed_the_cap_and_never_buffers() -> TestResult {
    let announced = 256 * 1024 * 1024_u32 + 4;
    assert!(
        announced > MAX_PAYLOAD,
        "the fixture has to be past the cap to be the case at all"
    );
    let first = vec![0xA5_u8; 128 * 1024];
    let outcome = drive(
        plan_for(&["-r", DUMP])?,
        vec![
            vec![Step::Reply(discovered(2, UNKNOWN))],
            vec![
                Step::Header { status: STATUS_OK, len: announced },
                Step::Raw(first.clone()),
                Step::Close,
            ],
        ],
        &[],
    );
    let (message, code) = outcome.refusal()?;
    assert!(
        message.contains("closed the connection during the read"),
        "a dropped connection is reported as one: {message}"
    );
    assert!(
        message.ends_with(&format!("; {DUMP} holds the {} bytes that arrived and is short", first.len())),
        "{message}"
    );
    assert_eq!(code, PROTOCOL, "the wire failed, so 4");
    assert_eq!(
        outcome.disk[DUMP], first,
        "the bytes that arrived were written as they arrived, and nothing was buffered"
    );
    Ok(())
}

/// A read whose data all arrived but whose check did not is complete and unchecked.
#[test]
fn a_read_that_loses_only_its_crc_says_the_file_is_unchecked() -> TestResult {
    let data = vec![0x5A_u8; 64];
    let outcome = drive(
        plan_for(&["-r", DUMP])?,
        vec![
            vec![Step::Reply(discovered(2, UNKNOWN))],
            vec![
                Step::Header { status: STATUS_OK, len: 64 + 4 },
                Step::Raw(data.clone()),
                Step::Close,
            ],
        ],
        &[],
    );
    let (message, _) = outcome.refusal()?;
    assert!(
        message.ends_with(&format!(
            "; {DUMP} holds the {} bytes that arrived, but the CRC-32 that would check them never did, \
             so it must not be written back to a device",
            data.len()
        )),
        "{message}"
    );
    assert!(!message.contains("is short"), "every data byte arrived: {message}");
    assert_eq!(outcome.disk[DUMP], data, "and they are all on disk");
    Ok(())
}

/// A read that drops before a single byte reaches the file says nothing about a file.
#[test]
fn a_read_that_never_started_does_not_name_an_empty_file() -> TestResult {
    for (case, len) in [("payload", 4096_u32), ("trailer", 4)] {
        let outcome = drive(
            plan_for(&["-r", DUMP])?,
            vec![
                vec![Step::Reply(discovered(2, UNKNOWN))],
                vec![Step::Header { status: STATUS_OK, len }, Step::Close],
            ],
            &[],
        );
        let (message, _) = outcome.refusal()?;
        assert!(
            message.ends_with("closed the connection during the read"),
            "{case}: nothing arrived, so there is no file to say anything about: {message}"
        );
        assert!(outcome.disk[DUMP].is_empty(), "{case}: and the file really is empty");
    }
    Ok(())
}

/// A read whose bytes do not match their check is refused, and the file is kept and named.
#[test]
fn a_corrupted_read_is_refused_and_the_file_is_named() -> TestResult {
    let mut payload = b"not-the-image".to_vec();
    payload.extend_from_slice(&0xDEAD_BEEF_u32.to_be_bytes());
    let outcome = drive(
        plan_for(&["-r", DUMP])?,
        vec![vec![Step::Reply(discovered(2, UNKNOWN))], vec![Step::Reply(payload)]],
        &[],
    );
    let (message, code) = outcome.refusal()?;
    assert!(message.contains("0xDEADBEEF"), "{message}");
    assert!(message.contains("arrived corrupted"), "{message}");
    assert!(message.contains("must not be written back to a device"), "{message}");
    assert!(message.contains(DUMP), "{message}");
    assert_eq!(code, PROTOCOL);
    assert_eq!(outcome.disk[DUMP], b"not-the-image", "the evidence is kept");
    Ok(())
}

#[test]
fn a_read_response_shorter_than_its_crc_is_refused() -> TestResult {
    let outcome = drive(
        plan_for(&["-r", DUMP])?,
        vec![vec![Step::Reply(discovered(2, UNKNOWN))], vec![Step::Reply(vec![1, 2, 3])]],
        &[],
    );
    let (message, code) = outcome.refusal()?;
    assert!(
        message.contains("shorter than the 4-byte CRC-32 that ends it"),
        "{message}"
    );
    assert_eq!(code, PROTOCOL);
    Ok(())
}

/// `--size` caps the file, and says up front that the transfer itself cannot be capped.
#[test]
fn size_caps_the_file_and_says_why_it_cannot_cap_the_transfer() -> TestResult {
    let data: Vec<u8> = (0..70_000_u32).map(|byte| byte.to_le_bytes()[0]).collect();
    let outcome = drive(
        plan_for(&["-r", DUMP, "--size", "4096"])?,
        vec![vec![Step::Reply(discovered(2, UNKNOWN))], vec![Step::Reply(with_crc(&data))]],
        &[],
    );
    assert!(outcome.result.is_ok(), "{:?}", outcome.refusal());
    assert_eq!(outcome.disk[DUMP], data[..4096], "exactly --size bytes");
    assert!(
        outcome.err.contains("--size 4096 is a client-side cap here"),
        "{}",
        outcome.err
    );
    assert!(outcome.err.contains("Saved 4096 bytes to"), "{}", outcome.err);
    Ok(())
}

/// A cap inside a later piece keeps exactly as much.
#[test]
fn a_cap_inside_a_later_piece_is_exact() -> TestResult {
    let data: Vec<u8> = (0..200_000_u32).map(|byte| (byte / 7) as u8).collect();
    let outcome = drive(
        plan_for(&["-r", DUMP, "--size", "100001"])?,
        vec![vec![Step::Reply(discovered(2, UNKNOWN))], vec![Step::Reply(with_crc(&data))]],
        &[],
    );
    assert!(outcome.result.is_ok(), "{:?}", outcome.refusal());
    assert_eq!(outcome.disk[DUMP], data[..100_001]);
    Ok(())
}

// ---------------------------------------------------------------------------
// Progress and logs.
// ---------------------------------------------------------------------------
/// Progress frames draw the counter, and a log line blanks it first.
#[test]
fn rpc_progress_draws_the_bar_and_a_log_line_terminates_it() -> TestResult {
    let counted = |done: u64| format!("{done}/16384 bytes");
    let counting = |done: u64| Step::Progress {
        percent: (done * 100 / 16_384) as u8,
        stage: DOWNLOAD,
        message: counted(done),
    };
    let outcome = drive(
        plan_for(&["-w", FW])?,
        vec![
            vec![Step::Reply(discovered(2, UNKNOWN))],
            vec![
                counting(4096),
                counting(4096),
                counting(8192),
                Step::Log("DFU download complete\n".to_owned()),
                Step::Reply(ok()),
            ],
        ],
        &[(FW, b"x")],
    );
    assert!(outcome.result.is_ok(), "{:?}", outcome.refusal());
    let mut local = String::new();
    Bar::new().render(
        &Progress::Bytes {
            phase: "download".to_owned(),
            done: 4096,
            total: Some(16_384),
            counted: counted(4096),
        },
        &mut local,
    );
    let local = local.trim_matches(['\r', ' ']);
    assert!(
        outcome.err.contains(local),
        "the counter is the local counter, not merely its shape: wanted {local:?} in {:?}",
        outcome.err
    );
    assert_eq!(
        outcome.err.matches("25%").count(),
        1,
        "an identical frame is not redrawn: {:?}",
        outcome.err
    );
    assert!(outcome.err.contains("50%"), "{:?}", outcome.err);
    let complete = outcome
        .err
        .find("DFU download complete")
        .ok_or("the log line was dropped")?;
    let cleared = outcome.err[..complete]
        .rfind('\r')
        .ok_or("the counter was never terminated before the log line")?;
    assert!(
        outcome.err[cleared..complete].trim_matches(['\r', ' ']).is_empty(),
        "the counter must be blanked, not written over: {:?}",
        &outcome.err[cleared..complete]
    );
    Ok(())
}

/// A progress frame this client cannot read is noted, not fatal.
#[test]
fn a_bad_progress_frame_does_not_kill_a_completed_transfer() -> TestResult {
    let outcome = drive(
        plan_for(&["-w", FW])?,
        vec![
            vec![Step::Reply(discovered(2, UNKNOWN))],
            vec![
                Step::Header { status: STATUS_PROGRESS, len: 4 },
                Step::Raw(vec![25, 3, 0, 9]),
                Step::Reply(ok()),
            ],
        ],
        &[(FW, b"x")],
    );
    assert!(
        outcome.result.is_ok(),
        "the transfer completed: {:?}",
        outcome.refusal()
    );
    assert!(
        outcome.err.contains("note: the daemon at 127.0.0.1:")
            && outcome.err.contains("sent a progress frame this client cannot read"),
        "the bad frame is named: {:?}",
        outcome.err
    );
    assert!(
        outcome.err.contains("download   25%"),
        "percent and stage are at fixed offsets and are still drawn: {:?}",
        outcome.err
    );
    Ok(())
}

#[test]
fn a_log_frame_is_verbatim_and_an_unknown_phase_says_its_byte() -> TestResult {
    let outcome = drive(
        plan_for(&["-l"])?,
        vec![vec![
            Step::Log("careful: bad block at 0x1000".to_owned()),
            Step::Progress { percent: 7, stage: 99, message: "doing something new".to_owned() },
            Step::Reply(discovered(0, 6)),
        ]],
        &[],
    );
    assert!(outcome.result.is_ok(), "{:?}", outcome.refusal());
    assert!(
        outcome.err.contains("careful: bad block at 0x1000\n"),
        "verbatim, with the newline it did not send: {:?}",
        outcome.err
    );
    assert!(
        outcome.err.contains("stage 99    7%  doing something new"),
        "{:?}",
        outcome.err
    );
    Ok(())
}

// ---------------------------------------------------------------------------
// The failure paths. Every one of these is a message, not a silent exit.
// ---------------------------------------------------------------------------
fn dial(at: Address, found: Result<Vec<String>, String>, reasons: &[&str]) -> String {
    let mut dial = match Dial::resolve(at, found) {
        Ok(dial) => dial,
        Err(error) => return error.failure(OpClass::Remote).message("unworded"),
    };
    let mut reasons = reasons.iter();
    while dial.next().is_some() {
        dial.failed((*reasons.next().unwrap_or(&"no reason")).to_owned());
    }
    let failure = dial.give_up().failure(OpClass::Remote);
    assert_eq!(failure.exit_code(), PROTOCOL, "a failed connect is 4");
    failure.message("unworded")
}

/// Every resolved address, with the reason that address gave, in the resolver's order.
#[test]
fn a_refused_connection_names_the_address_and_the_errno() -> TestResult {
    let expected = vec!["[::1]:5051".to_owned(), "127.0.0.1:5051".to_owned()];
    let message = dial(
        Address::new("localhost".to_owned(), PORT),
        Ok(expected.clone()),
        &["Connection refused (os error 111)", "Connection refused (os error 111)"],
    );
    assert!(
        message.starts_with(&format!("cannot connect to localhost:{PORT}")),
        "{message}"
    );
    let mut cursor = 0;
    for address in &expected {
        let at = message[cursor..]
            .find(address.as_str())
            .ok_or_else(|| format!("{address} is missing, or out of order, in: {message}"))?;
        cursor += at + address.len();
    }
    assert!(
        message.to_lowercase().contains("refused"),
        "the errno itself has to survive: {message}"
    );
    Ok(())
}

/// A name that does not resolve is a different failure from a port that refuses.
#[test]
fn an_unresolvable_host_is_not_a_refused_port() {
    let message = dial(
        Address::new("no-such-host.invalid".to_owned(), 5050),
        Err("failed to lookup address information: Name or service not known".to_owned()),
        &[],
    );
    assert!(
        message.starts_with("cannot resolve no-such-host.invalid:5050: "),
        "{message}"
    );
    assert!(message.contains("Check the name, or give an address"), "{message}");
    let nothing = dial(Address::new("empty.invalid".to_owned(), 5050), Ok(Vec::new()), &[]);
    assert!(nothing.contains("empty.invalid:5050"), "{nothing}");
}

/// The resolver's order is kept: neither sorted, reversed nor filtered.
#[test]
fn the_resolver_keeps_the_systems_order() -> TestResult {
    let expected = vec!["[::1]:5050".to_owned(), "127.0.0.1:5050".to_owned(), "10.0.0.1:5050".to_owned()];
    let mut dial = Dial::resolve(Address::new("localhost".to_owned(), 5050), Ok(expected.clone()))
        .map_err(|error| error.message())?;
    let mut tried = Vec::new();
    while let Some(address) = dial.next().map(str::to_owned) {
        tried.push(address);
        dial.failed("timed out".to_owned());
    }
    assert_eq!(tried, expected);
    Ok(())
}

/// One line, naming both versions, instead of payloads that decode into nonsense.
#[test]
fn a_daemon_of_another_version_says_so_in_one_line() -> TestResult {
    let mut header = MAGIC.to_be_bytes().to_vec();
    header.push(2);
    header.push(STATUS_OK);
    header.extend_from_slice(&0_u32.to_be_bytes());
    let outcome = drive(plan_for(&["-l"])?, vec![vec![Step::Raw(header)]], &[]);
    let (message, code) = outcome.refusal()?;
    assert_eq!(code, PROTOCOL);
    assert_eq!(
        message,
        format!(
            "the daemon at 127.0.0.1:{PORT} speaks protocol version 2; this client speaks 1. \
             The two are not interchangeable \u{2014} update whichever is older"
        )
    );
    Ok(())
}

/// Something else on the port answers, and is told apart from a daemon.
#[test]
fn a_peer_that_is_not_a_daemon_says_which_port_it_is() -> TestResult {
    let outcome = drive(
        plan_for(&["-l"])?,
        vec![vec![Step::Raw(b"HTTP/1.1 400 Bad Request\r\n\r\n".to_vec())]],
        &[],
    );
    let (message, code) = outcome.refusal()?;
    assert_eq!(code, PROTOCOL);
    assert!(message.contains("does not begin with the TDFU magic"), "{message}");
    assert!(message.contains("not as a dfu-remote daemon"), "{message}");
    Ok(())
}

#[test]
fn a_dropped_connection_is_reported_as_a_dropped_connection() -> TestResult {
    let outcome = drive(plan_for(&["-l"])?, vec![vec![Step::Close]], &[]);
    let (message, code) = outcome.refusal()?;
    assert_eq!(code, PROTOCOL);
    assert_eq!(
        message,
        format!("the daemon at 127.0.0.1:{PORT} closed the connection during the device list")
    );
    Ok(())
}

/// A final response past the cap for a command that is not a read is refused.
#[test]
fn rpc_cli_remote_oversize_final_response_is_refused() -> TestResult {
    let outcome = drive(
        plan_for(&["-l"])?,
        vec![vec![Step::Header { status: STATUS_OK, len: MAX_PAYLOAD + 1 }]],
        &[],
    );
    let (message, code) = outcome.refusal()?;
    assert_eq!(code, PROTOCOL);
    assert!(
        message.contains("67108865 bytes, past the 67108864-byte payload cap"),
        "{message}"
    );
    assert!(message.contains("only a read is streamed past it"), "{message}");
    Ok(())
}

#[test]
fn an_oversize_intermediate_frame_is_refused_not_drained() -> TestResult {
    let outcome = drive(
        plan_for(&["-l"])?,
        vec![vec![Step::Header { status: STATUS_LOG, len: 200_000 }]],
        &[],
    );
    let (message, code) = outcome.refusal()?;
    assert_eq!(code, PROTOCOL);
    assert!(message.contains("announced a 200000-byte frame"), "{message}");
    assert!(message.contains("lost frame sync"), "{message}");
    Ok(())
}

/// A refusal is the daemon's own words, and the exit code is the running operation's class.
#[test]
fn a_daemon_refusal_takes_the_operations_own_exit_code() -> TestResult {
    let outcome = drive(
        plan_for(&["-w", FW])?,
        vec![
            vec![Step::Reply(discovered(0, 6))],
            vec![Step::Fail("bootstrap failed: Device not found".to_owned())],
        ],
        &[(FW, b"x")],
    );
    let (message, code) = outcome.refusal()?;
    assert_eq!(
        message,
        format!(
            "the daemon at 127.0.0.1:{PORT} could not complete the bootstrap: bootstrap failed: Device not found"
        )
    );
    assert_eq!(code, DEVICE, "a bootstrap is a device error, remotely as locally");

    let outcome = drive(
        plan_for(&["-w", FW])?,
        vec![
            vec![Step::Reply(discovered(2, UNKNOWN))],
            vec![Step::Fail("write failed: Transfer failed".to_owned())],
        ],
        &[(FW, b"x")],
    );
    let (message, code) = outcome.refusal()?;
    assert!(
        message.ends_with("could not complete the write: write failed: Transfer failed"),
        "{message}"
    );
    assert_eq!(code, TRANSFER);
    Ok(())
}

/// A verify mismatch is not reported as the write failing.
#[test]
fn a_verify_mismatch_names_the_verify_and_not_the_write() -> TestResult {
    let outcome = drive(
        plan_for(&["-w", FW, "--verify"])?,
        vec![
            vec![Step::Reply(discovered(2, UNKNOWN))],
            vec![Step::Fail("verify failed at offset 0x00000009".to_owned())],
        ],
        &[(FW, b"xyz")],
    );
    let (message, code) = outcome.refusal()?;
    assert!(
        message.ends_with("could not complete the write and its verify: verify failed at offset 0x00000009"),
        "{message}"
    );
    assert!(
        !message.contains("could not complete the write:"),
        "the write succeeded; only the verify did not: {message}"
    );
    assert_eq!(code, TRANSFER, "a transfer, exactly as locally");

    let outcome = drive(
        plan_for(&["-w", FW])?,
        vec![
            vec![Step::Reply(discovered(2, UNKNOWN))],
            vec![Step::Fail("write failed: Transfer failed".to_owned())],
        ],
        &[(FW, b"xyz")],
    );
    let (message, _) = outcome.refusal()?;
    assert!(
        message.contains("could not complete the write: write failed"),
        "{message}"
    );
    Ok(())
}

#[test]
fn a_refusal_with_no_reason_says_so() -> TestResult {
    let outcome = drive(plan_for(&["-l"])?, vec![vec![Step::Fail(String::new())]], &[]);
    let (message, code) = outcome.refusal()?;
    assert!(
        message.ends_with("could not complete the device list, and sent no reason with the refusal"),
        "{message}"
    );
    assert_eq!(code, DEVICE, "a listing is a device-class operation");
    Ok(())
}

/// A file error exits 3 with `--host`, exactly as without it, and before the socket.
#[test]
fn fe_cli_a_missing_image_exits_three_remotely_too() -> TestResult {
    let outcome = drive(plan_for(&["-w", "/t/not-here.bin"])?, Vec::new(), &[]);
    assert!(outcome.requests.is_empty());
    let (remote_message, remote_code) = outcome.refusal()?;

    let local = plan_of(&["-w", "/t/not-here.bin"])?;
    let loaded = preflight(&local.images, &mut Disk::new());
    let local_failure = match run::run(local, loaded) {
        Begun::Stopped(failure) => failure,
        other => return Err(format!("the file should have stopped it: {other:?}").into()),
    };
    let local_message = local_failure.message(&words(&local_failure.error));
    assert_eq!(remote_code, FILE, "a file error is 3");
    assert_eq!(local_failure.exit_code(), FILE);
    assert_eq!(remote_message, local_message, "and the same sentence, either way");
    assert!(
        remote_message.contains("cannot read the image for -w"),
        "{remote_message}"
    );
    Ok(())
}

/// Run a local plan on a bus where every bootrom is a chip that is in no table.
fn drive_local(plan: Plan, bus: Vec<Discovered>, files: &[(&str, &[u8])]) -> Result<(), Failure> {
    let mut disk: Disk = files.iter().map(|(path, bytes)| ((*path).to_owned(), bytes.to_vec())).collect();
    let loaded = preflight(&plan.images, &mut disk);
    let mut session = match run::run(plan, loaded) {
        Begun::Bus(session) => session,
        other => panic!("{other:?}"),
    };
    let mut event = run::Event::Went;
    loop {
        event = match session.step(event).act {
            run::Act::Proceed => run::Event::Went,
            run::Act::Enumerate => run::Event::Bus(bus.clone()),
            run::Act::Open(_) => run::Event::Opened,
            run::Act::Detect => {
                let regs = SocRegs { soc_id: 0x0999_9000, cpu_id: 0x9999, sub1: 0, sub2: 0, t33_grade: None };
                run::Event::Detected(Detection { warning: None, answer: Chip::Unknown { regs } })
            }
            run::Act::Finish(result) => return result,
            other => panic!("{other:?}"),
        };
    }
}

fn seen(stage: Option<Stage>) -> Discovered {
    Discovered {
        descriptors: DeviceDescriptors {
            vendor_id: 0xA108,
            product_id: 0xC309,
            bus: 1,
            address: 7,
            port_path: vec![4, 2],
        },
        stage,
    }
}

/// Every refusal about the device exits with the same code the same refusal has locally.
#[test]
fn fe_cli_remote_exit_codes_match_the_local_ones() -> TestResult {
    let rows: Vec<(&str, Vec<&str>, Vec<Discovered>, Vec<u8>, usize)> = vec![
        ("an empty bus under -w", vec!["-w", FW], Vec::new(), Vec::new(), 1),
        (
            "-i past the end of a one-device bus",
            vec!["-b", "-i", "3"],
            vec![seen(Some(Stage::Bootrom))],
            discovered(0, 6),
            1,
        ),
        (
            "a target that is not a bootrom",
            vec!["-b"],
            vec![seen(None)],
            discovered(1, 6),
            1,
        ),
        (
            "an SoC nothing can identify",
            vec!["-b"],
            vec![seen(Some(Stage::Bootrom))],
            discovered(0, UNKNOWN),
            polls() + 1,
        ),
    ];
    for (what, args, bus, discover, discovers) in rows {
        let remote = drive(plan_for(&args)?, vec![vec![Step::Reply(discover)]; discovers], &[(FW, b"x")]);
        let (remote_message, remote_code) = remote.refusal()?;
        let local = drive_local(plan_of(&args)?, bus, &[(FW, b"x")]);
        let local_code = local.err().map(|failure| failure.exit_code());
        assert_eq!(local_code, Some(DEVICE), "{what}, locally");
        assert_eq!(
            Some(remote_code),
            local_code,
            "{what} exits {remote_code} with --host: {remote_message}"
        );
    }
    Ok(())
}

/// An empty daemon bus says what an empty local bus says, and is not waited out.
#[test]
fn an_empty_daemon_bus_carries_the_local_advice() -> TestResult {
    let outcome = drive(plan_for(&["-w", FW])?, vec![vec![Step::Reply(Vec::new())]], &[(FW, b"x")]);
    assert_eq!(outcome.requests.len(), 1, "one ask, and the answer was the answer");
    assert_eq!(outcome.slept, Vec::new(), "an empty bench is not waited out");
    let (message, code) = outcome.refusal()?;
    assert_eq!(
        message,
        format!("no Ingenic devices on the daemon's bus at 127.0.0.1:{PORT}: {EMPTY_BUS_ADVICE}")
    );
    assert!(message.ends_with("or pass --wait"), "{message}");
    assert_eq!(code, DEVICE);
    Ok(())
}

#[test]
fn an_index_past_the_end_says_how_many_there_are() -> TestResult {
    let outcome = drive(plan_for(&["-b", "-i", "3"])?, vec![vec![Step::Reply(discovered(0, 6))]], &[]);
    let (message, code) = outcome.refusal()?;
    assert!(
        message.contains("device 3 is not on the daemon's bus") && message.contains("reports 1 device(s)"),
        "{message}"
    );
    assert_eq!(code, DEVICE, "`-i` past the end is a device error locally too");
    Ok(())
}

/// A daemon that cannot say what the SoC is gets a refusal with the two ways out.
#[test]
fn an_unknown_soc_refuses_with_the_two_ways_out() -> TestResult {
    let script = vec![vec![Step::Reply(discovered(0, UNKNOWN))]; polls() + 1];
    let outcome = drive(plan_for(&["-b"])?, script, &[]);
    let (message, code) = outcome.refusal()?;
    assert!(message.contains("does not know what SoC device 0 is"), "{message}");
    assert!(message.contains("pass --cpu"), "{message}");
    assert!(message.contains("--spl and --uboot"), "{message}");
    assert_eq!(
        code, DEVICE,
        "an unknown SoC is a device error locally, so this is too"
    );
    assert_eq!(
        outcome.requests.len(),
        polls() + 1,
        "the first ask, then one per poll of the window; and no BOOTSTRAP after them"
    );
    assert!(
        outcome.commands().iter().all(|command| *command == "discover"),
        "nothing but DISCOVER may go out while the target is unresolved"
    );
    assert_eq!(
        outcome.slept,
        vec![POLL_INTERVAL; polls()],
        "the refusal comes after the last poll, not before the first"
    );
    Ok(())
}

/// The settle window is the one of a bootstrap, counted in `--wait`'s poll interval.
#[test]
fn the_settle_window_is_fe_d_1s() {
    let window = POLL_INTERVAL * u64::from(SETTLE_POLLS);
    assert_eq!(
        window,
        REENUM_INTERVAL * u64::from(REENUM_ATTEMPTS),
        "the client's window and the daemon's are one window"
    );
    assert_eq!(window / 1000, 30, "30 s");
}

/// `--cpu` skips detection, and its value goes on the wire unchanged.
#[test]
fn cpu_skips_the_auto_detect_line() -> TestResult {
    let outcome = drive(
        plan_for(&["-b", "--cpu", "t41nq"])?,
        vec![vec![Step::Reply(discovered(0, UNKNOWN))], vec![Step::Reply(ok())]],
        &[],
    );
    assert!(outcome.result.is_ok(), "{:?}", outcome.refusal());
    assert!(!outcome.err.contains("Auto-detected"), "{}", outcome.err);
    assert_eq!(outcome.payload(1)?, b"\x00\x05t41nq".to_vec());
    Ok(())
}

/// A streamed pair of loaders replaces the variant entirely.
#[test]
fn custom_loaders_go_on_the_wire_instead_of_a_variant() -> TestResult {
    let outcome = drive(
        plan_for(&["--spl", "/t/spl.bin", "--uboot", "/t/u-boot.bin"])?,
        vec![vec![Step::Reply(discovered(0, UNKNOWN))], vec![Step::Reply(ok())]],
        &[("/t/spl.bin", b"stage-one"), ("/t/u-boot.bin", b"u-boot!")],
    );
    assert!(outcome.result.is_ok(), "{:?}", outcome.refusal());
    let mut expected = vec![0_u8, 0];
    expected.extend_from_slice(&9_u32.to_be_bytes());
    expected.extend_from_slice(b"stage-one");
    expected.extend_from_slice(&7_u32.to_be_bytes());
    expected.extend_from_slice(b"u-boot!");
    assert_eq!(outcome.payload(1)?, expected, "an empty variant, then both blobs");
    assert!(outcome.err.contains("Streaming --spl"), "{}", outcome.err);
    Ok(())
}

// ---------------------------------------------------------------------------
// Authentication.
// ---------------------------------------------------------------------------
/// With `--token`, the handshake goes first and carries the token.
#[test]
fn rpc_auth_handshake_precedes_the_first_command() -> TestResult {
    let outcome = drive(
        plan_for(&["-l", "--token", "hunter2"])?,
        vec![vec![Step::Reply(ok())], vec![Step::Reply(discovered(0, 6))]],
        &[],
    );
    assert!(outcome.result.is_ok(), "{:?}", outcome.refusal());
    assert_eq!(outcome.token.as_deref(), Some(&b"hunter2"[..]));
    assert_eq!(outcome.requests.first(), Some(&Request::Discover));
    Ok(())
}

/// A daemon that drops the connection during the handshake is no authentication failure.
#[test]
fn an_auth_drop_is_not_an_auth_failure() -> TestResult {
    let outcome = drive(plan_for(&["-l", "--token", "hunter2"])?, vec![vec![Step::Close]], &[]);
    let (message, code) = outcome.refusal()?;
    assert_eq!(code, PROTOCOL);
    assert_eq!(
        message,
        format!("the daemon at 127.0.0.1:{PORT} closed the connection during the token handshake")
    );
    Ok(())
}

/// A rejected token quotes the daemon, or says that it gave no reason.
#[test]
fn a_rejected_token_quotes_the_daemon() -> TestResult {
    let outcome = drive(
        plan_for(&["-l", "--token", "wrong"])?,
        vec![vec![Step::Fail("auth: invalid token".to_owned())]],
        &[],
    );
    let (message, code) = outcome.refusal()?;
    assert!(
        message.ends_with("rejected the token: auth: invalid token"),
        "{message}"
    );
    assert_eq!(code, PROTOCOL);

    let outcome = drive(
        plan_for(&["-l", "--token", "wrong"])?,
        vec![vec![Step::Fail(String::new())]],
        &[],
    );
    let (message, _) = outcome.refusal()?;
    assert!(message.ends_with("rejected the token, and sent no reason"), "{message}");
    Ok(())
}

/// A daemon that requires a token, addressed without one, says so and exits 4.
#[test]
fn a_daemon_that_requires_a_token_says_to_pass_one() -> TestResult {
    let outcome = drive(
        plan_for(&["-l"])?,
        vec![vec![Step::Fail("auth: invalid token".to_owned())]],
        &[],
    );
    let (message, code) = outcome.refusal()?;
    assert_eq!(
        message,
        format!(
            "the daemon at 127.0.0.1:{PORT} requires a token and none was sent: it read the device list's \
             command header as the handshake and answered \"auth: invalid token\". Pass --token with the \
             secret the daemon was started with"
        )
    );
    assert_eq!(code, PROTOCOL, "a failed handshake is 4, not 1");
    Ok(())
}

/// `--token` against a daemon started without one is not a rejected token.
#[test]
fn a_token_sent_to_a_daemon_without_one_says_which_side_is_wrong() -> TestResult {
    let outcome = drive(
        plan_for(&["-l", "--token", "hunter2"])?,
        vec![vec![Step::Fail("payload too large".to_owned())]],
        &[],
    );
    let (message, code) = outcome.refusal()?;
    assert_eq!(
        message,
        format!(
            "the daemon at 127.0.0.1:{PORT} answered the token handshake with \"payload too large\", which is not \
             one of the two refusals its auth path can send: it read the handshake as a command header, so it \
             was started without --token. Drop --token, or restart the daemon with one"
        )
    );
    assert!(
        !message.contains("rejected the token"),
        "no token was rejected: {message}"
    );
    assert_eq!(code, PROTOCOL);
    Ok(())
}

/// An `auth: ` refusal when a token was sent is still the daemon's own refusal.
#[test]
fn an_auth_body_after_a_good_handshake_is_the_daemons_refusal() -> TestResult {
    let outcome = drive(
        plan_for(&["-l", "--token", "hunter2"])?,
        vec![vec![Step::Reply(ok())], vec![Step::Fail("auth: invalid token".to_owned())]],
        &[],
    );
    let (message, code) = outcome.refusal()?;
    assert!(
        message.ends_with("could not complete the device list: auth: invalid token"),
        "{message}"
    );
    assert!(!message.contains("Pass --token"), "a token was passed: {message}");
    assert_eq!(code, DEVICE, "the daemon refused a listing, so the listing's class");
    Ok(())
}

/// Without `--token` no handshake is sent at all.
#[test]
fn no_token_means_no_handshake() -> TestResult {
    let outcome = drive(plan_for(&["-l"])?, vec![vec![Step::Reply(discovered(0, 6))]], &[]);
    assert!(outcome.result.is_ok(), "{:?}", outcome.refusal());
    assert_eq!(outcome.token, None);
    assert_eq!(outcome.requests.len(), 1, "one command, and nothing before it");
    Ok(())
}

// ---------------------------------------------------------------------------
// `--wait`, and the sweep.
// ---------------------------------------------------------------------------
/// `--wait` polls until the daemon can see something, with the local wait's own two lines.
#[test]
fn fe_cli_wait_polls_the_daemon() -> TestResult {
    let outcome = drive(
        plan_for(&["-l", "--wait"])?,
        vec![
            vec![Step::Reply(Vec::new())],
            vec![Step::Reply(Vec::new())],
            vec![Step::Reply(discovered(0, 6))],
        ],
        &[],
    );
    assert!(outcome.result.is_ok(), "{:?}", outcome.refusal());
    assert!(outcome.err.contains(WAITING), "{}", outcome.err);
    assert!(outcome.err.contains(ARRIVED), "{}", outcome.err);
    assert!(outcome.out.contains("Found 1 device"), "{}", outcome.out);
    assert_eq!(
        outcome.requests.len(),
        3,
        "three polls, and `-l` renders the answer the last one already gave"
    );
    assert_eq!(
        outcome.slept,
        vec![POLL_INTERVAL, POLL_INTERVAL],
        "one poll interval between each pair of polls, and none after the last"
    );
    Ok(())
}

/// Every failure this client can reach says something, and names the daemon.
#[test]
fn no_remote_failure_exits_in_silence() -> TestResult {
    let cases: Vec<(&str, Vec<Vec<Step>>, Vec<&str>)> = vec![
        ("a dead socket", vec![vec![Step::Close]], vec!["-l"]),
        ("a refusal", vec![vec![Step::Fail("Device not found".to_owned())]], vec!["-l"]),
        ("an unreadable device list", vec![vec![Step::Reply(vec![1, 2, 3])]], vec!["-l"]),
        (
            "a truncated read",
            vec![
                vec![Step::Reply(discovered(2, UNKNOWN))],
                vec![Step::Header { status: STATUS_OK, len: 1024 }, Step::Close],
            ],
            vec!["-r", DUMP],
        ),
        (
            "a progress frame whose announced length is impossible",
            vec![vec![Step::Header { status: STATUS_PROGRESS, len: 200_000 }]],
            vec!["-l"],
        ),
    ];
    for (what, script, args) in cases {
        let outcome = drive(plan_for(&args)?, script, &[]);
        let (message, code) = outcome.refusal()?;
        assert_ne!(code, 0, "{what} must not exit 0");
        assert!(message.len() > 20, "{what} said only {message:?}");
        assert!(
            message.contains("127.0.0.1"),
            "{what} must name the daemon it failed against: {message}"
        );
    }
    Ok(())
}

// ---------------------------------------------------------------------------
// The connection by itself.
// ---------------------------------------------------------------------------
fn reading() -> Request {
    Request::Read { index: 0, variant: Vec::new(), alt: None }
}

fn at() -> Address {
    Address::new("127.0.0.1".to_owned(), PORT)
}

fn wire(script: Vec<Vec<Step>>) -> Result<Wire, String> {
    Wire::connect(Daemon::start(script), None).map_err(|error| error.message())
}

/// Ask for the list and read the answer.
fn ask(wire: &mut Wire) -> Result<Vec<u8>, RemoteError> {
    wire.send(&Request::Discover, "the status request")?;
    wire.finish("the status request")
}

fn said(outcome: Result<Vec<u8>, RemoteError>) -> String {
    match outcome {
        Ok(payload) => format!("expected a failure, got {payload:?}"),
        Err(error) => error.message(),
    }
}

/// A `-r` whose file stops accepting bytes mid-transfer is a file error.
#[test]
fn a_sink_that_fails_mid_read_is_a_file_error() -> TestResult {
    let mut wire = wire(vec![vec![Step::Reply(with_crc(&[0_u8; 32]))]])?;
    wire.send(&reading(), "the read").map_err(|error| error.message())?;
    let mut full = Sink { bytes: Vec::new(), room: 0 };
    let outcome = wire.read_to("the read", &mut full, "/tmp/tdfu-full.bin", None);
    let failure = outcome.err().ok_or("the write should have failed")?.failure(OpClass::Transfer);
    assert_eq!(
        failure.message("unworded"),
        "cannot write to /tmp/tdfu-full.bin: No space left on device"
    );
    assert_eq!(failure.exit_code(), FILE, "a file error is 3, remotely as locally");
    Ok(())
}

/// A token longer than the length field is refused rather than truncated.
#[test]
fn a_token_longer_than_the_length_field_is_refused() -> TestResult {
    let outcome = Wire::connect(Daemon::start(vec![vec![Step::Close]]), Some(&"x".repeat(256)));
    let failure = outcome.err().ok_or("a 256-byte token must be refused")?;
    assert_eq!(
        failure.message(),
        "--token is 256 bytes; the handshake's length field is one byte, so 255 is the maximum"
    );
    assert_eq!(failure.failure(OpClass::Remote).exit_code(), PROTOCOL);
    let longest = "x".repeat(255);
    let frame = Client::handshake(&longest, MAGIC).map_err(|error| error.message())?;
    assert_eq!(&frame[6..], longest.as_bytes());
    Ok(())
}

/// A frame exactly on the bound is still read.
#[test]
fn an_intermediate_frame_of_exactly_the_bound_is_read() -> TestResult {
    assert_eq!(MAX_INTERMEDIATE, 65_536);
    let line = "l".repeat(65_536);
    let mut wire = wire(vec![vec![Step::Log(line.clone()), Step::Reply(ok())]])?;
    assert_eq!(ask(&mut wire), Ok(ok()));
    assert_eq!(wire.err.len(), line.len() + 1, "the line, plus the newline it lacked");
    Ok(())
}

/// A daemon does not get to drive the terminal.
#[test]
fn a_log_frame_cannot_clear_the_screen() -> TestResult {
    let mut wire = wire(vec![vec![
        Step::Log("\x1b[2J\x1b[Hall good\rnothing to see".to_owned()),
        Step::Reply(ok()),
    ]])?;
    assert_eq!(ask(&mut wire), Ok(ok()));
    let text = &wire.err;
    assert_eq!(text, "^[[2J^[[Hall good^Mnothing to see\n", "{text:?}");
    assert!(!text.contains('\x1b'), "no escape reaches the terminal: {text:?}");
    assert!(!text.contains('\r'), "and no carriage return either: {text:?}");
    Ok(())
}

/// A daemon that never answers is given up on, and one that merely talks a lot is not.
#[test]
fn a_daemon_that_never_answers_is_given_up_on() -> TestResult {
    let client = || Client { intermediate_budget: 4, ..Client::connect(at(), None) };
    let mut within = vec![Step::Log("still erasing\n".to_owned()); 4];
    within.push(Step::Reply(ok()));
    let mut wire = Wire::over(Daemon::start(vec![within]), client(), None).map_err(|error| error.message())?;
    assert_eq!(ask(&mut wire), Ok(ok()), "a talkative daemon that finishes is still a daemon");

    let endless = vec![Step::Log("still erasing\n".to_owned()); 64];
    let mut wire = Wire::over(Daemon::start(vec![endless]), client(), None).map_err(|error| error.message())?;
    let failure = ask(&mut wire).err().ok_or("an endless stream must not be read for ever")?;
    let message = failure.message();
    assert!(
        message.contains("and no final answer"),
        "the refusal names what is missing: {message}"
    );
    assert!(
        message.contains("5 log and progress frames"),
        "and how far it read: {message}"
    );
    assert_eq!(failure.failure(OpClass::Remote).exit_code(), PROTOCOL);
    Ok(())
}

#[test]
fn the_intermediate_budget_is_far_past_any_real_command() {
    assert_eq!(MAX_INTERMEDIATE_FRAMES, 1_048_576);
    assert_eq!(Client::connect(at(), None).intermediate_budget, 1_048_576);
}

/// Every response kind has a word, and they are four different words.
#[test]
fn every_status_has_its_own_name() {
    let names: Vec<&str> = [Status::Done, Status::Error, Status::Progress, Status::Log]
        .iter()
        .map(|status| status_name(*status))
        .collect();
    assert_eq!(names, vec!["ok", "error", "progress", "log"]);
    let mut unique = names.clone();
    unique.sort_unstable();
    unique.dedup();
    assert_eq!(unique.len(), names.len(), "four kinds, four words");
}

/// The read loop's three ways of stopping, against a reader that misbehaves on purpose.
#[test]
fn the_read_loop_retries_eintr_and_reports_the_rest() {
    fn read(script: Vec<Reading>, want: usize) -> Filled {
        let mut filling = Filling::new(want);
        let mut script = script.into_iter();
        loop {
            match filling.fill_from(script.next().unwrap_or(Reading::Bytes(0))) {
                Filled::More => {}
                other => return other,
            }
        }
    }
    let failing = |kind: IoKind, reason: &str| Reading::Failure { kind, reason: reason.to_owned() };

    let outcome = read(
        vec![Reading::Bytes(2), failing(IoKind::Interrupted, "interrupted"), Reading::Bytes(2)],
        4,
    );
    assert_eq!(outcome, Filled::Full, "an interruption is not a failure");

    assert_eq!(read(Vec::new(), 4), Filled::Stopped(Stopped::Closed));
    assert_eq!(
        read(vec![Reading::Bytes(2)], 4),
        Filled::Stopped(Stopped::Dropped { got: 2, want: 4 })
    );
    assert_eq!(
        read(vec![failing(IoKind::ConnectionReset, "reset")], 4),
        Filled::Stopped(Stopped::Failed { kind: IoKind::ConnectionReset, reason: "reset".to_owned() }),
        "a reset must not be retried"
    );
}

/// A daemon that dies mid-frame says how far it got.
#[test]
fn a_frame_that_stops_half_way_says_how_far_it_got() -> TestResult {
    let mut wire = wire(vec![vec![
        Step::Header { status: STATUS_OK, len: 1024 },
        Step::Raw(vec![0_u8; 100]),
        Step::Close,
    ]])?;
    let message = said(ask(&mut wire));
    assert!(
        message.contains("dropped after 100 of 1024 bytes during the status request"),
        "{message}"
    );
    Ok(())
}

/// An absurd read is refused before it reaches the disk.
#[test]
fn a_read_larger_than_any_part_is_refused_unread() -> TestResult {
    let mut wire = wire(vec![vec![Step::Header { status: STATUS_OK, len: u32::MAX }]])?;
    wire.send(&reading(), "the read").map_err(|error| error.message())?;
    let mut written = Sink::new();
    let outcome = wire.read_to("the read", &mut written, "/tmp/tdfu-absurd.bin", None);
    let failure = outcome.err().ok_or("4 GiB is not a flash part")?;
    assert!(failure.message().contains("lost frame sync"), "{failure:?}");
    assert!(written.bytes.is_empty(), "and nothing reached the file");
    assert_eq!(MAX_READ, 536_870_912, "twice the largest part in the tree");
    Ok(())
}

#[test]
fn the_read_chunk_bounds_what_a_client_holds() {
    assert_eq!(CHUNK, 65_536);
}

/// A peer that accepts and then says nothing is given up on, and the deadline is named.
#[test]
fn a_peer_that_accepts_and_says_nothing_is_given_up_on() -> TestResult {
    let daemon = Daemon::start(vec![vec![Step::Pause, Step::Reply(ok())]]);
    let client = Client::connect_with(at(), None, 150);
    let mut wire = Wire::over(daemon, client, None).map_err(|error| error.message())?;
    let failure = ask(&mut wire).err().ok_or("a silent peer must not hang the tool")?;
    let message = failure.message();
    assert!(
        message.contains(&format!("sent nothing for {:?}", std::time::Duration::from_millis(150))),
        "the deadline, not an errno: {message}"
    );
    assert!(
        message.contains("not answering as a dfu-remote daemon"),
        "and what to make of it: {message}"
    );
    assert!(!message.contains("os error"), "an errno is not a diagnosis: {message}");
    assert_eq!(message, silent(&at().display(), "150ms", "the status request"));
    assert_eq!(failure.failure(OpClass::Remote).exit_code(), PROTOCOL);
    Ok(())
}

/// The deadline is lifted once a frame has arrived.
#[test]
fn the_first_answer_deadline_does_not_outlive_the_first_answer() -> TestResult {
    let daemon = Daemon::start(vec![vec![
        Step::Log("erasing\n".to_owned()),
        Step::Pause,
        Step::Reply(ok()),
    ]]);
    let client = Client::connect_with(at(), None, 150);
    let mut wire = Wire::over(daemon, client, None).map_err(|error| error.message())?;
    assert_eq!(ask(&mut wire), Ok(ok()), "a slow daemon is still a daemon");
    Ok(())
}

/// A header is not an answer: the deadline covers the whole first frame.
#[test]
fn the_first_answer_deadline_covers_the_payload_too() -> TestResult {
    let daemon = Daemon::start(vec![vec![
        Step::Header { status: STATUS_LOG, len: 4096 },
        Step::Pause,
        Step::Close,
    ]]);
    let client = Client::connect_with(at(), None, 150);
    let mut wire = Wire::over(daemon, client, None).map_err(|error| error.message())?;
    let message = said(ask(&mut wire));
    assert!(
        message.contains(&format!("sent nothing for {:?}", std::time::Duration::from_millis(150))),
        "the deadline, not a wait for bytes that are not coming: {message}"
    );
    Ok(())
}

/// The send side has a deadline too, and it is named.
#[test]
fn the_socket_carries_a_send_deadline() {
    let client = Client::connect(at(), None);
    let refusal = client.send_failed(IoKind::WouldBlock, "Resource temporarily unavailable (os error 11)", "the write");
    let message = refusal.message();
    let deadline = format!("{:?}", std::time::Duration::from_millis(SEND_TIMEOUT));
    assert!(
        message.contains(&format!("read nothing for {deadline}")),
        "the deadline, named: {message}"
    );
    assert!(
        message.contains("busy with another run"),
        "and what it usually means: {message}"
    );
    assert!(!message.contains("os error"), "not an errno: {message}");
    assert_eq!(message, stalled(&at().display(), "300s", "the write"));

    let reset = client.send_failed(IoKind::ConnectionReset, "Connection reset by peer", "the write");
    assert!(reset.message().contains("Connection reset by peer"), "{reset:?}");
}

/// A status byte that the version does not define is named.
#[test]
fn a_status_byte_this_version_does_not_define_is_named() -> TestResult {
    let mut wire = wire(vec![vec![Step::Header { status: 9, len: 0 }]])?;
    let message = said(ask(&mut wire));
    assert!(
        message.ends_with(
            "answered the status request with response kind 9, which protocol version 1 does not define"
        ),
        "{message}"
    );
    Ok(())
}

/// An OS error that is not a timeout is reported with its own text.
#[test]
fn a_socket_error_is_reported_with_its_own_text() {
    let client = Client::connect(at(), None);
    let reset = Stopped::Failed { kind: IoKind::ConnectionReset, reason: "Connection reset by peer".to_owned() };
    let refusal = client.stopped(&reset, "the read").message();
    assert!(
        refusal.ends_with("failed during the read: Connection reset by peer"),
        "{refusal}"
    );
}

/// A final frame that is neither an answer nor a refusal is named rather than assumed.
#[test]
fn an_unexpected_final_frame_names_what_arrived() {
    let client = Client::connect(at(), None);
    let refusal = client.unexpected_final("the read", Status::Progress).message();
    assert!(
        refusal.ends_with("ended the read with a progress frame, which is not an answer"),
        "{refusal}"
    );
}

/// A request past the cap, or one that cannot be encoded, is not sent.
#[test]
fn a_request_past_the_cap_is_not_sent() {
    let client = Client::connect(at(), None);
    let huge = Ok(vec![0_u8; MAX_PAYLOAD as usize + 1]);
    let message = client.send(&huge, "the write").err().map(|error| error.message()).unwrap_or_default();
    assert!(message.contains("67108865"), "{message}");
    assert_eq!(client.send(&Ok(vec![0_u8; MAX_PAYLOAD as usize]), "the write"), Ok(MAX_PAYLOAD));
    let odd = client.send(&Err("the alt is 300 bytes".to_owned()), "the write");
    assert!(odd.err().is_some_and(|error| error.message().contains("the alt is 300 bytes")));
}

/// What cannot be decoded is quoted.
#[test]
fn an_undecodable_frame_is_quoted() {
    let client = Client::connect(at(), None);
    let fault = HeaderFault::Other("the header is truncated".to_owned());
    let message = client.header(VERSION, 0, Err(fault), "the read").err().map(|error| error.message());
    assert!(message.is_some_and(|message| message.contains("the header is truncated")));
}

/// The CRC-32 that everybody has.
#[test]
fn the_crc_is_the_common_one() {
    assert_eq!(crc32(b""), 0);
    assert_eq!(crc32(b"123456789"), 0xCBF4_3926);
    assert_eq!(crc32(&[1, 2, 3, 4]), 0xB63C_FBCD);
    assert_eq!(crc32(b"XBURST-FLASH-WIPE"), 0x62B6_80A0);
}

/// A download checks what arrives, piece by piece, and what its cap drops too.
#[test]
fn a_capped_read_is_checked_whole() -> TestResult {
    let client = Client::connect(at(), None);
    let header = ResponseHeader { status: Status::Done, payload_len: 13 };
    for (trailer, good) in [(0xCBF4_3926_u32, true), (0xCBF4_3927, false)] {
        let mut download = match client.read_to(header, "the read", DUMP, Some(4)) {
            Ok(Opening::Data(download)) => download,
            other => return Err(format!("{other:?}").into()),
        };
        assert_eq!(download.next(), Some(9));
        assert_eq!(download.counted(), (0, Some(9)));
        assert_eq!(download.arrived(b"123456789"), 4);
        // What the cap drops is counted: it arrived.
        assert_eq!(download.counted(), (9, Some(9)));
        assert_eq!(
            download.progress("upload".to_owned(), "9/9 bytes".to_owned()),
            Progress::Bytes {
                phase: "upload".to_owned(),
                done: 9,
                total: Some(9),
                counted: "9/9 bytes".to_owned(),
            }
        );
        assert_eq!(download.next(), None);
        let checked = download.checked(client.at(), &trailer.to_be_bytes());
        assert_eq!(checked.is_ok(), good, "{checked:?}");
        if let Err(error) = checked {
            assert!(error.message().contains("0xCBF43926"), "{}", error.message());
        }
    }
    Ok(())
}

/// A duration is written as the standard library writes it.
#[test]
fn a_duration_has_its_usual_form() {
    for millis in [0, 1, 10, 999, 1000, 1001, 1010, 1100, 1234, 30_000, 300_000, 61_050, u64::MAX] {
        assert_eq!(duration(millis), format!("{:?}", std::time::Duration::from_millis(millis)));
    }
    assert_eq!(duration(30_000), "30s");
    assert_eq!(duration(1500), "1.5s");
}

fn entry(bus: u8, address: u8, stage: u8) -> DeviceEntry {
    DeviceEntry {
        bus,
        address,
        vendor: 0xA108,
        product: 0xC309,
        stage,
        variant: WireVariant { ordinal: UNKNOWN, name: None },
    }
}

/// Where a fresh list leaves a run that picked bus 1 address 7 at this position.
fn reanchored(index: u8, rows: Vec<DeviceEntry>) -> Result<Chosen, String> {
    let remote = Remote { host: "127.0.0.1".to_owned(), port: PORT, token: None };
    let nothing = Loaded { write: None, read: false, loaders: None };
    let mut session = Session {
        chosen: Chosen::Row(Anchor { index, bus: 1, address: 7 }),
        point: Point::ListAsked,
        ..Session::run(&remote, plan_for(&["-l"])?, nothing)
    };
    session.step(Event::Listed(Ok(rows)));
    Ok(session.chosen)
}

/// A row that is still listed is found by its bus and address, whatever else is on the bus.
#[test]
fn a_row_is_found_again_by_its_own_address() -> TestResult {
    let row = |index| Chosen::Row(Anchor { index, bus: 1, address: 7 });
    assert_eq!(reanchored(1, vec![entry(1, 5, 2), entry(1, 7, 0)])?, row(1));
    assert_eq!(reanchored(0, vec![entry(1, 5, 2), entry(2, 7, 2), entry(1, 7, 2)])?, row(2));
    // It re-enumerated: the gadget on its bus is the one that is taken for it.
    assert_eq!(reanchored(0, vec![entry(1, 5, 0), entry(1, 8, 2)])?, row(1));
    // Nothing on that bus can be it.
    let gone = Chosen::Gone(Anchor { index: 0, bus: 1, address: 7 });
    assert_eq!(reanchored(0, vec![entry(1, 5, 0), entry(2, 7, 2)])?, gone);
    Ok(())
}
