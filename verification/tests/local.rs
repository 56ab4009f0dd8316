//! Whole runs on a bus that is a script.
use std::cell::{Cell, RefCell};
use std::collections::{BTreeMap, VecDeque};
use std::rc::Rc;

use tdfu_cli::cli::Cli;
use tdfu_cli::exit::{DEVICE, FILE, OpClass, PROTOCOL, TRANSFER};
use tdfu_cli::images::{Blobs, Loaded, Need, Preflight, loaders, read_loader};
use tdfu_cli::list::{Found, Identity, list};
use tdfu_cli::loaders::{firmware_root, preferred, resolve};
use tdfu_cli::model::{
    AltSel, Answer, Detection, DeviceDescriptors, DfuAlt, DfuInfo, Error, Family, FileError, GradeSource, IoKind,
    Progress, Resolved, SocRegs, Stage, Variant,
};
use tdfu_cli::plan::{Action, BootstrapTrigger, Images, Plan, Remote, Target};
use tdfu_cli::remote::wire::Dial;
use tdfu_cli::render::{Bar, NONE_FOUND};
use tdfu_cli::run::{
    Act, Begun, Event, Failure, NO_ALT, NO_TRANSPORT, Point, Session, alt_name, class_of, failed, no_gadget,
    not_implemented, refuse_detection, run, targeting, unsupported,
};
use tdfu_cli::target::{Discovered, EMPTY_BUS_ADVICE, Selected, UNREADABLE_PORT};
use tdfu_cli::wait::{REENUM_ATTEMPTS, REENUM_INTERVAL};

type TestResult = Result<(), Box<dyn std::error::Error>>;
type Disk = BTreeMap<String, Vec<u8>>;

// ---------------------------------------------------------------------------
// The bench.
// ---------------------------------------------------------------------------
/// A loader that answers as the U-Boot gadget does.
#[derive(Default)]
struct Gadget {
    alts: Vec<DfuAlt>,
    size: usize,
    medium: RefCell<BTreeMap<u8, Vec<u8>>>,
    erases: Cell<u32>,
    reboots: Cell<u32>,
    resets: Cell<u32>,
    gone: Cell<bool>,
    wedged: Cell<bool>,
    stalls: Cell<bool>,
}

impl Gadget {
    fn with_alts(size: usize, alts: &[(u8, &str)]) -> Rc<Gadget> {
        Rc::new(Gadget {
            alts: alts.iter().map(|(alt, name)| DfuAlt { alt: *alt, name: (*name).to_owned() }).collect(),
            size,
            ..Gadget::default()
        })
    }

    fn named(&self, name: &'static str) -> Result<u8, Error> {
        self.alts.iter().find(|alt| alt.name == name).map(|alt| alt.alt).ok_or(Error::MissingAlt(name))
    }

    fn preload(&self, alt: u8, bytes: Vec<u8>) {
        self.medium.borrow_mut().insert(alt, bytes);
    }

    fn medium(&self, alt: u8) -> Vec<u8> {
        self.medium.borrow().get(&alt).cloned().unwrap_or_default()
    }
}

/// The three-alt shape every shipped loader has.
fn loader_gadget(size: usize) -> Rc<Gadget> {
    Gadget::with_alts(size, &[(0, "flash"), (1, "erase"), (2, "reboot")])
}

#[derive(Clone)]
struct Device {
    descriptors: DeviceDescriptors,
    stage: Option<Stage>,
    detection: Option<Detection>,
    gadget: Option<Rc<Gadget>>,
}

fn descriptors(address: u8, port_path: &[u8]) -> DeviceDescriptors {
    DeviceDescriptors { vendor_id: 0xA108, product_id: 0xC309, bus: 1, address, port_path: port_path.to_vec() }
}

fn variant(loader_dir: &str) -> Variant {
    Variant { loader_dir: loader_dir.to_owned() }
}

fn t31x() -> Detection {
    Detection {
        warning: None,
        answer: Answer::Resolved(Resolved {
            chip: "T31X".to_owned(),
            variant: variant("t31x"),
            dram: Some("DDR2".to_owned()),
        }),
    }
}

fn bootrom(detection: Detection) -> Device {
    Device {
        descriptors: descriptors(7, &[4, 2]),
        stage: Some(Stage::Bootrom),
        detection: Some(detection),
        gadget: None,
    }
}

/// A bootrom that answers no register read.
fn mute_bootrom() -> Device {
    Device { detection: None, ..bootrom(t31x()) }
}

fn gadget_at(gadget: &Rc<Gadget>, port_path: &[u8]) -> Device {
    Device {
        descriptors: descriptors(9, port_path),
        stage: Some(Stage::Gadget),
        detection: None,
        gadget: Some(Rc::clone(gadget)),
    }
}

fn emulated(gadget: &Rc<Gadget>) -> Device {
    gadget_at(gadget, &[4, 3])
}

/// A gadget that answers nothing.
fn dead_gadget() -> Device {
    Device { gadget: None, ..emulated(&loader_gadget(0)) }
}

fn opaque() -> Device {
    Device { descriptors: descriptors(2, &[]), stage: None, detection: None, gadget: None }
}

struct Bench {
    listings: VecDeque<Vec<Device>>,
    list_calls: u32,
    failing: Option<&'static str>,
    opened: Vec<usize>,
    uploads: Vec<(Vec<u8>, Vec<u8>)>,
    now: Vec<Device>,
    open: Option<Device>,
    disk: Disk,
    slept: Vec<u64>,
    progress: RefCell<Vec<Progress>>,
}

impl Bench {
    /// A bus that changes at each look until the last of these.
    fn appearing(listings: Vec<Vec<Device>>) -> Bench {
        Bench {
            listings: listings.into(),
            list_calls: 0,
            failing: None,
            opened: Vec::new(),
            uploads: Vec::new(),
            now: Vec::new(),
            open: None,
            disk: Disk::new(),
            slept: Vec::new(),
            progress: RefCell::new(Vec::new()),
        }
    }

    fn new(devices: Vec<Device>) -> Bench {
        Bench::appearing(vec![devices])
    }

    fn failing(reason: &'static str) -> Bench {
        Bench { failing: Some(reason), ..Bench::new(Vec::new()) }
    }

    fn holding(mut self, files: &[(&str, &[u8])]) -> Bench {
        for (path, bytes) in files {
            self.disk.insert((*path).to_owned(), bytes.to_vec());
        }
        self
    }

    fn look(&mut self) -> Result<Vec<Device>, Error> {
        self.list_calls += 1;
        if let Some(reason) = self.failing {
            return Err(Error::Other(reason.to_owned()));
        }
        self.now = if self.listings.len() > 1 {
            self.listings.pop_front().unwrap_or_default()
        } else {
            self.listings.front().cloned().unwrap_or_default()
        };
        Ok(self.now.clone())
    }

    fn file(&self, path: &str) -> Result<Vec<u8>, FileError> {
        self.disk.get(path).cloned().ok_or(FileError {
            kind: IoKind::NotFound,
            message: "No such file or directory".to_owned(),
        })
    }

    fn preflight(&mut self, images: &Images) -> Result<Loaded, Error> {
        let mut files = Preflight::preflight(images.clone());
        while let Some(path) = files.path().map(str::to_owned) {
            if files.need == Need::Output {
                self.disk.entry(path).or_default();
                files.opened(Ok(()))?;
            } else {
                files.take(self.file(&path))?;
            }
        }
        Ok(files.loaded)
    }

    fn tree(&self, root: &str, variant: &Variant) -> Result<Blobs, Error> {
        let paths = resolve(root, variant, self.file(&preferred(root, variant)).is_ok());
        let stage1 = read_loader(&paths.stage1, self.file(&paths.stage1))?;
        let uboot = read_loader(&paths.uboot, self.file(&paths.uboot))?;
        Ok(loaders(&paths, variant, stage1, uboot))
    }

    fn scan(&mut self) -> Result<Event, Error> {
        let mut found = Vec::new();
        for (position, device) in self.look()?.into_iter().enumerate() {
            let identity = if device.stage == Some(Stage::Bootrom) {
                self.opened.push(position);
                Some(match device.detection {
                    Some(detection) => Identity::Read(detection),
                    None => Identity::NotRead { kind: None, reason: "reading soc_id: timed out".to_owned() },
                })
            } else {
                None
            };
            found.push(Found { descriptors: device.descriptors, stage: device.stage, identity });
        }
        Ok(Event::Scanned(list(found, "no hint")))
    }

    fn note(&self, text: &str) {
        self.progress.borrow_mut().push(Progress::Note(text.to_owned()));
    }

    fn count(&self, phase: &str, done: usize) {
        self.progress.borrow_mut().push(Progress::Bytes {
            phase: phase.to_owned(),
            done: done as u64,
            total: Some(done as u64),
            counted: format!("{done}/{done} bytes"),
        });
    }

    fn gadget(&self) -> Result<Rc<Gadget>, Error> {
        let device = self.open.clone().ok_or(Error::Other("nothing is open".to_owned()))?;
        device.gadget.ok_or(Error::Other("the device is not answering".to_owned()))
    }

    /// Do what a run asks for.
    fn perform(&mut self, act: &Act, plan: &Plan, image: Option<&[u8]>) -> Result<Event, Error> {
        match act {
            Act::Proceed => Ok(Event::Went),
            Act::Enumerate => Ok(Event::Bus(
                self.look()?
                    .into_iter()
                    .map(|device| Discovered { descriptors: device.descriptors, stage: device.stage })
                    .collect(),
            )),
            Act::Scan => self.scan(),
            Act::Open(id) => {
                self.opened.push(*id);
                self.open = self.now.get(*id).cloned();
                Ok(Event::Opened)
            }
            Act::Diagnose => match self.open.as_ref().and_then(|device| device.stage) {
                Some(Stage::Bootrom) => Ok(Event::Reported("soc_id 0x10032004\ngrade 1003".to_owned())),
                _ => Err(Error::Invalid("the eFuse is read in the bootrom: power-cycle it".to_owned())),
            },
            Act::Detect => {
                let detection = self.open.as_ref().and_then(|device| device.detection.clone());
                detection.map(Event::Detected).ok_or(Error::Other("reading soc_id: timed out".to_owned()))
            }
            Act::ReadLoaders(variant) => {
                let root = firmware_root(plan.images.firmware_dir.as_deref(), Some("/bin"));
                self.tree(&root, variant).map(Event::Loaders)
            }
            Act::Upload { stage1, uboot } => {
                self.uploads.push((stage1.clone(), uboot.clone()));
                Ok(Event::Uploaded)
            }
            Act::Probe => {
                let gadget = self.gadget()?;
                if gadget.wedged.replace(false) {
                    gadget.resets.set(gadget.resets.get() + 1);
                    self.note("the gadget was wedged: USB-reset it and retrying once");
                }
                Ok(Event::Probed(DfuInfo {
                    alts: gadget.alts.clone(),
                    transfer_size: 4096,
                    bcd_dfu: 0x0110,
                }))
            }
            Act::Erase => {
                let gadget = self.gadget()?;
                let alt = gadget.named("erase")?;
                self.note(&format!("Erasing the whole flash (alt {alt})"));
                gadget.medium.borrow_mut().clear();
                gadget.erases.set(gadget.erases.get() + 1);
                self.note("Erase complete (verified blank)");
                Ok(Event::Moved)
            }
            Act::Write(alt) => {
                let gadget = self.gadget()?;
                if gadget.stalls.get() {
                    return Err(Error::Other("the download stalled".to_owned()));
                }
                let image = image.unwrap_or_default();
                self.count("download", image.len());
                gadget.preload(*alt, image.to_vec());
                self.note("DFU download complete");
                Ok(Event::Moved)
            }
            Act::Verify(alt) => {
                let image = image.unwrap_or_default();
                if self.gadget()?.medium(*alt) != image {
                    return Err(Error::Other("verify failed at offset 0x0".to_owned()));
                }
                self.note(&format!("Verify OK: {} bytes match", image.len()));
                Ok(Event::Moved)
            }
            Act::Read { alt, limit } => {
                let gadget = self.gadget()?;
                if gadget.stalls.get() {
                    return Err(Error::Other("the upload stalled".to_owned()));
                }
                let mut bytes = gadget.medium(*alt);
                bytes.resize(gadget.size, 0xFF);
                bytes.truncate(limit.map_or(usize::MAX, |limit| limit as usize));
                self.note(&format!("DFU upload complete: {} bytes", bytes.len()));
                self.disk.insert(plan.images.read.clone().unwrap_or_default(), bytes);
                Ok(Event::Moved)
            }
            Act::Reboot => {
                let gadget = self.gadget()?;
                let alt = gadget.named("reboot")?;
                self.note(&format!("Rebooting the device (alt {alt})"));
                gadget.reboots.set(gadget.reboots.get() + 1);
                gadget.gone.set(true);
                self.note("Reboot triggered");
                Ok(Event::Moved)
            }
            Act::Sleep(millis) => {
                self.slept.push(*millis);
                Ok(Event::Slept)
            }
            Act::Print(_) | Act::Flush => Ok(Event::Printed),
            Act::Finish(_) => Ok(Event::Went),
        }
    }
}

/// What an error says for itself.
fn words(error: &Error) -> String {
    match error {
        Error::Io(fault) => fault.message.clone(),
        Error::Invalid(message) => format!("invalid input: {message}"),
        Error::LoaderMissing(message) => format!("cannot read the loader {message}"),
        Error::MissingAlt(name) => format!("no `{name}` alt: load the DFU loader firmware"),
        Error::UnknownSoc { regs } => format!("soc_id {:#010x} is not in the table; pass --cpu", regs.soc_id),
        Error::Ambiguous { candidates, .. } => format!("pass --cpu: {candidates:?}"),
        Error::Protocol(message) | Error::Other(message) => message.clone(),
    }
}

fn said(failure: &Failure) -> String {
    failure.message(&words(&failure.error))
}

struct Outcome {
    result: Result<(), Failure>,
    out: String,
    err: String,
}

impl Outcome {
    fn failure(&self) -> Result<&Failure, String> {
        self.result.as_ref().err().ok_or(format!("the run was expected to fail: {:?}", self.out))
    }
}

fn drive(bench: &mut Bench, plan: Plan) -> Outcome {
    let mut outcome = Outcome { result: Ok(()), out: String::new(), err: String::new() };
    assert_eq!(unsupported(&plan), None);
    let loaded = bench.preflight(&plan.images);
    let image = loaded.as_ref().ok().and_then(|loaded| loaded.write.clone());
    let mut session = match run(plan.clone(), loaded) {
        Begun::Bus(session) => session,
        Begun::Stopped(failure) => {
            outcome.result = Err(failure);
            return outcome;
        }
        Begun::Daemon(session) => {
            let dial = Dial::resolve(session.at, Err("Name or service not known".to_owned()));
            outcome.result = dial.map(|_| ()).map_err(|error| error.failure(OpClass::Remote));
            return outcome;
        }
    };
    let mut bar = Bar::new();
    let mut event = Event::Went;
    outcome.result = loop {
        let turn = session.step(event);
        for line in &turn.say {
            bar.note(line, &mut outcome.err);
        }
        if let Act::Print(text) = &turn.act {
            outcome.out.push_str(text);
        }
        if let Act::Finish(result) = turn.act {
            break result;
        }
        let performed = bench.perform(&turn.act, &plan, image.as_deref());
        for step in bench.progress.borrow_mut().drain(..) {
            bar.render(&step, &mut outcome.err);
        }
        event = performed.unwrap_or_else(|error| Event::Failed { words: words(&error), error });
    };
    bar.clear(&mut outcome.err);
    outcome
}

// ---------------------------------------------------------------------------
// Plans.
// ---------------------------------------------------------------------------
fn target() -> Target {
    Target { index: 0, alt: AltSel::Default, cpu: None, size: None }
}

fn plan_with(actions: Vec<Action>, target: Target, images: Images) -> Result<Plan, String> {
    Plan::new(actions, target, images, None, false, false).map_err(|error| error.message())
}

fn plan(actions: Vec<Action>) -> Result<Plan, String> {
    plan_with(actions, target(), Images::default())
}

const FW: &str = "/t/fw.bin";
const DUMP: &str = "/t/dump.bin";

fn writing() -> Images {
    Images { write: Some(FW.to_owned()), ..Images::default() }
}

fn reading() -> Images {
    Images { read: Some(DUMP.to_owned()), ..Images::default() }
}

/// A recognisable image: never all-`0xFF`.
fn image(len: usize) -> Vec<u8> {
    (0..len).map(|at| (at % 251) as u8).collect()
}

/// Where `needle` starts in `text`.
fn at(text: &str, needle: &str) -> Result<usize, String> {
    text.find(needle).ok_or_else(|| format!("{needle:?} is not in the narration:\n{text}"))
}

// ---------------------------------------------------------------------------
// Reports.
// ---------------------------------------------------------------------------
#[test]
fn a_list_run_puts_the_table_on_stdout_and_the_scan_line_on_stderr() -> TestResult {
    let mut bench = Bench::new(vec![bootrom(t31x())]);
    let outcome = drive(&mut bench, plan(vec![Action::List])?);
    assert!(outcome.out.starts_with("Found 1 device:\n"), "{}", outcome.out);
    assert!(outcome.out.contains("T31X (loader t31x, DDR2)"), "{}", outcome.out);
    assert_eq!(outcome.err, "Scanning for Ingenic devices...\n");
    Ok(())
}

#[test]
fn fe_cli_an_empty_bus_is_a_successful_run() -> TestResult {
    let outcome = drive(&mut Bench::new(Vec::new()), plan(vec![Action::List])?);
    assert_eq!(outcome.result, Ok(()));
    assert_eq!(outcome.out, "No Ingenic devices found\n");
    assert!(outcome.out.starts_with(NONE_FOUND));
    Ok(())
}

/// `--wait` runs before the action, and its narration lands on stderr.
#[test]
fn wait_precedes_the_action() -> TestResult {
    let mut bench = Bench::appearing(vec![Vec::new(), vec![bootrom(t31x())]]);
    let waiting = Plan::new(vec![Action::List], target(), Images::default(), None, true, false)
        .map_err(|error| error.message())?;
    let outcome = drive(&mut bench, waiting);
    assert_eq!(
        outcome.err,
        "Waiting for an Ingenic device to appear (Ctrl-C to abort)...\n\
         Device found.\n\
         Scanning for Ingenic devices...\n"
    );
    assert!(outcome.out.contains("T31X"), "{}", outcome.out);
    assert_eq!(bench.slept, vec![500]);
    Ok(())
}

/// A failed enumeration exits 1: the device class, not the transfer class.
#[test]
fn fe_cli_a_failed_listing_exits_one() -> TestResult {
    let outcome = drive(&mut Bench::failing("sysfs is unreadable"), plan(vec![Action::List])?);
    let failure = outcome.failure()?;
    assert_eq!(failure.class, OpClass::Device);
    assert_eq!(failure.exit_code(), DEVICE);
    assert!(said(failure).contains("sysfs is unreadable"), "{failure:?}");
    assert!(matches!(failure.error, Error::Other(_)), "the cause must be reachable");
    Ok(())
}

#[test]
fn fe_cli_a_file_error_exits_three_from_a_list_run() {
    let fault = FileError { kind: IoKind::Other, message: "stdout is gone".to_owned() };
    assert_eq!(Failure::new(Error::Io(fault), OpClass::Device).exit_code(), FILE);
}

/// `-l` beside an action does not swallow it.
#[test]
fn fe_cli_bug13_list_never_swallows_the_action() -> TestResult {
    let cli = Cli { list: true, write: Some("/nonexistent/tdfu/fw.bin".to_owned()), ..Cli::default() };
    let combined = cli.into_plan().map_err(|error| error.message())?;
    assert_eq!(
        combined.actions,
        vec![Action::List, Action::Bootstrap(BootstrapTrigger::Auto), Action::Write],
        "the write must survive into the plan"
    );
    let outcome = drive(&mut Bench::new(vec![dead_gadget()]), combined);
    let failure = outcome.failure()?;
    assert_ne!(failure.exit_code(), 0, "a write that did not happen is never a success");
    assert!(said(failure).contains("-w"), "{failure:?}");
    assert!(
        outcome.out.is_empty(),
        "and nothing was listed either: the refusal came first, {:?}",
        outcome.out
    );
    Ok(())
}

/// `--diag` renders the report and nothing else, on stdout.
#[test]
fn the_diag_arm_prints_cores_report_on_stdout() -> TestResult {
    let mut bench = Bench::new(vec![bootrom(t31x())]);
    let outcome = drive(&mut bench, plan(vec![Action::Diag])?);
    assert_eq!(outcome.out, "soc_id 0x10032004\ngrade 1003\n");
    assert!(outcome.out.contains("1003"), "the report is not on stdout: {:?}", outcome.out);
    assert!(outcome.out.ends_with('\n'), "a terminal wants the trailing newline");
    assert!(
        outcome.err.contains("eFuse"),
        "the one context line is not on stderr: {:?}",
        outcome.err
    );
    assert!(!outcome.err.contains("1003"), "the report leaked onto stderr: {:?}", outcome.err);
    assert_eq!(bench.opened, vec![0], "exactly one device was opened");
    Ok(())
}

/// `--diag` at a device that is not in the bootrom is refused like any other error.
#[test]
fn the_diag_arm_surfaces_the_stage_gate() -> TestResult {
    let outcome = drive(&mut Bench::new(vec![dead_gadget()]), plan(vec![Action::Diag])?);
    let failure = outcome.failure()?;
    assert!(
        said(failure).contains("bootrom"),
        "the refusal must say what to do: {failure:?}"
    );
    assert_eq!(
        failure.exit_code(),
        DEVICE,
        "--diag wrote nothing, so it is not a transfer error"
    );
    assert!(outcome.out.is_empty(), "a refused diag must print no report: {:?}", outcome.out);
    Ok(())
}

/// A local refusal is not blamed on the operator's command line.
#[test]
fn fe_cli_a_device_refusal_is_not_called_invalid_input() -> TestResult {
    let outcome = drive(&mut Bench::new(Vec::new()), plan(vec![Action::Erase])?);
    let failure = outcome.failure()?;
    let said = said(failure);
    assert!(said.starts_with("no Ingenic devices on the bus"), "{said}");
    assert!(
        !said.contains("invalid input"),
        "the bus is not the command line: {said}"
    );
    assert!(said.contains(EMPTY_BUS_ADVICE), "{said}");
    assert_eq!(failure.exit_code(), DEVICE, "and the code is the one it always was");
    Ok(())
}

/// `--host` goes to the daemon, and the local bus is not touched on the way.
#[test]
fn a_remote_plan_is_dispatched_to_the_daemon() -> TestResult {
    let mut bench = Bench::new(vec![dead_gadget()]);
    let remote = Plan::new(
        vec![Action::List],
        target(),
        Images::default(),
        Some(Remote { host: "camera.invalid".to_owned(), port: 5051, token: None }),
        false,
        false,
    )
    .map_err(|error| error.message())?;
    let outcome = drive(&mut bench, remote);
    let failure = outcome.failure()?;
    assert!(said(failure).contains("camera.invalid:5051"), "{failure:?}");
    assert_eq!(failure.class, OpClass::Remote);
    assert_eq!(failure.exit_code(), PROTOCOL, "a failed connect is 4");
    assert_eq!(bench.list_calls, 0, "a remote run does not scan the local bus");
    assert!(outcome.out.is_empty(), "and prints no table for a daemon it never reached");
    Ok(())
}

/// A loader that is missing is a file error, and costs no bus work.
#[test]
fn fe_cli_a_missing_image_costs_no_bus_work() -> TestResult {
    let mut bench = Bench::new(vec![bootrom(t31x())]);
    let bootstrapping = plan_with(
        vec![Action::Bootstrap(BootstrapTrigger::Requested)],
        target(),
        Images {
            spl: Some("/nonexistent/tdfu/spl.bin".to_owned()),
            uboot: Some("/nonexistent/tdfu/uboot.bin".to_owned()),
            ..Images::default()
        },
    )?;
    let outcome = drive(&mut bench, bootstrapping);
    let failure = outcome.failure()?;
    assert_eq!(failure.exit_code(), FILE, "a missing loader is exit 3: {failure:?}");
    assert!(said(failure).contains("spl.bin"), "{failure:?}");
    assert_eq!(bench.list_calls, 0, "nothing was enumerated");
    assert_eq!(bench.opened, Vec::<usize>::new(), "nothing was opened");
    Ok(())
}

/// A zero-length `-w` image never costs a USB-boot.
#[test]
fn fe_cli_an_empty_write_image_is_refused_before_the_bus() -> TestResult {
    let mut bench = Bench::new(vec![bootrom(t31x())]).holding(&[(FW, b"")]);
    let plan = plan_with(
        vec![Action::Bootstrap(BootstrapTrigger::Auto), Action::Write],
        target(),
        writing(),
    )?;
    let outcome = drive(&mut bench, plan);
    let failure = outcome.failure()?;
    assert_eq!(failure.exit_code(), FILE, "an empty image is a file problem: {failure:?}");
    assert!(said(failure).contains("is empty"), "{failure:?}");
    assert_eq!(bench.list_calls, 0, "nothing was enumerated");
    assert_eq!(bench.opened, Vec::<usize>::new(), "and nothing was USB-booted");
    Ok(())
}

/// `-l` never probes, and so never resets, a bootrom.
#[test]
fn fe_cli_list_no_reset_on_bootrom() -> TestResult {
    let mut bench = Bench::new(vec![bootrom(t31x())]);
    let outcome = drive(&mut bench, plan(vec![Action::List])?);
    assert!(outcome.out.contains("T31X"), "{}", outcome.out);
    assert!(
        !outcome.out.contains("alt setting(s)"),
        "a bootrom has no alts to show, and asking would reset it: {}",
        outcome.out
    );
    assert_eq!(
        bench.opened,
        vec![0],
        "opened once, for the three register reads, and not again for a probe"
    );
    Ok(())
}

/// `-l` prints the targeted gadget's alts, with the default marked.
#[test]
fn fe_cli_list_shows_the_targeted_gadgets_alts() -> TestResult {
    let outcome = drive(&mut Bench::new(vec![emulated(&loader_gadget(8192))]), plan(vec![Action::List])?);
    let out = &outcome.out;
    assert!(out.contains("DFU device 0: 3 alt setting(s)"), "{out}");
    assert!(out.contains("transfer size 4096 bytes, DFU 1.10"), "{out}");
    assert!(out.contains("alt 0: \"flash\"  (default)"), "{out}");
    assert!(out.contains("alt 1: \"erase\""), "{out}");
    assert!(out.contains("alt 2: \"reboot\""), "{out}");
    Ok(())
}

/// A gadget that does not answer is a note under a table that is right.
#[test]
fn a_gadget_that_does_not_answer_is_a_note() -> TestResult {
    let outcome = drive(&mut Bench::new(vec![dead_gadget()]), plan(vec![Action::List])?);
    assert_eq!(outcome.result, Ok(()));
    assert!(outcome.out.contains("Found 1 device:"), "{}", outcome.out);
    assert!(
        outcome.err.ends_with("note: device 0 would not answer a DFU probe: the device is not answering\n"),
        "{}",
        outcome.err
    );

    // And one that left the bus in between is one too.
    let mut leaving = Bench::appearing(vec![vec![dead_gadget()], Vec::new()]);
    let outcome = drive(&mut leaving, plan(vec![Action::List])?);
    assert_eq!(outcome.result, Ok(()));
    assert!(
        outcome
            .err
            .contains("would not answer a DFU probe: invalid input: no Ingenic devices on the bus"),
        "{}",
        outcome.err
    );
    Ok(())
}

/// `-l` against a wedged gadget says that it was reset.
#[test]
fn fe_cli_list_says_it_reset_a_wedged_gadget() -> TestResult {
    let gadget = loader_gadget(8192);
    gadget.wedged.set(true);
    let outcome = drive(&mut Bench::new(vec![emulated(&gadget)]), plan(vec![Action::List])?);
    assert_eq!(gadget.resets.get(), 1, "the wedge cost a bus reset");
    assert!(
        outcome.err.contains("USB-reset it and retrying once"),
        "the reset is announced, not silent: {}",
        outcome.err
    );
    assert!(
        outcome.out.contains("DFU device 0: 3 alt setting(s)"),
        "and the retry answered: {}",
        outcome.out
    );
    Ok(())
}

/// The same, on the transfer path.
#[test]
fn fe_cli_a_transfer_says_it_reset_a_wedged_gadget() -> TestResult {
    let payload = image(4200);
    let gadget = loader_gadget(8192);
    gadget.wedged.set(true);
    let mut bench = Bench::new(vec![emulated(&gadget)]).holding(&[(FW, &payload)]);
    let outcome = drive(&mut bench, plan_with(vec![Action::Write], target(), writing())?);
    assert_eq!(gadget.resets.get(), 1, "the wedge cost a bus reset");
    assert!(
        outcome.err.contains("USB-reset it and retrying once"),
        "the reset is announced, not silent: {}",
        outcome.err
    );
    assert_eq!(gadget.medium(0), payload, "and the write went through afterwards");
    Ok(())
}

// ---------------------------------------------------------------------------
// Bootstraps.
// ---------------------------------------------------------------------------
fn requested() -> Vec<Action> {
    vec![Action::Bootstrap(BootstrapTrigger::Requested)]
}

#[test]
fn fe_cli_bootstrapping_a_gadget_is_a_noop_that_says_so() -> TestResult {
    let mut bench = Bench::new(vec![dead_gadget()]);
    let outcome = drive(&mut bench, plan(requested())?);
    assert_eq!(outcome.result, Ok(()));
    assert!(outcome.err.contains("already a U-Boot DFU gadget"), "{}", outcome.err);
    assert_eq!(bench.opened, Vec::<usize>::new(), "a no-op opens nothing");
    Ok(())
}

/// An unclassifiable device is never USB-booted.
#[test]
fn fe_cli_an_unclassifiable_device_is_never_bootstrapped() -> TestResult {
    let mut bench = Bench::new(vec![opaque()]);
    let outcome = drive(&mut bench, plan(requested())?);
    let failure = outcome.failure()?;
    assert!(said(failure).contains("unrecognised kind"), "{failure:?}");
    assert_eq!(failure.exit_code(), DEVICE);
    assert_eq!(bench.opened, Vec::<usize>::new(), "nothing was uploaded to it");
    assert!(bench.uploads.is_empty());
    Ok(())
}

/// An auto-bootstrap says that the transfer is what needed it.
#[test]
fn an_auto_bootstrap_explains_itself_when_it_cannot_run() -> TestResult {
    let auto = plan(vec![Action::Bootstrap(BootstrapTrigger::Auto)])?;
    let outcome = drive(&mut Bench::new(vec![opaque()]), auto);
    let failure = outcome.failure()?;
    assert!(said(failure).contains("this transfer needs first"), "{failure:?}");
    Ok(())
}

/// A bootstrap that cannot pick a loader prints the same advice `-l` prints.
#[test]
fn cli_surfaces_the_detection_caveat_when_cpu_is_needed() -> TestResult {
    let ambiguous = Detection {
        warning: None,
        answer: Answer::Ambiguous {
            regs: SocRegs { soc_id: 0x1004_0123, cpu_id: 0x0040, sub1: 0, sub2: 0x1234, t33_grade: None },
            family: Family { name: "T4x".to_owned(), grade_source: GradeSource::SubSocType2 },
            candidates: Vec::new(),
        },
    };
    let outcome = drive(&mut Bench::new(vec![bootrom(ambiguous)]), plan(requested())?);
    let failure = outcome.failure()?;
    assert!(
        outcome.err.contains("note:"),
        "the advice must reach stderr: {:?}",
        outcome.err
    );
    assert!(
        outcome.err.contains("--cpu"),
        "and it must say what to pass: {:?}",
        outcome.err
    );
    assert!(
        matches!(failure.error, Error::Ambiguous { .. }),
        "the candidates must survive into the error: {failure:?}"
    );
    assert_eq!(failure.exit_code(), DEVICE);
    Ok(())
}

/// An unknown chip refuses with the registers, not with a guess.
#[test]
fn an_unknown_soc_refuses_rather_than_guessing_a_loader() -> TestResult {
    let regs = SocRegs { soc_id: 0x0999_9000, cpu_id: 0x9999, sub1: 0, sub2: 0, t33_grade: None };
    let unknown = Detection { warning: None, answer: Answer::Unknown { regs } };
    let mut bench = Bench::new(vec![bootrom(unknown)]);
    let outcome = drive(&mut bench, plan(requested())?);
    let failure = outcome.failure()?;
    assert_eq!(failure.error, Error::UnknownSoc { regs });
    assert!(said(failure).contains("--cpu"), "{failure:?}");
    assert!(bench.uploads.is_empty());
    Ok(())
}

/// `--cpu` skips detection, so a bootrom is never asked for a register.
#[test]
fn det_overrides_bypass_probe() -> TestResult {
    let forced = plan_with(
        requested(),
        Target { cpu: Some(variant("t31x")), ..target() },
        Images { firmware_dir: Some("/nonexistent/tdfu-firmware".to_owned()), ..Images::default() },
    )?;
    let outcome = drive(&mut Bench::new(vec![mute_bootrom()]), forced);
    let failure = outcome.failure()?;
    assert_eq!(failure.exit_code(), FILE, "it reached the tree lookup: {failure:?}");
    assert!(said(failure).contains("t31x"), "{failure:?}");
    Ok(())
}

fn tree() -> [(&'static str, &'static [u8]); 2] {
    [("/fw/dfu/t31x/spl.bin", b"stage-1"), ("/fw/dfu/t31x/uboot.bin", b"u-boot")]
}

/// A bootstrap runs the sequence and comes back with the gadget it produced.
#[test]
fn fe_cli_a_bootstrap_waits_for_the_gadget_it_created() -> TestResult {
    let gadget = loader_gadget(8192);
    let mut bench = Bench::appearing(vec![vec![mute_bootrom()], vec![gadget_at(&gadget, &[4, 2])]])
        .holding(&tree());
    let forced = plan_with(
        requested(),
        Target { cpu: Some(variant("t31x")), ..target() },
        Images { firmware_dir: Some("/fw".to_owned()), ..Images::default() },
    )?;
    let outcome = drive(&mut bench, forced);
    assert_eq!(outcome.result, Ok(()));
    assert!(outcome.err.contains("Bootstrapping device 0"), "{}", outcome.err);
    assert!(outcome.err.contains("The U-Boot DFU gadget is up"), "{}", outcome.err);
    assert_eq!(bench.uploads, vec![(b"stage-1".to_vec(), b"u-boot".to_vec())]);
    Ok(())
}

/// Only the port of the device that was booted satisfies the wait, and the wait ends.
#[test]
fn a_bootstrap_waits_for_its_own_port_and_not_for_ever() -> TestResult {
    let gadget = loader_gadget(8192);
    let other = gadget_at(&gadget, &[9, 9]);
    let forced = || {
        plan_with(
            requested(),
            Target { cpu: Some(variant("t31x")), ..target() },
            Images { firmware_dir: Some("/fw".to_owned()), ..Images::default() },
        )
    };
    let mut bench = Bench::appearing(vec![
        vec![mute_bootrom()],
        vec![other.clone()],
        vec![other.clone(), gadget_at(&gadget, &[4, 2])],
    ])
    .holding(&tree());
    let outcome = drive(&mut bench, forced()?);
    assert_eq!(outcome.result, Ok(()));
    assert!(
        outcome.err.contains("The U-Boot DFU gadget is up at index 1 (was 0)."),
        "{}",
        outcome.err
    );
    assert_eq!(bench.slept, vec![REENUM_INTERVAL]);

    let mut bench = Bench::appearing(vec![vec![mute_bootrom()], vec![other]]).holding(&tree());
    let outcome = drive(&mut bench, forced()?);
    let failure = outcome.failure()?;
    assert_eq!(failure.exit_code(), DEVICE);
    assert!(said(failure).contains("within 30 s"), "{failure:?}");
    assert_eq!(bench.slept, vec![REENUM_INTERVAL; REENUM_ATTEMPTS as usize - 1]);

    let nowhere = Device { descriptors: descriptors(7, &[]), ..mute_bootrom() };
    let mut bench = Bench::new(vec![nowhere]).holding(&tree());
    let outcome = drive(&mut bench, forced()?);
    assert_eq!(said(outcome.failure()?), UNREADABLE_PORT);
    Ok(())
}

/// A pair that the operator gave is what is uploaded, and nothing is read off the device.
#[test]
fn a_custom_pair_is_what_is_uploaded() -> TestResult {
    let gadget = loader_gadget(8192);
    let mut bench = Bench::appearing(vec![vec![mute_bootrom()], vec![gadget_at(&gadget, &[4, 2])]])
        .holding(&[("/t/spl.bin", b"mine"), ("/t/u.bin", b"too")]);
    let custom = plan_with(
        requested(),
        target(),
        Images { spl: Some("/t/spl.bin".to_owned()), uboot: Some("/t/u.bin".to_owned()), ..Images::default() },
    )?;
    let outcome = drive(&mut bench, custom);
    assert_eq!(outcome.result, Ok(()));
    assert!(
        outcome.err.contains("Bootstrapping device 0 with --spl /t/spl.bin + --uboot /t/u.bin\n"),
        "{}",
        outcome.err
    );
    assert_eq!(bench.uploads, vec![(b"mine".to_vec(), b"too".to_vec())]);
    Ok(())
}

/// `-w` against a bootrom USB-boots it, waits for the gadget, and writes to that.
#[test]
fn fe_cli_autobootstrap_writes_to_the_gadget_it_created() -> TestResult {
    let payload = image(4200);
    let gadget = loader_gadget(8192);
    let mut bench = Bench::appearing(vec![vec![bootrom(t31x())], vec![gadget_at(&gadget, &[4, 2])]])
        .holding(&tree())
        .holding(&[(FW, &payload)]);
    let cli = Cli {
        write: Some(FW.to_owned()),
        cpu: Some(variant("t31x")),
        firmware_dir: Some("/fw".to_owned()),
        ..Cli::default()
    };
    let outcome = drive(&mut bench, cli.into_plan().map_err(|error| error.message())?);
    assert_eq!(outcome.result, Ok(()));
    assert!(outcome.err.contains("Bootstrapping device 0"), "{}", outcome.err);
    assert!(
        at(&outcome.err, "The U-Boot DFU gadget is up")? < at(&outcome.err, "DFU download complete")?,
        "the write must follow the bootstrap that made it possible:\n{}",
        outcome.err
    );
    assert_eq!(
        gadget.medium(0),
        payload,
        "and it landed on the gadget the bootstrap produced"
    );
    Ok(())
}

// ---------------------------------------------------------------------------
// Transfers.
// ---------------------------------------------------------------------------
/// The codes, each from the thing that produces it.
#[test]
fn fe_cli_exit_codes() -> TestResult {
    let mut bench = Bench::new(vec![bootrom(t31x())]);
    assert!(drive(&mut bench, plan(vec![Action::List])?).result.is_ok());

    let not_dfu = || Error::Other("not a DFU device".to_owned());
    for device in [Action::List, Action::Diag, Action::Bootstrap(BootstrapTrigger::Auto)] {
        let failure = Failure::new(not_dfu(), class_of(&device));
        assert_eq!(failure.exit_code(), DEVICE, "{}", device.flag());
    }
    for transfer in [Action::Erase, Action::Write, Action::Verify, Action::Read, Action::Reboot] {
        let failure = Failure::new(not_dfu(), class_of(&transfer));
        assert_eq!(failure.exit_code(), TRANSFER, "{}", transfer.flag());
    }
    for class in [OpClass::Device, OpClass::Transfer, OpClass::Remote] {
        let fault = FileError { kind: IoKind::Other, message: "disk".to_owned() };
        assert_eq!(Failure::new(Error::Io(fault), class).exit_code(), FILE, "{class:?}");
    }
    assert_eq!(Failure::new(not_dfu(), OpClass::Remote).exit_code(), PROTOCOL);
    Ok(())
}

/// The order at the execution level: each operation announced itself in this one.
#[test]
fn fe_cli_op_order_is_the_order_operations_run_in() -> TestResult {
    let payload = image(4200);
    let gadget = loader_gadget(8192);
    let mut bench = Bench::new(vec![emulated(&gadget)]).holding(&[(FW, &payload)]);
    let cli = Cli {
        reboot: true,
        read: Some(DUMP.to_owned()),
        verify: true,
        write: Some(FW.to_owned()),
        erase: true,
        list: true,
        ..Cli::default()
    };
    let outcome = drive(&mut bench, cli.into_plan().map_err(|error| error.message())?);
    assert_eq!(outcome.result, Ok(()));
    let err = &outcome.err;
    let erase = at(err, "Erase complete (verified blank)")?;
    let write = at(err, "DFU download complete")?;
    let verify = at(err, "Verify OK: 4200 bytes match")?;
    let read = at(err, "DFU upload complete: 8192 bytes")?;
    let reboot = at(err, "Reboot triggered")?;
    assert!(
        erase < write && write < verify && verify < read && read < reboot,
        "order is erase, write, verify, read, reboot:\n{err}"
    );
    assert_eq!(gadget.erases.get(), 1, "the flash was wiped once");
    assert_eq!(gadget.medium(0), payload, "the image is on the flash");
    assert_eq!(bench.disk[DUMP].len(), 8192, "the whole 8 KiB alt came back");
    assert!(gadget.gone.get(), "the reboot took the device off the bus");
    assert!(outcome.out.contains("Found 1 device:"), "{}", outcome.out);
    Ok(())
}

#[test]
fn op_write_puts_the_image_on_the_flash() -> TestResult {
    let payload = image(4200);
    let gadget = loader_gadget(8192);
    let mut bench = Bench::new(vec![emulated(&gadget)]).holding(&[(FW, &payload)]);
    let outcome = drive(&mut bench, plan_with(vec![Action::Write], target(), writing())?);
    assert_eq!(gadget.medium(0), payload);
    assert_eq!(
        outcome.err.matches("DFU download complete").count(),
        1,
        "the completion line is printed once: {:?}",
        outcome.err
    );
    assert!(
        outcome.err.contains("download"),
        "the byte counter must be visible: {:?}",
        outcome.err
    );
    Ok(())
}

/// A device that stalls the download exits 2, the transfer class.
#[test]
fn op_write_a_stalled_download_is_a_transfer_error() -> TestResult {
    let gadget = loader_gadget(8192);
    gadget.stalls.set(true);
    let mut bench = Bench::new(vec![emulated(&gadget)]).holding(&[(FW, &image(4200))]);
    let outcome = drive(&mut bench, plan_with(vec![Action::Write], target(), writing())?);
    let failure = outcome.failure()?;
    assert_eq!(failure.class, OpClass::Transfer);
    assert_eq!(failure.exit_code(), TRANSFER, "{failure:?}");
    assert!(gadget.medium(0).is_empty(), "nothing was written");
    Ok(())
}

/// The verify runs on the write's session, against the same image and the same alt.
#[test]
fn op_verify_follows_the_write_it_belongs_to() -> TestResult {
    let gadget = loader_gadget(8192);
    let mut bench = Bench::new(vec![emulated(&gadget)]).holding(&[(FW, &image(4200))]);
    let plan = plan_with(vec![Action::Write, Action::Verify], target(), writing())?;
    let outcome = drive(&mut bench, plan);
    let err = &outcome.err;
    assert_eq!(err.matches("Verify OK: 4200 bytes match").count(), 1, "{err:?}");
    assert!(at(err, "DFU download complete")? < at(err, "Verify OK")?, "{err}");
    assert_eq!(err.matches("Targeting alt 0").count(), 1, "{err:?}");
    Ok(())
}

#[test]
fn op_verify_a_mismatch_is_a_transfer_error() -> TestResult {
    let gadget = loader_gadget(8192);
    gadget.preload(0, vec![0x5A; 4200]);
    let mut bench = Bench::new(vec![emulated(&gadget)]).holding(&[(FW, &image(4200))]);
    let outcome = drive(&mut bench, plan_with(vec![Action::Verify], target(), writing())?);
    let failure = outcome.failure()?;
    assert!(said(failure).contains("verify failed"), "{failure:?}");
    assert_eq!(failure.exit_code(), TRANSFER, "{failure:?}");
    Ok(())
}

/// The completion line of a read appears exactly once.
#[test]
fn op_read_writes_the_file_and_says_the_count_once() -> TestResult {
    let gadget = loader_gadget(8192);
    gadget.preload(0, image(8192));
    let mut bench = Bench::new(vec![emulated(&gadget)]).holding(&[(DUMP, &[0x5A; 20_000])]);
    let outcome = drive(&mut bench, plan_with(vec![Action::Read], target(), reading())?);
    assert_eq!(bench.disk[DUMP], image(8192), "the flash is in the file");
    assert_eq!(
        outcome.err.matches("DFU upload complete: 8192 bytes").count(),
        1,
        "said once and not again: {:?}",
        outcome.err
    );
    assert!(outcome.out.is_empty(), "a read puts nothing on stdout: {:?}", outcome.out);
    Ok(())
}

/// `--size` caps the read, exactly.
#[test]
fn op_read_size_caps_the_file() -> TestResult {
    let gadget = loader_gadget(8192);
    gadget.preload(0, image(8192));
    let mut bench = Bench::new(vec![emulated(&gadget)]);
    let plan = plan_with(vec![Action::Read], Target { size: Some(100), ..target() }, reading())?;
    let outcome = drive(&mut bench, plan);
    assert_eq!(bench.disk[DUMP], image(8192)[..100], "exactly 100 bytes");
    assert!(outcome.err.contains("DFU upload complete: 100 bytes"), "{:?}", outcome.err);
    Ok(())
}

/// A `-r` that never reaches a device leaves the earlier dump where it was.
#[test]
fn fe_cli_a_read_that_finds_no_device_keeps_the_earlier_dump() -> TestResult {
    let mut bench = Bench::new(Vec::new()).holding(&[(DUMP, b"an earlier dump")]);
    let outcome = drive(&mut bench, plan_with(vec![Action::Read], target(), reading())?);
    let failure = outcome.failure()?;
    assert!(said(failure).contains("no Ingenic devices"), "{failure:?}");
    assert_eq!(
        bench.disk[DUMP], b"an earlier dump",
        "nothing was transferred, so nothing may be destroyed"
    );
    Ok(())
}

#[test]
fn op_read_a_stalled_upload_is_a_transfer_error() -> TestResult {
    let gadget = loader_gadget(8192);
    gadget.stalls.set(true);
    let mut bench = Bench::new(vec![emulated(&gadget)]);
    let outcome = drive(&mut bench, plan_with(vec![Action::Read], target(), reading())?);
    let failure = outcome.failure()?;
    assert_eq!(failure.exit_code(), TRANSFER, "{failure:?}");
    assert!(
        bench.disk.contains_key(DUMP),
        "the file that was made is not cleaned up behind it"
    );
    Ok(())
}

/// The chip is wiped, and no alt is looked for.
#[test]
fn op_erase_wipes_and_proves_it() -> TestResult {
    let gadget = loader_gadget(8192);
    gadget.preload(0, image(8192));
    let outcome = drive(&mut Bench::new(vec![emulated(&gadget)]), plan(vec![Action::Erase])?);
    let err = &outcome.err;
    assert_eq!(gadget.erases.get(), 1);
    assert!(gadget.medium(0).is_empty(), "the medium is gone");
    assert!(err.contains("Erasing the whole flash (alt 1)"), "{err:?}");
    assert_eq!(err.matches("Erase complete (verified blank)").count(), 1, "{err:?}");
    assert!(!err.contains("Targeting alt"), "an erase needs no --alt: {err:?}");
    Ok(())
}

/// A loader with no `erase` alt fails the erase, so it is a transfer error.
#[test]
fn op_erase_without_the_alt_says_what_to_do() -> TestResult {
    let bare = Gadget::with_alts(8192, &[(0, "flash")]);
    let outcome = drive(&mut Bench::new(vec![emulated(&bare)]), plan(vec![Action::Erase])?);
    let failure = outcome.failure()?;
    assert!(matches!(failure.error, Error::MissingAlt(_)), "{failure:?}");
    assert_eq!(failure.exit_code(), TRANSFER, "{failure:?}");
    assert!(said(failure).contains("DFU loader firmware"), "{failure:?}");
    assert_eq!(bare.erases.get(), 0, "nothing was wiped");
    Ok(())
}

#[test]
fn op_reboot_takes_the_device_off_the_bus() -> TestResult {
    let gadget = loader_gadget(8192);
    let outcome = drive(&mut Bench::new(vec![emulated(&gadget)]), plan(vec![Action::Reboot])?);
    let err = &outcome.err;
    assert_eq!(gadget.reboots.get(), 1);
    assert!(gadget.gone.get(), "a reboot that left it on the bus did not happen");
    assert!(err.contains("Rebooting the device (alt 2)"), "{err:?}");
    assert_eq!(err.matches("Reboot triggered").count(), 1, "{err:?}");
    Ok(())
}

#[test]
fn op_reboot_without_the_alt_is_a_transfer_error() -> TestResult {
    let bare = Gadget::with_alts(8192, &[(0, "flash")]);
    let outcome = drive(&mut Bench::new(vec![emulated(&bare)]), plan(vec![Action::Reboot])?);
    let failure = outcome.failure()?;
    assert!(matches!(failure.error, Error::MissingAlt(_)), "{failure:?}");
    assert_eq!(failure.exit_code(), TRANSFER, "{failure:?}");
    assert_eq!(bare.reboots.get(), 0);
    assert!(!bare.gone.get(), "it is still there");
    Ok(())
}

// ---------------------------------------------------------------------------
// Choosing the alt.
// ---------------------------------------------------------------------------
/// "No alt" is a device error, not a transfer error.
#[test]
fn fe_cli_no_alt_is_a_device_error() -> TestResult {
    let odd = Gadget::with_alts(8192, &[(0, "nor"), (1, "nand")]);
    let mut bench = Bench::new(vec![emulated(&odd)]).holding(&[(FW, &image(64))]);
    let outcome = drive(&mut bench, plan_with(vec![Action::Write], target(), writing())?);
    let failure = outcome.failure()?;
    assert!(matches!(failure.error, Error::MissingAlt(_)), "{failure:?}");
    assert_eq!(failure.class, OpClass::Device);
    assert_eq!(failure.exit_code(), DEVICE, "{failure:?}");
    assert!(odd.medium(0).is_empty(), "nothing was written");
    Ok(())
}

/// A bad `--alt` must not cost an erase.
#[test]
fn a_refused_alt_never_costs_an_erase() -> TestResult {
    let gadget = loader_gadget(8192);
    gadget.preload(0, image(8192));
    let mut bench = Bench::new(vec![emulated(&gadget)]).holding(&[(FW, &image(64))]);
    let plan = plan_with(
        vec![Action::Erase, Action::Write],
        Target { alt: AltSel::Name("rootfs".to_owned()), ..target() },
        writing(),
    )?;
    let outcome = drive(&mut bench, plan);
    let failure = outcome.failure()?;
    assert_eq!(failure.exit_code(), DEVICE, "{failure:?}");
    assert!(said(failure).contains("rootfs"), "{failure:?}");
    assert_eq!(gadget.erases.get(), 0, "the chip must still hold its firmware");
    assert_eq!(gadget.medium(0).len(), 8192, "and all of it");
    Ok(())
}

/// `--alt` by name reaches the operation that uses it.
#[test]
fn an_explicit_alt_is_the_one_written_to() -> TestResult {
    let payload = image(64);
    let two = Gadget::with_alts(8192, &[(0, "flash"), (1, "spare")]);
    let mut bench = Bench::new(vec![emulated(&two)]).holding(&[(FW, &payload)]);
    let plan = plan_with(
        vec![Action::Write],
        Target { alt: AltSel::Name("spare".to_owned()), ..target() },
        writing(),
    )?;
    let outcome = drive(&mut bench, plan);
    assert!(
        outcome.err.contains(r#"Targeting alt 1 ("spare")"#),
        "{:?}",
        outcome.err
    );
    assert_eq!(two.medium(1), payload, "alt 1 took the bytes");
    assert!(two.medium(0).is_empty(), "and alt 0 did not");
    Ok(())
}

/// A transfer against a device that is neither a bootrom nor a gadget is refused.
#[test]
fn a_transfer_needs_the_gadget() -> TestResult {
    let mut bench = Bench::new(vec![opaque()]).holding(&[(FW, &image(64))]);
    let outcome = drive(&mut bench, plan_with(vec![Action::Write], target(), writing())?);
    let failure = outcome.failure()?;
    assert!(said(failure).contains("unrecognised kind"), "{failure:?}");
    assert_eq!(failure.exit_code(), DEVICE, "{failure:?}");
    assert!(bench.opened.is_empty());
    Ok(())
}

/// The remedy is the one for what the device is.
#[test]
fn the_remedy_fits_the_device() {
    let device = |stage: Option<Stage>| Selected { index: 3, id: 3, descriptors: descriptors(7, &[4, 2]), stage };
    assert_eq!(
        no_gadget(&device(Some(Stage::Bootrom))),
        Error::Invalid(
            "device 3 is in the bootrom, and a transfer needs the U-Boot DFU gadget: add -b to USB-boot it first; \
             every transfer normally gets that automatically"
                .to_owned()
        )
    );
    let words = match no_gadget(&device(Some(Stage::Firmware))) {
        Error::Invalid(message) => message,
        other => format!("{other:?}"),
    };
    assert!(words.contains("running vendor firmware") && words.contains("power-cycle it into the bootrom"), "{words}");
}

/// A name is quoted, and an alt without one is only numbered.
#[test]
fn the_targeted_alt_is_named_where_it_has_a_name() {
    let alts = vec![
        DfuAlt { alt: 4, name: String::new() },
        DfuAlt { alt: 1, name: "spare".to_owned() },
        DfuAlt { alt: 1, name: "again".to_owned() },
    ];
    assert_eq!(alt_name(&alts, 1), Some("spare"));
    assert_eq!(alt_name(&alts, 4), None);
    assert_eq!(alt_name(&alts, 9), None);
    assert_eq!(targeting(1, Some("\"spare\"")), "Targeting alt 1 (\"spare\").");
    assert_eq!(targeting(4, None), "Targeting alt 4.");
}

/// A refusal keeps this tool's wording, and any other error its own.
#[test]
fn a_refusal_keeps_its_wording() {
    let refused = failed(Error::Invalid("no such device".to_owned()), OpClass::Device);
    assert_eq!(refused.stated.as_deref(), Some("no such device"));
    assert_eq!(refused.error, Error::Invalid("no such device".to_owned()));
    let other = failed(Error::Other("stalled".to_owned()), OpClass::Transfer);
    assert_eq!(other.stated, None);
    assert_eq!(refuse_detection(t31x()), Ok(variant("t31x")));
}

/// Every action is there, so no plan is refused for what this build lacks.
#[test]
fn every_action_is_wired() -> TestResult {
    for action in [
        Action::List,
        Action::Diag,
        Action::Bootstrap(BootstrapTrigger::Auto),
        Action::Erase,
        Action::Write,
        Action::Verify,
        Action::Read,
        Action::Reboot,
    ] {
        assert_eq!(not_implemented(&action), None);
        assert_eq!(unsupported(&plan(vec![action])?), None);
    }
    Ok(())
}

/// An operation that reaches the device without its file, its device or its alt says so.
#[test]
fn a_disagreement_is_reported_as_one() -> TestResult {
    let nothing = Loaded { write: None, read: false, loaders: None };
    let gadget = Selected { index: 0, id: 0, descriptors: descriptors(9, &[4, 3]), stage: Some(Stage::Gadget) };
    for (action, flag) in [(Action::Write, "-w"), (Action::Verify, "--verify"), (Action::Read, "-r")] {
        let mut session = Session {
            gadget: Some(gadget.clone()),
            transport: true,
            alt: Some(0),
            point: Point::Prepared,
            ..Session::run(plan(vec![action])?, nothing.clone())
        };
        let turn = session.step(Event::Went);
        let failure = match turn.act {
            Act::Finish(Err(failure)) => failure,
            other => return Err(format!("{other:?}").into()),
        };
        assert_eq!(failure.class, OpClass::Transfer);
        assert_eq!(
            said(&failure),
            format!("{flag} reached the device with no file behind it; cli::actions and images::preflight disagree")
        );
    }
    assert!(NO_ALT.contains("without a resolved alt"));
    assert!(NO_TRANSPORT.contains("without an open device"));
    Ok(())
}

/// Narration that cannot be written ends the run as a file error.
#[test]
fn narration_that_cannot_be_written_is_a_file_error() -> TestResult {
    let nothing = Loaded { write: None, read: false, loaders: None };
    let mut session = Session::run(plan(vec![Action::List])?, nothing);
    session.step(Event::Went);
    let turn = session.step(Event::Went);
    assert_eq!(turn.act, Act::Scan);
    let fault = FileError { kind: IoKind::BrokenPipe, message: "stderr is gone".to_owned() };
    let turn = session.step(Event::Unsaid(fault));
    assert!(
        matches!(&turn.act, Act::Finish(Err(failure)) if failure.exit_code() == FILE),
        "{:?}",
        turn.act
    );
    Ok(())
}

/// The advice of a detection that chose nothing is narration too: where it cannot be written,
/// that is what ends the run.
#[test]
fn advice_that_cannot_be_written_is_a_file_error() -> TestResult {
    let nothing = Loaded { write: None, read: false, loaders: None };
    let bootrom = Discovered { descriptors: descriptors(9, &[4, 3]), stage: Some(Stage::Bootrom) };
    let regs = SocRegs { soc_id: 0x0999_9000, cpu_id: 0x9999, sub1: 0, sub2: 0, t33_grade: None };
    for written in [true, false] {
        let mut session = Session::run(plan(vec![Action::Bootstrap(BootstrapTrigger::Requested)])?, nothing.clone());
        session.step(Event::Went);
        assert_eq!(session.step(Event::Went).act, Act::Enumerate);
        assert_eq!(session.step(Event::Bus(vec![bootrom.clone()])).act, Act::Open(0));
        assert_eq!(session.step(Event::Opened).act, Act::Detect);
        let detection = Detection { warning: None, answer: Answer::Unknown { regs } };
        let turn = session.step(Event::Detected(detection));
        assert_eq!(turn.say.len(), 1, "{:?}", turn.say);
        assert_eq!(turn.act, Act::Proceed);
        let fault = FileError { kind: IoKind::BrokenPipe, message: "stderr is gone".to_owned() };
        let event = if written { Event::Went } else { Event::Unsaid(fault) };
        let failure = match session.step(event).act {
            Act::Finish(Err(failure)) => failure,
            other => return Err(format!("{other:?}").into()),
        };
        assert_eq!(failure.class, OpClass::Device);
        assert_eq!(matches!(failure.error, Error::UnknownSoc { .. }), written);
        assert_eq!(failure.exit_code(), if written { DEVICE } else { FILE });
    }
    Ok(())
}

/// A bus that cannot be listed is a failure, and nothing is opened on the way.
#[test]
fn a_failed_enumeration_propagates() -> TestResult {
    let mut bench = Bench::failing("sysfs is unreadable");
    let outcome = drive(&mut bench, plan(vec![Action::List])?);
    let failure = outcome.result.err().ok_or("a bus that cannot be listed is a failure")?;
    assert_eq!(failure.error, Error::Other("sysfs is unreadable".to_owned()));
    assert_eq!(failure.exit_code(), DEVICE);
    assert!(bench.opened.is_empty());
    assert_eq!(outcome.out, "");
    Ok(())
}
