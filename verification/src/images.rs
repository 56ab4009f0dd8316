//! Every local file the run needs, opened before the bus is touched.
//!
//! Read first, touch the device second: a path that is wrong is refused before a camera is
//! disturbed. The file that will be written comes last, because making it is the only step
//! that changes anything on disk, and it is emptied only by the first byte that lands in it.
use vstd::prelude::*;
use vstd::string::*;

use crate::loaders::Loaders;
use crate::model::{Error, FileError, IoKind, Variant};
use crate::plan::Images;

verus! {

/// The stage-1 and U-Boot images one bootstrap will upload.
#[derive(Debug, Clone, PartialEq, Eq)]
pub struct Blobs {
    /// The stage-1 image.
    pub stage1: Vec<u8>,
    /// The U-Boot image.
    pub uboot: Vec<u8>,
    /// Where they are from, for the line that says which loaders are used.
    pub source: String,
}

/// Every file that was got hold of.
#[derive(Debug, Clone, PartialEq, Eq)]
pub struct Loaded {
    /// The `-w` image, whole.
    pub write: Option<Vec<u8>>,
    /// Whether the `-r` target is open.
    pub read: bool,
    /// The `--spl` and `--uboot` pair.
    pub loaders: Option<Blobs>,
}

/// An image that cannot be read.
pub open spec fn unreadable_text(what: Seq<char>, path: Seq<char>, reason: Seq<char>) -> Seq<char> {
    "cannot read "@
        + what
        + ", "@
        + path
        + ": "@
        + reason
}

fn unreadable(what: &str, path: &str, reason: &str) -> (text: String)
    ensures
        text@ == unreadable_text(what@, path@, reason@),
{
    let mut text = "cannot read ".to_owned();
    text.append(what);
    text.append(", ");
    text.append(path);
    text.append(": ");
    text.append(reason);
    text
}

/// An image with nothing in it.
pub open spec fn empty_text(what: Seq<char>, path: Seq<char>) -> Seq<char> {
    what
        + " is empty, "@
        + path
        + ": there is nothing to write, and a zero-length download would report success"@
}

fn empty(what: &str, path: &str) -> (text: String)
    ensures
        text@ == empty_text(what@, path@),
{
    let mut text = what.to_owned();
    text.append(" is empty, ");
    text.append(path);
    text.append(": there is nothing to write, and a zero-length download would report success");
    text
}

/// A loader that cannot be read.
pub open spec fn no_loader_text(path: Seq<char>, reason: Seq<char>) -> Seq<char> {
    path
        + " ("@
        + reason
        + ")"@
}

fn no_loader(path: &str, reason: &str) -> (text: String)
    ensures
        text@ == no_loader_text(path@, reason@),
{
    let mut text = path.to_owned();
    text.append(" (");
    text.append(reason);
    text.append(")");
    text
}

/// A target that cannot be created.
pub open spec fn uncreatable_text(path: Seq<char>, reason: Seq<char>) -> Seq<char> {
    "cannot create the output file for -r, "@
        + path
        + ": "@
        + reason
}

fn uncreatable(path: &str, reason: &str) -> (text: String)
    ensures
        text@ == uncreatable_text(path@, reason@),
{
    let mut text = "cannot create the output file for -r, ".to_owned();
    text.append(path);
    text.append(": ");
    text.append(reason);
    text
}

/// The source of a custom loader pair.
pub open spec fn pair_text(spl: Seq<char>, uboot: Seq<char>) -> Seq<char> {
    "--spl "@
        + spl
        + " + --uboot "@
        + uboot
}

fn pair(spl: &str, uboot: &str) -> (text: String)
    ensures
        text@ == pair_text(spl@, uboot@),
{
    let mut text = "--spl ".to_owned();
    text.append(spl);
    text.append(" + --uboot ");
    text.append(uboot);
    text
}

/// The source of a pair out of the tree.
pub open spec fn tree_text(stage1: Seq<char>, variant: Seq<char>) -> Seq<char> {
    stage1
        + " ("@
        + variant
        + ")"@
}

fn tree(stage1: &str, variant: &str) -> (text: String)
    ensures
        text@ == tree_text(stage1@, variant@),
{
    let mut text = stage1.to_owned();
    text.append(" (");
    text.append(variant);
    text.append(")");
    text
}

/// What comes of reading an image that was named.
pub open spec fn image_read(
    path: Seq<char>,
    what: Seq<char>,
    got: Result<Vec<u8>, FileError>,
    image: Result<Vec<u8>, Error>,
) -> bool {
    match got {
        Err(fault) => image matches Err(Error::Io(error)) && error.kind == fault.kind && error.message@
            == unreadable_text(what, path, fault.message@),
        Ok(bytes) => if bytes@.len() == 0 {
            image matches Err(Error::Io(error)) && error.kind is InvalidData && error.message@ == empty_text(what, path)
        } else {
            image == Ok::<Vec<u8>, Error>(bytes)
        },
    }
}

/// Take what reading an image gave, with the path in whatever went wrong.
///
/// An image with nothing in it is refused here, where that costs nothing.
///
/// # Errors
/// [`Error::Io`] naming the path.
pub fn read_image(path: &str, what: &str, got: Result<Vec<u8>, FileError>) -> (image: Result<Vec<u8>, Error>)
    ensures
        image_read(path@, what@, got, image),
{
    match got {
        Err(fault) => Err(
            Error::Io(
                FileError { kind: fault.kind, message: unreadable(what, path, fault.message.as_str()) },
            ),
        ),
        Ok(bytes) => {
            if bytes.len() == 0 {
                return Err(Error::Io(FileError { kind: IoKind::InvalidData, message: empty(what, path) }));
            }
            Ok(bytes)
        },
    }
}

/// What comes of reading a loader that was named.
pub open spec fn loader_read(path: Seq<char>, got: Result<Vec<u8>, FileError>, blob: Result<Vec<u8>, Error>) -> bool {
    match got {
        Err(fault) => blob matches Err(Error::LoaderMissing(message)) && message@ == no_loader_text(
            path,
            fault.message@,
        ),
        Ok(bytes) => blob == Ok::<Vec<u8>, Error>(bytes),
    }
}

/// Take what reading a `--spl` or `--uboot` image gave.
///
/// # Errors
/// [`Error::LoaderMissing`] naming the path and the reason.
pub fn read_loader(path: &str, got: Result<Vec<u8>, FileError>) -> (blob: Result<Vec<u8>, Error>)
    ensures
        loader_read(path@, got, blob),
{
    match got {
        Err(fault) => Err(Error::LoaderMissing(no_loader(path, fault.message.as_str()))),
        Ok(bytes) => Ok(bytes),
    }
}

/// What comes of opening the `-r` target.
pub open spec fn output_opened(path: Seq<char>, got: Result<(), FileError>, opened: Result<(), Error>) -> bool {
    match got {
        Err(fault) => opened matches Err(Error::Io(error)) && error.kind == fault.kind && error.message@
            == uncreatable_text(path, fault.message@),
        Ok(_) => opened is Ok,
    }
}

/// Take what opening the `-r` target gave.
///
/// # Errors
/// [`Error::Io`] naming the path.
pub fn create_output(path: &str, got: Result<(), FileError>) -> (opened: Result<(), Error>)
    ensures
        output_opened(path@, got, opened),
{
    match got {
        Err(fault) => Err(
            Error::Io(FileError { kind: fault.kind, message: uncreatable(path, fault.message.as_str()) }),
        ),
        Ok(_) => Ok(()),
    }
}

/// The loaders of a variant, out of the tree.
pub fn loaders(paths: &Loaders, variant: &Variant, stage1: Vec<u8>, uboot: Vec<u8>) -> (blobs: Blobs)
    ensures
        blobs.stage1 == stage1,
        blobs.uboot == uboot,
        blobs.source@ == tree_text(paths.stage1@, variant.loader_dir@),
{
    Blobs { stage1, uboot, source: tree(paths.stage1.as_str(), variant.loader_dir.as_str()) }
}

/// The file that the preflight needs next.
#[derive(Debug, Clone, Copy, PartialEq, Eq, Structural)]
pub enum Need {
    /// The `-w` image, to be read.
    Image,
    /// The `--spl` image, to be read.
    Spl,
    /// The `--uboot` image, to be read.
    Uboot,
    /// The `-r` target, to be opened for writing, and made where it is missing.
    Output,
    /// Nothing: every file is there.
    Nothing,
}

/// What is left once the image is there.
pub open spec fn after_image(images: Images) -> Need {
    if images.spl is Some && images.uboot is Some {
        Need::Spl
    } else {
        after_loaders(images)
    }
}

/// What is left once the loaders are there.
pub open spec fn after_loaders(images: Images) -> Need {
    if images.read is Some {
        Need::Output
    } else {
        Need::Nothing
    }
}

/// The files of a plan, one after the other.
#[derive(Debug, Clone, PartialEq, Eq)]
pub struct Preflight {
    /// The paths.
    pub images: Images,
    /// The file that is needed next.
    pub need: Need,
    /// The stage-1 image, while its other half is read.
    pub spl: Option<Vec<u8>>,
    /// What was got hold of.
    pub loaded: Loaded,
}

impl Preflight {
    /// A file that is needed has a path, and a half of a pair is there while the other is read.
    pub open spec fn wf(self) -> bool {
        match self.need {
            Need::Image => self.images.write is Some,
            Need::Spl => self.images.spl is Some && self.images.uboot is Some,
            Need::Uboot => self.images.spl is Some && self.images.uboot is Some && self.spl is Some,
            Need::Output => self.images.read is Some,
            Need::Nothing => true,
        }
    }

    /// Begin with the files that `images` names.
    pub fn preflight(images: Images) -> (preflight: Preflight)
        ensures
            preflight.wf(),
            preflight.images == images,
            preflight.need == (if images.write is Some {
                Need::Image
            } else {
                after_image(images)
            }),
            preflight.spl is None,
            preflight.loaded == (Loaded { write: None, read: false, loaders: None }),
            preflight.complete_so_far(),
    {
        let need = if images.write.is_some() {
            Need::Image
        } else {
            Preflight::need_after_image(&images)
        };
        Preflight { images, need, spl: None, loaded: Loaded { write: None, read: false, loaders: None } }
    }

    fn need_after_image(images: &Images) -> (need: Need)
        ensures
            need == after_image(*images),
    {
        if images.spl.is_some() && images.uboot.is_some() {
            Need::Spl
        } else {
            Preflight::need_after_loaders(images)
        }
    }

    fn need_after_loaders(images: &Images) -> (need: Need)
        ensures
            need == after_loaders(*images),
    {
        if images.read.is_some() {
            Need::Output
        } else {
            Need::Nothing
        }
    }

    /// The path of the file that is needed next.
    pub open spec fn wanted(self) -> Option<Seq<char>> {
        match self.need {
            Need::Image => Some(self.images.write->0@),
            Need::Spl => Some(self.images.spl->0@),
            Need::Uboot => Some(self.images.uboot->0@),
            Need::Output => Some(self.images.read->0@),
            Need::Nothing => None,
        }
    }

    /// The path of the file that is needed next.
    pub fn path(&self) -> (path: Option<&str>)
        requires
            self.wf(),
        ensures
            match self.wanted() {
                Some(wanted) => path matches Some(path) && path@ == wanted,
                None => path is None,
            },
    {
        let path = match self.need {
            Need::Image => &self.images.write,
            Need::Spl => &self.images.spl,
            Need::Uboot => &self.images.uboot,
            Need::Output => &self.images.read,
            Need::Nothing => return None,
        };
        match path {
            Some(path) => Some(path.as_str()),
            None => None,
        }
    }

    /// What reading the file that is needed does to the preflight.
    pub open spec fn has_taken(self, got: Result<Vec<u8>, FileError>, after: Preflight, taken: Result<(), Error>) -> bool {
        let path = self.wanted()->0;
        match self.need {
            Need::Image => match taken {
                Ok(_) => got matches Ok(bytes) && bytes@.len() > 0 && after == (Preflight {
                    need: after_image(self.images),
                    loaded: Loaded { write: Some(bytes), ..self.loaded },
                    ..self
                }),
                Err(error) => image_read(path, "the image for -w"@, got, Err(error)) && after == self,
            },
            Need::Spl => match taken {
                Ok(_) => got matches Ok(bytes) && after == (Preflight {
                    need: Need::Uboot,
                    spl: Some(bytes),
                    ..self
                }),
                Err(error) => loader_read(path, got, Err(error)) && after == self,
            },
            Need::Uboot => match taken {
                Ok(_) => {
                    &&& got matches Ok(bytes)
                    &&& after.images == self.images
                    &&& after.need == after_loaders(self.images)
                    &&& after.spl is None
                    &&& after.loaded.write == self.loaded.write
                    &&& after.loaded.read == self.loaded.read
                    &&& after.loaded.loaders matches Some(blobs)
                    &&& blobs.stage1 == self.spl->0
                    &&& blobs.uboot == bytes
                    &&& blobs.source@ == pair_text(self.images.spl->0@, self.images.uboot->0@)
                },
                Err(error) => loader_read(path, got, Err(error)) && after == (Preflight { spl: None, ..self }),
            },
            _ => true,
        }
    }

    /// Take what reading the file that is needed gave.
    ///
    /// # Errors
    /// [`Error::Io`] for the image and [`Error::LoaderMissing`] for a loader, naming the path.
    pub fn take(&mut self, got: Result<Vec<u8>, FileError>) -> (taken: Result<(), Error>)
        requires
            old(self).wf(),
            old(self).need is Image || old(self).need is Spl || old(self).need is Uboot,
        ensures
            taken is Ok ==> final(self).wf(),
            old(self).has_taken(got, *final(self), taken),
    {
        match self.need {
            Need::Image => {
                let path = match &self.images.write {
                    Some(path) => path.as_str(),
                    None => return Ok(()),
                };
                match read_image(path, "the image for -w", got) {
                    Err(error) => Err(error),
                    Ok(bytes) => {
                        self.need = Preflight::need_after_image(&self.images);
                        self.loaded.write = Some(bytes);
                        Ok(())
                    },
                }
            },
            Need::Spl => {
                let path = match &self.images.spl {
                    Some(path) => path.as_str(),
                    None => return Ok(()),
                };
                match read_loader(path, got) {
                    Err(error) => Err(error),
                    Ok(bytes) => {
                        self.need = Need::Uboot;
                        self.spl = Some(bytes);
                        Ok(())
                    },
                }
            },
            _ => {
                let (spl, uboot) = match (&self.images.spl, &self.images.uboot) {
                    (Some(spl), Some(uboot)) => (spl.as_str(), uboot.as_str()),
                    _ => return Ok(()),
                };
                let source = pair(spl, uboot);
                let outcome = read_loader(uboot, got);
                let stage1 = match self.spl.take() {
                    Some(stage1) => stage1,
                    None => return Ok(()),
                };
                match outcome {
                    Err(error) => Err(error),
                    Ok(uboot) => {
                        self.need = Preflight::need_after_loaders(&self.images);
                        self.loaded.loaders = Some(Blobs { stage1, uboot, source });
                        Ok(())
                    },
                }
            },
        }
    }

    /// Take what opening the `-r` target gave.
    ///
    /// # Errors
    /// [`Error::Io`] naming the path.
    pub fn opened(&mut self, got: Result<(), FileError>) -> (opened: Result<(), Error>)
        requires
            old(self).wf(),
            old(self).need is Output,
        ensures
            output_opened(old(self).images.read->0@, got, opened),
            match opened {
                Ok(_) => final(self).wf() && *final(self) == (Preflight {
                    need: Need::Nothing,
                    loaded: Loaded { read: true, ..old(self).loaded },
                    ..*old(self)
                }),
                Err(_) => *final(self) == *old(self),
            },
    {
        let outcome = match &self.images.read {
            Some(path) => create_output(path.as_str(), got),
            None => Ok(()),
        };
        if outcome.is_ok() {
            self.need = Need::Nothing;
            self.loaded.read = true;
        }
        outcome
    }

    /// Is what was got hold of so far all that the plan named before the file that is needed?
    pub open spec fn complete_so_far(self) -> bool {
        &&& (self.need is Output || self.need is Nothing || self.need is Spl || self.need is Uboot) ==> (
        self.images.write is Some <==> self.loaded.write is Some)
        &&& (self.need is Output || self.need is Nothing) ==> (self.images.spl is Some && self.images.uboot is Some
            <==> self.loaded.loaders is Some)
        &&& self.need is Nothing ==> (self.images.read is Some <==> self.loaded.read)
        &&& self.loaded.write matches Some(image) ==> image@.len() > 0
        &&& self.need is Image ==> self.images.write is Some && self.loaded.write is None
        &&& self.need is Output || self.need is Spl || self.need is Uboot || self.need is Image ==> !self.loaded.read
        &&& self.need is Spl || self.need is Uboot || self.need is Image ==> self.loaded.loaders is None
    }
}

/// A preflight begins with nothing, and it is complete as far as it got.
pub proof fn law_a_preflight_begins_complete(images: Images, preflight: Preflight)
    requires
        preflight.images == images,
        preflight.need == (if images.write is Some {
            Need::Image
        } else {
            after_image(images)
        }),
        preflight.loaded == (Loaded { write: None, read: false, loaders: None }),
    ensures
        preflight.complete_so_far(),
{
}

/// Nothing on disk is changed for a run that is refused: the `-r` target is opened only once
/// every file that is read has been read, and it is the last of them.
pub proof fn law_the_target_is_opened_last(
    before: Preflight,
    got: Result<Vec<u8>, FileError>,
    after: Preflight,
    taken: Result<(), Error>,
)
    requires
        before.wf(),
        before.complete_so_far(),
        before.need is Image || before.need is Spl || before.need is Uboot,
        before.has_taken(got, after, taken),
        taken is Ok,
    ensures
        after.complete_so_far(),
        after.need is Output ==> (before.images.write is Some <==> after.loaded.write is Some)
            && (before.images.spl is Some && before.images.uboot is Some <==> after.loaded.loaders is Some),
{
}

/// The `-r` destination, emptied at the last possible moment.
///
/// An earlier dump is destroyed by nothing but the upload that replaces it.
#[derive(Debug, Clone, Copy, PartialEq, Eq, Structural)]
pub struct Output {
    /// Whether the file was emptied.
    pub emptied: bool,
}

impl Output {
    /// Is the file to be emptied before so many bytes are written?
    pub open spec fn due(self, count: int) -> bool {
        !self.emptied && count > 0
    }

    /// The destination once its file was emptied.
    pub open spec fn once_emptied(self) -> Output {
        Output { emptied: true }
    }

    /// A file that holds what it held.
    pub fn new() -> (output: Output)
        ensures
            output == (Output { emptied: false }),
    {
        Output { emptied: false }
    }

    /// Is the file to be emptied before `count` bytes are written? It is the first byte that
    /// empties it, so a write of none does not.
    pub fn is_due(&self, count: usize) -> (due: bool)
        ensures
            due == (!self.emptied && count > 0),
            due == self.due(count as int),
    {
        !self.emptied && count > 0
    }

    /// The file was emptied, which happens once.
    pub fn empty_once(&mut self)
        ensures
            *final(self) == (Output { emptied: true }),
            *final(self) == old(self).once_emptied(),
    {
        self.emptied = true;
    }
}

/// A file that is open for writing.
pub struct Held {
    /// What it holds.
    pub bytes: Seq<u8>,
    /// Where the next byte lands.
    pub cursor: int,
}

impl Held {
    /// The file, emptied, with the next byte at its start.
    pub open spec fn emptied(self) -> Held {
        Held { bytes: Seq::empty(), cursor: 0 }
    }

    /// The file once these bytes have landed in it, over what they reach.
    pub open spec fn written(self, bytes: Seq<u8>) -> Held {
        let end = self.cursor + bytes.len();
        let behind = if end < self.bytes.len() {
            self.bytes.skip(end)
        } else {
            Seq::empty()
        };
        Held { bytes: self.bytes.take(self.cursor) + bytes + behind, cursor: end }
    }
}

/// One write: the bytes at hand, and how many of them the file took.
pub struct Offer {
    /// The bytes at hand.
    pub bytes: Seq<u8>,
    /// How many were taken.
    pub taken: int,
}

impl Offer {
    /// The bytes that were taken.
    pub open spec fn landed(self) -> Seq<u8> {
        self.bytes.take(self.taken)
    }
}

/// A destination and its file after a write: emptied first where that is due.
pub open spec fn after_write(output: Output, file: Held, offer: Offer) -> (Output, Held) {
    if output.due(offer.bytes.len() as int) {
        (output.once_emptied(), file.emptied().written(offer.landed()))
    } else {
        (output, file.written(offer.landed()))
    }
}

/// A destination and its file after these writes, in order.
pub open spec fn after_writes(output: Output, file: Held, offers: Seq<Offer>) -> (Output, Held)
    decreases offers.len(),
{
    if offers.len() == 0 {
        (output, file)
    } else {
        let (before, held) = after_writes(output, file, offers.drop_last());
        after_write(before, held, offers.last())
    }
}

/// Everything that these writes landed, in order.
pub open spec fn all_landed(offers: Seq<Offer>) -> Seq<u8>
    decreases offers.len(),
{
    if offers.len() == 0 {
        Seq::empty()
    } else {
        all_landed(offers.drop_last()) + offers.last().landed()
    }
}

/// The file is emptied once, by the first write that has a byte at hand, and from then on holds
/// exactly what was written: no stale tail is left, and no later write empties it again. As long
/// as there is no such write, it holds what it held.
pub proof fn law_the_file_holds_what_was_written(file: Held, offers: Seq<Offer>)
    requires
        file.cursor == 0,
        forall|i: int| 0 <= i < offers.len() ==> 0 <= (#[trigger] offers[i]).taken <= offers[i].bytes.len(),
    ensures
        ({
            let (output, held) = after_writes(Output { emptied: false }, file, offers);
            if exists|i: int| 0 <= i < offers.len() && #[trigger] offers[i].bytes.len() > 0 {
                output.emptied && held.bytes == all_landed(offers) && held.cursor == held.bytes.len()
            } else {
                !output.emptied && held == file && all_landed(offers).len() == 0
            }
        }),
    decreases offers.len(),
{
    if offers.len() > 0 {
        let shorter = offers.drop_last();
        let last = offers.last();
        assert forall|i: int| 0 <= i < shorter.len() implies 0 <= (#[trigger] shorter[i]).taken
            <= shorter[i].bytes.len() by {
            assert(shorter[i] == offers[i]);
        }
        law_the_file_holds_what_was_written(file, shorter);
        let (before, held) = after_writes(Output { emptied: false }, file, shorter);
        if exists|i: int| 0 <= i < shorter.len() && #[trigger] shorter[i].bytes.len() > 0 {
            let i = choose|i: int| 0 <= i < shorter.len() && #[trigger] shorter[i].bytes.len() > 0;
            assert(offers[i].bytes.len() > 0);
            assert(held.written(last.landed()).bytes =~= all_landed(offers));
        } else {
            assert forall|i: int| 0 <= i < shorter.len() implies offers[i].bytes.len() == 0 by {
                assert(offers[i] == shorter[i]);
            }
            assert(all_landed(shorter) =~= Seq::empty());
            if last.bytes.len() > 0 {
                assert(offers[offers.len() - 1].bytes.len() > 0);
                assert(held.emptied().written(last.landed()).bytes =~= all_landed(offers));
            } else {
                assert(last.landed() =~= Seq::empty());
                assert(held.written(last.landed()).bytes =~= held.bytes);
            }
        }
    }
}

/// Each file goes where it belongs: what is read from a path is kept as what that path was given
/// for, whole, and an earlier file is not touched by a later one. No stage-1 image is taken for a
/// U-Boot image, nor the other way round.
pub proof fn law_a_file_goes_where_it_belongs(
    before: Preflight,
    got: Result<Vec<u8>, FileError>,
    after: Preflight,
    taken: Result<(), Error>,
)
    requires
        before.wf(),
        before.need is Image || before.need is Spl || before.need is Uboot,
        before.has_taken(got, after, taken),
    ensures
        before.need is Image ==> before.wanted() == Some(before.images.write->0@),
        before.need is Spl ==> before.wanted() == Some(before.images.spl->0@),
        before.need is Uboot ==> before.wanted() == Some(before.images.uboot->0@),
        taken is Err ==> after.loaded == before.loaded && after.need == before.need,
        taken is Ok <==> (got matches Ok(bytes) && (before.need is Image ==> bytes@.len() > 0)),
        taken is Ok ==> after.images == before.images && after.loaded.read == before.loaded.read && (
        got matches Ok(bytes) && match before.need {
            Need::Image => after.loaded.write == Some(bytes) && after.loaded.loaders == before.loaded.loaders,
            Need::Spl => after.spl == Some(bytes) && after.loaded == before.loaded && after.need is Uboot,
            _ => {
                &&& after.loaded.write == before.loaded.write
                &&& after.loaded.loaders matches Some(pair)
                &&& pair.uboot == bytes
                &&& Some(pair.stage1) == before.spl
            },
        }),
{
}

} // verus!
