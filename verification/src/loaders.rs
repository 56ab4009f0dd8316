//! Where the loaders are: the firmware root, and the two files a bootstrap reads from it.
//!
//! A tree is laid out as `<root>/dfu/<variant>/`, with a U-Boot image and a stage-1 image in
//! each directory. The stage-1 image is `tpl.bin` wherever that opens, and else `spl.bin`.
use vstd::prelude::*;
use vstd::string::*;

use crate::model::Variant;
use crate::text::chars_of;

verus! {

/// The firmware root, when `--firmware-dir` was not given.
pub const DEFAULT_ROOT: &'static str = "firmware";

/// Which of the two a stage-1 image is.
#[derive(Debug, Clone, Copy, PartialEq, Eq, Structural)]
pub enum Stage1Kind {
    /// `tpl.bin`.
    Tpl,
    /// `spl.bin`.
    Spl,
}

/// The two files a bootstrap reads.
#[derive(Debug, Clone, PartialEq, Eq)]
pub struct Loaders {
    /// The stage-1 image.
    pub stage1: String,
    /// The U-Boot image.
    pub uboot: String,
    /// Which of the two the stage-1 image is.
    pub stage1_kind: Stage1Kind,
}

/// A path with one more component.
pub open spec fn beneath(root: Seq<char>, name: Seq<char>) -> Seq<char> {
    if root.len() == 0 || root.last() == '/' {
        root + name
    } else {
        root + "/"@ + name
    }
}

/// Append one more component to a path.
fn descend(path: &mut String, name: &str)
    ensures
        final(path)@ == beneath(old(path)@, name@),
{
    let chars = chars_of(path.as_str());
    if chars.len() > 0 && chars[chars.len() - 1] != '/' {
        path.append("/");
    }
    path.append(name);
}

/// The firmware root: `--firmware-dir`, else `firmware` beside the binary, else `firmware` in
/// the working directory.
///
/// `beside` is the directory that holds the binary, where that is known.
pub fn firmware_root(explicit: Option<&str>, beside: Option<&str>) -> (root: String)
    ensures
        root@ == (match (explicit, beside) {
            (Some(explicit), _) => explicit@,
            (None, Some(beside)) => beneath(beside@, DEFAULT_ROOT@),
            (None, None) => DEFAULT_ROOT@,
        }),
{
    match explicit {
        Some(explicit) => explicit.to_owned(),
        None => match beside {
            Some(beside) => {
                let mut root = beside.to_owned();
                descend(&mut root, DEFAULT_ROOT);
                root
            },
            None => DEFAULT_ROOT.to_owned(),
        },
    }
}

/// A file of a variant's directory.
pub open spec fn loader_path(root: Seq<char>, variant: Variant, name: Seq<char>) -> Seq<char> {
    beneath(beneath(beneath(root, "dfu"@), variant.loader_dir@), name)
}

fn path_of(root: &str, variant: &Variant, name: &str) -> (path: String)
    ensures
        path@ == loader_path(root@, *variant, name@),
{
    let mut path = root.to_owned();
    descend(&mut path, "dfu");
    descend(&mut path, variant.loader_dir.as_str());
    descend(&mut path, name);
    path
}

/// The stage-1 image that is preferred, to see whether it opens.
pub fn preferred(root: &str, variant: &Variant) -> (path: String)
    ensures
        path@ == loader_path(root@, *variant, "tpl.bin"@),
{
    path_of(root, variant, "tpl.bin")
}

/// The two files a bootstrap of `variant` will read. `tpl_opens` says whether the preferred
/// stage-1 image opens.
pub fn resolve(root: &str, variant: &Variant, tpl_opens: bool) -> (loaders: Loaders)
    ensures
        loaders.uboot@ == loader_path(root@, *variant, "uboot.bin"@),
        if tpl_opens {
            loaders.stage1_kind is Tpl && loaders.stage1@ == loader_path(root@, *variant, "tpl.bin"@)
        } else {
            loaders.stage1_kind is Spl && loaders.stage1@ == loader_path(root@, *variant, "spl.bin"@)
        },
{
    let uboot = path_of(root, variant, "uboot.bin");
    if tpl_opens {
        Loaders { stage1: preferred(root, variant), uboot, stage1_kind: Stage1Kind::Tpl }
    } else {
        Loaders { stage1: path_of(root, variant, "spl.bin"), uboot, stage1_kind: Stage1Kind::Spl }
    }
}

} // verus!
