//! The startup line: which build wrote everything that follows.
use vstd::prelude::*;
use vstd::string::*;

verus! {

/// The name the binary is invoked by.
pub const NAME: &'static str = "thingino-dfu";

/// The version of this crate.
pub const VERSION: &'static str = "2.0.0-alpha.1";

/// The startup line of a build: its name, its version and its revision.
pub open spec fn banner_text(build: Seq<char>) -> Seq<char> {
    NAME@ + " "@ + VERSION@ + " ("@ + build + ")"@
}

/// The startup line, without its newline. `build` is the revision it was built from.
pub fn banner(build: &str) -> (line: String)
    ensures
        line@ == banner_text(build@),
{
    let mut line = NAME.to_owned();
    line.append(" ");
    line.append(VERSION);
    line.append(" (");
    line.append(build);
    line.append(")");
    line
}

/// Write the startup line.
pub fn print(build: &str, out: &mut String)
    ensures
        final(out)@ == old(out)@ + banner_text(build@) + "\n"@,
{
    let line = banner(build);
    out.append(line.as_str());
    out.append("\n");
}

} // verus!
