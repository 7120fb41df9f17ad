//! Showing a file in the desktop's file manager: which program to start,
//! with which arguments.

use vstd::prelude::*;
use crate::text::{contains_text, occurs_in};

verus! {

/// The desktop families that a file can be shown on.
#[derive(PartialEq, Eq, Structural, Clone, Copy, Debug)]
pub enum Platform {
    Windows,
    Linux,
    MacOs,
}

/// A program to start and its arguments.
pub struct RevealCommand {
    pub program: String,
    pub args: Vec<String>,
}

/// On Linux a path with a comma cannot go through the file manager's bus
/// interface; the folder (the path itself, or the folder that holds it) is
/// opened instead.
pub open spec fn opens_folder(platform: Platform, path: Seq<char>) -> bool {
    platform == Platform::Linux && occurs_in(path, ","@)
}

/// Tells whether the command needs the folder to open (see `opens_folder`).
pub fn needs_folder(platform: Platform, path: &str) -> (r: bool)
    ensures
        r == opens_folder(platform, path@),
{
    platform == Platform::Linux && contains_text(path, ",")
}

/// The text of the argument that names the file on the bus.
pub open spec fn bus_item(path: Seq<char>) -> Seq<char> {
    "array:string:\u{22}file://"@ + path + "\u{22}"@
}

fn strings(items: &[&str]) -> (r: Vec<String>)
    ensures
        r.len() == items.len(),
        forall|i: int| 0 <= i < r.len() ==> (#[trigger] r@[i])@ == items@[i]@,
{
    let mut out: Vec<String> = Vec::new();
    let mut i: usize = 0;
    while i < items.len()
        invariant
            i <= items.len(),
            out.len() == i,
            forall|q: int| 0 <= q < i ==> (#[trigger] out@[q])@ == items@[q]@,
        decreases items.len() - i,
    {
        out.push(String::from_str(items[i]));
        i = i + 1;
    }
    out
}

/// The command that shows `path` in the file manager. `folder` is the folder
/// to open, given exactly when `needs_folder` says so.
pub fn reveal_command(platform: Platform, path: &str, folder: Option<String>) -> (r: RevealCommand)
    requires
        (folder is Some) == opens_folder(platform, path@),
    ensures
        platform == Platform::Windows ==> r.program@ == "explorer"@ && r.args.len() == 2
            && r.args@[0]@ == "/select,"@ && r.args@[1]@ == path@,
        platform == Platform::MacOs ==> r.program@ == "open"@ && r.args.len() == 2
            && r.args@[0]@ == "-R"@ && r.args@[1]@ == path@,
        folder matches Some(f) ==> r.program@ == "xdg-open"@ && r.args.len() == 1
            && r.args@[0]@ == f@,
        platform == Platform::Linux && folder is None ==> r.program@ == "dbus-send"@
            && r.args.len() == 7 && r.args@[0]@ == "--session"@ && r.args@[1]@
            == "--dest=org.freedesktop.FileManager1"@ && r.args@[2]@ == "--type=method_call"@
            && r.args@[3]@ == "/org/freedesktop/FileManager1"@ && r.args@[4]@
            == "org.freedesktop.FileManager1.ShowItems"@ && r.args@[5]@ == bus_item(path@)
            && r.args@[6]@ == "string:\u{22}\u{22}"@,
{
    match platform {
        Platform::Windows => {
            RevealCommand { program: String::from_str("explorer"), args: strings(&["/select,", path]) }
        },
        Platform::MacOs => {
            RevealCommand { program: String::from_str("open"), args: strings(&["-R", path]) }
        },
        Platform::Linux => {
            match folder {
                Some(f) => {
                    let mut args: Vec<String> = Vec::new();
                    args.push(f);
                    RevealCommand { program: String::from_str("xdg-open"), args }
                },
                None => {
                    let mut item = String::from_str("array:string:\u{22}file://");
                    item.append(path);
                    item.append("\u{22}");
                    let item_ref = item.as_str();
                    RevealCommand {
                        program: String::from_str("dbus-send"),
                        args: strings(
                            &[
                                "--session",
                                "--dest=org.freedesktop.FileManager1",
                                "--type=method_call",
                                "/org/freedesktop/FileManager1",
                                "org.freedesktop.FileManager1.ShowItems",
                                item_ref,
                                "string:\u{22}\u{22}",
                            ],
                        ),
                    }
                },
            }
        },
    }
}

} // verus!
