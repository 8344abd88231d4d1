//! The consoles of the boot and of the shell.

use crate::boot::stages::{boot_status_line, status_line};
use crate::text::{append_text, is_text, utf8};
use vstd::prelude::*;

verus! {

/// Where the shell writes.
#[derive(Clone, Copy, Debug, PartialEq, Eq, Structural)]
pub enum ShellConsole {
    /// To the serial port.
    Serial,
    /// To the serial port, and then to the screen.
    Mirrored,
}

/// Choose where the shell writes: to the screen too, where there is one that
/// can be used as a surface for text.
pub fn shell_console(framebuffer: bool, surface: bool, text: bool) -> (console: ShellConsole)
    ensures
        console == (if framebuffer && surface && text {
            ShellConsole::Mirrored
        } else {
            ShellConsole::Serial
        }),
{
    if framebuffer && surface && text {
        ShellConsole::Mirrored
    } else {
        ShellConsole::Serial
    }
}

/// The bytes that the screen gets of a write: those that the serial port took,
/// and none where it took none.
pub fn mirrored_bytes(console: ShellConsole, serial: Option<usize>) -> (count: Option<usize>)
    ensures
        count == (if console == ShellConsole::Mirrored {
            serial
        } else {
            None
        }),
{
    match console {
        ShellConsole::Mirrored => serial,
        ShellConsole::Serial => None,
    }
}

/// The reports of the stages that are over when the shell's console opens.
pub open spec fn completed_boot() -> Seq<Seq<u8>> {
    seq![
        status_line(utf8("Initializing memory and protection"), true),
        status_line(utf8("Starting devices and input"), true),
        status_line(utf8("Starting task and application runtime"), true),
    ]
}

fn completed(label: &str) -> (line: Vec<u8>)
    ensures
        line@ == status_line(utf8(label), true),
{
    let mut bytes: Vec<u8> = Vec::new();
    append_text(&mut bytes, label);
    assert(bytes@ =~= utf8(label));
    boot_status_line(bytes.as_slice(), true)
}

/// The reports that the screen shows again, in order: it has not seen them, the
/// serial port has.
pub fn replay_completed_boot(console: ShellConsole) -> (lines: Vec<Vec<u8>>)
    ensures
        lines@.map_values(|line: Vec<u8>| line@) == if console == ShellConsole::Mirrored {
            completed_boot()
        } else {
            Seq::empty()
        },
{
    let mut lines: Vec<Vec<u8>> = Vec::new();
    if matches!(console, ShellConsole::Mirrored) {
        lines.push(completed("Initializing memory and protection"));
        lines.push(completed("Starting devices and input"));
        lines.push(completed("Starting task and application runtime"));
    }
    assert(lines@.map_values(|line: Vec<u8>| line@) =~= if console == ShellConsole::Mirrored {
        completed_boot()
    } else {
        Seq::empty()
    });
    lines
}

/// Whether a write to the firmware's console asks for an empty screen.
pub fn clears_screen(bytes: &[u8]) -> (yes: bool)
    ensures
        yes == (bytes@ == utf8("\x1b[2J\x1b[H")),
{
    is_text(bytes, "\x1b[2J\x1b[H")
}

/// Where the machine's description comes from.
#[derive(Clone, Copy, Debug, PartialEq, Eq, Structural)]
pub enum PlatformSource {
    /// ACPI tables.
    Acpi,
    /// A device tree.
    Fdt,
    /// It is built in.
    Fixed,
}

/// What is printed of the machine's description.
pub fn platform_report(source: PlatformSource) -> (text: Option<&'static str>)
    ensures
        text == (match source {
            PlatformSource::Acpi => Some("platform discovery: ACPI validated\n"),
            PlatformSource::Fdt => Some("platform discovery: FDT validated\n"),
            PlatformSource::Fixed => None,
        }),
{
    match source {
        PlatformSource::Acpi => Some("platform discovery: ACPI validated\n"),
        PlatformSource::Fdt => Some("platform discovery: FDT validated\n"),
        PlatformSource::Fixed => None,
    }
}

/// A completed boot reports memory, devices and the runtime, in this order, each
/// as well.
pub proof fn completed_boots_report_three_stages()
    ensures
        completed_boot().len() == 3,
        completed_boot()[0] == status_line(utf8("Initializing memory and protection"), true),
        completed_boot()[1] == status_line(utf8("Starting devices and input"), true),
        completed_boot()[2] == status_line(utf8("Starting task and application runtime"), true),
{
}

} // verus!
