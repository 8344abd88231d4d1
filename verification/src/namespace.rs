//! Composing the namespace that the session sees.

use crate::bytes::append_bytes;
use crate::text::{append_text, utf8};
use vstd::prelude::*;

verus! {

/// How the persistent root is mounted.
#[derive(Clone, Copy, Debug, PartialEq, Eq, Structural)]
pub enum RootMode {
    /// There is none.
    Recovery,
    /// It cannot be changed.
    ReadOnly,
    /// It can be changed.
    ReadWrite,
}

/// The architecture's name with its line end.
pub fn architecture_line(name: &[u8]) -> (line: Vec<u8>)
    ensures
        line@ == name@ + utf8("\n"),
{
    let mut line: Vec<u8> = Vec::new();
    append_bytes(&mut line, name);
    append_text(&mut line, "\n");
    assert(line@ =~= name@ + utf8("\n"));
    line
}

/// A step of the composition that cannot be done without.
#[derive(Clone, Copy, Debug, PartialEq, Eq, Structural)]
pub enum CompositionStep {
    /// Mounting the temporary filesystem.
    WritableMount,
    /// Reading the embedded image.
    EmbeddedImage,
    /// Adding a directory of the image.
    EmbeddedDirectory,
    /// Adding a file of the image.
    EmbeddedFile,
    /// Mounting a part of the image.
    EmbeddedMount,
}

/// What is printed when a step of the composition fails.
pub open spec fn composition_text(step: CompositionStep) -> &'static str {
    match step {
        CompositionStep::WritableMount => "fatal: cannot mount the writable filesystem\n",
        _ => "fatal: cannot mount embedded root\n",
    }
}

/// What is printed when a step of the composition fails.
pub fn composition_failure(step: CompositionStep) -> (text: &'static str)
    ensures
        text == composition_text(step),
{
    match step {
        CompositionStep::WritableMount => "fatal: cannot mount the writable filesystem\n",
        _ => "fatal: cannot mount embedded root\n",
    }
}

/// How the configuration is attached.
#[derive(Clone, Copy, Debug, PartialEq, Eq, Structural)]
pub struct Attachment {
    /// Whether its store is created first.
    pub create_store: bool,
    /// Whether it is mounted.
    pub mount: bool,
}

/// How the configuration is attached: nowhere without a root, and a missing
/// store is created only on a root that can be changed.
pub fn configuration_attachment(mode: RootMode, store_exists: bool) -> (attachment: Attachment)
    ensures
        attachment.mount == (mode != RootMode::Recovery),
        attachment.create_store == (mode == RootMode::ReadWrite && !store_exists),
{
    match mode {
        RootMode::Recovery => Attachment { create_store: false, mount: false },
        RootMode::ReadOnly => Attachment { create_store: false, mount: true },
        RootMode::ReadWrite => Attachment { create_store: !store_exists, mount: true },
    }
}

/// What is printed when the configuration cannot be mounted.
pub fn configuration_failure() -> (text: &'static str)
    ensures
        text == "/config: not attached; configuration is absent\n",
{
    "/config: not attached; configuration is absent\n"
}

/// An environment entry.
pub fn environment_entry(name: &[u8], value: &[u8]) -> (entry: Vec<u8>)
    ensures
        entry@ == name@ + utf8("=") + value@,
{
    let mut entry: Vec<u8> = Vec::new();
    append_bytes(&mut entry, name);
    append_text(&mut entry, "=");
    append_bytes(&mut entry, value);
    assert(entry@ =~= name@ + utf8("=") + value@);
    entry
}

/// What is printed of a time zone that cannot be used.
pub open spec fn timezone_text(error: Seq<u8>) -> Seq<u8> {
    utf8("/config/timezone: ") + error + utf8("; using UTC\n")
}

/// Format what is printed of a time zone that cannot be used.
pub fn timezone_report(error: &[u8]) -> (report: Vec<u8>)
    ensures
        report@ == timezone_text(error@),
{
    let mut report: Vec<u8> = Vec::new();
    append_text(&mut report, "/config/timezone: ");
    append_bytes(&mut report, error);
    append_text(&mut report, "; using UTC\n");
    assert(report@ =~= timezone_text(error@));
    report
}

/// What reading the configured time zone found.
#[derive(Debug)]
pub enum TimezoneSource {
    /// No file, or no configuration at all.
    Absent,
    /// A usable value.
    Value(Vec<u8>),
    /// An unusable value, and why.
    Unusable(Vec<u8>),
}

/// What becomes of the configured time zone.
#[derive(Debug)]
pub enum SessionTimezone {
    /// The default stays.
    Default,
    /// This entry replaces the default.
    Entry(Vec<u8>),
    /// This is printed, and the default stays.
    Report(Vec<u8>),
}

/// Decide what becomes of the configured time zone.
pub fn resolve_session_timezone(name: &[u8], source: TimezoneSource) -> (resolved: SessionTimezone)
    ensures
        match source {
            TimezoneSource::Absent => resolved == SessionTimezone::Default,
            TimezoneSource::Value(value) => resolved matches SessionTimezone::Entry(entry)
                && entry@ == name@ + utf8("=") + value@,
            TimezoneSource::Unusable(error) => resolved matches SessionTimezone::Report(report)
                && report@ == timezone_text(error@),
        },
{
    match source {
        TimezoneSource::Absent => SessionTimezone::Default,
        TimezoneSource::Value(value) => SessionTimezone::Entry(
            environment_entry(name, value.as_slice()),
        ),
        TimezoneSource::Unusable(error) => SessionTimezone::Report(
            timezone_report(error.as_slice()),
        ),
    }
}

/// A composition that fails names the writable filesystem where that could not
/// be mounted, and the embedded root otherwise. A time zone that cannot be used
/// is reported with its reason.
pub proof fn composition_failures_are_named(step: CompositionStep, error: Seq<u8>)
    ensures
        composition_text(CompositionStep::WritableMount)
            == "fatal: cannot mount the writable filesystem\n",
        step != CompositionStep::WritableMount ==> composition_text(step)
            == "fatal: cannot mount embedded root\n",
        timezone_text(error) == utf8("/config/timezone: ") + error + utf8("; using UTC\n"),
{
}

} // verus!
