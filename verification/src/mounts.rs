//! The registry of runtime mounts.

use crate::bytes::append_bytes;
use crate::reply::ReplyStatus;
use crate::text::{append_text, same_bytes, utf8};
use vstd::prelude::*;

verus! {

/// Filesystem of a volume.
#[derive(Clone, Copy, Debug, PartialEq, Eq, Structural)]
pub enum Filesystem {
    /// FAT32.
    Fat32,
    /// Ext4, first profile.
    Ext4V1,
}

/// Access to a volume.
#[derive(Clone, Copy, Debug, PartialEq, Eq, Structural)]
pub enum Access {
    /// Reading only.
    ReadOnly,
    /// Reading and writing.
    ReadWrite,
}

/// When a volume is mounted.
#[derive(Clone, Copy, Debug, PartialEq, Eq, Structural)]
pub enum Activation {
    /// At boot.
    Auto,
    /// On request.
    Manual,
}

/// State of a volume.
#[derive(Clone, Copy, Debug, PartialEq, Eq, Structural)]
pub enum MountState {
    /// It is mounted.
    Mounted,
    /// It can be mounted.
    Ready,
    /// It was not found.
    Unavailable,
    /// Mounting it failed.
    Failed,
}

/// A volume of the boot manifest.
#[derive(Debug)]
pub struct ManifestEntry {
    /// Name.
    pub name: Vec<u8>,
    /// Filesystem.
    pub filesystem: Filesystem,
    /// Access.
    pub access: Access,
    /// When it is mounted.
    pub activation: Activation,
}

/// A volume that was found and can be mounted.
#[derive(Debug)]
pub struct PreparedMount {
    /// Where it is mounted.
    pub path: Vec<u8>,
    /// When it is mounted.
    pub activation: Activation,
    /// Number by which the mount is known.
    pub plan: u64,
}

/// A registered volume.
#[derive(Debug)]
pub struct MountRecord {
    /// Name.
    pub name: Vec<u8>,
    /// Filesystem.
    pub filesystem: Filesystem,
    /// Access.
    pub access: Access,
    /// When it is mounted.
    pub activation: Activation,
    /// State.
    pub state: MountState,
    /// Mount to perform on request.
    pub plan: Option<u64>,
}

/// Where a volume is mounted.
pub open spec fn mount_path(name: Seq<u8>) -> Seq<u8> {
    utf8("/vol/") + name
}

/// The first prepared mount at a path.
pub open spec fn plan_at(prepared: Seq<PreparedMount>, path: Seq<u8>, from: int) -> int
    decreases prepared.len() - from,
{
    if from >= prepared.len() {
        -1
    } else if prepared[from].path@ == path {
        from
    } else {
        plan_at(prepared, path, from + 1)
    }
}

proof fn lemma_plan_at(prepared: Seq<PreparedMount>, path: Seq<u8>, from: int)
    requires
        0 <= from,
    ensures
        ({
            let i = plan_at(prepared, path, from);
            i == -1 || from <= i < prepared.len() && prepared[i].path@ == path
        }),
    decreases prepared.len() - from,
{
    if from < prepared.len() && prepared[from].path@ != path {
        lemma_plan_at(prepared, path, from + 1);
    }
}

fn find_plan(prepared: &Vec<PreparedMount>, path: &[u8]) -> (index: Option<usize>)
    ensures
        match index {
            Some(i) => i < prepared@.len() && plan_at(prepared@, path@, 0) == i,
            None => plan_at(prepared@, path@, 0) == -1,
        },
{
    let mut i: usize = 0;
    while i < prepared.len()
        invariant
            i <= prepared@.len(),
            plan_at(prepared@, path@, i as int) == plan_at(prepared@, path@, 0),
        decreases prepared@.len() - i,
    {
        if same_bytes(prepared[i].path.as_slice(), path) {
            return Some(i);
        }
        i = i + 1;
    }
    None
}

/// What is registered of a volume: state and mount to perform on request.
pub open spec fn registered_as(activation: Activation, plan: Option<u64>) -> (
    MountState,
    Option<u64>,
) {
    match (activation, plan) {
        (Activation::Auto, Some(_)) => (MountState::Mounted, None),
        (Activation::Manual, Some(p)) => (MountState::Ready, Some(p)),
        (_, None) => (MountState::Unavailable, None),
    }
}

/// Whether a record is what a manifest entry and its mount lead to.
pub open spec fn records(record: MountRecord, entry: ManifestEntry, plan: Option<u64>) -> bool {
    &&& record.name@ == entry.name@
    &&& record.filesystem == entry.filesystem
    &&& record.access == entry.access
    &&& record.activation == entry.activation
    &&& (record.state, record.plan) == registered_as(entry.activation, plan)
}

/// The mount of an entry, if it was prepared.
pub open spec fn entry_plan(entry: ManifestEntry, prepared: Seq<PreparedMount>) -> Option<u64> {
    let i = plan_at(prepared, mount_path(entry.name@), 0);
    if i < 0 {
        None
    } else {
        Some(prepared[i].plan)
    }
}

/// What is left of the prepared mounts after an entry took its own.
pub open spec fn left_over(entry: ManifestEntry, prepared: Seq<PreparedMount>) -> Seq<PreparedMount> {
    let i = plan_at(prepared, mount_path(entry.name@), 0);
    if i < 0 {
        prepared
    } else {
        prepared.remove(i)
    }
}

/// Whether an entry's mount, if prepared, is to be mounted when the entry says.
pub open spec fn agrees(entry: ManifestEntry, prepared: Seq<PreparedMount>) -> bool {
    let i = plan_at(prepared, mount_path(entry.name@), 0);
    i >= 0 ==> prepared[i].activation == entry.activation
}

/// What is left of the prepared mounts after the entries from `from` up to `n`.
pub open spec fn left_after(
    manifest: Seq<ManifestEntry>,
    prepared: Seq<PreparedMount>,
    from: int,
    n: int,
) -> Seq<PreparedMount>
    decreases n - from,
{
    if n <= from {
        prepared
    } else {
        left_over(manifest[n - 1], left_after(manifest, prepared, from, n - 1))
    }
}

/// Whether an entry's mount is performed as soon as the entry is registered.
pub open spec fn mounts_now(entry: ManifestEntry, prepared: Seq<PreparedMount>) -> bool {
    entry.activation == Activation::Auto && entry_plan(entry, prepared) is Some
}

/// Whether every entry from `from` up to `n` is registered without performing
/// a mount.
pub open spec fn passes(
    manifest: Seq<ManifestEntry>,
    prepared: Seq<PreparedMount>,
    from: int,
    n: int,
) -> bool {
    forall|i: int|
        from <= i < n ==> {
            let left = #[trigger] left_after(manifest, prepared, from, i);
            agrees(manifest[i], left) && !mounts_now(manifest[i], left)
        }
}

/// Whether `after` is `before` and a record for each entry from `from` up to
/// `n`.
pub open spec fn registers(
    before: Seq<MountRecord>,
    after: Seq<MountRecord>,
    manifest: Seq<ManifestEntry>,
    prepared: Seq<PreparedMount>,
    from: int,
    n: int,
) -> bool {
    &&& from <= n
    &&& after.len() == before.len() + (n - from)
    &&& after.take(before.len() as int) == before
    &&& forall|i: int|
        from <= i < n ==> records(
            after[before.len() + (i - from)],
            manifest[i],
            entry_plan(manifest[i], #[trigger] left_after(manifest, prepared, from, i)),
        )
}

/// The volumes of this machine.
#[derive(Debug)]
pub struct MountRegistry {
    /// Volumes in the order of the manifest.
    pub entries: Vec<MountRecord>,
}

/// A configuration that waits for a mount.
#[derive(Debug)]
pub struct Configuring {
    /// Prepared mounts that no entry has taken yet.
    pub rest: Vec<PreparedMount>,
    /// Entry whose mount is being performed.
    pub at: usize,
}

/// What a step of a configuration leads to.
#[derive(Debug)]
pub enum ConfigureNext {
    /// Perform this mount, then go on.
    Attach(u64, Configuring),
    /// Every volume is registered.
    Configured,
    /// The manifest and the machine do not agree.
    Refused,
}

/// Whether a configuration that stands before entry `from` comes to `next`.
///
/// It registers entries until one performs its mount, disagrees with its mount
/// on when that is performed, or is the last; no mount may be left over.
pub open spec fn comes_to(
    before: Seq<MountRecord>,
    after: Seq<MountRecord>,
    manifest: Seq<ManifestEntry>,
    prepared: Seq<PreparedMount>,
    from: int,
    n: int,
    next: ConfigureNext,
) -> bool {
    let left = left_after(manifest, prepared, from, n);
    &&& from <= n <= manifest.len()
    &&& passes(manifest, prepared, from, n)
    &&& registers(before, after, manifest, prepared, from, n)
    &&& if n == manifest.len() {
        if left.len() == 0 {
            next is Configured
        } else {
            next is Refused
        }
    } else if !agrees(manifest[n], left) {
        next is Refused
    } else {
        &&& mounts_now(manifest[n], left)
        &&& next matches ConfigureNext::Attach(plan, progress) && {
            &&& Some(plan) == entry_plan(manifest[n], left)
            &&& progress.at == n
            &&& progress.rest@ == left_over(manifest[n], left)
        }
    }
}

/// What a request to mount a volume leads to.
#[derive(Clone, Copy, Debug, PartialEq, Eq, Structural)]
pub enum MountRequest {
    /// It is mounted already.
    AlreadyMounted,
    /// It is refused.
    Refused(ReplyStatus),
    /// Perform this mount for the entry at this index.
    Attach {
        /// Index of the entry.
        index: usize,
        /// Mount.
        plan: u64,
    },
}

/// Whether `i` is the first entry with a name.
pub open spec fn first_named(entries: Seq<MountRecord>, name: Seq<u8>, i: int) -> bool {
    &&& 0 <= i < entries.len()
    &&& entries[i].name@ == name
    &&& forall|k: int| 0 <= k < i ==> (#[trigger] entries[k]).name@ != name
}

/// What a request to mount a found volume leads to.
pub open spec fn mount_decision(record: MountRecord, index: usize) -> MountRequest {
    match record.state {
        MountState::Mounted => MountRequest::AlreadyMounted,
        MountState::Unavailable => MountRequest::Refused(ReplyStatus::NotFound),
        MountState::Failed => MountRequest::Refused(ReplyStatus::Failure),
        MountState::Ready => if record.activation != Activation::Manual {
            MountRequest::Refused(ReplyStatus::InvalidRequest)
        } else {
            match record.plan {
                Some(plan) => MountRequest::Attach { index, plan },
                None => MountRequest::Refused(ReplyStatus::Corrupt),
            }
        },
    }
}

/// Whether a record is that of an entry whose mount was performed.
pub open spec fn is_mounted(record: MountRecord, entry: ManifestEntry) -> bool {
    &&& record.name@ == entry.name@
    &&& record.filesystem == entry.filesystem
    &&& record.access == entry.access
    &&& record.activation == entry.activation
    &&& record.state == MountState::Mounted
    &&& record.plan is None
}

fn make_record(entry: &ManifestEntry, state: MountState, plan: Option<u64>) -> (record: MountRecord)
    ensures
        record.name@ == entry.name@,
        record.filesystem == entry.filesystem,
        record.access == entry.access,
        record.activation == entry.activation,
        record.state == state,
        record.plan == plan,
{
    let mut name: Vec<u8> = Vec::new();
    append_bytes(&mut name, entry.name.as_slice());
    assert(name@ =~= entry.name@);
    MountRecord {
        name,
        filesystem: entry.filesystem,
        access: entry.access,
        activation: entry.activation,
        state,
        plan,
    }
}

impl MountRegistry {
    /// No volume.
    pub fn empty() -> (registry: Self)
        ensures
            registry.entries@.len() == 0,
    {
        MountRegistry { entries: Vec::new() }
    }

    /// Register the volumes of a manifest, up to the first mount to perform.
    ///
    /// A registry in use is refused and left alone.
    pub fn configure(&mut self, manifest: &Vec<ManifestEntry>, prepared: Vec<PreparedMount>) -> (next:
        ConfigureNext)
        ensures
            if old(self).entries@.len() > 0 {
                next is Refused && final(self).entries@ == old(self).entries@
            } else {
                exists|n: int| #[trigger]
                    comes_to(
                        old(self).entries@,
                        final(self).entries@,
                        manifest@,
                        prepared@,
                        0,
                        n,
                        next,
                    )
            },
    {
        if self.entries.len() > 0 {
            return ConfigureNext::Refused;
        }
        self.register_from(manifest, prepared, 0)
    }

    /// A mount of the configuration was performed or failed: register its
    /// volume as mounted and go on, or end with what is registered so far.
    pub fn configured(&mut self, manifest: &Vec<ManifestEntry>, progress: Configuring, done: bool) -> (next:
        ConfigureNext)
        requires
            progress.at < manifest@.len(),
        ensures
            if !done {
                next is Refused && final(self).entries@ == old(self).entries@
            } else {
                exists|record: MountRecord, n: int|
                    {
                        &&& is_mounted(record, manifest@[progress.at as int])
                        &&& #[trigger] comes_to(
                            old(self).entries@.push(record),
                            final(self).entries@,
                            manifest@,
                            progress.rest@,
                            progress.at + 1,
                            n,
                            next,
                        )
                    }
            },
    {
        if !done {
            return ConfigureNext::Refused;
        }
        let count: usize = manifest.len();
        let at: usize = progress.at;
        assert(at < count);
        let entry = &manifest[at];
        let record = make_record(entry, MountState::Mounted, None);
        self.entries.push(record);
        self.register_from(manifest, progress.rest, at + 1)
    }

    fn register_from(&mut self, manifest: &Vec<ManifestEntry>, prepared: Vec<PreparedMount>, from: usize) -> (next:
        ConfigureNext)
        requires
            from <= manifest@.len(),
        ensures
            exists|n: int| #[trigger]
                comes_to(
                    old(self).entries@,
                    final(self).entries@,
                    manifest@,
                    prepared@,
                    from as int,
                    n,
                    next,
                ),
    {
        let ghost before = self.entries@;
        let mut rest = prepared;
        let mut i: usize = from;
        assert(self.entries@.take(before.len() as int) =~= before);
        while i < manifest.len()
            invariant
                from <= i <= manifest@.len(),
                before == old(self).entries@,
                rest@ == left_after(manifest@, prepared@, from as int, i as int),
                passes(manifest@, prepared@, from as int, i as int),
                registers(before, self.entries@, manifest@, prepared@, from as int, i as int),
            decreases manifest@.len() - i,
        {
            let entry = &manifest[i];
            let mut path: Vec<u8> = Vec::new();
            append_text(&mut path, "/vol/");
            append_bytes(&mut path, entry.name.as_slice());
            assert(path@ =~= mount_path(entry.name@));
            let ghost left = rest@;
            let plan: Option<u64> = match find_plan(&rest, path.as_slice()) {
                Some(index) => {
                    if rest[index].activation != entry.activation {
                        let next = ConfigureNext::Refused;
                        assert(comes_to(
                            before,
                            self.entries@,
                            manifest@,
                            prepared@,
                            from as int,
                            i as int,
                            next,
                        ));
                        return next;
                    }
                    let plan = rest.remove(index);
                    Some(plan.plan)
                },
                None => None,
            };
            assert(plan == entry_plan(*entry, left));
            assert(rest@ == left_over(*entry, left));
            let (state, kept) = match (entry.activation, plan) {
                (Activation::Auto, Some(number)) => {
                    let next = ConfigureNext::Attach(number, Configuring { rest, at: i });
                    assert(comes_to(
                        before,
                        self.entries@,
                        manifest@,
                        prepared@,
                        from as int,
                        i as int,
                        next,
                    ));
                    return next;
                },
                (Activation::Manual, Some(number)) => (MountState::Ready, Some(number)),
                (_, None) => (MountState::Unavailable, None),
            };
            let ghost listed = self.entries@;
            self.entries.push(make_record(entry, state, kept));
            assert(self.entries@.take(before.len() as int) =~= listed.take(before.len() as int));
            i = i + 1;
        }
        let next = if rest.len() > 0 {
            ConfigureNext::Refused
        } else {
            ConfigureNext::Configured
        };
        assert(comes_to(
            before,
            self.entries@,
            manifest@,
            prepared@,
            from as int,
            i as int,
            next,
        ));
        next
    }

    /// Begin to mount a volume by its name. The mount to perform leaves the
    /// record, so that it is performed at most once.
    pub fn activate(&mut self, name: &[u8]) -> (request: MountRequest)
        ensures
            match request {
                MountRequest::Attach { index, plan } => {
                    &&& first_named(old(self).entries@, name@, index as int)
                    &&& mount_decision(old(self).entries@[index as int], index) == request
                    &&& final(self).entries@ == old(self).entries@.update(
                        index as int,
                        MountRecord { plan: None, ..old(self).entries@[index as int] },
                    )
                },
                _ => {
                    &&& final(self).entries@ == old(self).entries@
                    &&& (request == MountRequest::Refused(ReplyStatus::NotFound) && forall|k: int|
                        0 <= k < old(self).entries@.len() ==> (
                        #[trigger] old(self).entries@[k]).name@ != name@) || exists|i: usize|
                        #[trigger] first_named(old(self).entries@, name@, i as int)
                            && mount_decision(old(self).entries@[i as int], i) == request
                },
            },
    {
        let mut i: usize = 0;
        while i < self.entries.len()
            invariant
                i <= self.entries@.len(),
                self.entries@ == old(self).entries@,
                forall|k: int| 0 <= k < i ==> (#[trigger] self.entries@[k]).name@ != name@,
            decreases self.entries@.len() - i,
        {
            if same_bytes(self.entries[i].name.as_slice(), name) {
                assert(first_named(self.entries@, name@, i as int));
                return match self.entries[i].state {
                    MountState::Mounted => MountRequest::AlreadyMounted,
                    MountState::Unavailable => MountRequest::Refused(ReplyStatus::NotFound),
                    MountState::Failed => MountRequest::Refused(ReplyStatus::Failure),
                    MountState::Ready => match self.entries[i].activation {
                        Activation::Auto => MountRequest::Refused(ReplyStatus::InvalidRequest),
                        Activation::Manual => match self.entries[i].plan {
                            Some(plan) => {
                                let state = self.entries[i].state;
                                self.set_state(i, state);
                                MountRequest::Attach { index: i, plan }
                            },
                            None => MountRequest::Refused(ReplyStatus::Corrupt),
                        },
                    },
                };
            }
            i = i + 1;
        }
        MountRequest::Refused(ReplyStatus::NotFound)
    }

    /// The mount of an entry was performed: it is mounted, or it failed.
    pub fn attached(&mut self, index: usize, done: bool) -> (result: Result<(), ReplyStatus>)
        requires
            index < old(self).entries@.len(),
        ensures
            final(self).entries@ == old(self).entries@.update(
                index as int,
                MountRecord {
                    state: if done {
                        MountState::Mounted
                    } else {
                        MountState::Failed
                    },
                    plan: None,
                    ..old(self).entries@[index as int]
                },
            ),
            result == (if done {
                Ok(())
            } else {
                Err(ReplyStatus::Failure)
            }),
    {
        if done {
            self.set_state(index, MountState::Mounted);
            Ok(())
        } else {
            self.set_state(index, MountState::Failed);
            Err(ReplyStatus::Failure)
        }
    }

    /// Set the state of an entry and take its mount out.
    fn set_state(&mut self, index: usize, state: MountState)
        requires
            index < old(self).entries@.len(),
        ensures
            final(self).entries@ == old(self).entries@.update(
                index as int,
                MountRecord { state, plan: None, ..old(self).entries@[index as int] },
            ),
    {
        let ghost before = self.entries@;
        let entry = self.entries.remove(index);
        self.entries.insert(
            index,
            MountRecord {
                name: entry.name,
                filesystem: entry.filesystem,
                access: entry.access,
                activation: entry.activation,
                state,
                plan: None,
            },
        );
        assert(self.entries@ =~= before.update(
            index as int,
            MountRecord { state, plan: None, ..before[index as int] },
        ));
    }
}

/// A finished configuration holds one record for each entry of the manifest,
/// and every prepared mount went to an entry.
pub proof fn every_volume_is_registered(
    before: Seq<MountRecord>,
    after: Seq<MountRecord>,
    manifest: Seq<ManifestEntry>,
    prepared: Seq<PreparedMount>,
    from: int,
    n: int,
    next: ConfigureNext,
)
    requires
        before.len() == from,
        comes_to(before, after, manifest, prepared, from, n, next),
    ensures
        next is Configured ==> after.len() == manifest.len() && left_after(
            manifest,
            prepared,
            from,
            manifest.len() as int,
        ).len() == 0,
        next matches ConfigureNext::Attach(_, progress) ==> after.len() == progress.at,
{
}

/// A mount is performed at most once: after a request that performs it, no
/// request of the same name performs one again.
pub proof fn a_mount_is_performed_once(record: MountRecord, index: usize, state: MountState)
    requires
        record.plan is None,
    ensures
        !(mount_decision(MountRecord { state, ..record }, index) is Attach),
{
}

/// Length of the first line of a text, its line end included.
pub open spec fn line_length(text: Seq<u8>) -> int
    decreases text.len(),
{
    if text.len() == 0 {
        0
    } else if text[0] == 10 {
        1
    } else {
        1 + line_length(text.skip(1))
    }
}

proof fn lemma_line_length(text: Seq<u8>, n: int)
    requires
        0 <= n <= text.len(),
        forall|i: int| 0 <= i < n ==> text[i] != 10,
    ensures
        line_length(text) == n + line_length(text.skip(n)),
        0 <= line_length(text.skip(n)) <= text.len() - n,
        n < text.len() ==> line_length(text.skip(n)) > 0,
    decreases n,
{
    if n < text.len() {
        assert(text.skip(n).skip(1) =~= text.skip(n + 1));
        if text[n] != 10 {
            lemma_line_length_bound(text.skip(n + 1));
        }
    }
    if n > 0 {
        lemma_line_length(text, n - 1);
        assert(text.skip(n - 1).skip(1) =~= text.skip(n));
    } else {
        assert(text.skip(0) =~= text);
    }
}

/// A line is not empty and lies inside its text.
pub proof fn lemma_line_length_bound(text: Seq<u8>)
    ensures
        0 <= line_length(text) <= text.len(),
        text.len() > 0 ==> line_length(text) > 0,
    decreases text.len(),
{
    if text.len() > 0 && text[0] != 10 {
        lemma_line_length_bound(text.skip(1));
    }
}

/// Where `needle` stands first in `text`, or -1.
pub open spec fn first_at(text: Seq<u8>, needle: Seq<u8>, from: int) -> int
    decreases text.len() + 1 - from,
{
    if from + needle.len() > text.len() || from < 0 {
        -1
    } else if text.subrange(from, from + needle.len()) == needle {
        from
    } else {
        first_at(text, needle, from + 1)
    }
}

fn find_first(text: &[u8], needle: &[u8]) -> (at: Option<usize>)
    ensures
        match at {
            Some(i) => first_at(text@, needle@, 0) == i && i + needle@.len() <= text@.len(),
            None => first_at(text@, needle@, 0) == -1,
        },
{
    let total: usize = text.len();
    let wanted: usize = needle.len();
    if wanted > total {
        return None;
    }
    let mut i: usize = 0;
    while i <= total - wanted
        invariant
            total == text@.len(),
            wanted == needle@.len(),
            wanted <= total,
            i <= total - wanted + 1,
            first_at(text@, needle@, i as int) == first_at(text@, needle@, 0),
        decreases total + 1 - i,
    {
        let mut k: usize = 0;
        while k < wanted && text[i + k] == needle[k]
            invariant
                total == text@.len(),
                wanted == needle@.len(),
                k <= wanted,
                i + wanted <= total,
                forall|j: int| 0 <= j < k ==> text@[i + j] == needle@[j],
            decreases wanted - k,
        {
            k = k + 1;
        }
        if k == wanted {
            assert(text@.subrange(i as int, i + wanted) =~= needle@);
            return Some(i);
        }
        assert(text@.subrange(i as int, i + wanted)[k as int] != needle@[k as int]);
        if i == total - wanted {
            assert(first_at(text@, needle@, i + 1) == -1);
            return None;
        }
        i = i + 1;
    }
    None
}

/// What marks a volume that can be mounted.
pub open spec fn ready_marker() -> Seq<u8> {
    utf8(" state=ready volume=")
}

/// What marks a mounted volume.
pub open spec fn mounted_marker() -> Seq<u8> {
    utf8(" state=mounted volume=")
}

/// How a line about a volume begins.
pub open spec fn role_prefix(name: Seq<u8>) -> Seq<u8> {
    utf8("role ") + name + utf8(" ")
}

/// Whether a line is about a volume.
pub open spec fn is_role_line(line: Seq<u8>, prefix: Seq<u8>) -> bool {
    prefix.len() <= line.len() && line.take(prefix.len() as int) == prefix
}

/// A line about a volume that is now mounted; `None` where it did not say that
/// the volume can be mounted.
pub open spec fn marked_line(line: Seq<u8>) -> Option<Seq<u8>> {
    let at = first_at(line, ready_marker(), 0);
    if at < 0 {
        None
    } else {
        Some(line.take(at) + mounted_marker() + line.skip(at + ready_marker().len()))
    }
}

/// A line with the volume's new state, if it is about the volume.
pub open spec fn updated_line(line: Seq<u8>, prefix: Seq<u8>) -> Option<Seq<u8>> {
    if is_role_line(line, prefix) {
        marked_line(line)
    } else {
        Some(line)
    }
}

/// Every line with the volume's new state.
pub open spec fn updated(text: Seq<u8>, prefix: Seq<u8>) -> Option<Seq<u8>>
    decreases text.len(),
{
    if text.len() == 0 {
        Some(Seq::empty())
    } else {
        proof {
            lemma_line_length_bound(text);
        }
        match (
            updated_line(text.take(line_length(text)), prefix),
            updated(text.skip(line_length(text)), prefix),
        ) {
            (Some(line), Some(rest)) => Some(line + rest),
            _ => None,
        }
    }
}

/// Whether any line is about the volume.
pub open spec fn mentions(text: Seq<u8>, prefix: Seq<u8>) -> bool
    decreases text.len(),
{
    if text.len() == 0 {
        false
    } else {
        proof {
            lemma_line_length_bound(text);
        }
        is_role_line(text.take(line_length(text)), prefix) || mentions(
            text.skip(line_length(text)),
            prefix,
        )
    }
}

/// Append a line with the volume's new state; tells whether it is about the
/// volume, and fails where such a line cannot be updated.
fn append_updated(out: &mut Vec<u8>, line: &[u8], prefix: &[u8]) -> (appended: Option<bool>)
    ensures
        match appended {
            Some(about) => about == is_role_line(line@, prefix@) && (updated_line(line@, prefix@)
                matches Some(l) && final(out)@ == old(out)@ + l),
            None => updated_line(line@, prefix@) is None,
        },
{
    let ghost before = out@;
    let mut about = line.len() >= prefix.len();
    let mut i: usize = 0;
    while i < prefix.len() && about
        invariant
            i <= prefix@.len(),
            about ==> prefix@.len() <= line@.len(),
            about ==> forall|k: int| 0 <= k < i ==> line@[k] == prefix@[k],
            !about ==> !is_role_line(line@, prefix@),
        decreases prefix@.len() - i,
    {
        if line[i] != prefix[i] {
            assert(line@.take(prefix@.len() as int)[i as int] != prefix@[i as int]);
            about = false;
        }
        i = i + 1;
    }
    if !about {
        append_bytes(out, line);
        return Some(false);
    }
    assert(line@.take(prefix@.len() as int) =~= prefix@);
    let marker = " state=ready volume=".as_bytes();
    match find_first(line, marker) {
        Some(at) => {
            append_range(out, line, 0, at);
            append_text(out, " state=mounted volume=");
            append_range(out, line, at + marker.len(), line.len());
            assert(out@ =~= before + (line@.take(at as int) + mounted_marker() + line@.skip(
                at + ready_marker().len(),
            )));
            Some(true)
        },
        None => None,
    }
}

/// Append a part of some bytes.
fn append_range(out: &mut Vec<u8>, bytes: &[u8], from: usize, to: usize)
    requires
        from <= to <= bytes@.len(),
    ensures
        final(out)@ == old(out)@ + bytes@.subrange(from as int, to as int),
{
    let ghost before = out@;
    let mut i: usize = from;
    assert(out@ =~= before + bytes@.subrange(from as int, from as int));
    while i < to
        invariant
            from <= i <= to <= bytes@.len(),
            out@ == before + bytes@.subrange(from as int, i as int),
        decreases to - i,
    {
        out.push(bytes[i]);
        i = i + 1;
        assert(out@ =~= before + bytes@.subrange(from as int, i as int));
    }
}

/// Mark a volume as mounted in the storage report.
///
/// Fails where no line is about the volume, or one does not say that it can be
/// mounted.
pub fn mark_storage_role_mounted(report: &[u8], name: &[u8]) -> (marked: Option<Vec<u8>>)
    ensures
        match marked {
            Some(m) => mentions(report@, role_prefix(name@)) && updated(
                report@,
                role_prefix(name@),
            ) == Some(m@),
            None => !mentions(report@, role_prefix(name@)) || updated(
                report@,
                role_prefix(name@),
            ) is None,
        },
{
    let mut prefix: Vec<u8> = Vec::new();
    append_text(&mut prefix, "role ");
    append_bytes(&mut prefix, name);
    append_text(&mut prefix, " ");
    let ghost front = role_prefix(name@);
    assert(prefix@ =~= front);
    let mut out: Vec<u8> = Vec::new();
    let mut changed = false;
    let mut at: usize = 0;
    proof {
        assert(report@.skip(0) =~= report@);
        lemma_line_length_bound(report@);
    }
    while at < report.len()
        invariant
            at <= report@.len(),
            prefix@ == front,
            front == role_prefix(name@),
            line_length(report@.skip(at as int)) > 0 || report@.skip(at as int).len() == 0,
            updated(report@, front) is Some ==> updated(report@.skip(at as int), front) is Some,
            updated(report@.skip(at as int), front) matches Some(rest) ==> updated(
                report@,
                front,
            ) == Some(out@ + rest),
            mentions(report@, front) == (changed || mentions(report@.skip(at as int), front)),
        decreases report@.len() - at,
    {
        let ghost rest = report@.skip(at as int);
        let mut end: usize = at;
        while end < report.len() && report[end] != 10
            invariant
                at <= end <= report@.len(),
                rest == report@.skip(at as int),
                forall|i: int| 0 <= i < end - at ==> rest[i] != 10,
            decreases report@.len() - end,
        {
            end = end + 1;
        }
        proof {
            lemma_line_length(rest, end - at);
            assert(rest.skip(end - at) =~= report@.skip(end as int));
        }
        if end < report.len() {
            assert(report@.skip(end as int)[0] == report@[end as int]);
            end = end + 1;
        }
        let mut line: Vec<u8> = Vec::new();
        append_range(&mut line, report, at, end);
        proof {
            assert(line_length(rest) == end - at);
            assert(line@ =~= rest.take(end - at));
            assert(rest.skip(end - at) =~= report@.skip(end as int));
            lemma_line_length_bound(report@.skip(end as int));
        }
        let ghost before = out@;
        match append_updated(&mut out, line.as_slice(), prefix.as_slice()) {
            Some(about) => {
                changed = changed || about;
                proof {
                    let new_line = updated_line(line@, front)->0;
                    match updated(report@.skip(end as int), front) {
                        Some(tail) => {
                            assert(before + (new_line + tail) =~= out@ + tail);
                        },
                        None => {},
                    }
                }
            },
            None => return None,
        }
        at = end;
    }
    proof {
        assert(report@.skip(at as int) =~= Seq::<u8>::empty());
        assert(out@ + Seq::<u8>::empty() =~= out@);
    }
    if changed {
        Some(out)
    } else {
        None
    }
}

/// A volume is looked for under its own path: the plan that is found is the first
/// one there, and none is found only where there is none.
pub proof fn volumes_are_found_under_their_path(prepared: Seq<PreparedMount>, entry: ManifestEntry)
    ensures
        ({
            let path = utf8("/vol/") + entry.name@;
            let left = left_over(entry, prepared);
            match entry_plan(entry, prepared) {
                Some(plan) => exists|i: int|
                    {
                        &&& 0 <= i < prepared.len()
                        &&& (#[trigger] prepared[i]).path@ == path
                        &&& prepared[i].plan == plan
                        &&& forall|k: int| 0 <= k < i ==> (#[trigger] prepared[k]).path@ != path
                        &&& left.len() == prepared.len() - 1
                        &&& forall|k: int| 0 <= k < i ==> #[trigger] left[k] == prepared[k]
                        &&& forall|k: int|
                            i <= k < left.len() ==> #[trigger] left[k] == prepared[k + 1]
                        &&& (agrees(entry, prepared) <==> prepared[i].activation
                            == entry.activation)
                    },
                None => left == prepared && agrees(entry, prepared) && forall|k: int|
                    0 <= k < prepared.len() ==> (#[trigger] prepared[k]).path@ != path,
            }
        }),
{
    lemma_first_plan(prepared, mount_path(entry.name@), 0);
    let i = plan_at(prepared, mount_path(entry.name@), 0);
    if i >= 0 {
        assert(prepared[i].path@ == mount_path(entry.name@));
    }
}

proof fn lemma_first_plan(prepared: Seq<PreparedMount>, path: Seq<u8>, from: int)
    requires
        0 <= from <= prepared.len(),
    ensures
        ({
            let i = plan_at(prepared, path, from);
            &&& i >= 0 ==> from <= i < prepared.len() && prepared[i].path@ == path && forall|k: int|
                from <= k < i ==> (#[trigger] prepared[k]).path@ != path
            &&& i < 0 ==> forall|k: int|
                from <= k < prepared.len() ==> (#[trigger] prepared[k]).path@ != path
        }),
    decreases prepared.len() - from,
{
    if from < prepared.len() {
        lemma_first_plan(prepared, path, from + 1);
    }
}

/// A volume with a plan is mounted at once if it is automatic and kept ready with
/// its plan if it is not; one without a plan is unavailable.
pub proof fn volumes_are_registered_by_activation(
    record: MountRecord,
    entry: ManifestEntry,
    plan: u64,
)
    ensures
        records(record, entry, None) ==> record.state == MountState::Unavailable && record.plan
            is None,
        records(record, entry, Some(plan)) && entry.activation == Activation::Auto ==> record.state
            == MountState::Mounted && record.plan is None,
        records(record, entry, Some(plan)) && entry.activation == Activation::Manual
            ==> record.state == MountState::Ready && record.plan == Some(plan),
        records(record, entry, Some(plan)) ==> record.name@ == entry.name@ && record.filesystem
            == entry.filesystem && record.access == entry.access && record.activation
            == entry.activation,
{
}

/// A request to mount is answered by the state of the volume: a mounted one stays,
/// a ready one is attached by its plan if it is manual, and any other is refused
/// for its reason.
pub proof fn mount_requests_are_answered_by_state(record: MountRecord, index: usize, plan: u64)
    ensures
        record.state == MountState::Mounted ==> mount_decision(record, index)
            == MountRequest::AlreadyMounted,
        record.state == MountState::Unavailable ==> mount_decision(record, index)
            == MountRequest::Refused(ReplyStatus::NotFound),
        record.state == MountState::Failed ==> mount_decision(record, index)
            == MountRequest::Refused(ReplyStatus::Failure),
        record.state == MountState::Ready && record.activation == Activation::Auto
            ==> mount_decision(record, index) == MountRequest::Refused(ReplyStatus::InvalidRequest),
        record.state == MountState::Ready && record.activation == Activation::Manual && record.plan
            == Some(plan) ==> mount_decision(record, index) == (MountRequest::Attach {
            index,
            plan,
        }),
        record.state == MountState::Ready && record.activation == Activation::Manual && record.plan
            is None ==> mount_decision(record, index) == MountRequest::Refused(
            ReplyStatus::Corrupt,
        ),
{
}

/// In the line of a volume that is mounted, the first "ready" becomes "mounted"
/// and all else stays; a line without it cannot be updated, and lines of other
/// volumes stay as they are.
pub proof fn mounted_lines_say_so(line: Seq<u8>, name: Seq<u8>)
    ensures
        ({
            let prefix = utf8("role ") + name + utf8(" ");
            let ready = utf8(" state=ready volume=");
            let mounted = utf8(" state=mounted volume=");
            let own = prefix.len() <= line.len() && line.take(prefix.len() as int) == prefix;
            &&& !own ==> updated_line(line, role_prefix(name)) == Some(line)
            &&& own ==> match updated_line(line, role_prefix(name)) {
                Some(after) => exists|at: int|
                    {
                        &&& 0 <= at <= line.len() - ready.len()
                        &&& #[trigger] line.subrange(at, at + ready.len()) == ready
                        &&& forall|k: int|
                            0 <= k < at ==> #[trigger] line.subrange(k, k + ready.len()) != ready
                        &&& after == line.take(at) + mounted + line.skip(at + ready.len())
                    },
                None => forall|k: int|
                    0 <= k <= line.len() - ready.len() ==> #[trigger] line.subrange(
                        k,
                        k + ready.len(),
                    ) != ready,
            }
        }),
{
    let ready = utf8(" state=ready volume=");
    lemma_first_occurrence(line, ready, 0);
    let at = first_at(line, ready, 0);
    if at >= 0 {
        assert(line.subrange(at, at + ready.len()) == ready);
    }
}

proof fn lemma_first_occurrence(text: Seq<u8>, needle: Seq<u8>, from: int)
    requires
        0 <= from,
    ensures
        ({
            let at = first_at(text, needle, from);
            &&& at >= 0 ==> from <= at <= text.len() - needle.len() && text.subrange(
                at,
                at + needle.len(),
            ) == needle && forall|k: int|
                from <= k < at ==> #[trigger] text.subrange(k, k + needle.len()) != needle
            &&& at < 0 ==> forall|k: int|
                from <= k <= text.len() - needle.len() ==> #[trigger] text.subrange(
                    k,
                    k + needle.len(),
                ) != needle
        }),
    decreases text.len() + 1 - from,
{
    if from + needle.len() <= text.len() && text.subrange(from, from + needle.len()) != needle {
        lemma_first_occurrence(text, needle, from + 1);
    }
}

/// A text is updated line by line, each line up to and with its line end.
pub proof fn texts_are_updated_line_by_line(line: Seq<u8>, rest: Seq<u8>, prefix: Seq<u8>)
    requires
        line.len() > 0,
        line.last() == 10,
        forall|i: int| 0 <= i < line.len() - 1 ==> line[i] != 10,
    ensures
        updated(Seq::empty(), prefix) == Some(Seq::<u8>::empty()),
        !mentions(Seq::empty(), prefix),
        mentions(line + rest, prefix) <==> is_role_line(line, prefix) || mentions(rest, prefix),
        updated(line + rest, prefix) is Some <==> updated_line(line, prefix) is Some && updated(
            rest,
            prefix,
        ) is Some,
        updated(line + rest, prefix) is Some ==> updated(line + rest, prefix)->0 == updated_line(
            line,
            prefix,
        )->0 + updated(rest, prefix)->0,
{
    lemma_line_ends(line, rest);
    assert((line + rest).take(line.len() as int) =~= line);
    assert((line + rest).skip(line.len() as int) =~= rest);
}

proof fn lemma_line_ends(line: Seq<u8>, rest: Seq<u8>)
    requires
        line.len() > 0,
        line.last() == 10,
        forall|i: int| 0 <= i < line.len() - 1 ==> line[i] != 10,
    ensures
        line_length(line + rest) == line.len(),
    decreases line.len(),
{
    if line.len() > 1 {
        assert(line[0] != 10);
        assert((line + rest).skip(1) =~= line.skip(1) + rest);
        lemma_line_ends(line.skip(1), rest);
    }
}

/// Registering adds volumes behind those that are there. A volume is mounted at
/// once exactly where it is automatic and has a plan.
pub proof fn registered_volumes_stay(
    before: Seq<MountRecord>,
    after: Seq<MountRecord>,
    manifest: Seq<ManifestEntry>,
    prepared: Seq<PreparedMount>,
    from: int,
    n: int,
    i: int,
)
    ensures
        registers(before, after, manifest, prepared, from, n) && 0 <= i < before.len() ==> after[i]
            == before[i],
        registers(before, after, manifest, prepared, from, n) ==> after.len() == before.len() + n
            - from,
        registers(before, after, manifest, prepared, from, n) && from <= i < n ==> after[before.len()
            + i - from].name@ == manifest[i].name@,
        0 <= i < manifest.len() ==> (mounts_now(manifest[i], prepared) <==> manifest[i].activation
            == Activation::Auto && entry_plan(manifest[i], prepared) is Some),
        left_after(manifest, prepared, from, from) == prepared,
        from < n ==> left_after(manifest, prepared, from, n) == left_over(
            manifest[n - 1],
            left_after(manifest, prepared, from, n - 1),
        ),
{
    if registers(before, after, manifest, prepared, from, n) && 0 <= i < before.len() {
        assert(after.take(before.len() as int)[i] == after[i]);
    }
    if registers(before, after, manifest, prepared, from, n) && from <= i < n {
        assert(records(
            after[before.len() + (i - from)],
            manifest[i],
            entry_plan(manifest[i], left_after(manifest, prepared, from, i)),
        ));
    }
}

/// A volume is found by its name, the first one of that name.
pub proof fn volumes_are_found_by_name(entries: Seq<MountRecord>, name: Seq<u8>, i: int, k: int)
    ensures
        first_named(entries, name, i) ==> 0 <= i < entries.len() && entries[i].name@ == name,
        first_named(entries, name, i) && 0 <= k < entries.len() && entries[k].name@ == name ==> i
            <= k,
        entries.len() > 0 && entries[0].name@ == name ==> first_named(entries, name, 0),
{
}

} // verus!
