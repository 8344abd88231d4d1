//! The isolation probe: its memory, mapping plan and program.

use crate::bytes::{
    append_bytes, append_le, le_bytes, le_bytes_round_trip, le_value, lemma_pow256_values,
};
use crate::memory::pages::{PageRange, PAGE_SIZE};
use crate::memory::launch::PlanRefusal;
use crate::memory::plan::{
    plan_valid, range_apart, write_xor_execute, MappingOwner, MappingPlan, MemoryType, PlannedMapping,
};
use crate::memory::private::mapping::Permissions;
use crate::text::{append_text, utf8};
use vstd::prelude::*;

verus! {

/// Page-table pages of an isolated task.
pub const ISOLATED_TABLE_PAGES: u64 = 512;

/// Code pages of an isolated task.
pub const ISOLATED_CODE_PAGES: u64 = 1;

/// Data pages of an isolated task.
pub const ISOLATED_DATA_PAGES: u64 = 1;

/// Stack pages of an isolated task.
pub const ISOLATED_STACK_PAGES: u64 = 4;

/// All pages of an isolated task.
pub const ISOLATED_RESOURCE_PAGES: u64 = 518;

/// Address of user code.
pub const USER_CODE_BASE: u64 = 0x4000_0000_0000;

/// Address of user data.
pub const USER_DATA_BASE: u64 = 0x4000_0000_1000;

/// Address of the user stack.
pub const USER_STACK_BASE: u64 = 0x4000_0001_0000;

/// An address at which nothing is mapped.
pub const USER_UNMAPPED_BASE: u64 = 0x4000_1000_0000;

/// Bytes of the message that the probe sends.
pub const ISOLATED_MESSAGE_BYTES: u32 = 21;

/// The parts of one contiguous allocation.
#[derive(Clone, Copy, Debug, PartialEq, Eq, Structural)]
pub struct IsolatedAllocation {
    /// All frames.
    pub complete: PageRange,
    /// Page tables.
    pub tables: PageRange,
    /// Code.
    pub code: PageRange,
    /// Data.
    pub data: PageRange,
    /// Stack.
    pub stack: PageRange,
}

impl IsolatedAllocation {
    /// The parts follow one another and fill the allocation.
    pub open spec fn well_formed(self) -> bool {
        &&& self.complete.well_formed()
        &&& self.tables.well_formed()
        &&& self.code.well_formed()
        &&& self.data.well_formed()
        &&& self.stack.well_formed()
        &&& self.tables.first() == self.complete.first()
        &&& self.tables.pages() == ISOLATED_TABLE_PAGES
        &&& self.code.first() == self.tables.past()
        &&& self.code.pages() == ISOLATED_CODE_PAGES
        &&& self.data.first() == self.code.past()
        &&& self.data.pages() == ISOLATED_DATA_PAGES
        &&& self.stack.first() == self.data.past()
        &&& self.stack.pages() == ISOLATED_STACK_PAGES
        &&& self.stack.past() == self.complete.past()
    }
}

/// Cut an allocation of exactly the right size into its parts.
pub fn split_isolated(complete: PageRange) -> (parts: Option<IsolatedAllocation>)
    requires
        complete.well_formed(),
    ensures
        match parts {
            Some(p) => complete.pages() == ISOLATED_RESOURCE_PAGES && p.well_formed()
                && p.complete == complete,
            None => complete.pages() != ISOLATED_RESOURCE_PAGES,
        },
{
    if complete.page_count() != ISOLATED_RESOURCE_PAGES {
        return None;
    }
    Some(
        IsolatedAllocation {
            complete,
            tables: complete.part(0, ISOLATED_TABLE_PAGES),
            code: complete.part(512, ISOLATED_CODE_PAGES),
            data: complete.part(513, ISOLATED_DATA_PAGES),
            stack: complete.part(514, ISOLATED_STACK_PAGES),
        },
    )
}

/// Whether a kernel mapping shows pages of `code`.
pub open spec fn shows_code(mapping: PlannedMapping, code: PageRange) -> bool {
    !code.apart(mapping.physical)
}

/// Whether the code can be protected in this kernel mapping: it is a
/// read-write identity mapping that holds all of the code.
pub open spec fn protectable(mapping: PlannedMapping, code: PageRange) -> bool {
    &&& mapping.physical.includes(code)
    &&& mapping.virtual_range == mapping.physical
    &&& mapping.permissions == Permissions::ReadWrite
}

/// A kernel mapping cut so that the code inside it is read-only.
pub open spec fn protected_parts(mapping: PlannedMapping, code: PageRange, parts: Seq<PlannedMapping>) -> bool {
    let before = code.first() - mapping.physical.first();
    let after = mapping.physical.past() - code.past();
    let b = if before > 0 {
        1int
    } else {
        0
    };
    let a = if after > 0 {
        1int
    } else {
        0
    };
    &&& parts.len() == b + 1 + a
    &&& b == 1 ==> is_identity_part(parts[0], mapping, mapping.physical.first(), before, Permissions::ReadWrite)
    &&& is_identity_part(parts[b], mapping, code.first(), code.pages(), Permissions::ReadOnly)
    &&& a == 1 ==> is_identity_part(parts[b + 1], mapping, code.past(), after, Permissions::ReadWrite)
}

/// An identity mapping of `count` pages from page `first` on, of the kind of
/// `template`.
pub open spec fn is_identity_part(
    part: PlannedMapping,
    template: PlannedMapping,
    first: int,
    count: int,
    permissions: Permissions,
) -> bool {
    &&& part.well_formed()
    &&& part.virtual_range.first() == first
    &&& part.virtual_range.pages() == count
    &&& part.physical == part.virtual_range
    &&& part.permissions == permissions
    &&& part.memory_type == template.memory_type
    &&& part.owner == template.owner
    &&& part.user == template.user
}

/// An identity mapping of part of a mapping's frames, with given rights.
pub fn identity_segment(template: PlannedMapping, skip: u64, count: u64, permissions: Permissions) -> (part:
    PlannedMapping)
    requires
        template.well_formed(),
        0 < count,
        skip + count <= template.physical.pages(),
    ensures
        is_identity_part(
            part,
            template,
            template.physical.first() + skip,
            count as int,
            permissions,
        ),
{
    let range = template.physical.part(skip, count);
    PlannedMapping {
        virtual_range: range,
        physical: range,
        permissions,
        memory_type: template.memory_type,
        owner: template.owner,
        user: template.user,
    }
}

/// Cut a kernel mapping so that the code inside it is read-only.
pub fn protect_code(mapping: PlannedMapping, code: PageRange) -> (parts: Vec<PlannedMapping>)
    requires
        mapping.well_formed(),
        code.well_formed(),
        protectable(mapping, code),
    ensures
        protected_parts(mapping, code, parts@),
{
    let before: u64 = code.first_page() - mapping.physical.first_page();
    let count: u64 = code.page_count();
    let after: u64 = mapping.physical.page_count() - before - count;
    let mut parts: Vec<PlannedMapping> = Vec::new();
    if before != 0 {
        parts.push(identity_segment(mapping, 0, before, Permissions::ReadWrite));
    }
    parts.push(identity_segment(mapping, before, count, Permissions::ReadOnly));
    if after != 0 {
        parts.push(identity_segment(mapping, before + count, after, Permissions::ReadWrite));
    }
    parts
}

/// The code is read-only through every part, and the parts show every frame
/// of the mapping where it was.
pub proof fn protected_code_is_not_writable(
    mapping: PlannedMapping,
    code: PageRange,
    parts: Seq<PlannedMapping>,
)
    requires
        mapping.well_formed(),
        code.well_formed(),
        protectable(mapping, code),
        protected_parts(mapping, code, parts),
    ensures
        forall|k: int|
            0 <= k < parts.len() && !code.apart((#[trigger] parts[k]).physical)
                ==> parts[k].permissions == Permissions::ReadOnly,
        forall|page: int|
            #![trigger mapping.virtual_range.covers(page)]
            mapping.virtual_range.covers(page) <==> exists|k: int|
                0 <= k < parts.len() && (#[trigger] parts[k]).shows(page, page),
{
    assert forall|page: int|
        #![trigger mapping.virtual_range.covers(page)]
        mapping.virtual_range.covers(page) implies exists|k: int|
        0 <= k < parts.len() && (#[trigger] parts[k]).shows(page, page) by {
        let b = if code.first() > mapping.physical.first() {
            1int
        } else {
            0
        };
        if page < code.first() {
            assert(parts[0].shows(page, page));
        } else if page < code.past() {
            assert(parts[b].shows(page, page));
        } else {
            assert(parts[b + 1].shows(page, page));
        }
    }
}

/// Which program the probe runs.
#[derive(Clone, Copy, Debug, PartialEq, Eq, Structural)]
pub enum IsolationProbe {
    /// A correct call.
    Success,
    /// A load from an unmapped address.
    Translation,
    /// A store to code.
    WritePermission,
    /// A jump into data.
    ExecutePermission,
    /// An illegal instruction.
    IllegalInstruction,
    /// An entry that is not open.
    UnexpectedEntry,
    /// A call with an unknown operation.
    InvalidOpcode,
    /// A call through a wrong gate.
    InvalidCallEncoding,
    /// A call with an unmapped message.
    InvalidPointer,
    /// A call with a message that is too long.
    OversizeMessage,
    /// A call with a status out of range.
    InvalidStatus,
}

/// Processor family.
#[derive(Clone, Copy, Debug, PartialEq, Eq, Structural)]
pub enum Architecture {
    /// 64-bit x86.
    X86_64,
    /// 64-bit Arm.
    Aarch64,
}

fn has_message(probe: IsolationProbe) -> (yes: bool)
    ensures
        yes == (exit_call(probe, Architecture::X86_64, 0) is Some),
{
    matches!(
        probe,
        IsolationProbe::Success | IsolationProbe::InvalidOpcode
        | IsolationProbe::InvalidCallEncoding | IsolationProbe::InvalidPointer
        | IsolationProbe::OversizeMessage | IsolationProbe::InvalidStatus
    )
}

/// Arguments of the exit call.
#[derive(Clone, Copy, Debug, PartialEq, Eq, Structural)]
pub struct ExitCall {
    /// Operation.
    pub opcode: u32,
    /// Address of the message.
    pub address: u64,
    /// Bytes of the message.
    pub length: u32,
    /// Exit status.
    pub status: u32,
}

/// The exit call that a probe makes; probes that fault before make none.
pub open spec fn exit_call(
    probe: IsolationProbe,
    architecture: Architecture,
    oversize: u32,
) -> Option<ExitCall> {
    let good = ExitCall {
        opcode: 1,
        address: USER_DATA_BASE,
        length: ISOLATED_MESSAGE_BYTES,
        status: 0,
    };
    match probe {
        IsolationProbe::Success => Some(good),
        IsolationProbe::InvalidOpcode => Some(ExitCall { opcode: 99, ..good }),
        IsolationProbe::InvalidCallEncoding => Some(
            ExitCall {
                opcode: if architecture == Architecture::X86_64 {
                    99
                } else {
                    1
                },
                ..good
            },
        ),
        IsolationProbe::InvalidPointer => Some(ExitCall { address: USER_UNMAPPED_BASE, ..good }),
        IsolationProbe::OversizeMessage => Some(ExitCall { length: oversize, ..good }),
        IsolationProbe::InvalidStatus => Some(ExitCall { status: 256, ..good }),
        _ => None,
    }
}

/// The exit call of a probe; `oversize` is a message length over the limit.
pub fn exit_call_parameters(probe: IsolationProbe, architecture: Architecture, oversize: u32) -> (call:
    Option<ExitCall>)
    ensures
        call == exit_call(probe, architecture, oversize),
{
    let x86 = matches!(architecture, Architecture::X86_64);
    let mut call = ExitCall {
        opcode: 1,
        address: USER_DATA_BASE,
        length: ISOLATED_MESSAGE_BYTES,
        status: 0,
    };
    match probe {
        IsolationProbe::Success => {},
        IsolationProbe::InvalidOpcode => {
            call.opcode = 99;
        },
        IsolationProbe::InvalidCallEncoding => {
            if x86 {
                call.opcode = 99;
            }
        },
        IsolationProbe::InvalidPointer => {
            call.address = USER_UNMAPPED_BASE;
        },
        IsolationProbe::OversizeMessage => {
            call.length = oversize;
        },
        IsolationProbe::InvalidStatus => {
            call.status = 256;
        },
        _ => return None,
    }
    Some(call)
}


/// `mov rax, value`.
pub open spec fn x86_load(value: u64) -> Seq<u8> {
    seq![0x48u8, 0xb8u8] + le_bytes(value as nat, 8)
}

/// The call of a probe in x86 code; two probes first raise hostile flags.
pub open spec fn x86_call(probe: IsolationProbe, call: ExitCall) -> Seq<u8> {
    let flags = if probe == IsolationProbe::Success || probe == IsolationProbe::InvalidOpcode {
        seq![0xfdu8, 0x9cu8, 0x81u8, 0x0cu8, 0x24u8, 0x00u8, 0x00u8, 0x04u8, 0x00u8, 0x9du8]
    } else {
        Seq::empty()
    };
    flags + seq![0xb8u8] + le_bytes(call.opcode as nat, 4) + seq![0x48u8, 0xbfu8] + le_bytes(
        call.address as nat,
        8,
    ) + seq![0xbeu8] + le_bytes(call.length as nat, 4) + seq![0xbau8] + le_bytes(
        call.status as nat,
        4,
    ) + seq![0xcdu8, 0x80u8]
}

/// The x86 program of a probe, ended by an illegal instruction.
pub open spec fn x86_program(probe: IsolationProbe, oversize: u32) -> Seq<u8> {
    let body = match probe {
        IsolationProbe::Translation => x86_load(USER_UNMAPPED_BASE) + seq![0x48u8, 0x8bu8, 0x00u8],
        IsolationProbe::WritePermission => x86_load(USER_CODE_BASE) + seq![0xc6u8, 0x00u8, 0x00u8],
        IsolationProbe::ExecutePermission => x86_load(USER_DATA_BASE) + seq![0xffu8, 0xe0u8],
        IsolationProbe::IllegalInstruction => seq![0x0fu8, 0x0bu8],
        IsolationProbe::UnexpectedEntry => seq![0x0fu8, 0x05u8],
        _ => x86_call(probe, exit_call(probe, Architecture::X86_64, oversize)->0),
    };
    body + seq![0x0fu8, 0x0bu8]
}

/// Emit `mov rax, value`.
pub fn x86_mov_rax(code: &mut Vec<u8>, value: u64)
    ensures
        final(code)@ == old(code)@ + x86_load(value),
{
    let ghost before = code@;
    proof {
        crate::bytes::lemma_pow256_values();
    }
    append_bytes(code, &[0x48u8, 0xb8u8]);
    append_le(code, value, 8);
    assert(code@ =~= before + x86_load(value));
}

fn x86_exit_call(code: &mut Vec<u8>, probe: IsolationProbe, call: ExitCall)
    ensures
        final(code)@ == old(code)@ + x86_call(probe, call),
{
    let ghost before = code@;
    proof {
        crate::bytes::lemma_pow256_values();
    }
    if matches!(probe, IsolationProbe::Success | IsolationProbe::InvalidOpcode) {
        append_bytes(
            code,
            &[0xfdu8, 0x9cu8, 0x81u8, 0x0cu8, 0x24u8, 0x00u8, 0x00u8, 0x04u8, 0x00u8, 0x9du8],
        );
    }
    append_bytes(code, &[0xb8u8]);
    append_le(code, call.opcode as u64, 4);
    append_bytes(code, &[0x48u8, 0xbfu8]);
    append_le(code, call.address, 8);
    append_bytes(code, &[0xbeu8]);
    append_le(code, call.length as u64, 4);
    append_bytes(code, &[0xbau8]);
    append_le(code, call.status as u64, 4);
    append_bytes(code, &[0xcdu8, 0x80u8]);
    assert(code@ =~= before + x86_call(probe, call));
}

/// The instruction that loads a halfword into a register: the lowest one
/// clears the others, the rest keep them.
pub open spec fn aarch64_halfword(register: u8, immediate: nat, halfword: nat) -> nat {
    if halfword == 0 {
        (0xd280_0000 + immediate * 32 + register) as nat
    } else {
        (0xf280_0000 + halfword * 0x20_0000 + immediate * 32 + register) as nat
    }
}

/// Four instructions that load `value` into a register.
pub open spec fn aarch64_load(register: u8, value: u64) -> Seq<u8> {
    let v = value as nat;
    le_bytes(aarch64_halfword(register, v % 0x1_0000, 0), 4) + le_bytes(
        aarch64_halfword(register, (v / 0x1_0000) % 0x1_0000, 1),
        4,
    ) + le_bytes(aarch64_halfword(register, (v / 0x1_0000_0000) % 0x1_0000, 2), 4) + le_bytes(
        aarch64_halfword(register, (v / 0x1_0000_0000_0000) % 0x1_0000, 3),
        4,
    )
}

/// The aarch64 program of a probe, ended by a breakpoint.
pub open spec fn aarch64_program(probe: IsolationProbe, oversize: u32) -> Seq<u8> {
    let body = match probe {
        IsolationProbe::Translation => aarch64_load(1, USER_UNMAPPED_BASE) + le_bytes(
            0xf940_0020,
            4,
        ),
        IsolationProbe::WritePermission => aarch64_load(1, USER_CODE_BASE) + le_bytes(
            0xf900_003f,
            4,
        ),
        IsolationProbe::ExecutePermission => aarch64_load(1, USER_DATA_BASE) + le_bytes(
            0xd61f_0020,
            4,
        ),
        IsolationProbe::IllegalInstruction => le_bytes(0xd420_0000, 4),
        IsolationProbe::UnexpectedEntry => le_bytes(0xd400_0002, 4),
        _ => {
            let call = exit_call(probe, Architecture::Aarch64, oversize)->0;
            aarch64_load(0, call.opcode as u64) + aarch64_load(1, call.address) + aarch64_load(
                2,
                call.length as u64,
            ) + aarch64_load(3, call.status as u64) + le_bytes(
                if probe == IsolationProbe::InvalidCallEncoding {
                    0xd400_0021
                } else {
                    0xd400_0001
                },
                4,
            )
        },
    };
    body + le_bytes(0xd420_0000, 4)
}

/// Emit four instructions that load `value` into a register.
pub fn emit_aarch64_immediate(code: &mut Vec<u8>, register: u8, value: u64)
    requires
        register < 32,
    ensures
        final(code)@ == old(code)@ + aarch64_load(register, value),
{
    let ghost before = code@;
    let h0: u64 = value % 0x1_0000;
    let h1: u64 = (value / 0x1_0000) % 0x1_0000;
    let h2: u64 = (value / 0x1_0000_0000) % 0x1_0000;
    let h3: u64 = (value / 0x1_0000_0000_0000) % 0x1_0000;
    proof {
        crate::bytes::lemma_pow256_values();
    }
    append_le(code, 0xd280_0000 + h0 * 32 + register as u64, 4);
    append_le(code, 0xf280_0000 + 0x20_0000 + h1 * 32 + register as u64, 4);
    append_le(code, 0xf280_0000 + 0x40_0000 + h2 * 32 + register as u64, 4);
    append_le(code, 0xf280_0000 + 0x60_0000 + h3 * 32 + register as u64, 4);
    assert(code@ =~= before + aarch64_load(register, value));
}

/// What a probe finds in its zeroed pages.
#[derive(Debug)]
pub struct IsolatedContents {
    /// From the first byte of its code page on.
    pub code: Vec<u8>,
    /// From the first byte of its data page on.
    pub data: Vec<u8>,
}

/// Prepare the memory of a probe: its program, and the message that it sends if
/// it makes the exit call.
pub fn prepare_isolated_memory(
    probe: IsolationProbe,
    architecture: Architecture,
    oversize: u32,
) -> (contents: IsolatedContents)
    ensures
        contents.code@ == match architecture {
            Architecture::X86_64 => x86_program(probe, oversize),
            Architecture::Aarch64 => aarch64_program(probe, oversize),
        },
        contents.data@ == (if exit_call(probe, architecture, oversize) is Some {
            utf8("stage6 copied request")
        } else {
            Seq::empty()
        }),
{
    let code = isolated_program(probe, architecture, oversize);
    let mut data: Vec<u8> = Vec::new();
    if has_message(probe) {
        append_text(&mut data, "stage6 copied request");
        assert(data@ =~= utf8("stage6 copied request"));
    }
    IsolatedContents { code, data }
}

/// The machine code of a probe; `oversize` is a message length over the limit.
pub fn isolated_program(probe: IsolationProbe, architecture: Architecture, oversize: u32) -> (code: Vec<
    u8,
>)
    ensures
        code@ == match architecture {
            Architecture::X86_64 => x86_program(probe, oversize),
            Architecture::Aarch64 => aarch64_program(probe, oversize),
        },
{
    match architecture {
        Architecture::X86_64 => emit_x86(probe, oversize),
        Architecture::Aarch64 => emit_aarch64(probe, oversize),
    }
}

fn emit_x86(probe: IsolationProbe, oversize: u32) -> (code: Vec<u8>)
    ensures
        code@ == x86_program(probe, oversize),
{
    let mut code: Vec<u8> = Vec::new();
    match exit_call_parameters(probe, Architecture::X86_64, oversize) {
        Some(call) => x86_exit_call(&mut code, probe, call),
        None => match probe {
            IsolationProbe::Translation => {
                x86_mov_rax(&mut code, USER_UNMAPPED_BASE);
                append_bytes(&mut code, &[0x48u8, 0x8bu8, 0x00u8]);
            },
            IsolationProbe::WritePermission => {
                x86_mov_rax(&mut code, USER_CODE_BASE);
                append_bytes(&mut code, &[0xc6u8, 0x00u8, 0x00u8]);
            },
            IsolationProbe::ExecutePermission => {
                x86_mov_rax(&mut code, USER_DATA_BASE);
                append_bytes(&mut code, &[0xffu8, 0xe0u8]);
            },
            IsolationProbe::IllegalInstruction => append_bytes(&mut code, &[0x0fu8, 0x0bu8]),
            _ => append_bytes(&mut code, &[0x0fu8, 0x05u8]),
        },
    }
    append_bytes(&mut code, &[0x0fu8, 0x0bu8]);
    assert(code@ =~= x86_program(probe, oversize));
    code
}

fn emit_aarch64(probe: IsolationProbe, oversize: u32) -> (code: Vec<u8>)
    ensures
        code@ == aarch64_program(probe, oversize),
{
    proof {
        crate::bytes::lemma_pow256_values();
    }
    let mut code: Vec<u8> = Vec::new();
    match exit_call_parameters(probe, Architecture::Aarch64, oversize) {
        Some(call) => {
            emit_aarch64_immediate(&mut code, 0, call.opcode as u64);
            emit_aarch64_immediate(&mut code, 1, call.address);
            emit_aarch64_immediate(&mut code, 2, call.length as u64);
            emit_aarch64_immediate(&mut code, 3, call.status as u64);
            if matches!(probe, IsolationProbe::InvalidCallEncoding) {
                append_le(&mut code, 0xd400_0021, 4);
            } else {
                append_le(&mut code, 0xd400_0001, 4);
            }
        },
        None => match probe {
            IsolationProbe::Translation => {
                emit_aarch64_immediate(&mut code, 1, USER_UNMAPPED_BASE);
                append_le(&mut code, 0xf940_0020, 4);
            },
            IsolationProbe::WritePermission => {
                emit_aarch64_immediate(&mut code, 1, USER_CODE_BASE);
                append_le(&mut code, 0xf900_003f, 4);
            },
            IsolationProbe::ExecutePermission => {
                emit_aarch64_immediate(&mut code, 1, USER_DATA_BASE);
                append_le(&mut code, 0xd61f_0020, 4);
            },
            IsolationProbe::IllegalInstruction => append_le(&mut code, 0xd420_0000, 4),
            _ => append_le(&mut code, 0xd400_0002, 4),
        },
    }
    append_le(&mut code, 0xd420_0000, 4);
    assert(code@ =~= aarch64_program(probe, oversize));
    code
}

/// Position of the one kernel mapping that shows code.
pub open spec fn code_holder(kernel: Seq<PlannedMapping>, code: PageRange, at: int) -> bool {
    &&& 0 <= at < kernel.len()
    &&& shows_code(kernel[at], code)
    &&& protectable(kernel[at], code)
    &&& forall|j: int|
        0 <= j < kernel.len() && j != at ==> !shows_code(#[trigger] kernel[j], code)
}

/// The three mappings that the isolated task sees.
pub open spec fn is_user_part(
    mapping: PlannedMapping,
    address: int,
    physical: PageRange,
    permissions: Permissions,
) -> bool {
    &&& mapping.well_formed()
    &&& 4096 * mapping.virtual_range.first() == address
    &&& mapping.physical == physical
    &&& mapping.permissions == permissions
    &&& mapping.memory_type == MemoryType::Normal
    &&& mapping.owner == MappingOwner::IsolatedTask
    &&& mapping.user
}

/// The plan of an isolated task: the kernel mappings with the task's code made
/// read-only, then code, data and stack for user code.
pub open spec fn is_isolated_plan(
    plan: Seq<PlannedMapping>,
    kernel: Seq<PlannedMapping>,
    allocation: IsolatedAllocation,
    at: int,
    parts: Seq<PlannedMapping>,
) -> bool {
    let shared = kernel.take(at) + parts + kernel.skip(at + 1);
    &&& code_holder(kernel, allocation.code, at)
    &&& protected_parts(kernel[at], allocation.code, parts)
    &&& plan.len() == shared.len() + 3
    &&& plan.take(shared.len() as int) == shared
    &&& is_user_part(
        plan[shared.len() as int],
        USER_CODE_BASE as int,
        allocation.code,
        Permissions::ReadExecute,
    )
    &&& is_user_part(
        plan[shared.len() as int + 1],
        USER_DATA_BASE as int,
        allocation.data,
        Permissions::ReadWrite,
    )
    &&& is_user_part(
        plan[shared.len() as int + 2],
        USER_STACK_BASE as int,
        allocation.stack,
        Permissions::ReadWrite,
    )
}


/// The kernel mappings with the code in mapping `at` protected.
pub open spec fn shared_part(
    kernel: Seq<PlannedMapping>,
    at: int,
    parts: Seq<PlannedMapping>,
) -> Seq<PlannedMapping> {
    kernel.take(at) + parts + kernel.skip(at + 1)
}

/// Entries that protecting the code adds to the kernel mappings.
pub open spec fn protection_cost(mapping: PlannedMapping, code: PageRange) -> int {
    (if code.first() > mapping.physical.first() {
        1int
    } else {
        0
    }) + (if code.past() < mapping.physical.past() {
        1int
    } else {
        0
    })
}

/// Whether virtual pages from `address` on are free of kernel mappings.
pub open spec fn address_free(kernel: Seq<PlannedMapping>, address: int, pages: int) -> bool {
    forall|k: int|
        0 <= k < kernel.len() ==> (#[trigger] kernel[k]).virtual_range.past() <= address / 4096
            || address / 4096 + pages <= kernel[k].virtual_range.first()
}

/// Whether an isolated task can be mapped beside the kernel: one kernel
/// mapping holds the code and lets it be protected, the user addresses are
/// free, and the plan has room.
pub open spec fn isolated_fits(kernel: MappingPlan, allocation: IsolatedAllocation) -> bool {
    &&& exists|at: int|
        #[trigger] code_holder(kernel@, allocation.code, at) && kernel@.len() + protection_cost(
            kernel@[at],
            allocation.code,
        ) + 3 <= kernel.capacity
    &&& address_free(kernel@, USER_CODE_BASE as int, 1)
    &&& address_free(kernel@, USER_DATA_BASE as int, 1)
    &&& address_free(kernel@, USER_STACK_BASE as int, 4)
}

proof fn lemma_shared_is_valid(
    kernel: Seq<PlannedMapping>,
    code: PageRange,
    at: int,
    parts: Seq<PlannedMapping>,
    limit: int,
)
    requires
        plan_valid(kernel, limit),
        code.well_formed(),
        code_holder(kernel, code, at),
        protected_parts(kernel[at], code, parts),
    ensures
        plan_valid(shared_part(kernel, at, parts), shared_part(kernel, at, parts).len() as int),
        shared_part(kernel, at, parts).len() == kernel.len() + protection_cost(kernel[at], code),
        forall|range: PageRange|
            #![trigger range_apart(shared_part(kernel, at, parts), range)]
            range.well_formed() ==> range_apart(shared_part(kernel, at, parts), range)
                == range_apart(kernel, range),
{
    let shared = shared_part(kernel, at, parts);
    let n = parts.len() as int;
    let holder = kernel[at];
    assert(holder.well_formed());
    assert(forall|k: int| 0 <= k < at ==> shared[k] == kernel[k]);
    assert(forall|k: int| at <= k < at + n ==> shared[k] == parts[k - at]);
    assert(forall|k: int| at + n <= k < shared.len() ==> shared[k] == kernel[k - n + 1]);
    assert forall|k: int| 0 <= k < n implies holder.virtual_range.includes(
        (#[trigger] parts[k]).virtual_range,
    ) && parts[k].well_formed() by {}
    assert forall|i: int, j: int| 0 <= i < j < n implies (
    #[trigger] parts[i]).virtual_range.apart((#[trigger] parts[j]).virtual_range) by {}
    assert forall|i: int, j: int| 0 <= i < j < shared.len() implies (
    #[trigger] shared[i]).virtual_range.apart((#[trigger] shared[j]).virtual_range) by {
        let oi = if i < at {
            i
        } else if i < at + n {
            at
        } else {
            i - n + 1
        };
        let oj = if j < at {
            j
        } else if j < at + n {
            at
        } else {
            j - n + 1
        };
        if oi != oj {
            assert(kernel[oi].virtual_range.apart(kernel[oj].virtual_range));
        } else {
            assert(parts[i - at].virtual_range.apart(parts[j - at].virtual_range));
        }
    }
    assert forall|i: int| 0 <= i < shared.len() implies (#[trigger] shared[i]).well_formed() by {
        if i < at {
            assert(kernel[i].well_formed());
        } else if i >= at + n {
            assert(kernel[i - n + 1].well_formed());
        }
    }
    protected_code_is_not_writable(holder, code, parts);
    assert forall|range: PageRange|
        #![trigger range_apart(shared, range)]
        range.well_formed() implies range_apart(shared, range) == range_apart(kernel, range) by {
        if range_apart(kernel, range) {
            assert forall|i: int| 0 <= i < shared.len() implies (
            #[trigger] shared[i]).virtual_range.apart(range) by {
                if i < at {
                    assert(kernel[i].virtual_range.apart(range));
                } else if i < at + n {
                    assert(kernel[at].virtual_range.apart(range));
                    assert(holder.virtual_range.includes(parts[i - at].virtual_range));
                } else {
                    assert(kernel[i - n + 1].virtual_range.apart(range));
                }
            }
        }
        if range_apart(shared, range) {
            assert forall|i: int| 0 <= i < kernel.len() implies (
            #[trigger] kernel[i]).virtual_range.apart(range) by {
                if i < at {
                    assert(shared[i].virtual_range.apart(range));
                } else if i > at {
                    assert(shared[i + n - 1].virtual_range.apart(range));
                } else if !holder.virtual_range.apart(range) {
                    let page = if range.first() >= holder.virtual_range.first() {
                        range.first()
                    } else {
                        holder.virtual_range.first()
                    };
                    assert(holder.virtual_range.covers(page));
                    let k = choose|k: int| 0 <= k < n && (#[trigger] parts[k]).shows(page, page);
                    assert(shared[at + k].virtual_range.apart(range));
                    assert(parts[k].virtual_range.covers(page));
                }
            }
        }
    }
}

fn user_part(address: u64, physical: PageRange, permissions: Permissions) -> (mapping: PlannedMapping)
    requires
        physical.well_formed(),
        physical.pages() <= 4,
        address % 4096 == 0,
        address <= USER_STACK_BASE,
    ensures
        is_user_part(mapping, address as int, physical, permissions),
{
    PlannedMapping {
        virtual_range: PageRange::of_numbers(address / PAGE_SIZE, physical.page_count()),
        physical,
        permissions,
        memory_type: MemoryType::Normal,
        owner: MappingOwner::IsolatedTask,
        user: true,
    }
}

/// The mapping plan of an isolated task, with no frame writable and
/// executable.
pub fn build_isolated_plan(kernel: &MappingPlan, allocation: &IsolatedAllocation) -> (plan: Result<
    MappingPlan,
    PlanRefusal,
>)
    requires
        kernel.well_formed(),
        allocation.well_formed(),
    ensures
        match plan {
            Ok(p) => {
                &&& isolated_fits(*kernel, *allocation)
                &&& p.well_formed()
                &&& p.capacity == kernel.capacity
                &&& write_xor_execute(p@)
                &&& exists|at: int, parts: Seq<PlannedMapping>|
                    #[trigger] is_isolated_plan(p@, kernel@, *allocation, at, parts)
            },
            Err(PlanRefusal::DoesNotFit) => !isolated_fits(*kernel, *allocation),
            Err(PlanRefusal::WritableCode) => exists|
                p: Seq<PlannedMapping>,
                at: int,
                parts: Seq<PlannedMapping>,
            |
                #[trigger] is_isolated_plan(p, kernel@, *allocation, at, parts)
                    && !write_xor_execute(p),
        },
{
    let code = allocation.code;
    let mut found: Option<usize> = None;
    let mut i: usize = 0;
    while i < kernel.entries.len()
        invariant
            i <= kernel@.len(),
            kernel.well_formed(),
            code == allocation.code,
            match found {
                None => forall|j: int| 0 <= j < i ==> !shows_code(#[trigger] kernel@[j], code),
                Some(at) => {
                    &&& at < i
                    &&& shows_code(kernel@[at as int], code)
                    &&& protectable(kernel@[at as int], code)
                    &&& forall|j: int|
                        0 <= j < i && j != at ==> !shows_code(#[trigger] kernel@[j], code)
                },
            },
        decreases kernel@.len() - i,
    {
        let mapping = kernel.entries[i];
        let physical = mapping.physical;
        if code.start() < physical.end() && physical.start() < code.end() {
            assert(shows_code(kernel@[i as int], code));
            let fine = found.is_none() && physical.start() <= code.start() && code.end()
                <= physical.end() && mapping.virtual_range == physical && matches!(
                mapping.permissions,
                Permissions::ReadWrite
            );
            if !fine {
                proof {
                    assert forall|at: int| !#[trigger] code_holder(kernel@, code, at) by {
                        if code_holder(kernel@, code, at) {
                            if at != i {
                                assert(!shows_code(kernel@[i as int], code));
                            } else if found is Some {
                                assert(!shows_code(kernel@[found->0 as int], code));
                            }
                        }
                    }
                }
                return Err(PlanRefusal::DoesNotFit);
            }
            found = Some(i);
        }
        i = i + 1;
    }
    let at: usize = match found {
        Some(at) => at,
        None => {
            assert forall|at: int| !#[trigger] code_holder(kernel@, code, at) by {}
            return Err(PlanRefusal::DoesNotFit);
        },
    };
    assert(code_holder(kernel@, code, at as int));
    let parts = protect_code(kernel.entries[at], code);
    let ghost pieces = parts@;
    let ghost shared = shared_part(kernel@, at as int, pieces);
    proof {
        lemma_shared_is_valid(kernel@, code, at as int, pieces, kernel.capacity as int);
        lemma_holder_is_unique(kernel@, code, at as int);
    }
    let mut entries: Vec<PlannedMapping> = Vec::new();
    copy_range(&mut entries, &kernel.entries, 0, at);
    let count: usize = parts.len();
    copy_range(&mut entries, &parts, 0, count);
    copy_range(&mut entries, &kernel.entries, at + 1, kernel.entries.len());
    proof {
        assert(kernel@.subrange(0, at as int) =~= kernel@.take(at as int));
        assert(pieces.subrange(0, count as int) =~= pieces);
        assert(kernel@.subrange(at + 1, kernel@.len() as int) =~= kernel@.skip(at + 1));
        assert(entries@ =~= shared);
    }
    if entries.len() > kernel.capacity {
        return Err(PlanRefusal::DoesNotFit);
    }
    let mut plan = MappingPlan { entries, capacity: kernel.capacity };
    let user_code = user_part(USER_CODE_BASE, allocation.code, Permissions::ReadExecute);
    let user_data = user_part(USER_DATA_BASE, allocation.data, Permissions::ReadWrite);
    let user_stack = user_part(USER_STACK_BASE, allocation.stack, Permissions::ReadWrite);
    proof {
        lemma_address_free(kernel@, USER_CODE_BASE as int, user_code.virtual_range);
        lemma_address_free(kernel@, USER_DATA_BASE as int, user_data.virtual_range);
        lemma_address_free(kernel@, USER_STACK_BASE as int, user_stack.virtual_range);
        let _ = range_apart(shared, user_code.virtual_range);
    }
    if !plan.insert(user_code) {
        return Err(PlanRefusal::DoesNotFit);
    }
    proof {
        lemma_apart_push(shared, user_code, user_data.virtual_range);
        let _ = range_apart(shared, user_data.virtual_range);
    }
    if !plan.insert(user_data) {
        return Err(PlanRefusal::DoesNotFit);
    }
    proof {
        lemma_apart_push(shared, user_code, user_stack.virtual_range);
        lemma_apart_push(shared.push(user_code), user_data, user_stack.virtual_range);
        let _ = range_apart(shared, user_stack.virtual_range);
    }
    if !plan.insert(user_stack) {
        return Err(PlanRefusal::DoesNotFit);
    }
    proof {
        assert(plan@.take(shared.len() as int) =~= shared);
        assert(is_isolated_plan(plan@, kernel@, *allocation, at as int, pieces));
    }
    if !plan.enforces_write_xor_execute() {
        return Err(PlanRefusal::WritableCode);
    }
    Ok(plan)
}

proof fn lemma_holder_is_unique(kernel: Seq<PlannedMapping>, code: PageRange, at: int)
    requires
        code_holder(kernel, code, at),
    ensures
        forall|other: int| #[trigger] code_holder(kernel, code, other) ==> other == at,
{
    assert forall|other: int| #[trigger] code_holder(kernel, code, other) implies other == at by {
        if other != at {
            assert(!shows_code(kernel[other], code));
        }
    }
}

proof fn lemma_address_free(kernel: Seq<PlannedMapping>, address: int, range: PageRange)
    requires
        4096 * range.first() == address,
    ensures
        address_free(kernel, address, range.pages()) == range_apart(kernel, range),
{
    if address_free(kernel, address, range.pages()) {
        assert forall|i: int| 0 <= i < kernel.len() implies (
        #[trigger] kernel[i]).virtual_range.apart(range) by {}
    }
    if range_apart(kernel, range) {
        assert forall|k: int| 0 <= k < kernel.len() implies (
        #[trigger] kernel[k]).virtual_range.past() <= address / 4096 || address / 4096
            + range.pages() <= kernel[k].virtual_range.first() by {
            assert(kernel[k].virtual_range.apart(range));
        }
    }
}

proof fn lemma_apart_push(entries: Seq<PlannedMapping>, mapping: PlannedMapping, range: PageRange)
    requires
        mapping.virtual_range.apart(range),
    ensures
        range_apart(entries.push(mapping), range) == range_apart(entries, range),
{
    let more = entries.push(mapping);
    if range_apart(more, range) {
        assert forall|i: int| 0 <= i < entries.len() implies (
        #[trigger] entries[i]).virtual_range.apart(range) by {
            assert(more[i].virtual_range.apart(range));
        }
    }
    if range_apart(entries, range) {
        assert forall|i: int| 0 <= i < more.len() implies (
        #[trigger] more[i]).virtual_range.apart(range) by {
            if i < entries.len() {
                assert(entries[i].virtual_range.apart(range));
            }
        }
    }
}

/// Append the mappings `from .. to` of a list.
pub(crate) fn copy_range(
    entries: &mut Vec<PlannedMapping>,
    source: &Vec<PlannedMapping>,
    from: usize,
    to: usize,
)
    requires
        from <= to <= source@.len(),
    ensures
        final(entries)@ == old(entries)@ + source@.subrange(from as int, to as int),
{
    let ghost before = entries@;
    let mut i: usize = from;
    while i < to
        invariant
            from <= i <= to <= source@.len(),
            entries@ == before + source@.subrange(from as int, i as int),
        decreases to - i,
    {
        entries.push(source[i]);
        i = i + 1;
        assert(entries@ =~= before + source@.subrange(from as int, i as int));
    }
}

/// Building an instruction word by adding its fields is building it by
/// combining their bits.
pub proof fn aarch64_fields_are_disjoint(register: u32, halfword: u32, immediate: u32)
    requires
        register < 32,
        halfword < 4,
        immediate < 0x1_0000,
    ensures
        0xd280_0000u32 | (immediate << 5) | register == 0xd280_0000 + immediate * 32 + register,
        0xf280_0000u32 | (halfword << 21) | (immediate << 5) | register == 0xf280_0000 + halfword
            * 0x20_0000 + immediate * 32 + register,
{
    assert(0xd280_0000u32 | (immediate << 5) | register == 0xd280_0000 + immediate * 32 + register)
        by (bit_vector)
        requires
            register < 32,
            immediate < 0x1_0000,
    ;
    assert(0xf280_0000u32 | (halfword << 21) | (immediate << 5) | register == 0xf280_0000
        + halfword * 0x20_0000 + immediate * 32 + register) by (bit_vector)
        requires
            register < 32,
            halfword < 4,
            immediate < 0x1_0000,
    ;
}

/// Each probe that ends with a call differs from a good call in the one thing
/// that it is named after.
pub proof fn probes_make_the_call_they_are_named_after(
    architecture: Architecture,
    oversize: u32,
)
    ensures
        exit_call(IsolationProbe::Success, architecture, oversize) == Some(
            ExitCall { opcode: 1, address: 0x4000_0000_1000, length: 21, status: 0 },
        ),
        exit_call(IsolationProbe::InvalidOpcode, architecture, oversize) == Some(
            ExitCall { opcode: 99, address: 0x4000_0000_1000, length: 21, status: 0 },
        ),
        exit_call(IsolationProbe::InvalidCallEncoding, Architecture::X86_64, oversize) == Some(
            ExitCall { opcode: 99, address: 0x4000_0000_1000, length: 21, status: 0 },
        ),
        exit_call(IsolationProbe::InvalidCallEncoding, Architecture::Aarch64, oversize) == Some(
            ExitCall { opcode: 1, address: 0x4000_0000_1000, length: 21, status: 0 },
        ),
        exit_call(IsolationProbe::InvalidPointer, architecture, oversize) == Some(
            ExitCall { opcode: 1, address: 0x4000_1000_0000, length: 21, status: 0 },
        ),
        exit_call(IsolationProbe::OversizeMessage, architecture, oversize) == Some(
            ExitCall { opcode: 1, address: 0x4000_0000_1000, length: oversize, status: 0 },
        ),
        exit_call(IsolationProbe::InvalidStatus, architecture, oversize) == Some(
            ExitCall { opcode: 1, address: 0x4000_0000_1000, length: 21, status: 256 },
        ),
        exit_call(IsolationProbe::Translation, architecture, oversize) is None,
        exit_call(IsolationProbe::WritePermission, architecture, oversize) is None,
        exit_call(IsolationProbe::ExecutePermission, architecture, oversize) is None,
        exit_call(IsolationProbe::IllegalInstruction, architecture, oversize) is None,
        exit_call(IsolationProbe::UnexpectedEntry, architecture, oversize) is None,
{
}

/// A move of a halfword holds the register in its low five bits, the immediate in
/// the sixteen above, and above them which halfword it moves. The first clears
/// the register, the others keep what it holds.
pub proof fn moves_hold_register_and_halfword(register: u8, immediate: nat, halfword: nat)
    requires
        register < 32,
        immediate < 0x1_0000,
        halfword < 4,
    ensures
        ({
            let word = aarch64_halfword(register, immediate, halfword);
            &&& word % 32 == register
            &&& word / 32 % 0x1_0000 == immediate
            &&& halfword == 0 ==> word / 0x20_0000 == 0x694
            &&& halfword > 0 ==> word / 0x20_0000 == 0x794 + halfword
            &&& word < 0x1_0000_0000
        }),
{
}

/// Four moves put a value into a register, each sixteen bits of it.
pub proof fn loads_move_the_whole_value(register: u8, value: u64)
    requires
        register < 32,
    ensures
        ({
            let code = aarch64_load(register, value);
            let word = |i: int| le_value(code.subrange(4 * i, 4 * i + 4)) as int;
            &&& code.len() == 16
            &&& forall|i: int| 0 <= i < 4 ==> #[trigger] word(i) % 32 == register
            &&& value == word(0) / 32 % 0x1_0000 + 0x1_0000 * (word(1) / 32 % 0x1_0000)
                + 0x1_0000_0000 * (word(2) / 32 % 0x1_0000) + 0x1_0000_0000_0000 * (word(3) / 32
                % 0x1_0000)
        }),
{
    let v = value as nat;
    let a = aarch64_halfword(register, v % 0x1_0000, 0);
    let b = aarch64_halfword(register, (v / 0x1_0000) % 0x1_0000, 1);
    let c = aarch64_halfword(register, (v / 0x1_0000_0000) % 0x1_0000, 2);
    let d = aarch64_halfword(register, (v / 0x1_0000_0000_0000) % 0x1_0000, 3);
    moves_hold_register_and_halfword(register, v % 0x1_0000, 0);
    moves_hold_register_and_halfword(register, (v / 0x1_0000) % 0x1_0000, 1);
    moves_hold_register_and_halfword(register, (v / 0x1_0000_0000) % 0x1_0000, 2);
    moves_hold_register_and_halfword(register, (v / 0x1_0000_0000_0000) % 0x1_0000, 3);
    lemma_pow256_values();
    le_bytes_round_trip(a, 4);
    le_bytes_round_trip(b, 4);
    le_bytes_round_trip(c, 4);
    le_bytes_round_trip(d, 4);
    let code = aarch64_load(register, value);
    assert(code.subrange(0, 4) =~= le_bytes(a, 4));
    assert(code.subrange(4, 8) =~= le_bytes(b, 4));
    assert(code.subrange(8, 12) =~= le_bytes(c, 4));
    assert(code.subrange(12, 16) =~= le_bytes(d, 4));
    let word = |i: int| le_value(code.subrange(4 * i, 4 * i + 4)) as int;
    assert(word(0) == a && word(1) == b && word(2) == c && word(3) == d);
    assert forall|i: int| 0 <= i < 4 implies #[trigger] word(i) % 32 == register by {
        assert(i == 0 || i == 1 || i == 2 || i == 3);
    }
}

/// An x86 probe that touches memory first loads the address that it is about:
/// unmapped memory, its own code, or its data. Then it reads, writes or jumps.
pub proof fn x86_probes_touch_what_they_are_about(oversize: u32)
    ensures
        ({
            let reads = x86_program(IsolationProbe::Translation, oversize);
            let writes = x86_program(IsolationProbe::WritePermission, oversize);
            let jumps = x86_program(IsolationProbe::ExecutePermission, oversize);
            &&& reads.take(2) == seq![0x48u8, 0xb8u8]
            &&& le_value(reads.subrange(2, 10)) == 0x4000_1000_0000
            &&& reads.skip(10) == seq![0x48u8, 0x8bu8, 0x00u8, 0x0fu8, 0x0bu8]
            &&& writes.take(2) == seq![0x48u8, 0xb8u8]
            &&& le_value(writes.subrange(2, 10)) == 0x4000_0000_0000
            &&& writes.skip(10) == seq![0xc6u8, 0x00u8, 0x00u8, 0x0fu8, 0x0bu8]
            &&& jumps.take(2) == seq![0x48u8, 0xb8u8]
            &&& le_value(jumps.subrange(2, 10)) == 0x4000_0000_1000
            &&& jumps.skip(10) == seq![0xffu8, 0xe0u8, 0x0fu8, 0x0bu8]
            &&& x86_program(IsolationProbe::IllegalInstruction, oversize) == seq![
                0x0fu8,
                0x0bu8,
                0x0fu8,
                0x0bu8,
            ]
            &&& x86_program(IsolationProbe::UnexpectedEntry, oversize) == seq![
                0x0fu8,
                0x05u8,
                0x0fu8,
                0x0bu8,
            ]
        }),
{
    lemma_pow256_values();
    le_bytes_round_trip(0x4000_1000_0000, 8);
    le_bytes_round_trip(0x4000_0000_0000, 8);
    le_bytes_round_trip(0x4000_0000_1000, 8);
    let reads = x86_program(IsolationProbe::Translation, oversize);
    let writes = x86_program(IsolationProbe::WritePermission, oversize);
    let jumps = x86_program(IsolationProbe::ExecutePermission, oversize);
    assert(reads.subrange(2, 10) =~= le_bytes(0x4000_1000_0000, 8));
    assert(writes.subrange(2, 10) =~= le_bytes(0x4000_0000_0000, 8));
    assert(jumps.subrange(2, 10) =~= le_bytes(0x4000_0000_1000, 8));
    assert(reads.take(2) =~= seq![0x48u8, 0xb8u8]);
    assert(writes.take(2) =~= seq![0x48u8, 0xb8u8]);
    assert(jumps.take(2) =~= seq![0x48u8, 0xb8u8]);
    assert(reads.skip(10) =~= seq![0x48u8, 0x8bu8, 0x00u8, 0x0fu8, 0x0bu8]);
    assert(writes.skip(10) =~= seq![0xc6u8, 0x00u8, 0x00u8, 0x0fu8, 0x0bu8]);
    assert(jumps.skip(10) =~= seq![0xffu8, 0xe0u8, 0x0fu8, 0x0bu8]);
    assert(x86_program(IsolationProbe::IllegalInstruction, oversize) =~= seq![
        0x0fu8,
        0x0bu8,
        0x0fu8,
        0x0bu8,
    ]);
    assert(x86_program(IsolationProbe::UnexpectedEntry, oversize) =~= seq![
        0x0fu8,
        0x05u8,
        0x0fu8,
        0x0bu8,
    ]);
}

/// An x86 call puts opcode, address, length and status into their registers, in
/// this order, and then enters the kernel.
pub proof fn x86_calls_load_every_register(probe: IsolationProbe, call: ExitCall)
    ensures
        ({
            let code = x86_call(probe, call);
            let at = if probe == IsolationProbe::Success || probe == IsolationProbe::InvalidOpcode {
                10int
            } else {
                0
            };
            &&& code.len() == at + 27
            &&& code[at] == 0xb8
            &&& le_value(code.subrange(at + 1, at + 5)) == call.opcode
            &&& code[at + 5] == 0x48 && code[at + 6] == 0xbf
            &&& le_value(code.subrange(at + 7, at + 15)) == call.address
            &&& code[at + 15] == 0xbe
            &&& le_value(code.subrange(at + 16, at + 20)) == call.length
            &&& code[at + 20] == 0xba
            &&& le_value(code.subrange(at + 21, at + 25)) == call.status
            &&& code[at + 25] == 0xcd && code[at + 26] == 0x80
        }),
{
    let code = x86_call(probe, call);
    let at = if probe == IsolationProbe::Success || probe == IsolationProbe::InvalidOpcode {
        10int
    } else {
        0
    };
    lemma_pow256_values();
    le_bytes_round_trip(call.opcode as nat, 4);
    le_bytes_round_trip(call.address as nat, 8);
    le_bytes_round_trip(call.length as nat, 4);
    le_bytes_round_trip(call.status as nat, 4);
    assert(code.subrange(at + 1, at + 5) =~= le_bytes(call.opcode as nat, 4));
    assert(code.subrange(at + 7, at + 15) =~= le_bytes(call.address as nat, 8));
    assert(code.subrange(at + 16, at + 20) =~= le_bytes(call.length as nat, 4));
    assert(code.subrange(at + 21, at + 25) =~= le_bytes(call.status as nat, 4));
}

/// An isolated task sees its code at one fixed address, executable and not
/// writable, its data at the next page and its stack at another, both writable
/// and not executable.
pub proof fn isolated_tasks_see_code_data_and_stack(
    plan: Seq<PlannedMapping>,
    kernel: Seq<PlannedMapping>,
    allocation: IsolatedAllocation,
    at: int,
    parts: Seq<PlannedMapping>,
)
    requires
        is_isolated_plan(plan, kernel, allocation, at, parts),
        allocation.well_formed(),
    ensures
        ({
            let n = plan.len() as int;
            &&& plan[n - 3].user && plan[n - 2].user && plan[n - 1].user
            &&& plan[n - 3].permissions == Permissions::ReadExecute
            &&& plan[n - 3].virtual_range.first() == 0x4_0000_0000
            &&& plan[n - 3].physical.first() == allocation.complete.first() + 512
            &&& plan[n - 2].permissions == Permissions::ReadWrite
            &&& plan[n - 2].virtual_range.first() == 0x4_0000_0001
            &&& plan[n - 2].physical.first() == allocation.complete.first() + 513
            &&& plan[n - 1].permissions == Permissions::ReadWrite
            &&& plan[n - 1].virtual_range.first() == 0x4_0000_0010
            &&& plan[n - 1].physical.first() == allocation.complete.first() + 514
            &&& plan[n - 1].physical.pages() == 4
        }),
{
}

/// An aarch64 probe that touches memory first loads the address that it is about
/// into the first register but one: unmapped memory, its own code, or its data.
/// Then it reads, writes or jumps there.
pub proof fn aarch64_probes_touch_what_they_are_about(oversize: u32)
    ensures
        ({
            let reads = aarch64_program(IsolationProbe::Translation, oversize);
            let writes = aarch64_program(IsolationProbe::WritePermission, oversize);
            let jumps = aarch64_program(IsolationProbe::ExecutePermission, oversize);
            &&& reads.len() == 24 && writes.len() == 24 && jumps.len() == 24
            &&& reads.take(16) == aarch64_load(1, 0x4000_1000_0000)
            &&& writes.take(16) == aarch64_load(1, 0x4000_0000_0000)
            &&& jumps.take(16) == aarch64_load(1, 0x4000_0000_1000)
            &&& le_value(reads.subrange(16, 20)) == 0xf940_0020
            &&& le_value(writes.subrange(16, 20)) == 0xf900_003f
            &&& le_value(jumps.subrange(16, 20)) == 0xd61f_0020
            &&& le_value(reads.subrange(20, 24)) == 0xd420_0000
            &&& le_value(writes.subrange(20, 24)) == 0xd420_0000
            &&& le_value(jumps.subrange(20, 24)) == 0xd420_0000
        }),
{
    lemma_pow256_values();
    le_bytes_round_trip(0xf940_0020, 4);
    le_bytes_round_trip(0xf900_003f, 4);
    le_bytes_round_trip(0xd61f_0020, 4);
    le_bytes_round_trip(0xd420_0000, 4);
    loads_move_the_whole_value(1, 0x4000_1000_0000);
    loads_move_the_whole_value(1, 0x4000_0000_0000);
    loads_move_the_whole_value(1, 0x4000_0000_1000);
    let reads = aarch64_program(IsolationProbe::Translation, oversize);
    let writes = aarch64_program(IsolationProbe::WritePermission, oversize);
    let jumps = aarch64_program(IsolationProbe::ExecutePermission, oversize);
    assert(reads.take(16) =~= aarch64_load(1, 0x4000_1000_0000));
    assert(writes.take(16) =~= aarch64_load(1, 0x4000_0000_0000));
    assert(jumps.take(16) =~= aarch64_load(1, 0x4000_0000_1000));
    assert(reads.subrange(16, 20) =~= le_bytes(0xf940_0020, 4));
    assert(writes.subrange(16, 20) =~= le_bytes(0xf900_003f, 4));
    assert(jumps.subrange(16, 20) =~= le_bytes(0xd61f_0020, 4));
    assert(reads.subrange(20, 24) =~= le_bytes(0xd420_0000, 4));
    assert(writes.subrange(20, 24) =~= le_bytes(0xd420_0000, 4));
    assert(jumps.subrange(20, 24) =~= le_bytes(0xd420_0000, 4));
}

/// An aarch64 probe that ends with a call loads opcode, address, length and status
/// into the first four registers and then enters the kernel, in the form that
/// kernels do not take only where that is what it probes.
pub proof fn aarch64_calls_load_every_register(probe: IsolationProbe, oversize: u32)
    requires
        exit_call(probe, Architecture::Aarch64, oversize) is Some,
    ensures
        ({
            let call = exit_call(probe, Architecture::Aarch64, oversize)->0;
            let code = aarch64_program(probe, oversize);
            &&& code.len() == 72
            &&& code.subrange(0, 16) == aarch64_load(0, call.opcode as u64)
            &&& code.subrange(16, 32) == aarch64_load(1, call.address)
            &&& code.subrange(32, 48) == aarch64_load(2, call.length as u64)
            &&& code.subrange(48, 64) == aarch64_load(3, call.status as u64)
            &&& probe == IsolationProbe::InvalidCallEncoding ==> le_value(code.subrange(64, 68))
                == 0xd400_0021
            &&& probe != IsolationProbe::InvalidCallEncoding ==> le_value(code.subrange(64, 68))
                == 0xd400_0001
        }),
{
    let call = exit_call(probe, Architecture::Aarch64, oversize)->0;
    let code = aarch64_program(probe, oversize);
    lemma_pow256_values();
    le_bytes_round_trip(0xd400_0021, 4);
    le_bytes_round_trip(0xd400_0001, 4);
    le_bytes_round_trip(0xd420_0000, 4);
    loads_move_the_whole_value(0, call.opcode as u64);
    loads_move_the_whole_value(1, call.address);
    loads_move_the_whole_value(2, call.length as u64);
    loads_move_the_whole_value(3, call.status as u64);
    assert(code.subrange(0, 16) =~= aarch64_load(0, call.opcode as u64));
    assert(code.subrange(16, 32) =~= aarch64_load(1, call.address));
    assert(code.subrange(32, 48) =~= aarch64_load(2, call.length as u64));
    assert(code.subrange(48, 64) =~= aarch64_load(3, call.status as u64));
    if probe == IsolationProbe::InvalidCallEncoding {
        assert(code.subrange(64, 68) =~= le_bytes(0xd400_0021, 4));
    } else {
        assert(code.subrange(64, 68) =~= le_bytes(0xd400_0001, 4));
    }
}

/// Code is protected only where one mapping alone shows it, at its own address,
/// and the user's addresses are free.
pub proof fn isolated_plans_need_one_holder(kernel: MappingPlan, allocation: IsolatedAllocation)
    requires
        isolated_fits(kernel, allocation),
    ensures
        exists|at: int|
            {
                let held = #[trigger] kernel@[at];
                let code = allocation.code;
                &&& 0 <= at < kernel@.len()
                &&& held.virtual_range == held.physical
                &&& held.permissions == Permissions::ReadWrite
                &&& held.physical.first() <= code.first() && code.past() <= held.physical.past()
                &&& kernel@.len() + 3 + (if held.physical.first() < code.first() {
                    1int
                } else {
                    0
                }) + (if code.past() < held.physical.past() {
                    1int
                } else {
                    0
                }) <= kernel.capacity
                &&& forall|j: int|
                    0 <= j < kernel@.len() && j != at ==> (
                    #[trigger] kernel@[j]).physical.past() <= code.first() || code.past()
                        <= kernel@[j].physical.first()
            },
{
    let at = choose|at: int|
        #[trigger] code_holder(kernel@, allocation.code, at) && kernel@.len() + protection_cost(
            kernel@[at],
            allocation.code,
        ) + 3 <= kernel.capacity;
    let held = kernel@[at];
    assert forall|j: int| 0 <= j < kernel@.len() && j != at implies (
    #[trigger] kernel@[j]).physical.past() <= allocation.code.first() || allocation.code.past()
        <= kernel@[j].physical.first() by {
        assert(!shows_code(kernel@[j], allocation.code));
    }
}

/// An isolated task's plan holds the kernel's mappings in their order, but for the
/// one that shows its code, which is cut so that the code cannot be written.
pub proof fn isolated_tasks_keep_the_kernel(
    plan: Seq<PlannedMapping>,
    kernel: Seq<PlannedMapping>,
    allocation: IsolatedAllocation,
    at: int,
    parts: Seq<PlannedMapping>,
    k: int,
)
    requires
        is_isolated_plan(plan, kernel, allocation, at, parts),
    ensures
        plan.len() == kernel.len() - 1 + parts.len() + 3,
        0 <= k < at ==> plan[k] == kernel[k],
        0 <= k < parts.len() ==> plan[at + k] == parts[k],
        at < k < kernel.len() ==> plan[k - 1 + parts.len()] == kernel[k],
{
    let shared = kernel.take(at) + parts + kernel.skip(at + 1);
    let front = plan.take(shared.len() as int);
    if 0 <= k < at {
        assert(front[k] == shared[k]);
    }
    if 0 <= k < parts.len() {
        assert(front[at + k] == shared[at + k]);
    }
    if at < k < kernel.len() {
        assert(front[k - 1 + parts.len()] == shared[k - 1 + parts.len()]);
    }
}

} // verus!
