//! Machine code that the probes run as user code.

use crate::bytes::append_bytes;
use crate::memory::isolated::Architecture;
use vstd::prelude::*;

verus! {

/// x86 code of the context program.
pub open spec fn x86_context_code() -> Seq<u8> {
    Seq::<u8>::empty()
        + seq![0x49u8, 0x89u8, 0xfcu8, 0xbbu8, 0x00u8, 0xe1u8, 0xf5u8, 0x05u8, 0xffu8, 0xcbu8, 0x75u8, 0xfcu8, 0x41u8, 0xbeu8, 0x10u8, 0x00u8]
        + seq![0x00u8, 0x00u8, 0x64u8, 0x48u8, 0x8bu8, 0x04u8, 0x25u8, 0x00u8, 0x00u8, 0x00u8, 0x00u8, 0x49u8, 0x3bu8, 0x04u8, 0x24u8, 0x75u8]
        + seq![0x42u8, 0x64u8, 0x4cu8, 0x8bu8, 0x3cu8, 0x25u8, 0x18u8, 0x00u8, 0x00u8, 0x00u8, 0x49u8, 0x89u8, 0x07u8, 0x64u8, 0x48u8, 0x03u8]
        + seq![0x04u8, 0x25u8, 0x10u8, 0x00u8, 0x00u8, 0x00u8, 0x49u8, 0x3bu8, 0x87u8, 0x00u8, 0x10u8, 0x00u8, 0x00u8, 0x75u8, 0x24u8, 0x64u8]
        + seq![0x4cu8, 0x8bu8, 0x2cu8, 0x25u8, 0x08u8, 0x00u8, 0x00u8, 0x00u8, 0x49u8, 0xffu8, 0x45u8, 0x00u8, 0x64u8, 0x48u8, 0xffu8, 0x04u8]
        + seq![0x25u8, 0x10u8, 0x00u8, 0x00u8, 0x00u8, 0xb8u8, 0x01u8, 0x00u8, 0x00u8, 0x00u8, 0xcdu8, 0x80u8, 0x41u8, 0xffu8, 0xceu8, 0x75u8]
        + seq![0xb1u8, 0x0fu8, 0x0bu8, 0xbfu8, 0x01u8, 0x00u8, 0x00u8, 0x00u8, 0x31u8, 0xc0u8, 0xcdu8, 0x80u8, 0x0fu8, 0x0bu8]
}

fn x86_context() -> (code: Vec<u8>)
    ensures
        code@ == x86_context_code(),
{
    let mut code: Vec<u8> = Vec::new();
    append_bytes(&mut code, &[0x49u8, 0x89u8, 0xfcu8, 0xbbu8, 0x00u8, 0xe1u8, 0xf5u8, 0x05u8, 0xffu8, 0xcbu8, 0x75u8, 0xfcu8, 0x41u8, 0xbeu8, 0x10u8, 0x00u8]);
    append_bytes(&mut code, &[0x00u8, 0x00u8, 0x64u8, 0x48u8, 0x8bu8, 0x04u8, 0x25u8, 0x00u8, 0x00u8, 0x00u8, 0x00u8, 0x49u8, 0x3bu8, 0x04u8, 0x24u8, 0x75u8]);
    append_bytes(&mut code, &[0x42u8, 0x64u8, 0x4cu8, 0x8bu8, 0x3cu8, 0x25u8, 0x18u8, 0x00u8, 0x00u8, 0x00u8, 0x49u8, 0x89u8, 0x07u8, 0x64u8, 0x48u8, 0x03u8]);
    append_bytes(&mut code, &[0x04u8, 0x25u8, 0x10u8, 0x00u8, 0x00u8, 0x00u8, 0x49u8, 0x3bu8, 0x87u8, 0x00u8, 0x10u8, 0x00u8, 0x00u8, 0x75u8, 0x24u8, 0x64u8]);
    append_bytes(&mut code, &[0x4cu8, 0x8bu8, 0x2cu8, 0x25u8, 0x08u8, 0x00u8, 0x00u8, 0x00u8, 0x49u8, 0xffu8, 0x45u8, 0x00u8, 0x64u8, 0x48u8, 0xffu8, 0x04u8]);
    append_bytes(&mut code, &[0x25u8, 0x10u8, 0x00u8, 0x00u8, 0x00u8, 0xb8u8, 0x01u8, 0x00u8, 0x00u8, 0x00u8, 0xcdu8, 0x80u8, 0x41u8, 0xffu8, 0xceu8, 0x75u8]);
    append_bytes(&mut code, &[0xb1u8, 0x0fu8, 0x0bu8, 0xbfu8, 0x01u8, 0x00u8, 0x00u8, 0x00u8, 0x31u8, 0xc0u8, 0xcdu8, 0x80u8, 0x0fu8, 0x0bu8]);
    assert(code@ =~= x86_context_code());
    code
}

/// Arm code of the context program.
pub open spec fn aarch64_context_code() -> Seq<u8> {
    Seq::<u8>::empty()
        + seq![0xf3u8, 0x03u8, 0x00u8, 0xaau8, 0x14u8, 0x20u8, 0x9cu8, 0x52u8, 0xb4u8, 0xbeu8, 0xa0u8, 0x72u8, 0x94u8, 0x06u8, 0x00u8, 0x71u8]
        + seq![0xe1u8, 0xffu8, 0xffu8, 0x54u8, 0x15u8, 0x02u8, 0x80u8, 0x52u8, 0x56u8, 0xd0u8, 0x3bu8, 0xd5u8, 0xc0u8, 0x02u8, 0x40u8, 0xf9u8]
        + seq![0x61u8, 0x02u8, 0x40u8, 0xf9u8, 0x1fu8, 0x00u8, 0x01u8, 0xebu8, 0x81u8, 0x02u8, 0x00u8, 0x54u8, 0xd8u8, 0x0eu8, 0x40u8, 0xf9u8]
        + seq![0x00u8, 0x03u8, 0x00u8, 0xf9u8, 0xc1u8, 0x0au8, 0x40u8, 0xf9u8, 0x00u8, 0x00u8, 0x01u8, 0x8bu8, 0x01u8, 0x03u8, 0x48u8, 0xf9u8]
        + seq![0x1fu8, 0x00u8, 0x01u8, 0xebu8, 0xa1u8, 0x01u8, 0x00u8, 0x54u8, 0xd7u8, 0x06u8, 0x40u8, 0xf9u8, 0xe0u8, 0x02u8, 0x40u8, 0xf9u8]
        + seq![0x00u8, 0x04u8, 0x00u8, 0x91u8, 0xe0u8, 0x02u8, 0x00u8, 0xf9u8, 0xc0u8, 0x0au8, 0x40u8, 0xf9u8, 0x00u8, 0x04u8, 0x00u8, 0x91u8]
        + seq![0xc0u8, 0x0au8, 0x00u8, 0xf9u8, 0x28u8, 0x00u8, 0x80u8, 0xd2u8, 0x01u8, 0x00u8, 0x00u8, 0xd4u8, 0xb5u8, 0x06u8, 0x00u8, 0x71u8]
        + seq![0x41u8, 0xfdu8, 0xffu8, 0x54u8, 0x00u8, 0x00u8, 0x20u8, 0xd4u8, 0x20u8, 0x00u8, 0x80u8, 0xd2u8, 0x08u8, 0x00u8, 0x80u8, 0xd2u8]
        + seq![0x01u8, 0x00u8, 0x00u8, 0xd4u8, 0x00u8, 0x00u8, 0x20u8, 0xd4u8]
}

fn aarch64_context() -> (code: Vec<u8>)
    ensures
        code@ == aarch64_context_code(),
{
    let mut code: Vec<u8> = Vec::new();
    append_bytes(&mut code, &[0xf3u8, 0x03u8, 0x00u8, 0xaau8, 0x14u8, 0x20u8, 0x9cu8, 0x52u8, 0xb4u8, 0xbeu8, 0xa0u8, 0x72u8, 0x94u8, 0x06u8, 0x00u8, 0x71u8]);
    append_bytes(&mut code, &[0xe1u8, 0xffu8, 0xffu8, 0x54u8, 0x15u8, 0x02u8, 0x80u8, 0x52u8, 0x56u8, 0xd0u8, 0x3bu8, 0xd5u8, 0xc0u8, 0x02u8, 0x40u8, 0xf9u8]);
    append_bytes(&mut code, &[0x61u8, 0x02u8, 0x40u8, 0xf9u8, 0x1fu8, 0x00u8, 0x01u8, 0xebu8, 0x81u8, 0x02u8, 0x00u8, 0x54u8, 0xd8u8, 0x0eu8, 0x40u8, 0xf9u8]);
    append_bytes(&mut code, &[0x00u8, 0x03u8, 0x00u8, 0xf9u8, 0xc1u8, 0x0au8, 0x40u8, 0xf9u8, 0x00u8, 0x00u8, 0x01u8, 0x8bu8, 0x01u8, 0x03u8, 0x48u8, 0xf9u8]);
    append_bytes(&mut code, &[0x1fu8, 0x00u8, 0x01u8, 0xebu8, 0xa1u8, 0x01u8, 0x00u8, 0x54u8, 0xd7u8, 0x06u8, 0x40u8, 0xf9u8, 0xe0u8, 0x02u8, 0x40u8, 0xf9u8]);
    append_bytes(&mut code, &[0x00u8, 0x04u8, 0x00u8, 0x91u8, 0xe0u8, 0x02u8, 0x00u8, 0xf9u8, 0xc0u8, 0x0au8, 0x40u8, 0xf9u8, 0x00u8, 0x04u8, 0x00u8, 0x91u8]);
    append_bytes(&mut code, &[0xc0u8, 0x0au8, 0x00u8, 0xf9u8, 0x28u8, 0x00u8, 0x80u8, 0xd2u8, 0x01u8, 0x00u8, 0x00u8, 0xd4u8, 0xb5u8, 0x06u8, 0x00u8, 0x71u8]);
    append_bytes(&mut code, &[0x41u8, 0xfdu8, 0xffu8, 0x54u8, 0x00u8, 0x00u8, 0x20u8, 0xd4u8, 0x20u8, 0x00u8, 0x80u8, 0xd2u8, 0x08u8, 0x00u8, 0x80u8, 0xd2u8]);
    append_bytes(&mut code, &[0x01u8, 0x00u8, 0x00u8, 0xd4u8, 0x00u8, 0x00u8, 0x20u8, 0xd4u8]);
    assert(code@ =~= aarch64_context_code());
    code
}

/// Code of the context program: two threads spin until they were preempted, check the marker in their thread-local
/// storage, exchange markers through their message pages, count, and give up
/// the processor, sixteen times; an illegal instruction follows. On a
/// mismatch they exit with status 1.
pub fn context_program(architecture: Architecture) -> (code: Vec<u8>)
    ensures
        code@ == match architecture {
            Architecture::X86_64 => x86_context_code(),
            Architecture::Aarch64 => aarch64_context_code(),
        },
{
    match architecture {
        Architecture::X86_64 => x86_context(),
        Architecture::Aarch64 => aarch64_context(),
    }
}

/// x86 code of the synchronization program.
pub open spec fn x86_sync_code() -> Seq<u8> {
    Seq::<u8>::empty()
        + seq![0x64u8, 0x4cu8, 0x8bu8, 0x24u8, 0x25u8, 0x08u8, 0x00u8, 0x00u8, 0x00u8, 0x64u8, 0x4cu8, 0x8bu8, 0x2cu8, 0x25u8, 0x18u8, 0x00u8]
        + seq![0x00u8, 0x00u8, 0x64u8, 0x4cu8, 0x8bu8, 0x34u8, 0x25u8, 0x30u8, 0x00u8, 0x00u8, 0x00u8, 0x31u8, 0xdbu8, 0x49u8, 0x8bu8, 0x04u8]
        + seq![0xdcu8, 0x49u8, 0x89u8, 0x44u8, 0xddu8, 0x00u8, 0xffu8, 0xc3u8, 0x83u8, 0xfbu8, 0x08u8, 0x75u8, 0xf0u8, 0x64u8, 0x48u8, 0x8bu8]
        + seq![0x3cu8, 0x25u8, 0x28u8, 0x00u8, 0x00u8, 0x00u8, 0xbeu8, 0x40u8, 0x00u8, 0x00u8, 0x00u8, 0xbau8, 0x20u8, 0x00u8, 0x00u8, 0x00u8]
        + seq![0x45u8, 0x31u8, 0xd2u8, 0x45u8, 0x31u8, 0xc0u8, 0x45u8, 0x31u8, 0xc9u8, 0xb8u8, 0x06u8, 0x00u8, 0x00u8, 0x00u8, 0xcdu8, 0x80u8]
        + seq![0x48u8, 0x85u8, 0xc0u8, 0x75u8, 0x52u8, 0x48u8, 0x83u8, 0xfau8, 0x20u8, 0x75u8, 0x4cu8, 0x31u8, 0xdbu8, 0x49u8, 0x8bu8, 0x44u8]
        + seq![0xdcu8, 0x40u8, 0x49u8, 0x3bu8, 0x84u8, 0xddu8, 0x00u8, 0x10u8, 0x00u8, 0x00u8, 0x75u8, 0x3bu8, 0xffu8, 0xc3u8, 0x83u8, 0xfbu8]
        + seq![0x04u8, 0x75u8, 0xeau8, 0x64u8, 0x48u8, 0xffu8, 0x04u8, 0x25u8, 0x10u8, 0x00u8, 0x00u8, 0x00u8, 0x49u8, 0x83u8, 0xc4u8, 0x60u8]
        + seq![0x49u8, 0xffu8, 0xceu8, 0x75u8, 0x96u8, 0x64u8, 0x48u8, 0xc7u8, 0x04u8, 0x25u8, 0x38u8, 0x00u8, 0x00u8, 0x00u8, 0x01u8, 0x00u8]
        + seq![0x00u8, 0x00u8, 0x64u8, 0x48u8, 0x83u8, 0x3cu8, 0x25u8, 0x40u8, 0x00u8, 0x00u8, 0x00u8, 0x00u8, 0x75u8, 0x12u8, 0xb8u8, 0x01u8]
        + seq![0x00u8, 0x00u8, 0x00u8, 0xcdu8, 0x80u8, 0xebu8, 0xf7u8, 0xbfu8, 0x01u8, 0x00u8, 0x00u8, 0x00u8, 0x31u8, 0xc0u8, 0xcdu8, 0x80u8]
        + seq![0x0fu8, 0x0bu8]
}

fn x86_sync() -> (code: Vec<u8>)
    ensures
        code@ == x86_sync_code(),
{
    let mut code: Vec<u8> = Vec::new();
    append_bytes(&mut code, &[0x64u8, 0x4cu8, 0x8bu8, 0x24u8, 0x25u8, 0x08u8, 0x00u8, 0x00u8, 0x00u8, 0x64u8, 0x4cu8, 0x8bu8, 0x2cu8, 0x25u8, 0x18u8, 0x00u8]);
    append_bytes(&mut code, &[0x00u8, 0x00u8, 0x64u8, 0x4cu8, 0x8bu8, 0x34u8, 0x25u8, 0x30u8, 0x00u8, 0x00u8, 0x00u8, 0x31u8, 0xdbu8, 0x49u8, 0x8bu8, 0x04u8]);
    append_bytes(&mut code, &[0xdcu8, 0x49u8, 0x89u8, 0x44u8, 0xddu8, 0x00u8, 0xffu8, 0xc3u8, 0x83u8, 0xfbu8, 0x08u8, 0x75u8, 0xf0u8, 0x64u8, 0x48u8, 0x8bu8]);
    append_bytes(&mut code, &[0x3cu8, 0x25u8, 0x28u8, 0x00u8, 0x00u8, 0x00u8, 0xbeu8, 0x40u8, 0x00u8, 0x00u8, 0x00u8, 0xbau8, 0x20u8, 0x00u8, 0x00u8, 0x00u8]);
    append_bytes(&mut code, &[0x45u8, 0x31u8, 0xd2u8, 0x45u8, 0x31u8, 0xc0u8, 0x45u8, 0x31u8, 0xc9u8, 0xb8u8, 0x06u8, 0x00u8, 0x00u8, 0x00u8, 0xcdu8, 0x80u8]);
    append_bytes(&mut code, &[0x48u8, 0x85u8, 0xc0u8, 0x75u8, 0x52u8, 0x48u8, 0x83u8, 0xfau8, 0x20u8, 0x75u8, 0x4cu8, 0x31u8, 0xdbu8, 0x49u8, 0x8bu8, 0x44u8]);
    append_bytes(&mut code, &[0xdcu8, 0x40u8, 0x49u8, 0x3bu8, 0x84u8, 0xddu8, 0x00u8, 0x10u8, 0x00u8, 0x00u8, 0x75u8, 0x3bu8, 0xffu8, 0xc3u8, 0x83u8, 0xfbu8]);
    append_bytes(&mut code, &[0x04u8, 0x75u8, 0xeau8, 0x64u8, 0x48u8, 0xffu8, 0x04u8, 0x25u8, 0x10u8, 0x00u8, 0x00u8, 0x00u8, 0x49u8, 0x83u8, 0xc4u8, 0x60u8]);
    append_bytes(&mut code, &[0x49u8, 0xffu8, 0xceu8, 0x75u8, 0x96u8, 0x64u8, 0x48u8, 0xc7u8, 0x04u8, 0x25u8, 0x38u8, 0x00u8, 0x00u8, 0x00u8, 0x01u8, 0x00u8]);
    append_bytes(&mut code, &[0x00u8, 0x00u8, 0x64u8, 0x48u8, 0x83u8, 0x3cu8, 0x25u8, 0x40u8, 0x00u8, 0x00u8, 0x00u8, 0x00u8, 0x75u8, 0x12u8, 0xb8u8, 0x01u8]);
    append_bytes(&mut code, &[0x00u8, 0x00u8, 0x00u8, 0xcdu8, 0x80u8, 0xebu8, 0xf7u8, 0xbfu8, 0x01u8, 0x00u8, 0x00u8, 0x00u8, 0x31u8, 0xc0u8, 0xcdu8, 0x80u8]);
    append_bytes(&mut code, &[0x0fu8, 0x0bu8]);
    assert(code@ =~= x86_sync_code());
    code
}

/// Arm code of the synchronization program.
pub open spec fn aarch64_sync_code() -> Seq<u8> {
    Seq::<u8>::empty()
        + seq![0x56u8, 0xd0u8, 0x3bu8, 0xd5u8, 0xd4u8, 0x06u8, 0x40u8, 0xf9u8, 0xd5u8, 0x0eu8, 0x40u8, 0xf9u8, 0xd7u8, 0x1au8, 0x40u8, 0xf9u8]
        + seq![0x8au8, 0x2eu8, 0x40u8, 0xa9u8, 0xaau8, 0x2eu8, 0x00u8, 0xa9u8, 0x8au8, 0x2eu8, 0x41u8, 0xa9u8, 0xaau8, 0x2eu8, 0x01u8, 0xa9u8]
        + seq![0x8au8, 0x2eu8, 0x42u8, 0xa9u8, 0xaau8, 0x2eu8, 0x02u8, 0xa9u8, 0x8au8, 0x2eu8, 0x43u8, 0xa9u8, 0xaau8, 0x2eu8, 0x03u8, 0xa9u8]
        + seq![0xc0u8, 0x16u8, 0x40u8, 0xf9u8, 0x01u8, 0x08u8, 0x80u8, 0xd2u8, 0x02u8, 0x04u8, 0x80u8, 0xd2u8, 0x03u8, 0x00u8, 0x80u8, 0xd2u8]
        + seq![0x04u8, 0x00u8, 0x80u8, 0xd2u8, 0x05u8, 0x00u8, 0x80u8, 0xd2u8, 0xc8u8, 0x00u8, 0x80u8, 0xd2u8, 0x01u8, 0x00u8, 0x00u8, 0xd4u8]
        + seq![0xa0u8, 0x03u8, 0x00u8, 0xb5u8, 0x3fu8, 0x80u8, 0x00u8, 0xf1u8, 0x61u8, 0x03u8, 0x00u8, 0x54u8, 0xb8u8, 0x06u8, 0x40u8, 0x91u8]
        + seq![0x8au8, 0x2eu8, 0x44u8, 0xa9u8, 0x0cu8, 0x37u8, 0x40u8, 0xa9u8, 0x5fu8, 0x01u8, 0x0cu8, 0xebu8, 0xc1u8, 0x02u8, 0x00u8, 0x54u8]
        + seq![0x7fu8, 0x01u8, 0x0du8, 0xebu8, 0x81u8, 0x02u8, 0x00u8, 0x54u8, 0x8au8, 0x2eu8, 0x45u8, 0xa9u8, 0x0cu8, 0x37u8, 0x41u8, 0xa9u8]
        + seq![0x5fu8, 0x01u8, 0x0cu8, 0xebu8, 0x01u8, 0x02u8, 0x00u8, 0x54u8, 0x7fu8, 0x01u8, 0x0du8, 0xebu8, 0xc1u8, 0x01u8, 0x00u8, 0x54u8]
        + seq![0xc9u8, 0x0au8, 0x40u8, 0xf9u8, 0x29u8, 0x05u8, 0x00u8, 0x91u8, 0xc9u8, 0x0au8, 0x00u8, 0xf9u8, 0x94u8, 0x82u8, 0x01u8, 0x91u8]
        + seq![0xf7u8, 0x06u8, 0x00u8, 0xf1u8, 0x61u8, 0xfbu8, 0xffu8, 0x54u8, 0x29u8, 0x00u8, 0x80u8, 0xd2u8, 0xc9u8, 0x1eu8, 0x00u8, 0xf9u8]
        + seq![0xc9u8, 0x22u8, 0x40u8, 0xf9u8, 0xe9u8, 0x00u8, 0x00u8, 0xb5u8, 0x28u8, 0x00u8, 0x80u8, 0xd2u8, 0x01u8, 0x00u8, 0x00u8, 0xd4u8]
        + seq![0xfeu8, 0xffu8, 0xffu8, 0x17u8, 0x20u8, 0x00u8, 0x80u8, 0xd2u8, 0x08u8, 0x00u8, 0x80u8, 0xd2u8, 0x01u8, 0x00u8, 0x00u8, 0xd4u8]
        + seq![0x00u8, 0x00u8, 0x20u8, 0xd4u8]
}

fn aarch64_sync() -> (code: Vec<u8>)
    ensures
        code@ == aarch64_sync_code(),
{
    let mut code: Vec<u8> = Vec::new();
    append_bytes(&mut code, &[0x56u8, 0xd0u8, 0x3bu8, 0xd5u8, 0xd4u8, 0x06u8, 0x40u8, 0xf9u8, 0xd5u8, 0x0eu8, 0x40u8, 0xf9u8, 0xd7u8, 0x1au8, 0x40u8, 0xf9u8]);
    append_bytes(&mut code, &[0x8au8, 0x2eu8, 0x40u8, 0xa9u8, 0xaau8, 0x2eu8, 0x00u8, 0xa9u8, 0x8au8, 0x2eu8, 0x41u8, 0xa9u8, 0xaau8, 0x2eu8, 0x01u8, 0xa9u8]);
    append_bytes(&mut code, &[0x8au8, 0x2eu8, 0x42u8, 0xa9u8, 0xaau8, 0x2eu8, 0x02u8, 0xa9u8, 0x8au8, 0x2eu8, 0x43u8, 0xa9u8, 0xaau8, 0x2eu8, 0x03u8, 0xa9u8]);
    append_bytes(&mut code, &[0xc0u8, 0x16u8, 0x40u8, 0xf9u8, 0x01u8, 0x08u8, 0x80u8, 0xd2u8, 0x02u8, 0x04u8, 0x80u8, 0xd2u8, 0x03u8, 0x00u8, 0x80u8, 0xd2u8]);
    append_bytes(&mut code, &[0x04u8, 0x00u8, 0x80u8, 0xd2u8, 0x05u8, 0x00u8, 0x80u8, 0xd2u8, 0xc8u8, 0x00u8, 0x80u8, 0xd2u8, 0x01u8, 0x00u8, 0x00u8, 0xd4u8]);
    append_bytes(&mut code, &[0xa0u8, 0x03u8, 0x00u8, 0xb5u8, 0x3fu8, 0x80u8, 0x00u8, 0xf1u8, 0x61u8, 0x03u8, 0x00u8, 0x54u8, 0xb8u8, 0x06u8, 0x40u8, 0x91u8]);
    append_bytes(&mut code, &[0x8au8, 0x2eu8, 0x44u8, 0xa9u8, 0x0cu8, 0x37u8, 0x40u8, 0xa9u8, 0x5fu8, 0x01u8, 0x0cu8, 0xebu8, 0xc1u8, 0x02u8, 0x00u8, 0x54u8]);
    append_bytes(&mut code, &[0x7fu8, 0x01u8, 0x0du8, 0xebu8, 0x81u8, 0x02u8, 0x00u8, 0x54u8, 0x8au8, 0x2eu8, 0x45u8, 0xa9u8, 0x0cu8, 0x37u8, 0x41u8, 0xa9u8]);
    append_bytes(&mut code, &[0x5fu8, 0x01u8, 0x0cu8, 0xebu8, 0x01u8, 0x02u8, 0x00u8, 0x54u8, 0x7fu8, 0x01u8, 0x0du8, 0xebu8, 0xc1u8, 0x01u8, 0x00u8, 0x54u8]);
    append_bytes(&mut code, &[0xc9u8, 0x0au8, 0x40u8, 0xf9u8, 0x29u8, 0x05u8, 0x00u8, 0x91u8, 0xc9u8, 0x0au8, 0x00u8, 0xf9u8, 0x94u8, 0x82u8, 0x01u8, 0x91u8]);
    append_bytes(&mut code, &[0xf7u8, 0x06u8, 0x00u8, 0xf1u8, 0x61u8, 0xfbu8, 0xffu8, 0x54u8, 0x29u8, 0x00u8, 0x80u8, 0xd2u8, 0xc9u8, 0x1eu8, 0x00u8, 0xf9u8]);
    append_bytes(&mut code, &[0xc9u8, 0x22u8, 0x40u8, 0xf9u8, 0xe9u8, 0x00u8, 0x00u8, 0xb5u8, 0x28u8, 0x00u8, 0x80u8, 0xd2u8, 0x01u8, 0x00u8, 0x00u8, 0xd4u8]);
    append_bytes(&mut code, &[0xfeu8, 0xffu8, 0xffu8, 0x17u8, 0x20u8, 0x00u8, 0x80u8, 0xd2u8, 0x08u8, 0x00u8, 0x80u8, 0xd2u8, 0x01u8, 0x00u8, 0x00u8, 0xd4u8]);
    append_bytes(&mut code, &[0x00u8, 0x00u8, 0x20u8, 0xd4u8]);
    assert(code@ =~= aarch64_sync_code());
    code
}

/// Code of the synchronization program: two threads copy one request of their script into their transmit page, call the
/// scheduler, compare the reply with the expected one and count; at the end
/// they give up the processor, or trap if they are told to. On a mismatch
/// they exit with status 1.
pub fn sync_program(architecture: Architecture) -> (code: Vec<u8>)
    ensures
        code@ == match architecture {
            Architecture::X86_64 => x86_sync_code(),
            Architecture::Aarch64 => aarch64_sync_code(),
        },
{
    match architecture {
        Architecture::X86_64 => x86_sync(),
        Architecture::Aarch64 => aarch64_sync(),
    }
}

} // verus!
