//! The SBI call proxy: demultiplexing guest environment calls.
//!
//! A guest's ecall arrives with the extension id in a7 and the function
//! id in a6. The proxy turns each legal call into a command for the
//! firmware — or an immediate answer — and the dispatcher writes the
//! result back into the guest's a0/a1 and advances its program counter.
//! Unknown extensions are fatal; the guest may never reset the platform.

use vstd::prelude::*;

use crate::error::VmmError;
use crate::regs::TrapContext;

verus! {

/// Legacy extension id of the console putchar call.
pub const SBI_CONSOLE_PUTCHAR: u64 = 1;

/// Legacy extension id of the console getchar call.
pub const SBI_CONSOLE_GETCHAR: u64 = 2;

/// Legacy extension id of the set-timer call.
pub const SBI_SET_TIMER: u64 = 0;

/// The success error code.
pub const SBI_SUCCESS: u64 = 0;

/// The not-supported error code, -2 as a machine word.
pub const SBI_ERR_NOT_SUPPORTED: u64 = 0xffff_ffff_ffff_fffe;

/// The base extension id.
pub const SBI_EXTID_BASE: u64 = 0x10;

/// Base function: specification version.
pub const SBI_GET_SBI_SPEC_VERSION_FID: u64 = 0;

/// Base function: implementation id.
pub const SBI_GET_SBI_IMPL_ID_FID: u64 = 1;

/// Base function: implementation version.
pub const SBI_GET_SBI_IMPL_VERSION_FID: u64 = 2;

/// Base function: probe an extension.
pub const SBI_PROBE_EXTENSION_FID: u64 = 3;

/// Base function: machine vendor id.
pub const SBI_GET_MVENDORID_FID: u64 = 4;

/// Base function: machine architecture id.
pub const SBI_GET_MARCHID_FID: u64 = 5;

/// Base function: machine implementation id.
pub const SBI_GET_MIMPID_FID: u64 = 6;

/// The timer extension id, "TIME".
pub const SBI_EXTID_TIME: u64 = 0x54494D45;

/// Timer function: set the timer.
pub const SBI_SET_TIMER_FID: u64 = 0;

/// The remote-fence extension id, "RFNC".
pub const SBI_EXTID_RFNC: u64 = 0x52464E43;

/// Remote-fence function: fence.i on remote harts.
pub const SBI_REMOTE_FENCE_I_FID: u64 = 0;

/// Remote-fence function: sfence.vma on remote harts.
pub const SBI_REMOTE_SFENCE_VMA_FID: u64 = 1;

/// The performance-monitoring extension id, "PMU".
pub const SBI_EXTID_PMU: u64 = 0x504D55;

/// PMU function: number of counters.
pub const SBI_PMU_NUM_COUNTERS_FID: u64 = 0;

/// PMU function: describe one counter.
pub const SBI_PMU_COUNTER_GET_INFO_FID: u64 = 1;

/// PMU function: stop counters.
pub const SBI_PMU_COUNTER_STOP_FID: u64 = 4;

/// An SBI return pair: the error code and the value.
#[derive(Clone, Copy, PartialEq, Eq, Structural, Debug)]
pub struct SbiRet {
    /// The error code, zero on success.
    pub error: u64,
    /// The returned value.
    pub value: u64,
}

/// What a legal guest SBI call asks the hypervisor to do.
#[derive(Clone, Copy, PartialEq, Eq, Structural, Debug)]
pub enum SbiCommand {
    /// Forward a base-extension call to the firmware with one argument.
    Base { fid: u64, arg0: u64 },
    /// Print one character on the console.
    PutChar { ch: u64 },
    /// Read one character from the console.
    GetChar,
    /// Program the timer; the virtual timer pending bit is cleared and
    /// the host timer interrupt re-enabled.
    SetTimer { time: u64 },
    /// Forward a remote fence.i.
    RemoteFenceI { hart_mask: u64, hart_mask_base: u64 },
    /// Forward a remote sfence.vma.
    RemoteSfenceVma { hart_mask: u64, hart_mask_base: u64, start_addr: u64, size: u64 },
    /// Ask the firmware how many counters the platform monitors.
    PmuNumCounters,
    /// Forward a counter description request.
    PmuCounterGetInfo { counter_idx: u64 },
    /// Forward a counter stop request.
    PmuCounterStop { counter_idx_base: u64, counter_idx_mask: u64, stop_flags: u64 },
    /// Answer without the firmware.
    Respond { error: u64, value: u64 },
}

/// The base-extension handler: every legal function is forwarded to the
/// firmware, the probe call carrying the guest's a0.
pub fn sbi_base_handler(fid: u64, ctx: &TrapContext) -> (r: Result<SbiCommand, VmmError>)
    requires
        ctx.wf(),
    ensures
        fid <= 6 && fid != SBI_PROBE_EXTENSION_FID ==> r == Ok::<SbiCommand, VmmError>(
            SbiCommand::Base { fid, arg0: 0 },
        ),
        fid == SBI_PROBE_EXTENSION_FID ==> r == Ok::<SbiCommand, VmmError>(
            SbiCommand::Base { fid, arg0: ctx.x@[10] },
        ),
        fid > 6 ==> r == Err::<SbiCommand, VmmError>(VmmError::NotSupported),
{
    if fid == SBI_PROBE_EXTENSION_FID {
        let extension = ctx.x[10];
        Ok(SbiCommand::Base { fid, arg0: extension })
    } else if fid <= 6 {
        Ok(SbiCommand::Base { fid, arg0: 0 })
    } else {
        Err(VmmError::NotSupported)
    }
}

/// The legacy console putchar handler.
pub fn sbi_console_putchar_handler(c: u64) -> (r: SbiCommand)
    ensures
        r == (SbiCommand::PutChar { ch: c }),
{
    SbiCommand::PutChar { ch: c }
}

/// The legacy console getchar handler.
pub fn sbi_console_getchar_handler() -> (r: SbiCommand)
    ensures
        r == SbiCommand::GetChar,
{
    SbiCommand::GetChar
}

/// The timer-extension handler: only the set-timer function exists;
/// anything else is answered not-supported without the firmware.
pub fn sbi_time_handler(stime: u64, fid: u64) -> (r: SbiCommand)
    ensures
        fid == SBI_SET_TIMER_FID ==> r == (SbiCommand::SetTimer { time: stime }),
        fid != SBI_SET_TIMER_FID ==> r == (SbiCommand::Respond {
            error: SBI_ERR_NOT_SUPPORTED,
            value: 0,
        }),
{
    if fid != SBI_SET_TIMER_FID {
        SbiCommand::Respond { error: SBI_ERR_NOT_SUPPORTED, value: 0 }
    } else {
        SbiCommand::SetTimer { time: stime }
    }
}

/// The legacy set-timer handler.
pub fn sbi_legacy_set_time(stime: u64) -> (r: SbiCommand)
    ensures
        r == (SbiCommand::SetTimer { time: stime }),
{
    SbiCommand::SetTimer { time: stime }
}

/// The remote-fence handler: fence.i and sfence.vma are forwarded with
/// the guest's arguments; the remaining functions are not implemented.
pub fn sbi_rfnc_handler(fid: u64, ctx: &TrapContext) -> (r: Result<SbiCommand, VmmError>)
    requires
        ctx.wf(),
    ensures
        fid == SBI_REMOTE_FENCE_I_FID ==> r == Ok::<SbiCommand, VmmError>(
            SbiCommand::RemoteFenceI { hart_mask: ctx.x@[10], hart_mask_base: ctx.x@[11] },
        ),
        fid == SBI_REMOTE_SFENCE_VMA_FID ==> r == Ok::<SbiCommand, VmmError>(
            SbiCommand::RemoteSfenceVma {
                hart_mask: ctx.x@[10],
                hart_mask_base: ctx.x@[11],
                start_addr: ctx.x@[12],
                size: ctx.x@[13],
            },
        ),
        fid != SBI_REMOTE_FENCE_I_FID && fid != SBI_REMOTE_SFENCE_VMA_FID ==> r == Err::<
            SbiCommand,
            VmmError,
        >(VmmError::Unimplemented),
{
    if fid == SBI_REMOTE_FENCE_I_FID {
        Ok(SbiCommand::RemoteFenceI { hart_mask: ctx.x[10], hart_mask_base: ctx.x[11] })
    } else if fid == SBI_REMOTE_SFENCE_VMA_FID {
        Ok(
            SbiCommand::RemoteSfenceVma {
                hart_mask: ctx.x[10],
                hart_mask_base: ctx.x[11],
                start_addr: ctx.x[12],
                size: ctx.x[13],
            },
        )
    } else {
        Err(VmmError::Unimplemented)
    }
}

/// The performance-monitoring handler: counter count, description and
/// stop are forwarded; the remaining functions are not implemented.
pub fn sbi_pmu_handler(fid: u64, ctx: &TrapContext) -> (r: Result<SbiCommand, VmmError>)
    requires
        ctx.wf(),
    ensures
        fid == SBI_PMU_NUM_COUNTERS_FID ==> r == Ok::<SbiCommand, VmmError>(
            SbiCommand::PmuNumCounters,
        ),
        fid == SBI_PMU_COUNTER_GET_INFO_FID ==> r == Ok::<SbiCommand, VmmError>(
            SbiCommand::PmuCounterGetInfo { counter_idx: ctx.x@[10] },
        ),
        fid == SBI_PMU_COUNTER_STOP_FID ==> r == Ok::<SbiCommand, VmmError>(
            SbiCommand::PmuCounterStop {
                counter_idx_base: ctx.x@[10],
                counter_idx_mask: ctx.x@[11],
                stop_flags: ctx.x@[12],
            },
        ),
        fid != SBI_PMU_NUM_COUNTERS_FID && fid != SBI_PMU_COUNTER_GET_INFO_FID && fid
            != SBI_PMU_COUNTER_STOP_FID ==> r == Err::<SbiCommand, VmmError>(
            VmmError::Unimplemented,
        ),
{
    if fid == SBI_PMU_NUM_COUNTERS_FID {
        Ok(SbiCommand::PmuNumCounters)
    } else if fid == SBI_PMU_COUNTER_GET_INFO_FID {
        Ok(SbiCommand::PmuCounterGetInfo { counter_idx: ctx.x[10] })
    } else if fid == SBI_PMU_COUNTER_STOP_FID {
        Ok(
            SbiCommand::PmuCounterStop {
                counter_idx_base: ctx.x[10],
                counter_idx_mask: ctx.x[11],
                stop_flags: ctx.x[12],
            },
        )
    } else {
        Err(VmmError::Unimplemented)
    }
}

/// What the command of a guest SBI call is, as a function of the guest's
/// registers: a7 selects the extension, a6 the function, a0..a3 carry
/// the arguments.
pub open spec fn spec_sbi_command(x: Seq<u64>) -> Result<SbiCommand, VmmError> {
    let ext = x[17];
    let fid = x[16];
    if ext == SBI_EXTID_BASE {
        if fid == SBI_PROBE_EXTENSION_FID {
            Ok(SbiCommand::Base { fid, arg0: x[10] })
        } else if fid <= 6 {
            Ok(SbiCommand::Base { fid, arg0: 0 })
        } else {
            Err(VmmError::NotSupported)
        }
    } else if ext == SBI_EXTID_TIME {
        if fid == SBI_SET_TIMER_FID {
            Ok(SbiCommand::SetTimer { time: x[10] })
        } else {
            Ok(SbiCommand::Respond { error: SBI_ERR_NOT_SUPPORTED, value: 0 })
        }
    } else if ext == SBI_CONSOLE_PUTCHAR {
        Ok(SbiCommand::PutChar { ch: x[10] })
    } else if ext == SBI_CONSOLE_GETCHAR {
        Ok(SbiCommand::GetChar)
    } else if ext == SBI_SET_TIMER {
        Ok(SbiCommand::SetTimer { time: x[10] })
    } else if ext == SBI_EXTID_RFNC {
        if fid == SBI_REMOTE_FENCE_I_FID {
            Ok(SbiCommand::RemoteFenceI { hart_mask: x[10], hart_mask_base: x[11] })
        } else if fid == SBI_REMOTE_SFENCE_VMA_FID {
            Ok(
                SbiCommand::RemoteSfenceVma {
                    hart_mask: x[10],
                    hart_mask_base: x[11],
                    start_addr: x[12],
                    size: x[13],
                },
            )
        } else {
            Err(VmmError::Unimplemented)
        }
    } else if ext == SBI_EXTID_PMU {
        if fid == SBI_PMU_NUM_COUNTERS_FID {
            Ok(SbiCommand::PmuNumCounters)
        } else if fid == SBI_PMU_COUNTER_GET_INFO_FID {
            Ok(SbiCommand::PmuCounterGetInfo { counter_idx: x[10] })
        } else if fid == SBI_PMU_COUNTER_STOP_FID {
            Ok(
                SbiCommand::PmuCounterStop {
                    counter_idx_base: x[10],
                    counter_idx_mask: x[11],
                    stop_flags: x[12],
                },
            )
        } else {
            Err(VmmError::Unimplemented)
        }
    } else {
        Err(VmmError::NotSupported)
    }
}

/// Demultiplex a guest SBI call into the command it asks for; an
/// extension outside the supported surface is an error the dispatcher
/// escalates. The platform can never be reset from a guest: no command
/// reaches the firmware's reset extension.
pub fn sbi_vs_handler(ctx: &TrapContext) -> (r: Result<SbiCommand, VmmError>)
    requires
        ctx.wf(),
    ensures
        r == spec_sbi_command(ctx.x@),
{
    let ext_id = ctx.x[17];
    let fid = ctx.x[16];
    if ext_id == SBI_EXTID_BASE {
        sbi_base_handler(fid, ctx)
    } else if ext_id == SBI_EXTID_TIME {
        Ok(sbi_time_handler(ctx.x[10], fid))
    } else if ext_id == SBI_CONSOLE_PUTCHAR {
        Ok(sbi_console_putchar_handler(ctx.x[10]))
    } else if ext_id == SBI_CONSOLE_GETCHAR {
        Ok(sbi_console_getchar_handler())
    } else if ext_id == SBI_SET_TIMER {
        Ok(sbi_legacy_set_time(ctx.x[10]))
    } else if ext_id == SBI_EXTID_RFNC {
        sbi_rfnc_handler(fid, ctx)
    } else if ext_id == SBI_EXTID_PMU {
        sbi_pmu_handler(fid, ctx)
    } else {
        Err(VmmError::NotSupported)
    }
}

/// Write a firmware result back into the guest: the error code into a0
/// and the value into a1.
pub fn apply_sbi_ret(ctx: &mut TrapContext, ret: SbiRet)
    requires
        old(ctx).wf(),
    ensures
        final(ctx).wf(),
        final(ctx).x@ == old(ctx).x@.update(10, ret.error).update(11, ret.value),
        final(ctx).sepc == old(ctx).sepc,
        final(ctx).sstatus == old(ctx).sstatus,
        final(ctx).hgatp == old(ctx).hgatp,
        final(ctx).kernel_sp == old(ctx).kernel_sp,
        final(ctx).trap_handler == old(ctx).trap_handler,
{
    ctx.x[10] = ret.error;
    ctx.x[11] = ret.value;
}

} // verus!
