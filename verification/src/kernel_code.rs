use vstd::prelude::*;

use crate::bytes::{le_u16_spec, le_u32_spec, le_u64_spec, le_i32_spec, le_i64_spec, read_le_u16, read_le_u32, read_le_u64, read_le_i32, read_le_i64};
use crate::error::AnalyzeError;

verus! {

/// How many work-item id VGPRs the wave is launched with.
#[derive(Debug, Clone, Copy, PartialEq, Eq, Structural)]
pub enum VGPRWorkItemId {
    X,
    XY,
    XYZ,
}

#[derive(Debug, Clone, Copy, PartialEq, Eq, Structural)]
pub enum FPRoundMode {
    NearEven,
    PlusInfinity,
    MinusInfinity,
    Zero,
}

#[derive(Debug, Clone, Copy, PartialEq, Eq, Structural)]
pub enum FPDenormMode {
    FlushSrcDst,
    FlushDst,
    FlushSrc,
    FlushNone,
}

/// Flags unpacked from the PGM_RSRC1 (low dword) and PGM_RSRC2 (high
/// dword) halves of `compute_pgm_resource_registers`.
#[derive(Debug, Clone, Copy, PartialEq, Eq, Structural)]
pub struct PgmProperties {
    pub granulated_workitem_vgpr_count: u8,
    pub granulated_wavefront_sgpr_count: u8,
    pub priority: u8,
    pub float_round_mode_32: FPRoundMode,
    pub float_round_mode_16_64: FPRoundMode,
    pub float_denorm_mode_32: FPDenormMode,
    pub float_denorm_mode_16_64: FPDenormMode,
    pub is_priv: bool,
    pub enable_dx10_clamp: bool,
    pub debug_mode: bool,
    pub enable_ieee_mode: bool,
    pub bulky: bool,
    pub cdbg_user: bool,
    pub fp16_ovfl: bool,
    pub enable_sgpr_private_segment_wavefront_offset: bool,
    pub user_sgpr_count: u8,
    pub enable_trap_handler: bool,
    pub enable_sgpr_workgroup_id_x: bool,
    pub enable_sgpr_workgroup_id_y: bool,
    pub enable_sgpr_workgroup_id_z: bool,
    pub enable_sgpr_workgroup_info: bool,
    pub enable_vgpr_workitem_id: VGPRWorkItemId,
    pub enable_exception_address_watch: bool,
    pub enable_exception_memory: bool,
    pub granulated_lds_size: u8,
    pub enable_exception_ieee_754_fp_invalid_operation: bool,
    pub enable_exception_fp_denormal_source: bool,
    pub enable_exception_ieee_754_fp_division_by_zero: bool,
    pub enable_exception_ieee_754_fp_overflow: bool,
    pub enable_exception_ieee_754_fp_underflow: bool,
    pub enable_exception_ieee_754_fp_inexact: bool,
    pub enable_exception_int_divide_by_zero: bool,
}

/// Flags unpacked from the `code_properties` dword.
#[derive(Debug, Clone, Copy, PartialEq, Eq, Structural)]
pub struct CodeProperties {
    pub enable_sgpr_private_segment_buffer: bool,
    pub enable_sgpr_dispatch_ptr: bool,
    pub enable_sgpr_queue_ptr: bool,
    pub enable_sgpr_kernarg_segment_ptr: bool,
    pub enable_sgpr_dispatch_id: bool,
    pub enable_sgpr_flat_scratch_init: bool,
    pub enable_sgpr_private_segment_size: bool,
    pub enable_sgpr_grid_workgroup_count_x: bool,
    pub enable_sgpr_grid_workgroup_count_y: bool,
    pub enable_sgpr_grid_workgroup_count_z: bool,
    pub enable_ordered_append_gds: bool,
    pub private_element_size: u8,
    pub is_ptr64: bool,
    pub is_dynamic_callstack: bool,
    pub is_debug_supported: bool,
    pub is_xnack_supported: bool,
}

/// The decoded 256-byte AMD kernel-code descriptor.
#[derive(Debug, Clone, PartialEq)]
pub struct KernelCode {
    pub kernel_code_version_major: u32,
    pub kernel_code_version_minor: u32,
    pub machine_kind: u16,
    pub machine_version_major: u16,
    pub machine_version_minor: u16,
    pub machine_version_stepping: u16,
    pub kernel_code_entry_byte_offset: i64,
    pub kernel_code_prefetch_byte_offset: i64,
    pub kernel_code_prefetch_byte_size: u64,
    pub workitem_private_segment_byte_size: u32,
    pub workgroup_group_segment_byte_size: u32,
    pub gds_segment_byte_size: u32,
    pub kernarg_segment_byte_size: u64,
    pub workgroup_fbarrier_count: u32,
    pub wavefront_sgpr_count: u16,
    pub workitem_vgpr_count: u16,
    pub reserved_vgpr_first: u16,
    pub reserved_vgpr_count: u16,
    pub reserved_sgpr_first: u16,
    pub reserved_sgpr_count: u16,
    pub debug_wavefront_private_segment_offset_sgpr: u16,
    pub debug_private_segment_buffer_sgpr: u16,
    pub kernarg_segment_alignment: u8,
    pub group_segment_alignment: u8,
    pub private_segment_alignment: u8,
    pub wavefront_size: u8,
    pub call_convention: i32,
    pub runtime_loader_kernel_symbol: u64,
    pub pgm_props: PgmProperties,
    pub code_props: CodeProperties,
}

pub open spec fn round_mode_spec(v: u8) -> FPRoundMode {
    if v == 0 {
        FPRoundMode::NearEven
    } else if v == 1 {
        FPRoundMode::PlusInfinity
    } else if v == 2 {
        FPRoundMode::MinusInfinity
    } else {
        FPRoundMode::Zero
    }
}

pub open spec fn denorm_mode_spec(v: u8) -> FPDenormMode {
    if v == 0 {
        FPDenormMode::FlushSrcDst
    } else if v == 1 {
        FPDenormMode::FlushDst
    } else if v == 2 {
        FPDenormMode::FlushSrc
    } else {
        FPDenormMode::FlushNone
    }
}

pub open spec fn workitem_id_spec(v: u8) -> VGPRWorkItemId {
    if v == 0 {
        VGPRWorkItemId::X
    } else if v == 1 {
        VGPRWorkItemId::XY
    } else {
        VGPRWorkItemId::XYZ
    }
}

pub fn round_mode_from_bits(v: u8) -> (r: FPRoundMode)
    ensures
        r == round_mode_spec(v),
{
    if v == 0 {
        FPRoundMode::NearEven
    } else if v == 1 {
        FPRoundMode::PlusInfinity
    } else if v == 2 {
        FPRoundMode::MinusInfinity
    } else {
        FPRoundMode::Zero
    }
}

pub fn denorm_mode_from_bits(v: u8) -> (r: FPDenormMode)
    ensures
        r == denorm_mode_spec(v),
{
    if v == 0 {
        FPDenormMode::FlushSrcDst
    } else if v == 1 {
        FPDenormMode::FlushDst
    } else if v == 2 {
        FPDenormMode::FlushSrc
    } else {
        FPDenormMode::FlushNone
    }
}

pub fn workitem_id_from_bits(v: u8) -> (r: VGPRWorkItemId)
    ensures
        r == workitem_id_spec(v),
{
    if v == 0 {
        VGPRWorkItemId::X
    } else if v == 1 {
        VGPRWorkItemId::XY
    } else {
        VGPRWorkItemId::XYZ
    }
}

/// PgmProperties as a function of the 64-bit
/// `compute_pgm_resource_registers` word: PGM_RSRC1 occupies bits 0-31,
/// PGM_RSRC2 bits 32-63.
pub open spec fn pgm_props_spec(w: u64) -> PgmProperties {
    PgmProperties {
        granulated_workitem_vgpr_count: (w & 0x3f) as u8,
        granulated_wavefront_sgpr_count: ((w >> 6) & 0xf) as u8,
        priority: ((w >> 10) & 0x3) as u8,
        float_round_mode_32: round_mode_spec(((w >> 12) & 0x3) as u8),
        float_round_mode_16_64: round_mode_spec(((w >> 14) & 0x3) as u8),
        float_denorm_mode_32: denorm_mode_spec(((w >> 16) & 0x3) as u8),
        float_denorm_mode_16_64: denorm_mode_spec(((w >> 18) & 0x3) as u8),
        is_priv: (w >> 20) & 1 != 0,
        enable_dx10_clamp: (w >> 21) & 1 != 0,
        debug_mode: (w >> 22) & 1 != 0,
        enable_ieee_mode: (w >> 23) & 1 != 0,
        bulky: (w >> 24) & 1 != 0,
        cdbg_user: (w >> 25) & 1 != 0,
        fp16_ovfl: (w >> 26) & 1 != 0,
        enable_sgpr_private_segment_wavefront_offset: (w >> 32) & 1 != 0,
        user_sgpr_count: ((w >> 33) & 0x1f) as u8,
        enable_trap_handler: (w >> 38) & 1 != 0,
        enable_sgpr_workgroup_id_x: (w >> 39) & 1 != 0,
        enable_sgpr_workgroup_id_y: (w >> 40) & 1 != 0,
        enable_sgpr_workgroup_id_z: (w >> 41) & 1 != 0,
        enable_sgpr_workgroup_info: (w >> 42) & 1 != 0,
        enable_vgpr_workitem_id: workitem_id_spec(((w >> 43) & 0x3) as u8),
        enable_exception_address_watch: (w >> 45) & 1 != 0,
        enable_exception_memory: (w >> 46) & 1 != 0,
        granulated_lds_size: ((w >> 47) & 0x1ff) as u8,
        enable_exception_ieee_754_fp_invalid_operation: (w >> 56) & 1 != 0,
        enable_exception_fp_denormal_source: (w >> 57) & 1 != 0,
        enable_exception_ieee_754_fp_division_by_zero: (w >> 58) & 1 != 0,
        enable_exception_ieee_754_fp_overflow: (w >> 59) & 1 != 0,
        enable_exception_ieee_754_fp_underflow: (w >> 60) & 1 != 0,
        enable_exception_ieee_754_fp_inexact: (w >> 61) & 1 != 0,
        enable_exception_int_divide_by_zero: (w >> 62) & 1 != 0,
    }
}

/// CodeProperties as a function of the `code_properties` dword.
pub open spec fn code_props_spec(w: u32) -> CodeProperties {
    CodeProperties {
        enable_sgpr_private_segment_buffer: w & 1 != 0,
        enable_sgpr_dispatch_ptr: (w >> 1) & 1 != 0,
        enable_sgpr_queue_ptr: (w >> 2) & 1 != 0,
        enable_sgpr_kernarg_segment_ptr: (w >> 3) & 1 != 0,
        enable_sgpr_dispatch_id: (w >> 4) & 1 != 0,
        enable_sgpr_flat_scratch_init: (w >> 5) & 1 != 0,
        enable_sgpr_private_segment_size: (w >> 6) & 1 != 0,
        enable_sgpr_grid_workgroup_count_x: (w >> 7) & 1 != 0,
        enable_sgpr_grid_workgroup_count_y: (w >> 8) & 1 != 0,
        enable_sgpr_grid_workgroup_count_z: (w >> 9) & 1 != 0,
        enable_ordered_append_gds: (w >> 16) & 1 != 0,
        private_element_size: ((w >> 17) & 0x3) as u8,
        is_ptr64: (w >> 19) & 1 != 0,
        is_dynamic_callstack: (w >> 20) & 1 != 0,
        is_debug_supported: (w >> 21) & 1 != 0,
        is_xnack_supported: (w >> 22) & 1 != 0,
    }
}

/// The header a 256-byte descriptor buffer decodes to.  All multi-byte
/// fields are little-endian; bytes 40-47 and 108-119 are reserved.
pub open spec fn kernel_code_spec(b: Seq<u8>) -> KernelCode {
    KernelCode {
        kernel_code_version_major: le_u32_spec(b, 0) as u32,
        kernel_code_version_minor: le_u32_spec(b, 4) as u32,
        machine_kind: le_u16_spec(b, 8) as u16,
        machine_version_major: le_u16_spec(b, 10) as u16,
        machine_version_minor: le_u16_spec(b, 12) as u16,
        machine_version_stepping: le_u16_spec(b, 14) as u16,
        kernel_code_entry_byte_offset: le_i64_spec(b, 16) as i64,
        kernel_code_prefetch_byte_offset: le_i64_spec(b, 24) as i64,
        kernel_code_prefetch_byte_size: le_u64_spec(b, 32) as u64,
        workitem_private_segment_byte_size: le_u32_spec(b, 60) as u32,
        workgroup_group_segment_byte_size: le_u32_spec(b, 64) as u32,
        gds_segment_byte_size: le_u32_spec(b, 68) as u32,
        kernarg_segment_byte_size: le_u64_spec(b, 72) as u64,
        workgroup_fbarrier_count: le_u32_spec(b, 80) as u32,
        wavefront_sgpr_count: le_u16_spec(b, 84) as u16,
        workitem_vgpr_count: le_u16_spec(b, 86) as u16,
        reserved_vgpr_first: le_u16_spec(b, 88) as u16,
        reserved_vgpr_count: le_u16_spec(b, 90) as u16,
        reserved_sgpr_first: le_u16_spec(b, 92) as u16,
        reserved_sgpr_count: le_u16_spec(b, 94) as u16,
        debug_wavefront_private_segment_offset_sgpr: le_u16_spec(b, 96) as u16,
        debug_private_segment_buffer_sgpr: le_u16_spec(b, 98) as u16,
        kernarg_segment_alignment: b[100],
        group_segment_alignment: b[101],
        private_segment_alignment: b[102],
        wavefront_size: b[103],
        call_convention: le_i32_spec(b, 104) as i32,
        runtime_loader_kernel_symbol: le_u64_spec(b, 120) as u64,
        pgm_props: pgm_props_spec(le_u64_spec(b, 48) as u64),
        code_props: code_props_spec(le_u32_spec(b, 56) as u32),
    }
}

pub fn pgm_props_from_word(w: u64) -> (r: PgmProperties)
    ensures
        r == pgm_props_spec(w),
{
    PgmProperties {
        granulated_workitem_vgpr_count: (w & 0x3f) as u8,
        granulated_wavefront_sgpr_count: ((w >> 6) & 0xf) as u8,
        priority: ((w >> 10) & 0x3) as u8,
        float_round_mode_32: round_mode_from_bits(((w >> 12) & 0x3) as u8),
        float_round_mode_16_64: round_mode_from_bits(((w >> 14) & 0x3) as u8),
        float_denorm_mode_32: denorm_mode_from_bits(((w >> 16) & 0x3) as u8),
        float_denorm_mode_16_64: denorm_mode_from_bits(((w >> 18) & 0x3) as u8),
        is_priv: (w >> 20) & 1 != 0,
        enable_dx10_clamp: (w >> 21) & 1 != 0,
        debug_mode: (w >> 22) & 1 != 0,
        enable_ieee_mode: (w >> 23) & 1 != 0,
        bulky: (w >> 24) & 1 != 0,
        cdbg_user: (w >> 25) & 1 != 0,
        fp16_ovfl: (w >> 26) & 1 != 0,
        enable_sgpr_private_segment_wavefront_offset: (w >> 32) & 1 != 0,
        user_sgpr_count: ((w >> 33) & 0x1f) as u8,
        enable_trap_handler: (w >> 38) & 1 != 0,
        enable_sgpr_workgroup_id_x: (w >> 39) & 1 != 0,
        enable_sgpr_workgroup_id_y: (w >> 40) & 1 != 0,
        enable_sgpr_workgroup_id_z: (w >> 41) & 1 != 0,
        enable_sgpr_workgroup_info: (w >> 42) & 1 != 0,
        enable_vgpr_workitem_id: workitem_id_from_bits(((w >> 43) & 0x3) as u8),
        enable_exception_address_watch: (w >> 45) & 1 != 0,
        enable_exception_memory: (w >> 46) & 1 != 0,
        granulated_lds_size: ((w >> 47) & 0x1ff) as u8,
        enable_exception_ieee_754_fp_invalid_operation: (w >> 56) & 1 != 0,
        enable_exception_fp_denormal_source: (w >> 57) & 1 != 0,
        enable_exception_ieee_754_fp_division_by_zero: (w >> 58) & 1 != 0,
        enable_exception_ieee_754_fp_overflow: (w >> 59) & 1 != 0,
        enable_exception_ieee_754_fp_underflow: (w >> 60) & 1 != 0,
        enable_exception_ieee_754_fp_inexact: (w >> 61) & 1 != 0,
        enable_exception_int_divide_by_zero: (w >> 62) & 1 != 0,
    }
}

pub fn code_props_from_word(w: u32) -> (r: CodeProperties)
    ensures
        r == code_props_spec(w),
{
    CodeProperties {
        enable_sgpr_private_segment_buffer: w & 1 != 0,
        enable_sgpr_dispatch_ptr: (w >> 1) & 1 != 0,
        enable_sgpr_queue_ptr: (w >> 2) & 1 != 0,
        enable_sgpr_kernarg_segment_ptr: (w >> 3) & 1 != 0,
        enable_sgpr_dispatch_id: (w >> 4) & 1 != 0,
        enable_sgpr_flat_scratch_init: (w >> 5) & 1 != 0,
        enable_sgpr_private_segment_size: (w >> 6) & 1 != 0,
        enable_sgpr_grid_workgroup_count_x: (w >> 7) & 1 != 0,
        enable_sgpr_grid_workgroup_count_y: (w >> 8) & 1 != 0,
        enable_sgpr_grid_workgroup_count_z: (w >> 9) & 1 != 0,
        enable_ordered_append_gds: (w >> 16) & 1 != 0,
        private_element_size: ((w >> 17) & 0x3) as u8,
        is_ptr64: (w >> 19) & 1 != 0,
        is_dynamic_callstack: (w >> 20) & 1 != 0,
        is_debug_supported: (w >> 21) & 1 != 0,
        is_xnack_supported: (w >> 22) & 1 != 0,
    }
}

impl KernelCode {
    /// Decodes the 256-byte AMD kernel-code descriptor; any other buffer
    /// length is a malformed header.
    #[verifier::rlimit(60)]
    pub fn decode(buf: &Vec<u8>) -> (r: Result<KernelCode, AnalyzeError>)
        ensures
            buf@.len() == 256 ==> r == Ok::<KernelCode, AnalyzeError>(kernel_code_spec(buf@)),
            buf@.len() != 256 ==> r == Err::<KernelCode, AnalyzeError>(
                AnalyzeError::MalformedHeader,
            ),
    {
        if buf.len() != 256 {
            return Err(AnalyzeError::MalformedHeader);
        }
        let pgm: u64 = read_le_u64(buf, 48);
        let cp: u32 = read_le_u32(buf, 56);

        let pgm_props = pgm_props_from_word(pgm);
        let code_props = code_props_from_word(cp);


        proof {
            assert(pgm_props == pgm_props_spec(le_u64_spec(buf@, 48) as u64));
            assert(code_props == code_props_spec(le_u32_spec(buf@, 56) as u32));
        }

        let h = KernelCode {
            kernel_code_version_major: read_le_u32(buf, 0),
            kernel_code_version_minor: read_le_u32(buf, 4),
            machine_kind: read_le_u16(buf, 8),
            machine_version_major: read_le_u16(buf, 10),
            machine_version_minor: read_le_u16(buf, 12),
            machine_version_stepping: read_le_u16(buf, 14),
            kernel_code_entry_byte_offset: read_le_i64(buf, 16),
            kernel_code_prefetch_byte_offset: read_le_i64(buf, 24),
            kernel_code_prefetch_byte_size: read_le_u64(buf, 32),
            workitem_private_segment_byte_size: read_le_u32(buf, 60),
            workgroup_group_segment_byte_size: read_le_u32(buf, 64),
            gds_segment_byte_size: read_le_u32(buf, 68),
            kernarg_segment_byte_size: read_le_u64(buf, 72),
            workgroup_fbarrier_count: read_le_u32(buf, 80),
            wavefront_sgpr_count: read_le_u16(buf, 84),
            workitem_vgpr_count: read_le_u16(buf, 86),
            reserved_vgpr_first: read_le_u16(buf, 88),
            reserved_vgpr_count: read_le_u16(buf, 90),
            reserved_sgpr_first: read_le_u16(buf, 92),
            reserved_sgpr_count: read_le_u16(buf, 94),
            debug_wavefront_private_segment_offset_sgpr: read_le_u16(buf, 96),
            debug_private_segment_buffer_sgpr: read_le_u16(buf, 98),
            kernarg_segment_alignment: buf[100],
            group_segment_alignment: buf[101],
            private_segment_alignment: buf[102],
            wavefront_size: buf[103],
            call_convention: read_le_i32(buf, 104),
            runtime_loader_kernel_symbol: read_le_u64(buf, 120),
            pgm_props,
            code_props,
        };
        proof {
            assert(h.pgm_props == kernel_code_spec(buf@).pgm_props);
            assert(h.code_props == kernel_code_spec(buf@).code_props);
            assert(h == kernel_code_spec(buf@));
        }
        Ok(h)
    }
}

} // verus!
