use reki::error::AnalyzeError;
use reki::kernel_code::{FPDenormMode, FPRoundMode, KernelCode, VGPRWorkItemId};
use reki::state::{initial_state, initial_sgprs, initial_vgprs, Binding, Reg};

fn put_u32(buf: &mut Vec<u8>, pos: usize, v: u32) {
    buf[pos..pos + 4].copy_from_slice(&v.to_le_bytes());
}

fn put_u64(buf: &mut Vec<u8>, pos: usize, v: u64) {
    buf[pos..pos + 8].copy_from_slice(&v.to_le_bytes());
}

fn put_u16(buf: &mut Vec<u8>, pos: usize, v: u16) {
    buf[pos..pos + 2].copy_from_slice(&v.to_le_bytes());
}

#[test]
fn header_must_be_256_bytes() {
    let buf = vec![0u8; 255];
    assert_eq!(KernelCode::decode(&buf), Err(AnalyzeError::MalformedHeader));
    let buf = vec![0u8; 257];
    assert_eq!(KernelCode::decode(&buf), Err(AnalyzeError::MalformedHeader));
}

#[test]
fn header_fields_little_endian() {
    let mut buf = vec![0u8; 256];
    put_u32(&mut buf, 0, 0x01020304);
    put_u32(&mut buf, 4, 2);
    put_u16(&mut buf, 8, 1);
    put_u16(&mut buf, 10, 8);
    put_u16(&mut buf, 12, 0);
    put_u16(&mut buf, 14, 3);
    put_u64(&mut buf, 16, (-64i64) as u64);
    put_u64(&mut buf, 72, 0x1122334455667788);
    put_u16(&mut buf, 84, 12);
    put_u16(&mut buf, 86, 7);
    buf[103] = 64;
    put_u64(&mut buf, 120, 0xdeadbeefcafef00d);

    let h = KernelCode::decode(&buf).unwrap();
    assert_eq!(h.kernel_code_version_major, 0x01020304);
    assert_eq!(h.kernel_code_version_minor, 2);
    assert_eq!(h.machine_kind, 1);
    assert_eq!(h.machine_version_major, 8);
    assert_eq!(h.machine_version_stepping, 3);
    assert_eq!(h.kernel_code_entry_byte_offset, -64);
    assert_eq!(h.kernarg_segment_byte_size, 0x1122334455667788);
    assert_eq!(h.wavefront_sgpr_count, 12);
    assert_eq!(h.workitem_vgpr_count, 7);
    assert_eq!(h.wavefront_size, 64);
    assert_eq!(h.runtime_loader_kernel_symbol, 0xdeadbeefcafef00d);
}

#[test]
fn header_bit_fields_match_positions() {
    let mut buf = vec![0u8; 256];
    // PGM_RSRC1 (low dword of the packed word at byte 48):
    //   vgpr count granules = 5, sgpr granules = 3, priority = 2,
    //   round 32 = 1 (plus inf), denorm 32 = 2 (flush src), priv, ieee.
    let rsrc1: u64 = 5 | (3 << 6) | (2 << 10) | (1 << 12) | (2 << 16) | (1 << 20) | (1 << 23);
    // PGM_RSRC2 (high dword): wavefront offset, user sgprs = 9,
    //   workgroup id x/z, workitem id = XY, lds = 0x1ff.
    let rsrc2: u64 = 1 | (9 << 1) | (1 << 7) | (1 << 9) | (1 << 11) | (0x1ff << 15);
    put_u64(&mut buf, 48, rsrc1 | (rsrc2 << 32));
    // code_properties: kernarg ptr (bit 3), queue ptr (bit 2),
    //   private element size = 2, ptr64.
    put_u32(&mut buf, 56, (1 << 3) | (1 << 2) | (2 << 17) | (1 << 19));

    let h = KernelCode::decode(&buf).unwrap();
    assert_eq!(h.pgm_props.granulated_workitem_vgpr_count, 5);
    assert_eq!(h.pgm_props.granulated_wavefront_sgpr_count, 3);
    assert_eq!(h.pgm_props.priority, 2);
    assert_eq!(h.pgm_props.float_round_mode_32, FPRoundMode::PlusInfinity);
    assert_eq!(h.pgm_props.float_round_mode_16_64, FPRoundMode::NearEven);
    assert_eq!(h.pgm_props.float_denorm_mode_32, FPDenormMode::FlushSrc);
    assert_eq!(h.pgm_props.float_denorm_mode_16_64, FPDenormMode::FlushSrcDst);
    assert!(h.pgm_props.is_priv);
    assert!(!h.pgm_props.enable_dx10_clamp);
    assert!(h.pgm_props.enable_ieee_mode);
    assert!(h.pgm_props.enable_sgpr_private_segment_wavefront_offset);
    assert_eq!(h.pgm_props.user_sgpr_count, 9);
    assert!(h.pgm_props.enable_sgpr_workgroup_id_x);
    assert!(!h.pgm_props.enable_sgpr_workgroup_id_y);
    assert!(h.pgm_props.enable_sgpr_workgroup_id_z);
    assert_eq!(h.pgm_props.enable_vgpr_workitem_id, VGPRWorkItemId::XY);
    assert_eq!(h.pgm_props.granulated_lds_size, 0xff); // low 8 of the 9 bits
    assert!(!h.code_props.enable_sgpr_private_segment_buffer);
    assert!(h.code_props.enable_sgpr_queue_ptr);
    assert!(h.code_props.enable_sgpr_kernarg_segment_ptr);
    assert_eq!(h.code_props.private_element_size, 2);
    assert!(h.code_props.is_ptr64);
}

#[test]
fn initial_sgprs_scenario() {
    // Workgroup id X enabled (PGM_RSRC2 bit 7) and the kernarg segment
    // pointer (code properties bit 3): the SGPR file must be the two
    // kernarg pointer dwords followed by the workgroup id.
    let mut buf = vec![0u8; 256];
    let rsrc2: u64 = 1 << 7;
    put_u64(&mut buf, 48, rsrc2 << 32);
    put_u32(&mut buf, 56, 1 << 3);
    let h = KernelCode::decode(&buf).unwrap();

    let st = initial_state(&h);
    assert_eq!(st.bindings[0], Binding::PtrKernarg);
    assert_eq!(st.bindings[1], Binding::WorkgroupIdX);
    assert_eq!(st.sgprs, vec![Reg(0, 0), Reg(0, 1), Reg(1, 0)]);
    // Work-item id defaults to the X dimension only.
    assert_eq!(st.bindings[2], Binding::WorkitemIdX);
    assert_eq!(st.vgprs, vec![Reg(2, 0)]);
    assert!(st.variables.is_empty());
    assert!(st.scc.is_none());
    assert!(st.vcc.is_none());

    let names = initial_sgprs(&h);
    assert_eq!(names, vec!["KERNARG_LO", "KERNARG_HI", "WORKGROUP_ID_X"]);
    let vnames = initial_vgprs(&h);
    assert_eq!(vnames, vec!["WORKITEM_ID_X"]);
}

#[test]
fn initial_sgprs_spill_cap() {
    // With the private segment buffer, all pointer pairs and the grid
    // counts enabled, the file reaches 16 slots before the Y and Z
    // counts, which therefore stay out.
    let mut buf = vec![0u8; 256];
    put_u32(&mut buf, 56, 0b11_1111_1111);
    let h = KernelCode::decode(&buf).unwrap();
    let names = initial_sgprs(&h);
    assert_eq!(names.len(), 16);
    assert_eq!(names[14], "WORKGROUP_COUNT_X");
    assert_eq!(names[15], "WORKGROUP_COUNT_Y");
    assert!(!names.contains(&"WORKGROUP_COUNT_Z"));
}
