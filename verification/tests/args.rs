use reki::error::AnalyzeError;
use reki::kernel_args::extract_kernel_args;

fn note(args_block: &str) -> Vec<u8> {
    let mut bytes = b"AMD\0ignored first line".to_vec();
    bytes.push(b'\n');
    bytes.extend_from_slice(b"  Kernels:\n");
    bytes.extend_from_slice(b"    Args:\n");
    bytes.extend_from_slice(args_block.as_bytes());
    bytes.extend_from_slice(b"    CodeProps:\n");
    bytes.extend_from_slice(b"      MaxFlatWorkGroupSize: 256\n");
    bytes
}

#[test]
fn two_args_offsets() {
    // The layout scenario: sizes 8 and 4 with matching alignments give
    // offsets 0 and 8, and the offset lookup picks the argument and
    // half-word.
    let bytes = note(
        "      - Name: a\n        Size: 8\n        Align: 8\n      - Name: b\n        Size: 4\n        Align: 4\n",
    );
    let args = extract_kernel_args(&bytes).unwrap();
    let list = args.iter();
    assert_eq!(list.len(), 2);
    assert_eq!(list[0].name, "a");
    assert_eq!(list[0].size, 8);
    assert_eq!(list[0].offset, 0);
    assert_eq!(list[1].name, "b");
    assert_eq!(list[1].size, 4);
    assert_eq!(list[1].offset, 8);

    assert_eq!(args.find_idx_and_dword(0), Some((0, 0)));
    assert_eq!(args.find_idx_and_dword(4), Some((0, 2)));
    assert_eq!(args.find_idx_and_dword(8), Some((1, 0)));
}

#[test]
fn alignment_pads_offsets() {
    // A 4-byte argument followed by an 8-aligned one: the second
    // argument's offset is padded up to the next multiple of 8.
    let bytes = note(
        "      - Name: n\n        Size: 4\n        Align: 4\n      - Name: p\n        Size: 8\n        Align: 8\n",
    );
    let args = extract_kernel_args(&bytes).unwrap();
    let list = args.iter();
    assert_eq!(list[0].offset, 0);
    assert_eq!(list[1].offset, 8);
}

#[test]
fn typename_and_constness() {
    let bytes = note(
        "      - Name: buf\n        Size: 8\n        Align: 8\n        TypeName: 'int*'\n        IsConst: true\n",
    );
    let args = extract_kernel_args(&bytes).unwrap();
    let list = args.iter();
    assert_eq!(list[0].typename.as_deref(), Some("int*"));
    assert!(list[0].is_const);
}

#[test]
fn value_kind_names_nameless_args() {
    let bytes = note(
        "      - ValueKind: HiddenGlobalOffsetX\n        Size: 8\n        Align: 8\n",
    );
    let args = extract_kernel_args(&bytes).unwrap();
    assert_eq!(args.iter()[0].name, "HiddenGlobalOffsetX");
    assert!(!args.iter()[0].is_const);
}

#[test]
fn missing_size_is_metadata_error() {
    let bytes = note("      - Name: a\n        Align: 8\n");
    assert_eq!(extract_kernel_args(&bytes), Err(AnalyzeError::MetadataParse));
}

#[test]
fn zero_alignment_is_metadata_error() {
    let bytes = note("      - Name: a\n        Size: 8\n        Align: 0\n");
    assert_eq!(extract_kernel_args(&bytes), Err(AnalyzeError::MetadataParse));
}

#[test]
fn unparsable_size_is_metadata_error() {
    let bytes = note("      - Name: a\n        Size: eight\n        Align: 8\n");
    assert_eq!(extract_kernel_args(&bytes), Err(AnalyzeError::MetadataParse));
}

#[test]
fn stray_line_before_first_arg_is_metadata_error() {
    let bytes = note("        Size: 8\n      - Name: a\n        Size: 8\n        Align: 8\n");
    assert_eq!(extract_kernel_args(&bytes), Err(AnalyzeError::MetadataParse));
}

#[test]
fn no_args_block_gives_empty_table() {
    let mut bytes = b"prefix".to_vec();
    bytes.push(b'\n');
    bytes.extend_from_slice(b"  Kernels:\n");
    let args = extract_kernel_args(&bytes).unwrap();
    assert_eq!(args.iter().len(), 0);
    assert_eq!(args.find_idx_and_dword(0), None);
}

#[test]
fn nul_bytes_are_stripped_from_the_note() {
    let mut bytes = b"hdr\n".to_vec();
    for b in b"    Args:\n      - Name: a\n        Size: 4\n        Align: 4\n    CodeProps:\n" {
        bytes.push(*b);
        bytes.push(0);
    }
    let args = extract_kernel_args(&bytes).unwrap();
    assert_eq!(args.iter()[0].name, "a");
}
