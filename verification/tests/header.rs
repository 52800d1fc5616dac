use ezjww::{is_jww_signature, parse_header, JwwError};

fn fixed_part(version: u32, memo: &[u8]) -> Vec<u8> {
    let mut data = Vec::<u8>::new();
    data.extend_from_slice(b"JwwData.");
    data.extend_from_slice(&version.to_le_bytes());
    data.push(memo.len() as u8);
    data.extend_from_slice(memo);
    data.extend_from_slice(&3u32.to_le_bytes()); // paper size
    data.extend_from_slice(&5u32.to_le_bytes()); // write layer group
    for g in 0..16u32 {
        data.extend_from_slice(&(g + 1).to_le_bytes()); // state
        data.extend_from_slice(&(g + 2).to_le_bytes()); // write layer
        data.extend_from_slice(&(g as f64 + 0.5).to_le_bytes()); // scale
        data.extend_from_slice(&(g % 2).to_le_bytes()); // protect
        for l in 0..16u32 {
            data.extend_from_slice(&(g * 16 + l).to_le_bytes()); // layer state
            data.extend_from_slice(&(l % 3).to_le_bytes()); // layer protect
        }
    }
    data
}

fn with_names(mut data: Vec<u8>, blank: &[usize]) -> Vec<u8> {
    data.extend(std::iter::repeat(0u8).take(84 + 72));
    for i in 0..272usize {
        if blank.contains(&i) {
            data.push(0);
        } else {
            let name = format!("N{}", i);
            data.push(name.len() as u8);
            data.extend_from_slice(name.as_bytes());
        }
    }
    data
}

#[test]
fn signature_check() {
    assert!(is_jww_signature(b"JwwData.\x00\x00"));
    assert!(!is_jww_signature(b"NotJwwData"));
}

#[test]
fn invalid_signature_is_rejected() {
    let err = parse_header(b"NotJwwData").unwrap_err();
    assert!(matches!(err, JwwError::InvalidSignature));
}

#[test]
fn signature_needs_eight_bytes() {
    assert!(is_jww_signature(b"JwwData."));
    assert!(!is_jww_signature(b"JwwData"));
    assert!(!is_jww_signature(b""));
    assert!(!is_jww_signature(b"jwwData."));
    assert!(matches!(parse_header(b"JwwData").unwrap_err(), JwwError::InvalidSignature));
}

#[test]
fn header_fields_and_table_are_read() {
    let data = fixed_part(600, b"memo");
    let header = parse_header(&data).unwrap();
    assert_eq!(header.version, 600);
    assert_eq!(header.memo, "memo");
    assert_eq!(header.paper_size, 3);
    assert_eq!(header.write_layer_group, 5);
    for g in 0..16usize {
        let group = &header.layer_groups[g];
        assert_eq!(group.state, g as u32 + 1);
        assert_eq!(group.write_layer, g as u32 + 2);
        assert_eq!(f64::from_bits(group.scale.to_bits()), g as f64 + 0.5);
        assert_eq!(group.protect, g as u32 % 2);
        for l in 0..16usize {
            assert_eq!(group.layers[l].state, (g * 16 + l) as u32);
            assert_eq!(group.layers[l].protect, l as u32 % 3);
        }
    }
}

#[test]
fn names_default_where_the_file_ends_early() {
    let data = fixed_part(600, b"");
    let header = parse_header(&data).unwrap();
    assert_eq!(header.layer_groups[0].name, "Group0");
    assert_eq!(header.layer_groups[10].name, "GroupA");
    assert_eq!(header.layer_groups[15].name, "GroupF");
    assert_eq!(header.layer_groups[0].layers[0].name, "0-0");
    assert_eq!(header.layer_groups[11].layers[12].name, "B-C");
    assert_eq!(header.layer_groups[15].layers[9].name, "F-9");
}

#[test]
fn names_are_taken_from_the_file() {
    let data = with_names(fixed_part(600, b""), &[]);
    let header = parse_header(&data).unwrap();
    assert_eq!(header.layer_groups[0].layers[0].name, "N0");
    assert_eq!(header.layer_groups[1].layers[2].name, "N18");
    assert_eq!(header.layer_groups[15].layers[15].name, "N255");
    assert_eq!(header.layer_groups[0].name, "N256");
    assert_eq!(header.layer_groups[15].name, "N271");
}

#[test]
fn blank_names_get_defaults() {
    let data = with_names(fixed_part(600, b""), &[0, 18, 256, 271]);
    let header = parse_header(&data).unwrap();
    assert_eq!(header.layer_groups[0].layers[0].name, "0-0");
    assert_eq!(header.layer_groups[1].layers[2].name, "1-2");
    assert_eq!(header.layer_groups[0].layers[1].name, "N1");
    assert_eq!(header.layer_groups[0].name, "Group0");
    assert_eq!(header.layer_groups[15].name, "GroupF");
    assert_eq!(header.layer_groups[14].name, "N270");
}

#[test]
fn old_versions_always_get_default_names() {
    let data = with_names(fixed_part(299, b""), &[]);
    let header = parse_header(&data).unwrap();
    assert_eq!(header.version, 299);
    assert_eq!(header.layer_groups[0].layers[0].name, "0-0");
    assert_eq!(header.layer_groups[3].name, "Group3");
    let data = with_names(fixed_part(300, b""), &[]);
    let header = parse_header(&data).unwrap();
    assert_eq!(header.layer_groups[0].layers[0].name, "N0");
}

#[test]
fn a_broken_name_block_falls_back_as_a_whole() {
    let mut data = with_names(fixed_part(600, b""), &[]);
    data.truncate(data.len() - 1);
    let header = parse_header(&data).unwrap();
    assert_eq!(header.layer_groups[0].layers[0].name, "0-0");
    assert_eq!(header.layer_groups[15].name, "GroupF");
}

#[test]
fn truncated_fixed_part_is_an_error() {
    let data = fixed_part(600, b"memo");
    for cut in [8usize, 11, 12, 14, 17, 24, 100, data.len() - 1] {
        let err = parse_header(&data[..cut]).unwrap_err();
        assert!(matches!(err, JwwError::UnexpectedEof("bytes")), "cut at {}", cut);
    }
}
