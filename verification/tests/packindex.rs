use llauncher::api_types::PackFile;
use llauncher::packindex::{
    cd_offset_in_last_pack, engine_file, engine_is_current, find_zip64_eocd, pack_layout,
    parse_central_directory, read_u32, read_zip64_eocd, CdEntry,
};

fn cd_record(name: &str, crc: u32) -> Vec<u8> {
    let mut r = vec![0u8; 46];
    r[0..4].copy_from_slice(&0x0201_4b50u32.to_le_bytes());
    r[16..20].copy_from_slice(&crc.to_le_bytes());
    r[28..30].copy_from_slice(&(name.len() as u16).to_le_bytes());
    r.extend_from_slice(name.as_bytes());
    r
}

#[test]
fn little_endian_fields_are_read_in_bounds_only() {
    assert_eq!(read_u32(&[1, 0, 0, 0, 9], 0), Some(1));
    assert_eq!(read_u32(&[1, 0, 0], 0), None);
}

#[test]
fn the_last_zip64_record_is_used() {
    let mut tail = vec![0u8; 8];
    tail.extend_from_slice(&[0x50, 0x4b, 0x06, 0x06]);
    tail.extend(vec![0u8; 28]);
    tail.extend_from_slice(&5u64.to_le_bytes());
    tail.extend(vec![0u8; 8]);
    tail.extend_from_slice(&1234u64.to_le_bytes());
    assert_eq!(find_zip64_eocd(&tail), Some(8));
    assert_eq!(read_zip64_eocd(&tail).unwrap(), (5, 1234));
    assert!(read_zip64_eocd(&[0u8; 10]).is_err());
}

#[test]
fn the_central_directory_must_lie_in_the_last_pack() {
    assert_eq!(cd_offset_in_last_pack(950, 1000, 100).unwrap(), 50);
    assert!(cd_offset_in_last_pack(850, 1000, 100).is_err());
}

#[test]
fn the_central_directory_is_read_in_full() {
    let mut cd = cd_record("Endfield.exe", 7);
    cd.extend(cd_record("Endfield_Data/StreamingAssets/VFS/a.chk", 8));
    let es = parse_central_directory(&cd, 2).unwrap();
    assert_eq!(es.len(), 2);
    assert_eq!(es[0].name, "Endfield.exe");
    assert_eq!(es[0].crc32, 7);
    assert!(parse_central_directory(&cd, 3).is_err());
}

#[test]
fn only_engine_files_decide_whether_the_install_is_current() {
    assert!(engine_file("Endfield.exe"));
    assert!(!engine_file("Endfield_Data/StreamingAssets/VFS/a.chk"));
    assert!(!engine_file("Endfield_Data/"));
    let es = vec![
        CdEntry { name: "Endfield.exe".to_string(), crc32: 7 },
        CdEntry { name: "Endfield_Data/StreamingAssets/VFS/a.chk".to_string(), crc32: 8 },
    ];
    assert!(engine_is_current(&es, &[Some(7), None]));
    assert!(!engine_is_current(&es, &[Some(6), Some(8)]));
    assert!(!engine_is_current(&es, &[None, Some(8)]));
}

#[test]
fn the_pack_layout_needs_sizes() {
    let p = |s: &str| PackFile { url: String::new(), md5: String::new(), package_size: s.to_string() };
    assert_eq!(pack_layout(&[p("100"), p("40")]).unwrap(), (40, 140));
    assert!(pack_layout(&[]).is_err());
    assert!(pack_layout(&[p("100"), p("x")]).is_err());
}
