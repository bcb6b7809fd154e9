use sworker::paths::{
    delete_kind, get_real_path, m_file_path, m_hashs_path, DeleteKind, FileType,
};
use sworker::text::{push_decimal, to_hex_string};

#[test]
fn hex_of_bytes_is_lower_case_two_digits_each() {
    assert_eq!(to_hex_string(vec![0x00, 0xff, 0x1a, 0x9c]), "00ff1a9c");
}

#[test]
fn hex_of_nothing_is_empty() {
    assert_eq!(to_hex_string(Vec::new()), "");
}

#[test]
fn hex_of_sixteen_bytes_has_thirty_two_digits() {
    let s = to_hex_string((0u8..16).collect());
    assert_eq!(s, "000102030405060708090a0b0c0d0e0f");
    assert_eq!(s.len(), 32);
}

#[test]
fn decimal_rendering() {
    let mut s = String::from("x");
    push_decimal(&mut s, 0);
    assert_eq!(s, "x0");
    let mut s = String::new();
    push_decimal(&mut s, 1023);
    assert_eq!(s, "1023");
    let mut s = String::new();
    push_decimal(&mut s, usize::MAX);
    assert_eq!(s, usize::MAX.to_string());
}

#[test]
fn srd_paths_sit_under_the_srd_root() {
    assert_eq!(get_real_path("abc/1_ff", FileType::SrdType), "/opt/crust/data/srd/abc/1_ff");
    assert_eq!(get_real_path("", FileType::SrdType), "/opt/crust/data/srd/");
}

#[test]
fn other_paths_are_taken_as_given() {
    assert_eq!(get_real_path("/tmp/sealed", FileType::SealType), "/tmp/sealed");
}

#[test]
fn m_file_names_carry_index_and_digest() {
    assert_eq!(m_file_path("d0d1", 7, &vec![0xab, 0x01]), "d0d1/7_ab01");
    assert_eq!(m_file_path("dir", 1023, &vec![]), "dir/1023_");
}

#[test]
fn digest_list_name() {
    assert_eq!(m_hashs_path("0a0b"), "0a0b/m-hashs");
}

#[test]
fn deletion_follows_the_metadata() {
    assert_eq!(delete_kind(true, false), DeleteKind::RemoveDirAll);
    assert_eq!(delete_kind(true, true), DeleteKind::RemoveDirAll);
    assert_eq!(delete_kind(false, true), DeleteKind::RemoveFile);
    assert_eq!(delete_kind(false, false), DeleteKind::Unknown);
}

#[test]
fn distinct_files_get_distinct_names() {
    let a = m_file_path("d", 1, &vec![0x1a]);
    let b = m_file_path("d", 11, &vec![0xa0]);
    let c = m_file_path("d", 1, &vec![0x1b]);
    assert_eq!(a, "d/1_1a");
    assert_eq!(b, "d/11_a0");
    assert_ne!(a, b);
    assert_ne!(a, c);
}

#[test]
fn distinct_bytes_give_distinct_hex() {
    assert_ne!(to_hex_string(vec![0x01, 0x10]), to_hex_string(vec![0x11, 0x00]));
    assert_ne!(to_hex_string(vec![0x0a]), to_hex_string(vec![0xa0]));
}

#[test]
fn hex_keeps_the_order_of_equal_length_bytes() {
    let pairs: Vec<(Vec<u8>, Vec<u8>)> = vec![
        (vec![0x0f, 0xff], vec![0x10, 0x00]),
        (vec![0x09], vec![0x0a]),
        (vec![0x9f], vec![0xa0]),
        (vec![0x12, 0x34], vec![0x12, 0x35]),
        (vec![0x12, 0x34], vec![0x12, 0x34]),
    ];
    for (a, b) in pairs {
        assert_eq!(a < b, to_hex_string(a.clone()) < to_hex_string(b.clone()));
        assert_eq!(b < a, to_hex_string(b) < to_hex_string(a));
    }
}
