use bindgen::clang::CXCursor;
use bindgen::names::DeclMap;
use bindgen::types::Global;

fn cursor() -> CXCursor {
    CXCursor { kind: 2, xdata: 1, data: [0x10, 0x20, 0x30] }
}

#[test]
fn cursors_are_equal_if_all_five_numbers_agree() {
    assert!(cursor() == cursor());
    assert!(!(cursor() != cursor()));
}

#[test]
fn each_of_the_five_numbers_tells_cursors_apart() {
    let others = [
        CXCursor { kind: 3, ..cursor() },
        CXCursor { xdata: 2, ..cursor() },
        CXCursor { data: [0x11, 0x20, 0x30], ..cursor() },
        CXCursor { data: [0x10, 0x21, 0x30], ..cursor() },
        CXCursor { data: [0x10, 0x20, 0x31], ..cursor() },
    ];
    for other in others {
        assert!(cursor() != other);
        assert!(!(cursor() == other));
        assert_ne!(cursor().iter_bytes(true), other.iter_bytes(true));
        assert_ne!(cursor().iter_bytes(false), other.iter_bytes(false));
    }
}

#[test]
fn bytes_least_significant_first() {
    let c = CXCursor { kind: 2, xdata: -1, data: [0x0102_0304, 0, 0x80] };
    let n = std::mem::size_of::<usize>();
    let bytes = c.iter_bytes(true);
    assert_eq!(bytes.len(), 5 * n);
    assert_eq!(bytes[..4], [2, 0, 0, 0]);
    assert_eq!(bytes[n..2 * n], vec![255; n]);
    assert_eq!(bytes[2 * n..2 * n + 4], [4, 3, 2, 1]);
    assert_eq!(bytes[3 * n..4 * n], vec![0; n]);
    assert_eq!(bytes[4 * n..], 0x80usize.to_le_bytes());
}

#[test]
fn bytes_most_significant_first() {
    let c = CXCursor { kind: 2, xdata: -2, data: [0x0102_0304, 0, 0x80] };
    let n = std::mem::size_of::<usize>();
    let bytes = c.iter_bytes(false);
    assert_eq!(bytes.len(), 5 * n);
    assert_eq!(bytes[n - 4..n], [0, 0, 0, 2]);
    assert_eq!(bytes[2 * n - 4..2 * n], [255, 255, 255, 254]);
    assert_eq!(bytes[3 * n - 4..3 * n], [1, 2, 3, 4]);
    assert_eq!(bytes[3 * n..4 * n], vec![0; n]);
    assert_eq!(bytes[4 * n..], 0x80usize.to_be_bytes());
}

#[test]
fn map_finds_what_was_inserted() {
    let a = cursor();
    let b = CXCursor { xdata: 9, ..a };
    let mut m = DeclMap::new();
    assert_eq!(m.find(&a), None);
    assert!(!m.contains_key(&a));
    m.insert(a, Global::GCompDecl(4));
    m.insert(b, Global::GOther);
    assert_eq!(m.find(&a), Some(Global::GCompDecl(4)));
    assert_eq!(m.find(&b), Some(Global::GOther));
    assert!(m.contains_key(&b));
    assert!(!m.contains_key(&CXCursor { kind: 70, ..a }));
}
