use clvm_peephole::arena::{equal_to, non_nil};
use clvm_peephole::serialize::{node_from_bytes, ReadError};
use clvm_peephole::text::{bytes_to_hex, hex_to_bytes, usize_to_string, TextMap};
use clvmr::allocator::{Allocator, SExp};

#[test]
fn small_atoms_are_one_byte() {
    let mut a = Allocator::new();
    let n = node_from_bytes(&mut a, &[0x80]).unwrap_or_else(|_| panic!());
    assert!(!non_nil(&a, n));
    let n = node_from_bytes(&mut a, &[0x00]).unwrap_or_else(|_| panic!());
    assert_eq!(a.atom(n).as_ref(), &[0]);
    let n = node_from_bytes(&mut a, &[0x7f]).unwrap_or_else(|_| panic!());
    assert_eq!(a.atom(n).as_ref(), &[0x7f]);
}

#[test]
fn longer_atoms_carry_their_length() {
    let mut a = Allocator::new();
    let n = node_from_bytes(&mut a, &[0x81, 0x80]).unwrap_or_else(|_| panic!());
    assert_eq!(a.atom(n).as_ref(), &[0x80]);
    let n = node_from_bytes(&mut a, &[0x83, 97, 98, 99, 100]).unwrap_or_else(|_| panic!());
    assert_eq!(a.atom(n).as_ref(), b"abc");
    let mut long = vec![0xc0, 0x40];
    long.extend(std::iter::repeat(7u8).take(64));
    let n = node_from_bytes(&mut a, &long).unwrap_or_else(|_| panic!());
    assert_eq!(a.atom(n).as_ref(), &[7u8; 64][..]);
    let mut longer = vec![0xc1, 0x02];
    longer.extend(std::iter::repeat(9u8).take(258));
    let n = node_from_bytes(&mut a, &longer).unwrap_or_else(|_| panic!());
    assert_eq!(a.atom(n).as_ref().len(), 258);
    let mut three = vec![0xe0, 0x40, 0x00];
    three.extend(std::iter::repeat(1u8).take(0x4000));
    let n = node_from_bytes(&mut a, &three).unwrap_or_else(|_| panic!());
    assert_eq!(a.atom(n).as_ref().len(), 0x4000);
}

#[test]
fn pairs_are_followed_by_their_children() {
    let mut a = Allocator::new();
    let n = node_from_bytes(&mut a, &[0xff, 0x01, 0xff, 0x02, 0x80]).unwrap_or_else(|_| panic!());
    let one = a.new_atom(&[1]).unwrap();
    let two = a.new_atom(&[2]).unwrap();
    let nil = a.nil();
    let tail = a.new_pair(two, nil).unwrap();
    let expected = a.new_pair(one, tail).unwrap();
    assert!(equal_to(&a, n, expected));
    let n = node_from_bytes(&mut a, &[0xff, 0xff, 0x01, 0x02, 0x83, 1, 2, 3, 0x55]);
    let n = n.unwrap_or_else(|_| panic!());
    match a.sexp(n) {
        SExp::Pair(left, right) => {
            assert!(matches!(a.sexp(left), SExp::Pair(_, _)));
            assert_eq!(a.atom(right).as_ref(), &[1, 2, 3]);
        }
        SExp::Atom => panic!(),
    }
}

#[test]
fn bad_bytes_are_refused() {
    let mut a = Allocator::new();
    let bad: [&[u8]; 9] = [
        &[],
        &[0xff],
        &[0xff, 0x01],
        &[0x82, 0x01],
        &[0xc0],
        &[0xc0, 0x02, 0x01],
        &[0xfc, 0, 0, 0, 0, 0],
        &[0xfe],
        &[0xff, 0xff, 0x01, 0x02],
    ];
    for bytes in bad {
        match node_from_bytes(&mut a, bytes) {
            Err(ReadError::BadEncoding) => {}
            _ => panic!("{:?}", bytes),
        }
    }
}

#[test]
fn a_full_arena_is_reported() {
    let mut a = Allocator::new_limited(1);
    match node_from_bytes(&mut a, &[0x83, 97, 98, 99]) {
        Err(ReadError::Arena(_)) => {}
        _ => panic!(),
    }
}

#[test]
fn numbers_in_decimal() {
    assert_eq!(usize_to_string(0), "0");
    assert_eq!(usize_to_string(7), "7");
    assert_eq!(usize_to_string(10), "10");
    assert_eq!(usize_to_string(109), "109");
    assert_eq!(usize_to_string(4294967295), "4294967295");
    assert_eq!(usize_to_string(usize::MAX), usize::MAX.to_string());
}

#[test]
fn bytes_in_hex() {
    assert_eq!(bytes_to_hex(&[]), "");
    assert_eq!(bytes_to_hex(&[0x00, 0x0f, 0xa0, 0xff, 0x9c]), "000fa0ff9c");
    assert_eq!(hex_to_bytes(b"000fa0ff9c"), Some(vec![0x00, 0x0f, 0xa0, 0xff, 0x9c]));
    assert_eq!(hex_to_bytes(b"000FA0Ff9C"), Some(vec![0x00, 0x0f, 0xa0, 0xff, 0x9c]));
    assert_eq!(hex_to_bytes(b""), Some(vec![]));
    assert_eq!(hex_to_bytes(b"0"), None);
    assert_eq!(hex_to_bytes(b"0g"), None);
    assert_eq!(hex_to_bytes(b"g0"), None);
    assert_eq!(hex_to_bytes(b"00 1"), None);
    assert_eq!(hex_to_bytes(b"/0"), None);
    assert_eq!(hex_to_bytes(b":0"), None);
    assert_eq!(hex_to_bytes(b"@0"), None);
    assert_eq!(hex_to_bytes(b"`0"), None);
}

#[test]
fn a_later_entry_replaces_an_earlier_one() {
    let mut m = TextMap::new();
    assert_eq!(m.get("a"), None);
    m.insert("a".to_string(), "1".to_string());
    m.insert("b".to_string(), "2".to_string());
    m.insert("a".to_string(), "3".to_string());
    assert_eq!(m.get("a"), Some("3".to_string()));
    assert_eq!(m.get("b"), Some("2".to_string()));
    assert_eq!(m.get("c"), None);
    assert_eq!(m.len(), 3);
    assert_eq!(m.entry(0), Some(("a".to_string(), "1".to_string())));
    assert_eq!(m.entry(3), None);
    let taken = m.take();
    assert_eq!(m.len(), 0);
    assert_eq!(m.get("a"), None);
    assert_eq!(taken.get("a"), Some("3".to_string()));
}
