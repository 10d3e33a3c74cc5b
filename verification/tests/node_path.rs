use clvm_peephole::node_path::{compose, NodePath};

fn path(index: i64) -> NodePath {
    let bytes = index.to_be_bytes();
    let mut start = 0;
    while start < 7
        && ((bytes[start] == 0 && bytes[start + 1] < 0x80)
            || (bytes[start] == 0xff && bytes[start + 1] >= 0x80))
    {
        start += 1;
    }
    NodePath::new(Some(bytes[start..].to_vec()))
}

#[test]
fn the_whole_tree_is_one() {
    assert_eq!(NodePath::new(None).as_path(), vec![1]);
    assert_eq!(path(1).as_path(), vec![1]);
}

#[test]
fn zero_has_no_bytes() {
    assert_eq!(NodePath::new(Some(vec![])).as_path(), Vec::<u8>::new());
    assert_eq!(NodePath::new(Some(vec![0])).as_path(), Vec::<u8>::new());
    assert_eq!(NodePath::new(Some(vec![0, 0])).as_path(), Vec::<u8>::new());
}

#[test]
fn first_doubles_and_rest_doubles_and_adds_one() {
    let whole = NodePath::new(None);
    assert_eq!(whole.first().as_path(), vec![2]);
    assert_eq!(whole.rest().as_path(), vec![3]);
    assert_eq!(whole.first().rest().as_path(), vec![5]);
    assert_eq!(whole.rest().first().as_path(), vec![6]);
    assert_eq!(path(127).first().as_path(), vec![254]);
    assert_eq!(path(127).rest().as_path(), vec![255]);
    assert_eq!(path(128).first().as_path(), vec![1, 0]);
    assert_eq!(path(255).rest().as_path(), vec![1, 255]);
}

#[test]
fn paths_are_serialized_in_the_fewest_bytes() {
    assert_eq!(path(255).as_path(), vec![255]);
    assert_eq!(path(256).as_path(), vec![1, 0]);
    assert_eq!(path(65535).as_path(), vec![255, 255]);
    assert_eq!(path(65536).as_path(), vec![1, 0, 0]);
    assert_eq!(NodePath::new(Some(vec![0, 0, 7])).as_path(), vec![7]);
}

#[test]
fn composing_follows_the_inner_path_from_the_end_of_the_outer() {
    let cases: [(i64, i64, Vec<u8>); 10] = [
        (1, 1, vec![1]),
        (1, 5, vec![5]),
        (5, 1, vec![5]),
        (2, 2, vec![4]),
        (2, 3, vec![6]),
        (3, 2, vec![5]),
        (3, 3, vec![7]),
        (5, 6, vec![25]),
        (0, 6, vec![6]),
        (255, 255, vec![127, 255]),
    ];
    for (outer, inner, expected) in cases {
        assert_eq!(path(outer).add(path(inner)).as_path(), expected, "{} {}", outer, inner);
    }
}

#[test]
fn a_negative_index_reads_its_bytes_unsigned() {
    assert_eq!(path(-1).as_path(), vec![255]);
    assert_eq!(path(-128).as_path(), vec![128]);
    assert_eq!(path(-129).as_path(), vec![255, 127]);
    assert_eq!(path(-256).as_path(), vec![255, 0]);
    assert_eq!(NodePath::new(Some(vec![0xff, 0xff, 0x80])).as_path(), vec![128]);
    assert_eq!(path(-1).first().as_path(), vec![1, 254]);
}

#[test]
fn composing_with_a_step_is_that_step() {
    for index in [1i64, 2, 3, 6, 11, 200, 70000] {
        let whole = NodePath::new(None);
        assert_eq!(
            whole.first().add(path(index)).as_path(),
            path(index).first().as_path()
        );
        assert_eq!(
            whole.rest().add(path(index)).as_path(),
            path(index).rest().as_path()
        );
    }
}

#[test]
fn compose_applies_the_inner_path_first() {
    let inner = path(5);
    assert_eq!(compose(path(2), &inner).as_path(), vec![9]);
    assert_eq!(compose(path(3), &inner).as_path(), vec![13]);
    assert_eq!(compose(path(1), &inner).as_path(), vec![5]);
    assert_eq!(compose(path(6), &path(1)).as_path(), vec![6]);
}

#[test]
fn composing_is_associative() {
    for (x, y, z) in [(5i64, 6i64, 7i64), (2, 3, 2), (200, 1, 9), (3, 70000, 11)] {
        let left = path(x).add(path(y)).add(path(z));
        let right = path(x).add(path(y).add(path(z)));
        assert_eq!(left.as_path(), right.as_path());
    }
}
