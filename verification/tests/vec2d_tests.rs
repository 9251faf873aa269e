use streamutils::vec2d::{Error, Vec2d};

#[test]
fn with_capacity_test() {
    let width = 2;
    let height = 4;
    let v: Vec2d<i32> = Vec2d::with_capacity(width, height);

    assert_eq!(v.width(), 2);
    assert_eq!(v.height(), 4);
    assert_eq!(v.size(), 8);
}

#[test]
fn from_iter_test() {
    let width = 2;
    let height = 4;

    let seq = (1..=8).collect::<Vec<i32>>();

    let v = Vec2d::from_iter(width, height, seq).unwrap();

    assert_eq!(v.width(), 2);
    assert_eq!(v.height(), 4);
    assert_eq!(v.size(), 8);

    assert_eq!(v.iter(), &vec![1, 2, 3, 4, 5, 6, 7, 8]);
}

#[test]
fn from_iter_too_long_test() {
    let width = 2;
    let height = 4;

    let seq = (1..=9).collect::<Vec<i32>>();

    let res = Vec2d::from_iter(width, height, seq);

    assert_eq!(res, Err(Error::IteratorTooLong { size: 8 }))
}

#[test]
fn index_test() {
    let width = 2;
    let height = 4;

    let seq = vec![
        1, 2, //
        3, 4, //
        5, 6, //
        7, 8, //
    ];

    let v = Vec2d::from_iter(width, height, seq).unwrap();

    assert_eq!(v.iter()[1], 2);
    assert_eq!(*v.get(0, 0).unwrap(), 1);
    assert_eq!(*v.get(1, 2).unwrap(), 6);
    assert_eq!(*v.get(1, 3).unwrap(), 8);
}

#[test]
fn push_test() {
    let width = 1;
    let height = 1;

    let mut v = Vec2d::from_iter(width, height, vec![1]).unwrap();

    v.push(2);
    assert_eq!(v.iter(), &vec![1, 2]);
    assert_eq!(v.height(), 2);

    v.push(3);
    assert_eq!(v.iter(), &vec![1, 2, 3]);
    assert_eq!(v.height(), 3);
}

#[test]
fn insert_at_test() {
    let width = 2;
    let height = 2;

    let seq = vec![
        1, 2, //
        3, 4, //
    ];

    let mut v = Vec2d::from_iter(width, height, seq).unwrap();

    v.insert_at(1, 2, 6);

    assert_eq!(v.iter(), &vec![1, 2, 3, 4, 0, 6]);

    // Insert at overrides existing
    v.insert_at(0, 2, 5);
    assert_eq!(v.iter(), &vec![1, 2, 3, 4, 5, 6]);
}

#[test]
fn row_iter_test() {
    let width = 2;
    let height = 4;

    let seq = vec![
        1, 2, //
        3, 4, //
        5, 6, //
        7, 8, //
    ];

    let v = Vec2d::from_iter(width, height, seq).unwrap();

    assert_eq!(v.row_iter(), [[1, 2], [3, 4], [5, 6], [7, 8]]);
}

#[test]
fn col_iter_test() {
    let width = 2;
    let height = 4;

    let seq = vec![
        1, 2, //
        3, 4, //
        5, 6, //
        7, 8, //
    ];

    let v = Vec2d::from_iter(width, height, seq).unwrap();

    let mut columns: Vec<Vec<i32>> = Vec::new();
    let mut col_iter = v.column_iter();
    while let Some(mut col) = col_iter.next() {
        let mut items = Vec::new();
        while let Some(x) = col.next() {
            items.push(*x);
        }
        columns.push(items);
    }

    assert_eq!(columns, [[1, 3, 5, 7], [2, 4, 6, 8]])
}

#[test]
fn get_mut_test() {
    let mut v = Vec2d::from_iter(2, 2, vec![1, 2, 3, 4]).unwrap();
    *v.get_mut(1, 0).unwrap() = 9;
    assert_eq!(v.iter(), &vec![1, 9, 3, 4]);
    assert_eq!(v.get_mut(0, 2), None);

    v.iter_mut().push(5);
    assert_eq!(v.iter(), &vec![1, 9, 3, 4, 5]);
}

#[test]
fn insert_test() {
    let mut v = Vec2d::from_iter(2, 2, vec![1, 2, 3, 4]).unwrap();
    v.insert(0, 1, 9);
    assert_eq!(v.iter(), &vec![1, 2, 9, 3, 4]);
}

#[test]
fn resize_test() {
    let mut v = Vec2d::from_iter(2, 3, vec![1, 2, 3, 4, 5, 6]).unwrap();
    v.resize(2, 2);
    assert_eq!(v.width(), 2);
    assert_eq!(v.height(), 2);
    assert_eq!(v.iter(), &vec![1, 2, 3, 4]);

    v.resize(3, 3);
    assert_eq!(v.iter(), &vec![1, 2, 3, 4]);
}

#[test]
fn len_and_empty_test() {
    let v: Vec2d<i32> = Vec2d::new(3, 3);
    assert_eq!(v.width(), 3);
    assert_eq!(v.height(), 3);
    assert_eq!(v.len(), 0);
    assert!(v.is_empty());

    let filled = Vec2d::new_with(2, 2, 7);
    assert_eq!(filled.len(), 4);
    assert_eq!(filled.iter(), &vec![7, 7, 7, 7]);
}

#[test]
fn clone_from_slice_test() {
    let items = [1, 2, 3, 4, 5];
    let v = Vec2d::clone_from_slice(2, 2, &items);
    assert_eq!(v.iter(), &vec![1, 2, 3, 4]);
    assert_eq!(items, [1, 2, 3, 4, 5]);

    let w = Vec2d::clone_from_slice(3, 2, &items);
    assert_eq!(w.iter(), &vec![1, 2, 3, 4, 5]);
}

#[test]
fn take_from_test() {
    let mut items = vec![1, 2, 3, 4];
    let v = Vec2d::take_from(2, 2, &mut items).unwrap();
    assert_eq!(v.iter(), &vec![1, 2, 3, 4]);
    assert_eq!(items, vec![0, 0, 0, 0]);

    let mut long = vec![1, 2, 3];
    let res: Result<Vec2d<i32>, Error> = Vec2d::take_from(1, 2, &mut long);
    assert_eq!(res, Err(Error::SliceTooLong { size: 2 }));
    assert_eq!(long, vec![1, 2, 3]);
}
