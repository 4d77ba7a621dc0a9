use generic_array_storage::{Conv, GenericArrayStorage, GenericMatrixExt, GenericMatrixFromExt};

#[test]
fn descriptor_sizes() {
    assert_eq!(typenum::UTerm::new_nalg(), 0);
    assert_eq!(typenum::U1::new_nalg(), 1);
    assert_eq!(typenum::U6::new_nalg(), 6);
    assert_eq!(typenum::U7::new_nalg(), 7);
    assert_eq!(typenum::U1023::new_nalg(), 1023);
    assert_eq!(typenum::U1024::new_nalg(), 1024);
    assert_eq!(typenum::Const::<5>::new_nalg(), 5);
    assert_eq!(nalgebra::Const::<5>::new_nalg(), 5);
    assert_eq!(nalgebra::U0::new_nalg(), 0);
}

#[test]
fn array_round_trip() {
    let data = [[1, 2, 3], [4, 5, 6]];
    let m: GenericArrayStorage<i32, typenum::U3, typenum::U2> = GenericArrayStorage::from_array(data);
    let back: [[i32; 3]; 2] = m.into_array();
    assert_eq!(back, data);
}

#[test]
fn array_round_trip_owned_elements() {
    let data = [
        [String::from("a"), String::from("b")],
        [String::from("c"), String::from("d")],
        [String::from("e"), String::from("f")],
    ];
    let m: GenericArrayStorage<String, nalgebra::U2, nalgebra::U3> = data.clone().into_generic_matrix();
    assert_eq!(m.get(1, 2), "f");
    let back: [[String; 2]; 3] = m.into_array();
    assert_eq!(back, data);
}

#[test]
fn storage_is_column_major() {
    let m: GenericArrayStorage<i32, typenum::U2, typenum::U3> =
        [[1, 4], [2, 5], [3, 6]].into_generic_matrix();
    assert_eq!(m.as_slice(), &[1, 4, 2, 5, 3, 6]);
    assert_eq!(*m.get(0, 0), 1);
    assert_eq!(*m.get(0, 2), 3);
    assert_eq!(*m.get(1, 0), 4);
    assert_eq!(*m.get(1, 2), 6);
    assert_eq!(m.into_owned(), vec![1, 4, 2, 5, 3, 6]);
}

#[test]
fn shape_strides_contiguity() {
    let m: GenericArrayStorage<u8, typenum::U2, nalgebra::U3> =
        [[1, 2], [3, 4], [5, 6]].into_generic_matrix();
    assert_eq!(m.shape(), (2, 3));
    assert_eq!(m.strides(), (1, 2));
    assert!(m.is_contiguous());

    let tall: GenericArrayStorage<u8, typenum::U5, typenum::U1> =
        [[1, 2, 3, 4, 5]].into_generic_matrix();
    assert_eq!(tall.shape(), (5, 1));
    assert_eq!(tall.strides(), (1, 5));
    assert!(tall.is_contiguous());
}

#[test]
fn empty_matrices() {
    let no_columns: GenericArrayStorage<i32, typenum::U3, typenum::U0> =
        GenericArrayStorage::from_array::<3, 0>([]);
    assert_eq!(no_columns.shape(), (3, 0));
    assert_eq!(no_columns.strides(), (1, 3));
    assert!(no_columns.is_contiguous());
    assert!(no_columns.as_slice().is_empty());
    let back: [[i32; 3]; 0] = no_columns.into_array();
    assert_eq!(back.len(), 0);

    let no_rows: GenericArrayStorage<i32, nalgebra::U0, nalgebra::U2> =
        [[], []].into_generic_matrix();
    assert_eq!(no_rows.shape(), (0, 2));
    assert_eq!(no_rows.strides(), (1, 0));
    let back: [[i32; 0]; 2] = no_rows.into_array();
    assert_eq!(back, [[], []]);
}

#[test]
fn spellings_give_same_layout() {
    let named: GenericArrayStorage<i32, nalgebra::U2, nalgebra::U3> =
        [[1, 4], [2, 5], [3, 6]].into_generic_matrix();
    let binary: GenericArrayStorage<i32, typenum::U2, typenum::U3> =
        [[1, 4], [2, 5], [3, 6]].into_generic_matrix();
    let literal: GenericArrayStorage<i32, typenum::Const<2>, typenum::Const<3>> =
        [[1, 4], [2, 5], [3, 6]].into_generic_matrix();
    assert_eq!(named.as_slice(), binary.as_slice());
    assert_eq!(named.as_slice(), literal.as_slice());
    for i in 0..2 {
        for j in 0..3 {
            assert_eq!(named.get(i, j), binary.get(i, j));
            assert_eq!(*named.get(i, j), [[1, 2, 3], [4, 5, 6]][i][j]);
        }
    }
}

#[test]
fn conv_round_trip() {
    let m: GenericArrayStorage<i32, typenum::U2, typenum::U2> = [[9, -1], [0, 7]].into_generic_matrix();
    let there: GenericArrayStorage<i32, nalgebra::U2, typenum::Const<2>> = m.clone().conv();
    assert_eq!(there.as_slice(), m.as_slice());
    let back: GenericArrayStorage<i32, typenum::U2, typenum::U2> = there.conv();
    assert_eq!(back.as_slice(), m.as_slice());
    assert_eq!(back.into_array::<2, 2>(), [[9, -1], [0, 7]]);
}

#[test]
fn column_slice_and_clones() {
    let m: GenericArrayStorage<String, typenum::U1, typenum::U2> =
        GenericArrayStorage::from_column_slice(&[String::from("x"), String::from("y")]);
    let copy = m.clone();
    assert_eq!(copy.as_slice(), m.as_slice());
    assert_eq!(m.clone_owned(), vec![String::from("x"), String::from("y")]);
    assert_eq!(copy.get(0, 1), "y");
}

#[test]
fn column_vec_takes_exact_length_only() {
    let m = GenericArrayStorage::<i32, typenum::U2, nalgebra::U2>::from_column_vec(vec![1, 2, 3, 4])
        .expect("four elements fill a 2x2 matrix");
    assert_eq!(*m.get(1, 0), 2);
    assert_eq!(*m.get(0, 1), 3);

    assert!(GenericArrayStorage::<i32, typenum::U2, nalgebra::U2>::from_column_vec(vec![1, 2, 3]).is_none());
    assert!(GenericArrayStorage::<i32, typenum::U2, nalgebra::U2>::from_column_vec(vec![1, 2, 3, 4, 5]).is_none());
    assert!(GenericArrayStorage::<i32, typenum::U0, nalgebra::U2>::from_column_vec(Vec::new()).is_some());
}

#[test]
fn set_writes_one_entry() {
    let mut m: GenericArrayStorage<i32, typenum::U2, nalgebra::U3> =
        [[1, 4], [2, 5], [3, 6]].into_generic_matrix();
    m.set(1, 2, 60);
    m.set(0, 0, -1);
    assert_eq!(m.as_slice(), &[-1, 4, 2, 5, 3, 60]);
    assert_eq!(*m.get(1, 2), 60);
    assert_eq!(*m.get(0, 2), 3);
}

#[test]
fn owned_elements_of_three_by_two() {
    let m: GenericArrayStorage<i32, nalgebra::U3, nalgebra::U2> =
        [[1, 2, 5], [3, -4, 0]].into_generic_matrix();
    let owned = m.into_owned();
    assert_eq!(owned, vec![1, 2, 5, 3, -4, 0]);
    let back = GenericArrayStorage::<i32, nalgebra::U3, nalgebra::U2>::from_column_vec(owned)
        .expect("six elements fill a 3x2 matrix");
    assert_eq!(back.into_array::<3, 2>(), [[1, 2, 5], [3, -4, 0]]);
}
