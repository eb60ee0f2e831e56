use boolean_array::{
    combine_validities_and, combine_validities_or, ArrowDataType, Bitmap, BooleanArray, Either,
    Error, MutableBitmap, MutableBooleanArray, PhysicalType,
};

fn make_bitmap(bits: &[bool]) -> Bitmap {
    let mut m = MutableBitmap::new();
    for &b in bits {
        m.push(b);
    }
    m.freeze()
}

fn make_array(items: &[Option<bool>]) -> BooleanArray {
    BooleanArray::from_trusted_len_iter(items)
}

fn collect(array: &BooleanArray) -> Vec<Option<bool>> {
    let mut out = Vec::new();
    let mut it = array.iter();
    while let Some(x) = it.next() {
        out.push(x);
    }
    out
}

fn collect_bits(bitmap: &Bitmap) -> Vec<bool> {
    let mut out = Vec::new();
    let mut it = bitmap.iter();
    while let Some(b) = it.next() {
        out.push(b);
    }
    out
}

#[test]
fn try_new_succeeds_on_equal_lengths() {
    let values = make_bitmap(&[true, false, true]);
    let validity = make_bitmap(&[true, true, false]);
    let a = BooleanArray::try_new(ArrowDataType::Boolean, values, Some(validity)).unwrap();
    assert_eq!(a.len(), 3);

    let values = make_bitmap(&[true, false]);
    let a = BooleanArray::try_new(ArrowDataType::Boolean, values, None).unwrap();
    assert_eq!(a.len(), 2);
}

#[test]
fn try_new_fails_on_length_mismatch() {
    let values = make_bitmap(&[true, false, true]);
    let validity = make_bitmap(&[true, true]);
    let r = BooleanArray::try_new(ArrowDataType::Boolean, values, Some(validity));
    assert_eq!(r.unwrap_err(), Error::ValidityLengthMismatch);
}

#[test]
fn try_new_fails_on_wrong_physical_type() {
    let values = make_bitmap(&[true]);
    let r = BooleanArray::try_new(ArrowDataType::Int32, values, None);
    assert_eq!(r.unwrap_err(), Error::WrongPhysicalType);
}

#[test]
fn try_new_checks_lengths_before_type() {
    let values = make_bitmap(&[true, false]);
    let validity = make_bitmap(&[true]);
    let r = BooleanArray::try_new(ArrowDataType::Int32, values, Some(validity));
    assert_eq!(r.unwrap_err(), Error::ValidityLengthMismatch);
}

#[test]
fn error_messages() {
    assert_eq!(
        Error::ValidityLengthMismatch.message(),
        "validity mask length must match the number of values"
    );
    assert_eq!(
        Error::WrongPhysicalType.message(),
        "BooleanArray can only be initialized with a DataType whose physical type is Boolean"
    );
}

#[test]
fn physical_types() {
    assert_eq!(ArrowDataType::Boolean.to_physical_type(), PhysicalType::Boolean);
    assert_ne!(ArrowDataType::Int32.to_physical_type(), PhysicalType::Boolean);
    assert_ne!(ArrowDataType::Utf8.to_physical_type(), PhysicalType::Boolean);
}

#[test]
fn get_follows_validity() {
    let a = make_array(&[Some(true), None, Some(false), None]);
    assert_eq!(a.get(0), Some(true));
    assert_eq!(a.get(1), None);
    assert_eq!(a.get(2), Some(false));
    assert_eq!(a.get(3), None);
    assert_eq!(a.value(0), true);
    assert_eq!(a.value(2), false);
    assert_eq!(a.value_unchecked(0), true);
    assert!(a.is_null(1));
    assert!(!a.is_null(0));

    let b = make_array(&[Some(true), Some(false)]);
    assert_eq!(b.validity().map(collect_bits), None);
    assert_eq!(b.get(0), Some(true));
    assert_eq!(b.get(1), Some(false));
}

#[test]
fn bit_packing_across_bytes() {
    let mut pattern = Vec::new();
    for i in 0..19usize {
        pattern.push(i % 3 == 0);
    }
    let bm = make_bitmap(&pattern);
    assert_eq!(bm.len(), 19);
    for i in 0..19usize {
        assert_eq!(bm.get_bit(i), i % 3 == 0);
        assert_eq!(bm.get_bit_unchecked(i), i % 3 == 0);
    }
    assert_eq!(collect_bits(&bm), pattern);
    let unset = pattern.iter().filter(|b| !**b).count();
    assert_eq!(bm.unset_bits(), unset);
}

#[test]
fn slicing_preserves_content() {
    let items = [Some(true), None, Some(false), Some(true), None, Some(true)];
    let original = make_array(&items);
    for offset in 0..=items.len() {
        for length in 0..=(items.len() - offset) {
            let mut a = original.clone();
            a.slice(offset, length);
            let expected: Vec<Option<bool>> =
                items.iter().cloned().skip(offset).take(length).collect();
            assert_eq!(collect(&a), expected);
        }
    }
}

#[test]
fn slicing_shares_storage() {
    let original = make_array(&[Some(true), None, Some(false), Some(true)]);
    let mut slice = original.clone();
    slice.slice(1, 3);
    drop(original);
    assert_eq!(collect(&slice), vec![None, Some(false), Some(true)]);

    let bm = make_bitmap(&[true, false, true, true, false]);
    let mut s = bm.clone();
    s.slice(1, 4);
    let mut s2 = s.clone();
    s2.slice(2, 2);
    drop(bm);
    drop(s);
    assert_eq!(collect_bits(&s2), vec![true, false]);
}

#[test]
fn slice_collapses_all_valid_window() {
    let original = make_array(&[Some(true), None, Some(false), Some(true)]);
    assert!(original.validity().is_some());
    let mut a = original.clone();
    a.slice(2, 2);
    assert!(a.validity().is_none());
    assert_eq!(collect(&a), vec![Some(false), Some(true)]);

    let mut b = original.clone();
    b.slice(0, 2);
    assert!(b.validity().is_some());
    assert_eq!(collect(&b), vec![Some(true), None]);

    let sliced = original.sliced(2, 1);
    assert!(sliced.validity().is_none());
}

#[test]
fn split_at_composes() {
    let items = [Some(true), None, Some(false), None, Some(true)];
    let a = make_array(&items);
    for k in 0..=items.len() {
        let (lhs, rhs) = a.split_at(k);
        let mut joined = collect(&lhs);
        joined.extend(collect(&rhs));
        assert_eq!(joined, items.to_vec());
    }
    let (lhs, rhs) = a.split_at_unchecked(2);
    assert_eq!(collect(&lhs), vec![Some(true), None]);
    assert_eq!(collect(&rhs), vec![Some(false), None, Some(true)]);
}

#[test]
fn bitmap_split_at_composes() {
    let bits = [true, false, true, true, false, false, true, true, true];
    let bm = make_bitmap(&bits);
    let (lhs, rhs) = bm.split_at(4);
    let mut joined = collect_bits(&lhs);
    joined.extend(collect_bits(&rhs));
    assert_eq!(joined, bits.to_vec());
    let (lhs, rhs) = bm.split_at_unchecked(7);
    assert_eq!(collect_bits(&lhs), bits[..7].to_vec());
    assert_eq!(collect_bits(&rhs), bits[7..].to_vec());
}

#[test]
fn into_mut_unique_roundtrips() {
    let a = make_array(&[Some(true), None, Some(false)]);
    let before = collect(&a);
    match a.into_mut() {
        Either::Right(m) => {
            let back = m.freeze();
            assert_eq!(collect(&back), before);
        },
        Either::Left(_) => panic!("uniquely owned array must become mutable"),
    }
}

#[test]
fn into_mut_shared_returns_original() {
    let a = make_array(&[Some(true), None, Some(false)]);
    let keep_alive = a.clone();
    match a.into_mut() {
        Either::Left(back) => {
            assert_eq!(collect(&back), collect(&keep_alive));
            assert!(back.validity().is_some());
        },
        Either::Right(_) => panic!("a shared array must come back unchanged"),
    }
}

#[test]
fn bitmap_into_mut_and_make_mut() {
    let bm = make_bitmap(&[true, false, true]);
    match bm.into_mut() {
        Either::Right(m) => {
            let back = m.freeze();
            assert_eq!(collect_bits(&back), vec![true, false, true]);
        },
        Either::Left(_) => panic!("uniquely owned bitmap must become mutable"),
    }

    let shared = make_bitmap(&[true, true, false]);
    let keep_alive = shared.clone();
    match shared.into_mut() {
        Either::Left(b) => assert_eq!(collect_bits(&b), collect_bits(&keep_alive)),
        Either::Right(_) => panic!("a shared bitmap must come back unchanged"),
    }

    let m = keep_alive.clone().make_mut();
    let copied = m.freeze();
    assert_eq!(collect_bits(&copied), vec![true, true, false]);
}

#[test]
fn apply_values_mut_equals_copy_apply_replace() {
    let transform = |mut m: MutableBitmap| {
        m.set(0, false);
        m.set(2, true);
        m
    };

    let mut unique = make_array(&[Some(true), None, Some(false)]);
    unique.apply_values_mut(transform);

    let mut shared = make_array(&[Some(true), None, Some(false)]);
    let keep_alive = shared.clone();
    shared.apply_values_mut(transform);

    let by_hand = {
        let reference = make_array(&[Some(true), None, Some(false)]);
        let m = reference.values().clone().make_mut();
        let m = transform(m);
        reference.with_values(m.freeze())
    };

    assert_eq!(collect_bits(unique.values()), collect_bits(by_hand.values()));
    assert_eq!(collect_bits(shared.values()), collect_bits(by_hand.values()));
    assert_eq!(collect(&keep_alive), vec![Some(true), None, Some(false)]);
}

#[test]
fn true_and_or_valid_truth_table() {
    let a = make_array(&[Some(true), None, Some(false), None, Some(true)]);
    let and = a.true_and_valid();
    let or = a.true_or_valid();
    for i in 0..a.len() {
        assert_eq!(and.get_bit(i), a.get(i) == Some(true));
        assert_eq!(or.get_bit(i), a.get(i) != Some(false));
    }

    let no_nulls = make_array(&[Some(true), Some(false)]);
    assert_eq!(collect_bits(&no_nulls.true_and_valid()), vec![true, false]);
    assert_eq!(collect_bits(&no_nulls.true_or_valid()), vec![true, false]);
}

#[test]
fn example_mixed_array() {
    let a = make_array(&[Some(true), None, Some(false)]);
    assert_eq!(collect_bits(a.values()), vec![true, false, false]);
    assert_eq!(a.validity().map(collect_bits), Some(vec![true, false, true]));
    assert_eq!(collect(&a), vec![Some(true), None, Some(false)]);
    assert_eq!(collect_bits(&a.true_and_valid()), vec![true, false, false]);
    assert_eq!(collect_bits(&a.true_or_valid()), vec![true, true, false]);
}

#[test]
fn example_new_null() {
    let a = BooleanArray::new_null(ArrowDataType::Boolean, 3);
    assert_eq!(collect(&a), vec![None, None, None]);
    assert_eq!(a.validity().unwrap().unset_bits(), 3);
    assert_eq!(a.values().len(), 3);
}

#[test]
fn new_empty_has_no_slots() {
    let a = BooleanArray::new_empty(ArrowDataType::Boolean);
    assert_eq!(a.len(), 0);
    assert!(a.validity().is_none());
    assert_eq!(collect(&a), Vec::<Option<bool>>::new());
}

#[test]
fn from_slice_and_values_iter() {
    let a = BooleanArray::from_slice(&[true, false, true]);
    assert_eq!(collect(&a), vec![Some(true), Some(false), Some(true)]);
    assert!(a.validity().is_none());

    let b = BooleanArray::from_trusted_len_values_iter(&[false, false, true]);
    assert_eq!(collect(&b), vec![Some(false), Some(false), Some(true)]);

    let mut raw = Vec::new();
    let mut it = a.values_iter();
    while let Some(bit) = it.next() {
        raw.push(bit);
    }
    assert_eq!(raw, vec![true, false, true]);
}

#[test]
fn try_from_trusted_len_iter_propagates_first_error() {
    let ok: Vec<Result<Option<bool>, i32>> = vec![Ok(Some(true)), Ok(None), Ok(Some(false))];
    let a = BooleanArray::try_from_trusted_len_iter(ok).unwrap();
    assert_eq!(collect(&a), vec![Some(true), None, Some(false)]);

    let bad: Vec<Result<Option<bool>, i32>> = vec![Ok(Some(true)), Err(7), Err(8), Ok(None)];
    let e = BooleanArray::try_from_trusted_len_iter(bad).unwrap_err();
    assert_eq!(e, 7);
}

#[test]
fn non_null_values_iter_skips_nulls() {
    let a = make_array(&[None, Some(true), None, Some(false), Some(true), None]);
    let mut out = Vec::new();
    let mut it = a.non_null_values_iter();
    while let Some(v) = it.next() {
        out.push(v);
    }
    assert_eq!(out, vec![true, false, true]);
    assert_eq!(out.len(), a.len() - a.validity().unwrap().unset_bits());
}

#[test]
fn with_values_and_set_values() {
    let a = make_array(&[Some(true), None, Some(true)]);
    let replaced = a.with_values(make_bitmap(&[false, true, false]));
    assert_eq!(collect(&replaced), vec![Some(false), None, Some(false)]);
    assert_eq!(collect(&a), vec![Some(true), None, Some(true)]);

    let mut b = make_array(&[Some(true), Some(true)]);
    b.set_values(make_bitmap(&[false, false]));
    assert_eq!(collect(&b), vec![Some(false), Some(false)]);
}

#[test]
fn with_validity_and_set_validity() {
    let a = BooleanArray::from_slice(&[true, false, true]);
    let masked = a.with_validity(Some(make_bitmap(&[true, false, true])));
    assert_eq!(collect(&masked), vec![Some(true), None, Some(true)]);

    let mut b = masked.clone();
    b.set_validity(None);
    assert_eq!(collect(&b), vec![Some(true), Some(false), Some(true)]);
}

#[test]
fn into_inner_and_from_inner_roundtrip() {
    let a = make_array(&[Some(true), None]);
    let (dtype, values, validity) = a.into_inner();
    assert_eq!(dtype, ArrowDataType::Boolean);
    let back = BooleanArray::from_inner_unchecked(dtype, values, validity);
    assert_eq!(collect(&back), vec![Some(true), None]);
}

#[test]
fn mutable_array_push_materializes_validity_lazily() {
    let mut m = MutableBooleanArray::new();
    m.push(Some(true));
    m.push(Some(false));
    let all_valid = m.freeze();
    assert!(all_valid.validity().is_none());

    let mut m = MutableBooleanArray::new();
    m.push(Some(true));
    m.push(None);
    m.push(Some(false));
    assert_eq!(m.len(), 3);
    let a = m.freeze();
    assert_eq!(a.validity().map(collect_bits), Some(vec![true, false, true]));
    assert_eq!(collect(&a), vec![Some(true), None, Some(false)]);
}

#[test]
fn mutable_array_try_new_validates() {
    let values = {
        let mut m = MutableBitmap::new();
        m.push(true);
        m.push(false);
        m
    };
    let validity = {
        let mut m = MutableBitmap::new();
        m.push(true);
        m
    };
    let r = MutableBooleanArray::try_new(ArrowDataType::Boolean, values, Some(validity));
    assert_eq!(r.unwrap_err(), Error::ValidityLengthMismatch);
}

#[test]
fn mutable_bitmap_set_and_extend() {
    let mut m = MutableBitmap::new();
    m.extend_constant(10, true);
    m.set(3, false);
    m.set(9, false);
    assert_eq!(m.len(), 10);
    let b = m.freeze();
    for i in 0..10usize {
        assert_eq!(b.get_bit(i), i != 3 && i != 9);
    }
    assert_eq!(b.unset_bits(), 2);
}

#[test]
fn bitmap_new_zeroed_is_all_null_storage() {
    let b = Bitmap::new_zeroed(11);
    assert_eq!(b.len(), 11);
    assert_eq!(b.unset_bits(), 11);
    for i in 0..11usize {
        assert!(!b.get_bit(i));
    }
    let empty = Bitmap::new();
    assert_eq!(empty.len(), 0);
    assert_eq!(empty.unset_bits(), 0);
}

#[test]
fn bitmap_slice_tracks_unset_bits() {
    let bm = make_bitmap(&[true, false, false, true, false, true]);
    assert_eq!(bm.unset_bits(), 3);
    let s = bm.clone().sliced(1, 4);
    assert_eq!(s.len(), 4);
    assert_eq!(s.unset_bits(), 3);
    let s2 = s.sliced_unchecked(1, 2);
    assert_eq!(collect_bits(&s2), vec![false, true]);
    let mut t = bm.clone();
    t.slice_unchecked(0, 0);
    assert_eq!(t.len(), 0);
    assert_eq!(t.unset_bits(), 0);
}

#[test]
fn sliced_bitmap_with_offset_stays_shared() {
    let bm = make_bitmap(&[true, false, true, true]);
    let s = bm.clone().sliced(1, 3);
    match s.into_mut() {
        Either::Left(b) => assert_eq!(collect_bits(&b), vec![false, true, true]),
        Either::Right(_) => panic!("an offset view cannot reclaim the whole buffer"),
    }
}

#[test]
fn combine_validities_truth_tables() {
    let l = make_bitmap(&[true, true, false, false]);
    let r = make_bitmap(&[true, false, true, false]);
    let and = combine_validities_and(Some(&l), Some(&r)).unwrap();
    assert_eq!(collect_bits(&and), vec![true, false, false, false]);
    let or = combine_validities_or(Some(&l), Some(&r)).unwrap();
    assert_eq!(collect_bits(&or), vec![true, true, true, false]);

    let only = combine_validities_and(Some(&l), None).unwrap();
    assert_eq!(collect_bits(&only), vec![true, true, false, false]);
    let only = combine_validities_or(None, Some(&r)).unwrap();
    assert_eq!(collect_bits(&only), vec![true, false, true, false]);
    assert!(combine_validities_and(None, None).is_none());
    assert!(combine_validities_or(None, None).is_none());
}

#[test]
fn iterators_are_restartable() {
    let a = make_array(&[Some(true), None]);
    let first = collect(&a);
    let second = collect(&a);
    assert_eq!(first, second);
    let mut it = a.iter();
    assert_eq!(it.next(), Some(Some(true)));
    assert_eq!(it.next(), Some(None));
    assert_eq!(it.next(), None);
    assert_eq!(it.next(), None);
}

#[test]
fn all_valid_mask_collapses_only_after_slice() {
    let values = make_bitmap(&[true, false]);
    let validity = make_bitmap(&[true, true]);
    let a = BooleanArray::new(ArrowDataType::Boolean, values, Some(validity));
    assert!(a.validity().is_some());

    let mut mutated = a.clone();
    mutated.apply_values_mut(|m| m);
    assert!(mutated.validity().is_some());

    let mut sliced = a.clone();
    sliced.slice(0, 2);
    assert!(sliced.validity().is_none());
}

#[test]
fn from_bitmap_is_all_valid() {
    let a = BooleanArray::from(make_bitmap(&[true, false, true]));
    assert_eq!(*a.dtype(), ArrowDataType::Boolean);
    assert!(a.validity().is_none());
    assert_eq!(collect(&a), vec![Some(true), Some(false), Some(true)]);
}

#[test]
fn dtype_is_stored() {
    let a = BooleanArray::new(ArrowDataType::Boolean, make_bitmap(&[true]), None);
    assert_eq!(*a.dtype(), ArrowDataType::Boolean);
}
