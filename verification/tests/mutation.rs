use std::borrow::Cow;
use std::collections::{BTreeMap, VecDeque};

use autarkie::node::{serialize, MutationType, Node};
use autarkie::visitor::{DepthInfo, Visitor};

fn visitor() -> Visitor {
    Visitor::new(1, DepthInfo { generate: 2, iterate: 4 }, vec!["s".to_string()])
}

fn path(items: &[usize]) -> VecDeque<usize> {
    items.iter().copied().collect()
}

#[test]
fn pop_removes_the_element_at_the_index() {
    let mut v: Vec<u8> = vec![1, 2, 3];
    let mut vis = visitor();
    let mut ty = MutationType::IterablePop(1);
    v.__autarkie_mutate(&mut ty, &mut vis, VecDeque::new());
    assert_eq!(v, vec![1, 3]);
}

#[test]
fn splice_replaces_the_whole_value() {
    let mut v: Vec<u8> = vec![1, 2, 3];
    let bytes = serialize(&vec![9u8, 9]);
    let mut slice: &[u8] = &bytes;
    let mut vis = visitor();
    let mut ty = MutationType::Splice(&mut slice);
    v.__autarkie_mutate(&mut ty, &mut vis, VecDeque::new());
    assert_eq!(v, vec![9, 9]);
}

#[test]
fn splice_append_pushes_the_decoded_element() {
    let mut v: Vec<u16> = vec![1];
    let bytes = serialize(&0x0203u16);
    let mut slice: &[u8] = &bytes;
    let mut vis = visitor();
    let mut ty = MutationType::SpliceAppend(&mut slice);
    v.__autarkie_mutate(&mut ty, &mut vis, VecDeque::new());
    assert_eq!(v, vec![1, 0x0203]);
}

#[test]
fn a_path_leads_to_the_element_to_mutate() {
    let mut v: Vec<Vec<u8>> = vec![vec![1], vec![2, 3]];
    let bytes = serialize(&7u8);
    let mut slice: &[u8] = &bytes;
    let mut vis = visitor();
    let mut ty = MutationType::Splice(&mut slice);
    v.__autarkie_mutate(&mut ty, &mut vis, path(&[1, 0]));
    assert_eq!(v, vec![vec![1], vec![7, 3]]);
}

#[test]
fn generate_append_adds_at_most_one_element() {
    let mut v: Vec<u8> = vec![1, 2];
    let mut vis = visitor();
    let mut ty = MutationType::GenerateAppend(0);
    v.__autarkie_mutate(&mut ty, &mut vis, VecDeque::new());
    assert_eq!(v.len(), 3);
    assert_eq!(&v[..2], &[1, 2]);
}

#[test]
fn generate_replace_records_the_new_encoding() {
    let mut x: u32 = 5;
    let mut vis = visitor();
    let mut ty = MutationType::GenerateReplace(0);
    x.__autarkie_mutate(&mut ty, &mut vis, VecDeque::new());
    let recorded = vis.collected_serialized();
    assert_eq!(recorded.len(), 1);
    assert_eq!(recorded[0].0, serialize(&x));
    assert_eq!(recorded[0].1, u32::__autarkie_id());
}

#[test]
fn option_and_result_mutate_their_payload() {
    let mut o: Option<u8> = Some(1);
    let bytes = serialize(&4u8);
    let mut slice: &[u8] = &bytes;
    let mut vis = visitor();
    let mut ty = MutationType::Splice(&mut slice);
    o.__autarkie_mutate(&mut ty, &mut vis, path(&[0]));
    assert_eq!(o, Some(4));

    let mut r: Result<u8, u16> = Err(1);
    let bytes = serialize(&0x0506u16);
    let mut slice: &[u8] = &bytes;
    let mut ty = MutationType::Splice(&mut slice);
    r.__autarkie_mutate(&mut ty, &mut vis, path(&[1]));
    assert_eq!(r, Err(0x0506));
}

#[test]
fn tuple_path_picks_the_field() {
    let mut t: (u8, u16) = (1, 2);
    let bytes = serialize(&9u16);
    let mut slice: &[u8] = &bytes;
    let mut vis = visitor();
    let mut ty = MutationType::Splice(&mut slice);
    t.__autarkie_mutate(&mut ty, &mut vis, path(&[1]));
    assert_eq!(t, (1, 9));
}

#[test]
fn map_mutations_follow_key_order() {
    let mut m: BTreeMap<u8, u8> = BTreeMap::new();
    m.insert(3, 30);
    m.insert(1, 10);
    m.insert(2, 20);
    let mut vis = visitor();
    let mut ty = MutationType::IterablePop(0);
    m.__autarkie_mutate(&mut ty, &mut vis, VecDeque::new());
    assert_eq!(m.keys().copied().collect::<Vec<_>>(), vec![2, 3]);

    let bytes = serialize(&99u8);
    let mut slice: &[u8] = &bytes;
    let mut ty = MutationType::Splice(&mut slice);
    m.__autarkie_mutate(&mut ty, &mut vis, path(&[1, 1]));
    assert_eq!(m.get(&3), Some(&99));

    let bytes = serialize(&7u8);
    let mut slice: &[u8] = &bytes;
    let mut ty = MutationType::Splice(&mut slice);
    m.__autarkie_mutate(&mut ty, &mut vis, path(&[0, 0]));
    assert_eq!(m.get(&7), Some(&20));
    assert_eq!(m.get(&2), None);

    let bytes = serialize(&(4u8, 40u8));
    let mut slice: &[u8] = &bytes;
    let mut ty = MutationType::SpliceAppend(&mut slice);
    m.__autarkie_mutate(&mut ty, &mut vis, VecDeque::new());
    assert_eq!(m.get(&4), Some(&40));
    assert_eq!(m.len(), 3);
}

#[test]
fn map_entry_replacement() {
    let mut m: BTreeMap<u8, u8> = BTreeMap::new();
    m.insert(1, 10);
    m.insert(2, 20);
    let bytes = serialize(&(8u8, 80u8));
    let mut slice: &[u8] = &bytes;
    let mut vis = visitor();
    let mut ty = MutationType::Splice(&mut slice);
    m.__autarkie_mutate(&mut ty, &mut vis, path(&[0]));
    assert_eq!(m.get(&1), None);
    assert_eq!(m.get(&8), Some(&80));
    assert_eq!(m.len(), 2);
}

#[test]
fn slice_mutations_make_an_owned_copy() {
    let mut c: Cow<'static, [u8]> = Cow::Borrowed(&[1, 2, 3]);
    let mut vis = visitor();
    let mut ty = MutationType::IterablePop(0);
    c.__autarkie_mutate(&mut ty, &mut vis, VecDeque::new());
    assert_eq!(&*c, &[2, 3]);
    assert!(matches!(c, Cow::Owned(_)));

    let bytes = serialize(&5u8);
    let mut slice: &[u8] = &bytes;
    let mut ty = MutationType::Splice(&mut slice);
    c.__autarkie_mutate(&mut ty, &mut vis, path(&[1]));
    assert_eq!(&*c, &[2, 5]);

    let mut untouched: Cow<'static, [u8]> = Cow::Borrowed(&[1]);
    let mut ty = MutationType::RecursiveReplace;
    untouched.__autarkie_mutate(&mut ty, &mut vis, VecDeque::new());
    assert!(matches!(untouched, Cow::Borrowed(_)));
}

#[test]
fn boxed_values_mutate_in_place() {
    let mut b: Box<u8> = Box::new(1);
    let bytes = serialize(&6u8);
    let mut slice: &[u8] = &bytes;
    let mut vis = visitor();
    let mut ty = MutationType::Splice(&mut slice);
    b.__autarkie_mutate(&mut ty, &mut vis, VecDeque::new());
    assert_eq!(*b, 6);
}

#[test]
fn array_path_mutates_one_item() {
    let mut a: [u8; 3] = [1, 2, 3];
    let bytes = serialize(&9u8);
    let mut slice: &[u8] = &bytes;
    let mut vis = visitor();
    let mut ty = MutationType::Splice(&mut slice);
    a.__autarkie_mutate(&mut ty, &mut vis, path(&[2]));
    assert_eq!(a, [1, 2, 9]);

    let bytes = serialize(&[7u8, 8, 9]);
    let mut slice: &[u8] = &bytes;
    let mut ty = MutationType::Splice(&mut slice);
    a.__autarkie_mutate(&mut ty, &mut vis, VecDeque::new());
    assert_eq!(a, [7, 8, 9]);

    let mut ty = MutationType::GenerateReplace(0);
    a.__autarkie_mutate(&mut ty, &mut vis, VecDeque::new());
    assert_eq!(vis.collected_serialized().len(), 3);
}

#[test]
fn map_splice_replaces_the_whole_map() {
    let mut m: BTreeMap<u8, u8> = BTreeMap::new();
    m.insert(1, 10);
    let mut other: BTreeMap<u8, u8> = BTreeMap::new();
    other.insert(5, 50);
    other.insert(6, 60);
    let bytes = serialize(&other);
    let mut slice: &[u8] = &bytes;
    let mut vis = visitor();
    let mut ty = MutationType::Splice(&mut slice);
    m.__autarkie_mutate(&mut ty, &mut vis, VecDeque::new());
    assert_eq!(m, other);
}

#[test]
fn map_generate_replace_empties_and_records() {
    let mut m: BTreeMap<u8, u8> = BTreeMap::new();
    m.insert(1, 10);
    let mut vis = visitor();
    let mut ty = MutationType::GenerateReplace(0);
    m.__autarkie_mutate(&mut ty, &mut vis, VecDeque::new());
    assert!(m.is_empty());
    let recorded = vis.collected_serialized();
    assert_eq!(recorded.len(), 1);
    assert_eq!(recorded[0].0, vec![0u8; 8]);
}

#[test]
fn slice_generate_replace_holds_a_generated_vector() {
    let mut c: Cow<'static, [u16]> = Cow::Borrowed(&[1, 2, 3]);
    let mut vis = visitor();
    let mut ty = MutationType::GenerateReplace(0);
    c.__autarkie_mutate(&mut ty, &mut vis, VecDeque::new());
    let mut fresh = visitor();
    let mut depth = 0;
    let expected = Vec::<u16>::__autarkie_generate(&mut fresh, &mut depth, 0, None).unwrap();
    assert!(matches!(c, Cow::Owned(_)));
    assert_eq!(&*c, expected.as_slice());
    let recorded = vis.collected_serialized();
    assert_eq!(recorded.len(), expected.len());
    for (r, item) in recorded.iter().zip(expected.iter()) {
        assert_eq!(r.0, serialize(item));
    }
}

#[test]
fn array_and_tuple_generate_replace_hold_generated_values() {
    let mut a: [u32; 2] = [0, 0];
    let mut vis = visitor();
    let mut ty = MutationType::GenerateReplace(0);
    a.__autarkie_mutate(&mut ty, &mut vis, VecDeque::new());
    let mut fresh = visitor();
    let mut depth = 0;
    let expected = <[u32; 2]>::__autarkie_generate(&mut fresh, &mut depth, 0, None).unwrap();
    assert_eq!(a, expected);

    let mut t: (u8, i16) = (0, 0);
    let mut vis = visitor();
    let mut ty = MutationType::GenerateReplace(0);
    t.__autarkie_mutate(&mut ty, &mut vis, VecDeque::new());
    let mut fresh = visitor();
    let expected = <(u8, i16)>::__autarkie_generate(&mut fresh, &mut depth, 0, None).unwrap();
    assert_eq!(t, expected);
    assert_eq!(vis.collected_serialized().last().unwrap().0, serialize(&expected));

    let mut c: Cow<'static, u64> = Cow::Owned(0);
    let mut vis = visitor();
    let mut ty = MutationType::GenerateReplace(0);
    c.__autarkie_mutate(&mut ty, &mut vis, VecDeque::new());
    let mut fresh = visitor();
    let expected = u64::__autarkie_generate(&mut fresh, &mut depth, 0, None).unwrap();
    assert_eq!(*c, expected);
}
