use std::collections::BTreeMap;

use autarkie::node::{serialize, GenerateSettings, Node};
use autarkie::visitor::{DepthInfo, NodeType, Visitor};

fn visitor_with(strings: Vec<String>) -> Visitor {
    Visitor::new(42, DepthInfo { generate: 3, iterate: 5 }, strings)
}

#[test]
fn vectors_take_the_requested_length() {
    let mut vis = visitor_with(vec![]);
    let mut depth = 0;
    let v = Vec::<u8>::__autarkie_generate(&mut vis, &mut depth, 0, Some(GenerateSettings::Length(6))).unwrap();
    assert_eq!(v.len(), 6);
    let e = Vec::<u8>::__autarkie_generate(&mut vis, &mut depth, 0, Some(GenerateSettings::Length(0))).unwrap();
    assert!(e.is_empty());
}

#[test]
fn vectors_stay_below_the_iteration_depth() {
    let mut vis = visitor_with(vec![]);
    for _ in 0..20 {
        let mut depth = 0;
        let v = Vec::<u16>::__autarkie_generate(&mut vis, &mut depth, 0, None).unwrap();
        assert!(v.len() < 5);
    }
}

#[test]
fn vectors_within_a_length_range() {
    let mut vis = visitor_with(vec![]);
    for _ in 0..20 {
        let mut depth = 0;
        let v = Vec::<u8>::__autarkie_generate(&mut vis, &mut depth, 0, Some(GenerateSettings::Range(2..=4))).unwrap();
        assert!(2 <= v.len() && v.len() <= 4);
    }
}

#[test]
fn numbers_within_a_range() {
    let mut vis = visitor_with(vec![]);
    for _ in 0..50 {
        let mut depth = 0;
        let x = u32::__autarkie_generate(&mut vis, &mut depth, 0, Some(GenerateSettings::Range(10..=20))).unwrap();
        assert!(10 <= x && x < 20);
        let y = i8::__autarkie_generate(&mut vis, &mut depth, 0, Some(GenerateSettings::Range(3..=7))).unwrap();
        assert!(3 <= y && y < 7);
    }
}

#[test]
fn strings_come_from_the_pool() {
    let mut vis = visitor_with(vec!["alpha".to_string(), "beta".to_string()]);
    for _ in 0..10 {
        let mut depth = 0;
        let s = String::__autarkie_generate(&mut vis, &mut depth, 0, None).unwrap();
        assert!(s == "alpha" || s == "beta");
    }
    let mut empty = visitor_with(vec![]);
    let mut depth = 0;
    assert_eq!(String::__autarkie_generate(&mut empty, &mut depth, 0, None).unwrap(), "");
}

#[test]
fn maps_are_generated_empty() {
    let mut vis = visitor_with(vec![]);
    let mut depth = 0;
    let m = BTreeMap::<u8, u8>::__autarkie_generate(&mut vis, &mut depth, 0, None).unwrap();
    assert!(m.is_empty());
}

#[test]
fn chars_are_valid_and_units_exist() {
    let mut vis = visitor_with(vec![]);
    for _ in 0..20 {
        let mut depth = 0;
        let c = char::__autarkie_generate(&mut vis, &mut depth, 0, None).unwrap();
        assert!(char::from_u32(c as u32).is_some());
    }
    let mut depth = 0;
    assert_eq!(<()>::__autarkie_generate(&mut vis, &mut depth, 0, None), Some(()));
}

#[test]
fn random_ranges_and_bytes() {
    let mut vis = visitor_with(vec![]);
    for _ in 0..50 {
        let r = vis.random_range(3, 9);
        assert!(3 <= r && r < 9);
    }
    assert_eq!(vis.random_range(4, 4), 4);
    assert_eq!(vis.random_range(7, 2), 7);
    assert_eq!(vis.generate_bytes(13).len(), 13);
    assert_eq!(vis.iterate_depth(), 5);
    assert_eq!(vis.generate_depth(), 3);
}

#[test]
fn comparisons_record_the_other_operand() {
    let mut vis = visitor_with(vec![]);
    5u32.__autarkie_cmps(&mut vis, 0, (5, 7));
    assert_eq!(vis.collected_operands(), &vec![serialize(&7u32)]);
    5u32.__autarkie_cmps(&mut vis, 0, (9, 5));
    assert_eq!(vis.collected_operands()[1], serialize(&9u32));
    5u32.__autarkie_cmps(&mut vis, 0, (1, 2));
    assert_eq!(vis.collected_operands().len(), 2);
    (-1i8).__autarkie_cmps(&mut vis, 0, (u64::MAX, 3));
    assert_eq!(vis.collected_operands()[2], vec![3]);
}

#[test]
fn comparisons_in_a_vector_enter_each_element() {
    let mut vis = visitor_with(vec![]);
    let v: Vec<u32> = vec![5, 6];
    v.__autarkie_cmps(&mut vis, 0, (6, 9));
    assert_eq!(vis.collected_operands(), &vec![serialize(&9u32)]);
    let fields = vis.visited_fields();
    assert_eq!(fields.len(), 2);
    assert_eq!(fields[1], vec![((1, NodeType::NonRecursive), u32::__autarkie_id())]);
}

#[test]
fn fields_of_a_vector_are_listed_in_order() {
    let mut vis = visitor_with(vec![]);
    let v: Vec<Vec<u8>> = vec![vec![1, 2], vec![]];
    v.__autarkie_fields(&mut vis, 0);
    let fields = vis.visited_fields();
    assert_eq!(fields.len(), 4);
    assert_eq!(fields[0], vec![((0, NodeType::Iterable(false, 2, u8::__autarkie_id())), Vec::<u8>::__autarkie_id())]);
    assert_eq!(fields[1][1], ((0, NodeType::NonRecursive), u8::__autarkie_id()));
    assert_eq!(fields[3], vec![((1, NodeType::Iterable(false, 0, u8::__autarkie_id())), Vec::<u8>::__autarkie_id())]);
}

#[test]
fn serialized_records_each_element_encoding() {
    let mut vis = visitor_with(vec![]);
    let v: Vec<u16> = vec![1, 2];
    v.__autarkie_serialized(&mut vis);
    let recorded = vis.collected_serialized();
    assert_eq!(recorded.len(), 2);
    assert_eq!(recorded[0], (vec![1, 0], u16::__autarkie_id()));
    assert_eq!(recorded[1], (vec![2, 0], u16::__autarkie_id()));
}

#[test]
fn registration_leaves_the_stack_balanced() {
    let mut vis = visitor_with(vec![]);
    Option::<Vec<u8>>::__autarkie_register(&mut vis, None, 0);
    assert!(vis.registering().is_empty());
    let edges = vis.registrations();
    assert_eq!(edges.len(), 3);
    assert_eq!(edges[0], (None, Option::<Vec<u8>>::__autarkie_id(), 0));
    assert_eq!(edges[1], (Some(Option::<Vec<u8>>::__autarkie_id()), u8::__autarkie_id(), 0));
    assert_eq!(edges[2].2, 1);
    assert_eq!(vis.type_names()[1].1, "u8");
}

#[test]
fn recursive_registration_stops_at_the_cycle() {
    let mut vis = visitor_with(vec![]);
    vis.register_ty(None, u8::__autarkie_id_tuple(), 0);
    assert!(vis.is_recursive(u8::__autarkie_id()));
    Box::<u8>::__autarkie_register(&mut vis, None, 4);
    assert_eq!(vis.registering(), &vec![u8::__autarkie_id()]);
    assert_eq!(vis.registrations().len(), 2);
    assert_eq!(vis.registrations()[1], (None, u8::__autarkie_id(), 4));
    vis.pop_ty();
    assert!(!vis.is_recursive(u8::__autarkie_id()));
}

#[test]
fn arrays_are_generated_whole() {
    let mut vis = visitor_with(vec![]);
    let mut depth = 0;
    let a = <[u8; 4]>::__autarkie_generate(&mut vis, &mut depth, 0, None).unwrap();
    assert_eq!(a.len(), 4);
    let t = <(u8, bool, [u16; 2])>::__autarkie_generate(&mut vis, &mut depth, 0, None);
    assert!(t.is_some());
    assert_eq!(<[u8; 4]>::__autarkie_id(), <[u8; 4]>::inner_id());
}

#[test]
fn result_registers_both_sides_under_itself() {
    let mut vis = visitor_with(vec![]);
    Result::<u8, u16>::__autarkie_register(&mut vis, None, 2);
    assert!(vis.registering().is_empty());
    let me = Result::<u8, u16>::__autarkie_id();
    let edges = vis.registrations();
    assert_eq!(edges.len(), 3);
    assert_eq!(edges[0], (None, me, 2));
    assert_eq!(edges[1], (Some(me), u8::__autarkie_id(), 0));
    assert_eq!(edges[2], (Some(me), u16::__autarkie_id(), 1));
    assert_eq!(vis.type_names()[0].1, "core::result::Result<u8, u16>");
    assert_eq!(vis.type_names()[2].1, "u16");
}

#[test]
fn comparisons_record_the_same_operands_either_way_round() {
    let v: Vec<u64> = vec![3, 7, 3, 9];
    let mut one = visitor_with(vec![]);
    v.__autarkie_cmps(&mut one, 0, (3, 7));
    let mut other = visitor_with(vec![]);
    v.__autarkie_cmps(&mut other, 0, (7, 3));
    assert_eq!(one.collected_operands(), other.collected_operands());
    assert_eq!(
        one.collected_operands(),
        &vec![serialize(&7u64), serialize(&3u64), serialize(&7u64)]
    );
}

#[test]
fn vector_length_is_the_first_draw() {
    for seed_strings in [vec![], vec!["a".to_string()]] {
        let mut a = visitor_with(seed_strings.clone());
        let mut b = visitor_with(seed_strings);
        let mut depth = 0;
        let v = Vec::<u8>::__autarkie_generate(&mut a, &mut depth, 0, None).unwrap();
        let d = b.iterate_depth();
        assert_eq!(v.len(), b.random_range(0, d));
        assert_eq!(depth, 0);
    }
}

#[test]
fn option_generation_follows_the_coin_then_the_inner_type() {
    for seed in 0..20u64 {
        let mut a = Visitor::new(seed, DepthInfo { generate: 3, iterate: 5 }, vec![]);
        let mut b = Visitor::new(seed, DepthInfo { generate: 3, iterate: 5 }, vec![]);
        let mut depth = 0;
        let got = Option::<u16>::__autarkie_generate(&mut a, &mut depth, 0, None).unwrap();
        let expected = if b.coinflip() {
            Some(u16::__autarkie_generate(&mut b, &mut depth, 0, None).unwrap())
        } else {
            None
        };
        assert_eq!(got, expected);
    }
}

#[test]
fn vector_elements_are_generated_in_turn() {
    let mut a = visitor_with(vec![]);
    let mut b = visitor_with(vec![]);
    let mut depth = 0;
    let v = Vec::<u32>::__autarkie_generate(&mut a, &mut depth, 0, Some(GenerateSettings::Length(3))).unwrap();
    let mut expected = Vec::new();
    for _ in 0..3 {
        expected.push(u32::__autarkie_generate(&mut b, &mut depth, 0, None).unwrap());
    }
    assert_eq!(v, expected);
}

#[test]
fn result_fields_enter_one_field_around_the_value() {
    let r: Result<u8, u16> = Err(5);
    let mut vis = visitor_with(vec![]);
    r.__autarkie_fields(&mut vis, 7);
    let fields = vis.visited_fields();
    assert_eq!(fields.len(), 1);
    assert_eq!(fields[0].len(), 1);
    assert_eq!(fields[0][0], ((7, NodeType::NonRecursive), Result::<u8, u16>::__autarkie_id()));
}

#[test]
fn signed_numbers_in_a_range_take_the_remainder_with_the_sign_of_the_draw() {
    for seed in 0..40u64 {
        let mut a = Visitor::new(seed, DepthInfo { generate: 3, iterate: 5 }, vec![]);
        let mut b = Visitor::new(seed, DepthInfo { generate: 3, iterate: 5 }, vec![]);
        let mut depth = 0;
        let x = i8::__autarkie_generate(&mut a, &mut depth, 0, Some(GenerateSettings::Range(3..=7))).unwrap();
        let raw = b.generate_bytes(1)[0] as i8;
        let rem = raw % 7;
        assert_eq!(x, if rem < 3 { 3 } else { rem });

        let y = i8::__autarkie_generate(&mut a, &mut depth, 0, Some(GenerateSettings::Range(0..=250))).unwrap();
        let raw = b.generate_bytes(1)[0] as i8;
        let rem = raw % -6;
        assert_eq!(y, if rem < 0 { 0 } else { rem });
    }
}

#[test]
fn signed_range_remainder_of_a_negative_draw() {
    let mut depth = 0;
    let mut found_negative = false;
    for seed in 0..200u64 {
        let mut a = Visitor::new(seed, DepthInfo { generate: 3, iterate: 5 }, vec![]);
        let mut c = Visitor::new(seed, DepthInfo { generate: 3, iterate: 5 }, vec![]);
        let bytes = c.generate_bytes(2);
        let drawn = i16::from_le_bytes([bytes[0], bytes[1]]);
        let x = i16::__autarkie_generate(&mut a, &mut depth, 0, Some(GenerateSettings::Range(0..=100))).unwrap();
        if drawn < 0 {
            found_negative = true;
            assert_eq!(drawn % 100, -((-(drawn as i32)) % 100) as i16);
            assert_eq!(x, 0);
        } else {
            assert_eq!(x, drawn % 100);
        }
    }
    assert!(found_negative);
}

#[test]
fn borrowed_or_owned_slices_generate_as_vectors() {
    for seed in 0..20u64 {
        let mut a = Visitor::new(seed, DepthInfo { generate: 3, iterate: 5 }, vec![]);
        let mut b = Visitor::new(seed, DepthInfo { generate: 3, iterate: 5 }, vec![]);
        let mut depth = 0;
        let c = std::borrow::Cow::<'static, [u32]>::__autarkie_generate(&mut a, &mut depth, 0, None).unwrap();
        let v = Vec::<u32>::__autarkie_generate(&mut b, &mut depth, 0, None).unwrap();
        assert!(matches!(c, std::borrow::Cow::Owned(_)));
        assert_eq!(&*c, v.as_slice());
        assert_eq!(a.random_range(0, 1000), b.random_range(0, 1000));
    }
}

#[test]
fn option_fields_enter_the_value_with_its_own_shape() {
    let o: Option<Vec<u8>> = Some(vec![4, 5]);
    let mut vis = visitor_with(vec![]);
    o.__autarkie_fields(&mut vis, 3);
    let fields = vis.visited_fields();
    assert_eq!(fields[0], vec![((3, NodeType::Iterable(false, 2, u8::__autarkie_id())), Vec::<u8>::__autarkie_id())]);
}

#[test]
fn array_items_are_entered_with_their_own_shape() {
    let a: [[u8; 2]; 2] = [[1, 2], [3, 4]];
    let mut vis = visitor_with(vec![]);
    a.__autarkie_fields(&mut vis, 0);
    let fields = vis.visited_fields();
    assert_eq!(fields[0], vec![((0, NodeType::Iterable(true, 2, u8::__autarkie_id())), <[u8; 2]>::__autarkie_id())]);
}

#[test]
fn tuple_and_result_fields_are_entered_as_plain_nodes() {
    let t: (Vec<u8>, u8) = (vec![1], 2);
    let mut vis = visitor_with(vec![]);
    t.__autarkie_fields(&mut vis, 0);
    let fields = vis.visited_fields();
    assert_eq!(fields[0], vec![((0, NodeType::NonRecursive), Vec::<u8>::__autarkie_id())]);
    let r: Result<Vec<u8>, u8> = Ok(vec![1, 2]);
    let mut vis = visitor_with(vec![]);
    r.__autarkie_cmps(&mut vis, 4, (1, 9));
    let fields = vis.visited_fields();
    assert_eq!(fields[0], vec![((4, NodeType::NonRecursive), Result::<Vec<u8>, u8>::__autarkie_id())]);
    assert_eq!(vis.collected_operands(), &vec![serialize(&9u8)]);
}

#[test]
fn comparisons_are_symmetric_for_every_number_type() {
    fn both_ways<T: Node>(x: T, a: u64, b: u64) {
        let mut one = visitor_with(vec![]);
        x.__autarkie_cmps(&mut one, 0, (a, b));
        let mut other = visitor_with(vec![]);
        x.__autarkie_cmps(&mut other, 0, (b, a));
        assert_eq!(one.collected_operands(), other.collected_operands());
    }
    both_ways(3u8, 3, 4);
    both_ways(3u16, 4, 3);
    both_ways(3u32, 5, 6);
    both_ways(3u128, 3, 3);
    both_ways(-1i8, u64::MAX, 2);
    both_ways(-2i16, 7, (-2i64) as u64);
    both_ways(5i32, 5, 1);
    both_ways(5i64, 1, 5);
    both_ways(5i128, 5, 9);
    both_ways(8usize, 8, 0);
    both_ways(-8isize, (-8i64) as u64, 0);
}
