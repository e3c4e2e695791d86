use std::borrow::Cow;
use std::collections::BTreeMap;

use autarkie::codec::{decode_string, decode_u16, decode_u64, encode_char, serialize_vec_len};
use autarkie::node::{deserialize, maybe_deserialize, serialize, Node};

fn zeros(n: usize) -> Vec<u8> {
    vec![0u8; n]
}

#[test]
fn vec_len_is_eight_little_endian_bytes() {
    assert_eq!(serialize_vec_len(3), vec![3, 0, 0, 0, 0, 0, 0, 0]);
    assert_eq!(serialize_vec_len(0x0102), vec![2, 1, 0, 0, 0, 0, 0, 0]);
    let bytes = serialize_vec_len(77);
    assert_eq!(decode_u64(&bytes), Some(77));
}

#[test]
fn integers_encode_little_endian() {
    assert_eq!(serialize(&5u32), vec![5, 0, 0, 0]);
    assert_eq!(serialize(&-2i16), vec![0xfe, 0xff]);
    assert_eq!(serialize(&0x0102u16), vec![2, 1]);
    assert_eq!(serialize(&5usize), vec![5, 0, 0, 0, 0, 0, 0, 0]);
    assert_eq!(serialize(&1u128).len(), 16);
    assert_eq!(serialize(&-1i64), vec![0xff; 8]);
    assert_eq!(decode_u16(&[2, 1, 9]), Some(0x0102));
    assert_eq!(decode_u16(&[2]), None);
}

#[test]
fn integers_read_back_what_was_written() {
    for x in [0u64, 1, 255, 256, u64::MAX] {
        let bytes = serialize(&x);
        let mut slice: &[u8] = &bytes;
        assert_eq!(deserialize::<u64>(&mut slice), x);
    }
    for x in [i32::MIN, -1, 0, 1, i32::MAX] {
        let bytes = serialize(&x);
        let mut slice: &[u8] = &bytes;
        assert_eq!(maybe_deserialize::<i32>(&mut slice), Some(x));
    }
}

#[test]
fn too_short_input_reads_nothing() {
    let mut slice: &[u8] = &[1, 2, 3];
    assert_eq!(maybe_deserialize::<u32>(&mut slice), None);
    assert_eq!(slice, &[1, 2, 3]);
    let mut empty: &[u8] = &[];
    assert_eq!(maybe_deserialize::<bool>(&mut empty), None);
}

#[test]
fn bool_and_char_encodings() {
    assert_eq!(serialize(&true), vec![1]);
    assert_eq!(serialize(&false), vec![0]);
    let mut bad: &[u8] = &[2];
    assert_eq!(maybe_deserialize::<bool>(&mut bad), None);
    assert_eq!(serialize(&'a'), vec![0x61]);
    assert_eq!(encode_char('\u{e9}'), vec![0xc3, 0xa9]);
    let bytes = serialize(&'\u{1F600}');
    let mut slice: &[u8] = &bytes;
    assert_eq!(maybe_deserialize::<char>(&mut slice), Some('\u{1F600}'));
}

#[test]
fn strings_carry_their_byte_length() {
    let s = "ab".to_string();
    let mut expected = vec![2, 0, 0, 0, 0, 0, 0, 0];
    expected.extend_from_slice(b"ab");
    assert_eq!(serialize(&s), expected);
    assert_eq!(decode_string(&expected), Some(("ab".to_string(), 10)));
    let mut invalid = vec![1, 0, 0, 0, 0, 0, 0, 0];
    invalid.push(0xff);
    assert_eq!(decode_string(&invalid), None);
    let boxed: Box<str> = "ab".into();
    assert_eq!(serialize(&boxed), expected);
    let mut slice: &[u8] = &expected;
    assert_eq!(&*deserialize::<Box<str>>(&mut slice), "ab");
}

#[test]
fn sequences_announce_their_length() {
    let v: Vec<u8> = vec![1, 2];
    let mut expected = vec![2, 0, 0, 0, 0, 0, 0, 0];
    expected.extend_from_slice(&[1, 2]);
    assert_eq!(serialize(&v), expected);
    let mut slice: &[u8] = &expected;
    assert_eq!(deserialize::<Vec<u8>>(&mut slice), vec![1, 2]);
    let words: Vec<u16> = vec![0x0102];
    assert_eq!(serialize(&words), vec![1, 0, 0, 0, 0, 0, 0, 0, 2, 1]);
    let mut short: &[u8] = &[2, 0, 0, 0, 0, 0, 0, 0, 1];
    assert_eq!(maybe_deserialize::<Vec<u8>>(&mut short), None);
}

#[test]
fn slices_encode_as_vectors() {
    let borrowed: Cow<'static, [u8]> = Cow::Borrowed(&[3, 4]);
    let owned: Cow<'static, [u8]> = Cow::Owned(vec![3, 4]);
    assert_eq!(serialize(&borrowed), serialize(&vec![3u8, 4]));
    assert_eq!(serialize(&owned), serialize(&vec![3u8, 4]));
    let bytes = serialize(&borrowed);
    let mut slice: &[u8] = &bytes;
    assert_eq!(&*deserialize::<Cow<'static, [u8]>>(&mut slice), &[3, 4]);
    let single: Cow<'static, u16> = Cow::Owned(0x0304);
    assert_eq!(serialize(&single), vec![4, 3]);
}

#[test]
fn options_results_and_tuples() {
    assert_eq!(serialize(&Some(7u8)), vec![1, 7]);
    assert_eq!(serialize(&None::<u8>), vec![0]);
    let ok: Result<u8, u32> = Ok(1);
    let err: Result<u8, u32> = Err(2);
    assert_eq!(serialize(&ok), vec![0, 0, 0, 0, 1]);
    assert_eq!(serialize(&err), vec![1, 0, 0, 0, 2, 0, 0, 0]);
    assert_eq!(serialize(&(1u8, 2u16)), vec![1, 2, 0]);
    assert_eq!(serialize(&()), Vec::<u8>::new());
    assert_eq!(serialize(&Box::new(9u8)), vec![9]);
    let mut slice: &[u8] = &[1, 0, 0, 0, 5, 0, 0, 0];
    assert_eq!(deserialize::<Result<u8, u32>>(&mut slice), Err(5));
    let mut bad_tag: &[u8] = &[2, 0, 0, 0, 5];
    assert_eq!(maybe_deserialize::<Result<u8, u32>>(&mut bad_tag), None);
    let mut slice: &[u8] = &[1, 2, 0, 3];
    assert_eq!(deserialize::<(u8, u16, u8)>(&mut slice), (1, 2, 3));
}

#[test]
fn maps_encode_entries_in_key_order() {
    let mut m: BTreeMap<u8, u8> = BTreeMap::new();
    m.insert(5, 50);
    m.insert(1, 10);
    let mut expected = vec![2, 0, 0, 0, 0, 0, 0, 0];
    expected.extend_from_slice(&[1, 10, 5, 50]);
    assert_eq!(serialize(&m), expected);
    let mut slice: &[u8] = &expected;
    assert_eq!(maybe_deserialize::<BTreeMap<u8, u8>>(&mut slice), Some(m));
    let mut short: &[u8] = &zeros(7);
    assert_eq!(maybe_deserialize::<BTreeMap<u8, u8>>(&mut short), None);
}

#[test]
fn standard_paths_name_the_types() {
    assert_eq!(u8::__autarkie_id_name(), "u8");
    assert_eq!(Vec::<u8>::__autarkie_id_name(), "alloc::vec::Vec<u8>");
    assert_eq!(Option::<String>::__autarkie_id_name(), "core::option::Option<alloc::string::String>");
    assert_eq!(
        Result::<u8, usize>::__autarkie_id_name(),
        "core::result::Result<u8, usize>"
    );
    assert_eq!(<(u8, bool)>::__autarkie_id_name(), "(u8, bool)");
    assert_eq!(Box::<u8>::__autarkie_id_name(), "alloc::boxed::Box<u8>");
    assert_eq!(
        BTreeMap::<u8, u16>::__autarkie_id_name(),
        "alloc::collections::btree::map::BTreeMap<u8, u16>"
    );
    assert_eq!(Cow::<'static, [u8]>::__autarkie_id_name(), "alloc::borrow::Cow<[u8]>");
    assert_eq!(<Box<str>>::__autarkie_id_name(), "alloc::boxed::Box<str>");
}

#[test]
fn type_ids_tell_types_apart() {
    assert_eq!(u8::__autarkie_id(), u8::__autarkie_id());
    assert_ne!(u8::__autarkie_id(), u16::__autarkie_id());
    assert_eq!(Vec::<u8>::inner_id(), u8::__autarkie_id());
    assert_eq!(u8::inner_id(), u8::__autarkie_id());
    let (id, name) = Vec::<u8>::__autarkie_id_tuple();
    assert_eq!(id, Vec::<u8>::__autarkie_id());
    assert_eq!(name, "alloc::vec::Vec<u8>");
}

#[test]
fn arrays_encode_their_items_without_a_length() {
    let a: [u16; 3] = [1, 2, 0x0304];
    assert_eq!(serialize(&a), vec![1, 0, 2, 0, 4, 3]);
    let bytes = serialize(&a);
    let mut slice: &[u8] = &bytes;
    assert_eq!(deserialize::<[u16; 3]>(&mut slice), a);
    let mut short: &[u8] = &[1, 0, 2];
    assert_eq!(maybe_deserialize::<[u16; 2]>(&mut short), None);
    assert_eq!(<[u8; 12]>::__autarkie_id_name(), "[u8; 12]");
    assert_eq!(<[u8; 0]>::__autarkie_id_name(), "[u8; 0]");
    assert_eq!(serialize(&[0u8; 0]), Vec::<u8>::new());
}

#[test]
fn u64_reads_back_as_itself_before_trailing_bytes() {
    let x: u64 = 0x0102_0304_0506_0708;
    let mut bytes = serialize(&x);
    bytes.extend_from_slice(&[9, 9, 9]);
    let mut slice: &[u8] = &bytes;
    let read: u64 = deserialize(&mut slice);
    assert_eq!(read, x);
    let mut slice2: &[u8] = &bytes;
    assert_eq!(maybe_deserialize::<u64>(&mut slice2), Some(x));
}

#[test]
fn maps_write_exactly_their_encoding() {
    let mut m: BTreeMap<u16, u8> = BTreeMap::new();
    m.insert(0x0201, 5);
    m.insert(1, 6);
    let mut expected = serialize_vec_len(2);
    expected.extend_from_slice(&[1, 0, 6, 1, 2, 5]);
    assert_eq!(serialize(&m), expected);
}

#[test]
fn array_names_write_their_length_in_decimal() {
    assert_eq!(<[u8; 3]>::__autarkie_id_name(), "[u8; 3]");
    assert_eq!(<[u16; 10]>::__autarkie_id_name(), "[u16; 10]");
    assert_eq!(<[bool; 0]>::__autarkie_id_name(), "[bool; 0]");
    assert_eq!(<[u8; 107]>::__autarkie_id_name(), "[u8; 107]");
}

#[test]
fn maps_read_back_through_deserialize() {
    let mut m: BTreeMap<u8, u16> = BTreeMap::new();
    m.insert(4, 400);
    m.insert(2, 200);
    let bytes = serialize(&m);
    let mut slice: &[u8] = &bytes;
    let read: BTreeMap<u8, u16> = deserialize(&mut slice);
    assert_eq!(read, m);
}

#[test]
fn deserialize_returns_what_maybe_deserialize_returns() {
    let mut bytes = serialize(&(7u16, vec![String::from("ab")]));
    bytes.extend_from_slice(&[9, 9, 9]);
    let mut first: &[u8] = &bytes;
    let mut second: &[u8] = &bytes;
    let maybe = maybe_deserialize::<(u16, Vec<String>)>(&mut first);
    let sure = deserialize::<(u16, Vec<String>)>(&mut second);
    assert_eq!(maybe, Some(sure.clone()));
    assert_eq!(sure, (7u16, vec![String::from("ab")]));
}

#[test]
fn written_values_read_back_before_trailing_bytes() {
    let x: Result<Option<i64>, bool> = Ok(Some(-3));
    let mut bytes = serialize(&x);
    bytes.push(0xff);
    let mut slice: &[u8] = &bytes;
    assert_eq!(maybe_deserialize::<Result<Option<i64>, bool>>(&mut slice), Some(x));
    let y: [isize; 2] = [isize::MIN, 4];
    let mut bytes = serialize(&y);
    bytes.extend_from_slice(&[1, 2]);
    let mut slice: &[u8] = &bytes;
    assert_eq!(deserialize::<[isize; 2]>(&mut slice), y);
}

#[test]
fn vectors_of_any_items_announce_their_length() {
    let v: Vec<String> = vec![String::from("a"), String::from("bcd")];
    let bytes = serialize(&v);
    assert_eq!(&bytes[..8], &[2, 0, 0, 0, 0, 0, 0, 0]);
    let nested: Vec<Vec<u8>> = vec![vec![], vec![1], vec![2, 3]];
    assert_eq!(&serialize(&nested)[..8], &[3, 0, 0, 0, 0, 0, 0, 0]);
}
