use num::Integer;
use rust_lab::byte_stream::{Mock, Op};
use rust_lab::framing::{frame_body_len, frame_message};
use rust_lab::intrusive::Object;
use rust_lab::lifetimes::foo;
use rust_lab::list_hash::{list_hash_array_bytes, list_hash_stream_chunks, HASH_PAD, LIST_TAG};
use rust_lab::procs::say_hello;
use rust_lab::proto::ProtobufConvert;
use rust_lab::proto::db::{MapProof, OptionalEntry};
use rust_lab::queue::FixedQueue;
use rust_lab::refderef::Foo;
use rust_lab::timer::div_ceil;
use rust_lab::typemap::{AnotherData, BinaryValue, SomeData};

#[test]
fn test_lifetimes() {
    println!("foo {:?}", foo(1));
    assert_eq!(foo(1), 1);
}

#[test]
fn deref() {
    let foo = Foo { a: String::new(), s: String::from("string") };

    let val = foo.as_str();
    assert_eq!(val, "string");
}

#[test]
fn experimental_proc_macro() {
    let code = say_hello("");
    println!("{}", code);
    assert_eq!(code, "println!(\"Hello, world!\")");
}

#[test]
fn concat_idents() {
    fn foobar() -> u32 {
        23
    }

    let f = foobar;
    println!("{}", f());
}

#[test]
fn iter_from_fn() {
    let mut count = -1;
    let iter = std::iter::from_fn(move || {
        count += 1;
        if count > 10 {
            None
        } else {
            Some(count)
        }
    });

    for item in iter {
        println!("{:?}", item);
    }
}

#[test]
fn match_slice() {
    let slice = [0_u8; 0];

    match slice[..] {
        [] => println!("empty slice"),
        [x] => println!("{:?}", x),
        _ => println!("unknown thing"),
    }
}

#[test]
fn foo_macros() {
    println!("mode X: {}", 2 + 3);
}

fn print_result(a: usize, b: usize) {
    println!("{}/{} = {}, ceil = {}", a, b, a as f32 / b as f32, (a as f32 / b as f32).ceil());
    println!("{}/{}.div_floor() =  {}", a, b, Integer::div_floor(&a, &b));
    println!("{}/{}.div_ceil() = {:?}", a, b, div_ceil(a, b));
    println!();
}

#[test]
fn test_timer() {
    print_result(0, 2);
    print_result(5, 5);
    print_result(5, 2);
    print_result(13, 4);
    print_result(100, 10);
    print_result(101, 10);

    assert_eq!(div_ceil(0, 2), 0);
    assert_eq!(div_ceil(5, 5), 1);
    assert_eq!(div_ceil(5, 2), 3);
    assert_eq!(div_ceil(13, 4), 4);
    assert_eq!(div_ceil(100, 10), 10);
    assert_eq!(div_ceil(101, 10), 11);
    assert_eq!(div_ceil(usize::MAX, 2), usize::MAX / 2 + 1);
}

#[test]
fn framed_message_carries_its_length() {
    let buf = [7u8, 8, 9, 10];
    let message = frame_message(&buf, 3);
    assert_eq!(message, vec![3, 0, 0, 0, 7, 8, 9]);
    assert_eq!(frame_body_len(&message[0..4]), 3);
    assert_eq!(&message[4..4 + frame_body_len(&message[0..4])], &buf[0..3]);
}

#[test]
fn long_body_length_is_truncated_by_the_reader() {
    let buf = vec![1u8; 300];
    let message = frame_message(&buf, 300);
    assert_eq!(&message[0..4], &[44, 1, 0, 0]);
    assert_eq!(frame_body_len(&message[0..4]), 44);
}

#[test]
fn list_hash_forms_hash_the_same_bytes() {
    let root = [5u8; 32];
    let padding = vec![1u8; HASH_PAD];
    let array = list_hash_array_bytes(0x0102_0304_0506_0708, &root, &padding);
    let stream: Vec<u8> = list_hash_stream_chunks(0x0102_0304_0506_0708, &root, &padding).concat();
    assert_eq!(array.len(), 1000);
    assert_eq!(array, stream);
    assert_eq!(&array[0..9], &[LIST_TAG, 8, 7, 6, 5, 4, 3, 2, 1]);
    assert_eq!(&array[9..41], &root[..]);
}

#[test]
fn binary_values_roundtrip() {
    let some = SomeData("data".to_owned());
    let bytes = some.to_bytes();
    assert_eq!(bytes, b"data".to_vec());
    assert_eq!(SomeData::from_bytes(bytes), Ok(some));

    let another = AnotherData("another_data \u{e9}".to_owned());
    assert_eq!(AnotherData::from_bytes(another.to_bytes()), Ok(another));

    assert_eq!(SomeData::from_bytes(vec![0xff, 0xfe]), Err(()));
}

#[test]
fn op_from_bytes() {
    let from_slice: Op = Op::from(&[1u8, 2, 3][..]);
    assert!(matches!(from_slice, Op::Data(ref v) if v == &vec![1, 2, 3]));
    let from_vec: Op = Op::from(vec![4u8]);
    assert!(matches!(from_vec, Op::Data(ref v) if v == &vec![4]));
}

#[test]
fn mock_read_consumes_one_call() {
    let mut mock = Mock { calls: FixedQueue::new(4) };
    mock.calls.enqueue(Ok(Op::Flush));
    mock.calls.enqueue(Ok(Op::Data(vec![1])));
    let mut dst = [3u8; 2];
    assert_eq!(mock.read(&mut dst), 0);
    assert_eq!(dst, [3, 3]);
    let mut left = Ok(Op::Flush);
    assert!(mock.calls.dequeue(&mut left) == rust_lab::queue::ReturnCode::Done);
    assert!(matches!(left, Ok(Op::Data(ref v)) if v == &vec![1]));
    assert_eq!(mock.write(&[1, 2]), 0);
}

#[test]
fn object_update() {
    let mut object = Object::from(10);
    object.update(20);
    assert_eq!(object.val, 20);
}

#[test]
fn map_proof_entries() {
    let proof = MapProof {
        entries: vec![OptionalEntry { value: 1 }, OptionalEntry { value: 2 }],
    };
    assert_eq!(proof.entries(), &[OptionalEntry { value: 1 }, OptionalEntry { value: 2 }]);
}

#[test]
fn protobuf_wrappers_roundtrip() {
    let pb = 42i32.to_pb();
    assert_eq!(pb.get_value(), 42);
    assert_eq!(i32::from_pb(pb), Ok(42));

    let text = "City 17".to_string();
    let pb = text.to_pb();
    assert_eq!(pb.get_value(), "City 17");
    assert_eq!(String::from_pb(pb), Ok(text));
}

#[test]
fn copy_prefix_fills_destination() {
    let data = [1u8, 2, 3, 4];
    let mut dst = [0u8; 3];
    assert_eq!(rust_lab::framing::copy_prefix(&data, &mut dst), 3);
    assert_eq!(dst, [1, 2, 3]);
}
