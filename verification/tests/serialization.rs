use swanky::block::U8x16;
use swanky::serialization::{
    ByteElementDeserializer, ByteElementSerializer, CanonicalSerialize, ReadError,
    SequenceDeserializer, SequenceSerializer,
};

#[test]
fn byte_element_sequence_serializer() {
    let mut v = vec![];
    let mut bes = ByteElementSerializer::<()>::new(&mut v);
    bes.write(&mut v, ());
    bes.finish(&mut v);
    assert!(v.is_empty());
    assert_eq!(ByteElementSerializer::<()>::serialized_size(12345), 0);
}

#[test]
fn byte_element_sequence_deserializer() {
    let v: &[u8] = &[];
    let mut pos = 0;
    let mut bes = ByteElementDeserializer::<()>::new();
    let res = bes.read(v, &mut pos);
    assert!(res.is_ok());
    assert_eq!(pos, 0);
}

#[test]
fn values_round_trip_through_a_sequence() {
    let mut v = vec![];
    let mut ser = ByteElementSerializer::<u64>::new(&mut v);
    ser.write(&mut v, 0x0102_0304_0506_0708);
    ser.write(&mut v, u64::MAX);
    ser.finish(&mut v);
    assert_eq!(v.len(), ByteElementSerializer::<u64>::serialized_size(2));
    assert_eq!(&v[..8], &[8, 7, 6, 5, 4, 3, 2, 1]);
    let mut de = ByteElementDeserializer::<u64>::new();
    let mut pos = 0;
    assert_eq!(de.read(&v, &mut pos), Ok(0x0102_0304_0506_0708));
    assert_eq!(de.read(&v, &mut pos), Ok(u64::MAX));
    assert_eq!(pos, 16);
    assert_eq!(de.read(&v, &mut pos), Err(ReadError::UnexpectedEof));
    assert_eq!(pos, 16);
}

#[test]
fn canonical_representations() {
    assert_eq!(0xAABB_CCDDu32.to_bytes(), vec![0xDD, 0xCC, 0xBB, 0xAA]);
    assert_eq!(u32::from_bytes(&[0xDD, 0xCC, 0xBB, 0xAA]).ok(), Some(0xAABB_CCDD));
    assert_eq!(7u8.to_bytes(), vec![7]);
    assert_eq!(<u8 as CanonicalSerialize>::byte_len(), 1);
    assert_eq!(<u64 as CanonicalSerialize>::byte_len(), 8);
    assert_eq!(<() as CanonicalSerialize>::byte_len(), 0);
    let block: U8x16 = [4u8; 16];
    assert_eq!(block.to_bytes(), vec![4u8; 16]);
    assert_eq!(<U8x16 as CanonicalSerialize>::from_bytes(&[4u8; 16]).ok(), Some(block));
}

#[test]
fn short_input_reads_nothing() {
    let mut de = ByteElementDeserializer::<u32>::new();
    let mut pos = 1;
    assert_eq!(de.read(&[1, 2, 3, 4], &mut pos), Err(ReadError::UnexpectedEof));
    // What remained is consumed, as reading from a byte slice does.
    assert_eq!(pos, 4);
    let mut pos = 9;
    assert_eq!(de.read(&[1, 2, 3, 4], &mut pos), Err(ReadError::UnexpectedEof));
    assert_eq!(pos, 9);
}
