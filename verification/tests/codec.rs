use bitarray::codec::DecodeError;
use bitarray::codec::Decoder;
use bitarray::BitArray;

#[test]
fn encode_emits_raw_bytes() {
    let array = BitArray::new([0, 1, 2, 3, 255]);
    assert_eq!(array.encode(), vec![0, 1, 2, 3, 255]);
}

#[test]
fn encode_then_decode_round_trips() {
    let array = BitArray::new([0, 1, 2, 3, 255]);
    let encoded = array.encode();
    let decoded = BitArray::<5>::decode(&encoded).expect("length matches");
    assert_eq!(decoded, array);
}

#[test]
fn decode_rejects_wrong_lengths() {
    let err = BitArray::<5>::decode(&[]).unwrap_err();
    assert_eq!(err, DecodeError::WrongLength { actual: 0, expected: 5 });
    let err = BitArray::<5>::decode(&[1, 2, 3, 4]).unwrap_err();
    assert_eq!(err, DecodeError::WrongLength { actual: 4, expected: 5 });
    let err = BitArray::<5>::decode(&[1, 2, 3, 4, 5, 6]).unwrap_err();
    assert_eq!(err, DecodeError::WrongLength { actual: 6, expected: 5 });
    let err = BitArray::<0>::decode(&[9]).unwrap_err();
    assert_eq!(err, DecodeError::WrongLength { actual: 1, expected: 0 });
}

#[test]
fn decode_accepts_exact_length() {
    let decoded = BitArray::<3>::decode(&[9, 8, 7]).expect("length matches");
    assert_eq!(*decoded.bytes(), [9, 8, 7]);
    let decoded = BitArray::<0>::decode(&[]).expect("length matches");
    assert_eq!(*decoded.bytes(), [0u8; 0]);
}

#[test]
fn decoder_accumulates_exactly_b_bytes() {
    let mut decoder = Decoder::<3>::new();
    decoder.push(10).expect("room left");
    decoder.push(20).expect("room left");
    decoder.push(30).expect("room left");
    let array = decoder.finish().expect("exactly full");
    assert_eq!(*array.bytes(), [10, 20, 30]);
}

#[test]
fn decoder_rejects_excess_byte_immediately() {
    let mut decoder = Decoder::<2>::new();
    decoder.push(1).expect("room left");
    decoder.push(2).expect("room left");
    let err = decoder.push(3).unwrap_err();
    assert_eq!(err, DecodeError::TooManyBytes);
}

#[test]
fn decoder_rejects_short_input_at_finish() {
    let mut decoder = Decoder::<4>::new();
    decoder.push(1).expect("room left");
    decoder.push(2).expect("room left");
    let err = decoder.finish().unwrap_err();
    assert_eq!(err, DecodeError::WrongLength { actual: 2, expected: 4 });
}

#[test]
fn decoder_of_zero_size_finishes_empty() {
    let decoder = Decoder::<0>::new();
    let array = decoder.finish().expect("already full");
    assert_eq!(*array.bytes(), [0u8; 0]);
    let mut decoder = Decoder::<0>::new();
    let err = decoder.push(1).unwrap_err();
    assert_eq!(err, DecodeError::TooManyBytes);
}
