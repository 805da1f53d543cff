use r1cs_core::index::{Index, SerializationError, Variable, INDEX_SERIALIZED_SIZE};

#[test]
fn serialize_index() {
    serialize_index_test(true);
    serialize_index_test(false);
}

fn serialize_index_test(input: bool) {
    let idx = if input { Index::Input(32) } else { Index::Aux(32) };

    let mut v = vec![];
    idx.serialize(&mut v);
    let idx2 = Index::deserialize(&v[..]).unwrap();
    assert_eq!(idx, idx2);
}

#[test]
fn round_trip_keeps_partition() {
    let a = Index::Input(32);
    let b = Index::Aux(32);
    let mut buf_a = vec![];
    let mut buf_b = vec![];
    a.serialize(&mut buf_a);
    b.serialize(&mut buf_b);
    let a2 = Index::deserialize(&buf_a[..]).unwrap();
    let b2 = Index::deserialize(&buf_b[..]).unwrap();
    assert_eq!(a, a2);
    assert_eq!(b, b2);
    assert_ne!(a2, b2);
}

#[test]
fn serialized_layout() {
    let idx = Index::Input(0x0102_0304_0506_0708);
    assert_eq!(idx.serialized_size(), INDEX_SERIALIZED_SIZE);
    let mut buf = vec![];
    idx.serialize(&mut buf);
    assert_eq!(buf.len(), 9);
    assert_eq!(buf[0], 1);
    assert_eq!(buf[1], 0x08);
    assert_eq!(buf[8], 0x01);
    let mut buf2 = vec![];
    Index::Aux(0).serialize(&mut buf2);
    assert_eq!(buf2, vec![0, 0, 0, 0, 0, 0, 0, 0, 0]);
}

#[test]
fn deserialize_short_input_is_rejected() {
    let buf = vec![1u8, 0, 0, 0];
    assert_eq!(Index::deserialize(&buf[..]), Err(SerializationError::UnexpectedEnd));
    assert_eq!(Index::deserialize(&[][..]), Err(SerializationError::UnexpectedEnd));
}

#[test]
fn deserialize_bad_tag_is_rejected() {
    let buf = vec![2u8, 0, 0, 0, 0, 0, 0, 0, 0];
    assert_eq!(Index::deserialize(&buf[..]), Err(SerializationError::InvalidData));
}

#[test]
fn input_indices_come_before_aux_indices() {
    assert!(Index::Input(5) < Index::Aux(0));
    assert!(Index::Input(3) < Index::Input(5));
    assert!(Index::Aux(3) < Index::Aux(5));
    assert!(!(Index::Aux(0) < Index::Input(5)));
    assert!(!(Index::Input(5) < Index::Input(5)));
}

#[test]
fn variable_order_follows_index_order() {
    let a = Variable::new_unchecked(Index::Input(7));
    let b = Variable::new_unchecked(Index::Aux(0));
    assert!(a < b);
    assert_eq!(a.get_unchecked(), Index::Input(7));
    assert_eq!(b.get_unchecked(), Index::Aux(0));
    assert_eq!(a, Variable::new_unchecked(Index::Input(7)));
}
