use rtmp_codec::utils::{read_u24_be, write_u24_be};

#[test]
fn can_write_u24() {
    let mut bytes = Vec::new();
    write_u24_be(&mut bytes, 16777215);

    // Make sure later writes land after the 3 bytes of the field.
    bytes.push(8);

    assert_eq!(bytes, vec![255, 255, 255, 8]);
}

#[test]
fn can_read_u24() {
    let bytes = vec![100, 200, 255, 8];
    let first_result = read_u24_be(&bytes, 0);
    let second_result = bytes[3]; // the field is exactly 3 bytes long

    assert_eq!(first_result, 6605055);
    assert_eq!(second_result, 8);
}

#[test]
fn u24_write_then_read_round_trips() {
    let mut bytes = Vec::new();
    write_u24_be(&mut bytes, 6605055);

    assert_eq!(read_u24_be(&bytes, 0), 6605055);
}
