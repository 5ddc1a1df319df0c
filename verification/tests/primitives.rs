use rustcraft::protocol_types::primitives::{VarInt, VarLong};
use rustcraft::protocol_types::traits::WriteProt;


#[test]
fn primitives_varint_0() {
    let mut buf: Vec<u8> = vec![];
    (VarInt { value: 0 }).write(&mut buf);
    assert_eq!(buf[0], 0);
}

#[test]
fn primitives_varint_1() {
    let mut buf: Vec<u8> = vec![];
    (VarInt { value: 1 }).write(&mut buf);
    assert_eq!(buf[0], 1);
}

#[test]
fn primitives_varint_2() {
    let mut buf: Vec<u8> = vec![];
    (VarInt { value: 2 }).write(&mut buf);
    assert_eq!(buf[0], 2);
}

#[test]
fn primitives_varint_127() {
    let mut buf: Vec<u8> = vec![];
    (VarInt { value: 127 }).write(&mut buf);
    assert_eq!(buf[0], 127);
}

#[test]
fn primitives_varint_128() {
    let mut buf: Vec<u8> = vec![];
    (VarInt { value: 128 }).write(&mut buf);
    assert_eq!(buf[0], 128);
    assert_eq!(buf[1], 1);
}

#[test]
fn primitives_varint_255() {
    let mut buf: Vec<u8> = vec![];
    (VarInt { value: 255 }).write(&mut buf);
    assert_eq!(buf[0], 255);
    assert_eq!(buf[1], 1);
}

#[test]
fn primitives_varint_25565() {
    let mut buf: Vec<u8> = vec![];
    (VarInt { value: 25565 }).write(&mut buf);
    assert_eq!(buf[0], 221);
    assert_eq!(buf[1], 199);
    assert_eq!(buf[2], 1);
}

#[test]
fn primitives_varint_2097151() {
    let mut buf: Vec<u8> = vec![];
    (VarInt { value: 2097151 }).write(&mut buf);
    assert_eq!(buf[0], 255);
    assert_eq!(buf[1], 255);
    assert_eq!(buf[2], 127);
}

#[test]
fn primitives_varint_2147483647() {
    let mut buf: Vec<u8> = vec![];
    (VarInt { value: 2147483647 }).write(&mut buf);
    assert_eq!(buf[0], 255);
    assert_eq!(buf[1], 255);
    assert_eq!(buf[2], 255);
    assert_eq!(buf[3], 255);
    assert_eq!(buf[4], 7);
}

#[test]
fn primitives_varint_n1() {
    let mut buf: Vec<u8> = vec![];
    (VarInt { value: -1 }).write(&mut buf);
    assert_eq!(buf[0], 255);
    assert_eq!(buf[1], 255);
    assert_eq!(buf[2], 255);
    assert_eq!(buf[3], 255);
    assert_eq!(buf[4], 15);
}

#[test]
fn primitives_varint_n2147483648() {
    let mut buf: Vec<u8> = vec![];
    (VarInt { value: -2147483648 }).write(&mut buf);
    assert_eq!(buf[0], 128);
    assert_eq!(buf[1], 128);
    assert_eq!(buf[2], 128);
    assert_eq!(buf[3], 128);
    assert_eq!(buf[4], 8);
}

#[test]
fn primitives_varlong_0() {
    let mut buf: Vec<u8> = vec![];
    (VarLong { value: 0 }).write(&mut buf);
    assert_eq!(buf[0], 0);
}

#[test]
fn primitives_varlong_1() {
    let mut buf: Vec<u8> = vec![];
    (VarLong { value: 1 }).write(&mut buf);
    assert_eq!(buf[0], 1);
}

#[test]
fn primitives_varlong_2() {
    let mut buf: Vec<u8> = vec![];
    (VarLong { value: 2 }).write(&mut buf);
    assert_eq!(buf[0], 2);
}

#[test]
fn primitives_varlong_127() {
    let mut buf: Vec<u8> = vec![];
    (VarLong { value: 127 }).write(&mut buf);
    assert_eq!(buf[0], 127);
}

#[test]
fn primitives_varlong_128() {
    let mut buf: Vec<u8> = vec![];
    (VarLong { value: 128 }).write(&mut buf);
    assert_eq!(buf[0], 128);
    assert_eq!(buf[1], 1);
}

#[test]
fn primitives_varlong_255() {
    let mut buf: Vec<u8> = vec![];
    (VarLong { value: 255 }).write(&mut buf);
    assert_eq!(buf[0], 255);
    assert_eq!(buf[1], 1);
}

#[test]
fn primitives_varlong_2147483647() {
    let mut buf: Vec<u8> = vec![];
    (VarLong { value: 2147483647 }).write(&mut buf);
    assert_eq!(buf[0], 255);
    assert_eq!(buf[1], 255);
    assert_eq!(buf[2], 255);
    assert_eq!(buf[3], 255);
    assert_eq!(buf[4], 7);
}

#[test]
fn primitives_varlong_9223372036854775807() {
    let mut buf: Vec<u8> = vec![];
    (VarLong {
    value: 9223372036854775807,
    })
    .write(&mut buf)
    ;
    assert_eq!(buf[0], 255);
    assert_eq!(buf[1], 255);
    assert_eq!(buf[2], 255);
    assert_eq!(buf[3], 255);
    assert_eq!(buf[4], 255);
    assert_eq!(buf[5], 255);
    assert_eq!(buf[6], 255);
    assert_eq!(buf[7], 255);
    assert_eq!(buf[8], 127);
}

#[test]
fn primitives_varlong_n1() {
    let mut buf: Vec<u8> = vec![];
    (VarLong { value: -1 }).write(&mut buf);
    assert_eq!(buf[0], 255);
    assert_eq!(buf[1], 255);
    assert_eq!(buf[2], 255);
    assert_eq!(buf[3], 255);
    assert_eq!(buf[4], 255);
    assert_eq!(buf[5], 255);
    assert_eq!(buf[6], 255);
    assert_eq!(buf[7], 255);
    assert_eq!(buf[8], 255);
    assert_eq!(buf[9], 1);
}

#[test]
fn primitives_varlong_n2147483648() {
    let mut buf: Vec<u8> = vec![];
    (VarLong { value: -2147483648 }).write(&mut buf);
    assert_eq!(buf[0], 128);
    assert_eq!(buf[1], 128);
    assert_eq!(buf[2], 128);
    assert_eq!(buf[3], 128);
    assert_eq!(buf[4], 248);
    assert_eq!(buf[5], 255);
    assert_eq!(buf[6], 255);
    assert_eq!(buf[7], 255);
    assert_eq!(buf[8], 255);
    assert_eq!(buf[9], 1);
}

#[test]
fn primitives_varlong_n9223372036854775808() {
    let mut buf: Vec<u8> = vec![];
    (VarLong {
    value: -9223372036854775808,
    })
    .write(&mut buf)
    ;
    assert_eq!(buf[0], 128);
    assert_eq!(buf[1], 128);
    assert_eq!(buf[2], 128);
    assert_eq!(buf[3], 128);
    assert_eq!(buf[4], 128);
    assert_eq!(buf[5], 128);
    assert_eq!(buf[6], 128);
    assert_eq!(buf[7], 128);
    assert_eq!(buf[8], 128);
    assert_eq!(buf[9], 1);
}
