use rustcraft::err::CodecError;
use rustcraft::nbt::NbtCompound;
use rustcraft::protocol_types::chat::Chat;
use rustcraft::protocol_types::compound::{
    BitSet, GameEvent, GameMode, PlayerActions, Position, Uuid, WinGame,
};
use rustcraft::protocol_types::items::{BlockEntity, Slot, Tag, TagGroup};
use rustcraft::protocol_types::numbers::{Double, Float};
use rustcraft::protocol_types::primitives::{
    u16tou8abe, u32tou8abe, u64tou8abe, VarInt, VarLong,
};
use rustcraft::protocol_types::recipe::{
    recipe_form_of, CraftingShaped, CraftingSpecial, Recipe, RecipeForm, RecipeKind, Smelting,
};
use rustcraft::protocol_types::sequences::{read_optional, SizedVec};
use rustcraft::protocol_types::text::str_eq;
use rustcraft::protocol_types::traits::{ReadProt, SizedProt, WriteProt};

fn bytes_of<T: WriteProt>(value: &T) -> Vec<u8> {
    let mut out = Vec::new();
    value.write(&mut out);
    out
}

fn check_round_trip<T: WriteProt + ReadProt + SizedProt>(value: &T) -> T {
    assert!(value.is_valid());
    let mut buf = vec![0xee, 0xee];
    value.write(&mut buf);
    assert_eq!(value.prot_size(), buf.len() - 2);
    buf.push(0x77);
    let (back, next) = T::read(&buf, 2).unwrap();
    assert_eq!(next, buf.len() - 1);
    assert_eq!(bytes_of(&back), bytes_of(value));
    // one byte short is not enough
    if buf.len() > 3 {
        assert!(T::read(&buf[..buf.len() - 2], 2).is_err());
    }
    back
}

#[test]
fn varint_boundaries() {
    let cases: Vec<(i32, Vec<u8>)> = vec![
        (0, vec![0x00]),
        (1, vec![0x01]),
        (127, vec![0x7f]),
        (128, vec![0x80, 0x01]),
        (255, vec![0xff, 0x01]),
        (25565, vec![0xdd, 0xc7, 0x01]),
        (2097151, vec![0xff, 0xff, 0x7f]),
        (2147483647, vec![0xff, 0xff, 0xff, 0xff, 0x07]),
        (-1, vec![0xff, 0xff, 0xff, 0xff, 0x0f]),
        (-2147483648, vec![0x80, 0x80, 0x80, 0x80, 0x08]),
    ];
    for (value, bytes) in cases {
        let v = VarInt { value };
        assert_eq!(bytes_of(&v), bytes);
        assert_eq!(v.prot_size(), bytes.len());
        assert_eq!(VarInt::read(&bytes, 0), Ok((v, bytes.len())));
        assert_eq!(check_round_trip(&v), v);
    }
}

#[test]
fn varlong_boundaries() {
    let cases: Vec<(i64, Vec<u8>)> = vec![
        (0, vec![0x00]),
        (127, vec![0x7f]),
        (128, vec![0x80, 0x01]),
        (2147483647, vec![0xff, 0xff, 0xff, 0xff, 0x07]),
        (
            9223372036854775807,
            vec![0xff, 0xff, 0xff, 0xff, 0xff, 0xff, 0xff, 0xff, 0x7f],
        ),
        (
            -1,
            vec![0xff, 0xff, 0xff, 0xff, 0xff, 0xff, 0xff, 0xff, 0xff, 0x01],
        ),
        (
            -2147483648,
            vec![0x80, 0x80, 0x80, 0x80, 0xf8, 0xff, 0xff, 0xff, 0xff, 0x01],
        ),
        (
            -9223372036854775808,
            vec![0x80, 0x80, 0x80, 0x80, 0x80, 0x80, 0x80, 0x80, 0x80, 0x01],
        ),
    ];
    for (value, bytes) in cases {
        let v = VarLong { value };
        assert_eq!(bytes_of(&v), bytes);
        assert_eq!(v.prot_size(), bytes.len());
        assert_eq!(VarLong::read(&bytes, 0), Ok((v, bytes.len())));
        assert_eq!(check_round_trip(&v), v);
    }
}

#[test]
fn varint_errors() {
    assert_eq!(VarInt::read(&[], 0), Err(CodecError::UnexpectedEnd));
    assert_eq!(VarInt::read(&[0x80], 0), Err(CodecError::UnexpectedEnd));
    assert_eq!(VarInt::read(&[0x01], 1), Err(CodecError::UnexpectedEnd));
    assert_eq!(
        VarInt::read(&[0x80, 0x80, 0x80, 0x80], 0),
        Err(CodecError::UnexpectedEnd)
    );
    assert_eq!(
        VarInt::read(&[0x80, 0x80, 0x80, 0x80, 0x80], 0),
        Err(CodecError::VarIntTooBig)
    );
    assert_eq!(
        VarInt::read(&[0xff, 0xff, 0xff, 0xff, 0xff, 0x01], 0),
        Err(CodecError::VarIntTooBig)
    );
    assert_eq!(VarLong::read(&[0xff; 9], 0), Err(CodecError::UnexpectedEnd));
    assert_eq!(VarLong::read(&[0xff; 10], 0), Err(CodecError::VarLongTooBig));
    assert_eq!(VarLong::read(&[0xff; 11], 0), Err(CodecError::VarLongTooBig));
}

#[test]
fn varint_takes_longer_forms_and_drops_what_does_not_fit() {
    // zero in two bytes
    assert_eq!(VarInt::read(&[0x80, 0x00], 0), Ok((VarInt { value: 0 }, 2)));
    // the fifth byte has room for four bits only
    assert_eq!(
        VarInt::read(&[0xff, 0xff, 0xff, 0xff, 0x7f], 0),
        Ok((VarInt { value: -1 }, 5))
    );
    assert_eq!(
        VarInt::read(&[0x00, 0x85, 0x01, 0x00], 1),
        Ok((VarInt { value: 133 }, 3))
    );
    // the tenth byte of a long has room for one bit only
    assert_eq!(
        VarLong::read(&[0x80, 0x80, 0x80, 0x80, 0x80, 0x80, 0x80, 0x80, 0x80, 0x7f], 0),
        Ok((VarLong { value: i64::MIN }, 10))
    );
}

#[test]
fn varint_from_numbers() {
    assert_eq!(VarInt::from(5i32), VarInt { value: 5 });
    assert_eq!(VarInt::from(5usize), VarInt { value: 5 });
    assert_eq!(VarInt::from(0xffff_ffffusize), VarInt { value: -1 });
    assert_eq!(VarInt::from(0x1_0000_0007usize), VarInt { value: 7 });
    assert_eq!(VarLong::from(-5i64), VarLong { value: -5 });
}

#[test]
fn fixed_width_numbers_are_big_endian() {
    assert_eq!(bytes_of(&0xabu8), vec![0xab]);
    assert_eq!(bytes_of(&true), vec![1]);
    assert_eq!(bytes_of(&false), vec![0]);
    assert_eq!(bytes_of(&25565u16), vec![0x63, 0xdd]);
    assert_eq!(bytes_of(&-2i16), vec![0xff, 0xfe]);
    assert_eq!(bytes_of(&0x01020304i32), vec![1, 2, 3, 4]);
    assert_eq!(bytes_of(&-1i32), vec![0xff; 4]);
    assert_eq!(bytes_of(&0x0102030405060708i64), vec![1, 2, 3, 4, 5, 6, 7, 8]);
    assert_eq!(bytes_of(&i64::MIN), vec![0x80, 0, 0, 0, 0, 0, 0, 0]);
    assert_eq!(bytes_of(&u64::MAX), vec![0xff; 8]);
    assert_eq!(
        bytes_of(&Float { bits: 1.5f32.to_bits() }),
        1.5f32.to_be_bytes().to_vec()
    );
    assert_eq!(
        bytes_of(&Double { bits: (-2.25f64).to_bits() }),
        (-2.25f64).to_be_bytes().to_vec()
    );
    assert_eq!(u64tou8abe(0x0102030405060708), [1, 2, 3, 4, 5, 6, 7, 8]);
    assert_eq!(u32tou8abe(0xdeadbeef), [0xde, 0xad, 0xbe, 0xef]);
    assert_eq!(u16tou8abe(0xbeef), [0xbe, 0xef]);
}

#[test]
fn fixed_width_numbers_come_back() {
    assert_eq!(check_round_trip(&0x7fu8), 0x7f);
    assert_eq!(check_round_trip(&true), true);
    assert_eq!(check_round_trip(&false), false);
    assert_eq!(check_round_trip(&65535u16), 65535);
    assert_eq!(check_round_trip(&i16::MIN), i16::MIN);
    assert_eq!(check_round_trip(&i32::MIN), i32::MIN);
    assert_eq!(check_round_trip(&i32::MAX), i32::MAX);
    assert_eq!(check_round_trip(&-123456789012i64), -123456789012);
    assert_eq!(check_round_trip(&u64::MAX), u64::MAX);
    let float = Float { bits: 3.25f32.to_bits() };
    assert_eq!(check_round_trip(&float), float);
    let double = Double { bits: f64::NAN.to_bits() };
    assert_eq!(check_round_trip(&double), double);
    assert_eq!(i32::read(&[1, 2, 3], 0), Err(CodecError::UnexpectedEnd));
    assert_eq!(u8::read(&[], 0), Err(CodecError::UnexpectedEnd));
    assert_eq!(u16::read(&[0, 1, 2], 2), Err(CodecError::UnexpectedEnd));
    // every byte but one reads as false
    assert_eq!(bool::read(&[2], 0), Ok((false, 1)));
    assert_eq!(bool::read(&[1], 0), Ok((true, 1)));
}

#[test]
fn strings_travel_behind_their_length() {
    let text = String::from("localhost");
    let mut expected = vec![9];
    expected.extend_from_slice(b"localhost");
    assert_eq!(bytes_of(&text), expected);
    assert_eq!(check_round_trip(&text), text);
    let text = String::from("gr\u{fc}\u{df}e \u{2603}");
    assert_eq!(text.prot_size(), 1 + text.len());
    assert_eq!(check_round_trip(&text), text);
    assert_eq!(check_round_trip(&String::new()), "");
    let long = "x".repeat(300);
    assert_eq!(&bytes_of(&long)[..2], &[0xac, 0x02]);
    assert_eq!(check_round_trip(&long), long);
}

#[test]
fn strings_have_a_limit() {
    let limit = "a".repeat(131071);
    assert!(limit.is_valid());
    assert_eq!(check_round_trip(&limit), limit);
    let over = "a".repeat(131072);
    assert!(!over.is_valid());
    // a length of 131072 is refused before any byte of the text is looked at
    assert_eq!(
        String::read(&[0x80, 0x80, 0x08], 0),
        Err(CodecError::StringTooLong)
    );
    // a negative length is a very large one
    assert_eq!(
        String::read(&[0xff, 0xff, 0xff, 0xff, 0x0f], 0),
        Err(CodecError::StringTooLong)
    );
    assert_eq!(String::read(&[3, b'a', b'b'], 0), Err(CodecError::UnexpectedEnd));
    assert_eq!(String::read(&[2, 0xc3, 0x28], 0), Err(CodecError::InvalidUtf8));
    assert_eq!(String::read(&[1, 0xff], 0), Err(CodecError::InvalidUtf8));
    assert_eq!(String::read(&[], 0), Err(CodecError::UnexpectedEnd));
}

#[test]
fn strings_compare_by_their_text() {
    assert!(str_eq("minecraft:smelting", "minecraft:smelting"));
    assert!(!str_eq("minecraft:smelting", "minecraft:smoking"));
    assert!(!str_eq("ab", "abc"));
    assert!(str_eq("", ""));
}

#[test]
fn sequences_travel_behind_their_count() {
    let list = SizedVec { vec: vec![1u16, 2, 3] };
    assert_eq!(bytes_of(&list), vec![3, 0, 1, 0, 2, 0, 3]);
    assert_eq!(check_round_trip(&list).vec, vec![1, 2, 3]);
    let empty: SizedVec<i64> = SizedVec { vec: vec![] };
    assert_eq!(bytes_of(&empty), vec![0]);
    assert_eq!(check_round_trip(&empty).vec.len(), 0);
    let nested = SizedVec {
        vec: vec![
            SizedVec { vec: vec![String::from("a"), String::from("bc")] },
            SizedVec { vec: vec![] },
        ],
    };
    assert_eq!(bytes_of(&nested), vec![2, 2, 1, b'a', 2, b'b', b'c', 0]);
    let back = check_round_trip(&nested);
    assert_eq!(back.vec[0].vec, vec!["a", "bc"]);
    assert_eq!(back.vec[1].vec.len(), 0);
    // the count counts items, not bytes
    let (wide, next) = SizedVec::<i32>::read(&[2, 0, 0, 0, 1, 0, 0, 0, 2], 0).unwrap();
    assert_eq!(wide.vec, vec![1, 2]);
    assert_eq!(next, 9);
}

#[test]
fn sequences_are_made_from_vectors() {
    let list: SizedVec<u8> = SizedVec::from(vec![1, 2, 3]);
    assert_eq!(list.vec, vec![1, 2, 3]);
    let list: SizedVec<u8> = vec![4, 5].into();
    assert_eq!(bytes_of(&list), vec![2, 4, 5]);
}

#[test]
fn sequences_fail_with_their_first_error() {
    assert_eq!(
        SizedVec::<u8>::read(&[0xff, 0xff, 0xff, 0xff, 0x0f], 0).unwrap_err(),
        CodecError::NegativeLength
    );
    assert_eq!(
        SizedVec::<u8>::read(&[3, 1, 2], 0).unwrap_err(),
        CodecError::UnexpectedEnd
    );
    assert_eq!(
        SizedVec::<String>::read(&[2, 1, b'a', 1, 0xff], 0).unwrap_err(),
        CodecError::InvalidUtf8
    );
    assert_eq!(SizedVec::<u8>::read(&[], 0).unwrap_err(), CodecError::UnexpectedEnd);
    let long = SizedVec { vec: vec![VarInt { value: 1 }; 3] };
    assert!(long.is_valid());
}

#[test]
fn optional_values_take_no_room_when_absent() {
    let absent: Option<VarInt> = None;
    assert_eq!(bytes_of(&absent), Vec::<u8>::new());
    assert_eq!(absent.prot_size(), 0);
    let present = Some(VarInt { value: 300 });
    assert_eq!(bytes_of(&present), vec![0xac, 0x02]);
    assert_eq!(present.prot_size(), 2);
    assert_eq!(
        read_optional::<VarInt>(true, &[0xac, 0x02], 0),
        Ok((Some(VarInt { value: 300 }), 2))
    );
    assert_eq!(read_optional::<VarInt>(false, &[0xac, 0x02], 0), Ok((None, 0)));
    assert_eq!(
        read_optional::<VarInt>(true, &[], 0),
        Err(CodecError::UnexpectedEnd)
    );
}

#[test]
fn uuid_is_sixteen_bytes() {
    let uuid = Uuid::from_u128(0x0102030405060708_090a0b0c0d0e0f10);
    assert_eq!(
        bytes_of(&uuid),
        vec![1, 2, 3, 4, 5, 6, 7, 8, 9, 10, 11, 12, 13, 14, 15, 16]
    );
    assert_eq!(check_round_trip(&uuid), uuid);
    assert_eq!(uuid.as_u128(), 0x0102030405060708_090a0b0c0d0e0f10);
    assert_eq!(check_round_trip(&Uuid::nil()), Uuid { value: 0 });
    assert_eq!(check_round_trip(&Uuid { value: u128::MAX }).value, u128::MAX);
    assert_eq!(Uuid::read(&[0; 15], 0), Err(CodecError::UnexpectedEnd));
}

#[test]
fn position_packs_into_one_word() {
    let position = Position::new(1, 2, 3);
    assert_eq!(position.to_word(), (1 << 38) | (3 << 12) | 2);
    assert_eq!(bytes_of(&position), ((1i64 << 38) | (3 << 12) | 2).to_be_bytes().to_vec());
    let corners = [
        Position::new(-33554432, -2048, -33554432),
        Position::new(33554431, 2047, 33554431),
        Position::new(-33554432, 2047, 33554431),
        Position::new(33554431, -2048, -33554432),
        Position::new(0, 0, 0),
        Position::new(-1, -1, -1),
        Position::new(18357644, 831, -20882616),
    ];
    for position in corners {
        assert!(position.is_valid());
        assert_eq!(check_round_trip(&position), position);
        assert_eq!(Position::from_word(position.to_word()), position);
    }
    assert_eq!(
        bytes_of(&Position::new(18357644, 831, -20882616)),
        vec![0x46, 0x07, 0x63, 0x2c, 0x15, 0xb4, 0x83, 0x3f]
    );
    assert!(!Position::new(33554432, 0, 0).is_valid());
    assert!(!Position::new(0, 2048, 0).is_valid());
    assert!(!Position::new(0, 0, -33554433).is_valid());
    // what does not fit is cut to the bits there are
    assert_eq!(
        Position::from_word(Position::new(33554432, 0, 0).to_word()),
        Position::new(-33554432, 0, 0)
    );
    assert_eq!(Position::new(1, 2, 3), Position { x: 1, z: 3, y: 2 });
}

#[test]
fn bit_set_counts_bits_across_words() {
    let mut set = BitSet(SizedVec { vec: vec![0, 0] });
    set.set_bit(0, true);
    set.set_bit(63, true);
    set.set_bit(64, true);
    set.set_bit(100, true);
    assert_eq!(set.0.vec, vec![i64::MIN | 1, 1 | (1 << 36)]);
    for n in 0..128 {
        assert_eq!(set.bit(n), n == 0 || n == 63 || n == 64 || n == 100);
    }
    set.set_bit(63, false);
    set.set_bit(64, false);
    set.set_bit(5, false);
    assert_eq!(set.0.vec, vec![1, 1 << 36]);
    assert_eq!(
        bytes_of(&set),
        vec![2, 0, 0, 0, 0, 0, 0, 0, 1, 0, 0, 0, 0x10, 0, 0, 0, 0]
    );
    assert_eq!(check_round_trip(&set).0.vec, vec![1, 1 << 36]);
}

#[test]
fn game_events_are_a_code_and_a_number() {
    let cases: Vec<(GameEvent, u8, f32)> = vec![
        (GameEvent::NoRespawnBlock, 0, 0.0),
        (GameEvent::StartRain, 1, 0.0),
        (GameEvent::EndRain, 2, 0.0),
        (GameEvent::SetGameMode(GameMode::Survival), 3, 0.0),
        (GameEvent::SetGameMode(GameMode::Creative), 3, 1.0),
        (GameEvent::SetGameMode(GameMode::Adventure), 3, 2.0),
        (GameEvent::SetGameMode(GameMode::Spectator), 3, 3.0),
        (GameEvent::WinGame(WinGame::JustRespawn), 4, 0.0),
        (GameEvent::WinGame(WinGame::RollCreditsAndRespawn), 4, 1.0),
        (GameEvent::ArrowHit, 6, 0.0),
        (GameEvent::SetRainLevel(Float { bits: 0.75f32.to_bits() }), 7, 0.75),
        (GameEvent::SetThunderLevel(Float { bits: 0.5f32.to_bits() }), 8, 0.5),
        (GameEvent::PufferfishSting, 9, 0.0),
        (GameEvent::ElderGuardianAppearance, 10, 0.0),
        (GameEvent::SetRespawnScreen(true), 11, 1.0),
        (GameEvent::SetRespawnScreen(false), 11, 0.0),
        (GameEvent::SetLimitedCrafting(true), 12, 1.0),
        (GameEvent::SetLimitedCrafting(false), 12, 0.0),
    ];
    for (event, code, value) in cases {
        let mut expected = vec![code];
        expected.extend_from_slice(&value.to_be_bytes());
        assert_eq!(bytes_of(&event), expected);
        assert_eq!(event.prot_size(), 5);
        assert_eq!(event.code(), code);
        assert_eq!(event.value().bits, value.to_bits());
        assert_eq!(check_round_trip(&event), event);
    }
    assert_eq!(
        GameEvent::read(&[5, 0, 0, 0, 0], 0),
        Err(CodecError::InvalidGameEvent)
    );
    assert_eq!(
        GameEvent::read(&[13, 0, 0, 0, 0], 0),
        Err(CodecError::InvalidGameEvent)
    );
    // four is no game mode
    assert_eq!(
        GameEvent::read(&[3, 0x40, 0x80, 0, 0], 0),
        Err(CodecError::InvalidGameEvent)
    );
    assert_eq!(
        GameEvent::read(&[4, 0x40, 0, 0, 0], 0),
        Err(CodecError::InvalidGameEvent)
    );
    assert_eq!(GameEvent::read(&[1, 0, 0, 0], 0), Err(CodecError::UnexpectedEnd));
    // an event with nothing to say takes any number, a switch is on at 1.0 only
    assert_eq!(GameEvent::read(&[1, 1, 2, 3, 4], 0), Ok((GameEvent::StartRain, 5)));
    assert_eq!(
        GameEvent::read(&[11, 0x40, 0, 0, 0], 0),
        Ok((GameEvent::SetRespawnScreen(false), 5))
    );
}

#[test]
fn player_actions_are_numbered() {
    let all = [
        PlayerActions::StartDig,
        PlayerActions::CancelDig,
        PlayerActions::FinishDig,
        PlayerActions::DropStack,
        PlayerActions::DropItem,
        PlayerActions::ShootArrowFinishEating,
        PlayerActions::SwapHands,
    ];
    for (code, action) in all.iter().enumerate() {
        assert_eq!(PlayerActions::read(&[code as u8], 0), Ok((*action, 1)));
        assert_eq!(action.code(), code as i32);
        assert_eq!(action.prot_size(), 1);
    }
    assert_eq!(PlayerActions::read(&[7], 0), Err(CodecError::InvalidPlayerAction));
    assert_eq!(
        PlayerActions::read(&[0xff, 0xff, 0xff, 0xff, 0x0f], 0),
        Err(CodecError::InvalidPlayerAction)
    );
    assert_eq!(PlayerActions::read(&[], 0), Err(CodecError::UnexpectedEnd));
}

fn compound(bytes: &[u8]) -> NbtCompound {
    NbtCompound::from_bytes(bytes.to_vec()).unwrap()
}

fn sample_nbt() -> Vec<u8> {
    let mut bytes = vec![10];
    // byte "b" = 5
    bytes.extend_from_slice(&[1, 0, 1, b'b', 5]);
    // string "s" = "hi"
    bytes.extend_from_slice(&[8, 0, 1, b's', 0, 2, b'h', b'i']);
    // list "l" of two shorts
    bytes.extend_from_slice(&[9, 0, 1, b'l', 2, 0, 0, 0, 2, 0, 1, 0, 2]);
    // compound "c" with a long array of one
    bytes.extend_from_slice(&[10, 0, 1, b'c', 12, 0, 2, b'l', b'a', 0, 0, 0, 1]);
    bytes.extend_from_slice(&[0, 0, 0, 0, 0, 0, 0, 9, 0]);
    // int array "i" of none, double "d"
    bytes.extend_from_slice(&[11, 0, 1, b'i', 0, 0, 0, 0]);
    bytes.extend_from_slice(&[6, 0, 1, b'd', 0, 0, 0, 0, 0, 0, 0, 0]);
    bytes.push(0);
    bytes
}

#[test]
fn nbt_is_framed_by_its_tags() {
    assert_eq!(NbtCompound::new().as_bytes(), &[10, 0]);
    assert!(NbtCompound::from_bytes(vec![10, 0]).is_some());
    let sample = sample_nbt();
    let nbt = compound(&sample);
    assert_eq!(nbt.as_bytes(), &sample[..]);
    assert_eq!(nbt.prot_size(), sample.len());
    assert_eq!(bytes_of(&nbt), sample);
    assert_eq!(check_round_trip(&nbt).as_bytes(), &sample[..]);
    assert_eq!(nbt.duplicate().as_bytes(), &sample[..]);
    // a compound ends where its closing zero stands, whatever follows
    let mut more = sample.clone();
    more.extend_from_slice(&[1, 2, 3]);
    let (read, next) = NbtCompound::read(&more, 0).unwrap();
    assert_eq!(next, sample.len());
    assert_eq!(read.as_bytes(), &sample[..]);
    assert!(NbtCompound::from_bytes(more).is_none());
}

#[test]
fn nbt_that_is_broken_is_refused() {
    assert!(NbtCompound::from_bytes(vec![]).is_none());
    assert!(NbtCompound::from_bytes(vec![10]).is_none());
    assert!(NbtCompound::from_bytes(vec![0]).is_none());
    // a named root is not what travels
    assert!(NbtCompound::from_bytes(vec![10, 0, 0, 0]).is_none());
    // a kind that does not exist
    assert!(NbtCompound::from_bytes(vec![10, 13, 0, 1, b'x', 0, 0]).is_none());
    // a string that is cut off
    assert!(NbtCompound::from_bytes(vec![10, 8, 0, 1, b's', 0, 5, b'h', 0]).is_none());
    // an array with a negative length
    assert!(
        NbtCompound::from_bytes(vec![10, 7, 0, 1, b'a', 0xff, 0xff, 0xff, 0xff, 0]).is_none()
    );
    // a list of nothing that claims to hold something
    assert!(NbtCompound::from_bytes(vec![10, 9, 0, 1, b'l', 0, 0, 0, 0, 1, 0]).is_none());
    // an empty list may be of any kind
    assert!(NbtCompound::from_bytes(vec![10, 9, 0, 1, b'l', 0, 0, 0, 0, 0, 0]).is_some());
    let sample = sample_nbt();
    for cut in 0..sample.len() {
        assert!(NbtCompound::from_bytes(sample[..cut].to_vec()).is_none());
        assert_eq!(NbtCompound::read(&sample[..cut], 0).unwrap_err(), CodecError::Nbt);
    }
}

#[test]
fn nbt_may_nest_512_deep_and_no_deeper() {
    fn nested(depth: usize) -> Vec<u8> {
        let mut bytes = vec![10];
        for _ in 0..depth {
            bytes.extend_from_slice(&[10, 0, 0]);
        }
        for _ in 0..depth {
            bytes.push(0);
        }
        bytes.push(0);
        bytes
    }
    assert!(NbtCompound::from_bytes(nested(1)).is_some());
    assert!(NbtCompound::from_bytes(nested(512)).is_some());
    assert!(NbtCompound::from_bytes(nested(513)).is_none());
}

fn stack(item: i32, count: u8) -> Slot {
    Slot {
        present: true,
        item_id: Some(VarInt { value: item }),
        item_count: Some(count),
        nbt: Some(NbtCompound::new()),
    }
}

fn nothing() -> Slot {
    Slot { present: false, item_id: None, item_count: None, nbt: None }
}

#[test]
fn slots_hold_their_parts_only_when_present() {
    assert_eq!(bytes_of(&nothing()), vec![0]);
    assert_eq!(bytes_of(&stack(300, 64)), vec![1, 0xac, 0x02, 64, 10, 0]);
    let back = check_round_trip(&stack(300, 64));
    assert!(back.present);
    assert_eq!(back.item_id, Some(VarInt { value: 300 }));
    assert_eq!(back.item_count, Some(64));
    assert_eq!(back.nbt.unwrap().as_bytes(), &[10, 0]);
    let back = check_round_trip(&nothing());
    assert!(!back.present && back.item_id.is_none() && back.nbt.is_none());
    let broken = Slot { present: true, item_id: None, item_count: Some(1), nbt: None };
    assert!(!broken.is_valid());
    let broken = Slot { present: false, ..stack(1, 1) };
    assert!(!broken.is_valid());
    assert_eq!(Slot::read(&[1, 5, 1, 11], 0).unwrap_err(), CodecError::Nbt);
    assert_eq!(Slot::read(&[1, 5], 0).unwrap_err(), CodecError::UnexpectedEnd);
}

#[test]
fn tags_and_block_entities_come_back() {
    let group = TagGroup {
        typ: String::from("minecraft:block"),
        tags: SizedVec {
            vec: vec![
                Tag {
                    name: String::from("minecraft:logs"),
                    types: SizedVec { vec: vec![VarInt { value: 1 }, VarInt { value: 200 }] },
                },
                Tag { name: String::from("minecraft:empty"), types: SizedVec { vec: vec![] } },
            ],
        },
    };
    let back = check_round_trip(&group);
    assert_eq!(back.typ, "minecraft:block");
    assert_eq!(back.tags.vec.len(), 2);
    assert_eq!(back.tags.vec[0].name, "minecraft:logs");
    assert_eq!(back.tags.vec[0].types.vec, vec![VarInt { value: 1 }, VarInt { value: 200 }]);
    let entity = BlockEntity {
        xz: 0x5a,
        y: -3,
        typ: VarInt { value: 7 },
        data: compound(&sample_nbt()),
    };
    let mut expected = vec![0x5a, 0xff, 0xfd, 7];
    expected.extend_from_slice(&sample_nbt());
    assert_eq!(bytes_of(&entity), expected);
    let back = check_round_trip(&entity);
    assert_eq!((back.xz, back.y, back.typ.value), (0x5a, -3, 7));
}

#[test]
fn recipes_have_the_body_of_their_type() {
    let shaped = Recipe {
        typ: String::from("minecraft:crafting_shaped"),
        id: String::from("minecraft:stick"),
        data: RecipeKind::CraftingShaped(CraftingShaped {
            width: VarInt { value: 1 },
            height: VarInt { value: 2 },
            group: String::from("sticks"),
            category: VarInt { value: 3 },
            ingredients: SizedVec {
                vec: vec![
                    SizedVec { vec: vec![stack(5, 1), stack(6, 1)] },
                    SizedVec { vec: vec![nothing()] },
                ],
            },
            result: stack(7, 4),
            show_notification: true,
        }),
    };
    assert!(shaped.is_valid());
    let back = check_round_trip(&shaped);
    assert_eq!(back.id, "minecraft:stick");
    match back.data {
        RecipeKind::CraftingShaped(body) => {
            assert_eq!(body.width.value, 1);
            assert_eq!(body.height.value, 2);
            assert_eq!(body.group, "sticks");
            assert_eq!(body.ingredients.vec.len(), 2);
            assert_eq!(body.ingredients.vec[0].vec[1].item_id, Some(VarInt { value: 6 }));
            assert_eq!(body.result.item_count, Some(4));
            assert!(body.show_notification);
        }
        other => panic!("unexpected {:?}", other),
    }
    let smelting = Recipe {
        typ: String::from("minecraft:campfire_cooking"),
        id: String::from("x"),
        data: RecipeKind::Smelting(Smelting {
            group: String::new(),
            category: VarInt { value: 0 },
            ingredient: SizedVec { vec: vec![stack(1, 1)] },
            result: stack(2, 1),
            experience: Float { bits: 0.35f32.to_bits() },
            cooking_time: VarInt { value: 600 },
        }),
    };
    match check_round_trip(&smelting).data {
        RecipeKind::Smelting(body) => {
            assert_eq!(body.experience.bits, 0.35f32.to_bits());
            assert_eq!(body.cooking_time.value, 600);
        }
        other => panic!("unexpected {:?}", other),
    }
    let special = Recipe {
        typ: String::from("minecraft:crafting_special_bookcloning"),
        id: String::from("y"),
        data: RecipeKind::CraftingSpecial(CraftingSpecial { category: VarInt { value: 2 } }),
    };
    let mut expected = bytes_of(&special.typ);
    expected.extend_from_slice(&[1, b'y', 2]);
    assert_eq!(bytes_of(&special), expected);
    check_round_trip(&special);
    // a body that does not go with the type is not admitted
    let wrong = Recipe { typ: String::from("minecraft:smelting"), ..special };
    assert!(!wrong.is_valid());
}

#[test]
fn recipes_of_unknown_type_are_an_error() {
    let mut bytes = bytes_of(&String::from("minecraft:brewing"));
    bytes.extend_from_slice(&[1, b'z', 0, 0, 0]);
    assert_eq!(Recipe::read(&bytes, 0).unwrap_err(), CodecError::UnknownRecipe);
    // the id is read before the type is looked at
    let bytes = bytes_of(&String::from("minecraft:brewing"));
    assert_eq!(Recipe::read(&bytes, 0).unwrap_err(), CodecError::UnexpectedEnd);
    assert_eq!(recipe_form_of("minecraft:brewing"), None);
    assert_eq!(
        recipe_form_of("minecraft:crafting_shapeless"),
        Some(RecipeForm::CraftingShapeless)
    );
    assert_eq!(recipe_form_of("minecraft:crafting_shaped"), Some(RecipeForm::CraftingShaped));
    for name in [
        "armordye",
        "bookcloning",
        "mapcloning",
        "mapextending",
        "firework_rocket",
        "firework_star",
        "firework_star_fade",
        "repairitem",
        "tippedarrow",
        "bannerduplicate",
        "shielddecoration",
        "shulkerboxcoloring",
        "suspiciousstew",
    ] {
        assert_eq!(
            recipe_form_of(&format!("minecraft:crafting_special_{}", name)),
            Some(RecipeForm::CraftingSpecial)
        );
    }
    assert_eq!(
        recipe_form_of("minecraft:crafting_decorated_pot"),
        Some(RecipeForm::CraftingSpecial)
    );
    for name in ["smelting", "blasting", "smoking", "campfire_cooking"] {
        assert_eq!(
            recipe_form_of(&format!("minecraft:{}", name)),
            Some(RecipeForm::Smelting)
        );
    }
    assert_eq!(recipe_form_of("minecraft:stonecutting"), Some(RecipeForm::Stonecutting));
    assert_eq!(
        recipe_form_of("minecraft:smithing_transform"),
        Some(RecipeForm::SmithingTransform)
    );
    assert_eq!(recipe_form_of("minecraft:smithing_trim"), Some(RecipeForm::SmithingTrim));
}

fn json_of(chat: &Chat) -> serde_json::Value {
    serde_json::from_str(&chat.to_json()).unwrap()
}

#[test]
fn chat_is_the_json_that_serde_writes() {
    let chat = Chat::new_text(String::from("he said \"hi\"\n\u{e9}\\"));
    let mut map = serde_json::Map::new();
    map.insert(
        String::from("text"),
        serde_json::Value::String(String::from("he said \"hi\"\n\u{e9}\\")),
    );
    assert_eq!(
        chat.to_json(),
        serde_json::to_string(&serde_json::Value::Object(map.clone())).unwrap()
    );
    let chat = chat
        .with_bold(true)
        .with_italic(false)
        .with_underlined(true)
        .with_strikethrough(false)
        .with_obfuscated(true)
        .with_color(String::from("dark_red"))
        .with_extra(Chat::new_text(String::from("one")).with_bold(false))
        .with_extra(Chat::new_text(String::from("two")));
    map.insert(String::from("bold"), serde_json::Value::Bool(true));
    map.insert(String::from("italic"), serde_json::Value::Bool(false));
    map.insert(String::from("underlined"), serde_json::Value::Bool(true));
    map.insert(String::from("strikethrough"), serde_json::Value::Bool(false));
    map.insert(String::from("obfuscated"), serde_json::Value::Bool(true));
    map.insert(String::from("color"), serde_json::Value::String(String::from("dark_red")));
    let mut one = serde_json::Map::new();
    one.insert(String::from("text"), serde_json::Value::String(String::from("one")));
    one.insert(String::from("bold"), serde_json::Value::Bool(false));
    let mut two = serde_json::Map::new();
    two.insert(String::from("text"), serde_json::Value::String(String::from("two")));
    map.insert(
        String::from("extra"),
        serde_json::Value::Array(vec![
            serde_json::Value::Object(one),
            serde_json::Value::Object(two),
        ]),
    );
    let expected = serde_json::to_string(&serde_json::Value::Object(map.clone())).unwrap();
    assert_eq!(chat.to_json(), expected);
    assert_eq!(json_of(&chat), serde_json::Value::Object(map));
    let mut wire = bytes_of(&VarInt { value: expected.len() as i32 });
    wire.extend_from_slice(expected.as_bytes());
    assert_eq!(bytes_of(&chat), wire);
    assert_eq!(chat.prot_size(), wire.len());
    assert!(chat.is_valid());
}

#[test]
fn chat_in_plain_words() {
    assert_eq!(Chat::new_text(String::from("hi")).to_json(), "{\"text\":\"hi\"}");
    assert_eq!(
        Chat::new_text(String::from("hi")).with_underlined(false).to_json(),
        "{\"text\":\"hi\",\"underlined\":false}"
    );
    assert_eq!(
        Chat::new_text(String::from("a"))
            .with_extra(Chat::new_text(String::from("b")).with_extra(Chat::new_text(String::new())))
            .to_json(),
        "{\"extra\":[{\"extra\":[{\"text\":\"\"}],\"text\":\"b\"}],\"text\":\"a\"}"
    );
    // a later setting takes the place of an earlier one
    assert_eq!(
        Chat::new_text(String::from("x")).with_bold(true).with_bold(false).to_json(),
        "{\"bold\":false,\"text\":\"x\"}"
    );
}
