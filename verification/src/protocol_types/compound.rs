use crate::err::CodecError;
use crate::protocol_types::numbers::{Double, Float};
use crate::protocol_types::primitives::VarInt;
use crate::protocol_types::sequences::SizedVec;
use crate::protocol_types::traits::{Prot, ReadProt, SizedProt, WriteProt};
use vstd::prelude::*;

verus! {

/// A 128-bit identifier.
#[derive(Clone, Copy, Debug, PartialEq, Eq, Structural)]
pub struct Uuid {
    pub value: u128,
}

/// The upper and the lower half of a 128-bit number, and back.
proof fn lemma_halves(v: u128, hi: u64, lo: u64)
    by (bit_vector)
    ensures
        ((v >> 64) as u64) == v / 0x1_0000_0000_0000_0000,
        (v as u64) == v % 0x1_0000_0000_0000_0000,
        ((hi as u128) << 64) | (lo as u128) == (hi as u128) * 0x1_0000_0000_0000_0000 + (
        lo as u128),
{
}

impl Uuid {
    /// The identifier whose bits are all zero.
    pub fn nil() -> (u: Uuid)
        ensures
            u.value == 0,
    {
        Uuid { value: 0 }
    }

    pub fn from_u128(value: u128) -> (u: Uuid)
        ensures
            u.value == value,
    {
        Uuid { value }
    }

    pub fn as_u128(&self) -> (value: u128)
        ensures
            value == self.value,
    {
        self.value
    }

    /// The upper 64 bits.
    pub open spec fn high(self) -> u64 {
        (self.value / 0x1_0000_0000_0000_0000) as u64
    }

    /// The lower 64 bits.
    pub open spec fn low(self) -> u64 {
        (self.value % 0x1_0000_0000_0000_0000) as u64
    }
}

impl Prot for Uuid {
    type Model = Uuid;

    open spec fn model(&self) -> Uuid {
        *self
    }

    open spec fn valid(m: Uuid) -> bool {
        true
    }

    /// Sixteen bytes, most significant first.
    open spec fn encoding(m: Uuid) -> Seq<u8> {
        u64::encoding(m.high()) + u64::encoding(m.low())
    }
}

impl SizedProt for Uuid {
    fn is_valid(&self) -> (ok: bool) {
        true
    }

    fn prot_size(&self) -> (n: usize) {
        let buf = self.value;
        let buf1 = #[verifier::truncate] ((buf >> 64) as u64);
        let buf2 = #[verifier::truncate] (buf as u64);
        proof {
            lemma_halves(buf, 0, 0);
        }
        buf1.prot_size() + buf2.prot_size()
    }
}

impl WriteProt for Uuid {
    fn write(&self, out: &mut Vec<u8>) {
        let buf = self.value;
        let buf1 = #[verifier::truncate] ((buf >> 64) as u64);
        let buf2 = #[verifier::truncate] (buf as u64);
        proof {
            lemma_halves(buf, 0, 0);
        }
        buf1.write(out);
        buf2.write(out);
        assert(out@ =~= old(out)@ + Self::encoding(*self));
    }
}

impl ReadProt for Uuid {
    open spec fn decoding(s: Seq<u8>, pos: int) -> Result<(Uuid, int), CodecError> {
        match u64::decoding(s, pos) {
            Err(e) => Err(e),
            Ok((hi, mid)) => match u64::decoding(s, mid) {
                Err(e) => Err(e),
                Ok((lo, next)) => Ok(
                    (Uuid { value: (hi * 0x1_0000_0000_0000_0000 + lo) as u128 }, next),
                ),
            },
        }
    }

    proof fn lemma_decoding_sound(s: Seq<u8>, pos: int) {
        u64::lemma_decoding_sound(s, pos);
        match u64::decoding(s, pos) {
            Ok((hi, mid)) => {
                u64::lemma_decoding_sound(s, mid);
            },
            Err(_) => {},
        }
    }

    proof fn lemma_round_trip(m: Uuid, pre: Seq<u8>, rest: Seq<u8>) {
        let first = u64::encoding(m.high());
        let second = u64::encoding(m.low());
        let s = pre + Self::encoding(m) + rest;
        u64::lemma_round_trip(m.high(), pre, second + rest);
        assert(pre + first + (second + rest) =~= s);
        u64::lemma_round_trip(m.low(), pre + first, rest);
        assert(pre + first + second + rest =~= s);
    }

    fn read(src: &[u8], pos: usize) -> (r: Result<(Uuid, usize), CodecError>) {
        proof {
            u64::lemma_decoding_sound(src@, pos as int);
        }
        let (hi, mid) = match u64::read(src, pos) {
            Ok(found) => found,
            Err(e) => {
                return Err(e);
            },
        };
        let (lo, next) = match u64::read(src, mid) {
            Ok(found) => found,
            Err(e) => {
                return Err(e);
            },
        };
        proof {
            lemma_halves(0, hi, lo);
        }
        let mut buf: u128 = 0;
        buf = buf | (hi as u128);
        assert(buf == hi as u128) by (bit_vector)
            requires
                buf == 0u128 | (hi as u128),
        ;
        buf = buf << 64;
        buf = buf | (lo as u128);
        Ok((Uuid::from_u128(buf), next))
    }
}

/// A block position. On the wire `x` and `z` have 26 bits and `y` has 12.
#[derive(Clone, Copy, Debug, PartialEq, Eq, Structural, Hash)]
pub struct Position {
    pub x: i32,
    pub z: i32,
    pub y: i32,
}

/// The 64-bit word that carries a position: `x` in the upper 26 bits, `z`
/// in the 26 below, `y` in the lowest 12.
pub open spec fn position_word(p: Position) -> i64 {
    (((p.x & 0x3FFFFFF) as i64) << 38) | (((p.z & 0x3FFFFFF) as i64) << 12) | ((p.y as i64)
        & 0xFFF)
}

/// The position that a 64-bit word carries, each part with its sign.
pub open spec fn word_position(w: i64) -> Position {
    Position { x: (w >> 38) as i32, z: ((w << 26) >> 38) as i32, y: ((w << 52) >> 52) as i32 }
}

/// Whether each coordinate fits the bits that the wire gives it.
pub open spec fn position_fits(p: Position) -> bool {
    &&& -33554432 <= p.x <= 33554431
    &&& -33554432 <= p.z <= 33554431
    &&& -2048 <= p.y <= 2047
}

/// A position that fits comes back from its word.
pub proof fn lemma_position_word(x: i32, z: i32, y: i32)
    by (bit_vector)
    requires
        -33554432 <= x <= 33554431,
        -33554432 <= z <= 33554431,
        -2048 <= y <= 2047,
    ensures
        ((((((x & 0x3FFFFFF) as i64) << 38) | (((z & 0x3FFFFFF) as i64) << 12) | ((y as i64)
            & 0xFFF)) >> 38) as i32) == x,
        (((((((x & 0x3FFFFFF) as i64) << 38) | (((z & 0x3FFFFFF) as i64) << 12) | ((y as i64)
            & 0xFFF)) << 26) >> 38) as i32) == z,
        (((((((x & 0x3FFFFFF) as i64) << 38) | (((z & 0x3FFFFFF) as i64) << 12) | ((y as i64)
            & 0xFFF)) << 52) >> 52) as i32) == y,
{
}

/// The parts of any word fit.
pub proof fn lemma_word_position(w: i64)
    by (bit_vector)
    ensures
        -33554432 <= ((w >> 38) as i32) <= 33554431,
        -33554432 <= (((w << 26) >> 38) as i32) <= 33554431,
        -2048 <= (((w << 52) >> 52) as i32) <= 2047,
{
}

impl Position {
    pub fn new(x: i32, y: i32, z: i32) -> (p: Position)
        ensures
            p == (Position { x, z, y }),
    {
        Position { x, z, y }
    }

    /// The word that carries this position.
    pub fn to_word(&self) -> (w: i64)
        ensures
            w == position_word(*self),
    {
        (((self.x & 0x3FFFFFF) as i64) << 38) | (((self.z & 0x3FFFFFF) as i64) << 12) | ((
        self.y as i64) & 0xFFF)
    }

    /// The position that `w` carries.
    pub fn from_word(w: i64) -> (p: Position)
        ensures
            p == word_position(w),
            position_fits(p),
    {
        proof {
            lemma_word_position(w);
        }
        Position {
            x: #[verifier::truncate] ((w >> 38) as i32),
            z: #[verifier::truncate] (((w << 26) >> 38) as i32),
            y: #[verifier::truncate] (((w << 52) >> 52) as i32),
        }
    }
}

impl Prot for Position {
    type Model = Position;

    open spec fn model(&self) -> Position {
        *self
    }

    open spec fn valid(m: Position) -> bool {
        position_fits(m)
    }

    /// The word of the position as eight bytes, most significant first.
    open spec fn encoding(m: Position) -> Seq<u8> {
        i64::encoding(position_word(m))
    }
}

impl SizedProt for Position {
    fn is_valid(&self) -> (ok: bool) {
        -33554432 <= self.x && self.x <= 33554431 && -33554432 <= self.z && self.z <= 33554431
            && -2048 <= self.y && self.y <= 2047
    }

    fn prot_size(&self) -> (n: usize) {
        self.to_word().prot_size()
    }
}

impl WriteProt for Position {
    fn write(&self, out: &mut Vec<u8>) {
        let word = self.to_word();
        word.write(out)
    }
}

impl ReadProt for Position {
    open spec fn decoding(s: Seq<u8>, pos: int) -> Result<(Position, int), CodecError> {
        match i64::decoding(s, pos) {
            Ok((w, next)) => Ok((word_position(w), next)),
            Err(e) => Err(e),
        }
    }

    proof fn lemma_decoding_sound(s: Seq<u8>, pos: int) {
        i64::lemma_decoding_sound(s, pos);
        match i64::decoding(s, pos) {
            Ok((w, next)) => {
                lemma_word_position(w);
            },
            Err(_) => {},
        }
    }

    proof fn lemma_round_trip(m: Position, pre: Seq<u8>, rest: Seq<u8>) {
        i64::lemma_round_trip(position_word(m), pre, rest);
        lemma_position_word(m.x, m.z, m.y);
    }

    fn read(src: &[u8], pos: usize) -> (r: Result<(Position, usize), CodecError>) {
        match i64::read(src, pos) {
            Ok((word, next)) => Ok((Position::from_word(word), next)),
            Err(e) => Err(e),
        }
    }
}

/// A set of bit positions, held in 64-bit words.
#[derive(Debug)]
pub struct BitSet(pub SizedVec<i64>);

/// Whether bit `n` is set in `words`: bit `n % 64` of word `n / 64`.
pub open spec fn bit_of(words: Seq<i64>, n: int) -> bool {
    (words[n / 64] >> ((n % 64) as u32)) & 1 == 1
}

/// Testing a bit by a mask is reading it after a shift.
proof fn lemma_bit_test(w: i64, k: u32)
    by (bit_vector)
    requires
        k < 64,
    ensures
        (w & (1i64 << k) != 0) == ((w >> k) & 1 == 1),
        ((w | (1i64 << k)) >> k) & 1 == 1,
        ((w & !(1i64 << k)) >> k) & 1 == 0,
{
}

/// Setting or clearing one bit leaves the others as they were.
proof fn lemma_bit_others(w: i64, k: u32, j: u32)
    by (bit_vector)
    requires
        k < 64,
        j < 64,
        j != k,
    ensures
        ((w | (1i64 << k)) >> j) & 1 == (w >> j) & 1,
        ((w & !(1i64 << k)) >> j) & 1 == (w >> j) & 1,
{
}

impl View for BitSet {
    type V = Seq<i64>;

    open spec fn view(&self) -> Seq<i64> {
        self.0.vec@
    }
}

impl BitSet {
    /// Whether bit `n` is set.
    pub fn bit(&self, n: usize) -> (set: bool)
        requires
            n / 64 < self@.len(),
        ensures
            set == bit_of(self@, n as int),
    {
        let k: u32 = (n % 64) as u32;
        proof {
            lemma_bit_test(self@[(n / 64) as int], k);
        }
        self.0.vec[n / 64] & (1i64 << k) != 0
    }

    /// Sets bit `n` to `value` and leaves every other bit as it was.
    pub fn set_bit(&mut self, n: usize, value: bool)
        requires
            n / 64 < old(self)@.len(),
        ensures
            final(self)@.len() == old(self)@.len(),
            bit_of(final(self)@, n as int) == value,
            forall|m: int|
                0 <= m < 64 * old(self)@.len() && m != n ==> bit_of(final(self)@, m) == bit_of(
                    old(self)@,
                    m,
                ),
    {
        let k: u32 = (n % 64) as u32;
        let at: usize = n / 64;
        let word: i64 = self.0.vec[at];
        let changed: i64 = if value {
            word | (1i64 << k)
        } else {
            word & !(1i64 << k)
        };
        self.0.vec[at] = changed;
        proof {
            lemma_bit_test(word, k);
            assert forall|m: int|
                0 <= m < 64 * old(self)@.len() && m != n implies bit_of(self@, m) == bit_of(
                old(self)@,
                m,
            ) by {
                if m / 64 == at {
                    lemma_bit_others(word, k, (m % 64) as u32);
                }
            }
        }
    }
}

impl Prot for BitSet {
    type Model = Seq<i64>;

    open spec fn model(&self) -> Seq<i64> {
        self.0.model()
    }

    open spec fn valid(m: Seq<i64>) -> bool {
        SizedVec::<i64>::valid(m)
    }

    /// The number of words as a VarInt, then the words.
    open spec fn encoding(m: Seq<i64>) -> Seq<u8> {
        SizedVec::<i64>::encoding(m)
    }
}

impl SizedProt for BitSet {
    fn is_valid(&self) -> (ok: bool) {
        self.0.is_valid()
    }

    fn prot_size(&self) -> (n: usize) {
        self.0.prot_size()
    }
}

impl WriteProt for BitSet {
    fn write(&self, out: &mut Vec<u8>) {
        self.0.write(out)
    }
}

impl ReadProt for BitSet {
    open spec fn decoding(s: Seq<u8>, pos: int) -> Result<(Seq<i64>, int), CodecError> {
        SizedVec::<i64>::decoding(s, pos)
    }

    proof fn lemma_decoding_sound(s: Seq<u8>, pos: int) {
        SizedVec::<i64>::lemma_decoding_sound(s, pos);
    }

    proof fn lemma_round_trip(m: Seq<i64>, pre: Seq<u8>, rest: Seq<u8>) {
        SizedVec::<i64>::lemma_round_trip(m, pre, rest);
    }

    fn read(src: &[u8], pos: usize) -> (r: Result<(BitSet, usize), CodecError>) {
        match SizedVec::<i64>::read(src, pos) {
            Ok((words, next)) => Ok((BitSet(words), next)),
            Err(e) => Err(e),
        }
    }
}

#[derive(Clone, Copy, Debug, PartialEq, Eq, Structural)]
pub enum GameMode {
    Survival,
    Creative,
    Adventure,
    Spectator,
}

#[derive(Clone, Copy, Debug, PartialEq, Eq, Structural)]
pub enum WinGame {
    JustRespawn,
    RollCreditsAndRespawn,
}

/// Something that happened in the game and that the client should show.
#[derive(Clone, Copy, Debug, PartialEq, Eq, Structural)]
pub enum GameEvent {
    NoRespawnBlock,
    StartRain,
    EndRain,
    SetGameMode(GameMode),
    WinGame(WinGame),
    ArrowHit,
    SetRainLevel(Float),
    SetThunderLevel(Float),
    PufferfishSting,
    ElderGuardianAppearance,
    SetRespawnScreen(bool),
    SetLimitedCrafting(bool),
}

/// The bit pattern of 0.0 as a 32-bit IEEE 754 number.
pub const FLOAT_ZERO: u32 = 0x0000_0000;

/// The bit pattern of 1.0.
pub const FLOAT_ONE: u32 = 0x3f80_0000;

/// The bit pattern of 2.0.
pub const FLOAT_TWO: u32 = 0x4000_0000;

/// The bit pattern of 3.0.
pub const FLOAT_THREE: u32 = 0x4040_0000;

impl GameEvent {
    /// The code of the event: 0 to 12, without 5.
    pub open spec fn spec_code(self) -> u8 {
        match self {
            GameEvent::NoRespawnBlock => 0,
            GameEvent::StartRain => 1,
            GameEvent::EndRain => 2,
            GameEvent::SetGameMode(_) => 3,
            GameEvent::WinGame(_) => 4,
            GameEvent::ArrowHit => 6,
            GameEvent::SetRainLevel(_) => 7,
            GameEvent::SetThunderLevel(_) => 8,
            GameEvent::PufferfishSting => 9,
            GameEvent::ElderGuardianAppearance => 10,
            GameEvent::SetRespawnScreen(_) => 11,
            GameEvent::SetLimitedCrafting(_) => 12,
        }
    }

    /// The number that goes with the event: a level as it is, a choice as
    /// 0.0, 1.0, 2.0 or 3.0, and 0.0 where the event has nothing to say.
    pub open spec fn spec_value(self) -> Float {
        match self {
            GameEvent::SetGameMode(mode) => Float {
                bits: match mode {
                    GameMode::Survival => FLOAT_ZERO,
                    GameMode::Creative => FLOAT_ONE,
                    GameMode::Adventure => FLOAT_TWO,
                    GameMode::Spectator => FLOAT_THREE,
                },
            },
            GameEvent::WinGame(mode) => Float {
                bits: match mode {
                    WinGame::JustRespawn => FLOAT_ZERO,
                    WinGame::RollCreditsAndRespawn => FLOAT_ONE,
                },
            },
            GameEvent::SetRainLevel(level) => level,
            GameEvent::SetThunderLevel(level) => level,
            GameEvent::SetRespawnScreen(mode) => Float {
                bits: if mode {
                    FLOAT_ONE
                } else {
                    FLOAT_ZERO
                },
            },
            GameEvent::SetLimitedCrafting(mode) => Float {
                bits: if mode {
                    FLOAT_ONE
                } else {
                    FLOAT_ZERO
                },
            },
            _ => Float { bits: FLOAT_ZERO },
        }
    }

    /// The code of the event.
    pub fn code(&self) -> (code: u8)
        ensures
            code == self.spec_code(),
    {
        match self {
            GameEvent::NoRespawnBlock => 0,
            GameEvent::StartRain => 1,
            GameEvent::EndRain => 2,
            GameEvent::SetGameMode(_) => 3,
            GameEvent::WinGame(_) => 4,
            GameEvent::ArrowHit => 6,
            GameEvent::SetRainLevel(_) => 7,
            GameEvent::SetThunderLevel(_) => 8,
            GameEvent::PufferfishSting => 9,
            GameEvent::ElderGuardianAppearance => 10,
            GameEvent::SetRespawnScreen(_) => 11,
            GameEvent::SetLimitedCrafting(_) => 12,
        }
    }

    /// The number that goes with the event.
    pub fn value(&self) -> (value: Float)
        ensures
            value == self.spec_value(),
    {
        match self {
            GameEvent::SetGameMode(mode) => {
                let bits = match mode {
                    GameMode::Survival => FLOAT_ZERO,
                    GameMode::Creative => FLOAT_ONE,
                    GameMode::Adventure => FLOAT_TWO,
                    GameMode::Spectator => FLOAT_THREE,
                };
                Float { bits }
            },
            GameEvent::WinGame(mode) => {
                let bits = match mode {
                    WinGame::JustRespawn => FLOAT_ZERO,
                    WinGame::RollCreditsAndRespawn => FLOAT_ONE,
                };
                Float { bits }
            },
            GameEvent::SetRainLevel(level) => *level,
            GameEvent::SetThunderLevel(level) => *level,
            GameEvent::SetRespawnScreen(mode) => Float {
                bits: if *mode {
                    FLOAT_ONE
                } else {
                    FLOAT_ZERO
                },
            },
            GameEvent::SetLimitedCrafting(mode) => Float {
                bits: if *mode {
                    FLOAT_ONE
                } else {
                    FLOAT_ZERO
                },
            },
            _ => Float { bits: FLOAT_ZERO },
        }
    }
}

impl Prot for GameEvent {
    type Model = GameEvent;

    open spec fn model(&self) -> GameEvent {
        *self
    }

    open spec fn valid(m: GameEvent) -> bool {
        true
    }

    /// The code in one byte, then the number in four.
    open spec fn encoding(m: GameEvent) -> Seq<u8> {
        u8::encoding(m.spec_code()) + Float::encoding(m.spec_value())
    }
}

impl GameEvent {
    /// The event that a code and a number stand for, if they stand for one:
    /// a choice must be one of the numbers that its event knows, a switch is
    /// on at 1.0 and off otherwise, and an event that has nothing to say
    /// takes any number.
    pub open spec fn spec_from_parts(code: u8, value: Float) -> Option<GameEvent> {
        if code == 0 {
            Some(GameEvent::NoRespawnBlock)
        } else if code == 1 {
            Some(GameEvent::StartRain)
        } else if code == 2 {
            Some(GameEvent::EndRain)
        } else if code == 3 {
            if value.bits == FLOAT_ZERO {
                Some(GameEvent::SetGameMode(GameMode::Survival))
            } else if value.bits == FLOAT_ONE {
                Some(GameEvent::SetGameMode(GameMode::Creative))
            } else if value.bits == FLOAT_TWO {
                Some(GameEvent::SetGameMode(GameMode::Adventure))
            } else if value.bits == FLOAT_THREE {
                Some(GameEvent::SetGameMode(GameMode::Spectator))
            } else {
                None
            }
        } else if code == 4 {
            if value.bits == FLOAT_ZERO {
                Some(GameEvent::WinGame(WinGame::JustRespawn))
            } else if value.bits == FLOAT_ONE {
                Some(GameEvent::WinGame(WinGame::RollCreditsAndRespawn))
            } else {
                None
            }
        } else if code == 6 {
            Some(GameEvent::ArrowHit)
        } else if code == 7 {
            Some(GameEvent::SetRainLevel(value))
        } else if code == 8 {
            Some(GameEvent::SetThunderLevel(value))
        } else if code == 9 {
            Some(GameEvent::PufferfishSting)
        } else if code == 10 {
            Some(GameEvent::ElderGuardianAppearance)
        } else if code == 11 {
            Some(GameEvent::SetRespawnScreen(value.bits == FLOAT_ONE))
        } else if code == 12 {
            Some(GameEvent::SetLimitedCrafting(value.bits == FLOAT_ONE))
        } else {
            None
        }
    }

    /// The event that a code and a number stand for, if they stand for one.
    pub fn from_parts(code: u8, value: Float) -> (event: Option<GameEvent>)
        ensures
            event == GameEvent::spec_from_parts(code, value),
    {
        if code == 0 {
            Some(GameEvent::NoRespawnBlock)
        } else if code == 1 {
            Some(GameEvent::StartRain)
        } else if code == 2 {
            Some(GameEvent::EndRain)
        } else if code == 3 {
            if value.bits == FLOAT_ZERO {
                Some(GameEvent::SetGameMode(GameMode::Survival))
            } else if value.bits == FLOAT_ONE {
                Some(GameEvent::SetGameMode(GameMode::Creative))
            } else if value.bits == FLOAT_TWO {
                Some(GameEvent::SetGameMode(GameMode::Adventure))
            } else if value.bits == FLOAT_THREE {
                Some(GameEvent::SetGameMode(GameMode::Spectator))
            } else {
                None
            }
        } else if code == 4 {
            if value.bits == FLOAT_ZERO {
                Some(GameEvent::WinGame(WinGame::JustRespawn))
            } else if value.bits == FLOAT_ONE {
                Some(GameEvent::WinGame(WinGame::RollCreditsAndRespawn))
            } else {
                None
            }
        } else if code == 6 {
            Some(GameEvent::ArrowHit)
        } else if code == 7 {
            Some(GameEvent::SetRainLevel(value))
        } else if code == 8 {
            Some(GameEvent::SetThunderLevel(value))
        } else if code == 9 {
            Some(GameEvent::PufferfishSting)
        } else if code == 10 {
            Some(GameEvent::ElderGuardianAppearance)
        } else if code == 11 {
            Some(GameEvent::SetRespawnScreen(value.bits == FLOAT_ONE))
        } else if code == 12 {
            Some(GameEvent::SetLimitedCrafting(value.bits == FLOAT_ONE))
        } else {
            None
        }
    }
}

impl ReadProt for GameEvent {
    /// A code in one byte and a number in four, which must stand for an
    /// event.
    open spec fn decoding(s: Seq<u8>, pos: int) -> Result<(GameEvent, int), CodecError> {
        match u8::decoding(s, pos) {
            Err(e) => Err(e),
            Ok((code, mid)) => match Float::decoding(s, mid) {
                Err(e) => Err(e),
                Ok((value, next)) => match GameEvent::spec_from_parts(code, value) {
                    Some(event) => Ok((event, next)),
                    None => Err(CodecError::InvalidGameEvent),
                },
            },
        }
    }

    proof fn lemma_decoding_sound(s: Seq<u8>, pos: int) {
        u8::lemma_decoding_sound(s, pos);
        match u8::decoding(s, pos) {
            Ok((code, mid)) => {
                Float::lemma_decoding_sound(s, mid);
            },
            Err(_) => {},
        }
    }

    proof fn lemma_round_trip(m: GameEvent, pre: Seq<u8>, rest: Seq<u8>) {
        let first = u8::encoding(m.spec_code());
        let second = Float::encoding(m.spec_value());
        crate::protocol_types::traits::lemma_concat_assoc(pre, first, second);
        crate::protocol_types::traits::lemma_concat_assoc(pre + first, second, rest);
        crate::protocol_types::traits::lemma_concat_assoc(pre, first, second + rest);
        u8::lemma_round_trip(m.spec_code(), pre, second + rest);
        Float::lemma_round_trip(m.spec_value(), pre + first, rest);
    }

    fn read(src: &[u8], pos: usize) -> (r: Result<(GameEvent, usize), CodecError>) {
        proof {
            u8::lemma_decoding_sound(src@, pos as int);
        }
        let (code, mid) = match u8::read(src, pos) {
            Ok(found) => found,
            Err(e) => {
                return Err(e);
            },
        };
        let (value, next) = match Float::read(src, mid) {
            Ok(found) => found,
            Err(e) => {
                return Err(e);
            },
        };
        match GameEvent::from_parts(code, value) {
            Some(event) => Ok((event, next)),
            None => Err(CodecError::InvalidGameEvent),
        }
    }
}

impl SizedProt for GameEvent {
    fn is_valid(&self) -> (ok: bool) {
        true
    }

    fn prot_size(&self) -> (n: usize) {
        self.code().prot_size() + self.value().prot_size()
    }
}

impl WriteProt for GameEvent {
    fn write(&self, out: &mut Vec<u8>) {
        self.code().write(out);
        self.value().write(out);
    }
}

/// Where a player stands and looks: the coordinates as 64-bit and the
/// angles as 32-bit IEEE 754 bit patterns.
#[derive(Clone, Copy, Debug, PartialEq, Eq, Structural)]
pub struct PosRotGround {
    pub x: Double,
    pub y: Double,
    pub z: Double,
    pub pitch: Float,
    pub yaw: Float,
    pub on_ground: bool,
}

/// What a player does with the item in hand or the block in front.
#[derive(Clone, Copy, Debug, PartialEq, Eq, Structural)]
pub enum PlayerActions {
    StartDig,
    CancelDig,
    FinishDig,
    DropStack,
    DropItem,
    ShootArrowFinishEating,
    SwapHands,
}

impl PlayerActions {
    /// The number that stands for the action on the wire.
    pub open spec fn spec_code(self) -> i32 {
        match self {
            PlayerActions::StartDig => 0,
            PlayerActions::CancelDig => 1,
            PlayerActions::FinishDig => 2,
            PlayerActions::DropStack => 3,
            PlayerActions::DropItem => 4,
            PlayerActions::ShootArrowFinishEating => 5,
            PlayerActions::SwapHands => 6,
        }
    }

    /// The action that `code` stands for, if it stands for one.
    pub open spec fn spec_from_code(code: i32) -> Option<PlayerActions> {
        if code == 0 {
            Some(PlayerActions::StartDig)
        } else if code == 1 {
            Some(PlayerActions::CancelDig)
        } else if code == 2 {
            Some(PlayerActions::FinishDig)
        } else if code == 3 {
            Some(PlayerActions::DropStack)
        } else if code == 4 {
            Some(PlayerActions::DropItem)
        } else if code == 5 {
            Some(PlayerActions::ShootArrowFinishEating)
        } else if code == 6 {
            Some(PlayerActions::SwapHands)
        } else {
            None
        }
    }

    /// The number that stands for the action on the wire.
    pub fn code(&self) -> (code: i32)
        ensures
            code == self.spec_code(),
    {
        match self {
            PlayerActions::StartDig => 0,
            PlayerActions::CancelDig => 1,
            PlayerActions::FinishDig => 2,
            PlayerActions::DropStack => 3,
            PlayerActions::DropItem => 4,
            PlayerActions::ShootArrowFinishEating => 5,
            PlayerActions::SwapHands => 6,
        }
    }
}

impl Prot for PlayerActions {
    type Model = PlayerActions;

    open spec fn model(&self) -> PlayerActions {
        *self
    }

    open spec fn valid(m: PlayerActions) -> bool {
        true
    }

    /// The code of the action as a VarInt.
    open spec fn encoding(m: PlayerActions) -> Seq<u8> {
        VarInt::encoding(VarInt { value: m.spec_code() })
    }
}

impl SizedProt for PlayerActions {
    fn is_valid(&self) -> (ok: bool) {
        true
    }

    fn prot_size(&self) -> (n: usize) {
        VarInt { value: self.code() }.prot_size()
    }
}

impl ReadProt for PlayerActions {
    /// A VarInt from 0 to 6; any other is an error.
    open spec fn decoding(s: Seq<u8>, pos: int) -> Result<(PlayerActions, int), CodecError> {
        match VarInt::decoding(s, pos) {
            Err(e) => Err(e),
            Ok((action, next)) => match PlayerActions::spec_from_code(action.value) {
                Some(found) => Ok((found, next)),
                None => Err(CodecError::InvalidPlayerAction),
            },
        }
    }

    proof fn lemma_decoding_sound(s: Seq<u8>, pos: int) {
        VarInt::lemma_decoding_sound(s, pos);
    }

    proof fn lemma_round_trip(m: PlayerActions, pre: Seq<u8>, rest: Seq<u8>) {
        VarInt::lemma_round_trip(VarInt { value: m.spec_code() }, pre, rest);
    }

    fn read(src: &[u8], pos: usize) -> (r: Result<(PlayerActions, usize), CodecError>) {
        let (action, next) = match VarInt::read(src, pos) {
            Ok(found) => found,
            Err(e) => {
                return Err(e);
            },
        };
        match action.value {
            0 => Ok((PlayerActions::StartDig, next)),
            1 => Ok((PlayerActions::CancelDig, next)),
            2 => Ok((PlayerActions::FinishDig, next)),
            3 => Ok((PlayerActions::DropStack, next)),
            4 => Ok((PlayerActions::DropItem, next)),
            5 => Ok((PlayerActions::ShootArrowFinishEating, next)),
            6 => Ok((PlayerActions::SwapHands, next)),
            _ => Err(CodecError::InvalidPlayerAction),
        }
    }
}

} // verus!
