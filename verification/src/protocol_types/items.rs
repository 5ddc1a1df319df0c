use crate::err::CodecError;
use crate::nbt::NbtCompound;
use crate::protocol_types::primitives::VarInt;
use crate::protocol_types::sequences::{
    lemma_optional_round_trip, lemma_optional_sound, optional_decoding, read_optional, SizedVec,
};
use crate::protocol_types::traits::{lemma_concat_assoc, Prot, ReadProt, SizedProt, WriteProt};
use vstd::prelude::*;

verus! {

/// A stack of items, or an empty place: the item, its count and its data
/// are there exactly if `present` says so.
#[derive(Debug)]
pub struct Slot {
    pub present: bool,
    pub item_id: Option<VarInt>,
    pub item_count: Option<u8>,
    pub nbt: Option<NbtCompound>,
}

/// What a `Slot` holds.
pub struct SlotModel {
    pub present: bool,
    pub item_id: Option<VarInt>,
    pub item_count: Option<u8>,
    pub nbt: Option<Seq<u8>>,
}

impl Prot for Slot {
    type Model = SlotModel;

    open spec fn model(&self) -> SlotModel {
        SlotModel {
            present: self.present.model(),
            item_id: self.item_id.model(),
            item_count: self.item_count.model(),
            nbt: self.nbt.model(),
        }
    }

    open spec fn valid(m: SlotModel) -> bool {
        &&& bool::valid(m.present)
        &&& Option::<VarInt>::valid(m.item_id)
        &&& (m.item_id is Some <==> m.present)
        &&& Option::<u8>::valid(m.item_count)
        &&& (m.item_count is Some <==> m.present)
        &&& Option::<NbtCompound>::valid(m.nbt)
        &&& (m.nbt is Some <==> m.present)
    }

    open spec fn encoding(m: SlotModel) -> Seq<u8> {
        bool::encoding(m.present)
            + Option::<VarInt>::encoding(m.item_id)
            + Option::<u8>::encoding(m.item_count)
            + Option::<NbtCompound>::encoding(m.nbt)
    }
}

impl SizedProt for Slot {
    fn is_valid(&self) -> (ok: bool) {
        self.present.is_valid()
            && self.item_id.is_valid()
            && self.item_id.is_some() == self.present
            && self.item_count.is_valid()
            && self.item_count.is_some() == self.present
            && self.nbt.is_valid()
            && self.nbt.is_some() == self.present
    }

    fn prot_size(&self) -> (n: usize) {
        self.present.prot_size()
            + self.item_id.prot_size()
            + self.item_count.prot_size()
            + self.nbt.prot_size()
    }
}

impl WriteProt for Slot {
    fn write(&self, out: &mut Vec<u8>) {
        self.present.write(out);
        self.item_id.write(out);
        self.item_count.write(out);
        self.nbt.write(out);
        proof {
            let m = self.model();
            lemma_concat_assoc(
                old(out)@,
                bool::encoding(m.present),
                Option::<VarInt>::encoding(m.item_id),
            );
            lemma_concat_assoc(
                old(out)@,
                bool::encoding(m.present) + Option::<VarInt>::encoding(m.item_id),
                Option::<u8>::encoding(m.item_count),
            );
            lemma_concat_assoc(
                old(out)@,
                bool::encoding(m.present) + Option::<VarInt>::encoding(m.item_id) + Option::<u8>::encoding(m.item_count),
                Option::<NbtCompound>::encoding(m.nbt),
            );
        }
    }
}

impl ReadProt for Slot {
    open spec fn decoding(s: Seq<u8>, pos: int) -> Result<(SlotModel, int), CodecError> {
        match bool::decoding(s, pos) {
            Err(e) => Err(e),
            Ok((present, p1)) => {
                match optional_decoding::<VarInt>(present, s, p1) {
                    Err(e) => Err(e),
                    Ok((item_id, p2)) => {
                        match optional_decoding::<u8>(present, s, p2) {
                            Err(e) => Err(e),
                            Ok((item_count, p3)) => {
                                match optional_decoding::<NbtCompound>(present, s, p3) {
                                    Err(e) => Err(e),
                                    Ok((nbt, next)) => Ok((SlotModel { present, item_id, item_count, nbt }, next)),
                                }
                            },
                        }
                    },
                }
            },
        }
    }

    proof fn lemma_decoding_sound(s: Seq<u8>, pos: int) {
        bool::lemma_decoding_sound(s, pos);
        match bool::decoding(s, pos) {
            Ok((present, p1)) => {
                lemma_optional_sound::<VarInt>(present, s, p1);
                match optional_decoding::<VarInt>(present, s, p1) {
                    Ok((item_id, p2)) => {
                        lemma_optional_sound::<u8>(present, s, p2);
                        match optional_decoding::<u8>(present, s, p2) {
                            Ok((item_count, p3)) => {
                                lemma_optional_sound::<NbtCompound>(present, s, p3);
                            },
                            Err(_) => {},
                        }
                    },
                    Err(_) => {},
                }
            },
            Err(_) => {},
        }
    }

    proof fn lemma_round_trip(m: SlotModel, pre: Seq<u8>, rest: Seq<u8>) {
        let e0 = bool::encoding(m.present);
        let e1 = Option::<VarInt>::encoding(m.item_id);
        let e2 = Option::<u8>::encoding(m.item_count);
        let e3 = Option::<NbtCompound>::encoding(m.nbt);
        let p0 = pre;
        let p1 = p0 + e0;
        let p2 = p1 + e1;
        let p3 = p2 + e2;
        let r3 = rest;
        let r2 = e3 + r3;
        let r1 = e2 + r2;
        let r0 = e1 + r1;
        lemma_concat_assoc(pre, e0, e1);
        lemma_concat_assoc(pre, e0 + e1, e2);
        lemma_concat_assoc(pre, e0 + e1 + e2, e3);
        lemma_concat_assoc(p3, e3, r3);
        lemma_concat_assoc(p2, e2, r2);
        lemma_concat_assoc(p1, e1, r1);
        bool::lemma_round_trip(m.present, p0, r0);
        lemma_optional_round_trip::<VarInt>(m.item_id, p1, r1);
        lemma_optional_round_trip::<u8>(m.item_count, p2, r2);
        lemma_optional_round_trip::<NbtCompound>(m.nbt, p3, r3);
    }

    fn read(src: &[u8], pos: usize) -> (r: Result<(Slot, usize), CodecError>) {
        proof {
            bool::lemma_decoding_sound(src@, pos as int);
        }
        let (present, p1) = match bool::read(src, pos) {
            Ok(found) => found,
            Err(e) => {
                return Err(e);
            },
        };
        proof {
            lemma_optional_sound::<VarInt>(present, src@, p1 as int);
        }
        let (item_id, p2) = match read_optional::<VarInt>(present, src, p1) {
            Ok(found) => found,
            Err(e) => {
                return Err(e);
            },
        };
        proof {
            lemma_optional_sound::<u8>(present, src@, p2 as int);
        }
        let (item_count, p3) = match read_optional::<u8>(present, src, p2) {
            Ok(found) => found,
            Err(e) => {
                return Err(e);
            },
        };
        proof {
            lemma_optional_sound::<NbtCompound>(present, src@, p3 as int);
        }
        let (nbt, next) = match read_optional::<NbtCompound>(present, src, p3) {
            Ok(found) => found,
            Err(e) => {
                return Err(e);
            },
        };
        Ok((Slot { present, item_id, item_count, nbt }, next))
    }
}

/// A named set of numeric ids of one registry.
#[derive(Debug)]
pub struct Tag {
    pub name: String,
    pub types: SizedVec<VarInt>,
}

/// What a `Tag` holds.
pub struct TagModel {
    pub name: Seq<char>,
    pub types: Seq<VarInt>,
}

impl Prot for Tag {
    type Model = TagModel;

    open spec fn model(&self) -> TagModel {
        TagModel {
            name: self.name.model(),
            types: self.types.model(),
        }
    }

    open spec fn valid(m: TagModel) -> bool {
        &&& String::valid(m.name)
        &&& SizedVec::<VarInt>::valid(m.types)
    }

    open spec fn encoding(m: TagModel) -> Seq<u8> {
        String::encoding(m.name)
            + SizedVec::<VarInt>::encoding(m.types)
    }
}

impl SizedProt for Tag {
    fn is_valid(&self) -> (ok: bool) {
        self.name.is_valid()
            && self.types.is_valid()
    }

    fn prot_size(&self) -> (n: usize) {
        self.name.prot_size()
            + self.types.prot_size()
    }
}

impl WriteProt for Tag {
    fn write(&self, out: &mut Vec<u8>) {
        self.name.write(out);
        self.types.write(out);
        proof {
            let m = self.model();
            lemma_concat_assoc(
                old(out)@,
                String::encoding(m.name),
                SizedVec::<VarInt>::encoding(m.types),
            );
        }
    }
}

impl ReadProt for Tag {
    open spec fn decoding(s: Seq<u8>, pos: int) -> Result<(TagModel, int), CodecError> {
        match String::decoding(s, pos) {
            Err(e) => Err(e),
            Ok((name, p1)) => {
                match SizedVec::<VarInt>::decoding(s, p1) {
                    Err(e) => Err(e),
                    Ok((types, next)) => Ok((TagModel { name, types }, next)),
                }
            },
        }
    }

    proof fn lemma_decoding_sound(s: Seq<u8>, pos: int) {
        String::lemma_decoding_sound(s, pos);
        match String::decoding(s, pos) {
            Ok((name, p1)) => {
                SizedVec::<VarInt>::lemma_decoding_sound(s, p1);
            },
            Err(_) => {},
        }
    }

    proof fn lemma_round_trip(m: TagModel, pre: Seq<u8>, rest: Seq<u8>) {
        let e0 = String::encoding(m.name);
        let e1 = SizedVec::<VarInt>::encoding(m.types);
        let p0 = pre;
        let p1 = p0 + e0;
        let r1 = rest;
        let r0 = e1 + r1;
        lemma_concat_assoc(pre, e0, e1);
        lemma_concat_assoc(p1, e1, r1);
        String::lemma_round_trip(m.name, p0, r0);
        SizedVec::<VarInt>::lemma_round_trip(m.types, p1, r1);
    }

    fn read(src: &[u8], pos: usize) -> (r: Result<(Tag, usize), CodecError>) {
        proof {
            String::lemma_decoding_sound(src@, pos as int);
        }
        let (name, p1) = match String::read(src, pos) {
            Ok(found) => found,
            Err(e) => {
                return Err(e);
            },
        };
        proof {
            SizedVec::<VarInt>::lemma_decoding_sound(src@, p1 as int);
        }
        let (types, next) = match SizedVec::<VarInt>::read(src, p1) {
            Ok(found) => found,
            Err(e) => {
                return Err(e);
            },
        };
        Ok((Tag { name, types }, next))
    }
}

/// The tags of one registry, such as `minecraft:block` or `minecraft:item`.
#[derive(Debug)]
pub struct TagGroup {
    pub typ: String,
    pub tags: SizedVec<Tag>,
}

/// What a `TagGroup` holds.
pub struct TagGroupModel {
    pub typ: Seq<char>,
    pub tags: Seq<TagModel>,
}

impl Prot for TagGroup {
    type Model = TagGroupModel;

    open spec fn model(&self) -> TagGroupModel {
        TagGroupModel {
            typ: self.typ.model(),
            tags: self.tags.model(),
        }
    }

    open spec fn valid(m: TagGroupModel) -> bool {
        &&& String::valid(m.typ)
        &&& SizedVec::<Tag>::valid(m.tags)
    }

    open spec fn encoding(m: TagGroupModel) -> Seq<u8> {
        String::encoding(m.typ)
            + SizedVec::<Tag>::encoding(m.tags)
    }
}

impl SizedProt for TagGroup {
    fn is_valid(&self) -> (ok: bool) {
        self.typ.is_valid()
            && self.tags.is_valid()
    }

    fn prot_size(&self) -> (n: usize) {
        self.typ.prot_size()
            + self.tags.prot_size()
    }
}

impl WriteProt for TagGroup {
    fn write(&self, out: &mut Vec<u8>) {
        self.typ.write(out);
        self.tags.write(out);
        proof {
            let m = self.model();
            lemma_concat_assoc(
                old(out)@,
                String::encoding(m.typ),
                SizedVec::<Tag>::encoding(m.tags),
            );
        }
    }
}

impl ReadProt for TagGroup {
    open spec fn decoding(s: Seq<u8>, pos: int) -> Result<(TagGroupModel, int), CodecError> {
        match String::decoding(s, pos) {
            Err(e) => Err(e),
            Ok((typ, p1)) => {
                match SizedVec::<Tag>::decoding(s, p1) {
                    Err(e) => Err(e),
                    Ok((tags, next)) => Ok((TagGroupModel { typ, tags }, next)),
                }
            },
        }
    }

    proof fn lemma_decoding_sound(s: Seq<u8>, pos: int) {
        String::lemma_decoding_sound(s, pos);
        match String::decoding(s, pos) {
            Ok((typ, p1)) => {
                SizedVec::<Tag>::lemma_decoding_sound(s, p1);
            },
            Err(_) => {},
        }
    }

    proof fn lemma_round_trip(m: TagGroupModel, pre: Seq<u8>, rest: Seq<u8>) {
        let e0 = String::encoding(m.typ);
        let e1 = SizedVec::<Tag>::encoding(m.tags);
        let p0 = pre;
        let p1 = p0 + e0;
        let r1 = rest;
        let r0 = e1 + r1;
        lemma_concat_assoc(pre, e0, e1);
        lemma_concat_assoc(p1, e1, r1);
        String::lemma_round_trip(m.typ, p0, r0);
        SizedVec::<Tag>::lemma_round_trip(m.tags, p1, r1);
    }

    fn read(src: &[u8], pos: usize) -> (r: Result<(TagGroup, usize), CodecError>) {
        proof {
            String::lemma_decoding_sound(src@, pos as int);
        }
        let (typ, p1) = match String::read(src, pos) {
            Ok(found) => found,
            Err(e) => {
                return Err(e);
            },
        };
        proof {
            SizedVec::<Tag>::lemma_decoding_sound(src@, p1 as int);
        }
        let (tags, next) = match SizedVec::<Tag>::read(src, p1) {
            Ok(found) => found,
            Err(e) => {
                return Err(e);
            },
        };
        Ok((TagGroup { typ, tags }, next))
    }
}

/// A block with data of its own inside a chunk column: its place in the
/// column, its kind and its data.
#[derive(Debug)]
pub struct BlockEntity {
    pub xz: u8,
    pub y: i16,
    pub typ: VarInt,
    pub data: NbtCompound,
}

/// What a `BlockEntity` holds.
pub struct BlockEntityModel {
    pub xz: u8,
    pub y: i16,
    pub typ: VarInt,
    pub data: Seq<u8>,
}

impl Prot for BlockEntity {
    type Model = BlockEntityModel;

    open spec fn model(&self) -> BlockEntityModel {
        BlockEntityModel {
            xz: self.xz.model(),
            y: self.y.model(),
            typ: self.typ.model(),
            data: self.data.model(),
        }
    }

    open spec fn valid(m: BlockEntityModel) -> bool {
        &&& u8::valid(m.xz)
        &&& i16::valid(m.y)
        &&& VarInt::valid(m.typ)
        &&& NbtCompound::valid(m.data)
    }

    open spec fn encoding(m: BlockEntityModel) -> Seq<u8> {
        u8::encoding(m.xz)
            + i16::encoding(m.y)
            + VarInt::encoding(m.typ)
            + NbtCompound::encoding(m.data)
    }
}

impl SizedProt for BlockEntity {
    fn is_valid(&self) -> (ok: bool) {
        self.xz.is_valid()
            && self.y.is_valid()
            && self.typ.is_valid()
            && self.data.is_valid()
    }

    fn prot_size(&self) -> (n: usize) {
        self.xz.prot_size()
            + self.y.prot_size()
            + self.typ.prot_size()
            + self.data.prot_size()
    }
}

impl WriteProt for BlockEntity {
    fn write(&self, out: &mut Vec<u8>) {
        self.xz.write(out);
        self.y.write(out);
        self.typ.write(out);
        self.data.write(out);
        proof {
            let m = self.model();
            lemma_concat_assoc(
                old(out)@,
                u8::encoding(m.xz),
                i16::encoding(m.y),
            );
            lemma_concat_assoc(
                old(out)@,
                u8::encoding(m.xz) + i16::encoding(m.y),
                VarInt::encoding(m.typ),
            );
            lemma_concat_assoc(
                old(out)@,
                u8::encoding(m.xz) + i16::encoding(m.y) + VarInt::encoding(m.typ),
                NbtCompound::encoding(m.data),
            );
        }
    }
}

impl ReadProt for BlockEntity {
    open spec fn decoding(s: Seq<u8>, pos: int) -> Result<(BlockEntityModel, int), CodecError> {
        match u8::decoding(s, pos) {
            Err(e) => Err(e),
            Ok((xz, p1)) => {
                match i16::decoding(s, p1) {
                    Err(e) => Err(e),
                    Ok((y, p2)) => {
                        match VarInt::decoding(s, p2) {
                            Err(e) => Err(e),
                            Ok((typ, p3)) => {
                                match NbtCompound::decoding(s, p3) {
                                    Err(e) => Err(e),
                                    Ok((data, next)) => Ok((BlockEntityModel { xz, y, typ, data }, next)),
                                }
                            },
                        }
                    },
                }
            },
        }
    }

    proof fn lemma_decoding_sound(s: Seq<u8>, pos: int) {
        u8::lemma_decoding_sound(s, pos);
        match u8::decoding(s, pos) {
            Ok((xz, p1)) => {
                i16::lemma_decoding_sound(s, p1);
                match i16::decoding(s, p1) {
                    Ok((y, p2)) => {
                        VarInt::lemma_decoding_sound(s, p2);
                        match VarInt::decoding(s, p2) {
                            Ok((typ, p3)) => {
                                NbtCompound::lemma_decoding_sound(s, p3);
                            },
                            Err(_) => {},
                        }
                    },
                    Err(_) => {},
                }
            },
            Err(_) => {},
        }
    }

    proof fn lemma_round_trip(m: BlockEntityModel, pre: Seq<u8>, rest: Seq<u8>) {
        let e0 = u8::encoding(m.xz);
        let e1 = i16::encoding(m.y);
        let e2 = VarInt::encoding(m.typ);
        let e3 = NbtCompound::encoding(m.data);
        let p0 = pre;
        let p1 = p0 + e0;
        let p2 = p1 + e1;
        let p3 = p2 + e2;
        let r3 = rest;
        let r2 = e3 + r3;
        let r1 = e2 + r2;
        let r0 = e1 + r1;
        lemma_concat_assoc(pre, e0, e1);
        lemma_concat_assoc(pre, e0 + e1, e2);
        lemma_concat_assoc(pre, e0 + e1 + e2, e3);
        lemma_concat_assoc(p3, e3, r3);
        lemma_concat_assoc(p2, e2, r2);
        lemma_concat_assoc(p1, e1, r1);
        u8::lemma_round_trip(m.xz, p0, r0);
        i16::lemma_round_trip(m.y, p1, r1);
        VarInt::lemma_round_trip(m.typ, p2, r2);
        NbtCompound::lemma_round_trip(m.data, p3, r3);
    }

    fn read(src: &[u8], pos: usize) -> (r: Result<(BlockEntity, usize), CodecError>) {
        proof {
            u8::lemma_decoding_sound(src@, pos as int);
        }
        let (xz, p1) = match u8::read(src, pos) {
            Ok(found) => found,
            Err(e) => {
                return Err(e);
            },
        };
        proof {
            i16::lemma_decoding_sound(src@, p1 as int);
        }
        let (y, p2) = match i16::read(src, p1) {
            Ok(found) => found,
            Err(e) => {
                return Err(e);
            },
        };
        proof {
            VarInt::lemma_decoding_sound(src@, p2 as int);
        }
        let (typ, p3) = match VarInt::read(src, p2) {
            Ok(found) => found,
            Err(e) => {
                return Err(e);
            },
        };
        proof {
            NbtCompound::lemma_decoding_sound(src@, p3 as int);
        }
        let (data, next) = match NbtCompound::read(src, p3) {
            Ok(found) => found,
            Err(e) => {
                return Err(e);
            },
        };
        Ok((BlockEntity { xz, y, typ, data }, next))
    }
}

} // verus!
