use crate::err::CodecError;
use crate::protocol_types::items::{Slot, SlotModel};
use crate::protocol_types::numbers::Float;
use crate::protocol_types::primitives::VarInt;
use crate::protocol_types::sequences::SizedVec;
use crate::protocol_types::text::str_eq;
use crate::protocol_types::traits::{lemma_concat_assoc, Prot, ReadProt, SizedProt, WriteProt};
use vstd::prelude::*;

verus! {

/// The stacks any one of which fills a place in a recipe.
pub type RecipeIngredient = SizedVec<Slot>;

/// The body of a shapeless crafting recipe.
#[derive(Debug)]
pub struct CraftingShapeless {
    pub group: String,
    pub category: VarInt,
    pub ingredients: SizedVec<SizedVec<Slot>>,
    pub result: Slot,
}

/// What a `CraftingShapeless` holds.
pub struct CraftingShapelessModel {
    pub group: Seq<char>,
    pub category: VarInt,
    pub ingredients: Seq<Seq<SlotModel>>,
    pub result: SlotModel,
}

impl Prot for CraftingShapeless {
    type Model = CraftingShapelessModel;

    open spec fn model(&self) -> CraftingShapelessModel {
        CraftingShapelessModel {
            group: self.group.model(),
            category: self.category.model(),
            ingredients: self.ingredients.model(),
            result: self.result.model(),
        }
    }

    open spec fn valid(m: CraftingShapelessModel) -> bool {
        &&& String::valid(m.group)
        &&& VarInt::valid(m.category)
        &&& SizedVec::<SizedVec<Slot>>::valid(m.ingredients)
        &&& Slot::valid(m.result)
    }

    open spec fn encoding(m: CraftingShapelessModel) -> Seq<u8> {
        String::encoding(m.group)
            + VarInt::encoding(m.category)
            + SizedVec::<SizedVec<Slot>>::encoding(m.ingredients)
            + Slot::encoding(m.result)
    }
}

impl SizedProt for CraftingShapeless {
    fn is_valid(&self) -> (ok: bool) {
        self.group.is_valid()
            && self.category.is_valid()
            && self.ingredients.is_valid()
            && self.result.is_valid()
    }

    fn prot_size(&self) -> (n: usize) {
        self.group.prot_size()
            + self.category.prot_size()
            + self.ingredients.prot_size()
            + self.result.prot_size()
    }
}

impl WriteProt for CraftingShapeless {
    fn write(&self, out: &mut Vec<u8>) {
        self.group.write(out);
        self.category.write(out);
        self.ingredients.write(out);
        self.result.write(out);
        proof {
            let m = self.model();
            lemma_concat_assoc(
                old(out)@,
                String::encoding(m.group),
                VarInt::encoding(m.category),
            );
            lemma_concat_assoc(
                old(out)@,
                String::encoding(m.group) + VarInt::encoding(m.category),
                SizedVec::<SizedVec<Slot>>::encoding(m.ingredients),
            );
            lemma_concat_assoc(
                old(out)@,
                String::encoding(m.group) + VarInt::encoding(m.category) + SizedVec::<SizedVec<Slot>>::encoding(m.ingredients),
                Slot::encoding(m.result),
            );
        }
    }
}

impl ReadProt for CraftingShapeless {
    open spec fn decoding(s: Seq<u8>, pos: int) -> Result<(CraftingShapelessModel, int), CodecError> {
        match String::decoding(s, pos) {
            Err(e) => Err(e),
            Ok((group, p1)) => {
                match VarInt::decoding(s, p1) {
                    Err(e) => Err(e),
                    Ok((category, p2)) => {
                        match SizedVec::<SizedVec<Slot>>::decoding(s, p2) {
                            Err(e) => Err(e),
                            Ok((ingredients, p3)) => {
                                match Slot::decoding(s, p3) {
                                    Err(e) => Err(e),
                                    Ok((result, next)) => Ok((CraftingShapelessModel { group, category, ingredients, result }, next)),
                                }
                            },
                        }
                    },
                }
            },
        }
    }

    proof fn lemma_decoding_sound(s: Seq<u8>, pos: int) {
        String::lemma_decoding_sound(s, pos);
        match String::decoding(s, pos) {
            Ok((group, p1)) => {
                VarInt::lemma_decoding_sound(s, p1);
                match VarInt::decoding(s, p1) {
                    Ok((category, p2)) => {
                        SizedVec::<SizedVec<Slot>>::lemma_decoding_sound(s, p2);
                        match SizedVec::<SizedVec<Slot>>::decoding(s, p2) {
                            Ok((ingredients, p3)) => {
                                Slot::lemma_decoding_sound(s, p3);
                            },
                            Err(_) => {},
                        }
                    },
                    Err(_) => {},
                }
            },
            Err(_) => {},
        }
    }

    proof fn lemma_round_trip(m: CraftingShapelessModel, pre: Seq<u8>, rest: Seq<u8>) {
        let e0 = String::encoding(m.group);
        let e1 = VarInt::encoding(m.category);
        let e2 = SizedVec::<SizedVec<Slot>>::encoding(m.ingredients);
        let e3 = Slot::encoding(m.result);
        let p0 = pre;
        let p1 = p0 + e0;
        let p2 = p1 + e1;
        let p3 = p2 + e2;
        let r3 = rest;
        let r2 = e3 + r3;
        let r1 = e2 + r2;
        let r0 = e1 + r1;
        lemma_concat_assoc(pre, e0, e1);
        lemma_concat_assoc(pre, e0 + e1, e2);
        lemma_concat_assoc(pre, e0 + e1 + e2, e3);
        lemma_concat_assoc(p3, e3, r3);
        lemma_concat_assoc(p2, e2, r2);
        lemma_concat_assoc(p1, e1, r1);
        String::lemma_round_trip(m.group, p0, r0);
        VarInt::lemma_round_trip(m.category, p1, r1);
        SizedVec::<SizedVec<Slot>>::lemma_round_trip(m.ingredients, p2, r2);
        Slot::lemma_round_trip(m.result, p3, r3);
    }

    fn read(src: &[u8], pos: usize) -> (r: Result<(CraftingShapeless, usize), CodecError>) {
        proof {
            String::lemma_decoding_sound(src@, pos as int);
        }
        let (group, p1) = match String::read(src, pos) {
            Ok(found) => found,
            Err(e) => {
                return Err(e);
            },
        };
        proof {
            VarInt::lemma_decoding_sound(src@, p1 as int);
        }
        let (category, p2) = match VarInt::read(src, p1) {
            Ok(found) => found,
            Err(e) => {
                return Err(e);
            },
        };
        proof {
            SizedVec::<SizedVec<Slot>>::lemma_decoding_sound(src@, p2 as int);
        }
        let (ingredients, p3) = match SizedVec::<SizedVec<Slot>>::read(src, p2) {
            Ok(found) => found,
            Err(e) => {
                return Err(e);
            },
        };
        proof {
            Slot::lemma_decoding_sound(src@, p3 as int);
        }
        let (result, next) = match Slot::read(src, p3) {
            Ok(found) => found,
            Err(e) => {
                return Err(e);
            },
        };
        Ok((CraftingShapeless { group, category, ingredients, result }, next))
    }
}

/// The body of a shaped crafting recipe: a grid of `width` by `height`.
#[derive(Debug)]
pub struct CraftingShaped {
    pub width: VarInt,
    pub height: VarInt,
    pub group: String,
    pub category: VarInt,
    pub ingredients: SizedVec<SizedVec<Slot>>,
    pub result: Slot,
    pub show_notification: bool,
}

/// What a `CraftingShaped` holds.
pub struct CraftingShapedModel {
    pub width: VarInt,
    pub height: VarInt,
    pub group: Seq<char>,
    pub category: VarInt,
    pub ingredients: Seq<Seq<SlotModel>>,
    pub result: SlotModel,
    pub show_notification: bool,
}

impl Prot for CraftingShaped {
    type Model = CraftingShapedModel;

    open spec fn model(&self) -> CraftingShapedModel {
        CraftingShapedModel {
            width: self.width.model(),
            height: self.height.model(),
            group: self.group.model(),
            category: self.category.model(),
            ingredients: self.ingredients.model(),
            result: self.result.model(),
            show_notification: self.show_notification.model(),
        }
    }

    open spec fn valid(m: CraftingShapedModel) -> bool {
        &&& VarInt::valid(m.width)
        &&& VarInt::valid(m.height)
        &&& String::valid(m.group)
        &&& VarInt::valid(m.category)
        &&& SizedVec::<SizedVec<Slot>>::valid(m.ingredients)
        &&& Slot::valid(m.result)
        &&& bool::valid(m.show_notification)
    }

    open spec fn encoding(m: CraftingShapedModel) -> Seq<u8> {
        VarInt::encoding(m.width)
            + VarInt::encoding(m.height)
            + String::encoding(m.group)
            + VarInt::encoding(m.category)
            + SizedVec::<SizedVec<Slot>>::encoding(m.ingredients)
            + Slot::encoding(m.result)
            + bool::encoding(m.show_notification)
    }
}

impl SizedProt for CraftingShaped {
    fn is_valid(&self) -> (ok: bool) {
        self.width.is_valid()
            && self.height.is_valid()
            && self.group.is_valid()
            && self.category.is_valid()
            && self.ingredients.is_valid()
            && self.result.is_valid()
            && self.show_notification.is_valid()
    }

    fn prot_size(&self) -> (n: usize) {
        self.width.prot_size()
            + self.height.prot_size()
            + self.group.prot_size()
            + self.category.prot_size()
            + self.ingredients.prot_size()
            + self.result.prot_size()
            + self.show_notification.prot_size()
    }
}

impl WriteProt for CraftingShaped {
    fn write(&self, out: &mut Vec<u8>) {
        self.width.write(out);
        self.height.write(out);
        self.group.write(out);
        self.category.write(out);
        self.ingredients.write(out);
        self.result.write(out);
        self.show_notification.write(out);
        proof {
            let m = self.model();
            lemma_concat_assoc(
                old(out)@,
                VarInt::encoding(m.width),
                VarInt::encoding(m.height),
            );
            lemma_concat_assoc(
                old(out)@,
                VarInt::encoding(m.width) + VarInt::encoding(m.height),
                String::encoding(m.group),
            );
            lemma_concat_assoc(
                old(out)@,
                VarInt::encoding(m.width) + VarInt::encoding(m.height) + String::encoding(m.group),
                VarInt::encoding(m.category),
            );
            lemma_concat_assoc(
                old(out)@,
                VarInt::encoding(m.width) + VarInt::encoding(m.height) + String::encoding(m.group) + VarInt::encoding(m.category),
                SizedVec::<SizedVec<Slot>>::encoding(m.ingredients),
            );
            lemma_concat_assoc(
                old(out)@,
                VarInt::encoding(m.width) + VarInt::encoding(m.height) + String::encoding(m.group) + VarInt::encoding(m.category) + SizedVec::<SizedVec<Slot>>::encoding(m.ingredients),
                Slot::encoding(m.result),
            );
            lemma_concat_assoc(
                old(out)@,
                VarInt::encoding(m.width) + VarInt::encoding(m.height) + String::encoding(m.group) + VarInt::encoding(m.category) + SizedVec::<SizedVec<Slot>>::encoding(m.ingredients) + Slot::encoding(m.result),
                bool::encoding(m.show_notification),
            );
        }
    }
}

impl ReadProt for CraftingShaped {
    open spec fn decoding(s: Seq<u8>, pos: int) -> Result<(CraftingShapedModel, int), CodecError> {
        match VarInt::decoding(s, pos) {
            Err(e) => Err(e),
            Ok((width, p1)) => {
                match VarInt::decoding(s, p1) {
                    Err(e) => Err(e),
                    Ok((height, p2)) => {
                        match String::decoding(s, p2) {
                            Err(e) => Err(e),
                            Ok((group, p3)) => {
                                match VarInt::decoding(s, p3) {
                                    Err(e) => Err(e),
                                    Ok((category, p4)) => {
                                        match SizedVec::<SizedVec<Slot>>::decoding(s, p4) {
                                            Err(e) => Err(e),
                                            Ok((ingredients, p5)) => {
                                                match Slot::decoding(s, p5) {
                                                    Err(e) => Err(e),
                                                    Ok((result, p6)) => {
                                                        match bool::decoding(s, p6) {
                                                            Err(e) => Err(e),
                                                            Ok((show_notification, next)) => Ok((CraftingShapedModel { width, height, group, category, ingredients, result, show_notification }, next)),
                                                        }
                                                    },
                                                }
                                            },
                                        }
                                    },
                                }
                            },
                        }
                    },
                }
            },
        }
    }

    proof fn lemma_decoding_sound(s: Seq<u8>, pos: int) {
        VarInt::lemma_decoding_sound(s, pos);
        match VarInt::decoding(s, pos) {
            Ok((width, p1)) => {
                VarInt::lemma_decoding_sound(s, p1);
                match VarInt::decoding(s, p1) {
                    Ok((height, p2)) => {
                        String::lemma_decoding_sound(s, p2);
                        match String::decoding(s, p2) {
                            Ok((group, p3)) => {
                                VarInt::lemma_decoding_sound(s, p3);
                                match VarInt::decoding(s, p3) {
                                    Ok((category, p4)) => {
                                        SizedVec::<SizedVec<Slot>>::lemma_decoding_sound(s, p4);
                                        match SizedVec::<SizedVec<Slot>>::decoding(s, p4) {
                                            Ok((ingredients, p5)) => {
                                                Slot::lemma_decoding_sound(s, p5);
                                                match Slot::decoding(s, p5) {
                                                    Ok((result, p6)) => {
                                                        bool::lemma_decoding_sound(s, p6);
                                                    },
                                                    Err(_) => {},
                                                }
                                            },
                                            Err(_) => {},
                                        }
                                    },
                                    Err(_) => {},
                                }
                            },
                            Err(_) => {},
                        }
                    },
                    Err(_) => {},
                }
            },
            Err(_) => {},
        }
    }

    proof fn lemma_round_trip(m: CraftingShapedModel, pre: Seq<u8>, rest: Seq<u8>) {
        let e0 = VarInt::encoding(m.width);
        let e1 = VarInt::encoding(m.height);
        let e2 = String::encoding(m.group);
        let e3 = VarInt::encoding(m.category);
        let e4 = SizedVec::<SizedVec<Slot>>::encoding(m.ingredients);
        let e5 = Slot::encoding(m.result);
        let e6 = bool::encoding(m.show_notification);
        let p0 = pre;
        let p1 = p0 + e0;
        let p2 = p1 + e1;
        let p3 = p2 + e2;
        let p4 = p3 + e3;
        let p5 = p4 + e4;
        let p6 = p5 + e5;
        let r6 = rest;
        let r5 = e6 + r6;
        let r4 = e5 + r5;
        let r3 = e4 + r4;
        let r2 = e3 + r3;
        let r1 = e2 + r2;
        let r0 = e1 + r1;
        lemma_concat_assoc(pre, e0, e1);
        lemma_concat_assoc(pre, e0 + e1, e2);
        lemma_concat_assoc(pre, e0 + e1 + e2, e3);
        lemma_concat_assoc(pre, e0 + e1 + e2 + e3, e4);
        lemma_concat_assoc(pre, e0 + e1 + e2 + e3 + e4, e5);
        lemma_concat_assoc(pre, e0 + e1 + e2 + e3 + e4 + e5, e6);
        lemma_concat_assoc(p6, e6, r6);
        lemma_concat_assoc(p5, e5, r5);
        lemma_concat_assoc(p4, e4, r4);
        lemma_concat_assoc(p3, e3, r3);
        lemma_concat_assoc(p2, e2, r2);
        lemma_concat_assoc(p1, e1, r1);
        VarInt::lemma_round_trip(m.width, p0, r0);
        VarInt::lemma_round_trip(m.height, p1, r1);
        String::lemma_round_trip(m.group, p2, r2);
        VarInt::lemma_round_trip(m.category, p3, r3);
        SizedVec::<SizedVec<Slot>>::lemma_round_trip(m.ingredients, p4, r4);
        Slot::lemma_round_trip(m.result, p5, r5);
        bool::lemma_round_trip(m.show_notification, p6, r6);
    }

    fn read(src: &[u8], pos: usize) -> (r: Result<(CraftingShaped, usize), CodecError>) {
        proof {
            VarInt::lemma_decoding_sound(src@, pos as int);
        }
        let (width, p1) = match VarInt::read(src, pos) {
            Ok(found) => found,
            Err(e) => {
                return Err(e);
            },
        };
        proof {
            VarInt::lemma_decoding_sound(src@, p1 as int);
        }
        let (height, p2) = match VarInt::read(src, p1) {
            Ok(found) => found,
            Err(e) => {
                return Err(e);
            },
        };
        proof {
            String::lemma_decoding_sound(src@, p2 as int);
        }
        let (group, p3) = match String::read(src, p2) {
            Ok(found) => found,
            Err(e) => {
                return Err(e);
            },
        };
        proof {
            VarInt::lemma_decoding_sound(src@, p3 as int);
        }
        let (category, p4) = match VarInt::read(src, p3) {
            Ok(found) => found,
            Err(e) => {
                return Err(e);
            },
        };
        proof {
            SizedVec::<SizedVec<Slot>>::lemma_decoding_sound(src@, p4 as int);
        }
        let (ingredients, p5) = match SizedVec::<SizedVec<Slot>>::read(src, p4) {
            Ok(found) => found,
            Err(e) => {
                return Err(e);
            },
        };
        proof {
            Slot::lemma_decoding_sound(src@, p5 as int);
        }
        let (result, p6) = match Slot::read(src, p5) {
            Ok(found) => found,
            Err(e) => {
                return Err(e);
            },
        };
        proof {
            bool::lemma_decoding_sound(src@, p6 as int);
        }
        let (show_notification, next) = match bool::read(src, p6) {
            Ok(found) => found,
            Err(e) => {
                return Err(e);
            },
        };
        Ok((CraftingShaped { width, height, group, category, ingredients, result, show_notification }, next))
    }
}

/// The body of a recipe whose rule the client knows by its type alone.
#[derive(Clone, Copy, Debug, PartialEq, Eq, Structural)]
pub struct CraftingSpecial {
    pub category: VarInt,
}

impl Prot for CraftingSpecial {
    type Model = CraftingSpecial;

    open spec fn model(&self) -> CraftingSpecial {
        *self
    }

    open spec fn valid(m: CraftingSpecial) -> bool {
        &&& VarInt::valid(m.category)
    }

    open spec fn encoding(m: CraftingSpecial) -> Seq<u8> {
        VarInt::encoding(m.category)
    }
}

impl SizedProt for CraftingSpecial {
    fn is_valid(&self) -> (ok: bool) {
        self.category.is_valid()
    }

    fn prot_size(&self) -> (n: usize) {
        self.category.prot_size()
    }
}

impl WriteProt for CraftingSpecial {
    fn write(&self, out: &mut Vec<u8>) {
        self.category.write(out);
    }
}

impl ReadProt for CraftingSpecial {
    open spec fn decoding(s: Seq<u8>, pos: int) -> Result<(CraftingSpecial, int), CodecError> {
        match VarInt::decoding(s, pos) {
            Err(e) => Err(e),
            Ok((category, next)) => Ok((CraftingSpecial { category }, next)),
        }
    }

    proof fn lemma_decoding_sound(s: Seq<u8>, pos: int) {
        VarInt::lemma_decoding_sound(s, pos);
    }

    proof fn lemma_round_trip(m: CraftingSpecial, pre: Seq<u8>, rest: Seq<u8>) {
        VarInt::lemma_round_trip(m.category, pre, rest);
    }

    fn read(src: &[u8], pos: usize) -> (r: Result<(CraftingSpecial, usize), CodecError>) {
        proof {
            VarInt::lemma_decoding_sound(src@, pos as int);
        }
        let (category, next) = match VarInt::read(src, pos) {
            Ok(found) => found,
            Err(e) => {
                return Err(e);
            },
        };
        Ok((CraftingSpecial { category }, next))
    }
}

/// The body of a smelting, blasting, smoking or campfire recipe.
#[derive(Debug)]
pub struct Smelting {
    pub group: String,
    pub category: VarInt,
    pub ingredient: SizedVec<Slot>,
    pub result: Slot,
    pub experience: Float,
    pub cooking_time: VarInt,
}

/// What a `Smelting` holds.
pub struct SmeltingModel {
    pub group: Seq<char>,
    pub category: VarInt,
    pub ingredient: Seq<SlotModel>,
    pub result: SlotModel,
    pub experience: Float,
    pub cooking_time: VarInt,
}

impl Prot for Smelting {
    type Model = SmeltingModel;

    open spec fn model(&self) -> SmeltingModel {
        SmeltingModel {
            group: self.group.model(),
            category: self.category.model(),
            ingredient: self.ingredient.model(),
            result: self.result.model(),
            experience: self.experience.model(),
            cooking_time: self.cooking_time.model(),
        }
    }

    open spec fn valid(m: SmeltingModel) -> bool {
        &&& String::valid(m.group)
        &&& VarInt::valid(m.category)
        &&& SizedVec::<Slot>::valid(m.ingredient)
        &&& Slot::valid(m.result)
        &&& Float::valid(m.experience)
        &&& VarInt::valid(m.cooking_time)
    }

    open spec fn encoding(m: SmeltingModel) -> Seq<u8> {
        String::encoding(m.group)
            + VarInt::encoding(m.category)
            + SizedVec::<Slot>::encoding(m.ingredient)
            + Slot::encoding(m.result)
            + Float::encoding(m.experience)
            + VarInt::encoding(m.cooking_time)
    }
}

impl SizedProt for Smelting {
    fn is_valid(&self) -> (ok: bool) {
        self.group.is_valid()
            && self.category.is_valid()
            && self.ingredient.is_valid()
            && self.result.is_valid()
            && self.experience.is_valid()
            && self.cooking_time.is_valid()
    }

    fn prot_size(&self) -> (n: usize) {
        self.group.prot_size()
            + self.category.prot_size()
            + self.ingredient.prot_size()
            + self.result.prot_size()
            + self.experience.prot_size()
            + self.cooking_time.prot_size()
    }
}

impl WriteProt for Smelting {
    fn write(&self, out: &mut Vec<u8>) {
        self.group.write(out);
        self.category.write(out);
        self.ingredient.write(out);
        self.result.write(out);
        self.experience.write(out);
        self.cooking_time.write(out);
        proof {
            let m = self.model();
            lemma_concat_assoc(
                old(out)@,
                String::encoding(m.group),
                VarInt::encoding(m.category),
            );
            lemma_concat_assoc(
                old(out)@,
                String::encoding(m.group) + VarInt::encoding(m.category),
                SizedVec::<Slot>::encoding(m.ingredient),
            );
            lemma_concat_assoc(
                old(out)@,
                String::encoding(m.group) + VarInt::encoding(m.category) + SizedVec::<Slot>::encoding(m.ingredient),
                Slot::encoding(m.result),
            );
            lemma_concat_assoc(
                old(out)@,
                String::encoding(m.group) + VarInt::encoding(m.category) + SizedVec::<Slot>::encoding(m.ingredient) + Slot::encoding(m.result),
                Float::encoding(m.experience),
            );
            lemma_concat_assoc(
                old(out)@,
                String::encoding(m.group) + VarInt::encoding(m.category) + SizedVec::<Slot>::encoding(m.ingredient) + Slot::encoding(m.result) + Float::encoding(m.experience),
                VarInt::encoding(m.cooking_time),
            );
        }
    }
}

impl ReadProt for Smelting {
    open spec fn decoding(s: Seq<u8>, pos: int) -> Result<(SmeltingModel, int), CodecError> {
        match String::decoding(s, pos) {
            Err(e) => Err(e),
            Ok((group, p1)) => {
                match VarInt::decoding(s, p1) {
                    Err(e) => Err(e),
                    Ok((category, p2)) => {
                        match SizedVec::<Slot>::decoding(s, p2) {
                            Err(e) => Err(e),
                            Ok((ingredient, p3)) => {
                                match Slot::decoding(s, p3) {
                                    Err(e) => Err(e),
                                    Ok((result, p4)) => {
                                        match Float::decoding(s, p4) {
                                            Err(e) => Err(e),
                                            Ok((experience, p5)) => {
                                                match VarInt::decoding(s, p5) {
                                                    Err(e) => Err(e),
                                                    Ok((cooking_time, next)) => Ok((SmeltingModel { group, category, ingredient, result, experience, cooking_time }, next)),
                                                }
                                            },
                                        }
                                    },
                                }
                            },
                        }
                    },
                }
            },
        }
    }

    proof fn lemma_decoding_sound(s: Seq<u8>, pos: int) {
        String::lemma_decoding_sound(s, pos);
        match String::decoding(s, pos) {
            Ok((group, p1)) => {
                VarInt::lemma_decoding_sound(s, p1);
                match VarInt::decoding(s, p1) {
                    Ok((category, p2)) => {
                        SizedVec::<Slot>::lemma_decoding_sound(s, p2);
                        match SizedVec::<Slot>::decoding(s, p2) {
                            Ok((ingredient, p3)) => {
                                Slot::lemma_decoding_sound(s, p3);
                                match Slot::decoding(s, p3) {
                                    Ok((result, p4)) => {
                                        Float::lemma_decoding_sound(s, p4);
                                        match Float::decoding(s, p4) {
                                            Ok((experience, p5)) => {
                                                VarInt::lemma_decoding_sound(s, p5);
                                            },
                                            Err(_) => {},
                                        }
                                    },
                                    Err(_) => {},
                                }
                            },
                            Err(_) => {},
                        }
                    },
                    Err(_) => {},
                }
            },
            Err(_) => {},
        }
    }

    proof fn lemma_round_trip(m: SmeltingModel, pre: Seq<u8>, rest: Seq<u8>) {
        let e0 = String::encoding(m.group);
        let e1 = VarInt::encoding(m.category);
        let e2 = SizedVec::<Slot>::encoding(m.ingredient);
        let e3 = Slot::encoding(m.result);
        let e4 = Float::encoding(m.experience);
        let e5 = VarInt::encoding(m.cooking_time);
        let p0 = pre;
        let p1 = p0 + e0;
        let p2 = p1 + e1;
        let p3 = p2 + e2;
        let p4 = p3 + e3;
        let p5 = p4 + e4;
        let r5 = rest;
        let r4 = e5 + r5;
        let r3 = e4 + r4;
        let r2 = e3 + r3;
        let r1 = e2 + r2;
        let r0 = e1 + r1;
        lemma_concat_assoc(pre, e0, e1);
        lemma_concat_assoc(pre, e0 + e1, e2);
        lemma_concat_assoc(pre, e0 + e1 + e2, e3);
        lemma_concat_assoc(pre, e0 + e1 + e2 + e3, e4);
        lemma_concat_assoc(pre, e0 + e1 + e2 + e3 + e4, e5);
        lemma_concat_assoc(p5, e5, r5);
        lemma_concat_assoc(p4, e4, r4);
        lemma_concat_assoc(p3, e3, r3);
        lemma_concat_assoc(p2, e2, r2);
        lemma_concat_assoc(p1, e1, r1);
        String::lemma_round_trip(m.group, p0, r0);
        VarInt::lemma_round_trip(m.category, p1, r1);
        SizedVec::<Slot>::lemma_round_trip(m.ingredient, p2, r2);
        Slot::lemma_round_trip(m.result, p3, r3);
        Float::lemma_round_trip(m.experience, p4, r4);
        VarInt::lemma_round_trip(m.cooking_time, p5, r5);
    }

    fn read(src: &[u8], pos: usize) -> (r: Result<(Smelting, usize), CodecError>) {
        proof {
            String::lemma_decoding_sound(src@, pos as int);
        }
        let (group, p1) = match String::read(src, pos) {
            Ok(found) => found,
            Err(e) => {
                return Err(e);
            },
        };
        proof {
            VarInt::lemma_decoding_sound(src@, p1 as int);
        }
        let (category, p2) = match VarInt::read(src, p1) {
            Ok(found) => found,
            Err(e) => {
                return Err(e);
            },
        };
        proof {
            SizedVec::<Slot>::lemma_decoding_sound(src@, p2 as int);
        }
        let (ingredient, p3) = match SizedVec::<Slot>::read(src, p2) {
            Ok(found) => found,
            Err(e) => {
                return Err(e);
            },
        };
        proof {
            Slot::lemma_decoding_sound(src@, p3 as int);
        }
        let (result, p4) = match Slot::read(src, p3) {
            Ok(found) => found,
            Err(e) => {
                return Err(e);
            },
        };
        proof {
            Float::lemma_decoding_sound(src@, p4 as int);
        }
        let (experience, p5) = match Float::read(src, p4) {
            Ok(found) => found,
            Err(e) => {
                return Err(e);
            },
        };
        proof {
            VarInt::lemma_decoding_sound(src@, p5 as int);
        }
        let (cooking_time, next) = match VarInt::read(src, p5) {
            Ok(found) => found,
            Err(e) => {
                return Err(e);
            },
        };
        Ok((Smelting { group, category, ingredient, result, experience, cooking_time }, next))
    }
}

/// The body of a stonecutting recipe.
#[derive(Debug)]
pub struct Stonecutting {
    pub group: String,
    pub ingredient: SizedVec<Slot>,
    pub result: Slot,
}

/// What a `Stonecutting` holds.
pub struct StonecuttingModel {
    pub group: Seq<char>,
    pub ingredient: Seq<SlotModel>,
    pub result: SlotModel,
}

impl Prot for Stonecutting {
    type Model = StonecuttingModel;

    open spec fn model(&self) -> StonecuttingModel {
        StonecuttingModel {
            group: self.group.model(),
            ingredient: self.ingredient.model(),
            result: self.result.model(),
        }
    }

    open spec fn valid(m: StonecuttingModel) -> bool {
        &&& String::valid(m.group)
        &&& SizedVec::<Slot>::valid(m.ingredient)
        &&& Slot::valid(m.result)
    }

    open spec fn encoding(m: StonecuttingModel) -> Seq<u8> {
        String::encoding(m.group)
            + SizedVec::<Slot>::encoding(m.ingredient)
            + Slot::encoding(m.result)
    }
}

impl SizedProt for Stonecutting {
    fn is_valid(&self) -> (ok: bool) {
        self.group.is_valid()
            && self.ingredient.is_valid()
            && self.result.is_valid()
    }

    fn prot_size(&self) -> (n: usize) {
        self.group.prot_size()
            + self.ingredient.prot_size()
            + self.result.prot_size()
    }
}

impl WriteProt for Stonecutting {
    fn write(&self, out: &mut Vec<u8>) {
        self.group.write(out);
        self.ingredient.write(out);
        self.result.write(out);
        proof {
            let m = self.model();
            lemma_concat_assoc(
                old(out)@,
                String::encoding(m.group),
                SizedVec::<Slot>::encoding(m.ingredient),
            );
            lemma_concat_assoc(
                old(out)@,
                String::encoding(m.group) + SizedVec::<Slot>::encoding(m.ingredient),
                Slot::encoding(m.result),
            );
        }
    }
}

impl ReadProt for Stonecutting {
    open spec fn decoding(s: Seq<u8>, pos: int) -> Result<(StonecuttingModel, int), CodecError> {
        match String::decoding(s, pos) {
            Err(e) => Err(e),
            Ok((group, p1)) => {
                match SizedVec::<Slot>::decoding(s, p1) {
                    Err(e) => Err(e),
                    Ok((ingredient, p2)) => {
                        match Slot::decoding(s, p2) {
                            Err(e) => Err(e),
                            Ok((result, next)) => Ok((StonecuttingModel { group, ingredient, result }, next)),
                        }
                    },
                }
            },
        }
    }

    proof fn lemma_decoding_sound(s: Seq<u8>, pos: int) {
        String::lemma_decoding_sound(s, pos);
        match String::decoding(s, pos) {
            Ok((group, p1)) => {
                SizedVec::<Slot>::lemma_decoding_sound(s, p1);
                match SizedVec::<Slot>::decoding(s, p1) {
                    Ok((ingredient, p2)) => {
                        Slot::lemma_decoding_sound(s, p2);
                    },
                    Err(_) => {},
                }
            },
            Err(_) => {},
        }
    }

    proof fn lemma_round_trip(m: StonecuttingModel, pre: Seq<u8>, rest: Seq<u8>) {
        let e0 = String::encoding(m.group);
        let e1 = SizedVec::<Slot>::encoding(m.ingredient);
        let e2 = Slot::encoding(m.result);
        let p0 = pre;
        let p1 = p0 + e0;
        let p2 = p1 + e1;
        let r2 = rest;
        let r1 = e2 + r2;
        let r0 = e1 + r1;
        lemma_concat_assoc(pre, e0, e1);
        lemma_concat_assoc(pre, e0 + e1, e2);
        lemma_concat_assoc(p2, e2, r2);
        lemma_concat_assoc(p1, e1, r1);
        String::lemma_round_trip(m.group, p0, r0);
        SizedVec::<Slot>::lemma_round_trip(m.ingredient, p1, r1);
        Slot::lemma_round_trip(m.result, p2, r2);
    }

    fn read(src: &[u8], pos: usize) -> (r: Result<(Stonecutting, usize), CodecError>) {
        proof {
            String::lemma_decoding_sound(src@, pos as int);
        }
        let (group, p1) = match String::read(src, pos) {
            Ok(found) => found,
            Err(e) => {
                return Err(e);
            },
        };
        proof {
            SizedVec::<Slot>::lemma_decoding_sound(src@, p1 as int);
        }
        let (ingredient, p2) = match SizedVec::<Slot>::read(src, p1) {
            Ok(found) => found,
            Err(e) => {
                return Err(e);
            },
        };
        proof {
            Slot::lemma_decoding_sound(src@, p2 as int);
        }
        let (result, next) = match Slot::read(src, p2) {
            Ok(found) => found,
            Err(e) => {
                return Err(e);
            },
        };
        Ok((Stonecutting { group, ingredient, result }, next))
    }
}

/// The body of a smithing recipe that turns an item into another.
#[derive(Debug)]
pub struct SmithingTransform {
    pub template: SizedVec<Slot>,
    pub base: SizedVec<Slot>,
    pub addition: SizedVec<Slot>,
    pub result: Slot,
}

/// What a `SmithingTransform` holds.
pub struct SmithingTransformModel {
    pub template: Seq<SlotModel>,
    pub base: Seq<SlotModel>,
    pub addition: Seq<SlotModel>,
    pub result: SlotModel,
}

impl Prot for SmithingTransform {
    type Model = SmithingTransformModel;

    open spec fn model(&self) -> SmithingTransformModel {
        SmithingTransformModel {
            template: self.template.model(),
            base: self.base.model(),
            addition: self.addition.model(),
            result: self.result.model(),
        }
    }

    open spec fn valid(m: SmithingTransformModel) -> bool {
        &&& SizedVec::<Slot>::valid(m.template)
        &&& SizedVec::<Slot>::valid(m.base)
        &&& SizedVec::<Slot>::valid(m.addition)
        &&& Slot::valid(m.result)
    }

    open spec fn encoding(m: SmithingTransformModel) -> Seq<u8> {
        SizedVec::<Slot>::encoding(m.template)
            + SizedVec::<Slot>::encoding(m.base)
            + SizedVec::<Slot>::encoding(m.addition)
            + Slot::encoding(m.result)
    }
}

impl SizedProt for SmithingTransform {
    fn is_valid(&self) -> (ok: bool) {
        self.template.is_valid()
            && self.base.is_valid()
            && self.addition.is_valid()
            && self.result.is_valid()
    }

    fn prot_size(&self) -> (n: usize) {
        self.template.prot_size()
            + self.base.prot_size()
            + self.addition.prot_size()
            + self.result.prot_size()
    }
}

impl WriteProt for SmithingTransform {
    fn write(&self, out: &mut Vec<u8>) {
        self.template.write(out);
        self.base.write(out);
        self.addition.write(out);
        self.result.write(out);
        proof {
            let m = self.model();
            lemma_concat_assoc(
                old(out)@,
                SizedVec::<Slot>::encoding(m.template),
                SizedVec::<Slot>::encoding(m.base),
            );
            lemma_concat_assoc(
                old(out)@,
                SizedVec::<Slot>::encoding(m.template) + SizedVec::<Slot>::encoding(m.base),
                SizedVec::<Slot>::encoding(m.addition),
            );
            lemma_concat_assoc(
                old(out)@,
                SizedVec::<Slot>::encoding(m.template) + SizedVec::<Slot>::encoding(m.base) + SizedVec::<Slot>::encoding(m.addition),
                Slot::encoding(m.result),
            );
        }
    }
}

impl ReadProt for SmithingTransform {
    open spec fn decoding(s: Seq<u8>, pos: int) -> Result<(SmithingTransformModel, int), CodecError> {
        match SizedVec::<Slot>::decoding(s, pos) {
            Err(e) => Err(e),
            Ok((template, p1)) => {
                match SizedVec::<Slot>::decoding(s, p1) {
                    Err(e) => Err(e),
                    Ok((base, p2)) => {
                        match SizedVec::<Slot>::decoding(s, p2) {
                            Err(e) => Err(e),
                            Ok((addition, p3)) => {
                                match Slot::decoding(s, p3) {
                                    Err(e) => Err(e),
                                    Ok((result, next)) => Ok((SmithingTransformModel { template, base, addition, result }, next)),
                                }
                            },
                        }
                    },
                }
            },
        }
    }

    proof fn lemma_decoding_sound(s: Seq<u8>, pos: int) {
        SizedVec::<Slot>::lemma_decoding_sound(s, pos);
        match SizedVec::<Slot>::decoding(s, pos) {
            Ok((template, p1)) => {
                SizedVec::<Slot>::lemma_decoding_sound(s, p1);
                match SizedVec::<Slot>::decoding(s, p1) {
                    Ok((base, p2)) => {
                        SizedVec::<Slot>::lemma_decoding_sound(s, p2);
                        match SizedVec::<Slot>::decoding(s, p2) {
                            Ok((addition, p3)) => {
                                Slot::lemma_decoding_sound(s, p3);
                            },
                            Err(_) => {},
                        }
                    },
                    Err(_) => {},
                }
            },
            Err(_) => {},
        }
    }

    proof fn lemma_round_trip(m: SmithingTransformModel, pre: Seq<u8>, rest: Seq<u8>) {
        let e0 = SizedVec::<Slot>::encoding(m.template);
        let e1 = SizedVec::<Slot>::encoding(m.base);
        let e2 = SizedVec::<Slot>::encoding(m.addition);
        let e3 = Slot::encoding(m.result);
        let p0 = pre;
        let p1 = p0 + e0;
        let p2 = p1 + e1;
        let p3 = p2 + e2;
        let r3 = rest;
        let r2 = e3 + r3;
        let r1 = e2 + r2;
        let r0 = e1 + r1;
        lemma_concat_assoc(pre, e0, e1);
        lemma_concat_assoc(pre, e0 + e1, e2);
        lemma_concat_assoc(pre, e0 + e1 + e2, e3);
        lemma_concat_assoc(p3, e3, r3);
        lemma_concat_assoc(p2, e2, r2);
        lemma_concat_assoc(p1, e1, r1);
        SizedVec::<Slot>::lemma_round_trip(m.template, p0, r0);
        SizedVec::<Slot>::lemma_round_trip(m.base, p1, r1);
        SizedVec::<Slot>::lemma_round_trip(m.addition, p2, r2);
        Slot::lemma_round_trip(m.result, p3, r3);
    }

    fn read(src: &[u8], pos: usize) -> (r: Result<(SmithingTransform, usize), CodecError>) {
        proof {
            SizedVec::<Slot>::lemma_decoding_sound(src@, pos as int);
        }
        let (template, p1) = match SizedVec::<Slot>::read(src, pos) {
            Ok(found) => found,
            Err(e) => {
                return Err(e);
            },
        };
        proof {
            SizedVec::<Slot>::lemma_decoding_sound(src@, p1 as int);
        }
        let (base, p2) = match SizedVec::<Slot>::read(src, p1) {
            Ok(found) => found,
            Err(e) => {
                return Err(e);
            },
        };
        proof {
            SizedVec::<Slot>::lemma_decoding_sound(src@, p2 as int);
        }
        let (addition, p3) = match SizedVec::<Slot>::read(src, p2) {
            Ok(found) => found,
            Err(e) => {
                return Err(e);
            },
        };
        proof {
            Slot::lemma_decoding_sound(src@, p3 as int);
        }
        let (result, next) = match Slot::read(src, p3) {
            Ok(found) => found,
            Err(e) => {
                return Err(e);
            },
        };
        Ok((SmithingTransform { template, base, addition, result }, next))
    }
}

/// The body of a smithing recipe that trims an item.
#[derive(Debug)]
pub struct SmithingTrim {
    pub template: SizedVec<Slot>,
    pub base: SizedVec<Slot>,
    pub addition: SizedVec<Slot>,
}

/// What a `SmithingTrim` holds.
pub struct SmithingTrimModel {
    pub template: Seq<SlotModel>,
    pub base: Seq<SlotModel>,
    pub addition: Seq<SlotModel>,
}

impl Prot for SmithingTrim {
    type Model = SmithingTrimModel;

    open spec fn model(&self) -> SmithingTrimModel {
        SmithingTrimModel {
            template: self.template.model(),
            base: self.base.model(),
            addition: self.addition.model(),
        }
    }

    open spec fn valid(m: SmithingTrimModel) -> bool {
        &&& SizedVec::<Slot>::valid(m.template)
        &&& SizedVec::<Slot>::valid(m.base)
        &&& SizedVec::<Slot>::valid(m.addition)
    }

    open spec fn encoding(m: SmithingTrimModel) -> Seq<u8> {
        SizedVec::<Slot>::encoding(m.template)
            + SizedVec::<Slot>::encoding(m.base)
            + SizedVec::<Slot>::encoding(m.addition)
    }
}

impl SizedProt for SmithingTrim {
    fn is_valid(&self) -> (ok: bool) {
        self.template.is_valid()
            && self.base.is_valid()
            && self.addition.is_valid()
    }

    fn prot_size(&self) -> (n: usize) {
        self.template.prot_size()
            + self.base.prot_size()
            + self.addition.prot_size()
    }
}

impl WriteProt for SmithingTrim {
    fn write(&self, out: &mut Vec<u8>) {
        self.template.write(out);
        self.base.write(out);
        self.addition.write(out);
        proof {
            let m = self.model();
            lemma_concat_assoc(
                old(out)@,
                SizedVec::<Slot>::encoding(m.template),
                SizedVec::<Slot>::encoding(m.base),
            );
            lemma_concat_assoc(
                old(out)@,
                SizedVec::<Slot>::encoding(m.template) + SizedVec::<Slot>::encoding(m.base),
                SizedVec::<Slot>::encoding(m.addition),
            );
        }
    }
}

impl ReadProt for SmithingTrim {
    open spec fn decoding(s: Seq<u8>, pos: int) -> Result<(SmithingTrimModel, int), CodecError> {
        match SizedVec::<Slot>::decoding(s, pos) {
            Err(e) => Err(e),
            Ok((template, p1)) => {
                match SizedVec::<Slot>::decoding(s, p1) {
                    Err(e) => Err(e),
                    Ok((base, p2)) => {
                        match SizedVec::<Slot>::decoding(s, p2) {
                            Err(e) => Err(e),
                            Ok((addition, next)) => Ok((SmithingTrimModel { template, base, addition }, next)),
                        }
                    },
                }
            },
        }
    }

    proof fn lemma_decoding_sound(s: Seq<u8>, pos: int) {
        SizedVec::<Slot>::lemma_decoding_sound(s, pos);
        match SizedVec::<Slot>::decoding(s, pos) {
            Ok((template, p1)) => {
                SizedVec::<Slot>::lemma_decoding_sound(s, p1);
                match SizedVec::<Slot>::decoding(s, p1) {
                    Ok((base, p2)) => {
                        SizedVec::<Slot>::lemma_decoding_sound(s, p2);
                    },
                    Err(_) => {},
                }
            },
            Err(_) => {},
        }
    }

    proof fn lemma_round_trip(m: SmithingTrimModel, pre: Seq<u8>, rest: Seq<u8>) {
        let e0 = SizedVec::<Slot>::encoding(m.template);
        let e1 = SizedVec::<Slot>::encoding(m.base);
        let e2 = SizedVec::<Slot>::encoding(m.addition);
        let p0 = pre;
        let p1 = p0 + e0;
        let p2 = p1 + e1;
        let r2 = rest;
        let r1 = e2 + r2;
        let r0 = e1 + r1;
        lemma_concat_assoc(pre, e0, e1);
        lemma_concat_assoc(pre, e0 + e1, e2);
        lemma_concat_assoc(p2, e2, r2);
        lemma_concat_assoc(p1, e1, r1);
        SizedVec::<Slot>::lemma_round_trip(m.template, p0, r0);
        SizedVec::<Slot>::lemma_round_trip(m.base, p1, r1);
        SizedVec::<Slot>::lemma_round_trip(m.addition, p2, r2);
    }

    fn read(src: &[u8], pos: usize) -> (r: Result<(SmithingTrim, usize), CodecError>) {
        proof {
            SizedVec::<Slot>::lemma_decoding_sound(src@, pos as int);
        }
        let (template, p1) = match SizedVec::<Slot>::read(src, pos) {
            Ok(found) => found,
            Err(e) => {
                return Err(e);
            },
        };
        proof {
            SizedVec::<Slot>::lemma_decoding_sound(src@, p1 as int);
        }
        let (base, p2) = match SizedVec::<Slot>::read(src, p1) {
            Ok(found) => found,
            Err(e) => {
                return Err(e);
            },
        };
        proof {
            SizedVec::<Slot>::lemma_decoding_sound(src@, p2 as int);
        }
        let (addition, next) = match SizedVec::<Slot>::read(src, p2) {
            Ok(found) => found,
            Err(e) => {
                return Err(e);
            },
        };
        Ok((SmithingTrim { template, base, addition }, next))
    }
}

/// The forms that the body of a recipe can take.
#[derive(Clone, Copy, Debug, PartialEq, Eq, Structural)]
pub enum RecipeForm {
    CraftingShapeless,
    CraftingShaped,
    CraftingSpecial,
    Smelting,
    Stonecutting,
    SmithingTransform,
    SmithingTrim,
}

/// The body of a recipe, in the form that its type calls for.
#[derive(Debug)]
pub enum RecipeKind {
    CraftingShapeless(CraftingShapeless),
    CraftingShaped(CraftingShaped),
    CraftingSpecial(CraftingSpecial),
    Smelting(Smelting),
    Stonecutting(Stonecutting),
    SmithingTransform(SmithingTransform),
    SmithingTrim(SmithingTrim),
}

/// What a `RecipeKind` holds.
pub enum RecipeKindModel {
    CraftingShapeless(CraftingShapelessModel),
    CraftingShaped(CraftingShapedModel),
    CraftingSpecial(CraftingSpecial),
    Smelting(SmeltingModel),
    Stonecutting(StonecuttingModel),
    SmithingTransform(SmithingTransformModel),
    SmithingTrim(SmithingTrimModel),
}

/// A recipe: its type, its id, and the body that the type calls for.
#[derive(Debug)]
pub struct Recipe {
    pub typ: String,
    pub id: String,
    pub data: RecipeKind,
}

/// What a `Recipe` holds.
pub struct RecipeModel {
    pub typ: Seq<char>,
    pub id: Seq<char>,
    pub data: RecipeKindModel,
}

/// The form of body that goes with a recipe type, if the type is known.
pub open spec fn recipe_form(typ: Seq<char>) -> Option<RecipeForm> {
    if typ == "minecraft:crafting_shapeless"@ {
        Some(RecipeForm::CraftingShapeless)
    } else if typ == "minecraft:crafting_shaped"@ {
        Some(RecipeForm::CraftingShaped)
    } else if typ == "minecraft:crafting_special_armordye"@
        || typ == "minecraft:crafting_special_bookcloning"@
        || typ == "minecraft:crafting_special_mapcloning"@
        || typ == "minecraft:crafting_special_mapextending"@
        || typ == "minecraft:crafting_special_firework_rocket"@
        || typ == "minecraft:crafting_special_firework_star"@
        || typ == "minecraft:crafting_special_firework_star_fade"@
        || typ == "minecraft:crafting_special_repairitem"@
        || typ == "minecraft:crafting_special_tippedarrow"@
        || typ == "minecraft:crafting_special_bannerduplicate"@
        || typ == "minecraft:crafting_special_shielddecoration"@
        || typ == "minecraft:crafting_special_shulkerboxcoloring"@
        || typ == "minecraft:crafting_special_suspiciousstew"@
        || typ == "minecraft:crafting_decorated_pot"@ {
        Some(RecipeForm::CraftingSpecial)
    } else if typ == "minecraft:smelting"@
        || typ == "minecraft:blasting"@
        || typ == "minecraft:smoking"@
        || typ == "minecraft:campfire_cooking"@ {
        Some(RecipeForm::Smelting)
    } else if typ == "minecraft:stonecutting"@ {
        Some(RecipeForm::Stonecutting)
    } else if typ == "minecraft:smithing_transform"@ {
        Some(RecipeForm::SmithingTransform)
    } else if typ == "minecraft:smithing_trim"@ {
        Some(RecipeForm::SmithingTrim)
    } else {
        None
    }
}

/// Finds the form of body that goes with a recipe type.
pub fn recipe_form_of(typ: &str) -> (form: Option<RecipeForm>)
    ensures
        form == recipe_form(typ@),
{
    if str_eq(typ, "minecraft:crafting_shapeless") {
        Some(RecipeForm::CraftingShapeless)
    } else if str_eq(typ, "minecraft:crafting_shaped") {
        Some(RecipeForm::CraftingShaped)
    } else if str_eq(typ, "minecraft:crafting_special_armordye")
        || str_eq(typ, "minecraft:crafting_special_bookcloning")
        || str_eq(typ, "minecraft:crafting_special_mapcloning")
        || str_eq(typ, "minecraft:crafting_special_mapextending")
        || str_eq(typ, "minecraft:crafting_special_firework_rocket")
        || str_eq(typ, "minecraft:crafting_special_firework_star")
        || str_eq(typ, "minecraft:crafting_special_firework_star_fade")
        || str_eq(typ, "minecraft:crafting_special_repairitem")
        || str_eq(typ, "minecraft:crafting_special_tippedarrow")
        || str_eq(typ, "minecraft:crafting_special_bannerduplicate")
        || str_eq(typ, "minecraft:crafting_special_shielddecoration")
        || str_eq(typ, "minecraft:crafting_special_shulkerboxcoloring")
        || str_eq(typ, "minecraft:crafting_special_suspiciousstew")
        || str_eq(typ, "minecraft:crafting_decorated_pot") {
        Some(RecipeForm::CraftingSpecial)
    } else if str_eq(typ, "minecraft:smelting")
        || str_eq(typ, "minecraft:blasting")
        || str_eq(typ, "minecraft:smoking")
        || str_eq(typ, "minecraft:campfire_cooking") {
        Some(RecipeForm::Smelting)
    } else if str_eq(typ, "minecraft:stonecutting") {
        Some(RecipeForm::Stonecutting)
    } else if str_eq(typ, "minecraft:smithing_transform") {
        Some(RecipeForm::SmithingTransform)
    } else if str_eq(typ, "minecraft:smithing_trim") {
        Some(RecipeForm::SmithingTrim)
    } else {
        None
    }
}

impl RecipeKind {
    /// The form of this body.
    pub open spec fn spec_form(&self) -> RecipeForm {
        match self {
            RecipeKind::CraftingShapeless(_) => RecipeForm::CraftingShapeless,
            RecipeKind::CraftingShaped(_) => RecipeForm::CraftingShaped,
            RecipeKind::CraftingSpecial(_) => RecipeForm::CraftingSpecial,
            RecipeKind::Smelting(_) => RecipeForm::Smelting,
            RecipeKind::Stonecutting(_) => RecipeForm::Stonecutting,
            RecipeKind::SmithingTransform(_) => RecipeForm::SmithingTransform,
            RecipeKind::SmithingTrim(_) => RecipeForm::SmithingTrim,
        }
    }

    /// The form of this body.
    pub fn form(&self) -> (form: RecipeForm)
        ensures
            form == self.spec_form(),
            form == self.model().form(),
    {
        match self {
            RecipeKind::CraftingShapeless(_) => RecipeForm::CraftingShapeless,
            RecipeKind::CraftingShaped(_) => RecipeForm::CraftingShaped,
            RecipeKind::CraftingSpecial(_) => RecipeForm::CraftingSpecial,
            RecipeKind::Smelting(_) => RecipeForm::Smelting,
            RecipeKind::Stonecutting(_) => RecipeForm::Stonecutting,
            RecipeKind::SmithingTransform(_) => RecipeForm::SmithingTransform,
            RecipeKind::SmithingTrim(_) => RecipeForm::SmithingTrim,
        }
    }
}

impl RecipeKindModel {
    /// The form of this body.
    pub open spec fn form(self) -> RecipeForm {
        match self {
            RecipeKindModel::CraftingShapeless(_) => RecipeForm::CraftingShapeless,
            RecipeKindModel::CraftingShaped(_) => RecipeForm::CraftingShaped,
            RecipeKindModel::CraftingSpecial(_) => RecipeForm::CraftingSpecial,
            RecipeKindModel::Smelting(_) => RecipeForm::Smelting,
            RecipeKindModel::Stonecutting(_) => RecipeForm::Stonecutting,
            RecipeKindModel::SmithingTransform(_) => RecipeForm::SmithingTransform,
            RecipeKindModel::SmithingTrim(_) => RecipeForm::SmithingTrim,
        }
    }
}

/// What decoding a body of the form `form` at `pos` yields.
pub open spec fn kind_decoding(form: RecipeForm, s: Seq<u8>, pos: int) -> Result<
    (RecipeKindModel, int),
    CodecError,
> {
    match form {
        RecipeForm::CraftingShapeless => match CraftingShapeless::decoding(s, pos) {
            Ok((body, next)) => Ok((RecipeKindModel::CraftingShapeless(body), next)),
            Err(e) => Err(e),
        },
        RecipeForm::CraftingShaped => match CraftingShaped::decoding(s, pos) {
            Ok((body, next)) => Ok((RecipeKindModel::CraftingShaped(body), next)),
            Err(e) => Err(e),
        },
        RecipeForm::CraftingSpecial => match CraftingSpecial::decoding(s, pos) {
            Ok((body, next)) => Ok((RecipeKindModel::CraftingSpecial(body), next)),
            Err(e) => Err(e),
        },
        RecipeForm::Smelting => match Smelting::decoding(s, pos) {
            Ok((body, next)) => Ok((RecipeKindModel::Smelting(body), next)),
            Err(e) => Err(e),
        },
        RecipeForm::Stonecutting => match Stonecutting::decoding(s, pos) {
            Ok((body, next)) => Ok((RecipeKindModel::Stonecutting(body), next)),
            Err(e) => Err(e),
        },
        RecipeForm::SmithingTransform => match SmithingTransform::decoding(s, pos) {
            Ok((body, next)) => Ok((RecipeKindModel::SmithingTransform(body), next)),
            Err(e) => Err(e),
        },
        RecipeForm::SmithingTrim => match SmithingTrim::decoding(s, pos) {
            Ok((body, next)) => Ok((RecipeKindModel::SmithingTrim(body), next)),
            Err(e) => Err(e),
        },
    }
}

impl Prot for RecipeKind {
    type Model = RecipeKindModel;

    open spec fn model(&self) -> RecipeKindModel {
        match self {
            RecipeKind::CraftingShapeless(body) => RecipeKindModel::CraftingShapeless(body.model()),
            RecipeKind::CraftingShaped(body) => RecipeKindModel::CraftingShaped(body.model()),
            RecipeKind::CraftingSpecial(body) => RecipeKindModel::CraftingSpecial(body.model()),
            RecipeKind::Smelting(body) => RecipeKindModel::Smelting(body.model()),
            RecipeKind::Stonecutting(body) => RecipeKindModel::Stonecutting(body.model()),
            RecipeKind::SmithingTransform(body) => RecipeKindModel::SmithingTransform(body.model()),
            RecipeKind::SmithingTrim(body) => RecipeKindModel::SmithingTrim(body.model()),
        }
    }

    open spec fn valid(m: RecipeKindModel) -> bool {
        match m {
            RecipeKindModel::CraftingShapeless(body) => CraftingShapeless::valid(body),
            RecipeKindModel::CraftingShaped(body) => CraftingShaped::valid(body),
            RecipeKindModel::CraftingSpecial(body) => CraftingSpecial::valid(body),
            RecipeKindModel::Smelting(body) => Smelting::valid(body),
            RecipeKindModel::Stonecutting(body) => Stonecutting::valid(body),
            RecipeKindModel::SmithingTransform(body) => SmithingTransform::valid(body),
            RecipeKindModel::SmithingTrim(body) => SmithingTrim::valid(body),
        }
    }

    open spec fn encoding(m: RecipeKindModel) -> Seq<u8> {
        match m {
            RecipeKindModel::CraftingShapeless(body) => CraftingShapeless::encoding(body),
            RecipeKindModel::CraftingShaped(body) => CraftingShaped::encoding(body),
            RecipeKindModel::CraftingSpecial(body) => CraftingSpecial::encoding(body),
            RecipeKindModel::Smelting(body) => Smelting::encoding(body),
            RecipeKindModel::Stonecutting(body) => Stonecutting::encoding(body),
            RecipeKindModel::SmithingTransform(body) => SmithingTransform::encoding(body),
            RecipeKindModel::SmithingTrim(body) => SmithingTrim::encoding(body),
        }
    }
}

impl SizedProt for RecipeKind {
    fn is_valid(&self) -> (ok: bool) {
        match self {
            RecipeKind::CraftingShapeless(body) => body.is_valid(),
            RecipeKind::CraftingShaped(body) => body.is_valid(),
            RecipeKind::CraftingSpecial(body) => body.is_valid(),
            RecipeKind::Smelting(body) => body.is_valid(),
            RecipeKind::Stonecutting(body) => body.is_valid(),
            RecipeKind::SmithingTransform(body) => body.is_valid(),
            RecipeKind::SmithingTrim(body) => body.is_valid(),
        }
    }

    fn prot_size(&self) -> (n: usize) {
        match self {
            RecipeKind::CraftingShapeless(body) => body.prot_size(),
            RecipeKind::CraftingShaped(body) => body.prot_size(),
            RecipeKind::CraftingSpecial(body) => body.prot_size(),
            RecipeKind::Smelting(body) => body.prot_size(),
            RecipeKind::Stonecutting(body) => body.prot_size(),
            RecipeKind::SmithingTransform(body) => body.prot_size(),
            RecipeKind::SmithingTrim(body) => body.prot_size(),
        }
    }
}

impl WriteProt for RecipeKind {
    fn write(&self, out: &mut Vec<u8>) {
        match self {
            RecipeKind::CraftingShapeless(body) => body.write(out),
            RecipeKind::CraftingShaped(body) => body.write(out),
            RecipeKind::CraftingSpecial(body) => body.write(out),
            RecipeKind::Smelting(body) => body.write(out),
            RecipeKind::Stonecutting(body) => body.write(out),
            RecipeKind::SmithingTransform(body) => body.write(out),
            RecipeKind::SmithingTrim(body) => body.write(out),
        }
    }
}

/// A decoded body has the form asked for, is admitted and ends inside the
/// input.
pub proof fn lemma_kind_sound(form: RecipeForm, s: Seq<u8>, pos: int)
    requires
        0 <= pos <= s.len(),
    ensures
        match kind_decoding(form, s, pos) {
            Ok((m, next)) => pos <= next <= s.len() && RecipeKind::valid(m) && m.form() == form,
            Err(_) => true,
        },
{
    match form {
        RecipeForm::CraftingShapeless => CraftingShapeless::lemma_decoding_sound(s, pos),
        RecipeForm::CraftingShaped => CraftingShaped::lemma_decoding_sound(s, pos),
        RecipeForm::CraftingSpecial => CraftingSpecial::lemma_decoding_sound(s, pos),
        RecipeForm::Smelting => Smelting::lemma_decoding_sound(s, pos),
        RecipeForm::Stonecutting => Stonecutting::lemma_decoding_sound(s, pos),
        RecipeForm::SmithingTransform => SmithingTransform::lemma_decoding_sound(s, pos),
        RecipeForm::SmithingTrim => SmithingTrim::lemma_decoding_sound(s, pos),
    }
}

/// Decoding the encoding of an admitted body, in its own form, gives it back.
pub proof fn lemma_kind_round_trip(m: RecipeKindModel, pre: Seq<u8>, rest: Seq<u8>)
    requires
        RecipeKind::valid(m),
    ensures
        kind_decoding(m.form(), pre + RecipeKind::encoding(m) + rest, pre.len() as int) == Ok::<
            (RecipeKindModel, int),
            CodecError,
        >((m, (pre.len() + RecipeKind::encoding(m).len()) as int)),
{
    match m {
        RecipeKindModel::CraftingShapeless(body) => CraftingShapeless::lemma_round_trip(body, pre, rest),
        RecipeKindModel::CraftingShaped(body) => CraftingShaped::lemma_round_trip(body, pre, rest),
        RecipeKindModel::CraftingSpecial(body) => CraftingSpecial::lemma_round_trip(body, pre, rest),
        RecipeKindModel::Smelting(body) => Smelting::lemma_round_trip(body, pre, rest),
        RecipeKindModel::Stonecutting(body) => Stonecutting::lemma_round_trip(body, pre, rest),
        RecipeKindModel::SmithingTransform(body) => SmithingTransform::lemma_round_trip(body, pre, rest),
        RecipeKindModel::SmithingTrim(body) => SmithingTrim::lemma_round_trip(body, pre, rest),
    }
}

/// Decodes a body of the form `form` at `pos`.
pub fn read_kind(form: RecipeForm, src: &[u8], pos: usize) -> (r: Result<
    (RecipeKind, usize),
    CodecError,
>)
    requires
        pos <= src@.len(),
    ensures
        match kind_decoding(form, src@, pos as int) {
            Ok((m, next)) => r is Ok && r->Ok_0.0.model() == m && r->Ok_0.1 == next,
            Err(e) => r is Err && r->Err_0 == e,
        },
{
    match form {
        RecipeForm::CraftingShapeless => match CraftingShapeless::read(src, pos) {
            Ok((body, next)) => Ok((RecipeKind::CraftingShapeless(body), next)),
            Err(e) => Err(e),
        },
        RecipeForm::CraftingShaped => match CraftingShaped::read(src, pos) {
            Ok((body, next)) => Ok((RecipeKind::CraftingShaped(body), next)),
            Err(e) => Err(e),
        },
        RecipeForm::CraftingSpecial => match CraftingSpecial::read(src, pos) {
            Ok((body, next)) => Ok((RecipeKind::CraftingSpecial(body), next)),
            Err(e) => Err(e),
        },
        RecipeForm::Smelting => match Smelting::read(src, pos) {
            Ok((body, next)) => Ok((RecipeKind::Smelting(body), next)),
            Err(e) => Err(e),
        },
        RecipeForm::Stonecutting => match Stonecutting::read(src, pos) {
            Ok((body, next)) => Ok((RecipeKind::Stonecutting(body), next)),
            Err(e) => Err(e),
        },
        RecipeForm::SmithingTransform => match SmithingTransform::read(src, pos) {
            Ok((body, next)) => Ok((RecipeKind::SmithingTransform(body), next)),
            Err(e) => Err(e),
        },
        RecipeForm::SmithingTrim => match SmithingTrim::read(src, pos) {
            Ok((body, next)) => Ok((RecipeKind::SmithingTrim(body), next)),
            Err(e) => Err(e),
        },
    }
}

impl Prot for Recipe {
    type Model = RecipeModel;

    open spec fn model(&self) -> RecipeModel {
        RecipeModel { typ: self.typ.model(), id: self.id.model(), data: self.data.model() }
    }

    /// The body must have the form that goes with the type.
    open spec fn valid(m: RecipeModel) -> bool {
        &&& String::valid(m.typ)
        &&& String::valid(m.id)
        &&& recipe_form(m.typ) == Some(m.data.form())
        &&& RecipeKind::valid(m.data)
    }

    /// The type, the id, then the body.
    open spec fn encoding(m: RecipeModel) -> Seq<u8> {
        String::encoding(m.typ) + String::encoding(m.id) + RecipeKind::encoding(m.data)
    }
}

impl SizedProt for Recipe {
    fn is_valid(&self) -> (ok: bool) {
        self.typ.is_valid() && self.id.is_valid() && match recipe_form_of(self.typ.as_str()) {
            Some(form) => form == self.data.form(),
            None => false,
        } && self.data.is_valid()
    }

    fn prot_size(&self) -> (n: usize) {
        self.typ.prot_size() + self.id.prot_size() + self.data.prot_size()
    }
}

impl WriteProt for Recipe {
    fn write(&self, out: &mut Vec<u8>) {
        self.typ.write(out);
        self.id.write(out);
        self.data.write(out);
        proof {
            let m = self.model();
            lemma_concat_assoc(old(out)@, String::encoding(m.typ), String::encoding(m.id));
            lemma_concat_assoc(
                old(out)@,
                String::encoding(m.typ) + String::encoding(m.id),
                RecipeKind::encoding(m.data),
            );
        }
    }
}

impl ReadProt for Recipe {
    /// The type and the id, then a body of the form that goes with the type;
    /// a type that is not in the table is an error.
    open spec fn decoding(s: Seq<u8>, pos: int) -> Result<(RecipeModel, int), CodecError> {
        match String::decoding(s, pos) {
            Err(e) => Err(e),
            Ok((typ, p1)) => match String::decoding(s, p1) {
                Err(e) => Err(e),
                Ok((id, p2)) => match recipe_form(typ) {
                    None => Err(CodecError::UnknownRecipe),
                    Some(form) => match kind_decoding(form, s, p2) {
                        Err(e) => Err(e),
                        Ok((data, next)) => Ok((RecipeModel { typ, id, data }, next)),
                    },
                },
            },
        }
    }

    proof fn lemma_decoding_sound(s: Seq<u8>, pos: int) {
        String::lemma_decoding_sound(s, pos);
        match String::decoding(s, pos) {
            Ok((typ, p1)) => {
                String::lemma_decoding_sound(s, p1);
                match String::decoding(s, p1) {
                    Ok((id, p2)) => {
                        match recipe_form(typ) {
                            Some(form) => {
                                lemma_kind_sound(form, s, p2);
                            },
                            None => {},
                        }
                    },
                    Err(_) => {},
                }
            },
            Err(_) => {},
        }
    }

    proof fn lemma_round_trip(m: RecipeModel, pre: Seq<u8>, rest: Seq<u8>) {
        let e0 = String::encoding(m.typ);
        let e1 = String::encoding(m.id);
        let e2 = RecipeKind::encoding(m.data);
        let p0 = pre;
        let p1 = p0 + e0;
        let p2 = p1 + e1;
        let r2 = rest;
        let r1 = e2 + r2;
        let r0 = e1 + r1;
        lemma_concat_assoc(pre, e0, e1);
        lemma_concat_assoc(pre, e0 + e1, e2);
        lemma_concat_assoc(p2, e2, r2);
        lemma_concat_assoc(p1, e1, r1);
        String::lemma_round_trip(m.typ, p0, r0);
        String::lemma_round_trip(m.id, p1, r1);
        lemma_kind_round_trip(m.data, p2, r2);
    }

    fn read(src: &[u8], pos: usize) -> (r: Result<(Recipe, usize), CodecError>) {
        proof {
            String::lemma_decoding_sound(src@, pos as int);
        }
        let (typ, p1) = match String::read(src, pos) {
            Ok(found) => found,
            Err(e) => {
                return Err(e);
            },
        };
        proof {
            String::lemma_decoding_sound(src@, p1 as int);
        }
        let (id, p2) = match String::read(src, p1) {
            Ok(found) => found,
            Err(e) => {
                return Err(e);
            },
        };
        let form = match recipe_form_of(typ.as_str()) {
            Some(form) => form,
            None => {
                return Err(CodecError::UnknownRecipe);
            },
        };
        match read_kind(form, src, p2) {
            Ok((data, next)) => Ok((Recipe { typ, id, data }, next)),
            Err(e) => Err(e),
        }
    }
}

} // verus!
