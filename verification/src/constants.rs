//! The bit-flag sets of a card record, each over a closed list of flags.

use vstd::prelude::*;

verus! {

/// The attribute of a monster.
#[derive(Clone, Copy, Debug, PartialEq, Eq, Structural)]
pub struct Attribute {
    pub bits: u32,
}

impl Attribute {
    pub const EARTH: u32 = 0x1;

    pub const WATER: u32 = 0x2;

    pub const FIRE: u32 = 0x4;

    pub const WIND: u32 = 0x8;

    pub const LIGHT: u32 = 0x10;

    pub const DARK: u32 = 0x20;

    pub const DEVINE: u32 = 0x40;

    /// Every flag of the list.
    pub const ALL: u32 = 0x7f;

    /// Whether no bit outside the list is set.
    pub open spec fn is_valid(self) -> bool {
        self.bits & !Attribute::ALL == 0
    }

    /// Whether every bit of `flags` is set.
    pub open spec fn has(self, flags: u32) -> bool {
        self.bits & flags == flags
    }

    /// Whether some bit of `flags` is set.
    pub open spec fn has_any(self, flags: u32) -> bool {
        self.bits & flags != 0
    }

    /// The set without any flag.
    pub fn empty() -> (r: Attribute)
        ensures
            r.bits == 0,
    {
        Attribute { bits: 0 }
    }

    /// The flags of the list among `bits`; other bits are dropped.
    pub fn from_bits_truncate(bits: u32) -> (r: Attribute)
        ensures
            r.bits == bits & Attribute::ALL,
            r.is_valid(),
    {
        assert((bits & Attribute::ALL) & !Attribute::ALL == 0) by (bit_vector);
        Attribute { bits: bits & Attribute::ALL }
    }

    /// All of `bits`, those outside the list too.
    pub fn from_bits_retain(bits: u32) -> (r: Attribute)
        ensures
            r.bits == bits,
    {
        Attribute { bits }
    }

    /// The flags as a number.
    pub fn bits(&self) -> (r: u32)
        ensures
            r == self.bits,
    {
        self.bits
    }

    /// Whether no flag is set.
    pub fn is_empty(&self) -> (r: bool)
        ensures
            r == (self.bits == 0),
    {
        self.bits == 0
    }

    /// Whether every flag of `other` is set.
    pub fn contains(&self, other: Attribute) -> (r: bool)
        ensures
            r == self.has(other.bits),
    {
        self.bits & other.bits == other.bits
    }

    /// Whether some flag of `other` is set.
    pub fn intersects(&self, other: Attribute) -> (r: bool)
        ensures
            r == self.has_any(other.bits),
    {
        self.bits & other.bits != 0
    }

    /// The flags of either set.
    pub fn union(self, other: Attribute) -> (r: Attribute)
        ensures
            r.bits == self.bits | other.bits,
    {
        Attribute { bits: self.bits | other.bits }
    }

    /// The flags of both sets.
    pub fn intersection(self, other: Attribute) -> (r: Attribute)
        ensures
            r.bits == self.bits & other.bits,
    {
        Attribute { bits: self.bits & other.bits }
    }

    /// The flags of this set that `other` has not.
    pub fn difference(self, other: Attribute) -> (r: Attribute)
        ensures
            r.bits == self.bits & !other.bits,
    {
        Attribute { bits: self.bits & !other.bits }
    }
}

/// The rule sets a card belongs to.
#[derive(Clone, Copy, Debug, PartialEq, Eq, Structural)]
pub struct OT {
    pub bits: u32,
}

impl OT {
    pub const OCG: u32 = 0x1;

    pub const TCG: u32 = 0x2;

    pub const CUSTOM: u32 = 0x4;

    pub const SC: u32 = 0x8;

    pub const DRAFT: u32 = 0x400;

    /// Every flag of the list.
    pub const ALL: u32 = 0x40f;

    /// Whether no bit outside the list is set.
    pub open spec fn is_valid(self) -> bool {
        self.bits & !OT::ALL == 0
    }

    /// Whether every bit of `flags` is set.
    pub open spec fn has(self, flags: u32) -> bool {
        self.bits & flags == flags
    }

    /// Whether some bit of `flags` is set.
    pub open spec fn has_any(self, flags: u32) -> bool {
        self.bits & flags != 0
    }

    /// The set without any flag.
    pub fn empty() -> (r: OT)
        ensures
            r.bits == 0,
    {
        OT { bits: 0 }
    }

    /// The flags of the list among `bits`; other bits are dropped.
    pub fn from_bits_truncate(bits: u32) -> (r: OT)
        ensures
            r.bits == bits & OT::ALL,
            r.is_valid(),
    {
        assert((bits & OT::ALL) & !OT::ALL == 0) by (bit_vector);
        OT { bits: bits & OT::ALL }
    }

    /// All of `bits`, those outside the list too.
    pub fn from_bits_retain(bits: u32) -> (r: OT)
        ensures
            r.bits == bits,
    {
        OT { bits }
    }

    /// The flags as a number.
    pub fn bits(&self) -> (r: u32)
        ensures
            r == self.bits,
    {
        self.bits
    }

    /// Whether no flag is set.
    pub fn is_empty(&self) -> (r: bool)
        ensures
            r == (self.bits == 0),
    {
        self.bits == 0
    }

    /// Whether every flag of `other` is set.
    pub fn contains(&self, other: OT) -> (r: bool)
        ensures
            r == self.has(other.bits),
    {
        self.bits & other.bits == other.bits
    }

    /// Whether some flag of `other` is set.
    pub fn intersects(&self, other: OT) -> (r: bool)
        ensures
            r == self.has_any(other.bits),
    {
        self.bits & other.bits != 0
    }

    /// The flags of either set.
    pub fn union(self, other: OT) -> (r: OT)
        ensures
            r.bits == self.bits | other.bits,
    {
        OT { bits: self.bits | other.bits }
    }

    /// The flags of both sets.
    pub fn intersection(self, other: OT) -> (r: OT)
        ensures
            r.bits == self.bits & other.bits,
    {
        OT { bits: self.bits & other.bits }
    }

    /// The flags of this set that `other` has not.
    pub fn difference(self, other: OT) -> (r: OT)
        ensures
            r.bits == self.bits & !other.bits,
    {
        OT { bits: self.bits & !other.bits }
    }
}

/// The race of a monster.
#[derive(Clone, Copy, Debug, PartialEq, Eq, Structural)]
pub struct Race {
    pub bits: u32,
}

impl Race {
    pub const WARRIOR: u32 = 0x1;

    pub const SPELLCASTER: u32 = 0x2;

    pub const FAIRY: u32 = 0x4;

    pub const FIEND: u32 = 0x8;

    pub const ZOMBIE: u32 = 0x10;

    pub const MACHINE: u32 = 0x20;

    pub const AQUA: u32 = 0x40;

    pub const PYRO: u32 = 0x80;

    pub const ROCK: u32 = 0x100;

    pub const WINDBEAST: u32 = 0x200;

    pub const PLANT: u32 = 0x400;

    pub const INSECT: u32 = 0x800;

    pub const THUNDER: u32 = 0x1000;

    pub const DRAGON: u32 = 0x2000;

    pub const BEAST: u32 = 0x4000;

    pub const BEASTWARRIOR: u32 = 0x8000;

    pub const DINOSAUR: u32 = 0x10000;

    pub const FISH: u32 = 0x20000;

    pub const SEASERPENT: u32 = 0x40000;

    pub const REPTILE: u32 = 0x80000;

    pub const PSYCHO: u32 = 0x100000;

    pub const DEVINE: u32 = 0x200000;

    pub const CREATORGOD: u32 = 0x400000;

    pub const WYRM: u32 = 0x800000;

    pub const CYBERS: u32 = 0x1000000;

    /// Every flag of the list.
    pub const ALL: u32 = 0x1ffffff;

    /// Whether no bit outside the list is set.
    pub open spec fn is_valid(self) -> bool {
        self.bits & !Race::ALL == 0
    }

    /// Whether every bit of `flags` is set.
    pub open spec fn has(self, flags: u32) -> bool {
        self.bits & flags == flags
    }

    /// Whether some bit of `flags` is set.
    pub open spec fn has_any(self, flags: u32) -> bool {
        self.bits & flags != 0
    }

    /// The set without any flag.
    pub fn empty() -> (r: Race)
        ensures
            r.bits == 0,
    {
        Race { bits: 0 }
    }

    /// The flags of the list among `bits`; other bits are dropped.
    pub fn from_bits_truncate(bits: u32) -> (r: Race)
        ensures
            r.bits == bits & Race::ALL,
            r.is_valid(),
    {
        assert((bits & Race::ALL) & !Race::ALL == 0) by (bit_vector);
        Race { bits: bits & Race::ALL }
    }

    /// All of `bits`, those outside the list too.
    pub fn from_bits_retain(bits: u32) -> (r: Race)
        ensures
            r.bits == bits,
    {
        Race { bits }
    }

    /// The flags as a number.
    pub fn bits(&self) -> (r: u32)
        ensures
            r == self.bits,
    {
        self.bits
    }

    /// Whether no flag is set.
    pub fn is_empty(&self) -> (r: bool)
        ensures
            r == (self.bits == 0),
    {
        self.bits == 0
    }

    /// Whether every flag of `other` is set.
    pub fn contains(&self, other: Race) -> (r: bool)
        ensures
            r == self.has(other.bits),
    {
        self.bits & other.bits == other.bits
    }

    /// Whether some flag of `other` is set.
    pub fn intersects(&self, other: Race) -> (r: bool)
        ensures
            r == self.has_any(other.bits),
    {
        self.bits & other.bits != 0
    }

    /// The flags of either set.
    pub fn union(self, other: Race) -> (r: Race)
        ensures
            r.bits == self.bits | other.bits,
    {
        Race { bits: self.bits | other.bits }
    }

    /// The flags of both sets.
    pub fn intersection(self, other: Race) -> (r: Race)
        ensures
            r.bits == self.bits & other.bits,
    {
        Race { bits: self.bits & other.bits }
    }

    /// The flags of this set that `other` has not.
    pub fn difference(self, other: Race) -> (r: Race)
        ensures
            r.bits == self.bits & !other.bits,
    {
        Race { bits: self.bits & !other.bits }
    }
}

/// The kinds a card belongs to.
#[derive(Clone, Copy, Debug, PartialEq, Eq, Structural)]
pub struct Type {
    pub bits: u32,
}

impl Type {
    pub const MONSTER: u32 = 0x1;

    pub const SPELL: u32 = 0x2;

    pub const TRAP: u32 = 0x4;

    pub const NORMAL: u32 = 0x10;

    pub const EFFECT: u32 = 0x20;

    pub const FUSION: u32 = 0x40;

    pub const RITUAL: u32 = 0x80;

    pub const TRAPMONSTER: u32 = 0x100;

    pub const SPIRIT: u32 = 0x200;

    pub const UNION: u32 = 0x400;

    pub const DUAL: u32 = 0x800;

    pub const TUNER: u32 = 0x1000;

    pub const SYNCHRO: u32 = 0x2000;

    pub const TOKEN: u32 = 0x4000;

    pub const QUICKPLAY: u32 = 0x10000;

    pub const CONTINUOUS: u32 = 0x20000;

    pub const EQUIP: u32 = 0x40000;

    pub const FIELD: u32 = 0x80000;

    pub const COUNTER: u32 = 0x100000;

    pub const FLIP: u32 = 0x200000;

    pub const TOON: u32 = 0x400000;

    pub const XYZ: u32 = 0x800000;

    pub const PENDULUM: u32 = 0x1000000;

    pub const SPSUMMON: u32 = 0x2000000;

    pub const LINK: u32 = 0x4000000;

    /// Every flag of the list.
    pub const ALL: u32 = 0x7ff7ff7;

    /// Whether no bit outside the list is set.
    pub open spec fn is_valid(self) -> bool {
        self.bits & !Type::ALL == 0
    }

    /// Whether every bit of `flags` is set.
    pub open spec fn has(self, flags: u32) -> bool {
        self.bits & flags == flags
    }

    /// Whether some bit of `flags` is set.
    pub open spec fn has_any(self, flags: u32) -> bool {
        self.bits & flags != 0
    }

    /// The set without any flag.
    pub fn empty() -> (r: Type)
        ensures
            r.bits == 0,
    {
        Type { bits: 0 }
    }

    /// The flags of the list among `bits`; other bits are dropped.
    pub fn from_bits_truncate(bits: u32) -> (r: Type)
        ensures
            r.bits == bits & Type::ALL,
            r.is_valid(),
    {
        assert((bits & Type::ALL) & !Type::ALL == 0) by (bit_vector);
        Type { bits: bits & Type::ALL }
    }

    /// All of `bits`, those outside the list too.
    pub fn from_bits_retain(bits: u32) -> (r: Type)
        ensures
            r.bits == bits,
    {
        Type { bits }
    }

    /// The flags as a number.
    pub fn bits(&self) -> (r: u32)
        ensures
            r == self.bits,
    {
        self.bits
    }

    /// Whether no flag is set.
    pub fn is_empty(&self) -> (r: bool)
        ensures
            r == (self.bits == 0),
    {
        self.bits == 0
    }

    /// Whether every flag of `other` is set.
    pub fn contains(&self, other: Type) -> (r: bool)
        ensures
            r == self.has(other.bits),
    {
        self.bits & other.bits == other.bits
    }

    /// Whether some flag of `other` is set.
    pub fn intersects(&self, other: Type) -> (r: bool)
        ensures
            r == self.has_any(other.bits),
    {
        self.bits & other.bits != 0
    }

    /// The flags of either set.
    pub fn union(self, other: Type) -> (r: Type)
        ensures
            r.bits == self.bits | other.bits,
    {
        Type { bits: self.bits | other.bits }
    }

    /// The flags of both sets.
    pub fn intersection(self, other: Type) -> (r: Type)
        ensures
            r.bits == self.bits & other.bits,
    {
        Type { bits: self.bits & other.bits }
    }

    /// The flags of this set that `other` has not.
    pub fn difference(self, other: Type) -> (r: Type)
        ensures
            r.bits == self.bits & !other.bits,
    {
        Type { bits: self.bits & !other.bits }
    }
}

/// The arrows of a Link monster.
#[derive(Clone, Copy, Debug, PartialEq, Eq, Structural)]
pub struct Linkmarkers {
    pub bits: i32,
}

impl Linkmarkers {
    pub const BOTTOM_LEFT: i32 = 0x1;

    pub const BOTTOM: i32 = 0x2;

    pub const BOTTOM_RIGHT: i32 = 0x4;

    pub const LEFT: i32 = 0x8;

    pub const RIGHT: i32 = 0x20;

    pub const TOP_LEFT: i32 = 0x40;

    pub const TOP: i32 = 0x80;

    pub const TOP_RIGHT: i32 = 0x100;

    /// Every flag of the list.
    pub const ALL: i32 = 0x1ef;

    /// Whether no bit outside the list is set.
    pub open spec fn is_valid(self) -> bool {
        self.bits & !Linkmarkers::ALL == 0
    }

    /// Whether every bit of `flags` is set.
    pub open spec fn has(self, flags: i32) -> bool {
        self.bits & flags == flags
    }

    /// Whether some bit of `flags` is set.
    pub open spec fn has_any(self, flags: i32) -> bool {
        self.bits & flags != 0
    }

    /// The set without any flag.
    pub fn empty() -> (r: Linkmarkers)
        ensures
            r.bits == 0,
    {
        Linkmarkers { bits: 0 }
    }

    /// The flags of the list among `bits`; other bits are dropped.
    pub fn from_bits_truncate(bits: i32) -> (r: Linkmarkers)
        ensures
            r.bits == bits & Linkmarkers::ALL,
            r.is_valid(),
    {
        assert((bits & Linkmarkers::ALL) & !Linkmarkers::ALL == 0) by (bit_vector);
        Linkmarkers { bits: bits & Linkmarkers::ALL }
    }

    /// All of `bits`, those outside the list too.
    pub fn from_bits_retain(bits: i32) -> (r: Linkmarkers)
        ensures
            r.bits == bits,
    {
        Linkmarkers { bits }
    }

    /// The flags as a number.
    pub fn bits(&self) -> (r: i32)
        ensures
            r == self.bits,
    {
        self.bits
    }

    /// Whether no flag is set.
    pub fn is_empty(&self) -> (r: bool)
        ensures
            r == (self.bits == 0),
    {
        self.bits == 0
    }

    /// Whether every flag of `other` is set.
    pub fn contains(&self, other: Linkmarkers) -> (r: bool)
        ensures
            r == self.has(other.bits),
    {
        self.bits & other.bits == other.bits
    }

    /// Whether some flag of `other` is set.
    pub fn intersects(&self, other: Linkmarkers) -> (r: bool)
        ensures
            r == self.has_any(other.bits),
    {
        self.bits & other.bits != 0
    }

    /// The flags of either set.
    pub fn union(self, other: Linkmarkers) -> (r: Linkmarkers)
        ensures
            r.bits == self.bits | other.bits,
    {
        Linkmarkers { bits: self.bits | other.bits }
    }

    /// The flags of both sets.
    pub fn intersection(self, other: Linkmarkers) -> (r: Linkmarkers)
        ensures
            r.bits == self.bits & other.bits,
    {
        Linkmarkers { bits: self.bits & other.bits }
    }

    /// The flags of this set that `other` has not.
    pub fn difference(self, other: Linkmarkers) -> (r: Linkmarkers)
        ensures
            r.bits == self.bits & !other.bits,
    {
        Linkmarkers { bits: self.bits & !other.bits }
    }
}

/// The effect classifications of a card.
#[derive(Clone, Copy, Debug, PartialEq, Eq, Structural)]
pub struct Category {
    pub bits: u64,
}

impl Category {
    pub const CATEGORY1: u64 = 0x1;

    pub const CATEGORY2: u64 = 0x2;

    pub const CATEGORY3: u64 = 0x4;

    pub const CATEGORY4: u64 = 0x8;

    pub const CATEGORY5: u64 = 0x10;

    pub const CATEGORY6: u64 = 0x20;

    pub const CATEGORY7: u64 = 0x40;

    pub const CATEGORY8: u64 = 0x80;

    pub const CATEGORY9: u64 = 0x100;

    pub const CATEGORY10: u64 = 0x200;

    pub const CATEGORY11: u64 = 0x400;

    pub const CATEGORY12: u64 = 0x800;

    pub const CATEGORY13: u64 = 0x1000;

    pub const CATEGORY14: u64 = 0x2000;

    pub const CATEGORY15: u64 = 0x4000;

    pub const CATEGORY16: u64 = 0x8000;

    pub const CATEGORY17: u64 = 0x10000;

    pub const CATEGORY18: u64 = 0x20000;

    pub const CATEGORY19: u64 = 0x40000;

    pub const CATEGORY20: u64 = 0x80000;

    pub const CATEGORY21: u64 = 0x100000;

    pub const CATEGORY22: u64 = 0x200000;

    pub const CATEGORY23: u64 = 0x400000;

    pub const CATEGORY24: u64 = 0x800000;

    pub const CATEGORY25: u64 = 0x1000000;

    pub const CATEGORY26: u64 = 0x2000000;

    pub const CATEGORY27: u64 = 0x4000000;

    pub const CATEGORY28: u64 = 0x8000000;

    pub const CATEGORY29: u64 = 0x10000000;

    pub const CATEGORY30: u64 = 0x20000000;

    pub const CATEGORY31: u64 = 0x40000000;

    pub const CATEGORY32: u64 = 0x80000000;

    /// Every flag of the list.
    pub const ALL: u64 = 0xffffffff;

    /// Whether no bit outside the list is set.
    pub open spec fn is_valid(self) -> bool {
        self.bits & !Category::ALL == 0
    }

    /// Whether every bit of `flags` is set.
    pub open spec fn has(self, flags: u64) -> bool {
        self.bits & flags == flags
    }

    /// Whether some bit of `flags` is set.
    pub open spec fn has_any(self, flags: u64) -> bool {
        self.bits & flags != 0
    }

    /// The set without any flag.
    pub fn empty() -> (r: Category)
        ensures
            r.bits == 0,
    {
        Category { bits: 0 }
    }

    /// The flags of the list among `bits`; other bits are dropped.
    pub fn from_bits_truncate(bits: u64) -> (r: Category)
        ensures
            r.bits == bits & Category::ALL,
            r.is_valid(),
    {
        assert((bits & Category::ALL) & !Category::ALL == 0) by (bit_vector);
        Category { bits: bits & Category::ALL }
    }

    /// All of `bits`, those outside the list too.
    pub fn from_bits_retain(bits: u64) -> (r: Category)
        ensures
            r.bits == bits,
    {
        Category { bits }
    }

    /// The flags as a number.
    pub fn bits(&self) -> (r: u64)
        ensures
            r == self.bits,
    {
        self.bits
    }

    /// Whether no flag is set.
    pub fn is_empty(&self) -> (r: bool)
        ensures
            r == (self.bits == 0),
    {
        self.bits == 0
    }

    /// Whether every flag of `other` is set.
    pub fn contains(&self, other: Category) -> (r: bool)
        ensures
            r == self.has(other.bits),
    {
        self.bits & other.bits == other.bits
    }

    /// Whether some flag of `other` is set.
    pub fn intersects(&self, other: Category) -> (r: bool)
        ensures
            r == self.has_any(other.bits),
    {
        self.bits & other.bits != 0
    }

    /// The flags of either set.
    pub fn union(self, other: Category) -> (r: Category)
        ensures
            r.bits == self.bits | other.bits,
    {
        Category { bits: self.bits | other.bits }
    }

    /// The flags of both sets.
    pub fn intersection(self, other: Category) -> (r: Category)
        ensures
            r.bits == self.bits & other.bits,
    {
        Category { bits: self.bits & other.bits }
    }

    /// The flags of this set that `other` has not.
    pub fn difference(self, other: Category) -> (r: Category)
        ensures
            r.bits == self.bits & !other.bits,
    {
        Category { bits: self.bits & !other.bits }
    }
}

/// The formats cards are read from and written to.
#[derive(Clone, Copy, Debug, PartialEq, Eq, Structural)]
pub enum Format {
    Xyyz,
    SQL,
    CDB,
    Script,
}

} // verus!
