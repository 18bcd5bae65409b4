//! The closed universe of value types, sets over it, and typed values.

use vstd::prelude::*;

verus! {

/// One of the eight value types a stored value can have.
#[derive(Clone, Copy, Debug, PartialEq, Eq, Structural)]
pub enum ValueType {
    Ref,
    Boolean,
    Instant,
    Long,
    Double,
    String,
    Keyword,
    Uuid,
}

impl ValueType {
    /// The bit that stands for this type in a `ValueTypeSet`.
    pub open spec fn bit(self) -> u8 {
        match self {
            ValueType::Ref => 1u8,
            ValueType::Boolean => 2u8,
            ValueType::Instant => 4u8,
            ValueType::Long => 8u8,
            ValueType::Double => 16u8,
            ValueType::String => 32u8,
            ValueType::Keyword => 64u8,
            ValueType::Uuid => 128u8,
        }
    }

    pub fn mask(self) -> (r: u8)
        ensures
            r == self.bit(),
    {
        match self {
            ValueType::Ref => 1u8,
            ValueType::Boolean => 2u8,
            ValueType::Instant => 4u8,
            ValueType::Long => 8u8,
            ValueType::Double => 16u8,
            ValueType::String => 32u8,
            ValueType::Keyword => 64u8,
            ValueType::Uuid => 128u8,
        }
    }
}

pub open spec fn single_bit(b: u8) -> bool {
    b == 1 || b == 2 || b == 4 || b == 8 || b == 16 || b == 32 || b == 64 || b == 128
}

/// Two type bits overlap exactly when they are the same bit.
pub proof fn lemma_bits_distinct(a: u8, b: u8)
    requires
        single_bit(a),
        single_bit(b),
    ensures
        (a & b != 0) <==> a == b,
{
    assert((a & b != 0) <==> a == b) by (bit_vector)
        requires
            a == 1 || a == 2 || a == 4 || a == 8 || a == 16 || a == 32 || a == 64 || a == 128,
            b == 1 || b == 2 || b == 4 || b == 8 || b == 16 || b == 32 || b == 64 || b == 128,
    ;
}

/// Membership of one bit in a union or an intersection of masks.
pub proof fn lemma_mask_ops(x: u8, y: u8, b: u8)
    requires
        single_bit(b),
    ensures
        ((x | y) & b != 0) <==> (x & b != 0 || y & b != 0),
        ((x & y) & b != 0) <==> (x & b != 0 && y & b != 0),
{
    assert(((x | y) & b != 0) <==> (x & b != 0 || y & b != 0)) by (bit_vector);
    assert(((x & y) & b != 0) <==> (x & b != 0 && y & b != 0)) by (bit_vector)
        requires
            b == 1 || b == 2 || b == 4 || b == 8 || b == 16 || b == 32 || b == 64 || b == 128,
    ;
}

/// A set of value types, kept as a mask of eight bits.
#[derive(Clone, Copy, Debug, PartialEq, Eq, Structural)]
pub struct ValueTypeSet {
    pub bits: u8,
}

impl ValueTypeSet {
    pub open spec fn contains(self, t: ValueType) -> bool {
        self.bits & t.bit() != 0
    }

    pub open spec fn view(self) -> Set<ValueType> {
        Set::new(|t: ValueType| self.contains(t))
    }

    /// The set holds exactly one type.
    pub open spec fn is_unit_spec(self) -> bool {
        exists|t: ValueType| self.bits == #[trigger] t.bit()
    }

    /// Every value type.
    pub fn any() -> (r: ValueTypeSet)
        ensures
            forall|t: ValueType| r.contains(t),
            r.bits == 255,
    {
        let r = ValueTypeSet { bits: 255u8 };
        proof {
            assert forall|t: ValueType| r.contains(t) by {
                let b = t.bit();
                assert(255u8 & b != 0) by (bit_vector)
                    requires
                        b == 1 || b == 2 || b == 4 || b == 8 || b == 16 || b == 32 || b == 64 || b
                            == 128,
                ;
            }
        }
        r
    }

    /// No value type.
    pub fn none() -> (r: ValueTypeSet)
        ensures
            forall|t: ValueType| !r.contains(t),
            r.bits == 0,
    {
        let r = ValueTypeSet { bits: 0u8 };
        proof {
            assert forall|t: ValueType| !r.contains(t) by {
                let b = t.bit();
                assert(0u8 & b == 0) by (bit_vector);
            }
        }
        r
    }

    pub fn of_one(t: ValueType) -> (r: ValueTypeSet)
        ensures
            r.bits == t.bit(),
            forall|u: ValueType| r.contains(u) <==> u == t,
            r.is_unit_spec(),
    {
        let r = ValueTypeSet { bits: t.mask() };
        proof {
            assert forall|u: ValueType| r.contains(u) <==> u == t by {
                lemma_bits_distinct(t.bit(), u.bit());
            }
        }
        r
    }

    /// `{Long, Double}`.
    pub fn of_numeric_types() -> (r: ValueTypeSet)
        ensures
            forall|u: ValueType| r.contains(u) <==> (u == ValueType::Long || u == ValueType::Double),
            r.bits == 24,
    {
        let r = ValueTypeSet { bits: 24u8 };
        proof {
            assert forall|u: ValueType|
                r.contains(u) <==> (u == ValueType::Long || u == ValueType::Double) by {
                let b = u.bit();
                assert((24u8 & b != 0) <==> (b == 8 || b == 16)) by (bit_vector)
                    requires
                        b == 1 || b == 2 || b == 4 || b == 8 || b == 16 || b == 32 || b == 64 || b
                            == 128,
                ;
            }
        }
        r
    }

    /// `{Long, Double, Instant}`: the types that an inequality can compare.
    pub fn of_comparable_types() -> (r: ValueTypeSet)
        ensures
            forall|u: ValueType|
                r.contains(u) <==> (u == ValueType::Long || u == ValueType::Double || u
                    == ValueType::Instant),
            r.bits == 28,
    {
        let r = ValueTypeSet { bits: 28u8 };
        proof {
            assert forall|u: ValueType|
                r.contains(u) <==> (u == ValueType::Long || u == ValueType::Double || u
                    == ValueType::Instant) by {
                let b = u.bit();
                assert((28u8 & b != 0) <==> (b == 4 || b == 8 || b == 16)) by (bit_vector)
                    requires
                        b == 1 || b == 2 || b == 4 || b == 8 || b == 16 || b == 32 || b == 64 || b
                            == 128,
                ;
            }
        }
        r
    }

    /// `{Ref}`.
    pub fn of_ref() -> (r: ValueTypeSet)
        ensures
            r == Self::unit_of(ValueType::Ref),
            forall|u: ValueType| r.contains(u) <==> u == ValueType::Ref,
    {
        Self::of_one(ValueType::Ref)
    }

    pub open spec fn unit_of(t: ValueType) -> ValueTypeSet {
        ValueTypeSet { bits: t.bit() }
    }

    pub open spec fn meet(self, other: ValueTypeSet) -> ValueTypeSet {
        ValueTypeSet { bits: self.bits & other.bits }
    }

    pub open spec fn join(self, other: ValueTypeSet) -> ValueTypeSet {
        ValueTypeSet { bits: self.bits | other.bits }
    }

    pub fn of_many(types: &Vec<ValueType>) -> (r: ValueTypeSet)
        ensures
            forall|u: ValueType| r.contains(u) <==> types@.contains(u),
    {
        let mut bits: u8 = 0u8;
        let mut i: usize = 0;
        proof {
            assert forall|u: ValueType| !(ValueTypeSet { bits: 0u8 }).contains(u) by {
                let b = u.bit();
                assert(0u8 & b == 0) by (bit_vector);
            }
        }
        while i < types.len()
            invariant
                i <= types.len(),
                forall|u: ValueType|
                    (ValueTypeSet { bits }).contains(u) <==> types@.take(i as int).contains(u),
            decreases types.len() - i,
        {
            let m: u8 = types[i].mask();
            proof {
                let before = types@.take(i as int);
                let after = types@.take(i + 1);
                let t = types@[i as int];
                assert(after =~= before.push(t));
                assert forall|u: ValueType|
                    (ValueTypeSet { bits: bits | m }).contains(u) <==> after.contains(u) by {
                    lemma_mask_ops(bits, m, u.bit());
                    lemma_bits_distinct(m, u.bit());
                    assert((ValueTypeSet { bits }).contains(u) <==> before.contains(u));
                    assert((m & u.bit() != 0) <==> u == t);
                    if before.contains(u) {
                        let k = choose|k: int| 0 <= k < before.len() && before[k] == u;
                        assert(after[k] == u);
                    }
                    if u == t {
                        assert(after[i as int] == u);
                    }
                    if after.contains(u) {
                        let k = choose|k: int| 0 <= k < after.len() && after[k] == u;
                        if k < i {
                            assert(before[k] == u);
                        } else {
                            assert(u == t);
                        }
                    }
                }
            }
            bits = bits | m;
            i = i + 1;
        }
        proof {
            assert(types@.take(i as int) =~= types@);
        }
        ValueTypeSet { bits }
    }

    pub fn union(&self, other: &ValueTypeSet) -> (r: ValueTypeSet)
        ensures
            r == self.join(*other),
            forall|u: ValueType| r.contains(u) <==> (self.contains(u) || other.contains(u)),
    {
        let r = ValueTypeSet { bits: self.bits | other.bits };
        proof {
            assert forall|u: ValueType|
                r.contains(u) <==> (self.contains(u) || other.contains(u)) by {
                lemma_mask_ops(self.bits, other.bits, u.bit());
            }
        }
        r
    }

    pub fn intersection(&self, other: &ValueTypeSet) -> (r: ValueTypeSet)
        ensures
            r == self.meet(*other),
            forall|u: ValueType| r.contains(u) <==> (self.contains(u) && other.contains(u)),
    {
        let r = ValueTypeSet { bits: self.bits & other.bits };
        proof {
            assert forall|u: ValueType|
                r.contains(u) <==> (self.contains(u) && other.contains(u)) by {
                lemma_mask_ops(self.bits, other.bits, u.bit());
            }
        }
        r
    }

    pub fn is_empty(&self) -> (r: bool)
        ensures
            r == (self.bits == 0),
            r == (forall|u: ValueType| !self.contains(u)),
    {
        proof {
            lemma_empty_mask(self.bits);
        }
        self.bits == 0
    }

    pub fn contains_type(&self, t: ValueType) -> (r: bool)
        ensures
            r == self.contains(t),
    {
        self.bits & t.mask() != 0
    }

    /// The sole member, where there is exactly one.
    pub fn unit(&self) -> (r: Option<ValueType>)
        ensures
            match r {
                Some(t) => self.bits == t.bit(),
                None => !self.is_unit_spec(),
            },
    {
        let b: u8 = self.bits;
        if b == 1 {
            Some(ValueType::Ref)
        } else if b == 2 {
            Some(ValueType::Boolean)
        } else if b == 4 {
            Some(ValueType::Instant)
        } else if b == 8 {
            Some(ValueType::Long)
        } else if b == 16 {
            Some(ValueType::Double)
        } else if b == 32 {
            Some(ValueType::String)
        } else if b == 64 {
            Some(ValueType::Keyword)
        } else if b == 128 {
            Some(ValueType::Uuid)
        } else {
            None
        }
    }

    pub fn is_unit(&self) -> (r: bool)
        ensures
            r == self.is_unit_spec(),
    {
        self.unit().is_some()
    }
}

/// A mask is zero exactly when no type bit is set in it.
pub proof fn lemma_empty_mask(x: u8)
    ensures
        (x == 0) <==> (forall|u: ValueType| !(ValueTypeSet { bits: x }).contains(u)),
{
    if x == 0 {
        assert forall|u: ValueType| !(ValueTypeSet { bits: x }).contains(u) by {
            let b = u.bit();
            assert(0u8 & b == 0) by (bit_vector);
        }
    } else {
        assert(x & 1 != 0 || x & 2 != 0 || x & 4 != 0 || x & 8 != 0 || x & 16 != 0 || x & 32 != 0
            || x & 64 != 0 || x & 128 != 0) by (bit_vector)
            requires
                x != 0,
        ;
        let s = ValueTypeSet { bits: x };
        assert(s.contains(ValueType::Ref) || s.contains(ValueType::Boolean) || s.contains(
            ValueType::Instant,
        ) || s.contains(ValueType::Long) || s.contains(ValueType::Double) || s.contains(
            ValueType::String,
        ) || s.contains(ValueType::Keyword) || s.contains(ValueType::Uuid));
    }
}

/// Narrowing is monotone, and narrowing twice by the same set changes nothing more.
pub proof fn lemma_meet_laws(a: ValueTypeSet, b: ValueTypeSet)
    ensures
        a.meet(b).meet(b) == a.meet(b),
        a.meet(b) == b.meet(a),
        a.meet(a) == a,
        a.join(b) == b.join(a),
        a.join(a) == a,
        a.meet(b).join(a) == a,
        forall|t: ValueType| a.meet(b).contains(t) ==> a.contains(t),
{
    let x = a.bits;
    let y = b.bits;
    assert((x & y) & y == x & y) by (bit_vector);
    assert(x & y == y & x) by (bit_vector);
    assert(x & x == x) by (bit_vector);
    assert(x | y == y | x) by (bit_vector);
    assert(x | x == x) by (bit_vector);
    assert((x & y) | x == x) by (bit_vector);
    assert forall|t: ValueType| a.meet(b).contains(t) implies a.contains(t) by {
        lemma_mask_ops(x, y, t.bit());
    }
}

/// A value together with its concrete type. A double is held by the bits of
/// its IEEE 754 encoding, an instant by its microseconds since the epoch.
#[derive(Clone, Debug, PartialEq, Eq)]
pub enum TypedValue {
    Ref(i64),
    Boolean(bool),
    Long(i64),
    Double(u64),
    Instant(i64),
    String(String),
    Keyword(String),
    Uuid(u128),
}

impl TypedValue {
    pub open spec fn type_of(self) -> ValueType {
        match self {
            TypedValue::Ref(_) => ValueType::Ref,
            TypedValue::Boolean(_) => ValueType::Boolean,
            TypedValue::Long(_) => ValueType::Long,
            TypedValue::Double(_) => ValueType::Double,
            TypedValue::Instant(_) => ValueType::Instant,
            TypedValue::String(_) => ValueType::String,
            TypedValue::Keyword(_) => ValueType::Keyword,
            TypedValue::Uuid(_) => ValueType::Uuid,
        }
    }

    pub fn value_type(&self) -> (r: ValueType)
        ensures
            r == self.type_of(),
    {
        match self {
            TypedValue::Ref(_) => ValueType::Ref,
            TypedValue::Boolean(_) => ValueType::Boolean,
            TypedValue::Long(_) => ValueType::Long,
            TypedValue::Double(_) => ValueType::Double,
            TypedValue::Instant(_) => ValueType::Instant,
            TypedValue::String(_) => ValueType::String,
            TypedValue::Keyword(_) => ValueType::Keyword,
            TypedValue::Uuid(_) => ValueType::Uuid,
        }
    }

    /// A string value holding the given text.
    pub fn typed_string(s: &str) -> (r: TypedValue)
        ensures
            r matches TypedValue::String(t) && t@ == s@,
    {
        TypedValue::String(s.to_owned())
    }

    /// A copy that is equal to the value.
    pub fn duplicate(&self) -> (r: TypedValue)
        ensures
            r == *self,
    {
        match self {
            TypedValue::Ref(e) => TypedValue::Ref(*e),
            TypedValue::Boolean(b) => TypedValue::Boolean(*b),
            TypedValue::Long(n) => TypedValue::Long(*n),
            TypedValue::Double(d) => TypedValue::Double(*d),
            TypedValue::Instant(t) => TypedValue::Instant(*t),
            TypedValue::String(s) => TypedValue::String(s.clone()),
            TypedValue::Keyword(k) => TypedValue::Keyword(k.clone()),
            TypedValue::Uuid(u) => TypedValue::Uuid(*u),
        }
    }
}

} // verus!
