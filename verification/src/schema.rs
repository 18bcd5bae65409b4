//! The schema as the algebrizer reads it: attributes by entid, entids by ident.

use vstd::prelude::*;
use crate::value_types::ValueType;

verus! {

#[derive(Clone, Copy, Debug, PartialEq, Eq, Structural)]
pub enum Unique {
    Value,
    Identity,
}

/// What the schema says of one attribute.
#[derive(Clone, Copy, Debug, PartialEq, Eq, Structural)]
pub struct Attribute {
    pub value_type: ValueType,
    pub multival: bool,
    pub unique: Option<Unique>,
    pub fulltext: bool,
    pub index: bool,
    pub no_history: bool,
}

impl Attribute {
    /// A single-valued attribute of the given type with every flag off.
    pub fn of_type(value_type: ValueType) -> (r: Attribute)
        ensures
            r == (Attribute {
                value_type,
                multival: false,
                unique: None,
                fulltext: false,
                index: false,
                no_history: false,
            }),
    {
        Attribute {
            value_type,
            multival: false,
            unique: None,
            fulltext: false,
            index: false,
            no_history: false,
        }
    }

    pub fn is_ref(&self) -> (r: bool)
        ensures
            r == (self.value_type == ValueType::Ref),
    {
        match self.value_type {
            ValueType::Ref => true,
            _ => false,
        }
    }
}

/// The attribute recorded last for `e`.
pub open spec fn attribute_of(s: Seq<(i64, Attribute)>, e: i64) -> Option<Attribute>
    decreases s.len(),
{
    if s.len() == 0 {
        None
    } else if s.last().0 == e {
        Some(s.last().1)
    } else {
        attribute_of(s.drop_last(), e)
    }
}

/// The entid recorded last for the ident `name`.
pub open spec fn entid_of(s: Seq<(String, i64)>, name: Seq<char>) -> Option<i64>
    decreases s.len(),
{
    if s.len() == 0 {
        None
    } else if s.last().0@ == name {
        Some(s.last().1)
    } else {
        entid_of(s.drop_last(), name)
    }
}

#[derive(Debug, PartialEq, Eq)]
pub struct Schema {
    pub attributes: Vec<(i64, Attribute)>,
    pub idents: Vec<(String, i64)>,
}

impl Schema {
    pub fn new() -> (r: Schema)
        ensures
            r.attributes@.len() == 0,
            r.idents@.len() == 0,
    {
        Schema { attributes: Vec::new(), idents: Vec::new() }
    }

    pub fn attribute_for_entid(&self, e: i64) -> (r: Option<Attribute>)
        ensures
            r == attribute_of(self.attributes@, e),
    {
        let mut i: usize = self.attributes.len();
        assert(self.attributes@.take(i as int) =~= self.attributes@);
        while i > 0
            invariant
                i <= self.attributes.len(),
                attribute_of(self.attributes@, e) == attribute_of(
                    self.attributes@.take(i as int),
                    e,
                ),
            decreases i,
        {
            let ghost s = self.attributes@.take(i as int);
            assert(s.drop_last() =~= self.attributes@.take(i - 1));
            i = i - 1;
            if self.attributes[i].0 == e {
                return Some(self.attributes[i].1);
            }
        }
        None
    }

    pub fn entid_for_ident(&self, ident: &String) -> (r: Option<i64>)
        ensures
            r == entid_of(self.idents@, ident@),
    {
        let mut i: usize = self.idents.len();
        assert(self.idents@.take(i as int) =~= self.idents@);
        while i > 0
            invariant
                i <= self.idents.len(),
                entid_of(self.idents@, ident@) == entid_of(self.idents@.take(i as int), ident@),
            decreases i,
        {
            let ghost s = self.idents@.take(i as int);
            assert(s.drop_last() =~= self.idents@.take(i - 1));
            i = i - 1;
            if self.idents[i].0 == *ident {
                return Some(self.idents[i].1);
            }
        }
        None
    }

    pub fn is_attribute(&self, e: i64) -> (r: bool)
        ensures
            r == attribute_of(self.attributes@, e).is_some(),
    {
        self.attribute_for_entid(e).is_some()
    }
}

/// Records that `ident` names the entity `e`.
pub fn associate_ident(schema: &mut Schema, ident: &str, e: i64)
    ensures
        final(schema).attributes@ == old(schema).attributes@,
        final(schema).idents@.len() == old(schema).idents@.len() + 1,
        final(schema).idents@.drop_last() == old(schema).idents@,
        final(schema).idents@.last().0@ == ident@,
        final(schema).idents@.last().1 == e,
        entid_of(final(schema).idents@, ident@) == Some(e),
{
    schema.idents.push((ident.to_owned(), e));
    proof {
        assert(schema.idents@.drop_last() =~= old(schema).idents@);
    }
}

/// Records `attribute` for the entity `e`.
pub fn add_attribute(schema: &mut Schema, e: i64, attribute: Attribute)
    ensures
        final(schema).idents@ == old(schema).idents@,
        final(schema).attributes@ == old(schema).attributes@.push((e, attribute)),
        attribute_of(final(schema).attributes@, e) == Some(attribute),
{
    schema.attributes.push((e, attribute));
}

} // verus!
