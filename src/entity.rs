//! The subject on which features and properties are evaluated.
use vstd::prelude::*;

use crate::value::{ScalarView, Value};

verus! {

/// The attributes of an entity, by name. Where a name occurs twice, the
/// first entry counts.
pub type Attributes = Vec<(String, Value)>;

/// An object on which features and properties are evaluated. Both methods
/// describe the entity as it is: each call gives the same id and the same
/// attributes.
pub trait Entity {
    /// The identifier of the entity. Left unspecified unless the
    /// implementation says what it is.
    closed spec fn id_view(&self) -> Seq<char> {
        arbitrary()
    }

    /// The attributes of the entity. Left unspecified unless the
    /// implementation says what they are.
    closed spec fn attributes_view(&self) -> Seq<(String, Value)> {
        arbitrary()
    }

    /// A unique identifier of the entity.
    fn get_id(&self) -> (r: String)
        ensures
            r@ == self.id_view(),
    ;

    /// The attributes against which segment membership is decided; an
    /// entity without attributes returns an empty list.
    fn get_attributes(&self) -> (r: Attributes)
        ensures
            r@ == self.attributes_view(),
    ;
}

/// The value of the attribute `name`, if the entity has it.
pub open spec fn attribute_of(attrs: Seq<(String, Value)>, name: Seq<char>) -> Option<ScalarView>
    decreases attrs.len(),
{
    if attrs.len() == 0 {
        None
    } else if attrs[0].0@ == name {
        Some(attrs[0].1@)
    } else {
        attribute_of(attrs.drop_first(), name)
    }
}

/// Looks up the attribute `name`.
pub fn find_attribute<'a>(attrs: &'a Attributes, name: &str) -> (r: Option<&'a Value>)
    ensures
        match r {
            Some(v) => attribute_of(attrs@, name@) == Some(v@),
            None => attribute_of(attrs@, name@).is_none(),
        },
{
    let mut i: usize = 0;
    assert(attrs@.subrange(0, attrs@.len() as int) =~= attrs@);
    while i < attrs.len()
        invariant
            i <= attrs@.len(),
            attribute_of(attrs@, name@) == attribute_of(attrs@.subrange(i as int, attrs@.len() as int), name@),
        decreases attrs@.len() - i,
    {
        assert(attrs@.subrange(i as int, attrs@.len() as int).drop_first() =~= attrs@.subrange(
            i + 1,
            attrs@.len() as int,
        ));
        if crate::value::text_eq(attrs[i].0.as_str(), name) {
            return Some(&attrs[i].1);
        }
        i += 1;
    }
    None
}

} // verus!
