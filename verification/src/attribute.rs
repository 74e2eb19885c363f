//! Attributes of elements.
use vstd::prelude::*;
use crate::name::{Name, NameView};

verus! {

/// An attribute: a qualified name and a value.
pub struct Attribute {
    /// The qualified name of the attribute.
    pub name: Name,
    /// The attribute's value, unescaped.
    pub value: String,
}

/// The mathematical content of an attribute.
pub struct AttributeView {
    pub name: NameView,
    pub value: Seq<char>,
}

impl View for Attribute {
    type V = AttributeView;

    open spec fn view(&self) -> AttributeView {
        AttributeView { name: self.name@, value: self.value@ }
    }
}

impl Attribute {
    /// An attribute with the given name and value.
    pub fn new(name: Name, value: &str) -> (a: Attribute)
        ensures
            a@ == (AttributeView { name: name@, value: value@ }),
    {
        Attribute { name, value: crate::name::copy_str(value) }
    }
}

} // verus!
