//! Items shared by the reader and the writer.
use vstd::prelude::*;

verus! {

/// XML version enumeration.
#[derive(Clone, Copy, Debug, PartialEq, Eq, Structural)]
pub enum XmlVersion {
    /// XML version 1.0.
    Version10,
    /// XML version 1.1.
    Version11,
}

/// How a version is written in a document declaration.
pub open spec fn version_repr(v: XmlVersion) -> Seq<char> {
    match v {
        XmlVersion::Version10 => "1.0"@,
        XmlVersion::Version11 => "1.1"@,
    }
}

impl XmlVersion {
    /// Returns the textual form of this version, `1.0` or `1.1`.
    pub fn as_str(&self) -> (s: &'static str)
        ensures
            s@ == version_repr(*self),
    {
        match self {
            XmlVersion::Version10 => "1.0",
            XmlVersion::Version11 => "1.1",
        }
    }
}

} // verus!
