//! Facets: annotations of byte ranges of a text.
use vstd::prelude::*;
use crate::text::copy_string;

verus! {

/// A range of bytes of a text: from `byte_start` (inclusive) to `byte_end`
/// (exclusive).
#[derive(Debug, Clone, Copy, PartialEq, Eq, Structural)]
pub struct ByteSlice {
    pub byte_start: usize,
    pub byte_end: usize,
}

/// A mention of an account, by DID.
#[derive(Debug, Clone, PartialEq, Eq)]
pub struct Mention {
    pub did: String,
}

/// A link to a URI.
#[derive(Debug, Clone, PartialEq, Eq)]
pub struct Link {
    pub uri: String,
}

/// A hashtag, without its `#`.
#[derive(Debug, Clone, PartialEq, Eq)]
pub struct Tag {
    pub tag: String,
}

/// What a facet says of its range.
#[derive(Debug, Clone, PartialEq, Eq)]
pub enum FacetFeature {
    Mention(Mention),
    Link(Link),
    Tag(Tag),
    /// A feature of a type this library does not know, by its type name.
    Other(String),
}

/// An annotation of a byte range of a text.
#[derive(Debug, Clone, PartialEq, Eq)]
pub struct Facet {
    pub features: Vec<FacetFeature>,
    pub index: ByteSlice,
}

impl FacetFeature {
    /// A copy of this feature.
    pub fn duplicate(&self) -> (r: Self)
        ensures
            r == *self,
    {
        match self {
            FacetFeature::Mention(m) => FacetFeature::Mention(Mention { did: copy_string(&m.did) }),
            FacetFeature::Link(l) => FacetFeature::Link(Link { uri: copy_string(&l.uri) }),
            FacetFeature::Tag(t) => FacetFeature::Tag(Tag { tag: copy_string(&t.tag) }),
            FacetFeature::Other(s) => FacetFeature::Other(copy_string(s)),
        }
    }
}

impl Facet {
    /// A copy of this facet.
    pub fn duplicate(&self) -> (r: Self)
        ensures
            r.index == self.index,
            r.features@ == self.features@,
    {
        let mut features: Vec<FacetFeature> = Vec::new();
        let mut i: usize = 0;
        while i < self.features.len()
            invariant
                i <= self.features@.len(),
                features@ == self.features@.take(i as int),
            decreases self.features.len() - i,
        {
            features.push(self.features[i].duplicate());
            i = i + 1;
            assert(features@ =~= self.features@.take(i as int));
        }
        assert(self.features@.take(i as int) =~= self.features@);
        Facet { features, index: self.index }
    }
}

} // verus!
