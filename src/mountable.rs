//! The capability of a routing element to contribute to the document.

use vstd::prelude::*;

use paperclip_core::v2::models::{DefaultOperationRaw, DefaultSchemaRaw, SecurityScheme};

use crate::document::{merge, ApiSpec, Contribution, ContributionView, Method};

verus! {

/// A routing element that has a path, operations and definitions to record.
pub trait Mountable {
    /// Where this element gets mounted.
    fn path(&self) -> &str;

    /// The operations of this element, by method.
    fn operations(&mut self) -> Vec<(Method, DefaultOperationRaw)>;

    /// The schema definitions that this element records.
    fn definitions(&mut self) -> Vec<(String, DefaultSchemaRaw)>;

    /// The security definitions that this element records.
    fn security_definitions(&mut self) -> Vec<(String, SecurityScheme)>;
}

/// Reads what `element` brings, as one contribution.
fn contribution_of<F: Mountable>(element: &mut F) -> Contribution {
    let definitions = element.definitions();
    let security_definitions = element.security_definitions();
    let operations = element.operations();
    let path = element.path().to_owned();
    Contribution { path, operations, definitions, security_definitions }
}

impl ApiSpec {
    /// Merges what `element` brings into the document: whatever it hands out,
    /// the document is the old one with that one contribution merged.
    pub fn update_from_mountable<F: Mountable>(&mut self, element: &mut F)
        requires
            old(self).wf(),
        ensures
            final(self).wf(),
            exists|c: ContributionView| final(self)@ == merge(old(self)@, c),
    {
        let c = contribution_of(element);
        let ghost cv = c@;
        self.merge(c);
        assert(self@ == merge(old(self)@, cv));
    }
}

} // verus!
