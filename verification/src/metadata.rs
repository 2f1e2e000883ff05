//! The token metadata document uploaded beside a rendered image at
//! publish-prepare time.

use vstd::prelude::*;
use vstd::string::StringExecFns;

verus! {

/// The gallery page every token's metadata links back to.
pub const EXTERNAL_URL_BASE: &'static str = "https://canvas-329810.web.app/";

/// A token metadata document: what the marketplace renders for the token.
pub struct Metadata {
    pub description: String,
    pub external_url: String,
    pub name: String,
    pub image: String,
}

impl Metadata {
    /// The document for one work: named after the work, linking back to its
    /// gallery page, showing the uploaded image.
    pub fn new(work_id: String, description: String, image_url: String) -> (r: Self)
        ensures
            r.description == description,
            r.external_url@ == EXTERNAL_URL_BASE@ + work_id@,
            r.name == work_id,
            r.image == image_url,
    {
        let external_url = String::from_str(EXTERNAL_URL_BASE).concat(work_id.as_str());
        Self { description, external_url, name: work_id, image: image_url }
    }
}

impl Clone for Metadata {
    fn clone(&self) -> (r: Self)
        ensures
            r == *self,
    {
        Metadata {
            description: self.description.clone(),
            external_url: self.external_url.clone(),
            name: self.name.clone(),
            image: self.image.clone(),
        }
    }
}

} // verus!
