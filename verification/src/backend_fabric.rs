//! The loader profile as the older backend of the launcher reads it: every
//! library names its repository.
use vstd::prelude::*;

use crate::fabric::{library_path, main_separator};
use crate::text::count_char;

verus! {

/// A Fabric loader profile.
#[allow(non_snake_case)]
pub struct FabricJSON {
    pub mainClass: String,
    pub arguments: Arguments,
    pub libraries: Vec<Library>,
}

pub struct Arguments {
    pub jvm: Vec<String>,
}

/// A library of the profile, by maven coordinate, and its repository.
pub struct Library {
    pub name: String,
    pub url: String,
}

impl Library {
    /// The library's path below the libraries folder, with the platform's
    /// path separator between the parts.
    pub fn get_path(&self) -> (res: String)
        requires
            count_char(self.name@, ':') >= 2,
        ensures
            res@ == library_path(self.name@, '/') || res@ == library_path(self.name@, '\\'),
    {
        let sep = main_separator();
        let as_profile = crate::fabric::Library { name: self.name.clone(), url: None, rules: None };
        as_profile.get_path_with_separator(sep)
    }
}

} // verus!
