//! A named texture resource. The GPU-side handle lives with the
//! renderer that loaded the image; the registry tracks the name.
use vstd::prelude::*;

verus! {

#[derive(Debug)]
pub struct Texture {
    pub name: String,
}

impl Texture {
    pub fn new(name: &str) -> (r: Self)
        ensures
            r.name@ == name@,
    {
        Self { name: name.to_owned() }
    }

    pub fn get_name(&self) -> (r: &str)
        ensures
            r@ == self.name@,
    {
        self.name.as_str()
    }
}

} // verus!
