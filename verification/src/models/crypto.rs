use vstd::prelude::*;

verus! {

/// How a client derives a session's keys from its passphrase.
#[derive(Debug)]
pub struct KDFParams {
    pub name: String,
    pub hash: String,
    pub iterations: u32,
    pub salt: String,
}

impl Clone for KDFParams {
    fn clone(&self) -> (copy: Self)
        ensures
            copy == *self,
    {
        KDFParams {
            name: self.name.clone(),
            hash: self.hash.clone(),
            iterations: self.iterations,
            salt: self.salt.clone(),
        }
    }
}

} // verus!
