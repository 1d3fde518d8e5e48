use vstd::prelude::*;

verus! {

/// Someone who signed up with a name and an email address.
#[derive(Debug)]
pub struct Subscriber {
    name: String,
    email: String,
}

impl Subscriber {
    /// The name given.
    pub closed spec fn spec_name(&self) -> Seq<char> {
        self.name@
    }

    /// The email address given.
    pub closed spec fn spec_email(&self) -> Seq<char> {
        self.email@
    }

    /// A subscriber with the given name and email address.
    pub fn new(name: String, email: String) -> (s: Subscriber)
        ensures
            s.spec_name() == name@,
            s.spec_email() == email@,
    {
        Subscriber { name, email }
    }

    /// The name given.
    pub fn name(&self) -> (r: &str)
        ensures
            r@ == self.spec_name(),
    {
        self.name.as_str()
    }

    /// The email address given.
    pub fn email(&self) -> (r: &str)
        ensures
            r@ == self.spec_email(),
    {
        self.email.as_str()
    }
}

} // verus!
