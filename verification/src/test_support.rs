//! Isolated filesystem fixtures: the name of a fixture directory and the
//! path of one that has been claimed.
use vstd::prelude::*;
use crate::text::{decimal, decimal_chars, extend_chars, extend_str, string_of};

verus! {

/// A temporary directory that has been claimed for a test.
#[derive(Debug)]
pub struct TempDir {
    path: String,
}

impl View for TempDir {
    type V = Seq<char>;

    closed spec fn view(&self) -> Seq<char> {
        self.path@
    }
}

/// `prefix-a-b`, the shape of every fixture name.
pub open spec fn fixture_name_spec(prefix: Seq<char>, a: nat, b: nat) -> Seq<char> {
    prefix + "-"@ + decimal(a) + "-"@ + decimal(b)
}

impl TempDir {
    /// A directory created at `path`.
    pub fn claimed(path: String) -> (r: TempDir)
        ensures
            r@ == path@,
    {
        TempDir { path }
    }

    /// The directory's path.
    pub fn path(&self) -> (r: &str)
        ensures
            r@ == self@,
    {
        self.path.as_str()
    }

    /// A fixture name: the prefix, then two numbers (a time and a counter,
    /// or a process id and an attempt), separated by hyphens.
    pub fn fixture_name(prefix: &str, a: u128, b: u128) -> (r: String)
        ensures
            r@ == fixture_name_spec(prefix@, a as nat, b as nat),
    {
        let mut m: Vec<char> = Vec::new();
        extend_str(&mut m, prefix);
        extend_str(&mut m, "-");
        let da = decimal_chars(a);
        extend_chars(&mut m, &da);
        extend_str(&mut m, "-");
        let db = decimal_chars(b);
        extend_chars(&mut m, &db);
        assert(m@ =~= fixture_name_spec(prefix@, a as nat, b as nat));
        string_of(&m)
    }
}

} // verus!
