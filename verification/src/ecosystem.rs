//! The package ecosystems that projects are scanned in.
use vstd::prelude::*;

verus! {

#[derive(Clone, Copy, Debug, PartialEq, Eq, Hash, Structural)]
pub enum Ecosystem {
    Npm,
    PyPI,
    Cargo,
    Go,
    Ruby,
    Php,
    Jvm,
    Dotnet,
}

impl Ecosystem {
    /// The ecosystem's name as configuration files spell it.
    pub open spec fn spec_name(self) -> Seq<char> {
        match self {
            Ecosystem::Npm => "npm"@,
            Ecosystem::PyPI => "pypi"@,
            Ecosystem::Cargo => "cargo"@,
            Ecosystem::Go => "go"@,
            Ecosystem::Ruby => "ruby"@,
            Ecosystem::Php => "php"@,
            Ecosystem::Jvm => "jvm"@,
            Ecosystem::Dotnet => "dotnet"@,
        }
    }

    pub fn as_str(self) -> (s: &'static str)
        ensures
            s@ == self.spec_name(),
    {
        match self {
            Ecosystem::Npm => "npm",
            Ecosystem::PyPI => "pypi",
            Ecosystem::Cargo => "cargo",
            Ecosystem::Go => "go",
            Ecosystem::Ruby => "ruby",
            Ecosystem::Php => "php",
            Ecosystem::Jvm => "jvm",
            Ecosystem::Dotnet => "dotnet",
        }
    }
}

} // verus!
