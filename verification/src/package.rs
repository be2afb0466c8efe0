//! Package records and the closed set of Debian architectures.

use vstd::prelude::*;

verus! {

/// The closed set of architecture tokens a Debian package index may carry.
/// A token outside this set is a per-record parse failure; the record then
/// falls back to the default, `All`.
#[derive(Clone, Copy, Debug, PartialEq, Eq, Structural)]
pub enum DebianArchitecture {
    All,
    Amd64,
    Arm64,
    ArmEl,
    ArmHf,
    I386,
    Mips64El,
    MipsEl,
    Ppc64El,
    S390X,
    Source,
}

/// The wire token that names an architecture in an index file.
pub open spec fn token_of_arch(a: DebianArchitecture) -> Seq<char> {
    match a {
        DebianArchitecture::All => "all"@,
        DebianArchitecture::Amd64 => "amd64"@,
        DebianArchitecture::Arm64 => "arm64"@,
        DebianArchitecture::ArmEl => "armel"@,
        DebianArchitecture::ArmHf => "armhf"@,
        DebianArchitecture::I386 => "i386"@,
        DebianArchitecture::Mips64El => "mips64el"@,
        DebianArchitecture::MipsEl => "mipsel"@,
        DebianArchitecture::Ppc64El => "ppc64el"@,
        DebianArchitecture::S390X => "s390x"@,
        DebianArchitecture::Source => "source"@,
    }
}

/// The architecture named by a wire token, or `None` for a token outside
/// the closed set.
pub open spec fn arch_of_token(t: Seq<char>) -> Option<DebianArchitecture> {
    if t == "all"@ {
        Some(DebianArchitecture::All)
    } else if t == "amd64"@ {
        Some(DebianArchitecture::Amd64)
    } else if t == "arm64"@ {
        Some(DebianArchitecture::Arm64)
    } else if t == "armel"@ {
        Some(DebianArchitecture::ArmEl)
    } else if t == "armhf"@ {
        Some(DebianArchitecture::ArmHf)
    } else if t == "i386"@ {
        Some(DebianArchitecture::I386)
    } else if t == "mips64el"@ {
        Some(DebianArchitecture::Mips64El)
    } else if t == "mipsel"@ {
        Some(DebianArchitecture::MipsEl)
    } else if t == "ppc64el"@ {
        Some(DebianArchitecture::Ppc64El)
    } else if t == "s390x"@ {
        Some(DebianArchitecture::S390X)
    } else if t == "source"@ {
        Some(DebianArchitecture::Source)
    } else {
        None
    }
}

/// Exact string equality, stated over the views.
fn str_eq(a: &str, b: &str) -> (r: bool)
    ensures
        r == (a@ == b@),
{
    let sa = String::from_str(a);
    let sb = String::from_str(b);
    sa.eq(&sb)
}

impl DebianArchitecture {
    /// Maps a trimmed wire token into the closed architecture set;
    /// `None` when the token lies outside it.
    pub fn from_str(s: &str) -> (r: Option<DebianArchitecture>)
        ensures
            r == arch_of_token(s@),
    {
        if str_eq(s, "all") {
            Some(DebianArchitecture::All)
        } else if str_eq(s, "amd64") {
            Some(DebianArchitecture::Amd64)
        } else if str_eq(s, "arm64") {
            Some(DebianArchitecture::Arm64)
        } else if str_eq(s, "armel") {
            Some(DebianArchitecture::ArmEl)
        } else if str_eq(s, "armhf") {
            Some(DebianArchitecture::ArmHf)
        } else if str_eq(s, "i386") {
            Some(DebianArchitecture::I386)
        } else if str_eq(s, "mips64el") {
            Some(DebianArchitecture::Mips64El)
        } else if str_eq(s, "mipsel") {
            Some(DebianArchitecture::MipsEl)
        } else if str_eq(s, "ppc64el") {
            Some(DebianArchitecture::Ppc64El)
        } else if str_eq(s, "s390x") {
            Some(DebianArchitecture::S390X)
        } else if str_eq(s, "source") {
            Some(DebianArchitecture::Source)
        } else {
            None
        }
    }

    /// The wire token for this architecture, as the store persists it.
    pub fn to_string(&self) -> (r: String)
        ensures
            r@ == token_of_arch(*self),
    {
        match self {
            DebianArchitecture::All => String::from_str("all"),
            DebianArchitecture::Amd64 => String::from_str("amd64"),
            DebianArchitecture::Arm64 => String::from_str("arm64"),
            DebianArchitecture::ArmEl => String::from_str("armel"),
            DebianArchitecture::ArmHf => String::from_str("armhf"),
            DebianArchitecture::I386 => String::from_str("i386"),
            DebianArchitecture::Mips64El => String::from_str("mips64el"),
            DebianArchitecture::MipsEl => String::from_str("mipsel"),
            DebianArchitecture::Ppc64El => String::from_str("ppc64el"),
            DebianArchitecture::S390X => String::from_str("s390x"),
            DebianArchitecture::Source => String::from_str("source"),
        }
    }
}

impl Default for DebianArchitecture {
    /// The fallback architecture for a missing or unrecognized token.
    fn default() -> (r: Self)
        ensures
            r == DebianArchitecture::All,
    {
        DebianArchitecture::All
    }
}

/// The mathematical image of one parsed record.
#[verifier::ext_equal]
pub struct PackageModel {
    pub name: Seq<char>,
    pub version: Seq<char>,
    pub architecture: DebianArchitecture,
    pub description: Option<Seq<char>>,
}

/// One parsed package record. `package` and `version` are required by the
/// wire format but an incomplete paragraph is still emitted with the empty
/// defaults; `description` is optional.
#[derive(Debug, Clone)]
pub struct DebianPackage {
    pub package: String,
    pub architecture: DebianArchitecture,
    pub version: String,
    pub description: Option<String>,
}

impl View for DebianPackage {
    type V = PackageModel;

    open spec fn view(&self) -> PackageModel {
        PackageModel {
            name: self.package@,
            version: self.version@,
            architecture: self.architecture,
            description: match self.description {
                Some(d) => Some(d@),
                None => None,
            },
        }
    }
}

impl DeepView for DebianPackage {
    type V = PackageModel;

    open spec fn deep_view(&self) -> PackageModel {
        self.view()
    }
}

impl Default for DebianPackage {
    /// A fresh record: empty name and version, default architecture,
    /// no description.
    fn default() -> (r: Self)
        ensures
            r@.name == Seq::<char>::empty(),
            r@.version == Seq::<char>::empty(),
            r@.architecture == DebianArchitecture::All,
            r@.description is None,
    {
        DebianPackage {
            package: String::new(),
            architecture: DebianArchitecture::All,
            version: String::new(),
            description: None,
        }
    }
}

impl DebianPackage {
    /// The row handed to the store for this record: name, version, the
    /// architecture's wire token, and the nullable description.
    pub fn to_row(&self) -> (r: (String, String, String, Option<String>))
        ensures
            r.0@ == self@.name,
            r.1@ == self@.version,
            r.2@ == token_of_arch(self@.architecture),
            r.3 is Some <==> self@.description is Some,
            r.3 matches Some(d) ==> self@.description == Some(d@),
    {
        let description = match &self.description {
            Some(d) => Some(d.clone()),
            None => None,
        };
        (self.package.clone(), self.version.clone(), self.architecture.to_string(), description)
    }
}

} // verus!
