//! Build numbers of Paper server JARs.

use vstd::prelude::*;
use vstd::string::*;

use crate::text::{decimal, parse_u32, parse_unsigned, push_decimal};

verus! {

/// Build number of a Paper server JAR for a Minecraft version.
#[derive(Debug, Clone, Copy, PartialEq, Eq, Structural)]
pub struct Build(pub u32);

/// The text was not a build number.
#[derive(Debug)]
pub struct InvalidBuildError;

/// What reading a build number from a text gives: a `u32` as `str::parse` reads it.
pub open spec fn parse_build(s: Seq<char>) -> Option<Build> {
    match parse_unsigned(s) {
        Some(n) if n <= u32::MAX => Some(Build(n as u32)),
        _ => None,
    }
}

impl Build {
    /// Reads a build number.
    ///
    /// # Errors
    ///
    /// [`InvalidBuildError`] if the text is not a number that fits in a `u32`.
    pub fn parse(s: &str) -> (res: Result<Build, InvalidBuildError>)
        ensures
            res is Ok <==> parse_build(s@) is Some,
            res matches Ok(b) ==> parse_build(s@) == Some(b),
    {
        match parse_u32(s) {
            Some(n) => Ok(Build(n)),
            None => Err(InvalidBuildError),
        }
    }

    /// The decimal text of the build number.
    pub fn to_string(&self) -> (text: String)
        ensures
            text@ == decimal(self.0 as nat),
    {
        let mut text = String::new();
        push_decimal(&mut text, self.0 as u64);
        text
    }
}

impl Default for Build {
    fn default() -> (build: Build)
        ensures
            build == Build(0),
    {
        Build(0)
    }
}

impl std::str::FromStr for Build {
    type Err = InvalidBuildError;

    fn from_str(s: &str) -> (res: Result<Build, InvalidBuildError>)
        ensures
            res is Ok <==> parse_build(s@) is Some,
            res matches Ok(b) ==> parse_build(s@) == Some(b),
    {
        Build::parse(s)
    }
}

} // verus!

verus! {

/// Reading back the decimal text of a build number gives the build number.
pub proof fn law_build_text_round_trip(b: Build)
    ensures
        parse_build(decimal(b.0 as nat)) == Some(b),
{
    crate::text::lemma_decimal_digits(b.0 as nat);
    assert(crate::text::is_digit(decimal(b.0 as nat)[0]));
}

} // verus!
