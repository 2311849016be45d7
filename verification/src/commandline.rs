//! The toolkit's subcommand names and their parsing. Dispatching a
//! parsed subcommand to its handler is the caller's business, since
//! every handler does I/O.

use vstd::prelude::*;

verus! {

/// The subcommands the toolkit understands.
#[derive(Clone, Copy, PartialEq, Eq, Structural, Debug)]
pub enum Subcommands {
    PrettifyXml,
    NewUuid,
    Ping,
}

/// Relies on `str`'s `PartialEq`: two string slices are equal exactly
/// when their characters are.
#[verifier::external_body]
fn str_eq(a: &str, b: &str) -> (r: bool)
    ensures
        r == (a@ == b@),
{
    a == b
}

impl Subcommands {
    /// Parses a subcommand name; every string other than the three
    /// known names is rejected with a usage hint.
    pub fn from_str(s: &str) -> (r: Result<Subcommands, &'static str>)
        ensures
            s@ == "prettify-xml"@ ==> r == Ok::<Subcommands, &'static str>(
                Subcommands::PrettifyXml,
            ),
            s@ == "new-uuid"@ ==> r == Ok::<Subcommands, &'static str>(Subcommands::NewUuid),
            s@ == "ping"@ ==> r == Ok::<Subcommands, &'static str>(Subcommands::Ping),
            r is Ok <==> (s@ == "prettify-xml"@ || s@ == "new-uuid"@ || s@ == "ping"@),
            r matches Err(e) ==> e@ == "support subcommands"@,
    {
        proof {
            reveal_strlit("prettify-xml");
            reveal_strlit("new-uuid");
            reveal_strlit("ping");
            // The three names have three different lengths, so no two of
            // them can be taken for one another.
            assert("prettify-xml"@.len() == 12);
            assert("new-uuid"@.len() == 8);
            assert("ping"@.len() == 4);
            assert("prettify-xml"@ != "new-uuid"@);
            assert("prettify-xml"@ != "ping"@);
            assert("new-uuid"@ != "ping"@);
        }
        if str_eq(s, "prettify-xml") {
            Ok(Subcommands::PrettifyXml)
        } else if str_eq(s, "new-uuid") {
            Ok(Subcommands::NewUuid)
        } else if str_eq(s, "ping") {
            Ok(Subcommands::Ping)
        } else {
            Err("support subcommands")
        }
    }
}

impl std::str::FromStr for Subcommands {
    type Err = &'static str;

    /// Lets callers write `s.parse()`; the contract lives on the
    /// inherent `Subcommands::from_str`.
    fn from_str(s: &str) -> Result<Subcommands, &'static str> {
        Subcommands::from_str(s)
    }
}

} // verus!
