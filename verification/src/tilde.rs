//! Home-directory expansion of paths (`~/...`).
use vstd::prelude::*;

verus! {

/// What holds of every tilde expansion of `input` into `output`: a path that
/// starts with `~` alone or `~/` may have that `~` replaced by a home
/// directory (or be left unchanged when no home directory is known); any
/// other path, `~user/...` included, is left unchanged.
pub open spec fn tilde_expansion_of(input: Seq<char>, output: Seq<char>) -> bool {
    if input.len() > 0 && input[0] == '~' && (input.len() == 1 || input[1] == '/') {
        output == input || exists|home: Seq<char>|
            output == home + input.subrange(1, input.len() as int)
    } else {
        output == input
    }
}

/// `shellexpand::tilde`: replaces a leading `~` by the home directory.
/// The home directory comes from the environment, so the contract says only
/// what holds whatever it is.
#[verifier::external_body]
pub(crate) fn expand_tilde(input: &str) -> (output: String)
    ensures
        tilde_expansion_of(input@, output@),
{
    shellexpand::tilde(input).into_owned()
}

} // verus!
