//! Names of systemd services.

use crate::text;
use crate::unicode;
use vstd::prelude::*;
use vstd::string::*;

verus! {

/// The service that Aegira itself runs as.
pub const SELF_SERVICE: &'static str = "aegira";

/// A service name with the unit suffix taken off, before its letter case is dropped.
pub open spec fn bare_service(s: Seq<char>) -> Seq<char> {
    text::without_suffixes(text::trimmed(s), ".service"@)
}

/// The form in which service names are compared.
pub open spec fn normalized_service(s: Seq<char>) -> Seq<char> {
    unicode::lowercase(bare_service(s))
}

/// Whether `s` names Aegira's own service.
pub open spec fn self_service(s: Seq<char>) -> bool {
    normalized_service(s) == SELF_SERVICE@
}

/// A service name without white space round it, without unit suffixes and in lower case.
pub fn normalize_service(s: &str) -> (r: String)
    ensures
        r@ == normalized_service(s@),
{
    text::trim_end_matches(text::trim(s), ".service").to_lowercase()
}

/// Tells whether `s` names Aegira's own service.
pub fn is_self_service(s: &str) -> (r: bool)
    ensures
        r == self_service(s@),
{
    text::same_text(normalize_service(s).as_str(), SELF_SERVICE)
}

/// White space round a service name does not change which service it names.
pub proof fn law_service_ignores_surrounding_space(s: Seq<char>)
    ensures
        normalized_service(text::trimmed(s)) == normalized_service(s),
        self_service(text::trimmed(s)) == self_service(s),
{
    text::law_trimmed_ends(s);
}

/// A unit suffix behind a service name does not change which service it names.
pub proof fn law_service_ignores_unit_suffix(s: Seq<char>)
    requires
        text::trimmed(s) == s,
    ensures
        normalized_service(s + ".service"@) == normalized_service(s),
        self_service(s + ".service"@) == self_service(s),
{
    reveal_strlit(".service");
    let suffix = ".service"@;
    let unit = s + suffix;
    text::law_trimmed_ends(s);
    assert(unit.last() == 'e');
    assert(!text::white_space(unit[0]));
    assert(text::trimmed(unit) == unit);
    assert(unit.skip(unit.len() - suffix.len()) == suffix);
    assert(unit.take(unit.len() - suffix.len()) == s);
}

/// A name without white space round it and without a unit suffix is compared letter case aside,
/// and is Aegira's own exactly when it is `aegira` then.
pub proof fn law_plain_service_names(s: Seq<char>)
    requires
        text::trimmed(s) == s,
        forall|a: Seq<char>| s != #[trigger] (a + ".service"@),
    ensures
        normalized_service(s) == unicode::lowercase(s),
        self_service(s) == (unicode::lowercase(s) == "aegira"@),
{
    reveal_strlit(".service");
    text::law_suffixes_are_taken_off(s, ".service"@);
}

} // verus!
