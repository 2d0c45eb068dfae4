use vstd::prelude::*;
use vstd::utf8::is_ascii_chars;
use crate::constants::{KUSAMA_START_NODE, POLKADOT_START_NODE};
use crate::text::str_eq;

verus! {

/// The relay network a search runs on.
#[derive(Debug, Clone, Copy, PartialEq, Eq, Structural)]
pub enum Relay {
    Polkadot,
    Kusama,
}

/// Names what `str::to_lowercase` returns for a text: its Unicode lowercase mapping.
pub uninterp spec fn lowercase_of(text: Seq<char>) -> Seq<char>;

/// The ASCII lowercase of one character: `A`..`Z` become `a`..`z`, all else is kept.
pub open spec fn ascii_lower_char(c: char) -> char {
    if 'A' <= c <= 'Z' {
        ((c as u32) + 32) as char
    } else {
        c
    }
}

/// The ASCII lowercase of a text, character by character.
pub open spec fn ascii_lowercase(text: Seq<char>) -> Seq<char> {
    Seq::new(text.len(), |i: int| ascii_lower_char(text[i]))
}

/// Calls `str::to_lowercase`. Its result is named `lowercase_of(text)`; for a text that is
/// all ASCII the Unicode mapping is the ASCII one (`A`..`Z` to `a`..`z`, everything else
/// kept), which the second clause states.
#[verifier::external_body]
fn to_lowercase(text: &str) -> (r: String)
    ensures
        r@ == lowercase_of(text@),
        is_ascii_chars(text@) ==> r@ == ascii_lowercase(text@),
{
    text.to_lowercase()
}

/// The relay that an already lowercased network name stands for.
pub open spec fn relay_named(name: Seq<char>) -> Option<Relay> {
    if name == "polkadot"@ {
        Some(Relay::Polkadot)
    } else if name == "kusama"@ {
        Some(Relay::Kusama)
    } else {
        None
    }
}

/// The lowercase name of a relay, as it appears in log folders.
pub open spec fn spec_relay_name(relay: Relay) -> Seq<char> {
    match relay {
        Relay::Polkadot => "polkadot"@,
        Relay::Kusama => "kusama"@,
    }
}

/// The relay that an already lowercased network name stands for: `"polkadot"` or
/// `"kusama"`, and `None` for any other text.
pub fn relay_from_lowercase(name: &str) -> (r: Option<Relay>)
    ensures
        r == relay_named(name@),
{
    if str_eq(name, "polkadot") {
        Some(Relay::Polkadot)
    } else if str_eq(name, "kusama") {
        Some(Relay::Kusama)
    } else {
        None
    }
}

/// Reads a network name in any letter case; `None` where its lowercase form is neither
/// `"polkadot"` nor `"kusama"`.
pub fn parse_relay(text: &str) -> (r: Option<Relay>)
    ensures
        r == relay_named(lowercase_of(text@)),
        is_ascii_chars(text@) ==> r == relay_named(ascii_lowercase(text@)),
{
    let lower = to_lowercase(text);
    match relay_from_lowercase(lower.as_str()) {
        Some(_) => Some(Relay::from_str(text)),
        None => None,
    }
}

impl Relay {
    /// Reads a network name in any letter case. The name must be `polkadot` or `kusama`
    /// once lowercased; for an ASCII name that is its ASCII lowercase form.
    pub fn from_str(s: &str) -> (r: Relay)
        requires
            relay_named(lowercase_of(s@)) is Some || (is_ascii_chars(s@) && relay_named(
                ascii_lowercase(s@),
            ) is Some),
        ensures
            relay_named(lowercase_of(s@)) == Some(r),
            is_ascii_chars(s@) ==> relay_named(ascii_lowercase(s@)) == Some(r),
    {
        let lower = to_lowercase(s);
        relay_from_lowercase(lower.as_str()).unwrap()
    }

    /// The lowercase name of this relay: `"polkadot"` or `"kusama"`.
    pub fn name(&self) -> (r: &'static str)
        ensures
            r@ == spec_relay_name(*self),
    {
        match self {
            Relay::Polkadot => "polkadot",
            Relay::Kusama => "kusama",
        }
    }
}

/// The key of the node that searches on a relay start from and return to.
pub fn start_node_key(relay: Relay) -> (r: &'static str)
    ensures
        r@ == match relay {
            Relay::Polkadot => POLKADOT_START_NODE@,
            Relay::Kusama => KUSAMA_START_NODE@,
        },
{
    match relay {
        Relay::Polkadot => POLKADOT_START_NODE,
        Relay::Kusama => KUSAMA_START_NODE,
    }
}

/// Reading back the name of a relay gives that relay: the name is ASCII, and its lowercase
/// form, which `parse_relay` reads, names the same relay.
pub proof fn lemma_relay_name_round_trip(relay: Relay)
    ensures
        is_ascii_chars(spec_relay_name(relay)),
        relay_named(ascii_lowercase(spec_relay_name(relay))) == Some(relay),
{
    reveal_strlit("polkadot");
    reveal_strlit("kusama");
    let name = spec_relay_name(relay);
    assert(ascii_lowercase(name) =~= name);
}

/// The name of a relay as its `Debug` form spells it.
pub open spec fn spec_relay_debug_name(relay: Relay) -> Seq<char> {
    match relay {
        Relay::Polkadot => "Polkadot"@,
        Relay::Kusama => "Kusama"@,
    }
}

/// The `Debug` name of a relay reads back as that relay: it is ASCII, and its ASCII
/// lowercase form, which `Relay::from_str` and `parse_relay` read, names the same relay.
pub proof fn lemma_relay_debug_name_round_trip(relay: Relay)
    ensures
        is_ascii_chars(spec_relay_debug_name(relay)),
        relay_named(ascii_lowercase(spec_relay_debug_name(relay))) == Some(relay),
{
    reveal_strlit("Polkadot");
    reveal_strlit("Kusama");
    reveal_strlit("polkadot");
    reveal_strlit("kusama");
    let name = spec_relay_debug_name(relay);
    assert(ascii_lowercase(name) =~= spec_relay_name(relay));
}

} // verus!
