use vstd::prelude::*;

use crate::text::{ends_with, spec_ends_with};

verus! {

/// How many providers are asked for a stream.
pub const PROVIDER_COUNT: usize = 7;

/// The providers asked for a stream, in the order they are asked.
pub open spec fn spec_providers() -> Seq<Seq<char>> {
    seq!["flixhq"@, "vidsrc"@, "vidsrcto"@, "superstream"@, "febbox"@, "overflix"@, "visioncine"@]
}

/// The name of provider `i`.
pub fn provider_name(i: usize) -> (s: String)
    requires
        i < PROVIDER_COUNT,
    ensures
        s@ == spec_providers()[i as int],
{
    let name = if i == 0 {
        "flixhq"
    } else if i == 1 {
        "vidsrc"
    } else if i == 2 {
        "vidsrcto"
    } else if i == 3 {
        "superstream"
    } else if i == 4 {
        "febbox"
    } else if i == 5 {
        "overflix"
    } else {
        "visioncine"
    };
    name.to_owned()
}

/// What to do after provider `tried` answered with `result` (a link, or the empty string):
/// `Some(link)` to stop with that link, `None` to ask the next provider. A playlist link from
/// any provider but the last is taken; what the last provider answers is not used.
pub open spec fn spec_step(tried: nat, result: Seq<char>) -> Option<Seq<char>> {
    if tried + 1 >= PROVIDER_COUNT {
        Some(Seq::<char>::empty())
    } else if spec_ends_with(result, ".m3u8"@) {
        Some(result)
    } else {
        None
    }
}

/// The next step of the search for a stream.
#[derive(Debug)]
pub enum LinkStep {
    /// Ask the provider with this index.
    Ask(usize),
    /// Stop: this is the link (empty where no stream was found).
    Finished(String),
}

/// Decides the next step after provider `tried` answered with `result`.
pub fn after_attempt(tried: usize, result: String) -> (step: LinkStep)
    requires
        tried < PROVIDER_COUNT,
    ensures
        match spec_step(tried as nat, result@) {
            Some(link) => step matches LinkStep::Finished(l) && l@ == link,
            None => step matches LinkStep::Ask(next) && next == tried + 1,
        },
{
    if tried + 1 >= PROVIDER_COUNT {
        LinkStep::Finished(String::new())
    } else if ends_with(result.as_str(), ".m3u8") {
        LinkStep::Finished(result)
    } else {
        LinkStep::Ask(tried + 1)
    }
}

/// The link that the search ends with when provider `i` answers `results[i]`, starting at
/// provider `from`.
pub open spec fn spec_chain_link(results: Seq<Seq<char>>, from: nat) -> Seq<char>
    decreases PROVIDER_COUNT - from,
{
    if from >= PROVIDER_COUNT {
        Seq::<char>::empty()
    } else {
        match spec_step(from, results[from as int]) {
            Some(link) => link,
            None => spec_chain_link(results, from + 1),
        }
    }
}

/// The search for a stream ends with the empty string or with a playlist link.
pub proof fn law_chain_ends_in_playlist(results: Seq<Seq<char>>, from: nat)
    ensures
        spec_chain_link(results, from).len() == 0
            || spec_ends_with(spec_chain_link(results, from), ".m3u8"@),
    decreases PROVIDER_COUNT - from,
{
    if from < PROVIDER_COUNT && spec_step(from, results[from as int]) is None {
        law_chain_ends_in_playlist(results, from + 1);
    }
}

/// The search ends with the playlist link of the first provider (the last one aside) that
/// answers with one.
pub proof fn law_chain_takes_first_playlist(results: Seq<Seq<char>>, k: nat)
    requires
        k + 1 < PROVIDER_COUNT,
        spec_ends_with(results[k as int], ".m3u8"@),
        forall|j: int| 0 <= j < k ==> !spec_ends_with(#[trigger] results[j], ".m3u8"@),
    ensures
        spec_chain_link(results, 0) == results[k as int],
{
    lemma_chain_from(results, 0, k);
}

proof fn lemma_chain_from(results: Seq<Seq<char>>, from: nat, k: nat)
    requires
        from <= k,
        k + 1 < PROVIDER_COUNT,
        spec_ends_with(results[k as int], ".m3u8"@),
        forall|j: int| 0 <= j < k ==> !spec_ends_with(#[trigger] results[j], ".m3u8"@),
    ensures
        spec_chain_link(results, from) == results[k as int],
    decreases k - from,
{
    if from < k {
        assert(!spec_ends_with(results[from as int], ".m3u8"@));
        lemma_chain_from(results, from + 1, k);
    }
}

/// Where no provider but the last answers with a playlist link, the search ends with the
/// empty string.
pub proof fn law_chain_without_playlist(results: Seq<Seq<char>>)
    requires
        forall|j: int| 0 <= j < PROVIDER_COUNT - 1 ==> !spec_ends_with(#[trigger] results[j], ".m3u8"@),
    ensures
        spec_chain_link(results, 0).len() == 0,
{
    lemma_chain_empty_from(results, 0);
}

proof fn lemma_chain_empty_from(results: Seq<Seq<char>>, from: nat)
    requires
        forall|j: int| 0 <= j < PROVIDER_COUNT - 1 ==> !spec_ends_with(#[trigger] results[j], ".m3u8"@),
    ensures
        spec_chain_link(results, from).len() == 0,
    decreases PROVIDER_COUNT - from,
{
    if from + 1 < PROVIDER_COUNT {
        assert(!spec_ends_with(results[from as int], ".m3u8"@));
        lemma_chain_empty_from(results, from + 1);
    }
}

/// The index of the provider whose answer ends the search, starting at provider `from`: the
/// first of the first six that answers with a playlist link, else the last provider.
pub open spec fn spec_stop(results: Seq<Seq<char>>, from: nat) -> nat
    decreases PROVIDER_COUNT - from,
{
    if from + 1 >= PROVIDER_COUNT {
        (PROVIDER_COUNT - 1) as nat
    } else if spec_ends_with(results[from as int], ".m3u8"@) {
        from
    } else {
        spec_stop(results, from + 1)
    }
}

/// The providers asked, in order, when provider `i` answers `results[i]`.
pub open spec fn spec_asked(results: Seq<Seq<char>>) -> Seq<Seq<char>> {
    spec_providers().take(spec_stop(results, 0) + 1int)
}

proof fn lemma_steps_from(results: Seq<Seq<char>>, from: nat)
    requires
        from < PROVIDER_COUNT,
    ensures
        from <= spec_stop(results, from) < PROVIDER_COUNT,
        forall|i: int| from <= i < spec_stop(results, from) ==> spec_step(i as nat, #[trigger] results[i]) is None,
        forall|i: int| from <= i < spec_stop(results, from) ==> !spec_ends_with(#[trigger] results[i], ".m3u8"@),
        spec_step(spec_stop(results, from), results[spec_stop(results, from) as int]) == Some(spec_chain_link(results, from)),
        spec_stop(results, from) + 1 < PROVIDER_COUNT ==> spec_ends_with(results[spec_stop(results, from) as int], ".m3u8"@),
    decreases PROVIDER_COUNT - from,
{
    if from + 1 < PROVIDER_COUNT && !spec_ends_with(results[from as int], ".m3u8"@) {
        lemma_steps_from(results, from + 1);
    }
}

/// Driving `after_attempt` from the first provider, asking provider `i` whenever it says
/// `Ask(i)`, asks the providers in their order, each once, up to the one whose answer ends the
/// search (`spec_stop`): every provider before it answers without a playlist link and is told
/// to ask the next, and the search finishes there with the link `spec_chain_link`. The
/// providers asked are therefore a prefix of the list: all of it where none of the first six
/// answers with a playlist link, else up to the first that does.
pub proof fn law_chain_asks_in_order(results: Seq<Seq<char>>)
    ensures
        spec_stop(results, 0) < PROVIDER_COUNT,
        forall|i: int| 0 <= i < spec_stop(results, 0) ==> spec_step(i as nat, #[trigger] results[i]) is None,
        forall|i: int| 0 <= i < spec_stop(results, 0) ==> !spec_ends_with(#[trigger] results[i], ".m3u8"@),
        spec_step(spec_stop(results, 0), results[spec_stop(results, 0) as int]) == Some(spec_chain_link(results, 0)),
        spec_stop(results, 0) + 1 < PROVIDER_COUNT ==> spec_ends_with(results[spec_stop(results, 0) as int], ".m3u8"@),
        spec_asked(results) == spec_providers().take(spec_stop(results, 0) + 1int),
        spec_asked(results).len() == spec_stop(results, 0) + 1,
{
    lemma_steps_from(results, 0);
}

} // verus!
