use vstd::prelude::*;

use crate::numbers::{all_digits, digits_value, is_digit, lemma_digits_value_nonneg, parse_i32, spec_parse_i32, spec_parse_int};
use crate::structs::{APISource, APISourceResults};
use crate::text::{
    ends_with, is_first_index, lemma_first_index_exists, lowercase, replace_all, same_text, spec_ends_with, spec_first_index,
    spec_replace, str_lowercase,
};

verus! {

// ---------------------------------------------------------------------------
// The rank of a quality
// ---------------------------------------------------------------------------

/// The rank of a quality such as `1080p` or `auto`: lowercase it, write `auto` as `0`, drop
/// every `p`, and read the rest as an `i32`; `None` where that reading fails.
pub open spec fn spec_quality_key(quality: Seq<char>) -> Option<i32> {
    spec_parse_i32(spec_replace(spec_replace(str_lowercase(quality), "auto"@, "0"@), "p"@, ""@))
}

/// The rank of a quality.
pub fn quality_key(quality: &str) -> (r: Option<i32>)
    ensures
        r == spec_quality_key(quality@),
{
    proof {
        reveal_strlit("auto");
        reveal_strlit("p");
    }
    let lower = lowercase(quality);
    let numbered = replace_all(lower.as_str(), "auto", "0");
    let digits = replace_all(numbered.as_str(), "p", "");
    parse_i32(digits.as_str())
}

/// Replacing a pattern whose first character does not occur leaves a sequence unchanged.
proof fn lemma_replace_absent(s: Seq<char>, pat: Seq<char>, to: Seq<char>)
    requires
        pat.len() > 0,
        forall|i: int| 0 <= i < s.len() ==> s[i] != pat[0],
    ensures
        spec_replace(s, pat, to) == s,
    decreases s.len(),
{
    if s.len() > 0 {
        if pat.len() <= s.len() {
            assert(s.take(pat.len() as int)[0] != pat[0]);
        }
        lemma_replace_absent(s.skip(1), pat, to);
        assert(seq![s[0]] + s.skip(1) =~= s);
    }
}

/// Dropping every `p` from digits followed by `p` leaves the digits.
proof fn lemma_drop_trailing_p(digits: Seq<char>)
    requires
        all_digits(digits),
    ensures
        spec_replace(digits + "p"@, "p"@, Seq::<char>::empty()) == digits,
    decreases digits.len(),
{
    reveal_strlit("p");
    let s = digits + "p"@;
    let empty = Seq::<char>::empty();
    if digits.len() == 0 {
        assert(s =~= "p"@);
        assert(s.take(1) =~= "p"@);
        assert(s.skip(1).len() == 0);
        assert(spec_replace(s.skip(1), "p"@, empty) == s.skip(1));
        assert(spec_replace(s, "p"@, empty) == empty + spec_replace(s.skip(1), "p"@, empty));
        assert(empty + s.skip(1) =~= digits);
    } else {
        assert(s[0] == digits[0]);
        assert(is_digit(digits[0]));
        assert(s.take(1) != "p"@) by {
            assert(s.take(1)[0] != "p"@[0]);
        }
        assert(spec_replace(s, "p"@, empty) == seq![s[0]] + spec_replace(s.skip(1), "p"@, empty));
        let rest = digits.skip(1);
        assert(all_digits(rest)) by {
            assert forall|i: int| 0 <= i < rest.len() implies is_digit(#[trigger] rest[i]) by {
                assert(rest[i] == digits[i + 1]);
            }
        }
        assert(s.skip(1) =~= rest + "p"@);
        lemma_drop_trailing_p(rest);
        assert(seq![digits[0]] + rest =~= digits);
    }
}

proof fn lemma_parse_digits(digits: Seq<char>)
    requires
        digits.len() > 0,
        all_digits(digits),
        digits_value(digits) <= i32::MAX,
    ensures
        spec_parse_i32(digits) == Some(digits_value(digits) as i32),
{
    assert(is_digit(digits[0]));
    lemma_digits_value_nonneg(digits);
    assert(spec_parse_int(digits) == Some(digits_value(digits)));
}

/// The rank of a quality read in lower case: `auto` ranks `0`, and digits, with or without a
/// trailing `p` (such as `720p` or `720`), rank as the number they write.
pub proof fn law_quality_rank(quality: Seq<char>, digits: Seq<char>)
    requires
        digits.len() > 0,
        all_digits(digits),
        digits_value(digits) <= i32::MAX,
    ensures
        str_lowercase(quality) == "auto"@ ==> spec_quality_key(quality) == Some(0i32),
        str_lowercase(quality) == digits + "p"@ ==> spec_quality_key(quality) == Some(digits_value(digits) as i32),
        str_lowercase(quality) == digits ==> spec_quality_key(quality) == Some(digits_value(digits) as i32),
{
    reveal_strlit("auto");
    reveal_strlit("p");
    reveal_strlit("0");
    reveal_strlit("");
    let empty = Seq::<char>::empty();
    assert(""@ =~= empty);
    assert forall|i: int| 0 <= i < digits.len() implies #[trigger] digits[i] != "auto"@[0] && digits[i] != "p"@[0] by {
        assert(is_digit(digits[i]));
    }
    lemma_parse_digits(digits);
    if str_lowercase(quality) == "auto"@ {
        let a = "auto"@;
        assert(a.take(4) =~= a);
        assert(a.skip(4).len() == 0);
        assert(spec_replace(a.skip(4), "auto"@, "0"@) == a.skip(4));
        assert(spec_replace(a, "auto"@, "0"@) == "0"@ + spec_replace(a.skip(4), "auto"@, "0"@));
        assert(spec_replace(a, "auto"@, "0"@) =~= "0"@);
        lemma_replace_absent("0"@, "p"@, empty);
        let z = "0"@;
        assert(all_digits(z));
        assert(z.drop_last().len() == 0);
        assert(z.last() == '0');
        assert(digits_value(z.drop_last()) == 0);
        assert(digits_value(z) == 0);
        lemma_parse_digits(z);
        assert(spec_replace(spec_replace(str_lowercase(quality), "auto"@, "0"@), "p"@, empty) == z);
    }
    if str_lowercase(quality) == digits + "p"@ {
        let s = digits + "p"@;
        assert forall|i: int| 0 <= i < s.len() implies s[i] != "auto"@[0] by {
            if i < digits.len() {
                assert(s[i] == digits[i]);
            }
        }
        lemma_replace_absent(s, "auto"@, "0"@);
        lemma_drop_trailing_p(digits);
        assert(spec_replace(spec_replace(str_lowercase(quality), "auto"@, "0"@), "p"@, empty) == digits);
    }
    if str_lowercase(quality) == digits {
        lemma_replace_absent(digits, "auto"@, "0"@);
        lemma_replace_absent(digits, "p"@, empty);
        assert(spec_replace(spec_replace(str_lowercase(quality), "auto"@, "0"@), "p"@, empty) == digits);
    }
}

// ---------------------------------------------------------------------------
// Ordering the sources
// ---------------------------------------------------------------------------

/// Source `a` comes before source `b`: it ranks higher, or ranks the same and comes later in
/// the provider's list (a stable ascending sort, then reversed).
pub open spec fn ranks_before(ranks: Seq<i32>, a: int, b: int) -> bool {
    ranks[a] > ranks[b] || (ranks[a] == ranks[b] && a > b)
}

/// `order` lists every index of `ranks` once, each before the ones it ranks before.
pub open spec fn is_rank_order(ranks: Seq<i32>, order: Seq<usize>) -> bool {
    &&& order.len() == ranks.len()
    &&& forall|j: int| 0 <= j < order.len() ==> #[trigger] order[j] < ranks.len()
    &&& forall|x: usize| x < ranks.len() ==> #[trigger] order.contains(x)
    &&& forall|j: int, k: int| 0 <= j < k < order.len() ==> ranks_before(ranks, #[trigger] order[j] as int, #[trigger] order[k] as int)
}

/// The order in which the sources are tried: highest rank first, and among equal ranks the
/// later-listed first.
pub fn order_by_rank(ranks: &Vec<i32>) -> (order: Vec<usize>)
    ensures
        is_rank_order(ranks@, order@),
{
    let n = ranks.len();
    let mut order: Vec<usize> = Vec::new();
    let mut i: usize = 0;
    while i < n
        invariant
            n == ranks.len(),
            i <= n,
            order.len() == i,
            forall|j: int| 0 <= j < order.len() ==> #[trigger] order@[j] < i,
            forall|x: usize| x < i ==> #[trigger] order@.contains(x),
            forall|j: int, k: int| 0 <= j < k < order.len() ==> ranks_before(ranks@, #[trigger] order@[j] as int, #[trigger] order@[k] as int),
        decreases n - i,
    {
        let mut p: usize = 0;
        while p < order.len() && !(ranks[i] >= ranks[order[p]])
            invariant
                n == ranks.len(),
                i < n,
                p <= order.len(),
                forall|j: int| 0 <= j < order.len() ==> #[trigger] order@[j] < i,
                forall|j: int| 0 <= j < p ==> ranks@[#[trigger] order@[j] as int] > ranks@[i as int],
            decreases order.len() - p,
        {
            p = p + 1;
        }
        let ghost old_order = order@;
        proof {
            old_order.insert_ensures(p as int, i);
        }
        order.insert(p, i);
        proof {
            let o = order@;
            assert forall|j: int| 0 <= j < o.len() implies #[trigger] o[j] < i + 1 by {
                if j < p {
                    assert(o[j] == old_order[j]);
                } else if j > p {
                    assert(o[j] == old_order[j - 1]);
                }
            }
            assert forall|x: usize| x < i + 1 implies #[trigger] o.contains(x) by {
                if x == i {
                    assert(o[p as int] == x);
                } else {
                    assert(old_order.contains(x));
                    let j0 = choose|j: int| 0 <= j < old_order.len() && old_order[j] == x;
                    if j0 < p {
                        assert(o[j0] == x);
                    } else {
                        assert(o[j0 + 1] == x);
                    }
                }
            }
            assert forall|j: int, k: int| 0 <= j < k < o.len() implies ranks_before(ranks@, #[trigger] o[j] as int, #[trigger] o[k] as int) by {
                if k < p {
                    assert(o[j] == old_order[j] && o[k] == old_order[k]);
                } else if k == p {
                    assert(o[j] == old_order[j]);
                    assert(ranks@[old_order[j] as int] > ranks@[i as int]);
                } else if j < p {
                    assert(o[j] == old_order[j] && o[k] == old_order[k - 1]);
                    assert(ranks_before(ranks@, old_order[j] as int, old_order[k - 1] as int));
                } else if j == p {
                    assert(o[k] == old_order[k - 1]);
                    assert(ranks@[i as int] >= ranks@[old_order[p as int] as int]);
                    if k - 1 > p {
                        assert(ranks_before(ranks@, old_order[p as int] as int, old_order[k - 1] as int));
                    }
                } else {
                    assert(o[j] == old_order[j - 1] && o[k] == old_order[k - 1]);
                    assert(ranks_before(ranks@, old_order[j - 1] as int, old_order[k - 1] as int));
                }
            }
        }
        i = i + 1;
    }
    order
}

// ---------------------------------------------------------------------------
// Choosing a stream
// ---------------------------------------------------------------------------

/// What became of the answer of one provider.
#[derive(Debug)]
pub enum SourceOutcome {
    /// The answer could not be read.
    Undecodable,
    /// The answer has no list of sources.
    NoSourcesField,
    /// The list of sources is empty.
    NoSources,
    /// The chosen source is not a playlist.
    Encrypted,
    /// The chosen source is a playlist; `listed_quality` is the lowercased quality of the
    /// highest-ranked source.
    Playable { url: String, listed_quality: String },
}

/// Every source has a rank.
pub open spec fn all_ranked(sources: Seq<APISource>) -> bool {
    forall|i: int| 0 <= i < sources.len() ==> (#[trigger] spec_quality_key(sources[i].quality@)) is Some
}

/// The ranks of the sources.
pub open spec fn spec_ranks(sources: Seq<APISource>) -> Seq<i32> {
    Seq::new(sources.len(), |i: int| spec_quality_key(sources[i].quality@).unwrap())
}

/// The lowercased qualities of the sources, in the order `order`.
pub open spec fn ordered_qualities(sources: Seq<APISource>, order: Seq<usize>) -> Seq<Seq<char>> {
    Seq::new(order.len(), |j: int| str_lowercase(sources[order[j] as int].quality@))
}

/// The place in `order` of the source to play: the first whose lowercased quality is the
/// wanted one, where one is wanted and found; else the first.
pub open spec fn spec_pick(sources: Seq<APISource>, order: Seq<usize>, wanted: Seq<char>) -> int {
    let qualities = ordered_qualities(sources, order);
    if wanted.len() != 0 && qualities.contains(wanted) {
        spec_first_index(qualities, wanted)
    } else {
        0
    }
}

/// What `o` must be for the non-empty `sources` tried in the order `order`.
pub open spec fn outcome_for(o: SourceOutcome, sources: Seq<APISource>, order: Seq<usize>, wanted: Seq<char>) -> bool {
    let chosen = sources[order[spec_pick(sources, order, wanted)] as int];
    if spec_ends_with(chosen.url@, ".m3u8"@) {
        &&& o matches SourceOutcome::Playable { url, listed_quality }
        &&& url@ == chosen.url@
        &&& listed_quality@ == str_lowercase(sources[order[0] as int].quality@)
    } else {
        o is Encrypted
    }
}

/// What a provider's answer `response` (`None` where it could not be read) gives when the
/// quality `wanted` (empty for any) is asked for. A single source is taken without ranking it;
/// among two or more, the result is `None` exactly where a source's quality has no rank, so
/// that they cannot be ordered.
#[verifier::loop_isolation(false)]
#[verifier::spinoff_prover]
pub fn assess_response(response: &Option<APISourceResults>, wanted: &str) -> (r: Option<SourceOutcome>)
    ensures
        match response {
            None => r matches Some(SourceOutcome::Undecodable),
            Some(answer) => match answer.sources {
                None => r matches Some(SourceOutcome::NoSourcesField),
                Some(sources) => if sources.len() == 0 {
                    r matches Some(SourceOutcome::NoSources)
                } else if sources.len() >= 2 && !all_ranked(sources@) {
                    r is None
                } else {
                    &&& r is Some
                    &&& exists|order: Seq<usize>| is_rank_order(spec_ranks(sources@), order)
                        && outcome_for(r.unwrap(), sources@, order, wanted@)
                },
            },
        },
{
    let answer = match response {
        None => return Some(SourceOutcome::Undecodable),
        Some(a) => a,
    };
    let sources = match &answer.sources {
        None => return Some(SourceOutcome::NoSourcesField),
        Some(s) => s,
    };
    if sources.len() == 0 {
        return Some(SourceOutcome::NoSources);
    }
    let order: Vec<usize> = if sources.len() == 1 {
        let single: Vec<usize> = vec![0];
        proof {
            let o = single@;
            assert(o[0] == 0);
            assert forall|x: usize| x < sources@.len() implies #[trigger] o.contains(x) by {
                assert(o[0] == x);
            }
        }
        single
    } else {
        let mut ranks: Vec<i32> = Vec::new();
        let mut i: usize = 0;
        while i < sources.len()
            invariant
                i <= sources.len(),
                ranks.len() == i,
                forall|j: int| 0 <= j < i ==> (#[trigger] spec_quality_key(sources@[j].quality@)) == Some(ranks@[j]),
            decreases sources.len() - i,
        {
            match quality_key(sources[i].quality.as_str()) {
                Some(k) => ranks.push(k),
                None => {
                    assert(!all_ranked(sources@)) by {
                        assert(spec_quality_key(sources@[i as int].quality@) is None);
                    }

                    return None;
                },
            }
            i = i + 1;
        }
        assert(ranks@ =~= spec_ranks(sources@));
        order_by_rank(&ranks)
    };
    let ghost qualities = ordered_qualities(sources@, order@);
    let mut pick: usize = 0;
    if !wanted.is_empty() {
        let mut j: usize = 0;
        let mut found = false;
        while j < order.len() && !found
            invariant
                j <= order.len(),
                order.len() == sources.len(),
                is_rank_order(spec_ranks(sources@), order@),
                qualities == ordered_qualities(sources@, order@),
                found ==> pick < order.len() && is_first_index(qualities, wanted@, pick as int),
                !found ==> pick == 0 && forall|k: int| 0 <= k < j ==> qualities[k] != wanted@,
            decreases order.len() - j,
        {
            let q = lowercase(sources[order[j]].quality.as_str());
            if same_text(q.as_str(), wanted) {
                pick = j;
                found = true;
            }
            j = j + 1;
        }
        proof {
            if found {
                let c = spec_first_index(qualities, wanted@);
                assert(is_first_index(qualities, wanted@, c));
                if c < pick {
                    assert(qualities[c] != wanted@);
                } else if c > pick {
                    assert(qualities[pick as int] != wanted@);
                }
            } else {
                if qualities.contains(wanted@) {
                    let w = choose|w: int| 0 <= w < qualities.len() && qualities[w] == wanted@;
                    assert(qualities[w] != wanted@);
                }
            }
        }
    }
    let chosen = &sources[order[pick]];
    if ends_with(chosen.url.as_str(), ".m3u8") {
        let listed_quality = lowercase(sources[order[0]].quality.as_str());
        Some(SourceOutcome::Playable { url: chosen.url.clone(), listed_quality })
    } else {
        Some(SourceOutcome::Encrypted)
    }
}

/// The link that an outcome gives: the playlist's URL, else the empty string.
pub fn outcome_link(o: &SourceOutcome) -> (link: String)
    ensures
        match o {
            SourceOutcome::Playable { url, .. } => link@ == url@,
            _ => link@ == Seq::<char>::empty(),
        },
{
    match o {
        SourceOutcome::Playable { url, .. } => url.clone(),
        _ => String::new(),
    }
}

} // verus!

verus! {

// ---------------------------------------------------------------------------
// Laws of the choice of a stream
// ---------------------------------------------------------------------------

/// Where no quality is asked for, the source tried first ranks at least as high as every
/// other.
pub proof fn law_first_ranks_highest(ranks: Seq<i32>, order: Seq<usize>, i: usize)
    requires
        is_rank_order(ranks, order),
        i < ranks.len(),
    ensures
        ranks[order[0] as int] >= ranks[i as int],
{
    assert(order.contains(i));
    let j = choose|j: int| 0 <= j < order.len() && order[j] == i;
    if j > 0 {
        assert(ranks_before(ranks, order[0] as int, order[j] as int));
    }
}

/// A quality that is asked for and offered is the quality that is played.
pub proof fn law_wanted_quality_is_picked(sources: Seq<APISource>, order: Seq<usize>, wanted: Seq<char>, i: usize)
    requires
        is_rank_order(spec_ranks(sources), order),
        i < sources.len(),
        wanted.len() != 0,
        str_lowercase(sources[i as int].quality@) == wanted,
    ensures
        str_lowercase(sources[order[spec_pick(sources, order, wanted)] as int].quality@) == wanted,
{
    let qualities = ordered_qualities(sources, order);
    assert(order.contains(i));
    let j = choose|j: int| 0 <= j < order.len() && order[j] == i;
    assert(qualities[j] == wanted);
    assert(qualities.contains(wanted));
    lemma_first_index_exists(qualities, wanted);
    let p = spec_first_index(qualities, wanted);
    assert(qualities[p] == wanted);
}

/// Where no quality is asked for, or the one asked for is not offered, the source played
/// ranks at least as high as every other.
pub proof fn law_unmatched_quality_plays_highest(sources: Seq<APISource>, order: Seq<usize>, wanted: Seq<char>, i: usize)
    requires
        is_rank_order(spec_ranks(sources), order),
        i < sources.len(),
        wanted.len() == 0 || forall|k: int| 0 <= k < sources.len() ==> str_lowercase(#[trigger] sources[k].quality@) != wanted,
    ensures
        spec_pick(sources, order, wanted) == 0,
        spec_ranks(sources)[order[spec_pick(sources, order, wanted)] as int] >= spec_ranks(sources)[i as int],
{
    let qualities = ordered_qualities(sources, order);
    if wanted.len() != 0 && qualities.contains(wanted) {
        let j = choose|j: int| 0 <= j < qualities.len() && qualities[j] == wanted;
        assert(str_lowercase(sources[order[j] as int].quality@) != wanted);
    }
    law_first_ranks_highest(spec_ranks(sources), order, i);
}

/// The order in which the sources are tried is fully determined by their ranks.
pub proof fn law_rank_order_unique(ranks: Seq<i32>, o1: Seq<usize>, o2: Seq<usize>)
    requires
        is_rank_order(ranks, o1),
        is_rank_order(ranks, o2),
    ensures
        o1 == o2,
{
    if exists|j: int| 0 <= j < o1.len() && o1[j] != o2[j] {
        let w = choose|w: int| 0 <= w < o1.len() && o1[w] != o2[w];
        lemma_first_difference(o1, o2, w + 1);
        let j = choose|j: int| 0 <= j < o1.len() && o1[j] != o2[j]
            && forall|i: int| 0 <= i < j ==> o1[i] == o2[i];
        let a = o1[j];
        let b = o2[j];
        assert(o1.contains(b));
        let q1 = choose|q: int| 0 <= q < o1.len() && o1[q] == b;
        assert(o2.contains(a));
        let q2 = choose|q: int| 0 <= q < o2.len() && o2[q] == a;
        if q1 < j {
            assert(o2[q1] == b);
            assert(ranks_before(ranks, o2[q1] as int, o2[j] as int));
        }
        if q2 < j {
            assert(o1[q2] == a);
            assert(ranks_before(ranks, o1[q2] as int, o1[j] as int));
        }
        assert(ranks_before(ranks, a as int, b as int));
        assert(ranks_before(ranks, b as int, a as int));
    }
    assert(o1 =~= o2);
}

proof fn lemma_first_difference(o1: Seq<usize>, o2: Seq<usize>, k: int)
    requires
        0 < k <= o1.len(),
        o1.len() == o2.len(),
        exists|w: int| 0 <= w < k && o1[w] != o2[w],
    ensures
        exists|j: int| 0 <= j < o1.len() && o1[j] != o2[j] && forall|i: int| 0 <= i < j ==> o1[i] == o2[i],
    decreases k,
{
    if exists|w: int| 0 <= w < k - 1 && o1[w] != o2[w] {
        lemma_first_difference(o1, o2, k - 1);
    } else {
        assert(o1[k - 1] != o2[k - 1]);
        assert(forall|i: int| 0 <= i < k - 1 ==> o1[i] == o2[i]);
    }
}

/// Source `a` ranks above source `b`: a higher rank, or the same rank and listed later.
pub open spec fn ranks_above(sources: Seq<APISource>, a: int, b: int) -> bool {
    spec_ranks(sources)[a] > spec_ranks(sources)[b]
        || (spec_ranks(sources)[a] == spec_ranks(sources)[b] && a > b)
}

/// Source `i` is the one to play: where the wanted quality is offered, the source of that
/// quality that ranks above every other of that quality; else the source that ranks above
/// every other.
pub open spec fn is_source_to_play(sources: Seq<APISource>, wanted: Seq<char>, i: int) -> bool {
    ||| {
        &&& wanted.len() != 0
        &&& str_lowercase(sources[i].quality@) == wanted
        &&& forall|j: int| 0 <= j < sources.len() && j != i
            && str_lowercase(#[trigger] sources[j].quality@) == wanted ==> ranks_above(sources, i, j)
    }
    ||| {
        &&& (wanted.len() == 0 || forall|j: int| 0 <= j < sources.len() ==> str_lowercase(#[trigger] sources[j].quality@) != wanted)
        &&& forall|j: int| 0 <= j < sources.len() && j != i ==> #[trigger] ranks_above(sources, i, j)
    }
}

/// The stream given for an answer is that of the source to play (the asked quality where
/// offered, else the highest): the outcome is a playable link exactly when that source's URL
/// ends with `.m3u8`, the link is then that URL, and otherwise the source is reported as not
/// a playlist.
pub proof fn law_played_source(r: SourceOutcome, sources: Seq<APISource>, order: Seq<usize>, wanted: Seq<char>, i: usize)
    requires
        is_rank_order(spec_ranks(sources), order),
        outcome_for(r, sources, order, wanted),
        i < sources.len(),
        is_source_to_play(sources, wanted, i as int),
    ensures
        (r is Playable) == spec_ends_with(sources[i as int].url@, ".m3u8"@),
        r is Playable || r is Encrypted,
        r matches SourceOutcome::Playable { url, .. } ==> url@ == sources[i as int].url@,
{
    let ranks = spec_ranks(sources);
    let qualities = ordered_qualities(sources, order);
    let p = spec_pick(sources, order, wanted);
    assert(order.contains(i));
    let q = choose|q: int| 0 <= q < order.len() && order[q] == i;
    if wanted.len() != 0 && str_lowercase(sources[i as int].quality@) == wanted
        && forall|j: int| 0 <= j < sources.len() && j != i
            && str_lowercase(#[trigger] sources[j].quality@) == wanted ==> ranks_above(sources, i as int, j) {
        assert(qualities[q] == wanted);
        assert(qualities.contains(wanted));
        lemma_first_index_exists(qualities, wanted);
        assert(is_first_index(qualities, wanted, p));
        let x = order[p];
        if x != i {
            assert(qualities[p] == str_lowercase(sources[x as int].quality@));
            assert(ranks_above(sources, i as int, x as int));
            assert(q >= p);
            if q > p {
                assert(ranks_before(ranks, order[p] as int, order[q] as int));
            }
        }
    } else {
        assert(!qualities.contains(wanted) || wanted.len() == 0) by {
            if wanted.len() != 0 && qualities.contains(wanted) {
                let w = choose|w: int| 0 <= w < qualities.len() && qualities[w] == wanted;
                assert(str_lowercase(sources[order[w] as int].quality@) != wanted);
            }
        }
        assert(p == 0);
        let x = order[0];
        if x != i {
            assert(ranks_above(sources, i as int, x as int));
            if q > 0 {
                assert(ranks_before(ranks, order[0] as int, order[q] as int));
            }
        }
    }
}

} // verus!
