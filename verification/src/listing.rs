//! Which cards the history list shows, in which order, and which one stays
//! selected.

use vstd::prelude::*;

use crate::history::CardView;
use crate::icons::Icon;
use crate::model::strings_view;
use crate::search::{match_field, match_field_spec};
use crate::ui::{ui_filter_matches, Filter, SortOrder};

verus! {

impl Filter {
    /// Icon of the filter chip.
    pub fn icon(self) -> (r: Icon)
        ensures
            r == match self {
                Filter::All => Icon::List,
                Filter::Text => Icon::Text,
                Filter::Link => Icon::Link,
                Filter::Code => Icon::Code,
                Filter::File => Icon::File,
                Filter::Image => Icon::Image,
            },
    {
        match self {
            Filter::All => Icon::List,
            Filter::Text => Icon::Text,
            Filter::Link => Icon::Link,
            Filter::Code => Icon::Code,
            Filter::File => Icon::File,
            Filter::Image => Icon::Image,
        }
    }
}

/// A card passes the toolbar: its kind is in the filter, it is pinned when
/// only pinned cards are asked for, and the search matches one of its fields.
pub open spec fn card_shown(c: CardView, filter: Filter, pinned_only: bool, search: Seq<char>) -> bool {
    &&& ui_filter_matches(filter, c.kind)
    &&& !pinned_only || c.pinned
    &&& match_field_spec(c.full_content@, c.source_app@, strings_view(c.used_in_apps@), search) is Some
}

/// `a` comes strictly before `b` by (first copy, sequence), ascending.
pub open spec fn key_less(a: CardView, b: CardView) -> bool {
    a.first_ms < b.first_ms || (a.first_ms == b.first_ms && a.sequence < b.sequence)
}

pub open spec fn same_key(a: CardView, b: CardView) -> bool {
    a.first_ms == b.first_ms && a.sequence == b.sequence
}

/// `a` is listed strictly before `b` in `order`.
pub open spec fn listed_before(order: SortOrder, a: CardView, b: CardView) -> bool {
    match order {
        SortOrder::Newest => key_less(b, a),
        SortOrder::Oldest => key_less(a, b),
    }
}

/// Positions `r` into `cards` are in list order: none is listed after a later
/// one, and cards with the same key keep their order in `cards`.
pub open spec fn in_list_order(cards: Seq<CardView>, order: SortOrder, r: Seq<usize>) -> bool {
    forall|i: int, j: int|
        #![trigger r[i], r[j]]
        0 <= i < j < r.len() ==> !listed_before(order, cards[r[j] as int], cards[r[i] as int]) && (
        same_key(cards[r[i] as int], cards[r[j] as int]) ==> r[i] < r[j])
}

/// The positions of the cards the list shows, in the order it shows them.
pub open spec fn is_visible_listing(
    cards: Seq<CardView>,
    filter: Filter,
    pinned_only: bool,
    search: Seq<char>,
    order: SortOrder,
    r: Seq<usize>,
) -> bool {
    &&& forall|i: int|
        0 <= i < r.len() ==> #[trigger] r[i] < cards.len() && card_shown(
            cards[r[i] as int],
            filter,
            pinned_only,
            search,
        )
    &&& forall|k: int|
        0 <= k < cards.len() && card_shown(cards[k], filter, pinned_only, search) ==> r.contains(
            k as usize,
        )
    &&& forall|i: int, j: int| #![trigger r[i], r[j]] 0 <= i < j < r.len() ==> r[i] != r[j]
    &&& in_list_order(cards, order, r)
}

fn key_less_exec(a: &CardView, b: &CardView) -> (r: bool)
    ensures
        r == key_less(*a, *b),
{
    a.first_ms < b.first_ms || (a.first_ms == b.first_ms && a.sequence < b.sequence)
}

fn listed_before_exec(order: SortOrder, a: &CardView, b: &CardView) -> (r: bool)
    ensures
        r == listed_before(order, *a, *b),
{
    match order {
        SortOrder::Newest => key_less_exec(b, a),
        SortOrder::Oldest => key_less_exec(a, b),
    }
}

/// Inserts position `k` (larger than every position in `out`) after every
/// card it is not listed before.
fn insert_in_order(cards: &[CardView], order: SortOrder, out: &mut Vec<usize>, k: usize)
    requires
        k < cards@.len(),
        forall|i: int| 0 <= i < old(out)@.len() ==> #[trigger] old(out)@[i] < k,
        in_list_order(cards@, order, old(out)@),
    ensures
        final(out)@.len() == old(out)@.len() + 1,
        final(out)@.to_set() == old(out)@.to_set().insert(k),
        forall|i: int| 0 <= i < final(out)@.len() ==> #[trigger] final(out)@[i] <= k,
        in_list_order(cards@, order, final(out)@),
{
    let mut p: usize = 0;
    while p < out.len() && !listed_before_exec(order, &cards[k], &cards[out[p]])
        invariant
            p <= out@.len(),
            out@ == old(out)@,
            k < cards@.len(),
            forall|i: int| 0 <= i < out@.len() ==> #[trigger] out@[i] < k,
            forall|i: int| 0 <= i < p ==> !listed_before(order, cards@[k as int], cards@[#[trigger] out@[i] as int]),
        decreases out@.len() - p,
    {
        p += 1;
    }
    let ghost before = out@;
    proof {
        before.insert_ensures(p as int, k);
    }
    out.insert(p, k);
    proof {
        let s = out@;
        assert(s == before.insert(p as int, k));
        assert forall|i: int, j: int| #![trigger s[i], s[j]] 0 <= i < j < s.len() implies !listed_before(
            order,
            cards@[s[j] as int],
            cards@[s[i] as int],
        ) && (same_key(cards@[s[i] as int], cards@[s[j] as int]) ==> s[i] < s[j]) by {
            if j < p {
                assert(s[i] == before[i] && s[j] == before[j]);
            } else if i > p {
                assert(s[i] == before[i - 1] && s[j] == before[j - 1]);
            } else if i == p {
                assert(s[j] == before[j - 1]);
                assert(listed_before(order, cards@[k as int], cards@[before[p as int] as int]));
                if j - 1 > p {
                    assert(before[p as int] == before[p as int]);
                    let a = before[p as int];
                    let b = before[j - 1];
                    assert(!listed_before(order, cards@[b as int], cards@[a as int]));
                }
            } else {
                assert(j == p || j > p);
                assert(s[i] == before[i]);
                if j == p {
                } else {
                    assert(s[j] == before[j - 1]);
                    let a = before[i];
                    let b = before[j - 1];
                    assert(!listed_before(order, cards@[k as int], cards@[a as int]));
                    assert(listed_before(order, cards@[k as int], cards@[before[p as int] as int]));
                }
            }
        }
        assert(s.to_set() =~= before.to_set().insert(k)) by {
            assert forall|x: usize| s.to_set().contains(x) implies before.to_set().insert(k).contains(
                x,
            ) by {
                let i = choose|i: int| 0 <= i < s.len() && s[i] == x;
                if i < p {
                    assert(before[i] == x);
                } else if i > p {
                    assert(before[i - 1] == x);
                }
            }
            assert forall|x: usize| before.to_set().insert(k).contains(x) implies s.to_set().contains(
                x,
            ) by {
                if x == k {
                    assert(s[p as int] == k);
                } else {
                    let i = choose|i: int| 0 <= i < before.len() && before[i] == x;
                    if i < p {
                        assert(s[i] == x);
                    } else {
                        assert(s[i + 1] == x);
                    }
                }
            }
        }
    }
}

/// The cards the history list shows, as positions into `cards`: those of the
/// filter's kind, pinned ones only when asked, whose fields match the search;
/// newest or oldest first by first copy and then sequence.
pub fn visible_cards(
    cards: &[CardView],
    filter: Filter,
    pinned_only: bool,
    order: SortOrder,
    search: &str,
) -> (r: Vec<usize>)
    ensures
        is_visible_listing(cards@, filter, pinned_only, search@, order, r@),
{
    let mut out: Vec<usize> = Vec::new();
    let mut k: usize = 0;
    while k < cards.len()
        invariant
            k <= cards@.len(),
            forall|i: int| 0 <= i < out@.len() ==> #[trigger] out@[i] < k,
            forall|i: int|
                0 <= i < out@.len() ==> card_shown(
                    cards@[#[trigger] out@[i] as int],
                    filter,
                    pinned_only,
                    search@,
                ),
            forall|x: usize|
                out@.to_set().contains(x) <==> (x < k && card_shown(
                    cards@[x as int],
                    filter,
                    pinned_only,
                    search@,
                )),
            forall|i: int, j: int| #![trigger out@[i], out@[j]] 0 <= i < j < out@.len() ==> out@[i] != out@[j],
            in_list_order(cards@, order, out@),
        decreases cards@.len() - k,
    {
        let c = &cards[k];
        let shown = filter.matches(c.kind) && (!pinned_only || c.pinned) && match_field(
            c.full_content.as_str(),
            c.source_app.as_str(),
            c.used_in_apps.as_slice(),
            search,
        ).is_some();
        if shown {
            let ghost before = out@;
            insert_in_order(cards, order, &mut out, k);
            proof {
                assert forall|i: int| 0 <= i < out@.len() implies card_shown(
                    cards@[#[trigger] out@[i] as int],
                    filter,
                    pinned_only,
                    search@,
                ) by {
                    assert(out@.to_set().contains(out@[i]));
                    if out@[i] != k {
                        assert(before.to_set().contains(out@[i]));
                        let j = choose|j: int| 0 <= j < before.len() && before[j] == out@[i];
                        assert(card_shown(cards@[before[j] as int], filter, pinned_only, search@));
                    }
                }
                assert forall|i: int, j: int| #![trigger out@[i], out@[j]] 0 <= i < j < out@.len() implies out@[i] != out@[j] by {
                    if out@[i] == out@[j] {
                        assert(same_key(cards@[out@[i] as int], cards@[out@[j] as int]));
                    }
                }
                assert forall|i: int| 0 <= i < out@.len() implies #[trigger] out@[i] < k + 1 by {
                }
            }
        }
        k += 1;
    }
    proof {
        assert forall|i: int| 0 <= i < out@.len() implies #[trigger] out@[i] < cards@.len() && card_shown(
            cards@[out@[i] as int],
            filter,
            pinned_only,
            search@,
        ) by {}
        assert forall|x: int| 0 <= x < cards@.len() && card_shown(cards@[x], filter, pinned_only, search@) implies out@.contains(
            x as usize,
        ) by {
            assert(out@.to_set().contains(x as usize));
        }
    }
    out
}

/// The selection after the list changed: the current card while it is still
/// shown, else the first card shown, else none.
pub open spec fn kept_selection(shown: Seq<u32>, current: Option<u32>) -> Option<u32> {
    let first = if shown.len() > 0 {
        Some(shown[0])
    } else {
        None
    };
    match current {
        Some(s) => if shown.contains(s) {
            Some(s)
        } else {
            first
        },
        None => first,
    }
}

/// Which card stays selected once the list shows the cards of `shown`
/// (their sequences, in list order).
pub fn ensure_visible_selection(shown: &[u32], current: Option<u32>) -> (r: Option<u32>)
    ensures
        r == kept_selection(shown@, current),
{
    if let Some(s) = current {
        let mut i: usize = 0;
        while i < shown.len()
            invariant
                i <= shown@.len(),
                current == Some(s),
                forall|j: int| 0 <= j < i ==> shown@[j] != s,
            decreases shown@.len() - i,
        {
            if shown[i] == s {
                assert(shown@[i as int] == s);
                assert(shown@.contains(s));
                return Some(s);
            }
            i += 1;
        }
    }
    if shown.len() > 0 {
        Some(shown[0])
    } else {
        None
    }
}

} // verus!
