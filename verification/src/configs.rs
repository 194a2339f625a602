//! The tunnel configurations on offer: which directory entries name one,
//! the sorted list of their identifiers, and the selection's place in it.

use crate::cycle::{lemma_forward_cycle_is_full, next_index, wrapped_index, wrapped_index_after};
use crate::text::{
    chars_of, chars_precede, lemma_precedes_total, lemma_precedes_transitive, precedes,
};
use vstd::prelude::*;
use vstd::string::StringExecFns;

verus! {

/// The extension that marks a directory entry as a tunnel configuration.
pub open spec fn extension() -> Seq<char> {
    ".conf"@
}

/// The identifier that the directory entry `name` stands for: `name` without
/// the extension, if `name` ends in it and is more than the extension alone.
pub open spec fn identifier_of(name: Seq<char>) -> Option<Seq<char>> {
    let cut = name.len() - extension().len();
    if cut > 0 && name.subrange(cut, name.len() as int) == extension() {
        Some(name.subrange(0, cut))
    } else {
        None
    }
}

/// The identifiers that the entries `names` stand for, in the order of the
/// listing.  Entries that are no configuration are passed over.
pub open spec fn identifiers(names: Seq<Seq<char>>) -> Seq<Seq<char>>
    decreases names.len(),
{
    if names.len() == 0 {
        Seq::empty()
    } else {
        let before = identifiers(names.drop_last());
        match identifier_of(names.last()) {
            Some(identifier) => before.push(identifier),
            None => before,
        }
    }
}

/// Whether `items` are in ascending order: none comes before an earlier one.
pub open spec fn ascending(items: Seq<Seq<char>>) -> bool {
    forall|i: int, j: int| 0 <= i < j < items.len() ==> !precedes(items[j], items[i])
}

/// The first index at or after `from` whose item comes after `item`, or the
/// length of `items` when there is none.
pub open spec fn insertion_point(items: Seq<Seq<char>>, item: Seq<char>, from: int) -> int
    decreases items.len() - from,
{
    if from < 0 || from >= items.len() {
        items.len() as int
    } else if precedes(item, items[from]) {
        from
    } else {
        insertion_point(items, item, from + 1)
    }
}

/// `items` put in ascending order; items that are equal keep their order.
pub open spec fn sorted(items: Seq<Seq<char>>) -> Seq<Seq<char>>
    decreases items.len(),
{
    if items.len() == 0 {
        Seq::empty()
    } else {
        let before = sorted(items.drop_last());
        before.insert(insertion_point(before, items.last(), 0), items.last())
    }
}

/// The working set for a directory listing `names`: the identifiers of its
/// configurations in ascending order.
pub open spec fn available(names: Seq<Seq<char>>) -> Seq<Seq<char>> {
    sorted(identifiers(names))
}

proof fn lemma_insertion_point(items: Seq<Seq<char>>, item: Seq<char>, from: int)
    requires
        0 <= from <= items.len(),
    ensures
        from <= insertion_point(items, item, from) <= items.len(),
        forall|i: int|
            from <= i < insertion_point(items, item, from) ==> !precedes(item, #[trigger] items[i]),
        insertion_point(items, item, from) < items.len() ==> precedes(
            item,
            items[insertion_point(items, item, from)],
        ),
    decreases items.len() - from,
{
    if from < items.len() && !precedes(item, items[from]) {
        lemma_insertion_point(items, item, from + 1);
    }
}

/// Sorting brings the items into ascending order and neither adds nor drops
/// one.
pub proof fn lemma_sorted(items: Seq<Seq<char>>)
    ensures
        ascending(sorted(items)),
        sorted(items).to_multiset() == items.to_multiset(),
        sorted(items).len() == items.len(),
    decreases items.len(),
{
    if items.len() == 0 {
        assert(items =~= Seq::empty());
    } else {
        let before = sorted(items.drop_last());
        let item = items.last();
        let at = insertion_point(before, item, 0);
        let after = before.insert(at, item);
        lemma_sorted(items.drop_last());
        lemma_insertion_point(before, item, 0);
        assert(items == items.drop_last().push(item));
        vstd::seq_lib::to_multiset_build(items.drop_last(), item);
        vstd::seq_lib::to_multiset_insert(before, at, item);
        assert forall|i: int, j: int| 0 <= i < j < after.len() implies !precedes(
            after[j],
            after[i],
        ) by {
            if j == at {
                assert(after[i] == before[i]);
                assert(!precedes(item, before[i]));
            } else if i == at {
                assert(after[j] == before[j - 1]);
                if j - 1 > at {
                    assert(!precedes(before[j - 1], before[at]));
                }
                if precedes(before[j - 1], item) {
                    lemma_precedes_transitive(before[j - 1], item, before[at]);
                }
            } else {
                let i0 = if i < at { i } else { i - 1 };
                let j0 = if j < at { j } else { j - 1 };
                assert(after[i] == before[i0]);
                assert(after[j] == before[j0]);
            }
        }
    }
}

/// An entry stands for `identifier` exactly if `identifier` is not empty
/// and the entry's name is `identifier` followed by the extension.
pub proof fn lemma_identifier_of(name: Seq<char>, identifier: Seq<char>)
    ensures
        identifier_of(name) == Some(identifier) <==> identifier.len() > 0 && name == identifier
            + extension(),
{
    let cut = name.len() - extension().len();
    if identifier_of(name) == Some(identifier) {
        assert(name =~= name.subrange(0, cut) + name.subrange(cut, name.len() as int));
    }
    if identifier.len() > 0 && name == identifier + extension() {
        assert(name.subrange(cut, name.len() as int) =~= extension());
        assert(name.subrange(0, cut) =~= identifier);
    }
}

proof fn lemma_identifiers(names: Seq<Seq<char>>, identifier: Seq<char>)
    ensures
        identifiers(names).contains(identifier) <==> identifier.len() > 0 && names.contains(
            identifier + extension(),
        ),
        names.no_duplicates() ==> identifiers(names).no_duplicates(),
    decreases names.len(),
{
    let name = identifier + extension();
    if names.len() > 0 {
        let before = identifiers(names.drop_last());
        let last = names.last();
        lemma_identifiers(names.drop_last(), identifier);
        lemma_identifier_of(last, identifier);
        if identifiers(names).contains(identifier) {
            let i = choose|i: int|
                0 <= i < identifiers(names).len() && identifiers(names)[i] == identifier;
            if i < before.len() {
                assert(before[i] == identifier);
                let k = choose|k: int|
                    0 <= k < names.drop_last().len() && names.drop_last()[k] == name;
                assert(names[k] == name);
            } else {
                assert(names[names.len() - 1] == name);
            }
        }
        if identifier.len() > 0 && names.contains(name) {
            let k = choose|k: int| 0 <= k < names.len() && names[k] == name;
            if k < names.len() - 1 {
                assert(names.drop_last()[k] == name);
                let i = choose|i: int| 0 <= i < before.len() && before[i] == identifier;
                assert(identifiers(names)[i] == identifier);
            } else {
                assert(identifiers(names)[before.len() as int] == identifier);
            }
        }
        if names.no_duplicates() {
            assert(names.drop_last().no_duplicates());
            if let Some(found) = identifier_of(last) {
                lemma_identifiers(names.drop_last(), found);
                lemma_identifier_of(last, found);
                if before.contains(found) {
                    let k = choose|k: int|
                        0 <= k < names.drop_last().len() && names.drop_last()[k] == last;
                    assert(names[k] == names[names.len() - 1]);
                }
                assert forall|i: int, j: int|
                    0 <= i < identifiers(names).len() && 0 <= j < identifiers(names).len() && i
                        != j implies identifiers(names)[i] != identifiers(names)[j] by {
                    if i < before.len() && j < before.len() {
                        assert(before[i] != before[j]);
                    } else if i < before.len() {
                        assert(before[i] == identifiers(names)[i]);
                        assert(before.contains(before[i]));
                    } else {
                        assert(before[j] == identifiers(names)[j]);
                        assert(before.contains(before[j]));
                    }
                }
            }
        }
    }
}

/// The working set for a listing, said without reference to how it is
/// made: it holds exactly the identifiers whose configuration file is in the
/// listing, none of them empty, in ascending order; and where no name occurs
/// twice in the listing, no identifier occurs twice in the working set, so
/// that each comes strictly before the next.
pub proof fn lemma_available(names: Seq<Seq<char>>)
    ensures
        ascending(available(names)),
        forall|identifier: Seq<char>| #[trigger]
            available(names).contains(identifier) <==> identifier.len() > 0 && names.contains(
                identifier + extension(),
            ),
        forall|i: int|
            0 <= i < available(names).len() ==> (#[trigger] available(names)[i]).len() > 0,
        names.no_duplicates() ==> forall|i: int, j: int|
            0 <= i < j < available(names).len() ==> precedes(
                available(names)[i],
                available(names)[j],
            ),
{
    let found = identifiers(names);
    let listed = available(names);
    lemma_sorted(found);
    found.to_multiset_ensures();
    listed.to_multiset_ensures();
    assert forall|identifier: Seq<char>| #[trigger]
        listed.contains(identifier) <==> identifier.len() > 0 && names.contains(
            identifier + extension(),
        ) by {
        lemma_identifiers(names, identifier);
        assert(listed.contains(identifier) <==> listed.to_multiset().count(identifier) > 0);
        assert(found.contains(identifier) <==> found.to_multiset().count(identifier) > 0);
    }
    assert forall|i: int| 0 <= i < listed.len() implies (#[trigger] listed[i]).len() > 0 by {
        assert(listed.contains(listed[i]));
    }
    if names.no_duplicates() {
        lemma_identifiers(names, Seq::empty());
        found.lemma_multiset_has_no_duplicates();
        listed.lemma_multiset_has_no_duplicates_conv();
        assert forall|i: int, j: int| 0 <= i < j < listed.len() implies precedes(
            listed[i],
            listed[j],
        ) by {
            lemma_precedes_total(listed[i], listed[j]);
        }
    }
}

fn stem_length(chars: &Vec<char>) -> (cut: Option<usize>)
    ensures
        match cut {
            Some(n) => 0 < n <= chars.len() && identifier_of(chars@) == Some(
                chars@.subrange(0, n as int),
            ),
            None => identifier_of(chars@) is None,
        },
{
    proof {
        reveal_strlit(".conf");
    }
    let n = chars.len();
    if n <= 5 {
        return None;
    }
    let cut = n - 5;
    let ghost tail = chars@.subrange(cut as int, n as int);
    assert(forall|k: int| 0 <= k < 5 ==> tail[k] == chars@[cut + k]);
    if chars[cut] == '.' && chars[cut + 1] == 'c' && chars[cut + 2] == 'o' && chars[cut + 3] == 'n'
        && chars[cut + 4] == 'f' {
        assert(tail =~= extension());
        Some(cut)
    } else {
        assert(tail[0] == chars@[cut + 0]);
        assert(tail[1] == chars@[cut + 1]);
        assert(tail[2] == chars@[cut + 2]);
        assert(tail[3] == chars@[cut + 3]);
        assert(tail[4] == chars@[cut + 4]);
        None
    }
}

/// The identifier that the directory entry `name` stands for, if it is a
/// tunnel configuration.
pub fn identifier(name: &str) -> (found: Option<String>)
    ensures
        found.deep_view() == identifier_of(name@),
{
    let chars = chars_of(name);
    match stem_length(&chars) {
        Some(cut) => Some(name.substring_char(0, cut).to_owned()),
        None => None,
    }
}

fn find_insertion_point(keys: &Vec<Vec<char>>, items: Ghost<Seq<Seq<char>>>, key: &Vec<char>) -> (at:
    usize)
    requires
        keys.len() == items@.len(),
        forall|j: int| 0 <= j < keys.len() ==> keys[j]@ == #[trigger] items@[j],
    ensures
        at == insertion_point(items@, key@, 0),
        at <= keys.len(),
{
    let mut at: usize = 0;
    while at < keys.len()
        invariant
            at <= keys.len(),
            keys.len() == items@.len(),
            forall|j: int| 0 <= j < keys.len() ==> keys[j]@ == #[trigger] items@[j],
            insertion_point(items@, key@, 0) == insertion_point(items@, key@, at as int),
        decreases keys.len() - at,
    {
        assert(keys[at as int]@ == items@[at as int]);
        if chars_precede(key, &keys[at]) {
            return at;
        }
        at = at + 1;
    }
    at
}

/// Lists the identifiers of the tunnel configurations among the directory
/// entries `names`, in ascending order.
pub fn available_configs(names: &Vec<String>) -> (configs: Vec<String>)
    ensures
        configs.deep_view() == available(names.deep_view()),
        ascending(configs.deep_view()),
        configs.deep_view().to_multiset() == identifiers(names.deep_view()).to_multiset(),
{
    let mut configs: Vec<String> = Vec::new();
    let mut keys: Vec<Vec<char>> = Vec::new();
    let ghost listing = names.deep_view();
    assert(listing.take(0) =~= Seq::empty());
    assert(configs.deep_view() =~= Seq::empty());
    for i in 0..names.len()
        invariant
            listing == names.deep_view(),
            keys.len() == configs.len(),
            forall|j: int| 0 <= j < keys.len() ==> keys[j]@ == #[trigger] configs.deep_view()[j],
            configs.deep_view() == sorted(identifiers(listing.take(i as int))),
    {
        let name = names[i].as_str();
        let mut chars = chars_of(name);
        let ghost earlier = identifiers(listing.take(i as int));
        proof {
            assert(listing.take(i + 1).drop_last() =~= listing.take(i as int));
            assert(listing.take(i + 1).last() == name@);
            assert(identifiers(listing.take(i + 1)) == match identifier_of(name@) {
                Some(identifier) => earlier.push(identifier),
                None => earlier,
            });
        }
        match stem_length(&chars) {
            Some(cut) => {
                let found = name.substring_char(0, cut).to_owned();
                chars.truncate(cut);
                assert(chars@ =~= found@);
                assert(earlier.push(found@).drop_last() =~= earlier);
                let at = find_insertion_point(&keys, Ghost(configs.deep_view()), &chars);
                let ghost before = configs.deep_view();
                keys.insert(at, chars);
                configs.insert(at, found);
                assert(configs.deep_view() =~= before.insert(at as int, found@));
            },
            None => {},
        }
    }
    proof {
        assert(listing.take(names.len() as int) =~= listing);
        lemma_sorted(identifiers(listing));
    }
    configs
}

/// The first index at or after `from` at which `items` holds `wanted`.
pub open spec fn index_from(items: Seq<Seq<char>>, wanted: Seq<char>, from: int) -> Option<int>
    decreases items.len() - from,
{
    if from < 0 || from >= items.len() {
        None
    } else if items[from] == wanted {
        Some(from)
    } else {
        index_from(items, wanted, from + 1)
    }
}

/// The place of the selection in the working set: the first index at which
/// `configs` holds `selected`, and 0 when it holds it nowhere.
pub open spec fn current_index(configs: Seq<Seq<char>>, selected: Seq<char>) -> int {
    match index_from(configs, selected, 0) {
        Some(index) => index,
        None => 0,
    }
}

/// The identifier that the selection moves to when it is cycled by
/// `direction` places through a working set that is not empty.
pub open spec fn cycled(configs: Seq<Seq<char>>, selected: Seq<char>, direction: int) -> Seq<char> {
    configs[wrapped_index(current_index(configs, selected), direction, configs.len() as int)]
}

/// The path of the configuration file that `identifier` names in the
/// directory `dir`.
pub open spec fn config_path_of(dir: Seq<char>, identifier: Seq<char>) -> Seq<char> {
    dir + "/"@ + identifier + extension()
}

proof fn lemma_index_from(items: Seq<Seq<char>>, wanted: Seq<char>, from: int)
    requires
        0 <= from <= items.len(),
    ensures
        match index_from(items, wanted, from) {
            Some(index) => {
                &&& from <= index < items.len()
                &&& items[index] == wanted
                &&& forall|j: int| from <= j < index ==> items[j] != wanted
            },
            None => forall|j: int| from <= j < items.len() ==> items[j] != wanted,
        },
    decreases items.len() - from,
{
    if from < items.len() && items[from] != wanted {
        lemma_index_from(items, wanted, from + 1);
    }
}

/// Where the selection is on offer its place is the first index that holds
/// it; where it is not, its place is the first of the list.
pub proof fn lemma_current_index(configs: Seq<Seq<char>>, selected: Seq<char>)
    ensures
        configs.contains(selected) ==> {
            &&& 0 <= current_index(configs, selected) < configs.len()
            &&& configs[current_index(configs, selected)] == selected
            &&& forall|j: int| 0 <= j < current_index(configs, selected) ==> configs[j] != selected
        },
        !configs.contains(selected) ==> current_index(configs, selected) == 0,
        configs.len() > 0 ==> 0 <= current_index(configs, selected) < configs.len(),
{
    lemma_index_from(configs, selected, 0);
}

/// A selection that is no longer on offer is cycled as if the first
/// identifier of the list were selected.
pub proof fn lemma_missing_selection_cycles_from_first(
    configs: Seq<Seq<char>>,
    selected: Seq<char>,
    direction: int,
)
    requires
        configs.len() > 0,
        !configs.contains(selected),
    ensures
        cycled(configs, selected, direction) == configs[wrapped_index(
            0,
            direction,
            configs.len() as int,
        )],
        cycled(configs, selected, direction) == cycled(configs, configs[0], direction),
{
    lemma_current_index(configs, selected);
    lemma_current_index(configs, configs[0]);
}

/// The selection after it has been cycled `times` times by `direction`
/// places, starting from `selected`.
pub open spec fn cycled_times(
    configs: Seq<Seq<char>>,
    selected: Seq<char>,
    direction: int,
    times: nat,
) -> Seq<char>
    decreases times,
{
    if times == 0 {
        selected
    } else {
        cycled(configs, cycled_times(configs, selected, direction, (times - 1) as nat), direction)
    }
}

proof fn lemma_cycled_times(configs: Seq<Seq<char>>, start: int, direction: int, times: nat)
    requires
        configs.no_duplicates(),
        0 <= start < configs.len(),
    ensures
        0 <= wrapped_index_after(start, direction, configs.len() as int, times) < configs.len(),
        cycled_times(configs, configs[start], direction, times) == configs[wrapped_index_after(
            start,
            direction,
            configs.len() as int,
            times,
        )],
    decreases times,
{
    if times > 0 {
        let before = (times - 1) as nat;
        lemma_cycled_times(configs, start, direction, before);
        let reached = wrapped_index_after(start, direction, configs.len() as int, before);
        lemma_current_index(configs, configs[reached]);
        assert(current_index(configs, configs[reached]) == reached);
        vstd::arithmetic::div_mod::lemma_mod_bound(reached + direction, configs.len() as int);
    }
}

/// Cycling forward goes once through the whole working set: where no
/// identifier occurs twice, as many steps forward as there are
/// configurations lead from any of them back to it, fewer steps (but at
/// least one) lead to another, and as many steps backward lead back too.
pub proof fn lemma_cycling_is_a_full_cycle(configs: Seq<Seq<char>>, start: int, times: nat)
    requires
        configs.no_duplicates(),
        0 <= start < configs.len(),
    ensures
        cycled_times(configs, configs[start], 1, configs.len()) == configs[start],
        cycled_times(configs, configs[start], -1, configs.len()) == configs[start],
        0 < times < configs.len() ==> cycled_times(configs, configs[start], 1, times)
            != configs[start],
{
    let count = configs.len() as int;
    lemma_cycled_times(configs, start, 1, configs.len());
    lemma_cycled_times(configs, start, -1, configs.len());
    lemma_cycled_times(configs, start, 1, times);
    lemma_forward_cycle_is_full(start, count, times);
    crate::cycle::lemma_backward_cycle_returns(start, count);
}

/// Finds the place of the selection in the working set.
pub fn selected_index(configs: &Vec<String>, selected: &str) -> (index: usize)
    ensures
        index == current_index(configs.deep_view(), selected@),
        configs.len() > 0 ==> index < configs.len(),
{
    let wanted = selected.to_owned();
    let ghost items = configs.deep_view();
    let mut index: usize = 0;
    while index < configs.len()
        invariant
            index <= configs.len(),
            items == configs.deep_view(),
            wanted@ == selected@,
            index_from(items, selected@, 0) == index_from(items, selected@, index as int),
        decreases configs.len() - index,
    {
        assert(items[index as int] == configs[index as int]@);
        if configs[index] == wanted {
            return index;
        }
        index = index + 1;
    }
    0
}

/// Moves the selection by `direction` places through the working set,
/// wrapping around at both ends.  Returns the identifier that it lands on, or
/// `None` when there is no configuration to select.
pub fn cycle_selection(configs: &Vec<String>, selected: &str, direction: i32) -> (next: Option<
    String,
>)
    ensures
        next is None <==> configs.len() == 0,
        next matches Some(identifier) ==> identifier@ == cycled(
            configs.deep_view(),
            selected@,
            direction as int,
        ),
{
    if configs.len() == 0 {
        return None;
    }
    let current = selected_index(configs, selected);
    let target = next_index(current, direction, configs.len());
    assert(configs.deep_view()[target as int] == configs[target as int]@);
    Some(configs[target].clone())
}

/// Builds the path of the configuration file that `identifier` names in the
/// directory `dir`.
pub fn config_path(dir: &str, identifier: &str) -> (path: String)
    ensures
        path@ == config_path_of(dir@, identifier@),
{
    let mut path = dir.to_owned();
    path.append("/");
    path.append(identifier);
    path.append(".conf");
    path
}

} // verus!
