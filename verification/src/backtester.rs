use vstd::prelude::*;

use crate::data::Symbol;

verus! {

/// The symbols of a sequence of trade fills, as text.
pub open spec fn symbol_texts(symbols: Seq<Symbol>) -> Seq<Seq<char>> {
    symbols.map_values(|s: Symbol| s@)
}

/// `groups` partitions the fills `0..n` of `symbols` by symbol:
/// every group is non-empty, names one symbol that no other group names,
/// and lists, in increasing order, exactly the fills of that symbol; the
/// groups stand in the order in which their symbols first occur.
pub open spec fn is_grouping(
    symbols: Seq<Seq<char>>,
    n: int,
    groups: Seq<(Seq<char>, Seq<usize>)>,
) -> bool {
    // every listed fill is one of the first `n` and carries the group's symbol
    &&& forall|g: int, k: int|
        0 <= g < groups.len() && 0 <= k < groups[g].1.len() ==> {
            &&& (#[trigger] groups[g].1[k]) < n
            &&& symbols[groups[g].1[k] as int] == groups[g].0
        }
    // fills keep their order inside a group
    &&& forall|g: int, a: int, b: int|
        0 <= g < groups.len() && 0 <= a < b < groups[g].1.len() ==> #[trigger] groups[g].1[a]
            < #[trigger] groups[g].1[b]
    // no group is empty
    &&& forall|g: int| 0 <= g < groups.len() ==> (#[trigger] groups[g]).1.len() > 0
    // no two groups share a symbol
    &&& forall|g: int, h: int|
        0 <= g < h < groups.len() ==> (#[trigger] groups[g]).0 != (#[trigger] groups[h]).0
    // groups come in the order of their symbols' first fills
    &&& forall|g: int, h: int|
        0 <= g < h < groups.len() ==> (#[trigger] groups[g]).1[0] < (#[trigger] groups[h]).1[0]
    // every fill is listed in the group of its symbol
    &&& forall|i: int| 0 <= i < n ==> #[trigger] is_listed(symbols, groups, i)
}

/// Fill `i` is listed in a group that carries its symbol.
pub open spec fn is_listed(
    symbols: Seq<Seq<char>>,
    groups: Seq<(Seq<char>, Seq<usize>)>,
    i: int,
) -> bool {
    exists|g: int|
        0 <= g < groups.len() && groups[g].0 == symbols[i] && (#[trigger] groups[g].1.contains(
            i as usize,
        ))
}

/// The view of a grouping: each group's symbol as text and its fill indices.
pub open spec fn groups_view(groups: Seq<(Symbol, Vec<usize>)>) -> Seq<(Seq<char>, Seq<usize>)> {
    groups.map_values(|p: (Symbol, Vec<usize>)| (p.0@, p.1@))
}

/// In a grouping every fill is listed once only: two entries that name the
/// same fill are the same entry of the same group.
pub proof fn grouping_lists_each_fill_once(
    symbols: Seq<Seq<char>>,
    n: int,
    groups: Seq<(Seq<char>, Seq<usize>)>,
    g: int,
    k: int,
    h: int,
    m: int,
)
    requires
        is_grouping(symbols, n, groups),
        0 <= g < groups.len(),
        0 <= k < groups[g].1.len(),
        0 <= h < groups.len(),
        0 <= m < groups[h].1.len(),
        groups[g].1[k] == groups[h].1[m],
    ensures
        g == h,
        k == m,
{
    assert(symbols[groups[g].1[k] as int] == groups[g].0);
    assert(symbols[groups[h].1[m] as int] == groups[h].0);
    if g < h {
        assert(groups[g].0 != groups[h].0);
    } else if h < g {
        assert(groups[h].0 != groups[g].0);
    }
    if k < m {
        assert(groups[g].1[k] < groups[g].1[m]);
    } else if m < k {
        assert(groups[g].1[m] < groups[g].1[k]);
    }
}

/// Adding fill `i` to the existing group `g` of its symbol keeps a grouping.
proof fn lemma_join_group(
    symbols: Seq<Seq<char>>,
    i: int,
    before: Seq<(Seq<char>, Seq<usize>)>,
    g: int,
)
    requires
        0 <= i < symbols.len(),
        i < usize::MAX,
        is_grouping(symbols, i, before),
        0 <= g < before.len(),
        before[g].0 == symbols[i],
    ensures
        is_grouping(
            symbols,
            i + 1,
            before.update(g, (before[g].0, before[g].1.push(i as usize))),
        ),
{
    let after = before.update(g, (before[g].0, before[g].1.push(i as usize)));
    assert forall|h: int, k: int| 0 <= h < after.len() && 0 <= k < after[h].1.len() implies {
        &&& (#[trigger] after[h].1[k]) < i + 1
        &&& symbols[after[h].1[k] as int] == after[h].0
    } by {
        if h == g && k == before[g].1.len() {
        } else {
            assert(after[h].1[k] == before[h].1[k]);
        }
    }
    assert forall|h: int, a: int, b: int|
        0 <= h < after.len() && 0 <= a < b < after[h].1.len() implies #[trigger] after[h].1[a]
        < #[trigger] after[h].1[b] by {
        if h == g && b == before[g].1.len() {
            assert(after[h].1[a] == before[h].1[a]);
            assert(before[h].1[a] < i);
        } else {
            assert(after[h].1[a] == before[h].1[a]);
            assert(after[h].1[b] == before[h].1[b]);
        }
    }
    assert forall|h: int, m: int| 0 <= h < m < after.len() implies (#[trigger] after[h]).1[0]
        < (#[trigger] after[m]).1[0] by {
        assert(after[h].1[0] == before[h].1[0]);
        assert(after[m].1[0] == before[m].1[0]);
    }
    assert forall|j: int| 0 <= j < i + 1 implies #[trigger] is_listed(symbols, after, j) by {
        if j == i {
            assert(after[g].1[before[g].1.len() as int] == i as usize);
            assert(after[g].1.contains(j as usize));
        } else {
            assert(is_listed(symbols, before, j));
            let h = choose|h: int|
                0 <= h < before.len() && before[h].0 == symbols[j] && (#[trigger] before[h].1.contains(
                    j as usize,
                ));
            let k = choose|k: int| 0 <= k < before[h].1.len() && before[h].1[k] == j as usize;
            assert(after[h].1[k] == j as usize);
            assert(after[h].1.contains(j as usize));
        }
    }
}

/// Opening a new group for fill `i`, whose symbol has no group yet, keeps a grouping.
proof fn lemma_open_group(symbols: Seq<Seq<char>>, i: int, before: Seq<(Seq<char>, Seq<usize>)>)
    requires
        0 <= i < symbols.len(),
        i < usize::MAX,
        is_grouping(symbols, i, before),
        forall|g: int| 0 <= g < before.len() ==> (#[trigger] before[g]).0 != symbols[i],
    ensures
        is_grouping(symbols, i + 1, before.push((symbols[i], seq![i as usize]))),
{
    let after = before.push((symbols[i], seq![i as usize]));
    let last = before.len() as int;
    assert forall|h: int, k: int| 0 <= h < after.len() && 0 <= k < after[h].1.len() implies {
        &&& (#[trigger] after[h].1[k]) < i + 1
        &&& symbols[after[h].1[k] as int] == after[h].0
    } by {
        if h < last {
            assert(after[h] == before[h]);
        }
    }
    assert forall|h: int, a: int, b: int|
        0 <= h < after.len() && 0 <= a < b < after[h].1.len() implies #[trigger] after[h].1[a]
        < #[trigger] after[h].1[b] by {
        assert(after[h] == before[h]);
    }
    assert forall|h: int| 0 <= h < after.len() implies (#[trigger] after[h]).1.len() > 0 by {
        if h < last {
            assert(after[h] == before[h]);
        }
    }
    assert forall|h: int, m: int| 0 <= h < m < after.len() implies (#[trigger] after[h]).0
        != (#[trigger] after[m]).0 by {
        assert(after[h] == before[h]);
        if m < last {
            assert(after[m] == before[m]);
        }
    }
    assert forall|h: int, m: int| 0 <= h < m < after.len() implies (#[trigger] after[h]).1[0]
        < (#[trigger] after[m]).1[0] by {
        assert(after[h] == before[h]);
        assert(before[h].1[0] < i);
        if m < last {
            assert(after[m] == before[m]);
        }
    }
    assert forall|j: int| 0 <= j < i + 1 implies #[trigger] is_listed(symbols, after, j) by {
        if j == i {
            assert(after[last].1[0] == i as usize);
            assert(after[last].1.contains(j as usize));
        } else {
            assert(is_listed(symbols, before, j));
            let h = choose|h: int|
                0 <= h < before.len() && before[h].0 == symbols[j] && (#[trigger] before[h].1.contains(
                    j as usize,
                ));
            assert(after[h] == before[h]);
            assert(after[h].1.contains(j as usize));
        }
    }
}

/// Finds the group, if any, whose symbol is `symbol`.
fn find_group(groups: &Vec<(Symbol, Vec<usize>)>, symbol: &Symbol) -> (r: Option<usize>)
    ensures
        match r {
            Some(g) => g < groups.len() && groups@[g as int].0@ == symbol@,
            None => forall|g: int| 0 <= g < groups.len() ==> (#[trigger] groups@[g]).0@ != symbol@,
        },
{
    let mut g: usize = 0;
    while g < groups.len()
        invariant
            g <= groups.len(),
            forall|h: int| 0 <= h < g ==> (#[trigger] groups@[h]).0@ != symbol@,
        decreases groups.len() - g,
    {
        if groups[g].0 == *symbol {
            return Some(g);
        }
        g = g + 1;
    }
    None
}

/// Groups trade fills by symbol: for each symbol that occurs, in the order of
/// first occurrence, the indices of its fills in `symbols`, in order. Profit
/// and loss is reckoned per symbol over these groups, since the position and
/// average cost of one symbol never depend on the fills of another.
pub fn group_by_symbol(symbols: &Vec<Symbol>) -> (groups: Vec<(Symbol, Vec<usize>)>)
    ensures
        is_grouping(symbol_texts(symbols@), symbols@.len() as int, groups_view(groups@)),
{
    let ghost texts = symbol_texts(symbols@);
    let mut groups: Vec<(Symbol, Vec<usize>)> = Vec::new();
    let mut i: usize = 0;
    while i < symbols.len()
        invariant
            i <= symbols.len(),
            texts == symbol_texts(symbols@),
            is_grouping(texts, i as int, groups_view(groups@)),
        decreases symbols.len() - i,
    {
        let ghost before = groups_view(groups@);
        match find_group(&groups, &symbols[i]) {
            Some(g) => {
                let mut members: Vec<usize> = Vec::new();
                std::mem::swap(&mut members, &mut groups[g].1);
                members.push(i);
                std::mem::swap(&mut members, &mut groups[g].1);
                assert(groups_view(groups@) == before.update(
                    g as int,
                    (before[g as int].0, before[g as int].1.push(i)),
                ));
                proof {
                    lemma_join_group(texts, i as int, before, g as int);
                }
            }
            None => {
                let mut members: Vec<usize> = Vec::new();
                members.push(i);
                groups.push((symbols[i].duplicate(), members));
                assert(groups_view(groups@) == before.push((texts[i as int], seq![i])));
                proof {
                    lemma_open_group(texts, i as int, before);
                }
            }
        }
        i = i + 1;
    }
    groups
}

} // verus!
