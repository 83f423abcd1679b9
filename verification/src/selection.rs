//! The instruments of a run: those that are wanted, in the order of their
//! symbols.

use vstd::prelude::*;
use crate::model::Stock;
use crate::model::StockModel;
use crate::text::chars_of;

verus! {

/// How the texts `a` and `b` stand to each other at the index `i`, where
/// they agree before it: whether `a` ends there and `b` goes on, or `a` has
/// the lesser character there.
pub open spec fn lesser_at(a: Seq<char>, b: Seq<char>, i: int) -> bool {
    if i == a.len() {
        i < b.len()
    } else {
        i < b.len() && a[i] < b[i]
    }
}

/// Whether `a` comes before `b` in the order of the dictionary, character by
/// character: the order of `String`.
pub open spec fn precedes(a: Seq<char>, b: Seq<char>) -> bool {
    exists|i: int| 0 <= i <= a.len() && i <= b.len() && a.take(i) == b.take(i) && lesser_at(a, b, i)
}

/// Whether `i` is an index up to which `a` and `b` agree and at which they
/// part: one of them ends there, or their characters differ.
pub open spec fn part_at(a: Seq<char>, b: Seq<char>, i: int) -> bool {
    &&& 0 <= i <= a.len()
    &&& i <= b.len()
    &&& a.take(i) == b.take(i)
    &&& (i == a.len() || i == b.len() || a[i] != b[i])
}

/// Where two texts part, the place decides which of them comes first.
pub proof fn lemma_precedes_decided(a: Seq<char>, b: Seq<char>, i: int)
    requires
        part_at(a, b, i),
    ensures
        precedes(a, b) == lesser_at(a, b, i),
        precedes(b, a) == lesser_at(b, a, i),
        !lesser_at(a, b, i) && !lesser_at(b, a, i) ==> a == b,
{
    if precedes(a, b) {
        let j = choose|j: int|
            0 <= j <= a.len() && j <= b.len() && a.take(j) == b.take(j) && lesser_at(a, b, j);
        if j < i {
            assert(a.take(i)[j] == b.take(i)[j]);
        } else if j > i {
            assert(a.take(j)[i] == b.take(j)[i]);
        }
    }
    if precedes(b, a) {
        let j = choose|j: int|
            0 <= j <= b.len() && j <= a.len() && b.take(j) == a.take(j) && lesser_at(b, a, j);
        if j < i {
            assert(a.take(i)[j] == b.take(i)[j]);
        } else if j > i {
            assert(a.take(j)[i] == b.take(j)[i]);
        }
    }
    if !lesser_at(a, b, i) && !lesser_at(b, a, i) {
        assert(b.take(i) =~= b);
    }
}

/// Any two texts part somewhere.
pub proof fn lemma_texts_part(a: Seq<char>, b: Seq<char>, from: int) -> (i: int)
    requires
        0 <= from <= a.len(),
        from <= b.len(),
        a.take(from) == b.take(from),
    ensures
        part_at(a, b, i),
    decreases a.len() - from,
{
    if from == a.len() || from == b.len() || a[from] != b[from] {
        from
    } else {
        assert(a.take(from + 1) =~= a.take(from).push(a[from]));
        assert(b.take(from + 1) =~= b.take(from).push(b[from]));
        lemma_texts_part(a, b, from + 1)
    }
}

/// Of two texts one comes before the other, or they are the same.
pub proof fn lemma_precedes_total(a: Seq<char>, b: Seq<char>)
    ensures
        precedes(a, b) || precedes(b, a) || a == b,
        !(precedes(a, b) && precedes(b, a)),
        !precedes(a, a),
{
    assert(a.take(0) =~= b.take(0));
    let i = lemma_texts_part(a, b, 0);
    lemma_precedes_decided(a, b, i);
    lemma_precedes_decided(a, a, a.len() as int);
}

/// What comes before a text comes before all that the text comes before.
pub proof fn lemma_precedes_transitive(a: Seq<char>, b: Seq<char>, c: Seq<char>)
    requires
        precedes(a, b),
        precedes(b, c),
    ensures
        precedes(a, c),
{
    let i = choose|i: int|
        0 <= i <= a.len() && i <= b.len() && a.take(i) == b.take(i) && lesser_at(a, b, i);
    let j = choose|j: int|
        0 <= j <= b.len() && j <= c.len() && b.take(j) == c.take(j) && lesser_at(b, c, j);
    if i < j {
        assert(a.take(i) =~= c.take(i)) by {
            assert forall|k: int| 0 <= k < i implies a.take(i)[k] == c.take(i)[k] by {
                assert(a.take(i)[k] == b.take(i)[k]);
                assert(b.take(j)[k] == c.take(j)[k]);
            }
        }
        assert(b.take(j)[i] == c.take(j)[i]);
    } else {
        assert(a.take(j) =~= c.take(j)) by {
            assert forall|k: int| 0 <= k < j implies a.take(j)[k] == c.take(j)[k] by {
                assert(a.take(i)[k] == b.take(i)[k]);
                assert(b.take(j)[k] == c.take(j)[k]);
            }
        }
        if j < i {
            assert(a.take(i)[j] == b.take(i)[j]);
        }
    }
}

/// Whether `a` comes before `b` in the order of the dictionary.
pub fn chars_precede(a: &[char], b: &[char]) -> (r: bool)
    ensures
        r == precedes(a@, b@),
{
    let mut i: usize = 0;
    while i < a.len() && i < b.len() && a[i] == b[i]
        invariant
            i <= a@.len(),
            i <= b@.len(),
            a@.take(i as int) == b@.take(i as int),
        decreases a@.len() - i,
    {
        i += 1;
    }
    proof {
        lemma_precedes_decided(a@, b@, i as int);
    }
    if i == a.len() {
        i < b.len()
    } else {
        i < b.len() && a[i] < b[i]
    }
}

/// Whether the instrument is wanted: where no symbols are asked for, the
/// enabled instruments are; else those whose symbol is asked for, enabled
/// or not.
pub open spec fn is_selected(stock: StockModel, requested: Seq<Seq<char>>) -> bool {
    if requested.len() == 0 {
        stock.enabled
    } else {
        requested.contains(stock.symbol)
    }
}

/// Whether the instrument at `i` of the table has its place in a run before
/// the one at `j`: it has the lesser symbol, or the same and stands first
/// in the table.
pub open spec fn comes_before(stocks: Seq<StockModel>, i: int, j: int) -> bool {
    precedes(stocks[i].symbol, stocks[j].symbol) || (stocks[i].symbol == stocks[j].symbol && i
        < j)
}

/// Whether `order` lists the places in the table of the wanted instruments,
/// all of them, in the order of a run.
pub open spec fn is_selection(
    order: Seq<int>,
    stocks: Seq<StockModel>,
    requested: Seq<Seq<char>>,
) -> bool {
    &&& forall|k: int|
        0 <= k < order.len() ==> 0 <= (#[trigger] order[k]) < stocks.len() && is_selected(
            stocks[order[k]],
            requested,
        )
    &&& forall|i: int|
        0 <= i < stocks.len() && is_selected(#[trigger] stocks[i], requested) ==> order.contains(i)
    &&& forall|j: int, k: int|
        0 <= j < k < order.len() ==> comes_before(stocks, #[trigger] order[j], #[trigger] order[k])
}

/// The instruments of the table at the places that `order` lists.
pub open spec fn picked(stocks: Seq<StockModel>, order: Seq<int>) -> Seq<StockModel> {
    order.map_values(|i: int| stocks[i])
}

/// Whether the instrument is wanted.
pub fn is_wanted(stock: &Stock, requested: &Vec<String>) -> (r: bool)
    ensures
        r == is_selected(stock@, requested.deep_view()),
{
    if requested.len() == 0 {
        return stock.enabled;
    }
    let mut j: usize = 0;
    while j < requested.len()
        invariant
            j <= requested.len(),
            forall|k: int| 0 <= k < j ==> (#[trigger] requested.deep_view()[k]) != stock.symbol@,
        decreases requested.len() - j,
    {
        if requested[j] == stock.symbol {
            assert(requested.deep_view()[j as int] == stock.symbol@);
            return true;
        }
        j += 1;
    }
    false
}

/// What has its place before an instrument has it before all that come
/// after that instrument.
pub proof fn lemma_comes_before_transitive(stocks: Seq<StockModel>, x: int, y: int, z: int)
    requires
        comes_before(stocks, x, y),
        comes_before(stocks, y, z),
    ensures
        comes_before(stocks, x, z),
{
    if precedes(stocks[x].symbol, stocks[y].symbol) && precedes(
        stocks[y].symbol,
        stocks[z].symbol,
    ) {
        lemma_precedes_transitive(stocks[x].symbol, stocks[y].symbol, stocks[z].symbol);
    }
}

/// In a selection the symbols do not fall from each instrument to the
/// next.
pub proof fn selection_rises(order: Seq<int>, stocks: Seq<StockModel>, requested: Seq<Seq<char>>)
    requires
        is_selection(order, stocks, requested),
    ensures
        forall|j: int, k: int|
            0 <= j < k < order.len() ==> !precedes(
                (#[trigger] picked(stocks, order)[k]).symbol,
                (#[trigger] picked(stocks, order)[j]).symbol,
            ),
{
    assert forall|j: int, k: int| 0 <= j < k < order.len() implies !precedes(
        (#[trigger] picked(stocks, order)[k]).symbol,
        (#[trigger] picked(stocks, order)[j]).symbol,
    ) by {
        lemma_precedes_total(stocks[order[j]].symbol, stocks[order[k]].symbol);
    }
}

/// The places as mathematical integers.
pub open spec fn places(order: Seq<usize>) -> Seq<int> {
    order.map_values(|i: usize| i as int)
}

/// The characters of the symbol of each instrument.
fn symbol_keys(stocks: &Vec<Stock>) -> (keys: Vec<Vec<char>>)
    ensures
        keys@.len() == stocks@.len(),
        forall|k: int| 0 <= k < keys@.len() ==> (#[trigger] keys@[k])@ == stocks.deep_view()[k].symbol,
{
    let mut keys: Vec<Vec<char>> = Vec::new();
    let mut i: usize = 0;
    while i < stocks.len()
        invariant
            i <= stocks.len(),
            keys@.len() == i,
            forall|k: int| 0 <= k < i ==> (#[trigger] keys@[k])@ == stocks.deep_view()[k].symbol,
        decreases stocks.len() - i,
    {
        keys.push(chars_of(stocks[i].symbol.as_str()));
        i += 1;
    }
    keys
}

/// The places in the table of the wanted instruments, in the order of a
/// run.
pub fn selection_order(stocks: &Vec<Stock>, requested: &Vec<String>) -> (order: Vec<usize>)
    ensures
        is_selection(places(order@), stocks.deep_view(), requested.deep_view()),
{
    let keys = symbol_keys(stocks);
    let ghost table = stocks.deep_view();
    let ghost wanted = requested.deep_view();
    let mut order: Vec<usize> = Vec::new();
    let mut i: usize = 0;
    while i < stocks.len()
        invariant
            i <= stocks.len(),
            table == stocks.deep_view(),
            wanted == requested.deep_view(),
            keys@.len() == stocks@.len(),
            forall|k: int| 0 <= k < keys@.len() ==> (#[trigger] keys@[k])@ == table[k].symbol,
            forall|k: int|
                0 <= k < order@.len() ==> (#[trigger] order@[k]) < i && is_selected(
                    table[order@[k] as int],
                    wanted,
                ),
            forall|x: int|
                0 <= x < i && is_selected(#[trigger] table[x], wanted) ==> places(order@).contains(
                    x,
                ),
            forall|j: int, k: int|
                0 <= j < k < order@.len() ==> comes_before(
                    table,
                    (#[trigger] order@[j]) as int,
                    (#[trigger] order@[k]) as int,
                ),
        decreases stocks.len() - i,
    {
        if is_wanted(&stocks[i], requested) {
            let mut p: usize = order.len();
            while p > 0 && chars_precede(keys[i].as_slice(), keys[order[p - 1]].as_slice())
                invariant
                    p <= order@.len(),
                    i < stocks.len(),
                    table == stocks.deep_view(),
                    keys@.len() == stocks@.len(),
                    forall|k: int|
                        0 <= k < keys@.len() ==> (#[trigger] keys@[k])@ == table[k].symbol,
                    forall|k: int| 0 <= k < order@.len() ==> (#[trigger] order@[k]) < i,
                    forall|k: int|
                        p <= k < order@.len() ==> precedes(
                            table[i as int].symbol,
                            table[(#[trigger] order@[k]) as int].symbol,
                        ),
                decreases p,
            {
                p -= 1;
            }
            let ghost before = order@;
            proof {
                assert forall|j: int| 0 <= j < p implies comes_before(
                    table,
                    (#[trigger] before[j]) as int,
                    i as int,
                ) by {
                    let nearest = before[p - 1] as int;
                    lemma_precedes_total(table[i as int].symbol, table[nearest].symbol);
                    if j < p - 1 {
                        lemma_comes_before_transitive(table, before[j] as int, nearest, i as int);
                    }
                }
            }
            order.insert(p, i);
            proof {
                let after = order@;
                assert forall|x: int|
                    0 <= x < i + 1 && is_selected(#[trigger] table[x], wanted) implies places(
                    after,
                ).contains(x) by {
                    if x == i {
                        assert(places(after)[p as int] == x);
                    } else {
                        let k = choose|k: int| 0 <= k < before.len() && places(before)[k] == x;
                        if k < p {
                            assert(places(after)[k] == x);
                        } else {
                            assert(places(after)[k + 1] == x);
                        }
                    }
                }
            }
        }
        i += 1;
    }
    order
}

/// The wanted instruments of the table, in the order of their symbols;
/// those with the same symbol in the order of the table.
pub fn select_stocks(stocks: &Vec<Stock>, requested: &Vec<String>) -> (selected: Vec<Stock>)
    ensures
        exists|order: Seq<int>|
            is_selection(order, stocks.deep_view(), requested.deep_view())
                && selected.deep_view() == picked(stocks.deep_view(), order),
{
    let order = selection_order(stocks, requested);
    let mut selected: Vec<Stock> = Vec::new();
    let mut k: usize = 0;
    while k < order.len()
        invariant
            k <= order.len(),
            is_selection(places(order@), stocks.deep_view(), requested.deep_view()),
            selected.deep_view() == picked(stocks.deep_view(), places(order@).take(k as int)),
        decreases order.len() - k,
    {
        let ghost listed = places(order@);
        assert(listed[k as int] == order@[k as int] as int);
        let stock = stocks[order[k]].duplicate();
        selected.push(stock);
        assert(picked(stocks.deep_view(), listed.take(k + 1)) =~= picked(
            stocks.deep_view(),
            listed.take(k as int),
        ).push(stock@));
        k += 1;
    }
    assert(places(order@).take(k as int) =~= places(order@));
    selected
}

} // verus!
