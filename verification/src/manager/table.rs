//! Tables of rows: finding, counting, changing and removing rows.

use vstd::prelude::*;

verus! {

/// A row with a sixteen-byte identifier.
pub trait Identified: Sized {
    spec fn ident(&self) -> [u8; 16];

    fn is(&self, id: &[u8; 16]) -> (same: bool)
        ensures
            same == (self.ident() == *id),
    ;
}

/// A row with a number.
pub trait Numbered: Sized {
    spec fn num(&self) -> i64;

    fn number(&self) -> (number: i64)
        ensures
            number == self.num(),
    ;
}

/// The index of the first row from `from` on with the identifier.
pub open spec fn place_from<T: Identified>(rows: Seq<T>, id: [u8; 16], from: int) -> Option<int>
    decreases rows.len() - from,
{
    if from < 0 || from >= rows.len() {
        None
    } else if rows[from].ident() == id {
        Some(from)
    } else {
        place_from(rows, id, from + 1)
    }
}

/// The index of the row with the identifier.
pub open spec fn place<T: Identified>(rows: Seq<T>, id: [u8; 16]) -> Option<int> {
    place_from(rows, id, 0)
}

/// The row with the identifier.
pub open spec fn row<T: Identified>(rows: Seq<T>, id: [u8; 16]) -> Option<T> {
    match place(rows, id) {
        Some(at) => Some(rows[at]),
        None => None,
    }
}

/// The index of the first row from `from` on with the number.
pub open spec fn slot_from<T: Numbered>(rows: Seq<T>, number: i64, from: int) -> Option<int>
    decreases rows.len() - from,
{
    if from < 0 || from >= rows.len() {
        None
    } else if rows[from].num() == number {
        Some(from)
    } else {
        slot_from(rows, number, from + 1)
    }
}

/// The index of the row with the number.
pub open spec fn slot<T: Numbered>(rows: Seq<T>, number: i64) -> Option<int> {
    slot_from(rows, number, 0)
}

/// The row with the number.
pub open spec fn numbered<T: Numbered>(rows: Seq<T>, number: i64) -> Option<T> {
    match slot(rows, number) {
        Some(at) => Some(rows[at]),
        None => None,
    }
}

/// The largest number of the first `n` rows, or zero.
pub open spec fn largest_before<T: Numbered>(rows: Seq<T>, n: int) -> i64
    decreases n,
{
    if n <= 0 {
        0
    } else if rows[n - 1].num() > largest_before(rows, n - 1) {
        rows[n - 1].num()
    } else {
        largest_before(rows, n - 1)
    }
}

/// The number of the next row: one more than the largest, unless that is the
/// largest there is.
pub open spec fn fresh<T: Numbered>(rows: Seq<T>) -> Option<i64> {
    let largest = largest_before(rows, rows.len() as int);
    if largest == i64::MAX {
        None
    } else {
        Some((largest + 1) as i64)
    }
}

/// The index of the first row from `from` on that `picks` picks.
pub open spec fn first_from<T>(rows: Seq<T>, picks: spec_fn(T) -> bool, from: int) -> Option<int>
    decreases rows.len() - from,
{
    if from < 0 || from >= rows.len() {
        None
    } else if picks(rows[from]) {
        Some(from)
    } else {
        first_from(rows, picks, from + 1)
    }
}

/// The index of the first row that `picks` picks.
pub open spec fn first<T>(rows: Seq<T>, picks: spec_fn(T) -> bool) -> Option<int> {
    first_from(rows, picks, 0)
}

pub proof fn lemma_first<T>(rows: Seq<T>, picks: spec_fn(T) -> bool, from: int)
    requires
        0 <= from,
    ensures
        match first_from(rows, picks, from) {
            Some(at) => from <= at < rows.len() && picks(rows[at]) && forall|i: int|
                from <= i < at ==> !picks(#[trigger] rows[i]),
            None => forall|i: int| from <= i < rows.len() ==> !picks(#[trigger] rows[i]),
        },
    decreases rows.len() - from,
{
    if from < rows.len() {
        lemma_first(rows, picks, from + 1);
    }
}

/// Whether `picks` picks some row.
pub open spec fn some<T>(rows: Seq<T>, picks: spec_fn(T) -> bool) -> bool {
    exists|i: int| 0 <= i < rows.len() && picks(#[trigger] rows[i])
}

/// How many rows `picks` picks.
pub open spec fn tally<T>(rows: Seq<T>, picks: spec_fn(T) -> bool) -> nat {
    rows.filter(picks).len()
}

/// The rows that `picks` does not pick.
pub open spec fn removing<T>(rows: Seq<T>, picks: spec_fn(T) -> bool) -> Seq<T> {
    rows.filter(|row: T| !picks(row))
}

/// The rows, each replaced by its image.
pub open spec fn changing<T>(rows: Seq<T>, image: spec_fn(T) -> T) -> Seq<T> {
    rows.map_values(image)
}

/// What the rows give, in order, where they give anything.
pub open spec fn gathered<T, U>(rows: Seq<T>, image: spec_fn(T) -> Option<U>) -> Seq<U>
    decreases rows.len(),
{
    if rows.len() == 0 {
        Seq::empty()
    } else {
        match image(rows.last()) {
            Some(item) => gathered(rows.drop_last(), image).push(item),
            None => gathered(rows.drop_last(), image),
        }
    }
}

/// The place of an identifier is that of a row with it; without one, no row has
/// it.
pub proof fn lemma_place<T: Identified>(rows: Seq<T>, id: [u8; 16], from: int)
    requires
        0 <= from,
    ensures
        match place_from(rows, id, from) {
            Some(at) => from <= at < rows.len() && rows[at].ident() == id,
            None => forall|i: int| from <= i < rows.len() ==> (#[trigger] rows[i]).ident() != id,
        },
    decreases rows.len() - from,
{
    if from < rows.len() && rows[from].ident() != id {
        lemma_place(rows, id, from + 1);
    }
}

/// The slot of a number is that of a row with it; without one, no row has it.
pub proof fn lemma_slot<T: Numbered>(rows: Seq<T>, number: i64, from: int)
    requires
        0 <= from,
    ensures
        match slot_from(rows, number, from) {
            Some(at) => from <= at < rows.len() && rows[at].num() == number,
            None => forall|i: int| from <= i < rows.len() ==> (#[trigger] rows[i]).num() != number,
        },
    decreases rows.len() - from,
{
    if from < rows.len() && rows[from].num() != number {
        lemma_slot(rows, number, from + 1);
    }
}

/// Finds the row with the identifier.
pub fn find<T: Identified>(rows: &Vec<T>, id: &[u8; 16]) -> (at: Option<usize>)
    ensures
        match at {
            Some(at) => place(rows@, *id) == Some(at as int) && at < rows@.len()
                && rows@[at as int].ident() == *id && row(rows@, *id) == Some(rows@[at as int]),
            None => place(rows@, *id) is None && row(rows@, *id) is None && forall|i: int|
                0 <= i < rows@.len() ==> (#[trigger] rows@[i]).ident() != *id,
        },
{
    let mut at: usize = 0;
    while at < rows.len()
        invariant
            at <= rows.len(),
            place(rows@, *id) == place_from(rows@, *id, at as int),
        decreases rows.len() - at,
    {
        if rows[at].is(id) {
            return Some(at);
        }
        at += 1;
    }
    proof {
        lemma_place(rows@, *id, 0);
    }
    None
}

/// Finds the row with the number.
pub fn find_number<T: Numbered>(rows: &Vec<T>, number: i64) -> (at: Option<usize>)
    ensures
        match at {
            Some(at) => slot(rows@, number) == Some(at as int) && at < rows@.len()
                && rows@[at as int].num() == number && numbered(rows@, number) == Some(
                rows@[at as int],
            ),
            None => slot(rows@, number) is None && numbered(rows@, number) is None && forall|i: int|
                0 <= i < rows@.len() ==> (#[trigger] rows@[i]).num() != number,
        },
{
    let mut at: usize = 0;
    while at < rows.len()
        invariant
            at <= rows.len(),
            slot(rows@, number) == slot_from(rows@, number, at as int),
        decreases rows.len() - at,
    {
        if rows[at].number() == number {
            return Some(at);
        }
        at += 1;
    }
    proof {
        lemma_slot(rows@, number, 0);
    }
    None
}

/// The number of the next row.
pub fn next_number<T: Numbered>(rows: &Vec<T>) -> (number: Option<i64>)
    ensures
        number == fresh(rows@),
        number matches Some(number) ==> number > 0 && forall|i: int|
            0 <= i < rows@.len() ==> (#[trigger] rows@[i]).num() < number,
{
    let mut largest: i64 = 0;
    let mut at: usize = 0;
    while at < rows.len()
        invariant
            at <= rows.len(),
            largest >= 0,
            largest == largest_before(rows@, at as int),
            forall|i: int| 0 <= i < at ==> (#[trigger] rows@[i]).num() <= largest,
        decreases rows.len() - at,
    {
        let number: i64 = rows[at].number();
        if number > largest {
            largest = number;
        }
        at += 1;
    }
    if largest == i64::MAX {
        None
    } else {
        Some(largest + 1)
    }
}

/// Finds the first row that the test picks.
pub fn find_first<T, F: Fn(&T) -> bool>(
    rows: &Vec<T>,
    test: F,
    Ghost(picks): Ghost<spec_fn(T) -> bool>,
) -> (at: Option<usize>)
    requires
        forall|row: T| #[trigger] test.requires((&row,)),
        forall|row: T, picked: bool| #[trigger]
            test.ensures((&row,), picked) ==> picked == picks(row),
    ensures
        match at {
            Some(at) => first(rows@, picks) == Some(at as int) && at < rows@.len() && picks(
                rows@[at as int],
            ) && some(rows@, picks),
            None => first(rows@, picks) is None && !some(rows@, picks),
        },
{
    let mut at: usize = 0;
    while at < rows.len()
        invariant
            at <= rows.len(),
            forall|row: T| #[trigger] test.requires((&row,)),
            forall|row: T, picked: bool| #[trigger]
                test.ensures((&row,), picked) ==> picked == picks(row),
            first(rows@, picks) == first_from(rows@, picks, at as int),
            forall|i: int| 0 <= i < at ==> !picks(#[trigger] rows@[i]),
        decreases rows.len() - at,
    {
        if test(&rows[at]) {
            return Some(at);
        }
        at += 1;
    }
    None
}

/// Whether the test picks some row.
pub fn any<T, F: Fn(&T) -> bool>(
    rows: &Vec<T>,
    test: F,
    Ghost(picks): Ghost<spec_fn(T) -> bool>,
) -> (found: bool)
    requires
        forall|row: T| #[trigger] test.requires((&row,)),
        forall|row: T, picked: bool| #[trigger]
            test.ensures((&row,), picked) ==> picked == picks(row),
    ensures
        found == some(rows@, picks),
{
    find_first(rows, test, Ghost(picks)).is_some()
}

/// Counts the rows that the test picks.
pub fn count<T, F: Fn(&T) -> bool>(
    rows: &Vec<T>,
    test: F,
    Ghost(picks): Ghost<spec_fn(T) -> bool>,
) -> (number: usize)
    requires
        forall|row: T| #[trigger] test.requires((&row,)),
        forall|row: T, picked: bool| #[trigger]
            test.ensures((&row,), picked) ==> picked == picks(row),
    ensures
        number == tally(rows@, picks),
        number <= rows@.len(),
{
    let mut number: usize = 0;
    let mut at: usize = 0;
    proof {
        reveal(Seq::filter);
    }
    while at < rows.len()
        invariant
            at <= rows.len(),
            number <= at,
            forall|row: T| #[trigger] test.requires((&row,)),
            forall|row: T, picked: bool| #[trigger]
                test.ensures((&row,), picked) ==> picked == picks(row),
            number == tally(rows@.take(at as int), picks),
        decreases rows.len() - at,
    {
        proof {
            reveal(Seq::filter);
            assert(rows@.take(at + 1).drop_last() =~= rows@.take(at as int));
            assert(rows@.take(at + 1).last() == rows@[at as int]);
        }
        if test(&rows[at]) {
            number += 1;
        }
        at += 1;
    }
    assert(rows@.take(at as int) =~= rows@);
    number
}

/// Gathers what the rows give.
pub fn gather<T, U, F: Fn(&T) -> Option<U>>(
    rows: &Vec<T>,
    give: F,
    Ghost(image): Ghost<spec_fn(T) -> Option<U>>,
) -> (items: Vec<U>)
    requires
        forall|row: T| #[trigger] give.requires((&row,)),
        forall|row: T, item: Option<U>| #[trigger]
            give.ensures((&row,), item) ==> item == image(row),
    ensures
        items@ == gathered(rows@, image),
{
    let mut items: Vec<U> = Vec::new();
    let mut at: usize = 0;
    while at < rows.len()
        invariant
            at <= rows.len(),
            forall|row: T| #[trigger] give.requires((&row,)),
            forall|row: T, item: Option<U>| #[trigger]
                give.ensures((&row,), item) ==> item == image(row),
            items@ == gathered(rows@.take(at as int), image),
        decreases rows.len() - at,
    {
        proof {
            assert(rows@.take(at + 1).drop_last() =~= rows@.take(at as int));
            assert(rows@.take(at + 1).last() == rows@[at as int]);
        }
        match give(&rows[at]) {
            Some(item) => {
                items.push(item);
            },
            None => {},
        }
        at += 1;
    }
    assert(rows@.take(at as int) =~= rows@);
    items
}

/// Removes the rows that the test picks.
pub fn remove<T, F: Fn(&T) -> bool>(
    rows: &mut Vec<T>,
    test: F,
    Ghost(picks): Ghost<spec_fn(T) -> bool>,
)
    requires
        forall|row: T| #[trigger] test.requires((&row,)),
        forall|row: T, picked: bool| #[trigger]
            test.ensures((&row,), picked) ==> picked == picks(row),
    ensures
        final(rows)@ == removing(old(rows)@, picks),
{
    let ghost before = rows@;
    let ghost keep = |row: T| !picks(row);
    let ghost mut seen: int = 0;
    let mut at: usize = 0;
    proof {
        assert(before.take(0).filter(keep) =~= Seq::<T>::empty()) by {
            reveal(Seq::filter);
        }
        assert(rows@ =~= before.take(0).filter(keep) + before.skip(0));
    }
    while at < rows.len()
        invariant
            0 <= seen <= before.len(),
            forall|row: T| #[trigger] test.requires((&row,)),
            forall|row: T, picked: bool| #[trigger]
                test.ensures((&row,), picked) ==> picked == picks(row),
            keep == (|row: T| !picks(row)),
            at == before.take(seen).filter(keep).len(),
            rows@ == before.take(seen).filter(keep) + before.skip(seen),
        decreases rows.len() - at,
    {
        let ghost kept = before.take(seen).filter(keep);
        proof {
            let next = before.take(seen + 1);
            assert(rows@[at as int] == before[seen]);
            assert(next.drop_last() =~= before.take(seen));
            assert(next.last() == before[seen]);
            assert(next.filter(keep) =~= if keep(before[seen]) {
                kept.push(before[seen])
            } else {
                kept
            }) by {
                reveal(Seq::filter);
            }
            assert(before.skip(seen) =~= seq![before[seen]] + before.skip(seen + 1));
        }
        if test(&rows[at]) {
            rows.remove(at);
            assert(rows@ =~= kept + before.skip(seen + 1));
        } else {
            at += 1;
            assert(rows@ =~= kept.push(before[seen]) + before.skip(seen + 1));
        }
        proof {
            seen = seen + 1;
        }
    }
    assert(before.take(seen) =~= before);
    assert(rows@ =~= before.filter(keep));
}

/// Takes the rows that the test picks out.
pub fn take<T, F: Fn(&T) -> bool>(
    rows: &mut Vec<T>,
    test: F,
    Ghost(picks): Ghost<spec_fn(T) -> bool>,
) -> (taken: Vec<T>)
    requires
        forall|row: T| #[trigger] test.requires((&row,)),
        forall|row: T, picked: bool| #[trigger]
            test.ensures((&row,), picked) ==> picked == picks(row),
    ensures
        final(rows)@ == removing(old(rows)@, picks),
        taken@ == old(rows)@.filter(picks),
{
    let ghost before = rows@;
    let ghost keep = |row: T| !picks(row);
    let ghost mut seen: int = 0;
    let mut taken: Vec<T> = Vec::new();
    let mut at: usize = 0;
    proof {
        assert(before.take(0).filter(keep) =~= Seq::<T>::empty()) by {
            reveal(Seq::filter);
        }
        assert(before.take(0).filter(picks) =~= Seq::<T>::empty()) by {
            reveal(Seq::filter);
        }
        assert(rows@ =~= before.take(0).filter(keep) + before.skip(0));
    }
    while at < rows.len()
        invariant
            0 <= seen <= before.len(),
            forall|row: T| #[trigger] test.requires((&row,)),
            forall|row: T, picked: bool| #[trigger]
                test.ensures((&row,), picked) ==> picked == picks(row),
            keep == (|row: T| !picks(row)),
            at == before.take(seen).filter(keep).len(),
            rows@ == before.take(seen).filter(keep) + before.skip(seen),
            taken@ == before.take(seen).filter(picks),
        decreases rows.len() - at,
    {
        let ghost kept = before.take(seen).filter(keep);
        let ghost gone = before.take(seen).filter(picks);
        proof {
            let next = before.take(seen + 1);
            assert(rows@[at as int] == before[seen]);
            assert(next.drop_last() =~= before.take(seen));
            assert(next.last() == before[seen]);
            assert(next.filter(keep) =~= if keep(before[seen]) {
                kept.push(before[seen])
            } else {
                kept
            }) by {
                reveal(Seq::filter);
            }
            assert(next.filter(picks) =~= if picks(before[seen]) {
                gone.push(before[seen])
            } else {
                gone
            }) by {
                reveal(Seq::filter);
            }
            assert(before.skip(seen) =~= seq![before[seen]] + before.skip(seen + 1));
        }
        if test(&rows[at]) {
            taken.push(rows.remove(at));
            assert(rows@ =~= kept + before.skip(seen + 1));
        } else {
            at += 1;
            assert(rows@ =~= kept.push(before[seen]) + before.skip(seen + 1));
        }
        proof {
            seen = seen + 1;
        }
    }
    assert(before.take(seen) =~= before);
    assert(rows@ =~= before.filter(keep));
    taken
}

/// Replaces every row by its image.
pub fn change<T, F: Fn(T) -> T>(rows: &mut Vec<T>, apply: F, Ghost(image): Ghost<spec_fn(T) -> T>)
    requires
        forall|row: T| #[trigger] apply.requires((row,)),
        forall|row: T, new: T| #[trigger] apply.ensures((row,), new) ==> new == image(row),
    ensures
        final(rows)@ == changing(old(rows)@, image),
{
    let ghost before = rows@;
    let mut back: Vec<T> = Vec::new();
    loop
        invariant
            rows@.len() + back@.len() == before.len(),
            forall|row: T| #[trigger] apply.requires((row,)),
            forall|row: T, new: T| #[trigger] apply.ensures((row,), new) ==> new == image(row),
            forall|i: int| 0 <= i < rows@.len() ==> rows@[i] == before[i],
            forall|i: int|
                0 <= i < back@.len() ==> back@[i] == image(before[before.len() - 1 - i]),
        ensures
            rows@.len() == 0,
        decreases rows@.len(),
    {
        match rows.pop() {
            None => {
                break ;
            },
            Some(row) => {
                back.push(apply(row));
            },
        }
    }
    loop
        invariant
            rows@.len() + back@.len() == before.len(),
            forall|i: int| 0 <= i < rows@.len() ==> rows@[i] == image(before[i]),
            forall|i: int|
                0 <= i < back@.len() ==> back@[i] == image(before[before.len() - 1 - i]),
        ensures
            back@.len() == 0,
        decreases back@.len(),
    {
        match back.pop() {
            None => {
                break ;
            },
            Some(row) => {
                rows.push(row);
            },
        }
    }
    assert(rows@ =~= changing(before, image));
}

/// Where the row belongs among those in `order`, from `from` on: before the
/// first that it is earlier than.
pub open spec fn turn<T>(
    rows: Seq<T>,
    order: Seq<int>,
    earlier: spec_fn(T, T) -> bool,
    at: int,
    from: int,
) -> int
    decreases order.len() - from,
{
    if from < 0 || from >= order.len() {
        order.len() as int
    } else if earlier(rows[at], rows[order[from]]) {
        from
    } else {
        turn(rows, order, earlier, at, from + 1)
    }
}

/// The places of the picked rows among the first `n`, the earliest first.
pub open spec fn arranged<T>(
    rows: Seq<T>,
    picks: spec_fn(T) -> bool,
    earlier: spec_fn(T, T) -> bool,
    n: int,
) -> Seq<int>
    decreases n,
{
    if n <= 0 {
        Seq::empty()
    } else {
        let order = arranged(rows, picks, earlier, n - 1);
        if picks(rows[n - 1]) {
            order.insert(turn(rows, order, earlier, n - 1, 0), n - 1)
        } else {
            order
        }
    }
}

/// The places, as found.
pub open spec fn places(order: Seq<usize>) -> Seq<int> {
    order.map_values(|at: usize| at as int)
}

/// Finds the places of the picked rows, the earliest first.
pub fn arrange<T, F: Fn(&T) -> bool, G: Fn(&T, &T) -> bool>(
    rows: &Vec<T>,
    test: F,
    Ghost(picks): Ghost<spec_fn(T) -> bool>,
    less: G,
    Ghost(earlier): Ghost<spec_fn(T, T) -> bool>,
) -> (order: Vec<usize>)
    requires
        forall|row: T| #[trigger] test.requires((&row,)),
        forall|row: T, picked: bool| #[trigger]
            test.ensures((&row,), picked) ==> picked == picks(row),
        forall|left: T, right: T| #[trigger] less.requires((&left, &right)),
        forall|left: T, right: T, found: bool| #[trigger]
            less.ensures((&left, &right), found) ==> found == earlier(left, right),
    ensures
        places(order@) == arranged(rows@, picks, earlier, rows@.len() as int),
        forall|i: int| 0 <= i < order@.len() ==> #[trigger] order@[i] < rows@.len(),
{
    let mut order: Vec<usize> = Vec::new();
    let mut at: usize = 0;
    assert(places(order@) =~= Seq::<int>::empty());
    while at < rows.len()
        invariant
            at <= rows@.len(),
            forall|row: T| #[trigger] test.requires((&row,)),
            forall|row: T, picked: bool| #[trigger]
                test.ensures((&row,), picked) ==> picked == picks(row),
            forall|left: T, right: T| #[trigger] less.requires((&left, &right)),
            forall|left: T, right: T, found: bool| #[trigger]
                less.ensures((&left, &right), found) ==> found == earlier(left, right),
            places(order@) == arranged(rows@, picks, earlier, at as int),
            forall|i: int| 0 <= i < order@.len() ==> #[trigger] order@[i] < rows@.len(),
        decreases rows.len() - at,
    {
        if test(&rows[at]) {
            let ghost before = order@;
            let mut here: usize = 0;
            while here < order.len() && !less(&rows[at], &rows[order[here]])
                invariant
                    at < rows@.len(),
                    here <= order@.len(),
                    order@ == before,
                    forall|left: T, right: T| #[trigger] less.requires((&left, &right)),
                    forall|left: T, right: T, found: bool| #[trigger]
                        less.ensures((&left, &right), found) ==> found == earlier(left, right),
                    forall|i: int| 0 <= i < order@.len() ==> #[trigger] order@[i] < rows@.len(),
                    turn(rows@, places(order@), earlier, at as int, 0) == turn(
                        rows@,
                        places(order@),
                        earlier,
                        at as int,
                        here as int,
                    ),
                decreases order.len() - here,
            {
                here += 1;
            }
            order.insert(here, at);
            assert(places(order@) =~= places(before).insert(here as int, at as int));
        }
        at += 1;
    }
    order
}

/// Removing rows leaves exactly those that are not picked.
pub proof fn law_removing<T>(rows: Seq<T>, picks: spec_fn(T) -> bool, row: T)
    ensures
        removing(rows, picks).contains(row) <==> rows.contains(row) && !picks(row),
        removing(rows, picks).len() <= rows.len(),
    decreases rows.len(),
{
    reveal(Seq::filter);
    if rows.len() > 0 {
        let front = rows.drop_last();
        law_removing(front, picks, row);
        let kept = removing(front, picks);
        assert(rows =~= front.push(rows.last()));
        if rows.contains(row) {
            let i = choose|i: int| 0 <= i < rows.len() && rows[i] == row;
            if i < front.len() {
                assert(front[i] == row);
            }
        }
        if front.contains(row) {
            let i = choose|i: int| 0 <= i < front.len() && front[i] == row;
            assert(rows[i] == row);
        }
        assert(rows[rows.len() - 1] == rows.last());
        if !picks(rows.last()) {
            let all = kept.push(rows.last());
            if kept.contains(row) {
                let i = choose|i: int| 0 <= i < kept.len() && kept[i] == row;
                assert(all[i] == row);
            }
            assert(all[kept.len() as int] == rows.last());
            if all.contains(row) {
                let i = choose|i: int| 0 <= i < all.len() && all[i] == row;
                if i < kept.len() {
                    assert(kept[i] == row);
                }
            }
        }
    }
}

/// No row is picked exactly where the count is zero.
pub proof fn law_tally_zero<T>(rows: Seq<T>, picks: spec_fn(T) -> bool)
    ensures
        tally(rows, picks) == 0 <==> !some(rows, picks),
    decreases rows.len(),
{
    reveal(Seq::filter);
    if rows.len() > 0 {
        let front = rows.drop_last();
        law_tally_zero(front, picks);
        if some(rows, picks) {
            let i = choose|i: int| 0 <= i < rows.len() && picks(#[trigger] rows[i]);
            if i < front.len() {
                assert(picks(front[i]));
            } else {
                assert(picks(rows.last()));
            }
        }
        if some(front, picks) {
            let i = choose|i: int| 0 <= i < front.len() && picks(#[trigger] front[i]);
            assert(picks(rows[i]));
        }
        if picks(rows.last()) {
            assert(picks(rows[rows.len() - 1]));
        }
    }
}

/// Whether the rule is a strict order in which rows can be level.
pub open spec fn orders<T>(earlier: spec_fn(T, T) -> bool) -> bool {
    &&& forall|a: T, b: T, c: T| #[trigger]
        earlier(a, b) && #[trigger] earlier(b, c) ==> earlier(a, c)
    &&& forall|a: T| !(#[trigger] earlier(a, a))
}

proof fn lemma_turn<T>(
    rows: Seq<T>,
    order: Seq<int>,
    earlier: spec_fn(T, T) -> bool,
    at: int,
    from: int,
)
    requires
        0 <= from <= order.len(),
    ensures
        from <= turn(rows, order, earlier, at, from) <= order.len(),
        forall|i: int|
            from <= i < turn(rows, order, earlier, at, from) ==> !earlier(
                rows[at],
                rows[#[trigger] order[i]],
            ),
        turn(rows, order, earlier, at, from) < order.len() ==> earlier(
            rows[at],
            rows[order[turn(rows, order, earlier, at, from)]],
        ),
    decreases order.len() - from,
{
    if from < order.len() && !earlier(rows[at], rows[order[from]]) {
        lemma_turn(rows, order, earlier, at, from + 1);
    }
}

/// Whether `order` holds the place of every picked row once, and none of
/// another, and no row stands behind one that it is earlier than.
pub open spec fn in_turn<T>(
    rows: Seq<T>,
    picks: spec_fn(T) -> bool,
    earlier: spec_fn(T, T) -> bool,
    order: Seq<int>,
) -> bool {
    &&& order.no_duplicates()
    &&& forall|at: int| #[trigger]
        order.contains(at) <==> 0 <= at < rows.len() && picks(rows[at])
    &&& forall|i: int, j: int|
        0 <= i < j < order.len() ==> !earlier(rows[#[trigger] order[j]], rows[#[trigger] order[i]])
}

/// Arranging gives the place of every picked row once, and none of another, and
/// no row comes behind one that it is earlier than.
pub proof fn law_arranged_in_order<T>(
    rows: Seq<T>,
    picks: spec_fn(T) -> bool,
    earlier: spec_fn(T, T) -> bool,
    n: int,
)
    requires
        0 <= n <= rows.len(),
        orders(earlier),
    ensures
        arranged(rows, picks, earlier, n).no_duplicates(),
        forall|at: int| #[trigger]
            arranged(rows, picks, earlier, n).contains(at) <==> 0 <= at < n && picks(rows[at]),
        forall|i: int, j: int|
            0 <= i < j < arranged(rows, picks, earlier, n).len() ==> !earlier(
                rows[#[trigger] arranged(rows, picks, earlier, n)[j]],
                rows[#[trigger] arranged(rows, picks, earlier, n)[i]],
            ),
    decreases n,
{
    if n > 0 {
        law_arranged_in_order(rows, picks, earlier, n - 1);
        let order = arranged(rows, picks, earlier, n - 1);
        let all = arranged(rows, picks, earlier, n);
        if picks(rows[n - 1]) {
            let t = turn(rows, order, earlier, n - 1, 0);
            lemma_turn(rows, order, earlier, n - 1, 0);
            assert(all == order.insert(t, n - 1));
            assert forall|i: int| 0 <= i < all.len() implies #[trigger] all[i] == if i < t {
                order[i]
            } else if i == t {
                n - 1
            } else {
                order[i - 1]
            } by {}
            assert forall|i: int| 0 <= i < order.len() implies 0 <= #[trigger] order[i] < n - 1 by {
                assert(order.contains(order[i]));
            }
            assert forall|at: int| #[trigger] all.contains(at) <==> 0 <= at < n && picks(
                rows[at],
            ) by {
                if all.contains(at) {
                    let i = choose|i: int| 0 <= i < all.len() && all[i] == at;
                    if i < t {
                        assert(order.contains(order[i]));
                    } else if i > t {
                        assert(order.contains(order[i - 1]));
                    }
                }
                if 0 <= at < n && picks(rows[at]) {
                    if at == n - 1 {
                        assert(all[t] == at);
                    } else {
                        assert(order.contains(at));
                        let i = choose|i: int| 0 <= i < order.len() && order[i] == at;
                        if i < t {
                            assert(all[i] == at);
                        } else {
                            assert(all[i + 1] == at);
                        }
                    }
                }
            }
            assert forall|i: int, j: int| 0 <= i < j < all.len() implies !earlier(
                rows[#[trigger] all[j]],
                rows[#[trigger] all[i]],
            ) by {
                if i < t && j == t {
                    assert(all[i] == order[i]);
                } else if i == t && j > t {
                    let s = order[j - 1];
                    if j - 1 > t {
                        assert(!earlier(rows[order[j - 1]], rows[order[t]]));
                    }
                    if earlier(rows[s], rows[n - 1]) {
                        assert(earlier(rows[n - 1], rows[order[t]]));
                        assert(earlier(rows[s], rows[order[t]]));
                        assert(false);
                    }
                }
            }
        }
    }
}

} // verus!
