use vstd::prelude::*;

use crate::stats::CategoryStats;
use crate::text::{decimal, decimal_text};

verus! {

/// `header` is the first row of a report table: an empty corner cell, then
/// one cell per category with its name, in the categories' order.
pub open spec fn is_header_of(header: Seq<String>, stats: Seq<CategoryStats>) -> bool {
    &&& header.len() == stats.len() + 1
    &&& header[0]@ == Seq::<char>::empty()
    &&& forall|i: int| 0 <= i < stats.len() ==> (#[trigger] header[i + 1])@ == stats[i].name@
}

/// The names that cells hold, in order.
pub open spec fn cell_texts(cells: Seq<String>) -> Seq<Seq<char>> {
    cells.map_values(|c: String| c@)
}

/// The names of the categories, in order.
pub open spec fn stats_names(stats: Seq<CategoryStats>) -> Seq<Seq<char>> {
    stats.map_values(|s: CategoryStats| s.name@)
}

/// The first row of the report table.
pub fn header_row(stats: &[CategoryStats]) -> (r: Vec<String>)
    ensures
        is_header_of(r@, stats@),
{
    let mut row: Vec<String> = Vec::new();
    row.push(String::new());
    let mut i: usize = 0;
    while i < stats.len()
        invariant
            i <= stats@.len(),
            row@.len() == i + 1,
            row@[0]@ == Seq::<char>::empty(),
            forall|j: int| 0 <= j < i ==> (#[trigger] row@[j + 1])@ == stats@[j].name@,
        decreases stats@.len() - i,
    {
        row.push(stats[i].name.clone());
        i = i + 1;
    }
    row
}

/// The first cell of the row of chances after `turn` turns.
pub open spec fn row_label_text(turn: u64) -> Seq<char> {
    if turn == 0 {
        "Starting Hand"@
    } else {
        "Turn "@ + decimal_text(turn as nat)
    }
}

/// The first cell of the row of chances after `turn` turns: "Starting Hand"
/// for the opening hand, then "Turn 1", "Turn 2" and so on.
pub fn row_label(turn: u64) -> (r: String)
    ensures
        r@ == row_label_text(turn),
{
    if turn == 0 {
        String::from_str("Starting Hand")
    } else {
        String::from_str("Turn ").concat(decimal(turn).as_str())
    }
}

/// Reads the category names back from the first row of a report table.
pub fn names_from_header(header: &[String]) -> (r: Vec<String>)
    ensures
        header@.len() == 0 ==> r@.len() == 0,
        header@.len() > 0 ==> cell_texts(r@) == cell_texts(header@.drop_first()),
{
    let mut names: Vec<String> = Vec::new();
    let mut i: usize = 1;
    while i < header.len()
        invariant
            1 <= i,
            header@.len() > 0 ==> i <= header@.len(),
            header@.len() == 0 ==> i == 1,
            names@.len() == i - 1,
            forall|j: int| 0 <= j < names@.len() ==> (#[trigger] names@[j])@ == header@[j + 1]@,
        decreases header@.len() - i,
    {
        names.push(header[i].clone());
        i = i + 1;
    }
    if header.len() > 0 {
        assert(cell_texts(names@) =~= cell_texts(header@.drop_first()));
    }
    names
}

/// The number of turn rows of the report: as many as the longest run of
/// chances; a category with fewer leaves its later cells empty.
pub fn row_count(stats: &[CategoryStats]) -> (r: usize)
    ensures
        forall|i: int| 0 <= i < stats@.len() ==> (#[trigger] stats@[i]).turns@.len() <= r,
        stats@.len() == 0 ==> r == 0,
        stats@.len() > 0 ==> exists|i: int| 0 <= i < stats@.len() && (#[trigger] stats@[i]).turns@.len() == r,
{
    let mut most: usize = 0;
    let mut i: usize = 0;
    while i < stats.len()
        invariant
            i <= stats@.len(),
            forall|j: int| 0 <= j < i ==> (#[trigger] stats@[j]).turns@.len() <= most,
            i == 0 ==> most == 0,
            i > 0 ==> exists|j: int| 0 <= j < i && (#[trigger] stats@[j]).turns@.len() == most,
        decreases stats@.len() - i,
    {
        let len = stats[i].turns.len();
        if len > most || i == 0 {
            most = len;
        }
        i = i + 1;
    }
    most
}

/// Reading the names back from a report's first row gives the categories'
/// names in the order in which they were computed.
pub proof fn lemma_header_round_trip(stats: Seq<CategoryStats>, header: Seq<String>, names: Seq<String>)
    requires
        is_header_of(header, stats),
        cell_texts(names) == cell_texts(header.drop_first()),
    ensures
        cell_texts(names) == stats_names(stats),
{
    assert(cell_texts(header.drop_first()) =~= stats_names(stats));
}

} // verus!
