//! Reconciling overlaps between the countries of one profile.
//!
//! Every country has every other country's land taken from its own, row by
//! row and in place. A country that was reduced earlier is subtracted from
//! the later ones in its reduced form, so the outcome depends on the order of
//! the countries.

use crate::geometry::difference_of;
use crate::geometry::land_polygons;
use crate::geometry::shape_in_range;
use crate::geometry::try_difference;
use crate::geometry::try_difference_of;
use crate::geometry::Shape;
use crate::types::country_views;
use crate::types::CountryData;
use crate::types::CountryView;
use vstd::prelude::*;

verus! {

/// A subtraction that cannot be made: a coordinate of one of the two lands,
/// as they stand when their turn comes, is out of range.
#[derive(Clone, Copy, PartialEq, Eq, Structural, Debug)]
pub struct OverlapError {
    /// The place of the country that was being reduced.
    pub country: usize,
    /// The place of the country whose land was to be taken from it.
    pub other: usize,
}

/// What is left of land `i` once the lands before place `upto`, its own left
/// out, have been taken from it one after the other; or the pair of places
/// at which that cannot be done.
pub open spec fn reduced_by(lands: Seq<Shape>, i: int, upto: nat) -> Result<Shape, (int, int)>
    decreases upto,
{
    if upto == 0 {
        Ok(lands[i])
    } else {
        let j = upto - 1;
        match reduced_by(lands, i, j as nat) {
            Err(pair) => Err(pair),
            Ok(current) => if j == i {
                Ok(current)
            } else {
                match try_difference_of(current, lands[j]) {
                    Some(rest) => Ok(rest),
                    None => Err((i, j)),
                }
            },
        }
    }
}

/// The lands once the first `rows` countries have been reduced. Country
/// `rows - 1` loses the lands of all others as they stand then: those before
/// it already reduced, those after it still whole.
pub open spec fn resolved_rows(lands: Seq<Shape>, rows: nat) -> Result<Seq<Shape>, (int, int)>
    decreases rows,
{
    if rows == 0 || rows > lands.len() {
        Ok(lands)
    } else {
        match resolved_rows(lands, (rows - 1) as nat) {
            Err(pair) => Err(pair),
            Ok(before) => match reduced_by(before, rows - 1, before.len()) {
                Err(pair) => Err(pair),
                Ok(land) => Ok(before.update(rows - 1, land)),
            },
        }
    }
}

/// The lands once every country has been reduced.
pub open spec fn resolved(lands: Seq<Shape>) -> Result<Seq<Shape>, (int, int)> {
    resolved_rows(lands, lands.len())
}

/// The lands of a list of countries.
pub open spec fn lands_of(countries: Seq<CountryView>) -> Seq<Shape> {
    countries.map_values(|c: CountryView| c.land)
}

/// The countries with their lands replaced by `lands`, all else kept.
pub open spec fn with_lands(countries: Seq<CountryView>, lands: Seq<Shape>) -> Seq<CountryView> {
    Seq::new(
        countries.len(),
        |i: int|
            CountryView {
                id: countries[i].id,
                config: countries[i].config,
                land: lands[i],
                markers: countries[i].markers,
            },
    )
}

/// The countries after overlap resolution: ids, metadata and markers as they
/// were, lands reduced in layer order; or the pair of places at which a
/// subtraction cannot be made.
pub open spec fn diffed(countries: Seq<CountryView>) -> Result<Seq<CountryView>, (int, int)> {
    match resolved(lands_of(countries)) {
        Ok(lands) => Ok(with_lands(countries, lands)),
        Err(pair) => Err(pair),
    }
}

/// Reducing rows never changes the number of lands.
pub proof fn lemma_resolved_rows_len(lands: Seq<Shape>, rows: nat)
    ensures
        resolved_rows(lands, rows) matches Ok(reduced) ==> reduced.len() == lands.len(),
    decreases rows,
{
    if rows == 0 || rows > lands.len() {
    } else {
        lemma_resolved_rows_len(lands, (rows - 1) as nat);
    }
}

/// A subtraction that fails within a row fails the row.
pub proof fn lemma_reduced_error_stays(lands: Seq<Shape>, i: int, upto: nat, end: nat)
    requires
        upto <= end,
        reduced_by(lands, i, upto) is Err,
    ensures
        reduced_by(lands, i, end) == reduced_by(lands, i, upto),
    decreases end - upto,
{
    if upto < end {
        lemma_reduced_error_stays(lands, i, upto, (end - 1) as nat);
    }
}

/// A row that fails fails the resolution.
pub proof fn lemma_rows_error_stays(lands: Seq<Shape>, rows: nat, end: nat)
    requires
        rows <= end <= lands.len(),
        resolved_rows(lands, rows) is Err,
    ensures
        resolved_rows(lands, end) == resolved_rows(lands, rows),
    decreases end - rows,
{
    if rows < end {
        lemma_rows_error_stays(lands, rows, (end - 1) as nat);
    }
}

/// Overlap resolution keeps every country, with its id, metadata and
/// markers; only the lands change.
pub proof fn lemma_diffed_keeps(countries: Seq<CountryView>)
    ensures
        diffed(countries) matches Ok(reduced) ==> {
            &&& reduced.len() == countries.len()
            &&& forall|i: int|
                0 <= i < countries.len() ==> {
                    &&& (#[trigger] reduced[i]).id == countries[i].id
                    &&& reduced[i].config == countries[i].config
                    &&& reduced[i].markers == countries[i].markers
                }
        },
{
}

/// A country alone keeps its land.
pub proof fn lemma_resolved_alone(land: Shape)
    ensures
        resolved(seq![land]) == Ok::<Seq<Shape>, (int, int)>(seq![land]),
{
    let lands = seq![land];
    assert(resolved_rows(lands, 0) == Ok::<Seq<Shape>, (int, int)>(lands));
    assert(reduced_by(lands, 0, 0) == Ok::<Shape, (int, int)>(land));
    assert(lands.update(0, land) =~= lands);
}

/// Two countries in layer order: the first loses the second's whole land;
/// the second then loses what is left of the first, so it keeps the part
/// that both had claimed.
pub proof fn lemma_resolved_pair(first: Shape, second: Shape)
    requires
        shape_in_range(first),
        shape_in_range(second),
        shape_in_range(difference_of(first, second)),
    ensures
        resolved(seq![first, second]) == Ok::<Seq<Shape>, (int, int)>(
            seq![
                difference_of(first, second),
                difference_of(second, difference_of(first, second)),
            ],
        ),
{
    let lands = seq![first, second];
    let reduced = difference_of(first, second);
    assert(resolved_rows(lands, 0) == Ok::<Seq<Shape>, (int, int)>(lands));
    assert(reduced_by(lands, 0, 0) == Ok::<Shape, (int, int)>(first));
    assert(reduced_by(lands, 0, 1) == Ok::<Shape, (int, int)>(first));
    let row = seq![reduced, second];
    assert(lands.update(0, reduced) =~= row);
    assert(resolved_rows(lands, 1) == Ok::<Seq<Shape>, (int, int)>(row));
    assert(reduced_by(row, 1, 0) == Ok::<Shape, (int, int)>(second));
    assert(reduced_by(row, 1, 1) == Ok::<Shape, (int, int)>(difference_of(second, reduced)));
    assert(row.update(1, difference_of(second, reduced)) =~= seq![
        reduced,
        difference_of(second, reduced),
    ]);
}

/// Removes the overlaps between countries: for every `i` from first to last,
/// and for every `j != i` from first to last, country `i` keeps what its land
/// has outside the land that country `j` holds at that moment. The first
/// subtraction that cannot be made ends the work.
pub fn diff_countries(countries: Vec<CountryData>) -> (reduced: Result<Vec<CountryData>, OverlapError>)
    ensures
        match reduced {
            Ok(list) => diffed(country_views(countries@)) == Ok::<Seq<CountryView>, (int, int)>(
                country_views(list@),
            ),
            Err(error) => diffed(country_views(countries@)) == Err::<Seq<CountryView>, (int, int)>(
                (error.country as int, error.other as int),
            ),
        },
{
    let ghost before = country_views(countries@);
    let ghost lands = lands_of(before);
    let ghost row_start = lands;
    let mut working = countries;
    let n = working.len();
    let mut i: usize = 0;
    while i < n
        invariant
            i <= n,
            n == working.len(),
            before.len() == n,
            before == country_views(countries@),
            lands == lands_of(before),
            row_start.len() == n,
            resolved_rows(lands, i as nat) == Ok::<Seq<Shape>, (int, int)>(row_start),
            country_views(working@) == with_lands(before, row_start),
        decreases n - i,
    {
        let ghost current = row_start[i as int];
        let mut j: usize = 0;
        while j < n
            invariant
                i < n,
                j <= n,
                n == working.len(),
                before.len() == n,
                row_start.len() == n,
                lands.len() == n,
                before == country_views(countries@),
                lands == lands_of(before),
                resolved_rows(lands, i as nat) == Ok::<Seq<Shape>, (int, int)>(row_start),
                reduced_by(row_start, i as int, j as nat) == Ok::<Shape, (int, int)>(current),
                country_views(working@) == with_lands(before, row_start.update(i as int, current)),
            decreases n - j,
        {
            if i != j {
                let ghost held = with_lands(before, row_start.update(i as int, current));
                assert(country_views(working@)[i as int] == held[i as int]);
                assert(country_views(working@)[j as int] == held[j as int]);
                let ghost earlier = working@;
                match try_difference(&working[i].land, &working[j].land) {
                    Some(rest) => {
                        working[i].land = rest;
                        proof {
                            let after = row_start.update(i as int, land_polygons(rest));
                            assert(forall|k: int|
                                0 <= k < n && k != i ==> working@[k] == earlier[k]);
                            assert forall|k: int| 0 <= k < n implies #[trigger] country_views(
                                working@,
                            )[k] == with_lands(before, after)[k] by {
                                assert(country_views(earlier)[k] == held[k]);
                            }
                            current = land_polygons(rest);
                        }
                    },
                    None => {
                        proof {
                            assert(reduced_by(row_start, i as int, (j + 1) as nat) == Err::<
                                Shape,
                                (int, int),
                            >((i as int, j as int)));
                            lemma_reduced_error_stays(row_start, i as int, (j + 1) as nat, n as nat);
                            assert(resolved_rows(lands, (i + 1) as nat) == Err::<
                                Seq<Shape>,
                                (int, int),
                            >((i as int, j as int)));
                            lemma_rows_error_stays(lands, (i + 1) as nat, n as nat);
                        }
                        return Err(OverlapError { country: i, other: j });
                    },
                }
            }
            j += 1;
        }
        proof {
            row_start = row_start.update(i as int, current);
        }
        i += 1;
    }
    Ok(working)
}

} // verus!
