//! A point on the map.
use vstd::prelude::*;
use vstd::std_specs::cmp::PartialEqSpec;
use vstd::std_specs::cmp::PartialEqSpecImpl;

verus! {

/// A point on the map, with the data that it carries.
#[derive(Clone, Copy)]
pub struct Point<T, U> where T: Copy {
    pub lat: T,
    pub lon: T,
    pub data: U,
}

impl<T: Copy, U: Copy> Point<T, U> {
    /// The latitude of the point.
    pub fn lat(&self) -> (r: T)
        ensures
            r == self.lat,
    {
        self.lat
    }

    /// The longitude of the point.
    pub fn lon(&self) -> (r: T)
        ensures
            r == self.lon,
    {
        self.lon
    }
}

impl<T: PartialEq + Copy, U> PartialEq for Point<T, U> {
    /// Two points are equal where they stand at the same place: their latitudes and their
    /// longitudes are equal; the data they carry is not compared.
    fn eq(&self, other: &Self) -> (r: bool)
        ensures
            <T as PartialEqSpec>::obeys_eq_spec() ==> (r <==> PartialEqSpec::eq_spec(
                &self.lat,
                &other.lat,
            ) && PartialEqSpec::eq_spec(&self.lon, &other.lon)),
    {
        self.lat == other.lat && self.lon == other.lon
    }
}

impl<T: PartialEq + Copy, U> PartialEqSpecImpl for Point<T, U> {
    open spec fn obeys_eq_spec() -> bool {
        <T as PartialEqSpec>::obeys_eq_spec()
    }

    open spec fn eq_spec(&self, other: &Self) -> bool {
        PartialEqSpec::eq_spec(&self.lat, &other.lat) && PartialEqSpec::eq_spec(&self.lon, &other.lon)
    }
}

/// Points are equal exactly where both their latitudes and their longitudes are equal;
/// with integer coordinates, exactly where they stand at the same place.
pub proof fn lemma_point_eq<T: PartialEq + Copy, U>(a: Point<T, U>, b: Point<T, U>)
    ensures
        PartialEqSpec::eq_spec(&a, &b) <==> PartialEqSpec::eq_spec(&a.lat, &b.lat)
            && PartialEqSpec::eq_spec(&a.lon, &b.lon),
        <Point<T, U> as PartialEqSpec>::obeys_eq_spec() == <T as PartialEqSpec>::obeys_eq_spec(),
{
}

/// With `i64` coordinates, two points are equal exactly where their latitudes and their
/// longitudes are equal, whatever data they carry.
pub proof fn lemma_point_eq_i64<U>(a: Point<i64, U>, b: Point<i64, U>)
    ensures
        <Point<i64, U> as PartialEqSpec>::obeys_eq_spec(),
        PartialEqSpec::eq_spec(&a, &b) <==> a.lat == b.lat && a.lon == b.lon,
{
}

} // verus!
