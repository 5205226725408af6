//! The three entities of a harvest: a country expands into its cities, and
//! each city that could be described becomes one output record.

use vstd::prelude::*;

verus! {

/// A country as the entity source names it.
#[derive(Debug, PartialEq, Eq)]
pub struct Country {
    /// Display name.
    pub name: String,
    /// Bare external identifier, without the URI prefix.
    pub id: String,
}

/// The mathematical value of a [`Country`].
pub ghost struct CountryView {
    pub name: Seq<char>,
    pub id: Seq<char>,
}

/// A city together with a copy of the display name of its country.
#[derive(Debug, PartialEq, Eq)]
pub struct City {
    /// Display name of the owning country.
    pub country: String,
    /// Display name; the key under which the description is looked up.
    pub name: String,
    /// Bare external identifier, without the URI prefix.
    pub id: String,
}

/// The mathematical value of a [`City`].
pub ghost struct CityView {
    pub country: Seq<char>,
    pub name: Seq<char>,
    pub id: Seq<char>,
}

/// One output row.
#[derive(Debug, PartialEq, Eq)]
pub struct Record {
    pub country: String,
    pub name: String,
    pub description: String,
    pub id: String,
}

/// The mathematical value of a [`Record`].
pub ghost struct RecordView {
    pub country: Seq<char>,
    pub name: Seq<char>,
    pub description: Seq<char>,
    pub id: Seq<char>,
}

impl CountryView {
    /// A country is usable when it can be referred to: its identifier is not
    /// empty.
    pub open spec fn wf(self) -> bool {
        self.id.len() > 0
    }
}

impl CityView {
    /// A city is usable when it can be looked up: its name is not empty.
    pub open spec fn wf(self) -> bool {
        self.name.len() > 0
    }
}

impl RecordView {
    /// The four columns of the row, in output order.
    pub open spec fn fields(self) -> Seq<Seq<char>> {
        seq![self.country, self.name, self.description, self.id]
    }
}

impl View for Country {
    type V = CountryView;

    open spec fn view(&self) -> CountryView {
        CountryView { name: self.name@, id: self.id@ }
    }
}

impl View for City {
    type V = CityView;

    open spec fn view(&self) -> CityView {
        CityView { country: self.country@, name: self.name@, id: self.id@ }
    }
}

impl View for Record {
    type V = RecordView;

    open spec fn view(&self) -> RecordView {
        RecordView {
            country: self.country@,
            name: self.name@,
            description: self.description@,
            id: self.id@,
        }
    }
}

impl Clone for Country {
    fn clone(&self) -> (r: Self)
        ensures
            r == *self,
    {
        Country { name: self.name.clone(), id: self.id.clone() }
    }
}

impl Clone for City {
    fn clone(&self) -> (r: Self)
        ensures
            r == *self,
    {
        City { country: self.country.clone(), name: self.name.clone(), id: self.id.clone() }
    }
}

impl Clone for Record {
    fn clone(&self) -> (r: Self)
        ensures
            r == *self,
    {
        Record {
            country: self.country.clone(),
            name: self.name.clone(),
            description: self.description.clone(),
            id: self.id.clone(),
        }
    }
}

impl Record {
    /// The four columns of the row, in output order: country, name,
    /// description, identifier.
    pub fn fields(&self) -> (r: Vec<String>)
        ensures
            r@.len() == 4,
            r@.map_values(|s: String| s@) == self@.fields(),
    {
        let mut r: Vec<String> = Vec::new();
        r.push(self.country.clone());
        r.push(self.name.clone());
        r.push(self.description.clone());
        r.push(self.id.clone());
        assert(r@.map_values(|s: String| s@) =~= self@.fields());
        r
    }
}

/// The values of a list of countries.
pub open spec fn country_views(countries: Seq<Country>) -> Seq<CountryView> {
    countries.map_values(|c: Country| c@)
}

/// The values of a list of cities.
pub open spec fn city_views(cities: Seq<City>) -> Seq<CityView> {
    cities.map_values(|c: City| c@)
}

/// The values of a list of records.
pub open spec fn record_views(records: Seq<Record>) -> Seq<RecordView> {
    records.map_values(|r: Record| r@)
}

} // verus!
