//! Positions in the source text.
use vstd::prelude::*;
use crate::text::{decimal, decimal_text};

verus! {

/// Where something happened: the file and the (row, column), each if known.
#[derive(Debug, PartialEq, Eq)]
pub struct Location {
    pub filename: Option<String>,
    pub coord: Option<(i32, i32)>,
}

/// The mathematical model of a location.
pub struct LocationV {
    pub filename: Option<Seq<char>>,
    pub coord: Option<(i32, i32)>,
}

impl View for Location {
    type V = LocationV;

    open spec fn view(&self) -> LocationV {
        LocationV {
            filename: match self.filename {
                Some(f) => Some(f@),
                None => None,
            },
            coord: self.coord,
        }
    }
}

impl Clone for Location {
    fn clone(&self) -> (r: Location)
        ensures
            r@ == self@,
    {
        let filename = match &self.filename {
            Some(f) => Some(f.clone()),
            None => None,
        };
        Location { filename, coord: self.coord }
    }
}

impl LocationV {
    /// How a location is shown in messages: `file:row:col`, `row:col`,
    /// `file`, or `?` when nothing is known.
    pub open spec fn text(self) -> Seq<char> {
        match (self.filename, self.coord) {
            (Some(f), Some((row, col))) => f + seq![':'] + decimal(row as int) + seq![':'] + decimal(
                col as int,
            ),
            (None, Some((row, col))) => decimal(row as int) + seq![':'] + decimal(col as int),
            (Some(f), None) => f,
            (None, None) => seq!['?'],
        }
    }
}

impl Location {
    /// A location with neither file nor coordinates.
    pub fn new() -> (r: Location)
        ensures
            r@ == (LocationV { filename: None, coord: None }),
    {
        Location { filename: None, coord: None }
    }

    /// The same location in the file `filename`.
    pub fn with_filename(self, filename: String) -> (r: Location)
        ensures
            r@ == (LocationV { filename: Some(filename@), coord: self@.coord }),
    {
        let mut l = self;
        l.filename = Some(filename);
        l
    }

    /// How the location is shown in messages.
    pub fn text(&self) -> (r: String)
        ensures
            r@ == self@.text(),
    {
        match (&self.filename, self.coord) {
            (Some(f), Some((row, col))) => {
                let mut s = f.clone();
                s.append(":");
                s.append(decimal_text(row).as_str());
                s.append(":");
                s.append(decimal_text(col).as_str());
                proof {
                    reveal_strlit(":");
                }
                s
            },
            (None, Some((row, col))) => {
                let mut s = decimal_text(row);
                s.append(":");
                s.append(decimal_text(col).as_str());
                proof {
                    reveal_strlit(":");
                }
                s
            },
            (Some(f), None) => f.clone(),
            (None, None) => {
                proof {
                    reveal_strlit("?");
                }
                String::from_str("?")
            },
        }
    }

    /// The same location at `coord`.
    pub fn with_coord(self, coord: (i32, i32)) -> (r: Location)
        ensures
            r@ == (LocationV { filename: self@.filename, coord: Some(coord) }),
    {
        let mut l = self;
        l.coord = Some(coord);
        l
    }
}

} // verus!
