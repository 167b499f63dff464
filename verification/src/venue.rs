use vstd::prelude::*;

verus! {

/// The closed set of venues the bot trades on. The declaration order is the
/// canonical ordinal order used to encode a pair direction.
#[derive(Clone, Copy, Debug, PartialEq, Eq, Structural, Hash, PartialOrd, Ord)]
pub enum Venue {
    Pacifica,
    Backpack,
    Hyperliquid,
    Lighter,
}

/// Ordinal of a venue in declaration order.
pub open spec fn venue_ordinal(v: Venue) -> nat {
    match v {
        Venue::Pacifica => 0,
        Venue::Backpack => 1,
        Venue::Hyperliquid => 2,
        Venue::Lighter => 3,
    }
}

/// Name of a venue as its `Debug` rendering spells it.
pub open spec fn venue_debug_name(v: Venue) -> Seq<char> {
    match v {
        Venue::Pacifica => "Pacifica"@,
        Venue::Backpack => "Backpack"@,
        Venue::Hyperliquid => "Hyperliquid"@,
        Venue::Lighter => "Lighter"@,
    }
}

/// Lower-case key of a venue, as used in file and record names.
pub open spec fn venue_key(v: Venue) -> Seq<char> {
    match v {
        Venue::Pacifica => "pacifica"@,
        Venue::Backpack => "backpack"@,
        Venue::Hyperliquid => "hyperliquid"@,
        Venue::Lighter => "lighter"@,
    }
}

impl Venue {
    /// Lower-case key of the venue (`"pacifica"`, `"backpack"`, ...).
    pub fn key(&self) -> (r: &'static str)
        ensures
            r@ == venue_key(*self),
    {
        match self {
            Venue::Pacifica => "pacifica",
            Venue::Backpack => "backpack",
            Venue::Hyperliquid => "hyperliquid",
            Venue::Lighter => "lighter",
        }
    }

    /// Name of the venue (`"Pacifica"`, `"Backpack"`, ...).
    pub fn debug_name(&self) -> (r: &'static str)
        ensures
            r@ == venue_debug_name(*self),
    {
        match self {
            Venue::Pacifica => "Pacifica",
            Venue::Backpack => "Backpack",
            Venue::Hyperliquid => "Hyperliquid",
            Venue::Lighter => "Lighter",
        }
    }

    /// Ordinal of the venue in declaration order.
    pub fn ordinal(&self) -> (r: u8)
        ensures
            r as nat == venue_ordinal(*self),
    {
        match self {
            Venue::Pacifica => 0,
            Venue::Backpack => 1,
            Venue::Hyperliquid => 2,
            Venue::Lighter => 3,
        }
    }
}

} // verus!
