//! co2 — emission factor lookup.
//!
//! Emission factors are in **tenths of a kilogram of CO₂ per km** (total
//! aircraft, combustion only), derived as fuel burn (kg/km) × 3.16 (IPCC
//! kerosene factor). Every published factor has one decimal, so tenths
//! hold them exactly: `95` stands for 9.5 kg/km.
//!
//! Distances are in millimetres, and CO₂ masses in units of 0.1 mg
//! (a distance in mm times a factor in tenths of kg/km).

use vstd::prelude::*;
use crate::text::{opt_str_chars, str_eq};

verus! {

/// Maximum jump distance (50 km, in mm) — larger gaps are treated as lost tracking.
pub const MAX_JUMP_MM: u64 = 50_000_000;

/// Minimum movement (0.01 km, in mm) — below this is GPS jitter.
pub const MIN_MOVE_MM: u64 = 10_000;

/// Default emission factor when nothing is known (7.0 kg CO₂/km, in tenths).
pub const EF_DEFAULT: u16 = 70;

/// Number of entries in [`EF_TYPE`].
pub const EF_TYPE_COUNT: usize = 173;

/// Per-ICAO-type emission factors (tenths of kg CO₂/km, total aircraft).
pub const EF_TYPE: [(&'static str, u16); 173] = [
    ("AT43", 41), ("AT45", 40), ("AT72", 49), ("AT76", 47), ("DH8A", 44), ("DH8B", 47),
    ("DH8C", 54), ("DH8D", 65), ("SF34", 32), ("D328", 36), ("F50", 47), ("JS41", 32),
    ("L410", 21), ("AN26", 79), ("AN24", 70), ("BEH2", 32), ("CRJ1", 59), ("CRJ2", 57),
    ("CRJ7", 77), ("CRJ9", 88), ("CRJX", 84), ("E135", 46), ("E145", 49), ("E170", 82),
    ("E75L", 88), ("E75S", 88), ("E190", 102), ("E195", 101), ("E290", 78), ("E295", 83),
    ("F70", 73), ("F100", 88), ("RJ85", 95), ("RJ1H", 101), ("SU95", 89), ("AR85", 88),
    ("A318", 85), ("A319", 93), ("A19N", 76), ("A320", 95), ("A20N", 88), ("A321", 114),
    ("A21N", 107), ("B731", 95), ("B732", 101), ("B733", 101), ("B734", 104), ("B735", 95),
    ("B736", 88), ("B737", 89), ("B738", 100), ("B739", 108), ("B37M", 79), ("B38M", 86),
    ("B39M", 92), ("B752", 139), ("B753", 148), ("MD80", 111), ("MD81", 107), ("MD82", 111),
    ("MD83", 111), ("MD87", 101), ("MD88", 111), ("MD90", 104), ("BCS1", 72), ("BCS3", 77),
    ("C919", 98), ("B712", 88), ("DC93", 88), ("DC95", 95), ("T204", 104), ("T154", 174),
    ("A306", 205), ("A30B", 221), ("A310", 174), ("A332", 196), ("A333", 206), ("A338", 172),
    ("A339", 189), ("A342", 221), ("A343", 223), ("A345", 253), ("A346", 269), ("A359", 207),
    ("A35K", 238), ("A388", 435), ("B741", 379), ("B742", 379), ("B743", 379), ("B744", 365),
    ("B748", 330), ("B762", 155), ("B763", 172), ("B764", 185), ("B772", 216), ("B77L", 239),
    ("B77W", 274), ("B788", 168), ("B789", 181), ("B78X", 195), ("DC10", 269), ("MD11", 269),
    ("L101", 269), ("IL96", 284), ("IL86", 316), ("C25A", 12), ("C25B", 13), ("C25C", 15),
    ("C25M", 16), ("C510", 10), ("C525", 12), ("C500", 11), ("C550", 14), ("C560", 18),
    ("C56X", 20), ("C680", 24), ("C68A", 24), ("C700", 26), ("C750", 35), ("CL30", 29),
    ("CL35", 29), ("CL60", 32), ("GL5T", 51), ("GL7T", 55), ("GLEX", 53), ("GLF4", 35),
    ("GLF5", 59), ("GLF6", 54), ("G150", 18), ("G280", 24), ("FA50", 22), ("FA7X", 34),
    ("FA8X", 35), ("F900", 27), ("F2TH", 24), ("E35L", 16), ("E55P", 16), ("LJ35", 20),
    ("LJ45", 21), ("LJ60", 24), ("LJ75", 23), ("H25B", 25), ("H25C", 30), ("GALX", 26),
    ("ASTR", 18), ("PC12", 14), ("PC24", 16), ("TBM7", 11), ("TBM8", 11), ("TBM9", 11),
    ("PRM1", 15), ("P180", 14), ("BE20", 14), ("BE30", 19), ("BE40", 16), ("BE4W", 17),
    ("EA50", 10), ("C130", 142), ("C30J", 126), ("C17", 316), ("C5", 458), ("C5M", 458),
    ("K35R", 269), ("KC10", 269), ("A400", 152), ("MRTT", 205), ("A124", 569), ("AN12", 142),
    ("IL76", 237), ("E3CF", 269), ("E6", 269), ("P3", 111), ("P8", 111),
];

/// Wake turbulence category fallback.
pub const EF_WTC: [(&'static str, u16); 4] = [
    ("L", 15), ("M", 80), ("H", 220), ("J", 435),
];

/// Number of entries in [`EF_CAT`].
pub const EF_CAT_COUNT: usize = 13;

/// ADS-B emitter category fallback.
pub const EF_CAT: [(&'static str, u16); 13] = [
    ("A1", 12), ("A2", 35), ("A3", 90), ("A4", 139), ("A5", 220), ("A6", 220),
    ("A7", 5), ("B1", 0), ("B2", 1), ("B4", 0), ("B6", 1), ("C1", 0),
    ("C3", 0),
];

/// Source of the emission factor used.
#[derive(Debug, Clone, Copy, PartialEq, Eq, Structural)]
pub enum EfSource {
    Type,
    Wtc,
    Category,
    Default,
}

impl EfSource {
    /// Short name of the source, as stored with a flight.
    pub fn as_str(self) -> (r: &'static str)
        ensures
            r == (match self {
                EfSource::Type => "type",
                EfSource::Wtc => "wtc",
                EfSource::Category => "cat",
                EfSource::Default => "default",
            }),
    {
        match self {
            EfSource::Type => "type",
            EfSource::Wtc => "wtc",
            EfSource::Category => "cat",
            EfSource::Default => "default",
        }
    }
}

/// The value of the first entry of `table` whose key is `key`.
pub open spec fn table_get(table: Seq<(&'static str, u16)>, key: Seq<char>) -> Option<u16>
    decreases table.len(),
{
    if table.len() == 0 {
        None
    } else {
        match table_get(table.drop_last(), key) {
            Some(v) => Some(v),
            None => if table.last().0@ == key {
                Some(table.last().1)
            } else {
                None
            },
        }
    }
}

/// A key looked up in a table, if there is one.
pub open spec fn lookup_opt(table: Seq<(&'static str, u16)>, key: Option<Seq<char>>) -> Option<u16> {
    match key {
        Some(k) => table_get(table, k),
        None => None,
    }
}

/// The factor for an aircraft and where it came from: the type code's
/// factor, else the wake category's, else the emitter category's, else
/// the default.
pub open spec fn emission_factor_spec(
    type_code: Option<Seq<char>>,
    wtc: Option<Seq<char>>,
    category: Option<Seq<char>>,
) -> (u16, EfSource) {
    match lookup_opt(EF_TYPE@, type_code) {
        Some(ef) => (ef, EfSource::Type),
        None => match lookup_opt(EF_WTC@, wtc) {
            Some(ef) => (ef, EfSource::Wtc),
            None => match lookup_opt(EF_CAT@, category) {
                Some(ef) => (ef, EfSource::Category),
                None => (EF_DEFAULT, EfSource::Default),
            },
        },
    }
}

fn table_lookup<const N: usize>(table: &[(&'static str, u16); N], key: &str) -> (r: Option<u16>)
    ensures
        r == table_get(table@, key@),
{
    let mut i: usize = 0;
    while i < N
        invariant
            i <= N,
            N == table@.len(),
            table_get(table@.take(i as int), key@) is None,
        decreases N - i,
    {
        assert(table@.take(i + 1).drop_last() =~= table@.take(i as int));
        let (k, v) = table[i];
        if str_eq(k, key) {
            proof {
                lemma_table_get_prefix(table@, key@, i + 1);
            }
            return Some(v);
        }
        i = i + 1;
    }
    assert(table@.take(N as int) =~= table@);
    None
}

/// A hit among the first `n` entries is the hit of the whole table.
proof fn lemma_table_get_prefix(table: Seq<(&'static str, u16)>, key: Seq<char>, n: int)
    requires
        0 <= n <= table.len(),
        table_get(table.take(n), key) is Some,
    ensures
        table_get(table, key) == table_get(table.take(n), key),
    decreases table.len() - n,
{
    if n < table.len() {
        assert(table.take(n + 1).drop_last() =~= table.take(n));
        lemma_table_get_prefix(table, key, n + 1);
    } else {
        assert(table.take(n) =~= table);
    }
}

fn lookup_opt_exec<const N: usize>(table: &[(&'static str, u16); N], key: Option<&str>) -> (r: Option<u16>)
    ensures
        r == lookup_opt(table@, opt_str_chars(key)),
{
    match key {
        Some(k) => table_lookup(table, k),
        None => None,
    }
}

/// Look up the emission factor for an aircraft.
///
/// Returns `(factor, source)`. Falls through type → WTC → category → default.
pub fn emission_factor(
    type_code: Option<&str>,
    wtc: Option<&str>,
    category: Option<&str>,
) -> (r: (u16, EfSource))
    ensures
        r == emission_factor_spec(opt_str_chars(type_code), opt_str_chars(wtc), opt_str_chars(category)),
{
    if let Some(ef) = lookup_opt_exec(&EF_TYPE, type_code) {
        return (ef, EfSource::Type);
    }
    if let Some(ef) = lookup_opt_exec(&EF_WTC, wtc) {
        return (ef, EfSource::Wtc);
    }
    if let Some(ef) = lookup_opt_exec(&EF_CAT, category) {
        return (ef, EfSource::Category);
    }
    (EF_DEFAULT, EfSource::Default)
}

/// The size class of a factor: super from 40 kg/km, heavy from 12,
/// medium from 3, light below.
pub open spec fn size_class_spec(ef: u16) -> &'static str {
    if ef >= 400 {
        "super"
    } else if ef >= 120 {
        "heavy"
    } else if ef >= 30 {
        "medium"
    } else {
        "light"
    }
}

/// Derive a size-class bucket from an emission factor (in tenths of kg/km).
pub fn size_class_from_ef(ef: u16) -> (r: &'static str)
    ensures
        r == size_class_spec(ef),
{
    if ef >= 400 {
        "super"
    } else if ef >= 120 {
        "heavy"
    } else if ef >= 30 {
        "medium"
    } else {
        "light"
    }
}

/// Size classes by emission factor (tenths of kg/km): super from 40 kg/km,
/// heavy from 12, medium from 3, light below; a larger factor never gives
/// a smaller class.
pub proof fn lemma_size_class_thresholds(ef: u16)
    ensures
        size_class_spec(ef) == "super" <==> ef >= 400,
        size_class_spec(ef) == "heavy" <==> 120 <= ef < 400,
        size_class_spec(ef) == "medium" <==> 30 <= ef < 120,
        size_class_spec(ef) == "light" <==> ef < 30,
{
    reveal_strlit("super");
    reveal_strlit("heavy");
    reveal_strlit("medium");
    reveal_strlit("light");
}

} // verus!
