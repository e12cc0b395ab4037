//! Registration country of an aircraft from its ICAO 24-bit address.
//!
//! The allocation table follows ICAO Annex 10, Vol III, Chapter 9 (the same
//! ranges as tar1090's flags.js). Blocks carved out of a larger national
//! block (UK territories, Hong Kong, ...) are listed before that block, so
//! the first range that contains an address is the most specific one.

use vstd::prelude::*;
use crate::text::{hex_text, hex_u32_value, lemma_hex_text_parses, parse_hex_u32};

verus! {

/// Country info resolved from an ICAO hex address.
#[derive(Debug, Clone, Copy)]
pub struct IcaoCountry {
    pub country: &'static str,
    /// ISO 3166-1 alpha-2 code, lower case.
    pub code: &'static str,
}

/// Number of entries in [`RANGES`].
pub const RANGE_COUNT: usize = 205;

/// Address blocks as `(first, last, country, code)`, both bounds inclusive.
pub const RANGES: [(u32, u32, &'static str, &'static str); 205] = [
    (0x004000, 0x0047FF, "Zimbabwe", "zw"),
    (0x006000, 0x006FFF, "Mozambique", "mz"),
    (0x008000, 0x00FFFF, "South Africa", "za"),
    (0x010000, 0x017FFF, "Egypt", "eg"),
    (0x018000, 0x01FFFF, "Libya", "ly"),
    (0x020000, 0x027FFF, "Morocco", "ma"),
    (0x028000, 0x02FFFF, "Tunisia", "tn"),
    (0x030000, 0x0307FF, "Botswana", "bw"),
    (0x032000, 0x032FFF, "Burundi", "bi"),
    (0x034000, 0x034FFF, "Cameroon", "cm"),
    (0x035000, 0x0357FF, "Comoros", "km"),
    (0x036000, 0x036FFF, "Republic of the Congo", "cg"),
    (0x038000, 0x038FFF, "Côte d'Ivoire", "ci"),
    (0x03E000, 0x03EFFF, "Gabon", "ga"),
    (0x040000, 0x040FFF, "Ethiopia", "et"),
    (0x042000, 0x042FFF, "Equatorial Guinea", "gq"),
    (0x044000, 0x044FFF, "Ghana", "gh"),
    (0x046000, 0x046FFF, "Guinea", "gn"),
    (0x048000, 0x0487FF, "Guinea-Bissau", "gw"),
    (0x04A000, 0x04A7FF, "Lesotho", "ls"),
    (0x04C000, 0x04CFFF, "Kenya", "ke"),
    (0x050000, 0x050FFF, "Liberia", "lr"),
    (0x054000, 0x054FFF, "Madagascar", "mg"),
    (0x058000, 0x058FFF, "Malawi", "mw"),
    (0x05A000, 0x05A7FF, "Maldives", "mv"),
    (0x05C000, 0x05CFFF, "Mali", "ml"),
    (0x05E000, 0x05E7FF, "Mauritania", "mr"),
    (0x060000, 0x0607FF, "Mauritius", "mu"),
    (0x062000, 0x062FFF, "Niger", "ne"),
    (0x064000, 0x064FFF, "Nigeria", "ng"),
    (0x068000, 0x068FFF, "Uganda", "ug"),
    (0x06A000, 0x06AFFF, "Qatar", "qa"),
    (0x06C000, 0x06CFFF, "Central African Republic", "cf"),
    (0x06E000, 0x06EFFF, "Rwanda", "rw"),
    (0x070000, 0x070FFF, "Senegal", "sn"),
    (0x074000, 0x0747FF, "Seychelles", "sc"),
    (0x076000, 0x0767FF, "Sierra Leone", "sl"),
    (0x078000, 0x078FFF, "Somalia", "so"),
    (0x07A000, 0x07A7FF, "Eswatini", "sz"),
    (0x07C000, 0x07CFFF, "Sudan", "sd"),
    (0x080000, 0x080FFF, "Tanzania", "tz"),
    (0x084000, 0x084FFF, "Chad", "td"),
    (0x088000, 0x088FFF, "Togo", "tg"),
    (0x08A000, 0x08AFFF, "Zambia", "zm"),
    (0x08C000, 0x08CFFF, "DR Congo", "cd"),
    (0x090000, 0x090FFF, "Angola", "ao"),
    (0x094000, 0x0947FF, "Benin", "bj"),
    (0x096000, 0x0967FF, "Cabo Verde", "cv"),
    (0x098000, 0x0987FF, "Djibouti", "dj"),
    (0x09A000, 0x09AFFF, "Gambia", "gm"),
    (0x09C000, 0x09CFFF, "Burkina Faso", "bf"),
    (0x09E000, 0x09E7FF, "São Tomé and Príncipe", "st"),
    (0x0A0000, 0x0A7FFF, "Algeria", "dz"),
    (0x0A8000, 0x0A8FFF, "Bahamas", "bs"),
    (0x0AA000, 0x0AA7FF, "Barbados", "bb"),
    (0x0AB000, 0x0AB7FF, "Belize", "bz"),
    (0x0AC000, 0x0ADFFF, "Colombia", "co"),
    (0x0AE000, 0x0AEFFF, "Costa Rica", "cr"),
    (0x0B0000, 0x0B0FFF, "Cuba", "cu"),
    (0x0B2000, 0x0B2FFF, "El Salvador", "sv"),
    (0x0B4000, 0x0B4FFF, "Guatemala", "gt"),
    (0x0B6000, 0x0B6FFF, "Guyana", "gy"),
    (0x0B8000, 0x0B8FFF, "Haiti", "ht"),
    (0x0BA000, 0x0BAFFF, "Honduras", "hn"),
    (0x0BC000, 0x0BC7FF, "Saint Vincent and the Grenadines", "vc"),
    (0x0BE000, 0x0BEFFF, "Jamaica", "jm"),
    (0x0C0000, 0x0C0FFF, "Nicaragua", "ni"),
    (0x0C2000, 0x0C2FFF, "Panama", "pa"),
    (0x0C4000, 0x0C4FFF, "Dominican Republic", "do"),
    (0x0C6000, 0x0C6FFF, "Trinidad and Tobago", "tt"),
    (0x0C8000, 0x0C8FFF, "Suriname", "sr"),
    (0x0CA000, 0x0CA7FF, "Antigua and Barbuda", "ag"),
    (0x0CC000, 0x0CC7FF, "Grenada", "gd"),
    (0x0D0000, 0x0D7FFF, "Mexico", "mx"),
    (0x0D8000, 0x0DFFFF, "Venezuela", "ve"),
    (0x100000, 0x1FFFFF, "Russia", "ru"),
    (0x201000, 0x2017FF, "Namibia", "na"),
    (0x202000, 0x2027FF, "Eritrea", "er"),
    (0x300000, 0x33FFFF, "Italy", "it"),
    (0x340000, 0x37FFFF, "Spain", "es"),
    (0x380000, 0x3BFFFF, "France", "fr"),
    (0x3C0000, 0x3FFFFF, "Germany", "de"),
    // UK territories — carved out before the UK catch-all
    (0x400000, 0x4001BF, "Bermuda", "bm"),
    (0x4001C0, 0x4001FF, "Cayman Islands", "ky"),
    (0x400300, 0x4003FF, "Turks and Caicos Islands", "tc"),
    (0x424135, 0x4241F2, "Cayman Islands", "ky"),
    (0x424200, 0x4246FF, "Bermuda", "bm"),
    (0x424700, 0x424899, "Cayman Islands", "ky"),
    (0x424B00, 0x424BFF, "Isle of Man", "im"),
    (0x43BE00, 0x43BEFF, "Bermuda", "bm"),
    (0x43E700, 0x43EAFD, "Isle of Man", "im"),
    (0x43EAFE, 0x43EEFF, "Guernsey", "gg"),
    (0x400000, 0x43FFFF, "United Kingdom", "gb"),
    (0x440000, 0x447FFF, "Austria", "at"),
    (0x448000, 0x44FFFF, "Belgium", "be"),
    (0x450000, 0x457FFF, "Bulgaria", "bg"),
    (0x458000, 0x45FFFF, "Denmark", "dk"),
    (0x460000, 0x467FFF, "Finland", "fi"),
    (0x468000, 0x46FFFF, "Greece", "gr"),
    (0x470000, 0x477FFF, "Hungary", "hu"),
    (0x478000, 0x47FFFF, "Norway", "no"),
    (0x480000, 0x487FFF, "Netherlands", "nl"),
    (0x488000, 0x48FFFF, "Poland", "pl"),
    (0x490000, 0x497FFF, "Portugal", "pt"),
    (0x498000, 0x49FFFF, "Czechia", "cz"),
    (0x4A0000, 0x4A7FFF, "Romania", "ro"),
    (0x4A8000, 0x4AFFFF, "Sweden", "se"),
    (0x4B0000, 0x4B7FFF, "Switzerland", "ch"),
    (0x4B8000, 0x4BFFFF, "Turkey", "tr"),
    (0x4C0000, 0x4C7FFF, "Serbia", "rs"),
    (0x4C8000, 0x4C87FF, "Cyprus", "cy"),
    (0x4CA000, 0x4CAFFF, "Ireland", "ie"),
    (0x4CC000, 0x4CCFFF, "Iceland", "is"),
    (0x4D0000, 0x4D07FF, "Luxembourg", "lu"),
    (0x4D2000, 0x4D27FF, "Malta", "mt"),
    (0x4D4000, 0x4D47FF, "Monaco", "mc"),
    (0x500000, 0x5007FF, "San Marino", "sm"),
    (0x501000, 0x5017FF, "Albania", "al"),
    (0x501800, 0x501FFF, "Croatia", "hr"),
    (0x502800, 0x502FFF, "Latvia", "lv"),
    (0x503800, 0x503FFF, "Lithuania", "lt"),
    (0x504800, 0x504FFF, "Moldova", "md"),
    (0x505800, 0x505FFF, "Slovakia", "sk"),
    (0x506800, 0x506FFF, "Slovenia", "si"),
    (0x507800, 0x507FFF, "Uzbekistan", "uz"),
    (0x508000, 0x50FFFF, "Ukraine", "ua"),
    (0x510000, 0x5107FF, "Belarus", "by"),
    (0x511000, 0x5117FF, "Estonia", "ee"),
    (0x512000, 0x5127FF, "North Macedonia", "mk"),
    (0x513000, 0x5137FF, "Bosnia and Herzegovina", "ba"),
    (0x514000, 0x5147FF, "Georgia", "ge"),
    (0x515000, 0x5157FF, "Tajikistan", "tj"),
    (0x516000, 0x5167FF, "Montenegro", "me"),
    (0x600000, 0x6007FF, "Armenia", "am"),
    (0x600800, 0x600FFF, "Azerbaijan", "az"),
    (0x601000, 0x6017FF, "Kyrgyzstan", "kg"),
    (0x601800, 0x601FFF, "Turkmenistan", "tm"),
    (0x680000, 0x6807FF, "Bhutan", "bt"),
    (0x681000, 0x6817FF, "Micronesia", "fm"),
    (0x682000, 0x6827FF, "Mongolia", "mn"),
    (0x683000, 0x6837FF, "Kazakhstan", "kz"),
    (0x684000, 0x6847FF, "Palau", "pw"),
    (0x700000, 0x700FFF, "Afghanistan", "af"),
    (0x702000, 0x702FFF, "Bangladesh", "bd"),
    (0x704000, 0x704FFF, "Myanmar", "mm"),
    (0x706000, 0x706FFF, "Kuwait", "kw"),
    (0x708000, 0x708FFF, "Laos", "la"),
    (0x70A000, 0x70AFFF, "Nepal", "np"),
    (0x70C000, 0x70C7FF, "Oman", "om"),
    (0x70E000, 0x70EFFF, "Cambodia", "kh"),
    (0x710000, 0x717FFF, "Saudi Arabia", "sa"),
    (0x718000, 0x71FFFF, "South Korea", "kr"),
    (0x720000, 0x727FFF, "North Korea", "kp"),
    (0x728000, 0x72FFFF, "Iraq", "iq"),
    (0x730000, 0x737FFF, "Iran", "ir"),
    (0x738000, 0x73FFFF, "Israel", "il"),
    (0x740000, 0x747FFF, "Jordan", "jo"),
    (0x748000, 0x74FFFF, "Lebanon", "lb"),
    (0x750000, 0x757FFF, "Malaysia", "my"),
    (0x758000, 0x75FFFF, "Philippines", "ph"),
    (0x760000, 0x767FFF, "Pakistan", "pk"),
    (0x768000, 0x76FFFF, "Singapore", "sg"),
    (0x770000, 0x777FFF, "Sri Lanka", "lk"),
    (0x778000, 0x77FFFF, "Syria", "sy"),
    (0x789000, 0x789FFF, "Hong Kong", "hk"),
    (0x780000, 0x7BFFFF, "China", "cn"),
    (0x7C0000, 0x7FFFFF, "Australia", "au"),
    (0x800000, 0x83FFFF, "India", "in"),
    (0x840000, 0x87FFFF, "Japan", "jp"),
    (0x880000, 0x887FFF, "Thailand", "th"),
    (0x888000, 0x88FFFF, "Viet Nam", "vn"),
    (0x890000, 0x890FFF, "Yemen", "ye"),
    (0x894000, 0x894FFF, "Bahrain", "bh"),
    (0x895000, 0x8957FF, "Brunei", "bn"),
    (0x896000, 0x896FFF, "United Arab Emirates", "ae"),
    (0x897000, 0x8977FF, "Solomon Islands", "sb"),
    (0x898000, 0x898FFF, "Papua New Guinea", "pg"),
    (0x899000, 0x8997FF, "Taiwan", "tw"),
    (0x8A0000, 0x8A7FFF, "Indonesia", "id"),
    (0x900000, 0x9007FF, "Marshall Islands", "mh"),
    (0x901000, 0x9017FF, "Cook Islands", "ck"),
    (0x902000, 0x9027FF, "Samoa", "ws"),
    (0xA00000, 0xAFFFFF, "United States", "us"),
    (0xC00000, 0xC3FFFF, "Canada", "ca"),
    (0xC80000, 0xC87FFF, "New Zealand", "nz"),
    (0xC88000, 0xC88FFF, "Fiji", "fj"),
    (0xC8A000, 0xC8A7FF, "Nauru", "nr"),
    (0xC8C000, 0xC8C7FF, "Saint Lucia", "lc"),
    (0xC8D000, 0xC8D7FF, "Tonga", "to"),
    (0xC8E000, 0xC8E7FF, "Kiribati", "ki"),
    (0xC90000, 0xC907FF, "Vanuatu", "vu"),
    (0xC91000, 0xC917FF, "Andorra", "ad"),
    (0xC92000, 0xC927FF, "Dominica", "dm"),
    (0xC93000, 0xC937FF, "Saint Kitts and Nevis", "kn"),
    (0xC94000, 0xC947FF, "South Sudan", "ss"),
    (0xC95000, 0xC957FF, "Timor-Leste", "tl"),
    (0xC97000, 0xC977FF, "Tuvalu", "tv"),
    (0xE00000, 0xE3FFFF, "Argentina", "ar"),
    (0xE40000, 0xE7FFFF, "Brazil", "br"),
    (0xE80000, 0xE80FFF, "Chile", "cl"),
    (0xE84000, 0xE84FFF, "Ecuador", "ec"),
    (0xE88000, 0xE88FFF, "Paraguay", "py"),
    (0xE8C000, 0xE8CFFF, "Peru", "pe"),
    (0xE90000, 0xE90FFF, "Uruguay", "uy"),
    (0xE94000, 0xE94FFF, "Bolivia", "bo"),
];

/// Whether range `i` of the table contains `addr`.
pub open spec fn range_contains(i: int, addr: u32) -> bool {
    RANGES@[i].0 <= addr <= RANGES@[i].1
}

/// Index of the first of the first `n` ranges that contains `addr`.
pub open spec fn first_range_in(addr: u32, n: int) -> Option<int>
    decreases n,
{
    if n <= 0 {
        None
    } else {
        match first_range_in(addr, n - 1) {
            Some(i) => Some(i),
            None => if range_contains(n - 1, addr) {
                Some(n - 1)
            } else {
                None
            },
        }
    }
}

/// Index of the first range of the whole table that contains `addr`.
pub open spec fn first_range(addr: u32) -> Option<int> {
    first_range_in(addr, RANGE_COUNT as int)
}

/// The country of range `i`.
pub open spec fn country_of(i: int) -> IcaoCountry {
    IcaoCountry { country: RANGES@[i].2, code: RANGES@[i].3 }
}

/// The country of the first range that contains `addr`.
pub open spec fn country_of_address(addr: u32) -> Option<IcaoCountry> {
    match first_range(addr) {
        Some(i) => Some(country_of(i)),
        None => None,
    }
}

/// What [`lookup`] answers for an address given as text.
pub open spec fn lookup_spec(hex: Seq<char>) -> Option<IcaoCountry> {
    match hex_u32_value(hex) {
        Some(addr) => country_of_address(addr),
        None => None,
    }
}

/// Looking up the hexadecimal text of an address finds the address's country.
pub proof fn lemma_lookup_hex_text(addr: u32, width: nat)
    ensures
        lookup_spec(hex_text(addr as nat, width)) == country_of_address(addr),
{
    lemma_hex_text_parses(addr, width);
}

proof fn lemma_first_range_in_facts(addr: u32, n: int)
    requires
        0 <= n <= RANGE_COUNT,
    ensures
        first_range_in(addr, n) matches Some(i) ==> 0 <= i < n && range_contains(i, addr)
            && forall|j: int| 0 <= j < i ==> !range_contains(j, addr),
        first_range_in(addr, n) is None ==> forall|j: int| 0 <= j < n ==> !range_contains(j, addr),
    decreases n,
{
    if n > 0 {
        lemma_first_range_in_facts(addr, n - 1);
    }
}

proof fn lemma_first_range_in_stable(addr: u32, n: int, m: int)
    requires
        0 <= n <= m <= RANGE_COUNT,
        first_range_in(addr, n) is Some,
    ensures
        first_range_in(addr, m) == first_range_in(addr, n),
    decreases m - n,
{
    if m > n {
        lemma_first_range_in_stable(addr, n, m - 1);
    }
}

/// Index of the first range that contains `addr`.
fn find_range(addr: u32) -> (r: Option<usize>)
    ensures
        r matches Some(i) ==> i < RANGE_COUNT && first_range(addr) == Some(i as int),
        r is None ==> first_range(addr) is None,
{
    let mut i: usize = 0;
    while i < RANGE_COUNT
        invariant
            i <= RANGE_COUNT,
            first_range_in(addr, i as int) is None,
        decreases RANGE_COUNT - i,
    {
        let (start, end, _, _) = RANGES[i];
        if start <= addr && addr <= end {
            proof {
                assert(first_range_in(addr, i + 1) == Some(i as int));
                lemma_first_range_in_stable(addr, i + 1, RANGE_COUNT as int);
            }
            return Some(i);
        }
        i = i + 1;
    }
    None
}

/// Look up the registration country for an ICAO hex string.
///
/// Returns `None` for text that is not a hexadecimal `u32` (as
/// `u32::from_str_radix(hex, 16)` reads it) and for unassigned addresses.
pub fn lookup(hex: &str) -> (r: Option<IcaoCountry>)
    ensures
        r == lookup_spec(hex@),
{
    let addr = match parse_hex_u32(hex) {
        Some(a) => a,
        None => return None,
    };
    match find_range(addr) {
        Some(i) => {
            let (_, _, country, code) = RANGES[i];
            Some(IcaoCountry { country, code })
        },
        None => None,
    }
}

// ───────────────────── The table: sub-ranges come first ─────────────────────

/// Range `i` lies within range `j`.
pub open spec fn range_within(i: int, j: int) -> bool {
    RANGES@[j].0 <= RANGES@[i].0 && RANGES@[i].1 <= RANGES@[j].1
}

/// Ranges `a` up to `b` are well formed and follow each other in address
/// order without overlap.
spec fn ordered_run(a: int, b: int) -> bool
    decreases b - a,
{
    RANGES@[a].0 <= RANGES@[a].1 && (a < b ==> RANGES@[a].1 < RANGES@[a + 1].0 && ordered_run(a + 1, b))
}

/// The table is three ordered runs: up to the UK territories, the UK up to
/// Hong Kong, and China to the end; the UK territories lie within the UK
/// and Hong Kong within China.
proof fn lemma_table_runs()
    ensures
        ordered_run(0, 91),
        ordered_run(92, 164),
        ordered_run(165, RANGE_COUNT - 1),
        RANGES@[82].0 == RANGES@[92].0,
        RANGES@[91].1 <= RANGES@[92].1,
        RANGES@[92].1 < RANGES@[165].0,
        RANGES@[163].1 < RANGES@[165].0,
        range_within(164, 165),
{
    reveal_with_fuel(ordered_run, 100);
}

/// In an ordered run, an earlier range ends before a later one starts.
proof fn lemma_run_ordered(a: int, b: int, x: int, y: int)
    requires
        ordered_run(a, b),
        a <= x <= y <= b,
    ensures
        RANGES@[x].0 <= RANGES@[x].1,
        RANGES@[y].0 <= RANGES@[y].1,
        x < y ==> RANGES@[x].1 < RANGES@[y].0,
    decreases b - a,
{
    if a < x {
        lemma_run_ordered(a + 1, b, x, y);
    } else if x < y {
        lemma_run_ordered(a + 1, b, x + 1, y);
    }
}

/// Of two overlapping ranges of the table, the earlier lies within the later.
pub proof fn lemma_table_nested(i: int, j: int, addr: u32)
    requires
        0 <= i < j < RANGE_COUNT,
        range_contains(i, addr),
        range_contains(j, addr),
    ensures
        range_within(i, j),
{
    lemma_table_runs();
    let last = RANGE_COUNT - 1;
    if j <= 91 {
        lemma_run_ordered(0, 91, i, j);
    } else if j <= 164 {
        if i >= 92 {
            lemma_run_ordered(92, 164, i, j);
        } else {
            lemma_run_ordered(0, 91, i, 91);
            lemma_run_ordered(92, 164, 92, j);
            if j == 92 {
                if i < 82 {
                    lemma_run_ordered(0, 91, i, 82);
                } else {
                    lemma_run_ordered(0, 91, 82, i);
                }
            }
        }
    } else {
        lemma_run_ordered(165, last, 165, j);
        if i >= 165 {
            lemma_run_ordered(165, last, i, j);
        } else if i >= 92 {
            lemma_run_ordered(92, 164, i, 164);
            if i <= 163 {
                lemma_run_ordered(92, 164, i, 163);
            }
        } else {
            lemma_run_ordered(0, 91, i, 91);
            lemma_run_ordered(92, 164, 92, 164);
        }
    }
}

/// The country [`lookup`] finds is the most specific one: the range it
/// comes from lies within every range of the table that holds the address.
pub proof fn lemma_first_range_innermost(addr: u32, j: int)
    requires
        0 <= j < RANGE_COUNT,
        range_contains(j, addr),
    ensures
        first_range(addr) matches Some(i) && range_contains(i, addr) && range_within(i, j),
{
    lemma_first_range_in_facts(addr, RANGE_COUNT as int);
    let i = first_range(addr)->0;
    if i != j {
        lemma_table_nested(i, j, addr);
    }
}

} // verus!
