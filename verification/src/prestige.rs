//! Bed Wars prestige styling: the colour scheme, star glyph and brackets of
//! each prestige, and the legacy colour-coded text that shows a level.

use rand::Rng;
use vstd::prelude::*;
use crate::text::{chars_of, decimal, decimal_chars, push_chars, push_str, seq_eq, starts_with, string_of, suffix_from};

verus! {

/// Number of colour schemes; scheme `i` covers levels `100 * i ..= 100 * i + 99`
/// and the last one every level from 10000 on.
pub const SCHEME_COUNT: usize = 101;

/// The name of scheme `i`.
pub open spec fn scheme_name(i: int) -> Seq<char> {
    if i == 0 {
        "none"@
    } else if i == 1 {
        "iron"@
    } else if i == 2 {
        "gold"@
    } else if i == 3 {
        "diamond"@
    } else if i == 4 {
        "emerald"@
    } else if i == 5 {
        "sapphire"@
    } else if i == 6 {
        "ruby"@
    } else if i == 7 {
        "crystal"@
    } else if i == 8 {
        "opal"@
    } else if i == 9 {
        "amethyst"@
    } else if i == 10 {
        "rainbow"@
    } else if i == 11 {
        "iron_prime"@
    } else if i == 12 {
        "gold_prime"@
    } else if i == 13 {
        "diamond_prime"@
    } else if i == 14 {
        "emerald_prime"@
    } else if i == 15 {
        "sapphire_prime"@
    } else if i == 16 {
        "ruby_prime"@
    } else if i == 17 {
        "crystal_prime"@
    } else if i == 18 {
        "opal_prime"@
    } else if i == 19 {
        "amethyst_prime"@
    } else if i == 20 {
        "mirror"@
    } else if i == 21 {
        "light"@
    } else if i == 22 {
        "dawn"@
    } else if i == 23 {
        "dusk"@
    } else if i == 24 {
        "air"@
    } else if i == 25 {
        "wind"@
    } else if i == 26 {
        "nebula"@
    } else if i == 27 {
        "thunder"@
    } else if i == 28 {
        "earth"@
    } else if i == 29 {
        "water"@
    } else if i == 30 {
        "fire"@
    } else if i == 31 {
        "sunrise"@
    } else if i == 32 {
        "eclipse"@
    } else if i == 33 {
        "gamma"@
    } else if i == 34 {
        "majestic"@
    } else if i == 35 {
        "andesine"@
    } else if i == 36 {
        "marine"@
    } else if i == 37 {
        "element"@
    } else if i == 38 {
        "galaxy"@
    } else if i == 39 {
        "atomic"@
    } else if i == 40 {
        "sunset"@
    } else if i == 41 {
        "time"@
    } else if i == 42 {
        "winter"@
    } else if i == 43 {
        "obsidian"@
    } else if i == 44 {
        "spring"@
    } else if i == 45 {
        "ice"@
    } else if i == 46 {
        "summer"@
    } else if i == 47 {
        "spinel"@
    } else if i == 48 {
        "autumn"@
    } else if i == 49 {
        "mystic"@
    } else if i == 50 {
        "eternal"@
    } else if i == 51 {
        "burnout"@
    } else if i == 52 {
        "cooldown"@
    } else if i == 53 {
        "obliteration"@
    } else if i == 54 {
        "ender"@
    } else if i == 55 {
        "brust"@
    } else if i == 56 {
        "comical"@
    } else if i == 57 {
        "lusterlost"@
    } else if i == 58 {
        "maelstrom"@
    } else if i == 59 {
        "time_undone"@
    } else if i == 60 {
        "umbrella"@
    } else if i == 61 {
        "luminous"@
    } else if i == 62 {
        "tortilla"@
    } else if i == 63 {
        "corn"@
    } else if i == 64 {
        "bittersweet"@
    } else if i == 65 {
        "sweetsour"@
    } else if i == 66 {
        "pop"@
    } else if i == 67 {
        "bubblegum"@
    } else if i == 68 {
        "contrast"@
    } else if i == 69 {
        "blended"@
    } else if i == 70 {
        "allay"@
    } else if i == 71 {
        "blaze"@
    } else if i == 72 {
        "creeper"@
    } else if i == 73 {
        "drowned"@
    } else if i == 74 {
        "enderman"@
    } else if i == 75 {
        "frog"@
    } else if i == 76 {
        "ghast"@
    } else if i == 77 {
        "hoglin"@
    } else if i == 78 {
        "iron_golem"@
    } else if i == 79 {
        "jerry"@
    } else if i == 80 {
        "kringle"@
    } else if i == 81 {
        "liquid"@
    } else if i == 82 {
        "mint"@
    } else if i == 83 {
        "neglected"@
    } else if i == 84 {
        "onion"@
    } else if i == 85 {
        "poser"@
    } else if i == 86 {
        "quartz"@
    } else if i == 87 {
        "rich"@
    } else if i == 88 {
        "sanguine"@
    } else if i == 89 {
        "titanic"@
    } else if i == 90 {
        "unorthodox"@
    } else if i == 91 {
        "volcanic"@
    } else if i == 92 {
        "weeping_cherry"@
    } else if i == 93 {
        "x-ray"@
    } else if i == 94 {
        "yearn"@
    } else if i == 95 {
        "zebra"@
    } else if i == 96 {
        "caution"@
    } else if i == 97 {
        "indescribable"@
    } else if i == 98 {
        "forgotten"@
    } else if i == 99 {
        "fuse"@
    } else {
        "prestigious"@
    }
}

/// The colour codes of scheme `i`: opening bracket, the four digit positions,
/// the star, the closing bracket; one-colour schemes use their colour everywhere.
pub open spec fn scheme_colors(i: int) -> Seq<char> {
    if i == 0 {
        "7"@
    } else if i == 1 {
        "f"@
    } else if i == 2 {
        "6"@
    } else if i == 3 {
        "b"@
    } else if i == 4 {
        "2"@
    } else if i == 5 {
        "3"@
    } else if i == 6 {
        "4"@
    } else if i == 7 {
        "d"@
    } else if i == 8 {
        "9"@
    } else if i == 9 {
        "5"@
    } else if i == 10 {
        "c6eabd5"@
    } else if i == 11 {
        "7ffff77"@
    } else if i == 12 {
        "7eeee67"@
    } else if i == 13 {
        "7bbbb37"@
    } else if i == 14 {
        "7aaaa27"@
    } else if i == 15 {
        "7333397"@
    } else if i == 16 {
        "7cccc47"@
    } else if i == 17 {
        "7dddd57"@
    } else if i == 18 {
        "7999917"@
    } else if i == 19 {
        "7555587"@
    } else if i == 20 {
        "87ff778"@
    } else if i == 21 {
        "ffee666"@
    } else if i == 22 {
        "66ffb33"@
    } else if i == 23 {
        "55dd6ee"@
    } else if i == 24 {
        "bbff778"@
    } else if i == 25 {
        "ffaa222"@
    } else if i == 26 {
        "44ccdd5"@
    } else if i == 27 {
        "eeff888"@
    } else if i == 28 {
        "aa2266e"@
    } else if i == 29 {
        "bb33991"@
    } else if i == 30 {
        "ee66cc4"@
    } else if i == 31 {
        "993366e"@
    } else if i == 32 {
        "c4774cc"@
    } else if i == 33 {
        "999dcc4"@
    } else if i == 34 {
        "2add552"@
    } else if i == 35 {
        "cc442aa"@
    } else if i == 36 {
        "aaab991"@
    } else if i == 37 {
        "44ccb33"@
    } else if i == 38 {
        "11955d1"@
    } else if i == 39 {
        "ccaa399"@
    } else if i == 40 {
        "55cc66e"@
    } else if i == 41 {
        "ee6cdd5"@
    } else if i == 42 {
        "193bf77"@
    } else if i == 43 {
        "0588550"@
    } else if i == 44 {
        "22ae65d"@
    } else if i == 45 {
        "ffbb333"@
    } else if i == 46 {
        "3be66d5"@
    } else if i == 47 {
        "f4cc919"@
    } else if i == 48 {
        "55c66b3"@
    } else if i == 49 {
        "2afffa2"@
    } else if i == 50 {
        "4459910"@
    } else if i == 51 {
        "4cc6ef4"@
    } else if i == 52 {
        "193bfe1"@
    } else if i == 53 {
        "5defed5"@
    } else if i == 54 {
        "3a282a3"@
    } else if i == 55 {
        "2aefbd5"@
    } else if i == 56 {
        "4cefec4"@
    } else if i == 57 {
        "4623958"@
    } else if i == 58 {
        "5c6fb39"@
    } else if i == 59 {
        "7087ff7"@
    } else if i == 60 {
        "cffffcf"@
    } else if i == 61 {
        "6efffb3"@
    } else if i == 62 {
        "efe66fe"@
    } else if i == 63 {
        "aeeeea2"@
    } else if i == 64 {
        "bbcccaa"@
    } else if i == 65 {
        "33aafa3"@
    } else if i == 66 {
        "9ddddb9"@
    } else if i == 67 {
        "5ddddf5"@
    } else if i == 68 {
        "066eeff"@
    } else if i == 69 {
        "aaaa228"@
    } else if i == 70 {
        "3bbbbf3"@
    } else if i == 71 {
        "4c6ec6e"@
    } else if i == 72 {
        "2af2af8"@
    } else if i == 73 {
        "233bba2"@
    } else if i == 74 {
        "88888d8"@
    } else if i == 75 {
        "6622fff"@
    } else if i == 76 {
        "fff77c8"@
    } else if i == 77 {
        "dcccc6d"@
    } else if i == 78 {
        "87fffe8"@
    } else if i == 79 {
        "6f262f6"@
    } else if i == 80 {
        "2aaac42"@
    } else if i == 81 {
        "87fb391"@
    } else if i == 82 {
        "fffffaf"@
    } else if i == 83 {
        "8844cc8"@
    } else if i == 84 {
        "fdddaaf"@
    } else if i == 85 {
        "36666e3"@
    } else if i == 86 {
        "dffffed"@
    } else if i == 87 {
        "8666668"@
    } else if i == 88 {
        "444ccff"@
    } else if i == 89 {
        "9bbb339"@
    } else if i == 90 {
        "ddddd58"@
    } else if i == 91 {
        "0c66cc4"@
    } else if i == 92 {
        "2dddda2"@
    } else if i == 93 {
        "f8888ff"@
    } else if i == 94 {
        "e648888"@
    } else if i == 95 {
        "008877f"@
    } else if i == 96 {
        "eee00e0"@
    } else if i == 97 {
        "dddeebe"@
    } else if i == 98 {
        "0888880"@
    } else if i == 99 {
        "87fffef"@
    } else {
        "9bfffc4"@
    }
}

/// A colour scheme.
pub struct Scheme {
    pub name: &'static str,
    pub colors: &'static str,
}

/// The scheme at index `i` of the table.
pub fn scheme_at(i: usize) -> (s: Scheme)
    requires
        i < SCHEME_COUNT,
    ensures
        s.name@ == scheme_name(i as int),
        s.colors@ == scheme_colors(i as int),
        s.colors@.len() >= 1,
{
    match i {
        0 => {
            proof { reveal_strlit("7"); }
            Scheme { name: "none", colors: "7" }
        }
        1 => {
            proof { reveal_strlit("f"); }
            Scheme { name: "iron", colors: "f" }
        }
        2 => {
            proof { reveal_strlit("6"); }
            Scheme { name: "gold", colors: "6" }
        }
        3 => {
            proof { reveal_strlit("b"); }
            Scheme { name: "diamond", colors: "b" }
        }
        4 => {
            proof { reveal_strlit("2"); }
            Scheme { name: "emerald", colors: "2" }
        }
        5 => {
            proof { reveal_strlit("3"); }
            Scheme { name: "sapphire", colors: "3" }
        }
        6 => {
            proof { reveal_strlit("4"); }
            Scheme { name: "ruby", colors: "4" }
        }
        7 => {
            proof { reveal_strlit("d"); }
            Scheme { name: "crystal", colors: "d" }
        }
        8 => {
            proof { reveal_strlit("9"); }
            Scheme { name: "opal", colors: "9" }
        }
        9 => {
            proof { reveal_strlit("5"); }
            Scheme { name: "amethyst", colors: "5" }
        }
        10 => {
            proof { reveal_strlit("c6eabd5"); }
            Scheme { name: "rainbow", colors: "c6eabd5" }
        }
        11 => {
            proof { reveal_strlit("7ffff77"); }
            Scheme { name: "iron_prime", colors: "7ffff77" }
        }
        12 => {
            proof { reveal_strlit("7eeee67"); }
            Scheme { name: "gold_prime", colors: "7eeee67" }
        }
        13 => {
            proof { reveal_strlit("7bbbb37"); }
            Scheme { name: "diamond_prime", colors: "7bbbb37" }
        }
        14 => {
            proof { reveal_strlit("7aaaa27"); }
            Scheme { name: "emerald_prime", colors: "7aaaa27" }
        }
        15 => {
            proof { reveal_strlit("7333397"); }
            Scheme { name: "sapphire_prime", colors: "7333397" }
        }
        16 => {
            proof { reveal_strlit("7cccc47"); }
            Scheme { name: "ruby_prime", colors: "7cccc47" }
        }
        17 => {
            proof { reveal_strlit("7dddd57"); }
            Scheme { name: "crystal_prime", colors: "7dddd57" }
        }
        18 => {
            proof { reveal_strlit("7999917"); }
            Scheme { name: "opal_prime", colors: "7999917" }
        }
        19 => {
            proof { reveal_strlit("7555587"); }
            Scheme { name: "amethyst_prime", colors: "7555587" }
        }
        20 => {
            proof { reveal_strlit("87ff778"); }
            Scheme { name: "mirror", colors: "87ff778" }
        }
        21 => {
            proof { reveal_strlit("ffee666"); }
            Scheme { name: "light", colors: "ffee666" }
        }
        22 => {
            proof { reveal_strlit("66ffb33"); }
            Scheme { name: "dawn", colors: "66ffb33" }
        }
        23 => {
            proof { reveal_strlit("55dd6ee"); }
            Scheme { name: "dusk", colors: "55dd6ee" }
        }
        24 => {
            proof { reveal_strlit("bbff778"); }
            Scheme { name: "air", colors: "bbff778" }
        }
        25 => {
            proof { reveal_strlit("ffaa222"); }
            Scheme { name: "wind", colors: "ffaa222" }
        }
        26 => {
            proof { reveal_strlit("44ccdd5"); }
            Scheme { name: "nebula", colors: "44ccdd5" }
        }
        27 => {
            proof { reveal_strlit("eeff888"); }
            Scheme { name: "thunder", colors: "eeff888" }
        }
        28 => {
            proof { reveal_strlit("aa2266e"); }
            Scheme { name: "earth", colors: "aa2266e" }
        }
        29 => {
            proof { reveal_strlit("bb33991"); }
            Scheme { name: "water", colors: "bb33991" }
        }
        30 => {
            proof { reveal_strlit("ee66cc4"); }
            Scheme { name: "fire", colors: "ee66cc4" }
        }
        31 => {
            proof { reveal_strlit("993366e"); }
            Scheme { name: "sunrise", colors: "993366e" }
        }
        32 => {
            proof { reveal_strlit("c4774cc"); }
            Scheme { name: "eclipse", colors: "c4774cc" }
        }
        33 => {
            proof { reveal_strlit("999dcc4"); }
            Scheme { name: "gamma", colors: "999dcc4" }
        }
        34 => {
            proof { reveal_strlit("2add552"); }
            Scheme { name: "majestic", colors: "2add552" }
        }
        35 => {
            proof { reveal_strlit("cc442aa"); }
            Scheme { name: "andesine", colors: "cc442aa" }
        }
        36 => {
            proof { reveal_strlit("aaab991"); }
            Scheme { name: "marine", colors: "aaab991" }
        }
        37 => {
            proof { reveal_strlit("44ccb33"); }
            Scheme { name: "element", colors: "44ccb33" }
        }
        38 => {
            proof { reveal_strlit("11955d1"); }
            Scheme { name: "galaxy", colors: "11955d1" }
        }
        39 => {
            proof { reveal_strlit("ccaa399"); }
            Scheme { name: "atomic", colors: "ccaa399" }
        }
        40 => {
            proof { reveal_strlit("55cc66e"); }
            Scheme { name: "sunset", colors: "55cc66e" }
        }
        41 => {
            proof { reveal_strlit("ee6cdd5"); }
            Scheme { name: "time", colors: "ee6cdd5" }
        }
        42 => {
            proof { reveal_strlit("193bf77"); }
            Scheme { name: "winter", colors: "193bf77" }
        }
        43 => {
            proof { reveal_strlit("0588550"); }
            Scheme { name: "obsidian", colors: "0588550" }
        }
        44 => {
            proof { reveal_strlit("22ae65d"); }
            Scheme { name: "spring", colors: "22ae65d" }
        }
        45 => {
            proof { reveal_strlit("ffbb333"); }
            Scheme { name: "ice", colors: "ffbb333" }
        }
        46 => {
            proof { reveal_strlit("3be66d5"); }
            Scheme { name: "summer", colors: "3be66d5" }
        }
        47 => {
            proof { reveal_strlit("f4cc919"); }
            Scheme { name: "spinel", colors: "f4cc919" }
        }
        48 => {
            proof { reveal_strlit("55c66b3"); }
            Scheme { name: "autumn", colors: "55c66b3" }
        }
        49 => {
            proof { reveal_strlit("2afffa2"); }
            Scheme { name: "mystic", colors: "2afffa2" }
        }
        50 => {
            proof { reveal_strlit("4459910"); }
            Scheme { name: "eternal", colors: "4459910" }
        }
        51 => {
            proof { reveal_strlit("4cc6ef4"); }
            Scheme { name: "burnout", colors: "4cc6ef4" }
        }
        52 => {
            proof { reveal_strlit("193bfe1"); }
            Scheme { name: "cooldown", colors: "193bfe1" }
        }
        53 => {
            proof { reveal_strlit("5defed5"); }
            Scheme { name: "obliteration", colors: "5defed5" }
        }
        54 => {
            proof { reveal_strlit("3a282a3"); }
            Scheme { name: "ender", colors: "3a282a3" }
        }
        55 => {
            proof { reveal_strlit("2aefbd5"); }
            Scheme { name: "brust", colors: "2aefbd5" }
        }
        56 => {
            proof { reveal_strlit("4cefec4"); }
            Scheme { name: "comical", colors: "4cefec4" }
        }
        57 => {
            proof { reveal_strlit("4623958"); }
            Scheme { name: "lusterlost", colors: "4623958" }
        }
        58 => {
            proof { reveal_strlit("5c6fb39"); }
            Scheme { name: "maelstrom", colors: "5c6fb39" }
        }
        59 => {
            proof { reveal_strlit("7087ff7"); }
            Scheme { name: "time_undone", colors: "7087ff7" }
        }
        60 => {
            proof { reveal_strlit("cffffcf"); }
            Scheme { name: "umbrella", colors: "cffffcf" }
        }
        61 => {
            proof { reveal_strlit("6efffb3"); }
            Scheme { name: "luminous", colors: "6efffb3" }
        }
        62 => {
            proof { reveal_strlit("efe66fe"); }
            Scheme { name: "tortilla", colors: "efe66fe" }
        }
        63 => {
            proof { reveal_strlit("aeeeea2"); }
            Scheme { name: "corn", colors: "aeeeea2" }
        }
        64 => {
            proof { reveal_strlit("bbcccaa"); }
            Scheme { name: "bittersweet", colors: "bbcccaa" }
        }
        65 => {
            proof { reveal_strlit("33aafa3"); }
            Scheme { name: "sweetsour", colors: "33aafa3" }
        }
        66 => {
            proof { reveal_strlit("9ddddb9"); }
            Scheme { name: "pop", colors: "9ddddb9" }
        }
        67 => {
            proof { reveal_strlit("5ddddf5"); }
            Scheme { name: "bubblegum", colors: "5ddddf5" }
        }
        68 => {
            proof { reveal_strlit("066eeff"); }
            Scheme { name: "contrast", colors: "066eeff" }
        }
        69 => {
            proof { reveal_strlit("aaaa228"); }
            Scheme { name: "blended", colors: "aaaa228" }
        }
        70 => {
            proof { reveal_strlit("3bbbbf3"); }
            Scheme { name: "allay", colors: "3bbbbf3" }
        }
        71 => {
            proof { reveal_strlit("4c6ec6e"); }
            Scheme { name: "blaze", colors: "4c6ec6e" }
        }
        72 => {
            proof { reveal_strlit("2af2af8"); }
            Scheme { name: "creeper", colors: "2af2af8" }
        }
        73 => {
            proof { reveal_strlit("233bba2"); }
            Scheme { name: "drowned", colors: "233bba2" }
        }
        74 => {
            proof { reveal_strlit("88888d8"); }
            Scheme { name: "enderman", colors: "88888d8" }
        }
        75 => {
            proof { reveal_strlit("6622fff"); }
            Scheme { name: "frog", colors: "6622fff" }
        }
        76 => {
            proof { reveal_strlit("fff77c8"); }
            Scheme { name: "ghast", colors: "fff77c8" }
        }
        77 => {
            proof { reveal_strlit("dcccc6d"); }
            Scheme { name: "hoglin", colors: "dcccc6d" }
        }
        78 => {
            proof { reveal_strlit("87fffe8"); }
            Scheme { name: "iron_golem", colors: "87fffe8" }
        }
        79 => {
            proof { reveal_strlit("6f262f6"); }
            Scheme { name: "jerry", colors: "6f262f6" }
        }
        80 => {
            proof { reveal_strlit("2aaac42"); }
            Scheme { name: "kringle", colors: "2aaac42" }
        }
        81 => {
            proof { reveal_strlit("87fb391"); }
            Scheme { name: "liquid", colors: "87fb391" }
        }
        82 => {
            proof { reveal_strlit("fffffaf"); }
            Scheme { name: "mint", colors: "fffffaf" }
        }
        83 => {
            proof { reveal_strlit("8844cc8"); }
            Scheme { name: "neglected", colors: "8844cc8" }
        }
        84 => {
            proof { reveal_strlit("fdddaaf"); }
            Scheme { name: "onion", colors: "fdddaaf" }
        }
        85 => {
            proof { reveal_strlit("36666e3"); }
            Scheme { name: "poser", colors: "36666e3" }
        }
        86 => {
            proof { reveal_strlit("dffffed"); }
            Scheme { name: "quartz", colors: "dffffed" }
        }
        87 => {
            proof { reveal_strlit("8666668"); }
            Scheme { name: "rich", colors: "8666668" }
        }
        88 => {
            proof { reveal_strlit("444ccff"); }
            Scheme { name: "sanguine", colors: "444ccff" }
        }
        89 => {
            proof { reveal_strlit("9bbb339"); }
            Scheme { name: "titanic", colors: "9bbb339" }
        }
        90 => {
            proof { reveal_strlit("ddddd58"); }
            Scheme { name: "unorthodox", colors: "ddddd58" }
        }
        91 => {
            proof { reveal_strlit("0c66cc4"); }
            Scheme { name: "volcanic", colors: "0c66cc4" }
        }
        92 => {
            proof { reveal_strlit("2dddda2"); }
            Scheme { name: "weeping_cherry", colors: "2dddda2" }
        }
        93 => {
            proof { reveal_strlit("f8888ff"); }
            Scheme { name: "x-ray", colors: "f8888ff" }
        }
        94 => {
            proof { reveal_strlit("e648888"); }
            Scheme { name: "yearn", colors: "e648888" }
        }
        95 => {
            proof { reveal_strlit("008877f"); }
            Scheme { name: "zebra", colors: "008877f" }
        }
        96 => {
            proof { reveal_strlit("eee00e0"); }
            Scheme { name: "caution", colors: "eee00e0" }
        }
        97 => {
            proof { reveal_strlit("dddeebe"); }
            Scheme { name: "indescribable", colors: "dddeebe" }
        }
        98 => {
            proof { reveal_strlit("0888880"); }
            Scheme { name: "forgotten", colors: "0888880" }
        }
        99 => {
            proof { reveal_strlit("87fffef"); }
            Scheme { name: "fuse", colors: "87fffef" }
        }
        _ => {
            proof { reveal_strlit("9bfffc4"); }
            Scheme { name: "prestigious", colors: "9bfffc4" }
        }
    }
}


/// Index of the scheme that styles `level` by default.
pub open spec fn level_scheme_index(level: int) -> int {
    if level / 100 < 100 { level / 100 } else { 100 }
}

/// The colour used at position `index` of a scheme: positions past the end
/// reuse the last colour.
pub open spec fn color_at(colors: Seq<char>, index: int) -> char {
    if index < colors.len() - 1 { colors[index] } else { colors[colors.len() - 1] }
}

impl Scheme {
    /// The colour at position `index`, clamped to the last colour.
    pub fn color(&self, index: usize) -> (c: char)
        requires
            self.colors@.len() >= 1,
        ensures
            c == color_at(self.colors@, index as int),
    {
        let len = self.colors.unicode_len();
        let i = if index < len - 1 { index } else { len - 1 };
        self.colors.get_char(i)
    }

    /// The colour of the opening bracket.
    pub fn open(&self) -> (c: char)
        requires
            self.colors@.len() >= 1,
        ensures
            c == color_at(self.colors@, 0),
    {
        self.color(0)
    }

    /// The colour of the `i`-th digit; digits past the fourth share its colour.
    pub fn digit(&self, i: usize) -> (c: char)
        requires
            self.colors@.len() >= 1,
        ensures
            c == color_at(self.colors@, 1 + (if i < 3 { i as int } else { 3 })),
    {
        self.color(1 + if i < 3 { i } else { 3 })
    }

    /// The colour of the star.
    pub fn icon(&self) -> (c: char)
        requires
            self.colors@.len() >= 1,
        ensures
            c == color_at(self.colors@, 5),
    {
        self.color(5)
    }

    /// The colour of the closing bracket.
    pub fn close(&self) -> (c: char)
        requires
            self.colors@.len() >= 1,
        ensures
            c == color_at(self.colors@, 6),
    {
        self.color(6)
    }
}

/// The scheme that styles `level` by default.
pub fn scheme_for_level(level: u32) -> (s: Scheme)
    ensures
        s.name@ == scheme_name(level_scheme_index(level as int)),
        s.colors@ == scheme_colors(level_scheme_index(level as int)),
        s.colors@.len() >= 1,
{
    let i = level / 100;
    let i: usize = if i < 100 { i as usize } else { 100 };
    scheme_at(i)
}

/// The prefix of a scheme's cosmetic id.
pub open spec fn scheme_id_prefix() -> Seq<char> {
    "prestige_scheme_"@
}

/// Index of the first scheme at or after `from` whose name is `name`.
pub open spec fn scheme_named_from(name: Seq<char>, from: int) -> Option<int>
    decreases 101 - from,
{
    if from >= 101 || from < 0 {
        None
    } else if scheme_name(from) == name {
        Some(from)
    } else {
        scheme_named_from(name, from + 1)
    }
}

/// Index of the scheme a cosmetic id selects, if any.
pub open spec fn scheme_index_for_id(id: Seq<char>) -> Option<int> {
    if crate::text::has_prefix(id, scheme_id_prefix()) {
        scheme_named_from(id.skip(scheme_id_prefix().len() as int), 0)
    } else {
        None
    }
}

/// The scheme a `prestige_scheme_<name>` cosmetic id selects.
pub fn scheme_by_name(id: &str) -> (r: Option<Scheme>)
    ensures
        r.is_none() == scheme_index_for_id(id@).is_none(),
        r.is_some() ==> r.unwrap().name@ == scheme_name(scheme_index_for_id(id@).unwrap())
            && r.unwrap().colors@ == scheme_colors(scheme_index_for_id(id@).unwrap())
            && r.unwrap().colors@.len() >= 1,
{
    let v = chars_of(id);
    proof {
        reveal_strlit("prestige_scheme_");
    }
    if !starts_with(&v, "prestige_scheme_") {
        return None;
    }
    let rest = suffix_from(&v, 16);
    let mut i: usize = 0;
    while i < SCHEME_COUNT
        invariant
            i <= SCHEME_COUNT,
            rest@ == id@.skip(scheme_id_prefix().len() as int),
            crate::text::has_prefix(id@, scheme_id_prefix()),
            scheme_named_from(rest@, 0) == scheme_named_from(rest@, i as int),
        decreases SCHEME_COUNT - i,
    {
        let s = scheme_at(i);
        let name = chars_of(s.name);
        if seq_eq(&name, &rest) {
            return Some(s);
        }
        i = i + 1;
    }
    None
}

/// The glyph of star `i` of the star table.
pub open spec fn star_glyph(i: int) -> Seq<char> {
    if i == 0 {
        "\u{272b}"@
    } else if i == 1 {
        "\u{272a}"@
    } else if i == 2 {
        "\u{269d}"@
    } else if i == 3 {
        "\u{2725}"@
    } else if i == 4 {
        "\u{272d}"@
    } else if i == 5 {
        "\u{2726}"@
    } else if i == 6 {
        "\u{2735}"@
    } else if i == 7 {
        "\u{2730}"@
    } else if i == 8 {
        "\u{272f}"@
    } else {
        Seq::empty()
    }
}

/// The cosmetic id of star `i` of the star table.
pub open spec fn star_id(i: int) -> Seq<char> {
    if i == 0 {
        "star_black_open"@
    } else if i == 1 {
        "star_white_circled"@
    } else if i == 2 {
        "star_white_outlined"@
    } else if i == 3 {
        "star_four_clubs"@
    } else if i == 4 {
        "star_black_outlined"@
    } else if i == 5 {
        "star_four_pointed"@
    } else if i == 6 {
        "star_pinwheel"@
    } else if i == 7 {
        "star_hollow"@
    } else if i == 8 {
        "star_nautical"@
    } else {
        Seq::empty()
    }
}

/// The cosmetic id of bracket pair `i`.
pub open spec fn bracket_id(i: int) -> Seq<char> {
    if i == 0 {
        "prestige_bracket_none"@
    } else if i == 1 {
        "prestige_bracket_curly"@
    } else if i == 2 {
        "prestige_bracket_angled"@
    } else if i == 3 {
        "prestige_bracket_parenthesis"@
    } else if i == 4 {
        "prestige_bracket_double_angle_quotation_mark"@
    } else {
        Seq::empty()
    }
}

/// The opening bracket of pair `i`.
pub open spec fn bracket_open(i: int) -> Seq<char> {
    if i == 0 {
        "["@
    } else if i == 1 {
        "{"@
    } else if i == 2 {
        "<"@
    } else if i == 3 {
        "("@
    } else if i == 4 {
        "\u{ab}"@
    } else {
        Seq::empty()
    }
}

/// The closing bracket of pair `i`.
pub open spec fn bracket_close(i: int) -> Seq<char> {
    if i == 0 {
        "]"@
    } else if i == 1 {
        "}"@
    } else if i == 2 {
        ">"@
    } else if i == 3 {
        ")"@
    } else if i == 4 {
        "\u{bb}"@
    } else {
        Seq::empty()
    }
}

/// Number of star cosmetics.
pub const STAR_COUNT: usize = 9;

/// Number of bracket cosmetics.
pub const BRACKET_COUNT: usize = 5;

/// The default star of a level: one glyph per thousand levels, the fifth for 4000 and up.
pub open spec fn level_star(level: int) -> Seq<char> {
    if level / 1000 <= 3 { star_glyph(level / 1000) } else { star_glyph(4) }
}

/// The star glyph shown for `level` when no star cosmetic is active.
pub fn star_for_level(level: u32) -> (s: &'static str)
    ensures
        s@ == level_star(level as int),
{
    let k = level / 1000;
    if k == 0 {
        "\u{272b}"
    } else if k == 1 {
        "\u{272a}"
    } else if k == 2 {
        "\u{269d}"
    } else if k == 3 {
        "\u{2725}"
    } else {
        "\u{272d}"
    }
}

/// Entry `i` of the star table, as (id, glyph).
pub fn star_entry(i: usize) -> (r: (&'static str, &'static str))
    requires
        i < STAR_COUNT,
    ensures
        r.0@ == star_id(i as int),
        r.1@ == star_glyph(i as int),
{
    match i {

        0 => ("star_black_open", "\u{272b}"),
        1 => ("star_white_circled", "\u{272a}"),
        2 => ("star_white_outlined", "\u{269d}"),
        3 => ("star_four_clubs", "\u{2725}"),
        4 => ("star_black_outlined", "\u{272d}"),
        5 => ("star_four_pointed", "\u{2726}"),
        6 => ("star_pinwheel", "\u{2735}"),
        7 => ("star_hollow", "\u{2730}"),
        _ => ("star_nautical", "\u{272f}"),
    }
}

/// Entry `i` of the bracket table, as (id, (open, close)).
pub fn bracket_entry(i: usize) -> (r: (&'static str, (&'static str, &'static str)))
    requires
        i < BRACKET_COUNT,
    ensures
        r.0@ == bracket_id(i as int),
        r.1.0@ == bracket_open(i as int),
        r.1.1@ == bracket_close(i as int),
{
    match i {
        0 => ("prestige_bracket_none", ("[", "]")),
        1 => ("prestige_bracket_curly", ("{", "}")),
        2 => ("prestige_bracket_angled", ("<", ">")),
        3 => ("prestige_bracket_parenthesis", ("(", ")")),
        _ => ("prestige_bracket_double_angle_quotation_mark", ("\u{ab}", "\u{bb}")),
    }
}

/// Index of the first star at or after `from` whose id is `id`.
pub open spec fn star_index_from(id: Seq<char>, from: int) -> Option<int>
    decreases 9 - from,
{
    if from >= 9 || from < 0 {
        None
    } else if star_id(from) == id {
        Some(from)
    } else {
        star_index_from(id, from + 1)
    }
}

/// Index of the first bracket pair at or after `from` whose id is `id`.
pub open spec fn bracket_index_from(id: Seq<char>, from: int) -> Option<int>
    decreases 5 - from,
{
    if from >= 5 || from < 0 {
        None
    } else if bracket_id(from) == id {
        Some(from)
    } else {
        bracket_index_from(id, from + 1)
    }
}

/// The glyph of the star cosmetic with id `id`.
pub fn star_by_id(id: &str) -> (r: Option<&'static str>)
    ensures
        r.is_none() == star_index_from(id@, 0).is_none(),
        r.is_some() ==> r.unwrap()@ == star_glyph(star_index_from(id@, 0).unwrap()),
{
    let v = chars_of(id);
    let mut i: usize = 0;
    while i < STAR_COUNT
        invariant
            i <= STAR_COUNT,
            v@ == id@,
            star_index_from(id@, 0) == star_index_from(id@, i as int),
        decreases STAR_COUNT - i,
    {
        let (name, glyph) = star_entry(i);
        let n = chars_of(name);
        if seq_eq(&n, &v) {
            return Some(glyph);
        }
        i = i + 1;
    }
    None
}

/// The (open, close) pair of the bracket cosmetic with id `id`.
pub fn bracket_by_id(id: &str) -> (r: Option<(&'static str, &'static str)>)
    ensures
        r.is_none() == bracket_index_from(id@, 0).is_none(),
        r.is_some() ==> r.unwrap().0@ == bracket_open(bracket_index_from(id@, 0).unwrap())
            && r.unwrap().1@ == bracket_close(bracket_index_from(id@, 0).unwrap()),
{
    let v = chars_of(id);
    let mut i: usize = 0;
    while i < BRACKET_COUNT
        invariant
            i <= BRACKET_COUNT,
            v@ == id@,
            bracket_index_from(id@, 0) == bracket_index_from(id@, i as int),
        decreases BRACKET_COUNT - i,
    {
        let (name, pair) = bracket_entry(i);
        let n = chars_of(name);
        if seq_eq(&n, &v) {
            return Some(pair);
        }
        i = i + 1;
    }
    None
}


/// A colour code in Minecraft's legacy formatting: the section sign then the code.
pub open spec fn color_tag(c: char) -> Seq<char> {
    seq!['\u{a7}', c]
}

/// Appends a colour tag and `content` to `text`.
pub fn push_colored(text: &mut Vec<char>, color: char, content: &Vec<char>)
    ensures
        final(text)@ == old(text)@ + color_tag(color) + content@,
{
    text.push('\u{a7}');
    text.push(color);
    push_chars(text, content);
}

/// The colour position of the `j`-th digit of a level.
pub open spec fn digit_position(j: int) -> int {
    1 + (if j < 3 { j } else { 3 })
}

/// The digits `d` of a level, each preceded by the colour tag of its position.
pub open spec fn colored_digits(d: Seq<char>, colors: Seq<char>) -> Seq<char>
    decreases d.len(),
{
    if d.len() == 0 {
        seq![]
    } else {
        colored_digits(d.drop_last(), colors) + color_tag(color_at(colors, digit_position(d.len() - 1))) + seq![d.last()]
    }
}

/// The colour-coded text of a prestige: bracket, digits, star and closing
/// bracket, each in its colour from `colors`.
pub open spec fn prestige_markup(level: nat, colors: Seq<char>, star: Seq<char>, open: Seq<char>, close: Seq<char>) -> Seq<char> {
    color_tag(color_at(colors, 0)) + open + colored_digits(decimal(level), colors)
        + color_tag(color_at(colors, 5)) + star + color_tag(color_at(colors, 6)) + close
}

/// A cosmetic slot of a player: the active cosmetic (possibly a random
/// selector) and what the player owns and favours.
pub struct CosmeticSlot {
    pub active: Option<String>,
    pub unlocked: Vec<String>,
    pub favorites: Vec<String>,
}

/// A player's prestige cosmetics.
pub struct Cosmetics {
    pub scheme: CosmeticSlot,
    pub star: CosmeticSlot,
    pub bracket: CosmeticSlot,
}

impl Default for CosmeticSlot {
    fn default() -> (r: Self)
        ensures
            r.active.is_none(),
            r.unlocked@.len() == 0,
            r.favorites@.len() == 0,
    {
        CosmeticSlot { active: None, unlocked: Vec::new(), favorites: Vec::new() }
    }
}

impl Default for Cosmetics {
    fn default() -> (r: Self)
        ensures
            r.scheme.active.is_none(),
            r.star.active.is_none(),
            r.bracket.active.is_none(),
    {
        Cosmetics { scheme: CosmeticSlot::default(), star: CosmeticSlot::default(), bracket: CosmeticSlot::default() }
    }
}

/// The colours used for `level` given the active scheme cosmetic.
pub open spec fn chosen_colors(level: int, active: Option<String>) -> Seq<char> {
    match active {
        Some(a) => match scheme_index_for_id(a@) {
            Some(i) => scheme_colors(i),
            None => scheme_colors(level_scheme_index(level)),
        },
        None => scheme_colors(level_scheme_index(level)),
    }
}

/// The star used for `level` given the active star cosmetic.
pub open spec fn chosen_star(level: int, active: Option<String>) -> Seq<char> {
    match active {
        Some(a) => match star_index_from(a@, 0) {
            Some(i) => star_glyph(i),
            None => level_star(level),
        },
        None => level_star(level),
    }
}

/// The brackets used given the active bracket cosmetic.
pub open spec fn chosen_brackets(active: Option<String>) -> (Seq<char>, Seq<char>) {
    match active {
        Some(a) => match bracket_index_from(a@, 0) {
            Some(i) => (bracket_open(i), bracket_close(i)),
            None => ("["@, "]"@),
        },
        None => ("["@, "]"@),
    }
}

/// The colour-coded text that shows `level` with the player's cosmetics:
/// an unknown or absent cosmetic falls back to the level's defaults.
pub fn prestige_text(level: u32, cosmetics: &Cosmetics) -> (t: String)
    ensures
        t@ == prestige_markup(
            level as nat,
            chosen_colors(level as int, cosmetics.scheme.active),
            chosen_star(level as int, cosmetics.star.active),
            chosen_brackets(cosmetics.bracket.active).0,
            chosen_brackets(cosmetics.bracket.active).1,
        ),
{
    let scheme = match &cosmetics.scheme.active {
        Some(a) => match scheme_by_name(a.as_str()) {
            Some(s) => s,
            None => scheme_for_level(level),
        },
        None => scheme_for_level(level),
    };
    let star = match &cosmetics.star.active {
        Some(a) => match star_by_id(a.as_str()) {
            Some(g) => g,
            None => star_for_level(level),
        },
        None => star_for_level(level),
    };
    let (open, close) = match &cosmetics.bracket.active {
        Some(a) => match bracket_by_id(a.as_str()) {
            Some(p) => p,
            None => ("[", "]"),
        },
        None => ("[", "]"),
    };
    let ghost colors = scheme.colors@;
    let mut text: Vec<char> = Vec::new();
    let open_v = chars_of(open);
    push_colored(&mut text, scheme.open(), &open_v);
    let d = decimal_chars(level as u64);
    let ghost prefix = text@;
    let mut j: usize = 0;
    while j < d.len()
        invariant
            j <= d.len(),
            d@ == decimal(level as nat),
            scheme.colors@ == colors,
            colors.len() >= 1,
            text@ == prefix + colored_digits(d@.take(j as int), colors),
        decreases d.len() - j,
    {
        let one = vec![d[j]];
        let c = scheme.digit(j);
        push_colored(&mut text, c, &one);
        proof {
            let t = d@.take(j + 1);
            assert(t.drop_last() == d@.take(j as int));
            assert(t.last() == d@[j as int]);
            assert(one@ == seq![d@[j as int]]);
        }
        j = j + 1;
    }
    assert(d@.take(d.len() as int) == d@);
    let star_v = chars_of(star);
    push_colored(&mut text, scheme.icon(), &star_v);
    let close_v = chars_of(close);
    push_colored(&mut text, scheme.close(), &close_v);
    string_of(&text)
}


/// Coloured pieces of text written as one colour-coded string, with a colour
/// tag only where the colour changes from the previous piece.
pub open spec fn runs(segs: Seq<(char, Seq<char>)>, current: Option<char>) -> Seq<char>
    decreases segs.len(),
{
    if segs.len() == 0 {
        seq![]
    } else {
        let (c, t) = segs[0];
        (if current == Some(c) { t } else { color_tag(c) + t }) + runs(segs.drop_first(), Some(c))
    }
}

/// The coloured pieces of a level's default prestige: `[`, each digit, the
/// star and `]`.
pub open spec fn code_segments(level: nat) -> Seq<(char, Seq<char>)> {
    let colors = scheme_colors(level_scheme_index(level as int));
    let d = decimal(level);
    seq![(color_at(colors, 0), "["@)]
        + Seq::new(d.len(), |j: int| (color_at(colors, digit_position(j)), seq![d[j]]))
        + seq![(color_at(colors, 5), level_star(level as int)), (color_at(colors, 6), "]"@)]
}

fn emit_run(out: &mut Vec<char>, current: &mut Option<char>, c: char, content: &Vec<char>)
    ensures
        final(out)@ == old(out)@ + (if *old(current) == Some(c) { content@ } else { color_tag(c) + content@ }),
        *final(current) == Some(c),
{
    let same = match *current {
        Some(p) => p == c,
        None => false,
    };
    if !same {
        out.push('\u{a7}');
        out.push(c);
    }
    push_chars(out, content);
    *current = Some(c);
}

proof fn lemma_runs_step(segs: Seq<(char, Seq<char>)>, k: int, cur: Option<char>)
    requires
        0 <= k < segs.len(),
    ensures
        runs(segs.skip(k), cur) == (if cur == Some(segs[k].0) { segs[k].1 } else { color_tag(segs[k].0) + segs[k].1 })
            + runs(segs.skip(k + 1), Some(segs[k].0)),
{
    assert(segs.skip(k).drop_first() == segs.skip(k + 1));
    assert(segs.skip(k)[0] == segs[k]);
}

/// The legacy colour code of a level's default prestige, with a colour tag
/// only where the colour changes, e.g. for copying into a client.
pub fn prestige_code(level: u32) -> (code: String)
    ensures
        code@ == runs(code_segments(level as nat), None),
{
    let scheme = scheme_for_level(level);
    let star = star_for_level(level);
    let ghost segs = code_segments(level as nat);
    let ghost colors = scheme.colors@;
    let d = decimal_chars(level as u64);
    let ghost n: int = d@.len() as int;
    assert(segs.len() == n + 3);
    assert(segs[0] == (color_at(colors, 0), "["@));
    let mut out: Vec<char> = Vec::new();
    let mut cur: Option<char> = None;
    let open_v = chars_of("[");
    proof {
        lemma_runs_step(segs, 0, None);
        assert(segs.skip(0) == segs);
    }
    emit_run(&mut out, &mut cur, scheme.open(), &open_v);
    let mut j: usize = 0;
    while j < d.len()
        invariant
            j <= d.len(),
            d@ == decimal(level as nat),
            n == d@.len(),
            scheme.colors@ == colors,
            colors == scheme_colors(level_scheme_index(level as int)),
            colors.len() >= 1,
            segs == code_segments(level as nat),
            segs.len() == n + 3,
            runs(segs, None) == out@ + runs(segs.skip(j + 1), cur),
        decreases d.len() - j,
    {
        let one = vec![d[j]];
        let c = scheme.digit(j);
        proof {
            assert(segs[j + 1] == (color_at(colors, digit_position(j as int)), seq![d@[j as int]]));
            lemma_runs_step(segs, j + 1, cur);
        }
        emit_run(&mut out, &mut cur, c, &one);
        j = j + 1;
    }
    let star_v = chars_of(star);
    proof {
        assert(segs[n + 1] == (color_at(colors, 5), level_star(level as int)));
        lemma_runs_step(segs, n + 1, cur);
    }
    emit_run(&mut out, &mut cur, scheme.icon(), &star_v);
    let close_v = chars_of("]");
    proof {
        assert(segs[n + 2] == (color_at(colors, 6), "]"@));
        lemma_runs_step(segs, n + 2, cur);
        assert(segs.skip(n + 3).len() == 0);
    }
    emit_run(&mut out, &mut cur, scheme.close(), &close_v);
    string_of(&out)
}


/// What `char::to_uppercase` yields for `c`.
pub uninterp spec fn uppercase_of(c: char) -> Seq<char>;

/// `char::to_uppercase`, collected: the upper-case mapping of `c` under the
/// Unicode tables of the standard library. For ASCII, as its documentation
/// gives, a lower-case letter maps to its capital and any other character to itself.
#[verifier::external_body]
fn to_uppercase_chars(c: char) -> (v: Vec<char>)
    ensures
        v@ == uppercase_of(c),
        'a' <= c <= 'z' ==> v@ == seq![((c as u32) - 32) as char],
        (c as u32) < 128 && !('a' <= c <= 'z') ==> v@ == seq![c],
{
    c.to_uppercase().collect()
}

/// The upper case of `c`: for ASCII a lower-case letter's capital or the
/// character itself, as `char::to_uppercase` documents; beyond ASCII, what it
/// yields.
pub open spec fn upper_text(c: char) -> Seq<char> {
    if 'a' <= c <= 'z' {
        seq![((c as u32) - 32) as char]
    } else if (c as u32) < 128 {
        seq![c]
    } else {
        uppercase_of(c)
    }
}

/// `s` with underscores turned into spaces and the first character of each
/// `_`-separated word upper-cased (`at_start`: the first character of `s`
/// begins a word).
pub open spec fn title_words(s: Seq<char>, at_start: bool) -> Seq<char>
    decreases s.len(),
{
    if s.len() == 0 {
        seq![]
    } else if s[0] == '_' {
        seq![' '] + title_words(s.drop_first(), true)
    } else if at_start {
        upper_text(s[0]) + title_words(s.drop_first(), false)
    } else {
        seq![s[0]] + title_words(s.drop_first(), false)
    }
}

/// A scheme name for display: `iron_prime` reads `Iron Prime`.
pub fn pretty_scheme_name(name: &str) -> (r: String)
    ensures
        r@ == title_words(name@, true),
{
    let s = chars_of(name);
    let mut out: Vec<char> = Vec::new();
    let mut at_start = true;
    let mut i: usize = 0;
    assert(s@.skip(0) == s@);
    while i < s.len()
        invariant
            i <= s.len(),
            s@ == name@,
            title_words(s@, true) == out@ + title_words(s@.skip(i as int), at_start),
        decreases s.len() - i,
    {
        let c = s[i];
        proof {
            assert(s@.skip(i as int).drop_first() == s@.skip(i + 1));
            assert(s@.skip(i as int)[0] == c);
        }
        if c == '_' {
            out.push(' ');
            at_start = true;
        } else if at_start {
            let up = to_uppercase_chars(c);
            push_chars(&mut out, &up);
            at_start = false;
        } else {
            out.push(c);
            at_start = false;
        }
        i = i + 1;
    }
    assert(s@.skip(s.len() as int) == Seq::<char>::empty());
    string_of(&out)
}

/// One line of the colour-code list: the scheme of `level`, then its code.
pub open spec fn color_code_line(level: nat) -> Seq<char> {
    title_words(scheme_name(level_scheme_index(level as int)), true) + " `"@
        + runs(code_segments(level), None) + "`"@
}

/// Lines joined with newlines.
pub open spec fn join_lines(lines: Seq<Seq<char>>) -> Seq<char>
    decreases lines.len(),
{
    if lines.len() == 0 {
        seq![]
    } else if lines.len() == 1 {
        lines[0]
    } else {
        join_lines(lines.drop_last()) + seq!['\n'] + lines.last()
    }
}

/// The colour code of every hundredth prestige from 100 to 10000, one per line.
pub fn prestige_color_codes() -> (r: String)
    ensures
        r@ == join_lines(Seq::new(100, |k: int| color_code_line((100 * (k + 1)) as nat))),
{
    let ghost lines = Seq::new(100, |k: int| color_code_line((100 * (k + 1)) as nat));
    let mut out: Vec<char> = Vec::new();
    let mut n: u32 = 1;
    while n <= 100
        invariant
            1 <= n <= 101,
            lines == Seq::new(100, |k: int| color_code_line((100 * (k + 1)) as nat)),
            out@ == join_lines(lines.take(n - 1)),
        decreases 101 - n,
    {
        let level = n * 100;
        let scheme = scheme_for_level(level);
        let name = pretty_scheme_name(scheme.name);
        let code = prestige_code(level);
        let ghost before = out@;
        if n > 1 {
            out.push('\n');
        }
        push_str(&mut out, name.as_str());
        push_str(&mut out, " `");
        push_str(&mut out, code.as_str());
        push_str(&mut out, "`");
        proof {
            let t = lines.take(n as int);
            assert(t.drop_last() == lines.take(n - 1));
            assert(t.last() == color_code_line(level as nat));
            assert(100 * ((n - 1) + 1) == level);
            if n == 1 {
                assert(t.len() == 1);
                assert(before.len() == 0);
            }
        }
        n = n + 1;
    }
    assert(lines.take(100) == lines);
    string_of(&out)
}


/// Whether `list` holds a string equal to `s`.
pub fn contains_string(list: &Vec<String>, s: &str) -> (r: bool)
    ensures
        r == list.deep_view().contains(s@),
{
    let mut i: usize = 0;
    while i < list.len()
        invariant
            i <= list.len(),
            forall|j: int| 0 <= j < i ==> list.deep_view()[j] != s@,
        decreases list.len() - i,
    {
        if crate::text::str_eq(list[i].as_str(), s) {
            assert(list.deep_view()[i as int] == s@);
            return true;
        }
        i = i + 1;
    }
    assert(!list.deep_view().contains(s@));
    false
}

/// The owned cosmetics that are also known to the renderer, in order.
pub open spec fn owned_known(unlocked: Seq<Seq<char>>, known: Seq<Seq<char>>) -> Seq<Seq<char>> {
    unlocked.filter(|u: Seq<char>| known.contains(u))
}

/// The owned cosmetics a `random_cosmetic` selector may draw from.
pub fn random_candidates(unlocked: &Vec<String>, known: &Vec<String>) -> (r: Vec<String>)
    ensures
        r.deep_view() == owned_known(unlocked.deep_view(), known.deep_view()),
{
    let ghost pred = |u: Seq<char>| known.deep_view().contains(u);
    let mut r: Vec<String> = Vec::new();
    let mut i: usize = 0;
    while i < unlocked.len()
        invariant
            i <= unlocked.len(),
            pred == (|u: Seq<char>| known.deep_view().contains(u)),
            r.deep_view() == unlocked.deep_view().take(i as int).filter(pred),
        decreases unlocked.len() - i,
    {
        let ghost before = r.deep_view();
        let keep = contains_string(known, unlocked[i].as_str());
        if keep {
            r.push(unlocked[i].clone());
            assert(r.deep_view() =~= before.push(unlocked.deep_view()[i as int]));
        } else {
            assert(r.deep_view() =~= before);
        }
        proof {
            let t = unlocked.deep_view().take(i + 1);
            assert(t == unlocked.deep_view().take(i as int).push(unlocked.deep_view()[i as int]));
            unlocked.deep_view().take(i as int).lemma_filter_push(unlocked.deep_view()[i as int], pred);
        }
        i = i + 1;
    }
    assert(unlocked.deep_view().take(unlocked.len() as int) == unlocked.deep_view());
    r
}

/// The cosmetic a slot shows once random selectors are resolved, where
/// `choice` is the index drawn in the list the selector picks from: an owned
/// cosmetic known to the renderer for `random_cosmetic`, a favourite (named
/// without `prefix`) for `random_favorite_cosmetic`. With nothing to pick
/// from, the selector id itself stays.
pub open spec fn resolved_active(
    id: Seq<char>,
    prefix: Seq<char>,
    unlocked: Seq<Seq<char>>,
    favorites: Seq<Seq<char>>,
    known: Seq<Seq<char>>,
    choice: int,
) -> Seq<char> {
    if id == "random_cosmetic"@ {
        let c = owned_known(unlocked, known);
        if 0 <= choice < c.len() { c[choice] } else { id }
    } else if id == "random_favorite_cosmetic"@ {
        if 0 <= choice < favorites.len() { prefix + favorites[choice] } else { id }
    } else {
        id
    }
}

/// The length of the list a selector `id` draws from.
pub open spec fn pick_list_len(id: Seq<char>, unlocked: Seq<Seq<char>>, favorites: Seq<Seq<char>>, known: Seq<Seq<char>>) -> int {
    if id == "random_cosmetic"@ {
        owned_known(unlocked, known).len() as int
    } else if id == "random_favorite_cosmetic"@ {
        favorites.len() as int
    } else {
        0
    }
}

/// Resolves a slot's random selector with the drawn index `choice`; the
/// result keeps only the active cosmetic.
pub fn resolve_slot_with(slot: &CosmeticSlot, prefix: &str, known: &Vec<String>, choice: usize) -> (r: CosmeticSlot)
    ensures
        r.unlocked@.len() == 0,
        r.favorites@.len() == 0,
        r.active.is_none() == slot.active.is_none(),
        slot.active.is_some() ==> r.active.unwrap()@ == resolved_active(
            slot.active.unwrap()@, prefix@, slot.unlocked.deep_view(), slot.favorites.deep_view(), known.deep_view(), choice as int),
{
    let active = match &slot.active {
        None => None,
        Some(id) => {
            let pick: String = if crate::text::str_eq(id.as_str(), "random_cosmetic") {
                let c = random_candidates(&slot.unlocked, known);
                if choice < c.len() {
                    c[choice].clone()
                } else {
                    id.clone()
                }
            } else if crate::text::str_eq(id.as_str(), "random_favorite_cosmetic") {
                if choice < slot.favorites.len() {
                    let mut out = chars_of(prefix);
                    push_str(&mut out, slot.favorites[choice].as_str());
                    string_of(&out)
                } else {
                    id.clone()
                }
            } else {
                id.clone()
            };
            Some(pick)
        },
    };
    CosmeticSlot { active, unlocked: Vec::new(), favorites: Vec::new() }
}

/// An index below `len` drawn with `rand::Rng::gen_range(0..len)` from the
/// thread-local generator; which one is left to chance.
#[verifier::external_body]
fn random_index(len: usize) -> (i: usize)
    requires
        len > 0,
    ensures
        i < len,
{
    rand::thread_rng().gen_range(0..len)
}

/// Resolves a slot's random selector with a random draw: the result is one
/// of the cosmetics the selector may pick, or the selector id when there are none.
pub fn resolve_slot(slot: &CosmeticSlot, prefix: &str, known: &Vec<String>) -> (r: CosmeticSlot)
    ensures
        r.unlocked@.len() == 0,
        r.favorites@.len() == 0,
        r.active.is_none() == slot.active.is_none(),
        slot.active.is_some() ==> exists|choice: int|
            (choice == 0 || 0 <= choice < pick_list_len(slot.active.unwrap()@, slot.unlocked.deep_view(), slot.favorites.deep_view(), known.deep_view()))
            && r.active.unwrap()@ == resolved_active(
                slot.active.unwrap()@, prefix@, slot.unlocked.deep_view(), slot.favorites.deep_view(), known.deep_view(), choice),
{
    let len: usize = match &slot.active {
        None => 0,
        Some(id) => {
            if crate::text::str_eq(id.as_str(), "random_cosmetic") {
                random_candidates(&slot.unlocked, known).len()
            } else if crate::text::str_eq(id.as_str(), "random_favorite_cosmetic") {
                slot.favorites.len()
            } else {
                0
            }
        },
    };
    let choice = if len > 0 { random_index(len) } else { 0 };
    let r = resolve_slot_with(slot, prefix, known, choice);
    assert(slot.active.is_some() ==> r.active.unwrap()@ == resolved_active(
        slot.active.unwrap()@, prefix@, slot.unlocked.deep_view(), slot.favorites.deep_view(), known.deep_view(), choice as int));
    r
}

/// Cosmetic ids of every colour scheme.
pub open spec fn scheme_ids() -> Seq<Seq<char>> {
    Seq::new(101, |i: int| scheme_id_prefix() + scheme_name(i))
}

/// Cosmetic ids of every star.
pub open spec fn star_ids() -> Seq<Seq<char>> {
    Seq::new(9, |i: int| star_id(i))
}

/// Cosmetic ids of every bracket pair.
pub open spec fn bracket_ids() -> Seq<Seq<char>> {
    Seq::new(5, |i: int| bracket_id(i))
}

/// Resolves the random selectors of all three prestige slots against the
/// cosmetics the renderer knows.
pub fn resolve_cosmetics(cosmetics: &Cosmetics) -> (r: Cosmetics)
    ensures
        r.scheme.active.is_none() == cosmetics.scheme.active.is_none(),
        r.star.active.is_none() == cosmetics.star.active.is_none(),
        r.bracket.active.is_none() == cosmetics.bracket.active.is_none(),
        cosmetics.scheme.active.is_some() ==> exists|choice: int|
            (choice == 0 || 0 <= choice < pick_list_len(cosmetics.scheme.active.unwrap()@,
                cosmetics.scheme.unlocked.deep_view(), cosmetics.scheme.favorites.deep_view(), scheme_ids()))
            && r.scheme.active.unwrap()@ == resolved_active(cosmetics.scheme.active.unwrap()@, scheme_id_prefix(),
                cosmetics.scheme.unlocked.deep_view(), cosmetics.scheme.favorites.deep_view(), scheme_ids(), choice),
        cosmetics.star.active.is_some() ==> exists|choice: int|
            (choice == 0 || 0 <= choice < pick_list_len(cosmetics.star.active.unwrap()@,
                cosmetics.star.unlocked.deep_view(), cosmetics.star.favorites.deep_view(), star_ids()))
            && r.star.active.unwrap()@ == resolved_active(cosmetics.star.active.unwrap()@, "star_"@,
                cosmetics.star.unlocked.deep_view(), cosmetics.star.favorites.deep_view(), star_ids(), choice),
        cosmetics.bracket.active.is_some() ==> exists|choice: int|
            (choice == 0 || 0 <= choice < pick_list_len(cosmetics.bracket.active.unwrap()@,
                cosmetics.bracket.unlocked.deep_view(), cosmetics.bracket.favorites.deep_view(), bracket_ids()))
            && r.bracket.active.unwrap()@ == resolved_active(cosmetics.bracket.active.unwrap()@, "prestige_bracket_"@,
                cosmetics.bracket.unlocked.deep_view(), cosmetics.bracket.favorites.deep_view(), bracket_ids(), choice),
{
    let mut all_schemes: Vec<String> = Vec::new();
    let mut i: usize = 0;
    while i < SCHEME_COUNT
        invariant
            i <= SCHEME_COUNT,
            all_schemes.deep_view() == scheme_ids().take(i as int),
        decreases SCHEME_COUNT - i,
    {
        let sc = scheme_at(i);
        let mut id = chars_of("prestige_scheme_");
        push_str(&mut id, sc.name);
        let ghost before = all_schemes.deep_view();
        all_schemes.push(string_of(&id));
        assert(all_schemes.deep_view() =~= before.push(scheme_ids()[i as int]));
        assert(scheme_ids().take(i + 1) =~= scheme_ids().take(i as int).push(scheme_ids()[i as int]));
        i = i + 1;
    }
    let mut stars: Vec<String> = Vec::new();
    let mut i: usize = 0;
    while i < STAR_COUNT
        invariant
            i <= STAR_COUNT,
            stars.deep_view() == star_ids().take(i as int),
        decreases STAR_COUNT - i,
    {
        let (id, _) = star_entry(i);
        let v = chars_of(id);
        let ghost before = stars.deep_view();
        stars.push(string_of(&v));
        assert(stars.deep_view() =~= before.push(star_ids()[i as int]));
        assert(star_ids().take(i + 1) =~= star_ids().take(i as int).push(star_ids()[i as int]));
        i = i + 1;
    }
    let mut brackets: Vec<String> = Vec::new();
    let mut i: usize = 0;
    while i < BRACKET_COUNT
        invariant
            i <= BRACKET_COUNT,
            brackets.deep_view() == bracket_ids().take(i as int),
        decreases BRACKET_COUNT - i,
    {
        let (id, _) = bracket_entry(i);
        let v = chars_of(id);
        let ghost before = brackets.deep_view();
        brackets.push(string_of(&v));
        assert(brackets.deep_view() =~= before.push(bracket_ids()[i as int]));
        assert(bracket_ids().take(i + 1) =~= bracket_ids().take(i as int).push(bracket_ids()[i as int]));
        i = i + 1;
    }
    assert(scheme_ids().take(101) == scheme_ids());
    assert(star_ids().take(9) == star_ids());
    assert(bracket_ids().take(5) == bracket_ids());
    Cosmetics {
        scheme: resolve_slot(&cosmetics.scheme, "prestige_scheme_", &all_schemes),
        star: resolve_slot(&cosmetics.star, "star_", &stars),
        bracket: resolve_slot(&cosmetics.bracket, "prestige_bracket_", &brackets),
    }
}


} // verus!
