//! League and team modulators of the match model. Names are compared after
//! Unicode lowercasing; the numeric modulators are exact integers (per mille
//! or per cent) that the numeric model divides out.
use vstd::prelude::*;
use crate::text::str_equal;

verus! {

/// The Unicode lowercase mapping of a string, as `str::to_lowercase`
/// computes it.
pub uninterp spec fn unicode_lowercase(s: Seq<char>) -> Seq<char>;

/// Calls `str::to_lowercase`. The contract claims only that the result is
/// `unicode_lowercase` of the argument's characters: the mapping (the Unicode
/// `Lowercase` property, with its multi-character expansions) is not
/// written out here.
#[verifier::external_body]
fn to_lowercase(s: &str) -> (r: String)
    ensures
        r@ == unicode_lowercase(s@),
{
    s.to_lowercase()
}

/// Tactical profile of a league, by lowercase name.
pub open spec fn league_profile(name: Seq<char>) -> Seq<char> {
    if name == "serie b"@ || name == "segunda division"@ || name == "ligue 2"@ || name
        == "2. bundesliga"@ {
        "Muy Táctica (alta prob. empate)"@
    } else if name == "championship"@ || name == "league one"@ || name == "ligue 1"@ || name
        == "serie a"@ {
        "Equilibrada"@
    } else if name == "belgian pro league"@ || name == "super lig"@ || name == "bundesliga"@
        || name == "la liga"@ || name == "premier league"@ || name == "primeira liga"@ {
        "Ofensiva"@
    } else if name == "eredivisie"@ {
        "Muy Ofensiva (alta media de goles)"@
    } else {
        "Estándar"@
    }
}

/// Home advantage of a league in thousandths, by lowercase name.
pub open spec fn home_advantage(name: Seq<char>) -> u32 {
    if name == "la liga"@ || name == "bundesliga"@ || name == "primeira liga"@ || name
        == "eredivisie"@ || name == "segunda division"@ {
        15
    } else if name == "super lig"@ || name == "belgian pro league"@ || name == "premier league"@
        || name == "ligue 1"@ || name == "serie a"@ {
        12
    } else if name == "serie b"@ || name == "championship"@ || name == "scottish premier"@ || name
        == "league one"@ || name == "ligue 2"@ || name == "2. bundesliga"@ {
        8
    } else {
        10
    }
}

/// Base draw probability of a league in thousandths, by lowercase name.
pub open spec fn draw_probability(name: Seq<char>) -> u32 {
    if name == "serie b"@ {
        331
    } else if name == "segunda division"@ {
        303
    } else if name == "ligue 2"@ || name == "2. bundesliga"@ {
        294
    } else if name == "championship"@ {
        279
    } else if name == "league one"@ || name == "ligue 1"@ || name == "serie a"@ {
        261
    } else if name == "belgian pro league"@ || name == "super lig"@ || name == "bundesliga"@ {
        252
    } else if name == "la liga"@ || name == "premier league"@ || name == "primeira liga"@ {
        242
    } else if name == "eredivisie"@ {
        231
    } else {
        267
    }
}

/// Offensive boost of a team in hundredths, by lowercase name.
pub open spec fn offensive_boost(name: Seq<char>) -> u32 {
    if name == "barcelona"@ {
        115
    } else if name == "paris sg"@ || name == "psg"@ || name == "benfica"@ || name
        == "bayern munich"@ || name == "bayern"@ {
        112
    } else if name == "ajax"@ || name == "real madrid"@ || name == "psv eindhoven"@ || name
        == "psv"@ {
        110
    } else if name == "man city"@ || name == "manchester city"@ || name == "porto"@ || name
        == "celtic"@ {
        108
    } else if name == "napoli"@ || name == "juventus"@ || name == "dortmund"@ || name
        == "liverpool"@ || name == "arsenal"@ || name == "lyon"@ {
        105
    } else if name == "galatasaray"@ || name == "feyenoord"@ {
        104
    } else {
        100
    }
}

/// The five profile strings are pairwise distinct.
proof fn lemma_profiles_distinct()
    ensures
        "Muy Táctica (alta prob. empate)"@ != "Equilibrada"@,
        "Muy Táctica (alta prob. empate)"@ != "Ofensiva"@,
        "Muy Táctica (alta prob. empate)"@ != "Muy Ofensiva (alta media de goles)"@,
        "Muy Táctica (alta prob. empate)"@ != "Estándar"@,
        "Equilibrada"@ != "Ofensiva"@,
        "Equilibrada"@ != "Muy Ofensiva (alta media de goles)"@,
        "Equilibrada"@ != "Estándar"@,
        "Ofensiva"@ != "Muy Ofensiva (alta media de goles)"@,
        "Ofensiva"@ != "Estándar"@,
        "Muy Ofensiva (alta media de goles)"@ != "Estándar"@,
{
    reveal_strlit("Muy Táctica (alta prob. empate)");
    reveal_strlit("Equilibrada");
    reveal_strlit("Ofensiva");
    reveal_strlit("Muy Ofensiva (alta media de goles)");
    reveal_strlit("Estándar");
    assert("Muy Táctica (alta prob. empate)"@.len() == 31);
    assert("Equilibrada"@.len() == 11);
    assert("Ofensiva"@.len() == 8);
    assert("Muy Ofensiva (alta media de goles)"@.len() == 34);
    assert("Estándar"@.len() == 8);
    assert("Ofensiva"@[0] != "Estándar"@[0]);
}

/// The league names of the tables that have equal lengths are distinct.
proof fn lemma_league_names_distinct()
    ensures
        "serie b"@ != "ligue 2"@,
        "serie b"@ != "ligue 1"@,
        "serie b"@ != "serie a"@,
        "serie b"@ != "la liga"@,
        "ligue 2"@ != "ligue 1"@,
        "ligue 2"@ != "serie a"@,
        "ligue 2"@ != "la liga"@,
        "ligue 1"@ != "serie a"@,
        "ligue 1"@ != "la liga"@,
        "serie a"@ != "la liga"@,
        "league one"@ != "bundesliga"@,
        "league one"@ != "eredivisie"@,
        "bundesliga"@ != "eredivisie"@,
        "2. bundesliga"@ != "primeira liga"@,
        "segunda division"@ != "scottish premier"@,
{
    reveal_strlit("serie b");
    reveal_strlit("serie a");
    reveal_strlit("ligue 2");
    reveal_strlit("ligue 1");
    reveal_strlit("la liga");
    reveal_strlit("league one");
    reveal_strlit("bundesliga");
    reveal_strlit("eredivisie");
    reveal_strlit("2. bundesliga");
    reveal_strlit("primeira liga");
    assert("serie b"@[6] != "serie a"@[6]);
    assert("ligue 2"@[6] != "ligue 1"@[6]);
    assert("serie b"@[0] != "ligue 1"@[0]);
    assert("serie b"@[0] != "ligue 2"@[0]);
    assert("serie b"@[0] != "la liga"@[0]);
    assert("serie a"@[0] != "ligue 1"@[0]);
    assert("serie a"@[0] != "ligue 2"@[0]);
    assert("serie a"@[0] != "la liga"@[0]);
    assert("ligue 2"@[1] != "la liga"@[1]);
    assert("ligue 1"@[1] != "la liga"@[1]);
    assert("league one"@[0] != "bundesliga"@[0]);
    assert("league one"@[0] != "eredivisie"@[0]);
    assert("bundesliga"@[0] != "eredivisie"@[0]);
    assert("2. bundesliga"@[0] != "primeira liga"@[0]);
    reveal_strlit("segunda division");
    reveal_strlit("scottish premier");
    assert("segunda division"@[1] != "scottish premier"@[1]);
}

/// The league names of the tables have the lengths of their spelling.
proof fn lemma_league_name_lengths()
    ensures
        "serie b"@.len() == 7,
        "segunda division"@.len() == 16,
        "ligue 2"@.len() == 7,
        "2. bundesliga"@.len() == 13,
        "championship"@.len() == 12,
        "league one"@.len() == 10,
        "ligue 1"@.len() == 7,
        "serie a"@.len() == 7,
        "belgian pro league"@.len() == 18,
        "super lig"@.len() == 9,
        "bundesliga"@.len() == 10,
        "la liga"@.len() == 7,
        "premier league"@.len() == 14,
        "primeira liga"@.len() == 13,
        "eredivisie"@.len() == 10,
        "scottish premier"@.len() == 16,
{
    reveal_strlit("serie b");
    reveal_strlit("segunda division");
    reveal_strlit("ligue 2");
    reveal_strlit("2. bundesliga");
    reveal_strlit("championship");
    reveal_strlit("league one");
    reveal_strlit("ligue 1");
    reveal_strlit("serie a");
    reveal_strlit("belgian pro league");
    reveal_strlit("super lig");
    reveal_strlit("bundesliga");
    reveal_strlit("la liga");
    reveal_strlit("premier league");
    reveal_strlit("primeira liga");
    reveal_strlit("eredivisie");
    reveal_strlit("scottish premier");
}

/// The profile table: each named league has the profile listed for it, and
/// every other name is "Estándar". The five profiles are distinct, so each
/// clause also says which names do not get that profile.
pub proof fn law_league_profile_table(name: Seq<char>)
    ensures
        (name == "serie b"@ || name == "segunda division"@ || name == "ligue 2"@ || name
            == "2. bundesliga"@) <==> league_profile(name) == "Muy Táctica (alta prob. empate)"@,
        (name == "championship"@ || name == "league one"@ || name == "ligue 1"@ || name
            == "serie a"@) <==> league_profile(name) == "Equilibrada"@,
        (name == "premier league"@ || name == "la liga"@ || name == "bundesliga"@ || name
            == "primeira liga"@ || name == "super lig"@ || name == "belgian pro league"@)
            <==> league_profile(name) == "Ofensiva"@,
        name == "eredivisie"@ <==> league_profile(name) == "Muy Ofensiva (alta media de goles)"@,
        league_profile(name) == "Estándar"@ || league_profile(name) == "Ofensiva"@
            || league_profile(name) == "Equilibrada"@ || league_profile(name)
            == "Muy Ofensiva (alta media de goles)"@ || league_profile(name)
            == "Muy Táctica (alta prob. empate)"@,
{
    lemma_profiles_distinct();
    lemma_league_names_distinct();
    lemma_league_name_lengths();
}

/// The team names of the boost table have the lengths of their spelling, and
/// those of equal length in different rows of the table are distinct.
proof fn lemma_team_names_spelled()
    ensures
        "barcelona"@.len() == 9,
        "paris sg"@.len() == 8,
        "psg"@.len() == 3,
        "benfica"@.len() == 7,
        "bayern munich"@.len() == 13,
        "bayern"@.len() == 6,
        "ajax"@.len() == 4,
        "real madrid"@.len() == 11,
        "psv eindhoven"@.len() == 13,
        "psv"@.len() == 3,
        "man city"@.len() == 8,
        "manchester city"@.len() == 15,
        "porto"@.len() == 5,
        "celtic"@.len() == 6,
        "napoli"@.len() == 6,
        "juventus"@.len() == 8,
        "dortmund"@.len() == 8,
        "liverpool"@.len() == 9,
        "arsenal"@.len() == 7,
        "lyon"@.len() == 4,
        "galatasaray"@.len() == 11,
        "feyenoord"@.len() == 9,
        "psg"@ != "psv"@,
        "ajax"@ != "lyon"@,
        "bayern"@ != "celtic"@,
        "bayern"@ != "napoli"@,
        "celtic"@ != "napoli"@,
        "benfica"@ != "arsenal"@,
        "paris sg"@ != "man city"@,
        "paris sg"@ != "juventus"@,
        "paris sg"@ != "dortmund"@,
        "man city"@ != "juventus"@,
        "man city"@ != "dortmund"@,
        "barcelona"@ != "liverpool"@,
        "barcelona"@ != "feyenoord"@,
        "liverpool"@ != "feyenoord"@,
        "real madrid"@ != "galatasaray"@,
        "bayern munich"@ != "psv eindhoven"@,
{
    reveal_strlit("barcelona");
    reveal_strlit("paris sg");
    reveal_strlit("psg");
    reveal_strlit("benfica");
    reveal_strlit("bayern munich");
    reveal_strlit("bayern");
    reveal_strlit("ajax");
    reveal_strlit("real madrid");
    reveal_strlit("psv eindhoven");
    reveal_strlit("psv");
    reveal_strlit("man city");
    reveal_strlit("manchester city");
    reveal_strlit("porto");
    reveal_strlit("celtic");
    reveal_strlit("napoli");
    reveal_strlit("juventus");
    reveal_strlit("dortmund");
    reveal_strlit("liverpool");
    reveal_strlit("arsenal");
    reveal_strlit("lyon");
    reveal_strlit("galatasaray");
    reveal_strlit("feyenoord");
    assert("psg"@[2] != "psv"@[2]);
    assert("ajax"@[0] != "lyon"@[0]);
    assert("bayern"@[0] != "celtic"@[0]);
    assert("bayern"@[0] != "napoli"@[0]);
    assert("celtic"@[0] != "napoli"@[0]);
    assert("benfica"@[0] != "arsenal"@[0]);
    assert("paris sg"@[0] != "man city"@[0]);
    assert("paris sg"@[0] != "juventus"@[0]);
    assert("paris sg"@[0] != "dortmund"@[0]);
    assert("man city"@[0] != "juventus"@[0]);
    assert("man city"@[0] != "dortmund"@[0]);
    assert("barcelona"@[0] != "liverpool"@[0]);
    assert("barcelona"@[0] != "feyenoord"@[0]);
    assert("liverpool"@[0] != "feyenoord"@[0]);
    assert("real madrid"@[0] != "galatasaray"@[0]);
    assert("bayern munich"@[0] != "psv eindhoven"@[0]);
}

/// The home-advantage table, in thousandths: 15 for la liga, bundesliga,
/// primeira liga, eredivisie and segunda division; 12 for super lig, belgian
/// pro league, premier league, ligue 1 and serie a; 8 for serie b,
/// championship, scottish premier, league one, ligue 2 and 2. bundesliga; 10
/// for every other name.
pub proof fn law_home_advantage_table(name: Seq<char>)
    ensures
        (name == "la liga"@ || name == "bundesliga"@ || name == "primeira liga"@ || name
            == "eredivisie"@ || name == "segunda division"@) <==> home_advantage(name) == 15,
        (name == "super lig"@ || name == "belgian pro league"@ || name == "premier league"@
            || name == "ligue 1"@ || name == "serie a"@) <==> home_advantage(name) == 12,
        (name == "serie b"@ || name == "championship"@ || name == "scottish premier"@ || name
            == "league one"@ || name == "ligue 2"@ || name == "2. bundesliga"@) <==> home_advantage(
            name,
        ) == 8,
        home_advantage(name) == 15 || home_advantage(name) == 12 || home_advantage(name) == 8
            || home_advantage(name) == 10,
{
    lemma_league_names_distinct();
    lemma_league_name_lengths();
}

/// The draw-probability table, in thousandths: serie b 331, segunda division
/// 303, ligue 2 and 2. bundesliga 294, championship 279, league one, ligue 1
/// and serie a 261, belgian pro league, super lig and bundesliga 252, la liga,
/// premier league and primeira liga 242, eredivisie 231, any other name 267.
pub proof fn law_draw_probability_table(name: Seq<char>)
    ensures
        name == "serie b"@ <==> draw_probability(name) == 331,
        name == "segunda division"@ <==> draw_probability(name) == 303,
        (name == "ligue 2"@ || name == "2. bundesliga"@) <==> draw_probability(name) == 294,
        name == "championship"@ <==> draw_probability(name) == 279,
        (name == "league one"@ || name == "ligue 1"@ || name == "serie a"@) <==> draw_probability(
            name,
        ) == 261,
        (name == "belgian pro league"@ || name == "super lig"@ || name == "bundesliga"@)
            <==> draw_probability(name) == 252,
        (name == "la liga"@ || name == "premier league"@ || name == "primeira liga"@)
            <==> draw_probability(name) == 242,
        name == "eredivisie"@ <==> draw_probability(name) == 231,
        231 <= draw_probability(name) <= 331,
{
    lemma_league_names_distinct();
    lemma_league_name_lengths();
}

/// The offensive-boost table, in hundredths: barcelona 115; paris sg, psg,
/// benfica, bayern munich and bayern 112; ajax, real madrid, psv eindhoven and
/// psv 110; man city, manchester city, porto and celtic 108; napoli, juventus,
/// dortmund, liverpool, arsenal and lyon 105; galatasaray and feyenoord 104;
/// any other name 100, so no team is boosted below the neutral 100.
pub proof fn law_offensive_boost_table(name: Seq<char>)
    ensures
        name == "barcelona"@ <==> offensive_boost(name) == 115,
        (name == "paris sg"@ || name == "psg"@ || name == "benfica"@ || name == "bayern munich"@
            || name == "bayern"@) <==> offensive_boost(name) == 112,
        (name == "ajax"@ || name == "real madrid"@ || name == "psv eindhoven"@ || name == "psv"@)
            <==> offensive_boost(name) == 110,
        (name == "man city"@ || name == "manchester city"@ || name == "porto"@ || name
            == "celtic"@) <==> offensive_boost(name) == 108,
        (name == "napoli"@ || name == "juventus"@ || name == "dortmund"@ || name == "liverpool"@
            || name == "arsenal"@ || name == "lyon"@) <==> offensive_boost(name) == 105,
        (name == "galatasaray"@ || name == "feyenoord"@) <==> offensive_boost(name) == 104,
        100 <= offensive_boost(name) <= 115,
{
    lemma_team_names_spelled();
}

/// Tactical profile of a league given its lowercase name.
pub fn league_profile_of_lowercase(name: &str) -> (r: &'static str)
    ensures
        r@ == league_profile(name@),
{
    if str_equal(name, "serie b") || str_equal(name, "segunda division") || str_equal(
        name,
        "ligue 2",
    ) || str_equal(name, "2. bundesliga") {
        "Muy Táctica (alta prob. empate)"
    } else if str_equal(name, "championship") || str_equal(name, "league one") || str_equal(
        name,
        "ligue 1",
    ) || str_equal(name, "serie a") {
        "Equilibrada"
    } else if str_equal(name, "belgian pro league") || str_equal(name, "super lig") || str_equal(
        name,
        "bundesliga",
    ) || str_equal(name, "la liga") || str_equal(name, "premier league") || str_equal(
        name,
        "primeira liga",
    ) {
        "Ofensiva"
    } else if str_equal(name, "eredivisie") {
        "Muy Ofensiva (alta media de goles)"
    } else {
        "Estándar"
    }
}

/// Tactical classification of a league.
pub fn get_league_profile(competition: &str) -> (r: &'static str)
    ensures
        r@ == league_profile(unicode_lowercase(competition@)),
{
    let name = to_lowercase(competition);
    league_profile_of_lowercase(name.as_str())
}

/// Home advantage of a league, in thousandths, given its lowercase name.
pub fn home_advantage_of_lowercase(name: &str) -> (r: u32)
    ensures
        r == home_advantage(name@),
{
    if str_equal(name, "la liga") || str_equal(name, "bundesliga") || str_equal(
        name,
        "primeira liga",
    ) || str_equal(name, "eredivisie") || str_equal(name, "segunda division") {
        15
    } else if str_equal(name, "super lig") || str_equal(name, "belgian pro league") || str_equal(
        name,
        "premier league",
    ) || str_equal(name, "ligue 1") || str_equal(name, "serie a") {
        12
    } else if str_equal(name, "serie b") || str_equal(name, "championship") || str_equal(
        name,
        "scottish premier",
    ) || str_equal(name, "league one") || str_equal(name, "ligue 2") || str_equal(
        name,
        "2. bundesliga",
    ) {
        8
    } else {
        10
    }
}

/// Home advantage of a league, in thousandths.
pub fn home_advantage_per_mille(competition: &str) -> (r: u32)
    ensures
        r == home_advantage(unicode_lowercase(competition@)),
{
    let name = to_lowercase(competition);
    home_advantage_of_lowercase(name.as_str())
}

/// Base draw probability of a league, in thousandths, given its lowercase name.
pub fn draw_probability_of_lowercase(name: &str) -> (r: u32)
    ensures
        r == draw_probability(name@),
{
    if str_equal(name, "serie b") {
        331
    } else if str_equal(name, "segunda division") {
        303
    } else if str_equal(name, "ligue 2") || str_equal(name, "2. bundesliga") {
        294
    } else if str_equal(name, "championship") {
        279
    } else if str_equal(name, "league one") || str_equal(name, "ligue 1") || str_equal(
        name,
        "serie a",
    ) {
        261
    } else if str_equal(name, "belgian pro league") || str_equal(name, "super lig") || str_equal(
        name,
        "bundesliga",
    ) {
        252
    } else if str_equal(name, "la liga") || str_equal(name, "premier league") || str_equal(
        name,
        "primeira liga",
    ) {
        242
    } else if str_equal(name, "eredivisie") {
        231
    } else {
        267
    }
}

/// Base draw probability of a league, in thousandths.
pub fn draw_probability_per_mille(competition: &str) -> (r: u32)
    ensures
        r == draw_probability(unicode_lowercase(competition@)),
{
    let name = to_lowercase(competition);
    draw_probability_of_lowercase(name.as_str())
}

/// Offensive boost of a team, in hundredths, given its lowercase name.
pub fn offensive_boost_of_lowercase(name: &str) -> (r: u32)
    ensures
        r == offensive_boost(name@),
{
    if str_equal(name, "barcelona") {
        115
    } else if str_equal(name, "paris sg") || str_equal(name, "psg") || str_equal(name, "benfica")
        || str_equal(name, "bayern munich") || str_equal(name, "bayern") {
        112
    } else if str_equal(name, "ajax") || str_equal(name, "real madrid") || str_equal(
        name,
        "psv eindhoven",
    ) || str_equal(name, "psv") {
        110
    } else if str_equal(name, "man city") || str_equal(name, "manchester city") || str_equal(
        name,
        "porto",
    ) || str_equal(name, "celtic") {
        108
    } else if str_equal(name, "napoli") || str_equal(name, "juventus") || str_equal(
        name,
        "dortmund",
    ) || str_equal(name, "liverpool") || str_equal(name, "arsenal") || str_equal(name, "lyon") {
        105
    } else if str_equal(name, "galatasaray") || str_equal(name, "feyenoord") {
        104
    } else {
        100
    }
}

/// Offensive boost of a team, in hundredths.
pub fn offensive_boost_percent(team: &str) -> (r: u32)
    ensures
        r == offensive_boost(unicode_lowercase(team@)),
{
    let name = to_lowercase(team);
    offensive_boost_of_lowercase(name.as_str())
}

} // verus!
